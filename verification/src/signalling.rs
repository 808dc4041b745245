//! The signalling server's bookkeeping of scopes: reading a requested scope,
//! the subscriptions a join changes, a client's set of scopes, and the address
//! a client connects from.

use vstd::prelude::*;

use vstd::std_specs::cmp::PartialEqSpecImpl;

use crate::text::{chars_of, contains_seq, push_str, starts_with, string_of, sub_vec, trim, trim_chars, vec_contains, vec_matches_at, vec_starts_with};

verus! {

/// The first position at or after `i` where `p` occurs in `s`; `s.len()` where
/// it does not.
pub open spec fn find_from(s: Seq<char>, p: Seq<char>, i: int) -> int
    decreases s.len() - i,
{
    if i < 0 || i >= s.len() || i + p.len() > s.len() {
        s.len() as int
    } else if s.subrange(i, i + p.len()) == p {
        i
    } else {
        find_from(s, p, i + 1)
    }
}

/// The protocol and the scope of a requested scope `protocol://scope`: the
/// text before the first `://` and the text between it and the next one; with
/// no `://`, no protocol and the whole text.
pub open spec fn scope_parts(s: Seq<char>) -> (Seq<char>, Seq<char>) {
    let k = find_from(s, "://"@, 0);
    if k >= s.len() {
        (Seq::empty(), s)
    } else {
        let rest = s.skip(k + 3);
        (s.take(k), rest.take(find_from(rest, "://"@, 0)))
    }
}

/// Whether some `;`-separated piece of `s` begins with `owner`.
pub open spec fn names_owner(s: Seq<char>) -> bool {
    ||| starts_with(s, "owner"@)
    ||| exists|j: int| 0 <= j < s.len() && s[j] == ';' && #[trigger] starts_with(s.skip(j + 1), "owner"@)
}

/// A scope: its id, whether it is direct, whether the requester owns it.
#[derive(Clone, Debug, Hash)]
pub struct ScopeKey {
    pub scope_id: String,
    pub is_direct: bool,
    pub is_owner: bool,
}

/// A scope, with its id as characters.
pub struct ScopeView {
    pub scope_id: Seq<char>,
    pub is_direct: bool,
    pub is_owner: bool,
}

impl View for ScopeKey {
    type V = ScopeView;

    open spec fn view(&self) -> ScopeView {
        ScopeView { scope_id: self.scope_id@, is_direct: self.is_direct, is_owner: self.is_owner }
    }
}

impl PartialEq for ScopeKey {
    fn eq(&self, other: &Self) -> (r: bool) {
        self.scope_id == other.scope_id && self.is_direct == other.is_direct && self.is_owner
            == other.is_owner
    }
}

impl Eq for ScopeKey {

}

impl PartialEqSpecImpl for ScopeKey {
    open spec fn obeys_eq_spec() -> bool {
        true
    }

    open spec fn eq_spec(&self, other: &ScopeKey) -> bool {
        self@ == other@
    }
}

/// The scope a client asks for with `request`: `[protocol://]id[;flags...]`.
/// The id is the scope up to its first `;`; it is direct when the protocol
/// contains `direct`; it is owned when a `;`-separated piece of the request
/// begins with `owner`.
pub open spec fn scope_of(request: Seq<char>) -> ScopeView {
    let (protocol, scope) = scope_parts(request);
    ScopeView {
        scope_id: scope.take(find_from(scope, ";"@, 0)),
        is_direct: contains_seq(protocol, "direct"@),
        is_owner: names_owner(request),
    }
}

/// The request for the scope `id`: prefixed `direct://` for a direct scope,
/// followed by `;owner` for an owned one.
pub open spec fn scope_request(id: Seq<char>, direct: bool, owner: bool) -> Seq<char> {
    (if direct {
        "direct://"@
    } else {
        Seq::empty()
    }) + id + (if owner {
        ";owner"@
    } else {
        Seq::empty()
    })
}

proof fn lemma_find_from_none(s: Seq<char>, p: Seq<char>, i: int)
    requires
        0 <= i,
        p.len() > 0,
        forall|j: int| i <= j && j + p.len() <= s.len() ==> #[trigger] s.subrange(j, j + p.len()) != p,
    ensures
        find_from(s, p, i) == s.len(),
    decreases s.len() - i,
{
    if i < s.len() && i + p.len() <= s.len() {
        lemma_find_from_none(s, p, i + 1);
    }
}

proof fn lemma_find_from_at(s: Seq<char>, p: Seq<char>, i: int, k: int)
    requires
        0 <= i <= k,
        p.len() > 0,
        k + p.len() <= s.len(),
        s.subrange(k, k + p.len()) == p,
        forall|j: int| i <= j < k ==> #[trigger] s.subrange(j, j + p.len()) != p,
    ensures
        find_from(s, p, i) == k,
    decreases k - i,
{
    if i < k {
        lemma_find_from_at(s, p, i + 1, k);
    }
}

/// A scope requested as `scope_request(id, direct, owner)` reads back as the
/// scope `id`, direct and owned as requested, for every id that holds no `;`
/// and no `://` and does not begin with `owner`.
pub proof fn lemma_scope_request_parses_back(id: Seq<char>, direct: bool, owner: bool)
    requires
        !id.contains(';'),
        !contains_seq(id, "://"@),
        !starts_with(id, "owner"@),
    ensures
        scope_of(scope_request(id, direct, owner)) == (ScopeView { scope_id: id, is_direct: direct, is_owner: owner }),
{
    reveal_strlit("direct://");
    reveal_strlit(";owner");
    reveal_strlit("://");
    reveal_strlit("owner");
    reveal_strlit("direct");
    reveal_strlit(";");
    let pre: Seq<char> = if direct {
        "direct://"@
    } else {
        Seq::empty()
    };
    let suf: Seq<char> = if owner {
        ";owner"@
    } else {
        Seq::empty()
    };
    let rest = id + suf;
    let s = scope_request(id, direct, owner);
    assert(s =~= pre + rest);
    let sep = "://"@;
    assert(sep.len() == 3);
    assert forall|j: int| 0 <= j && j + 3 <= rest.len() implies #[trigger] rest.subrange(j, j + 3) != sep by {
        if j + 3 <= id.len() {
            assert(rest.subrange(j, j + 3) =~= id.subrange(j, j + 3));
            if id.subrange(j, j + 3) == sep {
                assert(contains_seq(id, sep));
            }
        } else {
            assert(rest[j + 2] == suf[j + 2 - id.len()]);
            if rest.subrange(j, j + 3) == sep {
                assert(rest.subrange(j, j + 3)[2] == '/');
            }
        }
    }
    lemma_find_from_none(rest, sep, 0);
    assert(rest.take(rest.len() as int) =~= rest);
    if direct {
        assert(s.subrange(6, 9) =~= sep);
        assert forall|j: int| 0 <= j < 6 implies #[trigger] s.subrange(j, j + 3) != sep by {
            if s.subrange(j, j + 3) == sep {
                assert(s.subrange(j, j + 3)[0] == s[j]);
            }
        }
        lemma_find_from_at(s, sep, 0, 6);
        assert(s.skip(9) =~= rest);
        assert(s.take(6) =~= "direct"@);
        assert(s.take(6).subrange(0, 6) =~= "direct"@);
        assert(scope_parts(s).0 == s.take(6));
        let proto = scope_parts(s).0;
        assert(proto.subrange(0, 0 + "direct"@.len() as int) =~= "direct"@);
        assert(contains_seq(proto, "direct"@));
    } else {
        assert(s =~= rest);
        assert(scope_parts(s).0 == Seq::<char>::empty());
        assert(!contains_seq(Seq::<char>::empty(), "direct"@));
    }
    assert(scope_parts(s).1 == rest);
    let semi = ";"@;
    if owner {
        assert(rest.subrange(id.len() as int, id.len() as int + 1) =~= semi);
        assert forall|j: int| 0 <= j < id.len() implies #[trigger] rest.subrange(j, j + 1) != semi by {
            if rest.subrange(j, j + 1) == semi {
                assert(rest.subrange(j, j + 1)[0] == id[j]);
            }
        }
        lemma_find_from_at(rest, semi, 0, id.len() as int);
        let j: int = pre.len() as int + id.len() as int;
        assert(s[j] == ';');
        assert(s.skip(j + 1) =~= "owner"@);
        assert(s.skip(j + 1).take(5) =~= "owner"@);
        assert(starts_with(s.skip(j + 1), "owner"@));
        assert(names_owner(s));
    } else {
        assert(rest =~= id);
        assert forall|j: int| 0 <= j && j + 1 <= rest.len() implies #[trigger] rest.subrange(j, j + 1) != semi by {
            if rest.subrange(j, j + 1) == semi {
                assert(rest.subrange(j, j + 1)[0] == id[j]);
            }
        }
        lemma_find_from_none(rest, semi, 0);
        assert forall|j: int| 0 <= j < s.len() implies s[j] != ';' by {
            if j >= pre.len() {
                assert(s[j] == id[j - pre.len()]);
            }
        }
        if direct {
            if starts_with(s, "owner"@) {
                assert(s.take(5)[0] == s[0]);
            }
        }
        assert(!names_owner(s));
    }
    assert(rest.take(id.len() as int) =~= id);
    assert(scope_of(s).scope_id == id);
    assert(scope_of(s).is_direct == direct);
    assert(scope_of(s).is_owner == owner);
}

proof fn lemma_find_from_bounds(s: Seq<char>, p: Seq<char>, i: int)
    requires
        0 <= i,
    ensures
        i <= find_from(s, p, i) <= s.len() || find_from(s, p, i) == s.len(),
        find_from(s, p, i) <= s.len(),
        find_from(s, p, i) < s.len() ==> find_from(s, p, i) + p.len() <= s.len()
            && s.subrange(find_from(s, p, i), find_from(s, p, i) + p.len()) == p,
    decreases s.len() - i,
{
    if i >= s.len() || i + p.len() > s.len() {
    } else if s.subrange(i, i + p.len()) == p {
    } else {
        lemma_find_from_bounds(s, p, i + 1);
    }
}

fn find_exec(v: &Vec<char>, p: &Vec<char>) -> (r: usize)
    requires
        p@.len() > 0,
    ensures
        r == find_from(v@, p@, 0),
        r <= v@.len(),
{
    let n = v.len();
    let mut i: usize = 0;
    while i < n
        invariant
            n == v@.len(),
            p@.len() > 0,
            i <= n,
            find_from(v@, p@, 0) == find_from(v@, p@, i as int),
        decreases n - i,
    {
        if vec_matches_at(v, p, i) {
            return i;
        }
        if p.len() > n - i {
            proof {
                lemma_find_from_bounds(v@, p@, i as int);
            }
            return n;
        }
        i += 1;
    }
    n
}

fn names_owner_exec(v: &Vec<char>) -> (r: bool)
    ensures
        r == names_owner(v@),
{
    let owner = chars_of("owner");
    if vec_starts_with(v, &owner) {
        return true;
    }
    let n = v.len();
    let mut j: usize = 0;
    while j < n
        invariant
            n == v@.len(),
            j <= n,
            owner@ == "owner"@,
            forall|k: int| 0 <= k < j && v@[k] == ';' ==> !#[trigger] starts_with(v@.skip(k + 1), "owner"@),
        decreases n - j,
    {
        if v[j] == ';' {
            let rest = sub_vec(v, j + 1, n);
            assert(rest@ =~= v@.skip(j + 1));
            if vec_starts_with(&rest, &owner) {
                return true;
            }
        }
        j += 1;
    }
    false
}

impl ScopeKey {
    /// The scope a client asks for with `request_scope`.
    pub fn new(request_scope: &str) -> (r: Self)
        ensures
            r@ == scope_of(request_scope@),
    {
        let s = chars_of(request_scope);
        let sep = chars_of("://");
        proof {
            reveal_strlit("://");
        }
        let k = find_exec(&s, &sep);
        let (protocol, scope) = if k >= s.len() {
            (Vec::new(), sub_vec(&s, 0, s.len()))
        } else {
            proof {
                lemma_find_from_bounds(s@, sep@, 0);
            }
            let rest = sub_vec(&s, k + 3, s.len());
            let k2 = find_exec(&rest, &sep);
            (sub_vec(&s, 0, k), sub_vec(&rest, 0, k2))
        };
        proof {
            if k >= s@.len() {
                assert(s@.subrange(0, s@.len() as int) =~= s@);
                assert(protocol@ =~= Seq::<char>::empty());
            } else {
                assert(s@.subrange(k + 3, s@.len() as int) =~= s@.skip(k + 3));
                assert(s@.subrange(0, k as int) =~= s@.take(k as int));
            }
        }
        let semi = chars_of(";");
        proof {
            reveal_strlit(";");
        }
        let cut = find_exec(&scope, &semi);
        let id = sub_vec(&scope, 0, cut);
        assert(id@ =~= scope@.take(cut as int));
        let direct = chars_of("direct");
        let is_direct = vec_contains(&protocol, &direct);
        let is_owner = names_owner_exec(&s);
        ScopeKey { scope_id: string_of(&id), is_direct, is_owner }
    }

    /// A scope from its parts.
    pub fn from_parts(scope_id: String, is_direct: bool, is_owner: bool) -> (r: Self)
        ensures
            r.scope_id == scope_id,
            r.is_direct == is_direct,
            r.is_owner == is_owner,
    {
        ScopeKey { scope_id, is_direct, is_owner }
    }

    /// Whether messages sent to this scope go to all its members; they
    /// always do.
    pub fn should_broad_cast(&self) -> (r: bool)
        ensures
            r,
    {
        true
    }
}

/// The views of a list of scopes.
pub open spec fn scope_views(v: Seq<ScopeKey>) -> Seq<ScopeView> {
    v.map_values(|k: ScopeKey| k@)
}

/// Whether a scope is not in `other`.
pub open spec fn not_in(other: Seq<ScopeView>) -> spec_fn(ScopeView) -> bool {
    |k: ScopeView| !other.contains(k)
}

/// Whether a scope is in `other`.
pub open spec fn is_in(other: Seq<ScopeView>) -> spec_fn(ScopeView) -> bool {
    |k: ScopeView| other.contains(k)
}

/// Whether a scope differs from `x`.
pub open spec fn other_than(x: ScopeView) -> spec_fn(ScopeView) -> bool {
    |k: ScopeView| k != x
}

/// The scopes of `v` that are not in `other`, in order.
pub open spec fn missing_from(v: Seq<ScopeView>, other: Seq<ScopeView>) -> Seq<ScopeView> {
    v.filter(not_in(other))
}

fn contains_scope(v: &Vec<ScopeKey>, k: &ScopeKey) -> (r: bool)
    ensures
        r == scope_views(v@).contains(k@),
{
    let mut i: usize = 0;
    while i < v.len()
        invariant
            i <= v@.len(),
            forall|j: int| 0 <= j < i ==> v@[j]@ != k@,
        decreases v@.len() - i,
    {
        if v[i] == *k {
            assert(scope_views(v@)[i as int] == k@);
            return true;
        }
        i += 1;
    }
    proof {
        if scope_views(v@).contains(k@) {
            let j = choose|j: int| 0 <= j < scope_views(v@).len() && scope_views(v@)[j] == k@;
            assert(v@[j]@ == k@);
        }
    }
    false
}

fn clone_scope(k: &ScopeKey) -> (r: ScopeKey)
    ensures
        r@ == k@,
{
    ScopeKey { scope_id: k.scope_id.clone(), is_direct: k.is_direct, is_owner: k.is_owner }
}

fn scopes_missing_from(v: &Vec<ScopeKey>, other: &Vec<ScopeKey>) -> (r: Vec<ScopeKey>)
    ensures
        scope_views(r@) == missing_from(scope_views(v@), scope_views(other@)),
{
    let ghost o = scope_views(other@);
    let ghost all = scope_views(v@);
    let mut r: Vec<ScopeKey> = Vec::new();
    let mut i: usize = 0;
    while i < v.len()
        invariant
            i <= v@.len(),
            o == scope_views(other@),
            all == scope_views(v@),
            scope_views(r@) == all.take(i as int).filter(not_in(o)),
        decreases v@.len() - i,
    {
        let ghost before = scope_views(r@);
        let inside = contains_scope(other, &v[i]);
        if !inside {
            r.push(clone_scope(&v[i]));
        }
        proof {
            reveal_with_fuel(Seq::<_>::filter, 1);
            let next = all.take(i as int + 1);
            assert(next.drop_last() =~= all.take(i as int));
            assert(next.last() == v@[i as int]@);
            if !inside {
                assert(scope_views(r@) =~= before.push(v@[i as int]@));
            } else {
                assert(scope_views(r@) =~= before);
            }
        }
        i += 1;
    }
    assert(all.take(v@.len() as int) =~= all);
    r
}

/// At most this many scopes of one request are honoured.
pub const MAX_REQUESTED_SCOPES: usize = 64;

/// The scopes a client asks for: the first 64 of `requests`.
pub fn requested_scopes(requests: &Vec<String>) -> (r: Vec<ScopeKey>)
    ensures
        r@.len() == (if requests@.len() < 64 {
            requests@.len()
        } else {
            64
        }),
        forall|i: int| 0 <= i < r@.len() ==> #[trigger] r@[i]@ == scope_of(requests@[i]@),
{
    let n = if requests.len() < MAX_REQUESTED_SCOPES {
        requests.len()
    } else {
        MAX_REQUESTED_SCOPES
    };
    let mut r: Vec<ScopeKey> = Vec::new();
    let mut i: usize = 0;
    while i < n
        invariant
            n <= requests@.len(),
            i <= n,
            r@.len() == i,
            forall|j: int| 0 <= j < i ==> #[trigger] r@[j]@ == scope_of(requests@[j]@),
        decreases n - i,
    {
        r.push(ScopeKey::new(requests[i].as_str()));
        i += 1;
    }
    r
}

/// What a join changes: the scopes of `current` the client leaves (those not
/// requested), then the requested scopes it enters (those it is not in), each
/// in order.
pub fn scope_changes(current: &Vec<ScopeKey>, requested: &Vec<ScopeKey>) -> (r: (Vec<ScopeKey>, Vec<ScopeKey>))
    ensures
        scope_views(r.0@) == missing_from(scope_views(current@), scope_views(requested@)),
        scope_views(r.1@) == missing_from(scope_views(requested@), scope_views(current@)),
{
    (scopes_missing_from(current, requested), scopes_missing_from(requested, current))
}

proof fn lemma_filter_membership(s: Seq<ScopeView>, p: spec_fn(ScopeView) -> bool, k: ScopeView)
    ensures
        s.filter(p).contains(k) <==> (s.contains(k) && p(k)),
{
    if s.filter(p).contains(k) {
        s.lemma_filter_contains_rev(p, k);
        let i = choose|i: int| 0 <= i < s.filter(p).len() && s.filter(p)[i] == k;
        s.lemma_filter_pred(p, i);
    }
    if s.contains(k) && p(k) {
        let i = choose|i: int| 0 <= i < s.len() && s[i] == k;
        s.lemma_filter_contains(p, i);
    }
}

/// After a join, a client is in exactly the scopes it asked for: those it
/// kept (its scopes that were requested) together with those it entered;
/// it leaves exactly its scopes that were not requested.
pub proof fn lemma_join_reaches_request(current: Seq<ScopeView>, requested: Seq<ScopeView>, k: ScopeView)
    ensures
        (current.filter(is_in(requested)).contains(k) || missing_from(requested, current).contains(k))
            <==> requested.contains(k),
        missing_from(current, requested).contains(k) <==> (current.contains(k) && !requested.contains(k)),
{
    lemma_filter_membership(current, is_in(requested), k);
    lemma_filter_membership(requested, not_in(current), k);
    lemma_filter_membership(current, not_in(requested), k);
}

/// Adds `scope` to a client's scopes unless it is there already.
pub fn add_scope(scopes: &mut Vec<ScopeKey>, scope: ScopeKey)
    ensures
        scope_views(old(scopes)@).contains(scope@) ==> scope_views(final(scopes)@) == scope_views(
            old(scopes)@,
        ),
        !scope_views(old(scopes)@).contains(scope@) ==> scope_views(final(scopes)@) == scope_views(
            old(scopes)@,
        ).push(scope@),
{
    if !contains_scope(scopes, &scope) {
        let ghost before = scope_views(scopes@);
        let ghost v = scope@;
        scopes.push(scope);
        assert(scope_views(scopes@) =~= before.push(v));
    }
}

/// Removes `scope` from a client's scopes.
pub fn remove_scope(scopes: &mut Vec<ScopeKey>, scope: &ScopeKey)
    ensures
        scope_views(final(scopes)@) == scope_views(old(scopes)@).filter(other_than(scope@)),
{
    let ghost all = scope_views(scopes@);
    let ghost target = scope@;
    let mut kept: Vec<ScopeKey> = Vec::new();
    let mut i: usize = 0;
    while i < scopes.len()
        invariant
            i <= scopes@.len(),
            all == scope_views(scopes@),
            target == scope@,
            scope_views(kept@) == all.take(i as int).filter(other_than(target)),
        decreases scopes@.len() - i,
    {
        let ghost before = scope_views(kept@);
        let same = scopes[i] == *scope;
        if !same {
            kept.push(clone_scope(&scopes[i]));
        }
        proof {
            reveal_with_fuel(Seq::<_>::filter, 1);
            let next = all.take(i as int + 1);
            assert(next.drop_last() =~= all.take(i as int));
            assert(next.last() == scopes@[i as int]@);
            if !same {
                assert(scope_views(kept@) =~= before.push(scopes@[i as int]@));
            } else {
                assert(scope_views(kept@) =~= before);
            }
        }
        i += 1;
    }
    assert(all.take(scopes@.len() as int) =~= all);
    *scopes = kept;
}

/// The text of a header up to its first comma, trimmed.
pub open spec fn first_listed(h: Seq<char>) -> Seq<char> {
    trim(h.take(find_from(h, ","@, 0)))
}

/// The address a client connects from: the first address of
/// `CF-Connecting-IP`, else the first of `X-Forwarded-For`, else
/// `X-Real-IP`, else the peer address of the connection. A header counts
/// where it is present and its value is visible ASCII.
pub open spec fn client_ip_spec(
    cf_connecting_ip: Option<Seq<char>>,
    forwarded_for: Option<Seq<char>>,
    real_ip: Option<Seq<char>>,
    peer_addr: Seq<char>,
) -> Seq<char> {
    match cf_connecting_ip {
        Some(h) => first_listed(h),
        None => match forwarded_for {
            Some(h) => first_listed(h),
            None => match real_ip {
                Some(h) => h,
                None => peer_addr,
            },
        },
    }
}

/// The view of an optional text.
pub open spec fn str_view(o: Option<&str>) -> Option<Seq<char>> {
    match o {
        Some(s) => Some(s@),
        None => None,
    }
}

fn first_listed_exec(h: &str) -> (r: String)
    ensures
        r@ == first_listed(h@),
{
    let v = chars_of(h);
    let comma = chars_of(",");
    proof {
        reveal_strlit(",");
    }
    let k = find_exec(&v, &comma);
    let head = sub_vec(&v, 0, k);
    assert(head@ =~= v@.take(k as int));
    let t = trim_chars(&head);
    string_of(&t)
}

/// The address a client connects from (see `client_ip_spec`).
pub fn extract_client_ip(
    cf_connecting_ip: Option<&str>,
    forwarded_for: Option<&str>,
    real_ip: Option<&str>,
    peer_addr: &str,
) -> (r: String)
    ensures
        r@ == client_ip_spec(str_view(cf_connecting_ip), str_view(forwarded_for), str_view(real_ip), peer_addr@),
{
    match cf_connecting_ip {
        Some(h) => first_listed_exec(h),
        None => match forwarded_for {
            Some(h) => first_listed_exec(h),
            None => match real_ip {
                Some(h) => string_of(&chars_of(h)),
                None => string_of(&chars_of(peer_addr)),
            },
        },
    }
}

/// How many of `s` are set.
pub open spec fn count_true(s: Seq<bool>) -> nat
    decreases s.len(),
{
    if s.len() == 0 {
        0
    } else {
        count_true(s.drop_last()) + if s.last() {
            1nat
        } else {
            0nat
        }
    }
}

proof fn lemma_count_true_unset(s: Seq<bool>)
    requires
        count_true(s) < s.len(),
    ensures
        exists|j: int| 0 <= j < s.len() && !s[j],
    decreases s.len(),
{
    if s.len() > 0 && s.last() {
        lemma_count_true_unset(s.drop_last());
        let j = choose|j: int| 0 <= j < s.drop_last().len() && !s.drop_last()[j];
        assert(!s[j]);
    }
}

proof fn lemma_count_true_set(s: Seq<bool>, i: int)
    requires
        0 <= i < s.len(),
        !s[i],
    ensures
        count_true(s.update(i, true)) == count_true(s) + 1,
    decreases s.len(),
{
    if i < s.len() - 1 {
        lemma_count_true_set(s.drop_last(), i);
        assert(s.update(i, true).drop_last() =~= s.drop_last().update(i, true));
    } else {
        assert(s.update(i, true).drop_last() =~= s.drop_last());
    }
}

proof fn lemma_count_true_none(n: nat)
    ensures
        count_true(Seq::new(n, |i: int| false)) == 0,
    decreases n,
{
    if n > 0 {
        assert(Seq::new(n, |i: int| false).drop_last() =~= Seq::new((n - 1) as nat, |i: int| false));
        lemma_count_true_none((n - 1) as nat);
    }
}

/// The last message order each sender was seen with, as characters.
pub open spec fn order_views(v: Seq<(String, u64)>) -> Seq<(Seq<char>, u64)> {
    v.map_values(|e: (String, u64)| (e.0@, e.1))
}

/// Whether no sender appears twice.
pub open spec fn senders_unique(v: Seq<(Seq<char>, u64)>) -> bool {
    forall|i: int, j: int| 0 <= i < j < v.len() ==> #[trigger] v[i].0 != #[trigger] v[j].0
}

/// Whether `new` is what pruning leaves of `old`: nothing while there are at
/// most 200 senders; otherwise 100 of them, none seen with an earlier order
/// than any dropped one.
pub open spec fn pruned_orders(old: Seq<(Seq<char>, u64)>, new: Seq<(Seq<char>, u64)>) -> bool {
    if old.len() <= 200 {
        new == old
    } else {
        &&& new.len() == 100
        &&& senders_unique(new)
        &&& forall|i: int| 0 <= i < new.len() ==> old.contains(#[trigger] new[i])
        &&& forall|x: (Seq<char>, u64), i: int|
            #![trigger old.contains(x), new[i]]
            old.contains(x) && !new.contains(x) && 0 <= i < new.len() ==> x.1 <= new[i].1
    }
}

/// The position of `sender` among `v`, or `v.len()`.
pub open spec fn sender_position(v: Seq<(Seq<char>, u64)>, sender: Seq<char>) -> int
    decreases v.len(),
{
    if v.len() == 0 {
        0
    } else if v.last().0 == sender {
        v.len() - 1
    } else {
        let k = sender_position(v.drop_last(), sender);
        if k == v.len() - 1 {
            v.len() as int
        } else {
            k
        }
    }
}

/// The last order of `sender` in `v`, 0 if it has none.
pub open spec fn last_order(v: Seq<(Seq<char>, u64)>, sender: Seq<char>) -> u64 {
    let k = sender_position(v, sender);
    if 0 <= k < v.len() {
        v[k].1
    } else {
        0
    }
}

/// `v` with the order of `sender` set to `order`, the sender added at the end
/// if it is new.
pub open spec fn with_order(v: Seq<(Seq<char>, u64)>, sender: Seq<char>, order: u64) -> Seq<(Seq<char>, u64)> {
    let k = sender_position(v, sender);
    if 0 <= k < v.len() {
        v.update(k, (sender, order))
    } else {
        v.push((sender, order))
    }
}

proof fn lemma_sender_position(v: Seq<(Seq<char>, u64)>, sender: Seq<char>)
    ensures
        0 <= sender_position(v, sender) <= v.len(),
        sender_position(v, sender) < v.len() ==> v[sender_position(v, sender)].0 == sender,
        sender_position(v, sender) == v.len() ==> forall|i: int| 0 <= i < v.len() ==> v[i].0 != sender,
    decreases v.len(),
{
    if v.len() > 0 && v.last().0 != sender {
        lemma_sender_position(v.drop_last(), sender);
        let k = sender_position(v.drop_last(), sender);
        if k < v.len() - 1 {
            assert(v[k] == v.drop_last()[k]);
        } else {
            assert forall|i: int| 0 <= i < v.len() implies v[i].0 != sender by {
                if i < v.len() - 1 {
                    assert(v[i] == v.drop_last()[i]);
                }
            }
        }
    }
}

/// The message orders a signalling client has forwarded, per sender: a
/// message with a nonzero order is forwarded only when its order is above
/// the last one forwarded from its sender.
pub struct SentOrders {
    entries: Vec<(String, u64)>,
}

impl SentOrders {
    /// The senders and their last orders.
    pub closed spec fn view_entries(&self) -> Seq<(Seq<char>, u64)> {
        order_views(self.entries@)
    }

    /// The invariant: each sender has one entry.
    pub closed spec fn wf(&self) -> bool {
        senders_unique(self.view_entries())
    }

    /// Nothing forwarded yet.
    pub fn new() -> (r: Self)
        ensures
            r.wf(),
            r.view_entries().len() == 0,
    {
        let r = SentOrders { entries: Vec::new() };
        assert(r.view_entries() =~= Seq::<(Seq<char>, u64)>::empty());
        r
    }

    /// Past 200 senders, keeps the 100 seen with the latest orders.
    pub fn prune_if_full(&mut self)
        requires
            old(self).wf(),
        ensures
            final(self).wf(),
            pruned_orders(old(self).view_entries(), final(self).view_entries()),
    {
        let n = self.entries.len();
        if n <= 200 {
            return;
        }
        let ghost all = self.view_entries();
        let mut taken: Vec<bool> = Vec::new();
        let mut z: usize = 0;
        while z < n
            invariant
                z <= n,
                taken@ == Seq::new(z as nat, |i: int| false),
            decreases n - z,
        {
            taken.push(false);
            assert(taken@ =~= Seq::new((z + 1) as nat, |i: int| false));
            z += 1;
        }
        proof {
            lemma_count_true_none(n as nat);
        }
        let ghost mut idx: Seq<int> = Seq::empty();
        let mut kept: Vec<(String, u64)> = Vec::new();
        let mut round: usize = 0;
        while round < 100
            invariant
                n == self.entries@.len(),
                n > 200,
                all == order_views(self.entries@),
                senders_unique(all),
                taken@.len() == n,
                round <= 100,
                count_true(taken@) == round,
                idx.len() == round,
                order_views(kept@).len() == round,
                forall|k: int| 0 <= k < round ==> 0 <= #[trigger] idx[k] < n && taken@[idx[k]],
                forall|k: int| 0 <= k < round ==> #[trigger] order_views(kept@)[k] == all[idx[k]],
                forall|k1: int, k2: int| 0 <= k1 < k2 < round ==> #[trigger] idx[k1] != #[trigger] idx[k2],
                forall|i: int| 0 <= i < n && taken@[i] ==> exists|k: int| 0 <= k < round && #[trigger] idx[k] == i,
                forall|k: int, j: int|
                    0 <= k < round && 0 <= j < n && !taken@[j] ==> all[#[trigger] idx[k]].1 >= #[trigger] all[j].1,
            decreases 100 - round,
        {
            proof {
                lemma_count_true_unset(taken@);
            }
            let mut best: usize = n;
            let mut i: usize = 0;
            while i < n
                invariant
                    n == self.entries@.len(),
                    all == order_views(self.entries@),
                    taken@.len() == n,
                    i <= n,
                    best == n || (best < i && !taken@[best as int]),
                    best < n ==> forall|j: int| 0 <= j < i && !taken@[j] ==> all[best as int].1 >= #[trigger] all[j].1,
                    best == n ==> forall|j: int| 0 <= j < i ==> taken@[j],
                decreases n - i,
            {
                if !taken[i] {
                    if best == n || self.entries[i].1 > self.entries[best].1 {
                        best = i;
                    }
                }
                i += 1;
            }
            proof {
                if best == n {
                    let j = choose|j: int| 0 <= j < taken@.len() && !taken@[j];
                    assert(taken@[j]);
                }
            }
            assert(best < n);
            proof {
                lemma_count_true_set(taken@, best as int);
            }
            let ghost before = order_views(kept@);
            taken.set(best, true);
            let e = (self.entries[best].0.clone(), self.entries[best].1);
            kept.push(e);
            proof {
                assert(order_views(kept@) =~= before.push(all[best as int]));
                let old_idx = idx;
                idx = idx.push(best as int);
                assert forall|i2: int| 0 <= i2 < n && taken@[i2] implies exists|k: int| 0 <= k < round + 1 && #[trigger] idx[k] == i2 by {
                    if i2 == best {
                        assert(idx[round as int] == i2);
                    } else {
                        let k = choose|k: int| 0 <= k < round && #[trigger] old_idx[k] == i2;
                        assert(idx[k] == i2);
                    }
                }
                assert forall|k1: int, k2: int| 0 <= k1 < k2 < round + 1 implies #[trigger] idx[k1] != #[trigger] idx[k2] by {
                    if k2 == round {
                        assert(taken@[old_idx[k1]] || old_idx[k1] == best);
                    }
                }
            }
            round += 1;
        }
        proof {
            let new = order_views(kept@);
            assert forall|i: int| 0 <= i < new.len() implies all.contains(#[trigger] new[i]) by {
                assert(all[idx[i]] == new[i]);
            }
            assert forall|a: int, b: int| 0 <= a < b < new.len() implies #[trigger] new[a].0 != #[trigger] new[b].0 by {
                assert(idx[a] != idx[b]);
                if idx[a] < idx[b] {
                    assert(all[idx[a]].0 != all[idx[b]].0);
                } else {
                    assert(all[idx[b]].0 != all[idx[a]].0);
                }
            }
            assert forall|x: (Seq<char>, u64), i: int|
                #![trigger all.contains(x), new[i]]
                all.contains(x) && !new.contains(x) && 0 <= i < new.len() implies x.1 <= new[i].1 by {
                let j = choose|j: int| 0 <= j < all.len() && all[j] == x;
                if taken@[j] {
                    let k = choose|k: int| 0 <= k < round && #[trigger] idx[k] == j;
                    assert(new[k] == x);
                    assert(new.contains(x));
                } else {
                    assert(all[idx[i]].1 >= all[j].1);
                }
            }
        }
        self.entries = kept;
    }

    fn position(&self, sender: &str) -> (r: usize)
        requires
            self.wf(),
        ensures
            r as int == sender_position(self.view_entries(), sender@),
    {
        let ghost v = self.view_entries();
        proof {
            lemma_sender_position(v, sender@);
        }
        let mut i: usize = 0;
        while i < self.entries.len()
            invariant
                v == self.view_entries(),
                senders_unique(v),
                i <= self.entries@.len(),
                forall|j: int| 0 <= j < i ==> v[j].0 != sender@,
                0 <= sender_position(v, sender@) <= v.len(),
                sender_position(v, sender@) < v.len() ==> v[sender_position(v, sender@)].0 == sender@,
                sender_position(v, sender@) == v.len() ==> forall|j: int| 0 <= j < v.len() ==> v[j].0 != sender@,
            decreases self.entries@.len() - i,
        {
            if str_eq_string(&self.entries[i].0, sender) {
                proof {
                    assert(v[i as int].0 == sender@);
                    let k = sender_position(v, sender@);
                    if k != i as int {
                        if k < i as int {
                            assert(v[k].0 != sender@);
                        } else {
                            assert(v[i as int].0 != v[k].0);
                        }
                    }
                }
                return i;
            }
            i += 1;
        }
        i
    }

    /// Whether a message from `sender` with order `order` is forwarded,
    /// after pruning; order 0 always is. A sender's last order becomes
    /// `order` when it is forwarded with a nonzero order; a new sender starts
    /// at 0.
    pub fn accept_order(&mut self, sender: &str, order: u64) -> (r: bool)
        requires
            old(self).wf(),
        ensures
            final(self).wf(),
            exists|pre: Seq<(Seq<char>, u64)>|
                #[trigger] pruned_orders(old(self).view_entries(), pre) && {
                    let last = last_order(pre, sender@);
                    &&& r == (order == 0 || last < order)
                    &&& final(self).view_entries() == with_order(
                        pre,
                        sender@,
                        if r && order != 0 {
                            order
                        } else {
                            last
                        },
                    )
                },
    {
        self.prune_if_full();
        let ghost pre = self.view_entries();
        let k = self.position(sender);
        proof {
            lemma_sender_position(pre, sender@);
        }
        let last = if k < self.entries.len() {
            self.entries[k].1
        } else {
            0
        };
        let accepted = order == 0 || last < order;
        let next = if accepted && order != 0 {
            order
        } else {
            last
        };
        let mut name = String::new();
        push_str(&mut name, sender);
        if k < self.entries.len() {
            self.entries.set(k, (name, next));
            proof {
                assert(self.view_entries() =~= pre.update(k as int, (sender@, next)));
                assert forall|i: int, j: int| 0 <= i < j < self.view_entries().len() implies #[trigger] self.view_entries()[i].0 != #[trigger] self.view_entries()[j].0 by {
                    assert(pre[i].0 != pre[j].0);
                }
            }
        } else {
            self.entries.push((name, next));
            proof {
                assert(self.view_entries() =~= pre.push((sender@, next)));
                assert forall|i: int, j: int| 0 <= i < j < self.view_entries().len() implies #[trigger] self.view_entries()[i].0 != #[trigger] self.view_entries()[j].0 by {
                    if j < pre.len() {
                        assert(pre[i].0 != pre[j].0);
                    }
                }
            }
        }
        accepted
    }
}

fn str_eq_string(a: &String, b: &str) -> (r: bool)
    ensures
        r == (a@ == b@),
{
    crate::text::str_eq(a.as_str(), b)
}

/// The largest frame a signalling client may send, in bytes; larger ones are
/// ignored.
pub const MAX_FRAME_BYTES: usize = 32768;

/// Whether a frame of `len` bytes from a client is read at all.
pub fn frame_accepted(len: usize) -> (r: bool)
    ensures
        r == (len <= MAX_FRAME_BYTES),
{
    len <= MAX_FRAME_BYTES
}

/// Whether a message from `from_id`, addressed to `to_id` if to anyone, is
/// delivered to the client that joined as `client_id`: never its own
/// messages, and a message addressed to someone else is not delivered.
pub fn addressed_to(from_id: &str, to_id: Option<&str>, client_id: &str) -> (r: bool)
    ensures
        r == (from_id@ != client_id@ && match to_id {
            Some(t) => t@ == client_id@,
            None => true,
        }),
{
    if crate::text::str_eq(from_id, client_id) {
        return false;
    }
    match to_id {
        Some(t) => crate::text::str_eq(t, client_id),
        None => true,
    }
}

/// Whether a delivered message is given the ICE configuration for the pair
/// of peers: joins and offers are.
pub fn carries_ice_config(has_join: bool, has_offer: bool) -> (r: bool)
    ensures
        r == (has_join || has_offer),
{
    has_join || has_offer
}

} // verus!
