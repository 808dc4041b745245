//! ICE server configuration: which URLs name STUN and TURN servers, the
//! `host:port` each one is reached at, and the TURN credentials.

use vstd::prelude::*;

use crate::decimal::{all_digits, is_digit, parse_u16, parse_u16_spec};
use crate::ipparse::{parse_ipv6, parse_ipv6_spec};
use crate::text::{
    chars_of, contains_seq, lemma_trim_idempotent, push_all, push_str, starts_with, string_of, sub_vec, trim,
    trim_chars, vec_contains, vec_starts_with,
};

verus! {

/// The ICE servers a peer is told to use, with the credentials for TURN.
#[derive(Clone, Debug)]
pub struct IceConfig {
    pub urls: Vec<String>,
    pub username: Option<String>,
    pub credential: Option<String>,
}

/// A TURN long-term credential.
#[derive(Clone, Debug)]
pub struct TurnCredentials {
    pub username: String,
    pub password: String,
}

/// The STUN port used when a URL names none.
pub open spec fn default_port_suffix() -> Seq<char> {
    ":3478"@
}

/// Position of the last `:` in `s`, or -1.
pub open spec fn last_colon(s: Seq<char>) -> int
    decreases s.len(),
{
    if s.len() == 0 {
        -1
    } else if s.last() == ':' {
        s.len() - 1
    } else {
        last_colon(s.drop_last())
    }
}

/// Position of the first `c` in `s`, or `s.len()`.
pub open spec fn first_index_of(s: Seq<char>, c: char) -> int
    decreases s.len(),
{
    if s.len() == 0 {
        0
    } else if s[0] == c {
        0
    } else {
        1 + first_index_of(s.drop_first(), c)
    }
}

/// Whether `h` ends with `:port` for a port number that `u16` parsing accepts.
pub open spec fn has_port_suffix(h: Seq<char>) -> bool {
    let k = last_colon(h);
    k >= 0 && parse_u16_spec(h.skip(k + 1)) is Some
}

/// The `host:port` a STUN/TURN host part is reached at: a bracketed IPv6
/// literal keeps an explicit port or gets 3478; a bare IPv6 literal is
/// bracketed and gets 3478; a `host:port` stays; any other host gets 3478.
pub open spec fn host_port_of(h: Seq<char>) -> Seq<char> {
    if starts_with(h, "["@) {
        if contains_seq(h, "]:"@) {
            h
        } else {
            h + default_port_suffix()
        }
    } else if parse_ipv6_spec(h) is Some {
        "["@ + h + "]:3478"@
    } else if has_port_suffix(h) {
        h
    } else {
        h + default_port_suffix()
    }
}

/// The address a `stun:` URL names, when it is one and names anything.
pub open spec fn stun_url_host_port_spec(url: Seq<char>) -> Option<Seq<char>> {
    if !starts_with(url, "stun:"@) {
        None
    } else {
        let t = trim(url.skip("stun:"@.len() as int));
        if t.len() == 0 {
            None
        } else {
            Some(host_port_of(t))
        }
    }
}

/// The address a `turn:` URL names, when it is one and names anything; a
/// `?transport=` query is dropped first.
pub open spec fn turn_url_host_port_spec(url: Seq<char>) -> Option<Seq<char>> {
    if !starts_with(url, "turn:"@) {
        None
    } else {
        let t = trim(url.skip("turn:"@.len() as int));
        if t.len() == 0 {
            None
        } else {
            Some(host_port_of(trim(t.take(first_index_of(t, '?')))))
        }
    }
}

pub(crate) proof fn lemma_first_index_of_is(s: Seq<char>, c: char, k: int)
    requires
        0 <= k <= s.len(),
        forall|j: int| 0 <= j < k ==> s[j] != c,
        k < s.len() ==> s[k] == c,
    ensures
        first_index_of(s, c) == k,
    decreases k,
{
    if k > 0 {
        assert forall|j: int| 0 <= j < k - 1 implies s.drop_first()[j] != c by {
            assert(s.drop_first()[j] == s[j + 1]);
        }
        lemma_first_index_of_is(s.drop_first(), c, k - 1);
    }
}

proof fn lemma_last_colon_is(s: Seq<char>, k: int)
    requires
        -1 <= k < s.len(),
        k >= 0 ==> s[k] == ':',
        forall|j: int| k < j < s.len() ==> s[j] != ':',
    ensures
        last_colon(s) == k,
    decreases s.len(),
{
    if s.len() > 0 && k < s.len() - 1 {
        lemma_last_colon_is(s.drop_last(), k);
    }
}

/// Computes `host_port_of` for a host part.
fn host_port(h: &Vec<char>) -> (r: String)
    ensures
        r@ == host_port_of(h@),
{
    let bracket = chars_of("[");
    if vec_starts_with(h, &bracket) {
        let close = chars_of("]:");
        let mut r = string_of(h);
        if !vec_contains(h, &close) {
            push_str(&mut r, ":3478");
        }
        return r;
    }
    if parse_ipv6(h).is_some() {
        let mut r = String::new();
        push_str(&mut r, "[");
        push_all(&mut r, h);
        push_str(&mut r, "]:3478");
        return r;
    }
    let n = h.len();
    let mut k: usize = n;
    while k > 0 && h[k - 1] != ':'
        invariant
            k <= n,
            n == h@.len(),
            forall|j: int| k <= j < n ==> h@[j] != ':',
        decreases k,
    {
        k -= 1;
    }
    let mut has_port = false;
    if k > 0 {
        proof {
            lemma_last_colon_is(h@, k - 1);
        }
        let port = sub_vec(h, k, n);
        assert(port@ =~= h@.skip(k as int));
        has_port = parse_u16(&port).is_some();
    } else {
        proof {
            lemma_last_colon_is(h@, -1);
        }
    }
    let mut r = string_of(h);
    if !has_port {
        push_str(&mut r, ":3478");
    }
    r
}

proof fn lemma_port_has_no_colon(p: Seq<char>)
    requires
        parse_u16_spec(p) is Some,
    ensures
        forall|j: int| 0 <= j < p.len() ==> p[j] != ':',
{
    let d = if p.len() > 0 && p[0] == '+' {
        p.drop_first()
    } else {
        p
    };
    assert(all_digits(d));
    assert forall|j: int| 0 <= j < p.len() implies p[j] != ':' by {
        if p.len() > 0 && p[0] == '+' {
            if j > 0 {
                assert(p[j] == d[j - 1]);
                assert(is_digit(d[j - 1]));
            }
        } else {
            assert(is_digit(d[j]));
        }
    }
}

/// A host part that ends with `:` and a port number keeps its port: it is
/// reached at exactly that `host:port` (unless it is bracketed or an IPv6
/// literal, which have their own form).
pub proof fn lemma_explicit_port_is_kept(x: Seq<char>, p: Seq<char>)
    requires
        !starts_with(x + seq![':'] + p, "["@),
        parse_ipv6_spec(x + seq![':'] + p) is None,
        parse_u16_spec(p) is Some,
    ensures
        host_port_of(x + seq![':'] + p) == x + seq![':'] + p,
{
    let h = x + seq![':'] + p;
    lemma_port_has_no_colon(p);
    assert forall|j: int| x.len() < j < h.len() implies h[j] != ':' by {
        assert(h[j] == p[j - x.len() - 1]);
    }
    assert(h[x.len() as int] == ':');
    lemma_last_colon_is(h, x.len() as int);
    assert(h.skip(x.len() as int + 1) =~= p);
}

/// Whatever the host part `h`, it is reached at `h` itself, at `h` with the
/// default port appended, or, for a bare IPv6 literal, at the bracketed
/// literal with the default port: a port is only ever appended, never put in
/// the place of one the host part gives.
pub proof fn lemma_host_port_only_appends(h: Seq<char>)
    ensures
        host_port_of(h) == h || host_port_of(h) == h + ":3478"@ || host_port_of(h) == "["@ + h + "]:3478"@,
{
}

/// A `stun:` URL whose host part (after trimming) ends with `:` and a port
/// number names exactly that host part.
pub proof fn lemma_stun_url_keeps_port(url: Seq<char>, x: Seq<char>, p: Seq<char>)
    requires
        starts_with(url, "stun:"@),
        trim(url.skip("stun:"@.len() as int)) == x + seq![':'] + p,
        !starts_with(x + seq![':'] + p, "["@),
        parse_ipv6_spec(x + seq![':'] + p) is None,
        parse_u16_spec(p) is Some,
    ensures
        stun_url_host_port_spec(url) == Some(x + seq![':'] + p),
{
    lemma_explicit_port_is_kept(x, p);
}

/// A `turn:` URL without a query whose host part (after trimming) ends with
/// `:` and a port number names exactly that host part.
pub proof fn lemma_turn_url_keeps_port(url: Seq<char>, x: Seq<char>, p: Seq<char>)
    requires
        starts_with(url, "turn:"@),
        trim(url.skip("turn:"@.len() as int)) == x + seq![':'] + p,
        !(x + seq![':'] + p).contains('?'),
        !starts_with(x + seq![':'] + p, "["@),
        parse_ipv6_spec(x + seq![':'] + p) is None,
        parse_u16_spec(p) is Some,
    ensures
        turn_url_host_port_spec(url) == Some(x + seq![':'] + p),
{
    let h = x + seq![':'] + p;
    lemma_first_index_of_is(h, '?', h.len() as int);
    assert(h.take(h.len() as int) =~= h);
    lemma_trim_idempotent(url.skip("turn:"@.len() as int));
    assert(h.len() > 0);
    lemma_explicit_port_is_kept(x, p);
}

/// The `host:port` that a `stun:` URL names: `None` when the URL is not a
/// STUN URL or names nothing; 3478 when it gives no port.
pub fn stun_url_to_host_port(url: &str) -> (r: Option<String>)
    ensures
        match r {
            Some(s) => stun_url_host_port_spec(url@) == Some(s@),
            None => stun_url_host_port_spec(url@) is None,
        },
{
    let v = chars_of(url);
    let prefix = chars_of("stun:");
    if !vec_starts_with(&v, &prefix) {
        return None;
    }
    let rest = sub_vec(&v, prefix.len(), v.len());
    assert(rest@ =~= url@.skip("stun:"@.len() as int));
    let t = trim_chars(&rest);
    if t.len() == 0 {
        return None;
    }
    Some(host_port(&t))
}

/// The `host:port` that a `turn:` URL names: `None` when the URL is not a
/// TURN URL or names nothing; a `?transport=` query is dropped and 3478 is
/// used when no port is given.
pub fn turn_url_to_host_port(url: &str) -> (r: Option<String>)
    ensures
        match r {
            Some(s) => turn_url_host_port_spec(url@) == Some(s@),
            None => turn_url_host_port_spec(url@) is None,
        },
{
    let v = chars_of(url);
    let prefix = chars_of("turn:");
    if !vec_starts_with(&v, &prefix) {
        return None;
    }
    let rest = sub_vec(&v, prefix.len(), v.len());
    assert(rest@ =~= url@.skip("turn:"@.len() as int));
    let t = trim_chars(&rest);
    if t.len() == 0 {
        return None;
    }
    let n = t.len();
    let mut q: usize = 0;
    while q < n && t[q] != '?'
        invariant
            q <= n,
            n == t@.len(),
            forall|j: int| 0 <= j < q ==> t@[j] != '?',
        decreases n - q,
    {
        q += 1;
    }
    proof {
        lemma_first_index_of_is(t@, '?', q as int);
    }
    let head = sub_vec(&t, 0, q);
    assert(head@ =~= t@.take(q as int));
    let h = trim_chars(&head);
    Some(host_port(&h))
}

/// The URLs of `urls` that begin with `prefix`, in order.
pub open spec fn urls_with_prefix(urls: Seq<String>, prefix: Seq<char>) -> Seq<String> {
    urls.filter(|u: String| starts_with(u@, prefix))
}

fn select_urls(urls: &Vec<String>, prefix: &str) -> (r: Vec<String>)
    ensures
        r@ == urls_with_prefix(urls@, prefix@),
{
    let p = chars_of(prefix);
    let mut r: Vec<String> = Vec::new();
    let mut i: usize = 0;
    while i < urls.len()
        invariant
            i <= urls@.len(),
            p@ == prefix@,
            r@ == urls@.take(i as int).filter(|u: String| starts_with(u@, prefix@)),
        decreases urls@.len() - i,
    {
        let u = chars_of(urls[i].as_str());
        let keep = vec_starts_with(&u, &p);
        if keep {
            r.push(urls[i].clone());
        }
        proof {
            let next = urls@.take(i as int + 1);
            assert(next.drop_last() =~= urls@.take(i as int));
            reveal_with_fuel(Seq::<_>::filter, 1);
        }
        i += 1;
    }
    assert(urls@.take(urls@.len() as int) =~= urls@);
    r
}

/// The STUN server URLs of a configuration, in order.
pub fn parse_stun_urls(config: &IceConfig) -> (r: Vec<String>)
    ensures
        r@ == urls_with_prefix(config.urls@, "stun:"@),
{
    select_urls(&config.urls, "stun:")
}

/// The TURN server URLs of a configuration, in order.
pub fn parse_turn_urls(config: &IceConfig) -> (r: Vec<String>)
    ensures
        r@ == urls_with_prefix(config.urls@, "turn:"@),
{
    select_urls(&config.urls, "turn:")
}

/// The TURN credentials of a configuration: present when both the user name
/// and the credential are.
pub fn turn_credentials_from_config(config: &IceConfig) -> (r: Option<TurnCredentials>)
    ensures
        r is Some <==> (config.username is Some && config.credential is Some),
        r matches Some(c) ==> c.username@ == config.username->0@ && c.password@
            == config.credential->0@,
{
    match (&config.username, &config.credential) {
        (Some(u), Some(p)) => Some(TurnCredentials { username: u.clone(), password: p.clone() }),
        _ => None,
    }
}

} // verus!
