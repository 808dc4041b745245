//! TURN credentials in the TURN REST API form and the per-pair assignment
//! of relay servers: a pair that asked before gets its configuration again,
//! a new pair gets the nearest least-loaded servers and fresh credentials,
//! and both directions of the pair are remembered.

use vstd::prelude::*;
use vstd::utf8::encode_utf8;

use crate::clock::{unix_time_secs, UnixTime};
use crate::decimal::{decimal, decimal_string};
use crate::ice::IceConfig;
use crate::relay_auth::{base64_encode, base64_encode_with, base64_standard_encode, bytes_of};
use crate::text::{push_str, str_eq};
use crate::turn_select::{assign_relay, ice_config_for, ice_urls_spec, is_selected, priority_spec, select_server_for_peer, Continent, PeerPair, TurnServer};

verus! {

#[verifier::external_type_specification]
#[verifier::external_body]
pub struct ExInvalidLength(hmac::digest::InvalidLength);

#[verifier::external_type_specification]
#[verifier::external_body]
pub struct ExSystemTimeError(std::time::SystemTimeError);

/// The SHA-1 digest of `data`.
pub uninterp spec fn sha1_digest(data: Seq<u8>) -> Seq<u8>;

/// The HMAC-SHA1 tag (RFC 2104) of `msg` under `key`: a key longer than the
/// 64-byte block is hashed first; the key, padded with zeros to the block,
/// is combined with the inner and outer pads.
pub open spec fn hmac_sha1_tag(key: Seq<u8>, msg: Seq<u8>) -> Seq<u8> {
    let k0 = if key.len() > 64 {
        sha1_digest(key)
    } else {
        key
    };
    let k = k0 + Seq::new((64 - k0.len()) as nat, |i: int| 0u8);
    let ipad = Seq::new(64, |i: int| k[i] ^ 0x36u8);
    let opad = Seq::new(64, |i: int| k[i] ^ 0x5cu8);
    sha1_digest(opad + sha1_digest(ipad + msg))
}

/// What `general_purpose::URL_SAFE_NO_PAD.encode` makes of `data`: base64
/// with the URL-safe alphabet (`-` and `_`) and no padding.
pub open spec fn base64_url_nopad_encode(data: Seq<u8>) -> Seq<char> {
    base64_encode_with(data, '-', '_', false)
}

/// `Sha1::digest` of the `sha1` crate. Claims that the digest is a function
/// of `data` and is 20 bytes long.
#[verifier::external_body]
fn sha1(data: &[u8]) -> (r: Vec<u8>)
    ensures
        r@ == sha1_digest(data@),
        r@.len() == 20,
{
    <sha1::Sha1 as sha1::Digest>::digest(data).to_vec()
}

/// `Hmac::<Sha1>::new_from_slice`, `Mac::update` and `Mac::finalize` of the
/// `hmac` crate. Claims that the tag is the HMAC-SHA1 of the message under
/// the key (see `hmac_sha1_tag`), and that a key of any length is taken, as
/// the crate's source shows.
#[verifier::external_body]
fn hmac_sha1(key: &[u8], msg: &[u8]) -> (r: Result<Vec<u8>, hmac::digest::InvalidLength>)
    ensures
        r is Ok,
        match r {
            Ok(v) => v@ == hmac_sha1_tag(key@, msg@),
            Err(_) => true,
        },
{
    match <hmac::Hmac<sha1::Sha1> as hmac::Mac>::new_from_slice(key) {
        Ok(mut mac) => {
            hmac::Mac::update(&mut mac, msg);
            Ok(hmac::Mac::finalize(mac).into_bytes().to_vec())
        },
        Err(e) => Err(e),
    }
}

/// `Engine::encode` of the `general_purpose::URL_SAFE_NO_PAD` engine of
/// `base64`. Claims that the result is the unpadded URL-safe base64 of
/// `data` (see `base64_url_nopad_encode`).
#[verifier::external_body]
fn base64_url_nopad(data: &[u8]) -> (r: String)
    ensures
        r@ == base64_url_nopad_encode(data@),
{
    base64::Engine::encode(&base64::engine::general_purpose::URL_SAFE_NO_PAD, data)
}

/// How long TURN credentials stay valid, in seconds.
pub const TURN_CREDENTIAL_TTL_SECS: u64 = 86400;

/// The expiry of credentials made at the clock reading `t`: a day later.
pub open spec fn expiry_after(t: UnixTime) -> nat {
    (t.secs_spec() + TURN_CREDENTIAL_TTL_SECS) as nat
}

/// Why no TURN credentials were made.
#[derive(Clone, Debug, PartialEq, Eq)]
pub enum TurnCredentialError {
    /// No shared secret is configured.
    NoTurnSecret,
    /// The clock reads a time before the Unix epoch, or so late that the
    /// expiry does not fit.
    ClockOutOfRange,
    /// The shared secret was refused as a key.
    InvalidSecret,
}

/// The user name of TURN REST API credentials expiring at `expiry` for the
/// peer `p1` asking about `p2`: the expiry, a colon, and the unpadded
/// URL-safe base64 of the first nine bytes of the SHA-1 of `p1:p2`.
pub open spec fn turn_username_spec(expiry: nat, p1: Seq<char>, p2: Seq<char>) -> Seq<char> {
    decimal(expiry) + ":"@ + base64_url_nopad_encode(sha1_digest(encode_utf8(p1 + ":"@ + p2)).take(9))
}

/// The password of TURN REST API credentials: the base64 of the HMAC-SHA1
/// of the user name under the shared secret.
pub open spec fn turn_password_spec(secret: Seq<char>, username: Seq<char>) -> Seq<char> {
    base64_standard_encode(hmac_sha1_tag(encode_utf8(secret), encode_utf8(username)))
}

/// TURN REST API credentials for `p1` asking about `p2`, made at `now_secs`
/// (seconds since the Unix epoch): user name, password, and lifetime.
pub fn turn_credential_at(secret: &str, p1: &str, p2: &str, now_secs: u64) -> (r: (String, String, u64))
    requires
        now_secs + TURN_CREDENTIAL_TTL_SECS <= u64::MAX,
    ensures
        r.0@ == turn_username_spec((now_secs + TURN_CREDENTIAL_TTL_SECS) as nat, p1@, p2@),
        r.1@ == turn_password_spec(secret@, r.0@),
        r.2 == TURN_CREDENTIAL_TTL_SECS,
{
    let expiry = now_secs + TURN_CREDENTIAL_TTL_SECS;
    let mut pair = String::new();
    push_str(&mut pair, p1);
    push_str(&mut pair, ":");
    push_str(&mut pair, p2);
    let pair_bytes = bytes_of(pair.as_str());
    let digest = sha1(pair_bytes.as_slice());
    let mut head: Vec<u8> = Vec::new();
    let mut i: usize = 0;
    while i < 9
        invariant
            digest@.len() == 20,
            i <= 9,
            head@ == digest@.take(i as int),
        decreases 9 - i,
    {
        head.push(digest[i]);
        assert(digest@.take(i as int + 1) =~= digest@.take(i as int).push(digest@[i as int]));
        i += 1;
    }
    let user_identifier = base64_url_nopad(head.as_slice());
    let mut username = decimal_string(expiry);
    push_str(&mut username, ":");
    push_str(&mut username, user_identifier.as_str());
    let key = bytes_of(secret);
    let msg = bytes_of(username.as_str());
    let tag = match hmac_sha1(key.as_slice(), msg.as_slice()) {
        Ok(t) => t,
        Err(_) => Vec::new(),
    };
    let password = base64_encode(tag.as_slice());
    (username, password, TURN_CREDENTIAL_TTL_SECS)
}

/// TURN REST API credentials for `p1` asking about `p2`, valid for a day
/// from now, under `secret`.
pub fn generate_turn_credential(secret: Option<&str>, p1: &str, p2: &str) -> (r: Result<(String, String, u64), TurnCredentialError>)
    ensures
        secret is None ==> r == Err::<(String, String, u64), TurnCredentialError>(
            TurnCredentialError::NoTurnSecret,
        ),
        r matches Ok((u, p, ttl)) ==> {
            &&& secret is Some
            &&& ttl == TURN_CREDENTIAL_TTL_SECS
            &&& exists|t: UnixTime| u@ == #[trigger] turn_username_spec(expiry_after(t), p1@, p2@)
            &&& p@ == turn_password_spec(secret.unwrap()@, u@)
        },
        r matches Err(e) ==> secret is None || e == TurnCredentialError::ClockOutOfRange,
{
    let s = match secret {
        Some(s) => s,
        None => return Err(TurnCredentialError::NoTurnSecret),
    };
    let clock = match unix_time_secs() {
        Ok(t) => t,
        Err(_) => return Err(TurnCredentialError::ClockOutOfRange),
    };
    let now = clock.secs();
    if now > u64::MAX - TURN_CREDENTIAL_TTL_SECS {
        return Err(TurnCredentialError::ClockOutOfRange);
    }
    let r = turn_credential_at(s, p1, p2, now);
    assert(r.0@ == turn_username_spec(expiry_after(clock), p1@, p2@));
    Ok(r)
}

/// An ICE configuration, with its texts as characters.
pub open spec fn ice_view(c: IceConfig) -> (Seq<Seq<char>>, Option<Seq<char>>, Option<Seq<char>>) {
    (
        c.urls@.map_values(|u: String| u@),
        match c.username {
            Some(u) => Some(u@),
            None => None,
        },
        match c.credential {
            Some(p) => Some(p@),
            None => None,
        },
    )
}

/// A copy of an ICE configuration.
pub fn copy_config(c: &IceConfig) -> (r: IceConfig)
    ensures
        ice_view(r) == ice_view(*c),
{
    let mut urls: Vec<String> = Vec::new();
    let mut i: usize = 0;
    while i < c.urls.len()
        invariant
            i <= c.urls@.len(),
            urls@.len() == i,
            forall|j: int| 0 <= j < i ==> #[trigger] urls@[j]@ == c.urls@[j]@,
        decreases c.urls@.len() - i,
    {
        urls.push(c.urls[i].clone());
        i += 1;
    }
    assert(urls@.map_values(|u: String| u@) =~= c.urls@.map_values(|u: String| u@));
    let username = match &c.username {
        Some(u) => Some(u.clone()),
        None => None,
    };
    let credential = match &c.credential {
        Some(p) => Some(p.clone()),
        None => None,
    };
    IceConfig { urls, username, credential }
}

/// A pair of peers, with the names as characters.
pub open spec fn pair_view(p: PeerPair) -> (Seq<char>, Seq<char>) {
    (p.peer1@, p.peer2@)
}

/// The position of the entry for `key` among `keys`, if any.
pub open spec fn position_of(keys: Seq<(Seq<char>, Seq<char>)>, key: (Seq<char>, Seq<char>)) -> Option<int> {
    if exists|i: int| 0 <= i < keys.len() && keys[i] == key {
        Some(choose|i: int| 0 <= i < keys.len() && keys[i] == key)
    } else {
        None
    }
}

/// An optional text, as characters.
pub open spec fn opt_text(o: Option<&str>) -> Option<Seq<char>> {
    match o {
        Some(s) => Some(s@),
        None => None,
    }
}

/// What asking for the configuration of `peer1` (of continent `c1`) about
/// `peer2` (of continent `c2`) does to the assignments (`before`, `after`)
/// and the servers (`servers_before`, `servers_after`), under the shared
/// secret `secret`, with answer `r`. A pair that has a configuration gets it
/// again, and nothing changes. Otherwise each peer gets the server selected
/// for its continent as STUN server, the one of the two with fewer sessions
/// relays, each peer gets fresh credentials, and both directions of the pair
/// are remembered; where no credentials can be made, the assignments stay.
pub open spec fn assignment_made(
    before: TurnAssignments,
    after: TurnAssignments,
    servers_before: Seq<TurnServer>,
    servers_after: Seq<TurnServer>,
    secret: Option<Seq<char>>,
    peer1: Seq<char>,
    c1: Continent,
    peer2: Seq<char>,
    c2: Continent,
    r: Result<IceConfig, TurnCredentialError>,
) -> bool {
    &&& servers_after.len() == servers_before.len()
    &&& before.config_of((peer1, peer2)) is Some ==> (r matches Ok(c) && Some(ice_view(c)) == before.config_of(
        (peer1, peer2),
    ) && after.keys() == before.keys() && after.configs() == before.configs() && servers_after
        == servers_before)
    &&& before.config_of((peer1, peer2)) is None ==> exists|i: int, j: int|
        is_selected(priority_spec(c1), servers_before, i) && is_selected(priority_spec(c2), servers_before, j) && {
            let relay = if servers_before[i].counter <= servers_before[j].counter {
                i
            } else {
                j
            };
            &&& servers_after[relay].domain == servers_before[relay].domain
            &&& r matches Ok(c) ==> {
                &&& ice_view(c).0 == ice_urls_spec(servers_before[i].domain@, servers_before[relay].domain@)
                &&& secret is Some
                &&& ice_view(c).1 matches Some(u) && (exists|t: UnixTime| u == #[trigger] turn_username_spec(expiry_after(t), peer1, peer2))
                    && ice_view(c).2 == Some(turn_password_spec(secret.unwrap(), u))
                &&& peer1 != peer2 ==> after.config_of((peer1, peer2)) == Some(ice_view(c))
                &&& after.config_of((peer2, peer1)) matches Some(cc) && cc.0 == ice_urls_spec(
                    servers_before[j].domain@,
                    servers_before[relay].domain@,
                ) && (cc.1 matches Some(u2) && (exists|t: UnixTime| u2 == #[trigger] turn_username_spec(expiry_after(t), peer2, peer1))
                    && cc.2 == Some(turn_password_spec(secret.unwrap(), u2)))
            }
        }
    &&& r is Err ==> after.keys() == before.keys() && after.configs() == before.configs()
}

/// The continent recorded last for `id` among `entries`, if any.
pub open spec fn continent_in(entries: Seq<(Seq<char>, Continent)>, id: Seq<char>) -> Option<Continent>
    decreases entries.len(),
{
    if entries.len() == 0 {
        None
    } else if entries.last().0 == id {
        Some(entries.last().1)
    } else {
        continent_in(entries.drop_last(), id)
    }
}

/// Entries of client ids and continents, with the ids as characters.
pub open spec fn entries_of(v: Seq<(String, Continent)>) -> Seq<(Seq<char>, Continent)> {
    v.map_values(|e: (String, Continent)| (e.0@, e.1))
}

/// The continent of each connected client, by client id.
pub struct ClientContinents {
    entries: Vec<(String, Continent)>,
}

impl ClientContinents {
    /// The entries, with the ids as characters.
    pub closed spec fn entries_view(&self) -> Seq<(Seq<char>, Continent)> {
        entries_of(self.entries@)
    }

    /// The continent recorded for the client `id`, if any.
    pub closed spec fn known(&self, id: Seq<char>) -> Option<Continent> {
        continent_in(self.entries_view(), id)
    }

    /// No client is known.
    pub fn new() -> (r: Self)
        ensures
            forall|id: Seq<char>| #[trigger] r.known(id) is None,
    {
        let r = ClientContinents { entries: Vec::new() };
        assert(r.entries_view() =~= Seq::<(Seq<char>, Continent)>::empty());
        r
    }

    /// Forgets the client `client_id`.
    pub fn unregister_client(&mut self, client_id: &str)
        ensures
            final(self).known(client_id@) is None,
            forall|id: Seq<char>| id != client_id@ ==> #[trigger] final(self).known(id) == old(self).known(id),
    {
        let ghost before = self.entries_view();
        let mut kept: Vec<(String, Continent)> = Vec::new();
        let mut i: usize = 0;
        while i < self.entries.len()
            invariant
                i <= self.entries@.len(),
                before == self.entries_view(),
                continent_in(entries_of(kept@), client_id@) is None,
                forall|id: Seq<char>|
                    id != client_id@ ==> #[trigger] continent_in(entries_of(kept@), id) == continent_in(
                        before.take(i as int),
                        id,
                    ),
            decreases self.entries@.len() - i,
        {
            let ghost kv = entries_of(kept@);
            proof {
                assert(before.take(i as int + 1).drop_last() =~= before.take(i as int));
                assert(before.take(i as int + 1).last() == before[i as int]);
                assert(before[i as int] == (self.entries@[i as int].0@, self.entries@[i as int].1));
            }
            if !str_eq(self.entries[i].0.as_str(), client_id) {
                let e = (self.entries[i].0.clone(), self.entries[i].1);
                kept.push(e);
                proof {
                    let nv = entries_of(kept@);
                    assert(nv.drop_last() =~= kv);
                    assert(nv.last() == before[i as int]);
                    assert forall|id: Seq<char>| id != client_id@ implies #[trigger] continent_in(nv, id)
                        == continent_in(before.take(i as int + 1), id) by {
                        let t = before.take(i as int + 1);
                        assert(t.drop_last() =~= before.take(i as int));
                        assert(t.last() == before[i as int]);
                        assert(continent_in(kv, id) == continent_in(before.take(i as int), id));
                        if before[i as int].0 != id {
                            assert(continent_in(nv, id) == continent_in(nv.drop_last(), id));
                        }
                    }
                }
            } else {
                proof {
                    assert forall|id: Seq<char>| id != client_id@ implies #[trigger] continent_in(kv, id)
                        == continent_in(before.take(i as int + 1), id) by {
                        assert(before.take(i as int + 1).drop_last() =~= before.take(i as int));
                    }
                }
            }
            i += 1;
        }
        proof {
            assert(before.take(self.entries@.len() as int) =~= before);
        }
        self.entries = kept;
    }

    /// Records `continent` as the continent of the client `client_id`,
    /// replacing what was recorded for it.
    pub fn register_client(&mut self, client_id: String, continent: Continent)
        ensures
            final(self).known(client_id@) == Some(continent),
            forall|id: Seq<char>| id != client_id@ ==> #[trigger] final(self).known(id) == old(self).known(id),
    {
        self.unregister_client(client_id.as_str());
        let ghost mid_state = *self;
        let ghost mid = self.entries_view();
        let ghost cid = client_id@;
        self.entries.push((client_id, continent));
        proof {
            let v = self.entries_view();
            assert(v.drop_last() =~= mid);
            assert(v.last() == (cid, continent));
            assert forall|id: Seq<char>| id != cid implies #[trigger] self.known(id) == mid_state.known(id) by {
                assert(v.drop_last() =~= mid);
                assert(mid_state.known(id) == continent_in(mid, id));
            }
        }
    }

    /// The continent recorded for the client `client_id`, if any.
    pub fn continent_of(&self, client_id: &str) -> (r: Option<Continent>)
        ensures
            r == self.known(client_id@),
    {
        let ghost all = self.entries_view();
        assert(all.take(all.len() as int) =~= all);
        let mut i: usize = self.entries.len();
        while i > 0
            invariant
                i <= self.entries@.len(),
                all == self.entries_view(),
                continent_in(all, client_id@) == continent_in(all.take(i as int), client_id@),
            decreases i,
        {
            let ghost t = all.take(i as int);
            proof {
                assert(t.drop_last() =~= all.take(i as int - 1));
                assert(t.last() == (self.entries@[i as int - 1].0@, self.entries@[i as int - 1].1));
            }
            if str_eq(self.entries[i - 1].0.as_str(), client_id) {
                return Some(self.entries[i - 1].1);
            }
            i -= 1;
        }
        proof {
            assert(all.take(0) =~= Seq::<(Seq<char>, Continent)>::empty());
        }
        None
    }
}

/// The configurations given so far, one per ordered pair of peers.
pub struct TurnAssignments {
    entries: Vec<(PeerPair, IceConfig)>,
}

impl TurnAssignments {
    /// The pairs that have a configuration.
    pub closed spec fn keys(&self) -> Seq<(Seq<char>, Seq<char>)> {
        self.entries@.map_values(|e: (PeerPair, IceConfig)| pair_view(e.0))
    }

    /// The configurations, in the order of `keys`.
    pub closed spec fn configs(&self) -> Seq<(Seq<Seq<char>>, Option<Seq<char>>, Option<Seq<char>>)> {
        self.entries@.map_values(|e: (PeerPair, IceConfig)| ice_view(e.1))
    }

    /// The invariant: each pair has one entry.
    pub closed spec fn wf(&self) -> bool {
        forall|i: int, j: int|
            0 <= i < j < self.keys().len() ==> #[trigger] self.keys()[i] != #[trigger] self.keys()[j]
    }

    /// The configuration of the pair `key`, if it has one.
    pub open spec fn config_of(&self, key: (Seq<char>, Seq<char>)) -> Option<
        (Seq<Seq<char>>, Option<Seq<char>>, Option<Seq<char>>),
    > {
        match position_of(self.keys(), key) {
            Some(i) => Some(self.configs()[i]),
            None => None,
        }
    }

    /// No pair has a configuration.
    pub fn new() -> (r: Self)
        ensures
            r.wf(),
            r.keys().len() == 0,
    {
        let r = TurnAssignments { entries: Vec::new() };
        assert(r.keys() =~= Seq::<(Seq<char>, Seq<char>)>::empty());
        r
    }

    fn find(&self, key: &PeerPair) -> (r: Option<usize>)
        requires
            self.wf(),
        ensures
            match r {
                Some(i) => position_of(self.keys(), pair_view(*key)) == Some(i as int) && i
                    < self.entries@.len(),
                None => position_of(self.keys(), pair_view(*key)) is None,
            },
    {
        let mut i: usize = 0;
        while i < self.entries.len()
            invariant
                self.wf(),
                i <= self.entries@.len(),
                forall|j: int| 0 <= j < i ==> self.keys()[j] != pair_view(*key),
            decreases self.entries@.len() - i,
        {
            if self.entries[i].0 == *key {
                assert(self.keys()[i as int] == pair_view(*key));
                proof {
                    let w = choose|j: int| 0 <= j < self.keys().len() && self.keys()[j] == pair_view(*key);
                    if w != i {
                        if w < i {
                            assert(self.keys()[w] != self.keys()[i as int]);
                        } else {
                            assert(self.keys()[i as int] != self.keys()[w]);
                        }
                    }
                }
                return Some(i);
            }
            i += 1;
        }
        None
    }

    /// The configuration of the pair `key`, if it has one.
    pub fn lookup(&self, key: &PeerPair) -> (r: Option<IceConfig>)
        requires
            self.wf(),
        ensures
            match r {
                Some(c) => self.config_of(pair_view(*key)) == Some(ice_view(c)),
                None => self.config_of(pair_view(*key)) is None,
            },
    {
        match self.find(key) {
            Some(i) => Some(copy_config(&self.entries[i].1)),
            None => None,
        }
    }

    /// Gives the pair `key` the configuration `config`, replacing the one it
    /// had.
    pub fn insert(&mut self, key: PeerPair, config: IceConfig)
        requires
            old(self).wf(),
        ensures
            final(self).wf(),
            final(self).config_of(pair_view(key)) == Some(ice_view(config)),
            forall|k: (Seq<char>, Seq<char>)|
                k != pair_view(key) ==> #[trigger] final(self).config_of(k) == old(self).config_of(k),
    {
        let ghost kv = pair_view(key);
        let ghost cv = ice_view(config);
        let ghost old_keys = self.keys();
        let ghost old_configs = self.configs();
        match self.find(&key) {
            Some(i) => {
                self.entries.set(i, (key, config));
                proof {
                    assert(self.keys() =~= old_keys.update(i as int, kv));
                    assert(self.configs() =~= old_configs.update(i as int, cv));
                    assert forall|k: (Seq<char>, Seq<char>)| k != kv implies #[trigger] position_of(self.keys(), k) == position_of(old_keys, k) by {
                        if exists|j: int| 0 <= j < old_keys.len() && old_keys[j] == k {
                            let w = choose|j: int| 0 <= j < old_keys.len() && old_keys[j] == k;
                            assert(self.keys()[w] == k);
                        }
                        if exists|j: int| 0 <= j < self.keys().len() && self.keys()[j] == k {
                            let w = choose|j: int| 0 <= j < self.keys().len() && self.keys()[j] == k;
                            assert(old_keys[w] == k);
                        }
                    }
                    assert(self.keys()[i as int] == kv);
                    let w = choose|j: int| 0 <= j < self.keys().len() && self.keys()[j] == kv;
                    if w != i {
                        if w < i {
                            assert(old_keys[w] != old_keys[i as int]);
                        } else {
                            assert(old_keys[i as int] != old_keys[w]);
                        }
                    }
                }
            },
            None => {
                self.entries.push((key, config));
                proof {
                    assert(self.keys() =~= old_keys.push(kv));
                    assert(self.configs() =~= old_configs.push(cv));
                    let n = old_keys.len() as int;
                    assert(self.keys()[n] == kv);
                    assert forall|k: (Seq<char>, Seq<char>)| k != kv implies #[trigger] position_of(self.keys(), k) == position_of(old_keys, k) by {
                        if exists|j: int| 0 <= j < old_keys.len() && old_keys[j] == k {
                            let w = choose|j: int| 0 <= j < old_keys.len() && old_keys[j] == k;
                            assert(self.keys()[w] == k);
                        }
                        if exists|j: int| 0 <= j < self.keys().len() && self.keys()[j] == k {
                            let w = choose|j: int| 0 <= j < self.keys().len() && self.keys()[j] == k;
                            assert(old_keys[w] == k);
                        }
                    }
                    let w = choose|j: int| 0 <= j < self.keys().len() && self.keys()[j] == kv;
                    assert(w == n);
                }
            },
        }
    }

    /// The configuration for `peer1` asking about `peer2`. A pair that has
    /// one gets it again, and nothing changes. Otherwise each peer gets the
    /// server chosen for its continent as STUN server, the one of the two
    /// with fewer sessions relays (its count goes up), each peer gets fresh
    /// credentials, and both directions of the pair are remembered; the
    /// first peer's configuration is the answer.
    pub fn closest_turn_for_peers(
        &mut self,
        servers: &mut Vec<TurnServer>,
        secret: Option<&str>,
        peer1: String,
        peer1_continent: Continent,
        peer2: String,
        peer2_continent: Continent,
    ) -> (r: Result<IceConfig, TurnCredentialError>)
        requires
            old(self).wf(),
            old(servers)@.len() > 0 || old(self).config_of((peer1@, peer2@)) is Some,
        ensures
            final(self).wf(),
            assignment_made(
                *old(self),
                *final(self),
                old(servers)@,
                final(servers)@,
                opt_text(secret),
                peer1@,
                peer1_continent,
                peer2@,
                peer2_continent,
                r,
            ),
    {
        let key = PeerPair::new(peer1.clone(), peer2.clone());
        match self.lookup(&key) {
            Some(c) => return Ok(c),
            None => {},
        }
        let i = select_server_for_peer(peer1_continent, servers);
        let j = select_server_for_peer(peer2_continent, servers);
        let ghost before = servers@;
        let stun1 = servers[i].domain.clone();
        let stun2 = servers[j].domain.clone();
        let relay = assign_relay(servers, i, j);
        let turn_domain = servers[relay].domain.clone();
        let (username1, credential1, _) = match generate_turn_credential(secret, peer1.as_str(), peer2.as_str()) {
            Ok(c) => c,
            Err(e) => return Err(e),
        };
        let (username2, credential2, _) = match generate_turn_credential(secret, peer2.as_str(), peer1.as_str()) {
            Ok(c) => c,
            Err(e) => return Err(e),
        };
        let config1 = ice_config_for(stun1.as_str(), turn_domain.as_str(), username1, credential1);
        let config2 = ice_config_for(stun2.as_str(), turn_domain.as_str(), username2, credential2);
        let answer = copy_config(&config1);
        let ghost c2v = ice_view(config2);
        self.insert(PeerPair::new(peer1.clone(), peer2.clone()), config1);
        self.insert(PeerPair::new(peer2, peer1), config2);
        proof {
            if peer1@ != peer2@ {
                assert((peer2@, peer1@) != (peer1@, peer2@));
            }
            let ri = if before[i as int].counter <= before[j as int].counter {
                i as int
            } else {
                j as int
            };
            assert(ri == relay as int);
        }
        Ok(answer)
    }
}

/// The answer of a request for an ICE configuration, without the reason of a
/// failure.
pub open spec fn answer_of(r: Result<IceConfig, TurnCredentialError>) -> Option<IceConfig> {
    match r {
        Ok(c) => Some(c),
        Err(_) => None,
    }
}

/// The signalling server's TURN bookkeeping: the configuration given to
/// each pair of peers, the continent of each connected client, and the
/// shared secret of the TURN servers.
pub struct TurnManager {
    peer_turn_cache: TurnAssignments,
    client_continents: ClientContinents,
    turn_secret: Option<String>,
}

impl TurnManager {
    /// The configurations given so far.
    pub closed spec fn assignments(&self) -> TurnAssignments {
        self.peer_turn_cache
    }

    /// The continents of the connected clients.
    pub closed spec fn continents(&self) -> ClientContinents {
        self.client_continents
    }

    /// The shared secret, if one is configured.
    pub closed spec fn secret(&self) -> Option<Seq<char>> {
        match self.turn_secret {
            Some(s) => Some(s@),
            None => None,
        }
    }

    /// The invariant: each pair has one configuration.
    pub closed spec fn wf(&self) -> bool {
        self.peer_turn_cache.wf()
    }

    /// A manager with no configurations and no clients, using the shared
    /// secret `turn_secret` if there is one.
    pub fn new(turn_secret: Option<String>) -> (r: Self)
        ensures
            r.wf(),
            r.assignments().keys().len() == 0,
            forall|id: Seq<char>| #[trigger] r.continents().known(id) is None,
            r.secret() == (match turn_secret {
                Some(s) => Some(s@),
                None => None,
            }),
    {
        TurnManager {
            peer_turn_cache: TurnAssignments::new(),
            client_continents: ClientContinents::new(),
            turn_secret,
        }
    }

    /// Records the continent of the client `client_id`.
    pub fn register_client(&mut self, client_id: String, continent: Continent)
        requires
            old(self).wf(),
        ensures
            final(self).wf(),
            final(self).continents().known(client_id@) == Some(continent),
            forall|id: Seq<char>|
                id != client_id@ ==> #[trigger] final(self).continents().known(id) == old(self).continents().known(id),
            final(self).assignments() == old(self).assignments(),
            final(self).secret() == old(self).secret(),
    {
        self.client_continents.register_client(client_id, continent);
    }

    /// Forgets the client `client_id`.
    pub fn unregister_client(&mut self, client_id: &str)
        requires
            old(self).wf(),
        ensures
            final(self).wf(),
            final(self).continents().known(client_id@) is None,
            forall|id: Seq<char>|
                id != client_id@ ==> #[trigger] final(self).continents().known(id) == old(self).continents().known(id),
            final(self).assignments() == old(self).assignments(),
            final(self).secret() == old(self).secret(),
    {
        self.client_continents.unregister_client(client_id);
    }

    fn secret_str(&self) -> (r: Option<&str>)
        ensures
            opt_text(r) == self.secret(),
    {
        match &self.turn_secret {
            Some(s) => Some(s.as_str()),
            None => None,
        }
    }

    /// TURN REST API credentials for `p1` asking about `p2`, valid for a day
    /// from now, under the configured secret (see the free function
    /// `generate_turn_credential`).
    pub fn generate_turn_credential(&self, p1: &str, p2: &str) -> (r: Result<(String, String, u64), TurnCredentialError>)
        ensures
            self.secret() is None ==> r == Err::<(String, String, u64), TurnCredentialError>(
                TurnCredentialError::NoTurnSecret,
            ),
            r matches Ok((u, p, ttl)) ==> {
                &&& self.secret() is Some
                &&& ttl == TURN_CREDENTIAL_TTL_SECS
                &&& exists|t: UnixTime| u@ == #[trigger] turn_username_spec(expiry_after(t), p1@, p2@)
                &&& p@ == turn_password_spec(self.secret().unwrap(), u@)
            },
            r matches Err(e) ==> self.secret() is None || e == TurnCredentialError::ClockOutOfRange,
    {
        generate_turn_credential(self.secret_str(), p1, p2)
    }

    /// The configuration for `peer1` asking about `peer2` (see
    /// `assignment_made`), choosing among `servers`.
    pub fn closest_turn_for_peers(
        &mut self,
        servers: &mut Vec<TurnServer>,
        peer1: String,
        peer1_continent: Continent,
        peer2: String,
        peer2_continent: Continent,
    ) -> (r: Result<IceConfig, TurnCredentialError>)
        requires
            old(self).wf(),
            old(servers)@.len() > 0 || old(self).assignments().config_of((peer1@, peer2@)) is Some,
        ensures
            final(self).wf(),
            assignment_made(
                old(self).assignments(),
                final(self).assignments(),
                old(servers)@,
                final(servers)@,
                old(self).secret(),
                peer1@,
                peer1_continent,
                peer2@,
                peer2_continent,
                r,
            ),
            final(self).continents() == old(self).continents(),
            final(self).secret() == old(self).secret(),
    {
        let secret: Option<&str> = match &self.turn_secret {
            Some(s) => Some(s.as_str()),
            None => None,
        };
        self.peer_turn_cache.closest_turn_for_peers(servers, secret, peer1, peer1_continent, peer2, peer2_continent)
    }

    /// The configuration to hand on with a message from `from_id` to
    /// `to_id`: none where the message has no addressee or the continent of
    /// either client is unknown, and then nothing changes; else the answer
    /// of `closest_turn_for_peers` for the two, none where that fails.
    pub fn get_turn_for_message(&mut self, servers: &mut Vec<TurnServer>, from_id: &str, to_id: Option<&str>) -> (r:
        Option<IceConfig>)
        requires
            old(self).wf(),
            old(servers)@.len() > 0 || (to_id matches Some(t) && old(self).assignments().config_of((from_id@, t@)) is Some),
        ensures
            final(self).wf(),
            !(to_id matches Some(t) && old(self).continents().known(from_id@) is Some && old(self).continents().known(
                t@,
            ) is Some) ==> r is None && *final(self) == *old(self) && final(servers)@ == old(servers)@,
            to_id is Some && old(self).continents().known(from_id@) is Some && old(self).continents().known(
                to_id.unwrap()@,
            ) is Some ==> exists|r0: Result<IceConfig, TurnCredentialError>|
                {
                    &&& assignment_made(
                        old(self).assignments(),
                        final(self).assignments(),
                        old(servers)@,
                        final(servers)@,
                        old(self).secret(),
                        from_id@,
                        old(self).continents().known(from_id@).unwrap(),
                        to_id.unwrap()@,
                        old(self).continents().known(to_id.unwrap()@).unwrap(),
                        r0,
                    )
                    &&& r == answer_of(r0)
                },
            final(self).continents() == old(self).continents(),
            final(self).secret() == old(self).secret(),
    {
        let to = match to_id {
            Some(t) => t,
            None => return None,
        };
        let c1 = match self.client_continents.continent_of(from_id) {
            Some(c) => c,
            None => return None,
        };
        let c2 = match self.client_continents.continent_of(to) {
            Some(c) => c,
            None => return None,
        };
        let mut p1 = String::new();
        push_str(&mut p1, from_id);
        let mut p2 = String::new();
        push_str(&mut p2, to);
        let ghost s1 = p1@;
        let ghost s2 = p2@;
        let r0 = self.closest_turn_for_peers(servers, p1, c1, p2, c2);
        let ghost g = r0;
        let r = match r0 {
            Ok(c) => Some(c),
            Err(_) => None,
        };
        assert(s1 == from_id@ && s2 == to@);
        assert(r == answer_of(g));
        r
    }
}

} // verus!
