//! Choosing STUN/TURN servers for a pair of peers: the continent of a
//! client, the order in which each continent falls back to others, the
//! least-loaded server of the nearest continent that has one, and the ICE
//! configuration handed to each peer.

use vstd::prelude::*;

use vstd::std_specs::cmp::PartialEqSpecImpl;

use crate::ice::IceConfig;
use crate::text::{chars_of, push_str, vec_eq};

verus! {

/// Where a client or a server is.
#[derive(Clone, Copy, Debug, PartialEq, Eq, Structural, Hash)]
pub enum Continent {
    AS,
    NorthAS,
    Tokyo,
    Singapore,
    HKG,
    EU,
    NA,
    SJC,
    SA,
    OC,
    AF,
    Unknown,
}

/// The continents whose servers serve a client of `c`, nearest first.
pub open spec fn priority_spec(c: Continent) -> Seq<Continent> {
    match c {
        Continent::AS => seq![Continent::AS, Continent::HKG, Continent::Singapore, Continent::Tokyo, Continent::NorthAS, Continent::OC, Continent::EU, Continent::NA, Continent::SJC, Continent::SA, Continent::AF],
        Continent::NorthAS => seq![Continent::NorthAS, Continent::Tokyo, Continent::AS, Continent::HKG, Continent::Singapore, Continent::EU, Continent::OC, Continent::NA, Continent::SJC, Continent::SA, Continent::AF],
        Continent::Tokyo => seq![Continent::Tokyo, Continent::NorthAS, Continent::AS, Continent::HKG, Continent::Singapore, Continent::OC, Continent::SJC, Continent::NA, Continent::EU, Continent::SA, Continent::AF],
        Continent::Singapore => seq![Continent::Singapore, Continent::HKG, Continent::AS, Continent::OC, Continent::Tokyo, Continent::NorthAS, Continent::EU, Continent::NA, Continent::SJC, Continent::AF, Continent::SA],
        Continent::HKG => seq![Continent::HKG, Continent::AS, Continent::Singapore, Continent::Tokyo, Continent::NorthAS, Continent::OC, Continent::EU, Continent::NA, Continent::SJC, Continent::SA, Continent::AF],
        Continent::EU => seq![Continent::EU, Continent::NorthAS, Continent::NA, Continent::AS, Continent::HKG, Continent::Tokyo, Continent::Singapore, Continent::SJC, Continent::AF, Continent::OC, Continent::SA],
        Continent::NA => seq![Continent::NA, Continent::SJC, Continent::SA, Continent::Tokyo, Continent::EU, Continent::NorthAS, Continent::Singapore, Continent::HKG, Continent::AS, Continent::OC, Continent::AF],
        Continent::SJC => seq![Continent::SJC, Continent::NA, Continent::Tokyo, Continent::SA, Continent::OC, Continent::EU, Continent::NorthAS, Continent::Singapore, Continent::HKG, Continent::AS, Continent::AF],
        Continent::SA => seq![Continent::SA, Continent::NA, Continent::SJC, Continent::EU, Continent::AF, Continent::AS, Continent::HKG, Continent::Singapore, Continent::NorthAS, Continent::Tokyo, Continent::OC],
        Continent::OC => seq![Continent::OC, Continent::Singapore, Continent::HKG, Continent::AS, Continent::Tokyo, Continent::SJC, Continent::NorthAS, Continent::NA, Continent::EU, Continent::SA, Continent::AF],
        Continent::AF => seq![Continent::AF, Continent::EU, Continent::Singapore, Continent::HKG, Continent::AS, Continent::Tokyo, Continent::NorthAS, Continent::NA, Continent::SJC, Continent::SA, Continent::OC],
        Continent::Unknown => seq![Continent::AS, Continent::HKG, Continent::Singapore, Continent::Tokyo, Continent::NorthAS, Continent::EU, Continent::NA, Continent::SJC, Continent::SA, Continent::OC, Continent::AF],
    }
}

impl Continent {
    /// The continents whose servers serve a client of this continent,
    /// nearest first.
    pub fn priority_order(&self) -> (r: Vec<Continent>)
        ensures
            r@ == priority_spec(*self),
    {
        let r = match self {
            Continent::AS => vec![Continent::AS, Continent::HKG, Continent::Singapore, Continent::Tokyo, Continent::NorthAS, Continent::OC, Continent::EU, Continent::NA, Continent::SJC, Continent::SA, Continent::AF],
            Continent::NorthAS => vec![Continent::NorthAS, Continent::Tokyo, Continent::AS, Continent::HKG, Continent::Singapore, Continent::EU, Continent::OC, Continent::NA, Continent::SJC, Continent::SA, Continent::AF],
            Continent::Tokyo => vec![Continent::Tokyo, Continent::NorthAS, Continent::AS, Continent::HKG, Continent::Singapore, Continent::OC, Continent::SJC, Continent::NA, Continent::EU, Continent::SA, Continent::AF],
            Continent::Singapore => vec![Continent::Singapore, Continent::HKG, Continent::AS, Continent::OC, Continent::Tokyo, Continent::NorthAS, Continent::EU, Continent::NA, Continent::SJC, Continent::AF, Continent::SA],
            Continent::HKG => vec![Continent::HKG, Continent::AS, Continent::Singapore, Continent::Tokyo, Continent::NorthAS, Continent::OC, Continent::EU, Continent::NA, Continent::SJC, Continent::SA, Continent::AF],
            Continent::EU => vec![Continent::EU, Continent::NorthAS, Continent::NA, Continent::AS, Continent::HKG, Continent::Tokyo, Continent::Singapore, Continent::SJC, Continent::AF, Continent::OC, Continent::SA],
            Continent::NA => vec![Continent::NA, Continent::SJC, Continent::SA, Continent::Tokyo, Continent::EU, Continent::NorthAS, Continent::Singapore, Continent::HKG, Continent::AS, Continent::OC, Continent::AF],
            Continent::SJC => vec![Continent::SJC, Continent::NA, Continent::Tokyo, Continent::SA, Continent::OC, Continent::EU, Continent::NorthAS, Continent::Singapore, Continent::HKG, Continent::AS, Continent::AF],
            Continent::SA => vec![Continent::SA, Continent::NA, Continent::SJC, Continent::EU, Continent::AF, Continent::AS, Continent::HKG, Continent::Singapore, Continent::NorthAS, Continent::Tokyo, Continent::OC],
            Continent::OC => vec![Continent::OC, Continent::Singapore, Continent::HKG, Continent::AS, Continent::Tokyo, Continent::SJC, Continent::NorthAS, Continent::NA, Continent::EU, Continent::SA, Continent::AF],
            Continent::AF => vec![Continent::AF, Continent::EU, Continent::Singapore, Continent::HKG, Continent::AS, Continent::Tokyo, Continent::NorthAS, Continent::NA, Continent::SJC, Continent::SA, Continent::OC],
            Continent::Unknown => vec![Continent::AS, Continent::HKG, Continent::Singapore, Continent::Tokyo, Continent::NorthAS, Continent::EU, Continent::NA, Continent::SJC, Continent::SA, Continent::OC, Continent::AF],
        };
        assert(r@ =~= priority_spec(*self));
        r
    }
}

/// Every fallback order lists each of the eleven known continents exactly
/// once, never `Unknown`, and a known continent comes first in its own order
/// (a client of unknown continent starts from `AS`).
pub proof fn lemma_priority_order_is_permutation(c: Continent)
    ensures
        priority_spec(c).len() == 11,
        forall|i: int, j: int|
            0 <= i < j < 11 ==> priority_spec(c)[i] != priority_spec(c)[j],
        forall|i: int| 0 <= i < 11 ==> priority_spec(c)[i] != Continent::Unknown,
        c != Continent::Unknown ==> priority_spec(c)[0] == c,
        c == Continent::Unknown ==> priority_spec(c)[0] == Continent::AS,
{
}

/// Two peers, the first one asking about the second.
#[derive(Clone, Debug, Hash)]
pub struct PeerPair {
    pub peer1: String,
    pub peer2: String,
}

impl PeerPair {
    /// The pair of `peer1` asking about `peer2`; `(a, b)` and `(b, a)` are
    /// different pairs.
    pub fn new(peer1: String, peer2: String) -> (r: Self)
        ensures
            r.peer1 == peer1,
            r.peer2 == peer2,
    {
        PeerPair { peer1, peer2 }
    }
}

impl PartialEq for PeerPair {
    fn eq(&self, other: &Self) -> (r: bool) {
        self.peer1 == other.peer1 && self.peer2 == other.peer2
    }
}

impl Eq for PeerPair {

}

impl PartialEqSpecImpl for PeerPair {
    open spec fn obeys_eq_spec() -> bool {
        true
    }

    open spec fn eq_spec(&self, other: &PeerPair) -> bool {
        self.peer1@ == other.peer1@ && self.peer2@ == other.peer2@
    }
}

/// A STUN/TURN server: where it is reached, where it stands, and how many
/// sessions it has been given.
#[derive(Clone, Debug)]
pub struct TurnServer {
    pub ip: String,
    pub domain: String,
    pub continent: Continent,
    pub counter: usize,
}

impl PartialEq for TurnServer {
    fn eq(&self, other: &Self) -> (r: bool) {
        self.ip == other.ip && self.domain == other.domain && self.continent == other.continent
    }
}

impl Eq for TurnServer {

}

impl PartialEqSpecImpl for TurnServer {
    open spec fn obeys_eq_spec() -> bool {
        true
    }

    open spec fn eq_spec(&self, other: &TurnServer) -> bool {
        self.ip@ == other.ip@ && self.domain@ == other.domain@ && self.continent == other.continent
    }
}

/// Whether server `i` counts: it stands on `c`, or `c` is `None`.
pub open spec fn counts(servers: Seq<TurnServer>, c: Option<Continent>, i: int) -> bool {
    match c {
        Some(x) => servers[i].continent == x,
        None => true,
    }
}

/// Whether `i` is the first of the least-loaded servers that count.
pub open spec fn is_first_least(servers: Seq<TurnServer>, c: Option<Continent>, i: int) -> bool {
    &&& 0 <= i < servers.len()
    &&& counts(servers, c, i)
    &&& forall|j: int| 0 <= j < servers.len() && counts(servers, c, j) ==> servers[i].counter <= #[trigger] servers[j].counter
    &&& forall|j: int| 0 <= j < i && counts(servers, c, j) ==> servers[i].counter < #[trigger] servers[j].counter
}

/// Whether some server stands on `c`.
pub open spec fn has_on(servers: Seq<TurnServer>, c: Continent) -> bool {
    exists|i: int| 0 <= i < servers.len() && #[trigger] servers[i].continent == c
}

/// Whether `i` is the server chosen for a client whose fallback order is
/// `order`: the first least-loaded server of the first continent in the order
/// that has a server; where none has, the first least-loaded of all.
pub open spec fn is_selected(order: Seq<Continent>, servers: Seq<TurnServer>, i: int) -> bool {
    ||| exists|t: int|
        0 <= t < order.len() && has_on(servers, #[trigger] order[t]) && (forall|u: int|
            0 <= u < t ==> !has_on(servers, #[trigger] order[u])) && is_first_least(servers, Some(order[t]), i)
    ||| (forall|t: int| 0 <= t < order.len() ==> !has_on(servers, #[trigger] order[t]))
        && is_first_least(servers, None, i)
}

fn first_least(servers: &Vec<TurnServer>, c: Option<Continent>) -> (r: Option<usize>)
    ensures
        match r {
            Some(i) => is_first_least(servers@, c, i as int),
            None => forall|j: int| 0 <= j < servers@.len() ==> !counts(servers@, c, j),
        },
{
    let mut best: Option<usize> = None;
    let mut i: usize = 0;
    while i < servers.len()
        invariant
            i <= servers@.len(),
            match best {
                Some(b) => b < i && counts(servers@, c, b as int) && (forall|j: int|
                    0 <= j < i && counts(servers@, c, j) ==> servers@[b as int].counter
                        <= #[trigger] servers@[j].counter) && (forall|j: int|
                    0 <= j < b && counts(servers@, c, j) ==> servers@[b as int].counter
                        < #[trigger] servers@[j].counter),
                None => forall|j: int| 0 <= j < i ==> !counts(servers@, c, j),
            },
        decreases servers@.len() - i,
    {
        let matches = match c {
            Some(x) => servers[i].continent == x,
            None => true,
        };
        if matches {
            match best {
                Some(b) => {
                    if servers[i].counter < servers[b].counter {
                        best = Some(i);
                    }
                },
                None => {
                    best = Some(i);
                },
            }
        }
        i += 1;
    }
    best
}

/// The server chosen for a client of `continent` (see `is_selected`).
pub fn select_server_for_peer(continent: Continent, servers: &Vec<TurnServer>) -> (r: usize)
    requires
        servers@.len() > 0,
    ensures
        is_selected(priority_spec(continent), servers@, r as int),
{
    let order = continent.priority_order();
    let mut t: usize = 0;
    while t < order.len()
        invariant
            order@ == priority_spec(continent),
            t <= order@.len(),
            forall|u: int| 0 <= u < t ==> !has_on(servers@, #[trigger] order@[u]),
        decreases order@.len() - t,
    {
        match first_least(servers, Some(order[t])) {
            Some(i) => {
                assert(has_on(servers@, order@[t as int]));
                return i;
            },
            None => {
                assert(!has_on(servers@, order@[t as int])) by {
                    if has_on(servers@, order@[t as int]) {
                        let j = choose|j: int| 0 <= j < servers@.len() && #[trigger] servers@[j].continent == order@[t as int];
                        assert(!counts(servers@, Some(order@[t as int]), j));
                    }
                }
            },
        }
        t += 1;
    }
    match first_least(servers, None) {
        Some(i) => i,
        None => {
            assert(counts(servers@, None, 0));
            0
        },
    }
}

/// Of the servers chosen for two peers, the one that relays their session:
/// the first peer's where it has been given no more sessions than the
/// second's. Its count of sessions goes up by one (wrapping).
pub fn assign_relay(servers: &mut Vec<TurnServer>, first: usize, second: usize) -> (r: usize)
    requires
        first < old(servers)@.len(),
        second < old(servers)@.len(),
    ensures
        r == (if old(servers)@[first as int].counter <= old(servers)@[second as int].counter {
            first
        } else {
            second
        }),
        final(servers)@.len() == old(servers)@.len(),
        final(servers)@[r as int].counter == (if old(servers)@[r as int].counter == usize::MAX {
            0
        } else {
            old(servers)@[r as int].counter + 1
        }),
        final(servers)@[r as int].ip == old(servers)@[r as int].ip,
        final(servers)@[r as int].domain == old(servers)@[r as int].domain,
        final(servers)@[r as int].continent == old(servers)@[r as int].continent,
        forall|j: int| 0 <= j < final(servers)@.len() && j != r ==> final(servers)@[j] == old(servers)@[j],
{
    let pick = if servers[first].counter <= servers[second].counter {
        first
    } else {
        second
    };
    let mut server = servers[pick].clone_server();
    server.counter = if server.counter == usize::MAX {
        0
    } else {
        server.counter + 1
    };
    servers.set(pick, server);
    pick
}

impl TurnServer {
    /// A copy of this server.
    pub fn clone_server(&self) -> (r: Self)
        ensures
            r.ip == self.ip,
            r.domain == self.domain,
            r.continent == self.continent,
            r.counter == self.counter,
    {
        TurnServer { ip: self.ip.clone(), domain: self.domain.clone(), continent: self.continent, counter: self.counter }
    }
}

/// The ICE URLs a peer is given: the STUN server, then the TURN server over
/// UDP and over TCP.
pub open spec fn ice_urls_spec(stun_domain: Seq<char>, turn_domain: Seq<char>) -> Seq<Seq<char>> {
    seq![
        "stun:"@ + stun_domain,
        "turn:"@ + turn_domain + ":3478?transport=udp"@,
        "turn:"@ + turn_domain + ":3478?transport=tcp"@,
    ]
}

/// The ICE configuration for a peer: its STUN server, the relaying TURN
/// server, and its TURN credentials.
pub fn ice_config_for(stun_domain: &str, turn_domain: &str, username: String, credential: String) -> (r: IceConfig)
    ensures
        r.urls@.map_values(|u: String| u@) == ice_urls_spec(stun_domain@, turn_domain@),
        r.username == Some(username),
        r.credential == Some(credential),
{
    let mut stun = String::new();
    push_str(&mut stun, "stun:");
    push_str(&mut stun, stun_domain);
    let mut udp = String::new();
    push_str(&mut udp, "turn:");
    push_str(&mut udp, turn_domain);
    push_str(&mut udp, ":3478?transport=udp");
    let mut tcp = String::new();
    push_str(&mut tcp, "turn:");
    push_str(&mut tcp, turn_domain);
    push_str(&mut tcp, ":3478?transport=tcp");
    let urls = vec![stun, udp, tcp];
    assert(urls@.map_values(|u: String| u@) =~= ice_urls_spec(stun_domain@, turn_domain@));
    IceConfig { urls, username: Some(username), credential: Some(credential) }
}

/// Whether `code` is one of the two-letter codes of `table`.
pub open spec fn code_listed(code: Seq<char>, table: Seq<(char, char)>) -> bool {
    code.len() == 2 && exists|i: int|
        0 <= i < table.len() && code[0] == #[trigger] table[i].0 && code[1] == table[i].1
}

/// The countries served from Singapore.
pub open spec fn singapore_codes() -> Seq<(char, char)> {
    seq![('S', 'G'), ('M', 'Y'), ('I', 'D'), ('T', 'H'), ('B', 'N')]
}

fn singapore_table() -> (t: Vec<(char, char)>)
    ensures
        t@ == singapore_codes(),
{
    let t = vec![('S', 'G'), ('M', 'Y'), ('I', 'D'), ('T', 'H'), ('B', 'N')];
    assert(t@ =~= singapore_codes());
    t
}

/// The countries served from the rest of Asia.
pub open spec fn asia_codes() -> Seq<(char, char)> {
    seq![('C', 'N'), ('K', 'R'), ('I', 'N'), ('V', 'N'), ('P', 'H'), ('T', 'W'), ('H', 'K'), ('M', 'O'), ('K', 'H'), ('L', 'A'), ('M', 'M'), ('B', 'D'), ('P', 'K'), ('L', 'K'), ('N', 'P'), ('B', 'T'), ('M', 'V'), ('A', 'F'), ('U', 'Z'), ('T', 'M'), ('T', 'J'), ('K', 'G')]
}

fn asia_table() -> (t: Vec<(char, char)>)
    ensures
        t@ == asia_codes(),
{
    let t = vec![('C', 'N'), ('K', 'R'), ('I', 'N'), ('V', 'N'), ('P', 'H'), ('T', 'W'), ('H', 'K'), ('M', 'O'), ('K', 'H'), ('L', 'A'), ('M', 'M'), ('B', 'D'), ('P', 'K'), ('L', 'K'), ('N', 'P'), ('B', 'T'), ('M', 'V'), ('A', 'F'), ('U', 'Z'), ('T', 'M'), ('T', 'J'), ('K', 'G')];
    assert(t@ =~= asia_codes());
    t
}

/// The countries served from North Asia.
pub open spec fn north_asia_codes() -> Seq<(char, char)> {
    seq![('R', 'U'), ('M', 'N'), ('K', 'Z')]
}

fn north_asia_table() -> (t: Vec<(char, char)>)
    ensures
        t@ == north_asia_codes(),
{
    let t = vec![('R', 'U'), ('M', 'N'), ('K', 'Z')];
    assert(t@ =~= north_asia_codes());
    t
}

/// The countries served from Europe.
pub open spec fn europe_codes() -> Seq<(char, char)> {
    seq![('G', 'B'), ('F', 'R'), ('D', 'E'), ('I', 'T'), ('E', 'S'), ('N', 'L'), ('B', 'E'), ('P', 'L'), ('R', 'O'), ('C', 'Z'), ('P', 'T'), ('G', 'R'), ('H', 'U'), ('S', 'E'), ('A', 'T'), ('B', 'G'), ('D', 'K'), ('F', 'I'), ('S', 'K'), ('N', 'O'), ('I', 'E'), ('H', 'R'), ('S', 'I'), ('L', 'T'), ('L', 'V'), ('E', 'E'), ('L', 'U'), ('M', 'T'), ('C', 'Y'), ('I', 'S'), ('C', 'H'), ('U', 'A'), ('B', 'Y'), ('M', 'D'), ('R', 'S'), ('B', 'A'), ('A', 'L'), ('M', 'K'), ('M', 'E'), ('X', 'K')]
}

fn europe_table() -> (t: Vec<(char, char)>)
    ensures
        t@ == europe_codes(),
{
    let t = vec![('G', 'B'), ('F', 'R'), ('D', 'E'), ('I', 'T'), ('E', 'S'), ('N', 'L'), ('B', 'E'), ('P', 'L'), ('R', 'O'), ('C', 'Z'), ('P', 'T'), ('G', 'R'), ('H', 'U'), ('S', 'E'), ('A', 'T'), ('B', 'G'), ('D', 'K'), ('F', 'I'), ('S', 'K'), ('N', 'O'), ('I', 'E'), ('H', 'R'), ('S', 'I'), ('L', 'T'), ('L', 'V'), ('E', 'E'), ('L', 'U'), ('M', 'T'), ('C', 'Y'), ('I', 'S'), ('C', 'H'), ('U', 'A'), ('B', 'Y'), ('M', 'D'), ('R', 'S'), ('B', 'A'), ('A', 'L'), ('M', 'K'), ('M', 'E'), ('X', 'K')];
    assert(t@ =~= europe_codes());
    t
}

/// The countries besides the United States served from North America.
pub open spec fn north_america_codes() -> Seq<(char, char)> {
    seq![('C', 'A'), ('M', 'X')]
}

fn north_america_table() -> (t: Vec<(char, char)>)
    ensures
        t@ == north_america_codes(),
{
    let t = vec![('C', 'A'), ('M', 'X')];
    assert(t@ =~= north_america_codes());
    t
}

/// The countries served from South America.
pub open spec fn south_america_codes() -> Seq<(char, char)> {
    seq![('B', 'R'), ('A', 'R'), ('C', 'O'), ('P', 'E'), ('V', 'E'), ('C', 'L'), ('E', 'C'), ('B', 'O'), ('P', 'Y'), ('U', 'Y'), ('G', 'Y'), ('S', 'R'), ('G', 'F')]
}

fn south_america_table() -> (t: Vec<(char, char)>)
    ensures
        t@ == south_america_codes(),
{
    let t = vec![('B', 'R'), ('A', 'R'), ('C', 'O'), ('P', 'E'), ('V', 'E'), ('C', 'L'), ('E', 'C'), ('B', 'O'), ('P', 'Y'), ('U', 'Y'), ('G', 'Y'), ('S', 'R'), ('G', 'F')];
    assert(t@ =~= south_america_codes());
    t
}

/// The countries served from Oceania.
pub open spec fn oceania_codes() -> Seq<(char, char)> {
    seq![('A', 'U'), ('N', 'Z'), ('P', 'G'), ('F', 'J'), ('N', 'C'), ('P', 'F'), ('S', 'B'), ('V', 'U'), ('W', 'S'), ('K', 'I'), ('T', 'O'), ('F', 'M'), ('M', 'H'), ('P', 'W'), ('N', 'R'), ('T', 'V')]
}

fn oceania_table() -> (t: Vec<(char, char)>)
    ensures
        t@ == oceania_codes(),
{
    let t = vec![('A', 'U'), ('N', 'Z'), ('P', 'G'), ('F', 'J'), ('N', 'C'), ('P', 'F'), ('S', 'B'), ('V', 'U'), ('W', 'S'), ('K', 'I'), ('T', 'O'), ('F', 'M'), ('M', 'H'), ('P', 'W'), ('N', 'R'), ('T', 'V')];
    assert(t@ =~= oceania_codes());
    t
}

/// The countries served from Africa.
pub open spec fn africa_codes() -> Seq<(char, char)> {
    seq![('Z', 'A'), ('E', 'G'), ('N', 'G'), ('K', 'E'), ('E', 'T'), ('G', 'H'), ('T', 'Z'), ('U', 'G'), ('D', 'Z'), ('S', 'D'), ('M', 'A'), ('A', 'O'), ('M', 'Z'), ('M', 'G'), ('C', 'M'), ('C', 'I'), ('N', 'E'), ('B', 'F'), ('M', 'L'), ('M', 'W'), ('Z', 'M'), ('S', 'N'), ('S', 'O'), ('T', 'D'), ('Z', 'W'), ('G', 'N'), ('R', 'W'), ('B', 'J'), ('T', 'N'), ('B', 'I'), ('S', 'S'), ('T', 'G'), ('S', 'L'), ('L', 'Y'), ('L', 'R'), ('M', 'R'), ('C', 'F'), ('E', 'R'), ('G', 'M'), ('B', 'W'), ('G', 'A'), ('G', 'W'), ('M', 'U'), ('S', 'Z'), ('D', 'J'), ('R', 'E'), ('K', 'M'), ('C', 'V'), ('S', 'T'), ('S', 'C')]
}

fn africa_table() -> (t: Vec<(char, char)>)
    ensures
        t@ == africa_codes(),
{
    let t = vec![('Z', 'A'), ('E', 'G'), ('N', 'G'), ('K', 'E'), ('E', 'T'), ('G', 'H'), ('T', 'Z'), ('U', 'G'), ('D', 'Z'), ('S', 'D'), ('M', 'A'), ('A', 'O'), ('M', 'Z'), ('M', 'G'), ('C', 'M'), ('C', 'I'), ('N', 'E'), ('B', 'F'), ('M', 'L'), ('M', 'W'), ('Z', 'M'), ('S', 'N'), ('S', 'O'), ('T', 'D'), ('Z', 'W'), ('G', 'N'), ('R', 'W'), ('B', 'J'), ('T', 'N'), ('B', 'I'), ('S', 'S'), ('T', 'G'), ('S', 'L'), ('L', 'Y'), ('L', 'R'), ('M', 'R'), ('C', 'F'), ('E', 'R'), ('G', 'M'), ('B', 'W'), ('G', 'A'), ('G', 'W'), ('M', 'U'), ('S', 'Z'), ('D', 'J'), ('R', 'E'), ('K', 'M'), ('C', 'V'), ('S', 'T'), ('S', 'C')];
    assert(t@ =~= africa_codes());
    t
}

/// The states of the United States served from San Jose.
pub open spec fn west_coast_states_codes() -> Seq<(char, char)> {
    seq![('C', 'A'), ('O', 'R'), ('W', 'A'), ('N', 'V'), ('A', 'Z')]
}

fn west_coast_states_table() -> (t: Vec<(char, char)>)
    ensures
        t@ == west_coast_states_codes(),
{
    let t = vec![('C', 'A'), ('O', 'R'), ('W', 'A'), ('N', 'V'), ('A', 'Z')];
    assert(t@ =~= west_coast_states_codes());
    t
}

fn listed(code: &Vec<char>, table: &Vec<(char, char)>) -> (r: bool)
    ensures
        r == code_listed(code@, table@),
{
    if code.len() != 2 {
        return false;
    }
    let mut i: usize = 0;
    while i < table.len()
        invariant
            code@.len() == 2,
            i <= table@.len(),
            forall|j: int| 0 <= j < i ==> !(code@[0] == #[trigger] table@[j].0 && code@[1] == table@[j].1),
        decreases table@.len() - i,
    {
        let (a, b) = table[i];
        if code[0] == a && code[1] == b {
            return true;
        }
        i += 1;
    }
    false
}

/// The continent of a client whose address GeoIP places in the country
/// `country` (ISO code, upper case) and, in the United States, the state
/// `subdivision`: the US west coast is `SJC`, the rest of the US `NA`, and
/// each other country the continent whose table lists it; anything else is
/// `Unknown`.
pub open spec fn continent_for_spec(country: Option<Seq<char>>, subdivision: Option<Seq<char>>) -> Continent {
    match country {
        None => Continent::Unknown,
        Some(c) => if c == "US"@ {
            match subdivision {
                Some(s) => if code_listed(s, west_coast_states_codes()) {
                    Continent::SJC
                } else {
                    Continent::NA
                },
                None => Continent::NA,
            }
        } else if c == "JP"@ {
            Continent::Tokyo
        } else if code_listed(c, singapore_codes()) {
            Continent::Singapore
        } else if code_listed(c, asia_codes()) {
            Continent::AS
        } else if code_listed(c, north_asia_codes()) {
            Continent::NorthAS
        } else if code_listed(c, europe_codes()) {
            Continent::EU
        } else if code_listed(c, north_america_codes()) {
            Continent::NA
        } else if code_listed(c, south_america_codes()) {
            Continent::SA
        } else if code_listed(c, oceania_codes()) {
            Continent::OC
        } else if code_listed(c, africa_codes()) {
            Continent::AF
        } else {
            Continent::Unknown
        },
    }
}

/// The continent of a client from the country and the first subdivision
/// that GeoIP gives for its address (see `continent_for_spec`).
pub fn continent_for(country: Option<&str>, subdivision: Option<&str>) -> (r: Continent)
    ensures
        r == continent_for_spec(
            match country {
                Some(c) => Some(c@),
                None => None,
            },
            match subdivision {
                Some(s) => Some(s@),
                None => None,
            },
        ),
{
    let c = match country {
        Some(c) => chars_of(c),
        None => return Continent::Unknown,
    };
    let us = chars_of("US");
    if vec_eq(&c, &us) {
        return match subdivision {
            Some(s) => {
                let sc = chars_of(s);
                if listed(&sc, &west_coast_states_table()) {
                    Continent::SJC
                } else {
                    Continent::NA
                }
            },
            None => Continent::NA,
        };
    }
    let jp = chars_of("JP");
    if vec_eq(&c, &jp) {
        return Continent::Tokyo;
    }
    if listed(&c, &singapore_table()) {
        return Continent::Singapore;
    }
    if listed(&c, &asia_table()) {
        return Continent::AS;
    }
    if listed(&c, &north_asia_table()) {
        return Continent::NorthAS;
    }
    if listed(&c, &europe_table()) {
        return Continent::EU;
    }
    if listed(&c, &north_america_table()) {
        return Continent::NA;
    }
    if listed(&c, &south_america_table()) {
        return Continent::SA;
    }
    if listed(&c, &oceania_table()) {
        return Continent::OC;
    }
    if listed(&c, &africa_table()) {
        return Continent::AF;
    }
    Continent::Unknown
}

} // verus!
