//! Which region a relay serves: the country-to-region table, the precedence of
//! an explicit override over a GeoIP answer, the public addresses a relay
//! announces, and the TURN interfaces and registration URL it derives from them.

use vstd::prelude::*;

use crate::netaddr::{is_routable_global, is_routable_global_spec, IpAddress, SocketAddress};
use crate::relay_config::chars_opt;
use crate::text::{chars_of, push_str};

verus! {

/// Whether `c` is the upper-case ASCII letter `up` or its lower-case form.
pub open spec fn same_letter_ci(c: char, up: char) -> bool {
    c == up || c as int == up as int + 32
}

/// Whether `code` is one of the two-letter codes of `table`, ignoring ASCII case.
pub open spec fn code_in(code: Seq<char>, table: Seq<(char, char)>) -> bool {
    code.len() == 2 && exists|i: int|
        0 <= i < table.len() && same_letter_ci(code[0], #[trigger] table[i].0) && same_letter_ci(
            code[1],
            table[i].1,
        )
}

/// The countries served from the `us` region.
pub open spec fn us_codes() -> Seq<(char, char)> {
    seq![('U', 'S'), ('C', 'A'), ('M', 'X')]
}

/// The countries served from the `eu` region.
pub open spec fn eu_codes() -> Seq<(char, char)> {
    seq![
        ('G', 'B'), ('I', 'E'), ('D', 'E'), ('F', 'R'), ('I', 'T'), ('E', 'S'), ('P', 'T'),
        ('N', 'L'), ('B', 'E'), ('L', 'U'), ('A', 'T'), ('C', 'H'), ('S', 'E'), ('N', 'O'),
        ('F', 'I'), ('D', 'K'), ('I', 'S'), ('P', 'L'), ('C', 'Z'), ('S', 'K'), ('H', 'U'),
        ('R', 'O'), ('B', 'G'), ('G', 'R'), ('E', 'E'), ('L', 'V'), ('L', 'T'), ('S', 'I'),
        ('H', 'R'), ('R', 'S'), ('U', 'A'),
    ]
}

/// The countries served from the `asia` region.
pub open spec fn asia_codes() -> Seq<(char, char)> {
    seq![
        ('S', 'G'), ('J', 'P'), ('K', 'R'), ('H', 'K'), ('T', 'W'), ('C', 'N'), ('I', 'N'),
        ('I', 'D'), ('V', 'N'), ('T', 'H'), ('M', 'Y'), ('P', 'H'), ('B', 'D'), ('P', 'K'),
        ('L', 'K'), ('A', 'U'), ('N', 'Z'),
    ]
}

/// The region that serves the country with ISO 3166-1 alpha-2 code `code`
/// (either case), if any.
pub open spec fn region_of_country(code: Seq<char>) -> Option<Seq<char>> {
    if code_in(code, us_codes()) {
        Some("us"@)
    } else if code_in(code, eu_codes()) {
        Some("eu"@)
    } else if code_in(code, asia_codes()) {
        Some("asia"@)
    } else {
        None
    }
}

/// The view of an optional region name.
pub open spec fn region_view(r: Option<&'static str>) -> Option<Seq<char>> {
    match r {
        Some(s) => Some(s@),
        None => None,
    }
}

fn us_table() -> (t: Vec<(char, char)>)
    ensures
        t@ == us_codes(),
{
    let t = vec![('U', 'S'), ('C', 'A'), ('M', 'X')];
    assert(t@ =~= us_codes());
    t
}

fn eu_table() -> (t: Vec<(char, char)>)
    ensures
        t@ == eu_codes(),
{
    let t = vec![
        ('G', 'B'), ('I', 'E'), ('D', 'E'), ('F', 'R'), ('I', 'T'), ('E', 'S'), ('P', 'T'),
        ('N', 'L'), ('B', 'E'), ('L', 'U'), ('A', 'T'), ('C', 'H'), ('S', 'E'), ('N', 'O'),
        ('F', 'I'), ('D', 'K'), ('I', 'S'), ('P', 'L'), ('C', 'Z'), ('S', 'K'), ('H', 'U'),
        ('R', 'O'), ('B', 'G'), ('G', 'R'), ('E', 'E'), ('L', 'V'), ('L', 'T'), ('S', 'I'),
        ('H', 'R'), ('R', 'S'), ('U', 'A'),
    ];
    assert(t@ =~= eu_codes());
    t
}

fn asia_table() -> (t: Vec<(char, char)>)
    ensures
        t@ == asia_codes(),
{
    let t = vec![
        ('S', 'G'), ('J', 'P'), ('K', 'R'), ('H', 'K'), ('T', 'W'), ('C', 'N'), ('I', 'N'),
        ('I', 'D'), ('V', 'N'), ('T', 'H'), ('M', 'Y'), ('P', 'H'), ('B', 'D'), ('P', 'K'),
        ('L', 'K'), ('A', 'U'), ('N', 'Z'),
    ];
    assert(t@ =~= asia_codes());
    t
}

fn letter_ci(c: char, up: char) -> (r: bool)
    requires
        'A' <= up <= 'Z',
    ensures
        r == same_letter_ci(c, up),
{
    c == up || (c as u32) == (up as u32) + 32
}

fn table_has(code: &Vec<char>, table: &Vec<(char, char)>) -> (r: bool)
    requires
        code@.len() == 2,
        forall|i: int|
            0 <= i < table@.len() ==> 'A' <= #[trigger] table@[i].0 <= 'Z' && 'A' <= table@[i].1
                <= 'Z',
    ensures
        r == code_in(code@, table@),
{
    let mut i: usize = 0;
    while i < table.len()
        invariant
            code@.len() == 2,
            i <= table@.len(),
            forall|j: int|
                0 <= j < table@.len() ==> 'A' <= #[trigger] table@[j].0 <= 'Z' && 'A'
                    <= table@[j].1 <= 'Z',
            forall|j: int|
                0 <= j < i ==> !(same_letter_ci(code@[0], #[trigger] table@[j].0) && same_letter_ci(
                    code@[1],
                    table@[j].1,
                )),
        decreases table@.len() - i,
    {
        let (a, b) = table[i];
        if letter_ci(code[0], a) && letter_ci(code[1], b) {
            return true;
        }
        i += 1;
    }
    false
}

/// The countries served from the `us` region, one by one: each code
/// below maps to `us`.
pub proof fn lemma_us_countries()
    ensures
        region_of_country(seq!['U', 'S']) == Some("us"@),
        region_of_country(seq!['C', 'A']) == Some("us"@),
        region_of_country(seq!['M', 'X']) == Some("us"@),
{
    assert(us_codes()[0].0 == 'U' && us_codes()[0].1 == 'S');
    assert(us_codes()[1].0 == 'C' && us_codes()[1].1 == 'A');
    assert(us_codes()[2].0 == 'M' && us_codes()[2].1 == 'X');
}

/// The countries served from the `eu` region, one by one: each code
/// below maps to `eu`.
pub proof fn lemma_eu_countries()
    ensures
        region_of_country(seq!['G', 'B']) == Some("eu"@),
        region_of_country(seq!['I', 'E']) == Some("eu"@),
        region_of_country(seq!['D', 'E']) == Some("eu"@),
        region_of_country(seq!['F', 'R']) == Some("eu"@),
        region_of_country(seq!['I', 'T']) == Some("eu"@),
        region_of_country(seq!['E', 'S']) == Some("eu"@),
        region_of_country(seq!['P', 'T']) == Some("eu"@),
        region_of_country(seq!['N', 'L']) == Some("eu"@),
        region_of_country(seq!['B', 'E']) == Some("eu"@),
        region_of_country(seq!['L', 'U']) == Some("eu"@),
        region_of_country(seq!['A', 'T']) == Some("eu"@),
        region_of_country(seq!['C', 'H']) == Some("eu"@),
        region_of_country(seq!['S', 'E']) == Some("eu"@),
        region_of_country(seq!['N', 'O']) == Some("eu"@),
        region_of_country(seq!['F', 'I']) == Some("eu"@),
        region_of_country(seq!['D', 'K']) == Some("eu"@),
        region_of_country(seq!['I', 'S']) == Some("eu"@),
        region_of_country(seq!['P', 'L']) == Some("eu"@),
        region_of_country(seq!['C', 'Z']) == Some("eu"@),
        region_of_country(seq!['S', 'K']) == Some("eu"@),
        region_of_country(seq!['H', 'U']) == Some("eu"@),
        region_of_country(seq!['R', 'O']) == Some("eu"@),
        region_of_country(seq!['B', 'G']) == Some("eu"@),
        region_of_country(seq!['G', 'R']) == Some("eu"@),
        region_of_country(seq!['E', 'E']) == Some("eu"@),
        region_of_country(seq!['L', 'V']) == Some("eu"@),
        region_of_country(seq!['L', 'T']) == Some("eu"@),
        region_of_country(seq!['S', 'I']) == Some("eu"@),
        region_of_country(seq!['H', 'R']) == Some("eu"@),
        region_of_country(seq!['R', 'S']) == Some("eu"@),
        region_of_country(seq!['U', 'A']) == Some("eu"@),
{
    assert(eu_codes()[0].0 == 'G' && eu_codes()[0].1 == 'B');
    assert(eu_codes()[1].0 == 'I' && eu_codes()[1].1 == 'E');
    assert(eu_codes()[2].0 == 'D' && eu_codes()[2].1 == 'E');
    assert(eu_codes()[3].0 == 'F' && eu_codes()[3].1 == 'R');
    assert(eu_codes()[4].0 == 'I' && eu_codes()[4].1 == 'T');
    assert(eu_codes()[5].0 == 'E' && eu_codes()[5].1 == 'S');
    assert(eu_codes()[6].0 == 'P' && eu_codes()[6].1 == 'T');
    assert(eu_codes()[7].0 == 'N' && eu_codes()[7].1 == 'L');
    assert(eu_codes()[8].0 == 'B' && eu_codes()[8].1 == 'E');
    assert(eu_codes()[9].0 == 'L' && eu_codes()[9].1 == 'U');
    assert(eu_codes()[10].0 == 'A' && eu_codes()[10].1 == 'T');
    assert(eu_codes()[11].0 == 'C' && eu_codes()[11].1 == 'H');
    assert(eu_codes()[12].0 == 'S' && eu_codes()[12].1 == 'E');
    assert(eu_codes()[13].0 == 'N' && eu_codes()[13].1 == 'O');
    assert(eu_codes()[14].0 == 'F' && eu_codes()[14].1 == 'I');
    assert(eu_codes()[15].0 == 'D' && eu_codes()[15].1 == 'K');
    assert(eu_codes()[16].0 == 'I' && eu_codes()[16].1 == 'S');
    assert(eu_codes()[17].0 == 'P' && eu_codes()[17].1 == 'L');
    assert(eu_codes()[18].0 == 'C' && eu_codes()[18].1 == 'Z');
    assert(eu_codes()[19].0 == 'S' && eu_codes()[19].1 == 'K');
    assert(eu_codes()[20].0 == 'H' && eu_codes()[20].1 == 'U');
    assert(eu_codes()[21].0 == 'R' && eu_codes()[21].1 == 'O');
    assert(eu_codes()[22].0 == 'B' && eu_codes()[22].1 == 'G');
    assert(eu_codes()[23].0 == 'G' && eu_codes()[23].1 == 'R');
    assert(eu_codes()[24].0 == 'E' && eu_codes()[24].1 == 'E');
    assert(eu_codes()[25].0 == 'L' && eu_codes()[25].1 == 'V');
    assert(eu_codes()[26].0 == 'L' && eu_codes()[26].1 == 'T');
    assert(eu_codes()[27].0 == 'S' && eu_codes()[27].1 == 'I');
    assert(eu_codes()[28].0 == 'H' && eu_codes()[28].1 == 'R');
    assert(eu_codes()[29].0 == 'R' && eu_codes()[29].1 == 'S');
    assert(eu_codes()[30].0 == 'U' && eu_codes()[30].1 == 'A');
}

/// The countries served from the `asia` region, one by one: each code
/// below maps to `asia`.
pub proof fn lemma_asia_countries()
    ensures
        region_of_country(seq!['S', 'G']) == Some("asia"@),
        region_of_country(seq!['J', 'P']) == Some("asia"@),
        region_of_country(seq!['K', 'R']) == Some("asia"@),
        region_of_country(seq!['H', 'K']) == Some("asia"@),
        region_of_country(seq!['T', 'W']) == Some("asia"@),
        region_of_country(seq!['C', 'N']) == Some("asia"@),
        region_of_country(seq!['I', 'N']) == Some("asia"@),
        region_of_country(seq!['I', 'D']) == Some("asia"@),
        region_of_country(seq!['V', 'N']) == Some("asia"@),
        region_of_country(seq!['T', 'H']) == Some("asia"@),
        region_of_country(seq!['M', 'Y']) == Some("asia"@),
        region_of_country(seq!['P', 'H']) == Some("asia"@),
        region_of_country(seq!['B', 'D']) == Some("asia"@),
        region_of_country(seq!['P', 'K']) == Some("asia"@),
        region_of_country(seq!['L', 'K']) == Some("asia"@),
        region_of_country(seq!['A', 'U']) == Some("asia"@),
        region_of_country(seq!['N', 'Z']) == Some("asia"@),
{
    assert(asia_codes()[0].0 == 'S' && asia_codes()[0].1 == 'G');
    assert(asia_codes()[1].0 == 'J' && asia_codes()[1].1 == 'P');
    assert(asia_codes()[2].0 == 'K' && asia_codes()[2].1 == 'R');
    assert(asia_codes()[3].0 == 'H' && asia_codes()[3].1 == 'K');
    assert(asia_codes()[4].0 == 'T' && asia_codes()[4].1 == 'W');
    assert(asia_codes()[5].0 == 'C' && asia_codes()[5].1 == 'N');
    assert(asia_codes()[6].0 == 'I' && asia_codes()[6].1 == 'N');
    assert(asia_codes()[7].0 == 'I' && asia_codes()[7].1 == 'D');
    assert(asia_codes()[8].0 == 'V' && asia_codes()[8].1 == 'N');
    assert(asia_codes()[9].0 == 'T' && asia_codes()[9].1 == 'H');
    assert(asia_codes()[10].0 == 'M' && asia_codes()[10].1 == 'Y');
    assert(asia_codes()[11].0 == 'P' && asia_codes()[11].1 == 'H');
    assert(asia_codes()[12].0 == 'B' && asia_codes()[12].1 == 'D');
    assert(asia_codes()[13].0 == 'P' && asia_codes()[13].1 == 'K');
    assert(asia_codes()[14].0 == 'L' && asia_codes()[14].1 == 'K');
    assert(asia_codes()[15].0 == 'A' && asia_codes()[15].1 == 'U');
    assert(asia_codes()[16].0 == 'N' && asia_codes()[16].1 == 'Z');
}

/// `c` in upper case, for ASCII letters (`char::to_ascii_uppercase`).
pub open spec fn ascii_upper_char(c: char) -> char {
    if 'a' <= c <= 'z' {
        ((c as int) - 32) as char
    } else {
        c
    }
}

/// `s` in upper case, for ASCII letters (`str::to_ascii_uppercase`).
pub open spec fn ascii_upper(s: Seq<char>) -> Seq<char> {
    s.map_values(|c: char| ascii_upper_char(c))
}

/// Whether every entry of `table` is two upper-case ASCII letters.
pub open spec fn upper_table(table: Seq<(char, char)>) -> bool {
    forall|i: int| 0 <= i < table.len() ==> 'A' <= #[trigger] table[i].0 <= 'Z' && 'A' <= table[i].1 <= 'Z'
}

proof fn lemma_letter_ci_upper(c: char, up: char)
    requires
        'A' <= up <= 'Z',
    ensures
        same_letter_ci(c, up) == same_letter_ci(ascii_upper_char(c), up),
{
    if 'a' <= c <= 'z' {
        assert((((c as int) - 32) as char) as int == (c as int) - 32);
    }
}

proof fn lemma_code_in_upper(code: Seq<char>, table: Seq<(char, char)>)
    requires
        upper_table(table),
    ensures
        code_in(code, table) == code_in(ascii_upper(code), table),
{
    let u = ascii_upper(code);
    if code.len() == 2 {
        assert forall|i: int| 0 <= i < table.len() implies (same_letter_ci(code[0], #[trigger] table[i].0)
            && same_letter_ci(code[1], table[i].1)) == (same_letter_ci(u[0], table[i].0) && same_letter_ci(
            u[1],
            table[i].1,
        )) by {
            lemma_letter_ci_upper(code[0], table[i].0);
            lemma_letter_ci_upper(code[1], table[i].1);
        }
    }
}

/// The region of a country code does not depend on the case of its letters;
/// a code that is not two characters long has none; and a region is one of
/// `us`, `eu`, `asia`.
pub proof fn lemma_region_ignores_case(code: Seq<char>)
    ensures
        region_of_country(code) == region_of_country(ascii_upper(code)),
        code.len() != 2 ==> region_of_country(code) is None,
        region_of_country(code) is None || region_of_country(code) == Some("us"@) || region_of_country(code)
            == Some("eu"@) || region_of_country(code) == Some("asia"@),
{
    assert(upper_table(us_codes()));
    assert(upper_table(eu_codes()));
    assert(upper_table(asia_codes()));
    lemma_code_in_upper(code, us_codes());
    lemma_code_in_upper(code, eu_codes());
    lemma_code_in_upper(code, asia_codes());
}

/// The region that serves the country `iso_code` (an ISO 3166-1 alpha-2 code,
/// in either case): `us`, `eu` or `asia`; `None` for other countries and for
/// anything that is not two letters long.
pub fn country_to_region(iso_code: &str) -> (r: Option<&'static str>)
    ensures
        region_view(r) == region_of_country(iso_code@),
{
    let code = chars_of(iso_code);
    if code.len() != 2 {
        return None;
    }
    let us = us_table();
    if table_has(&code, &us) {
        return Some("us");
    }
    let eu = eu_table();
    if table_has(&code, &eu) {
        return Some("eu");
    }
    let asia = asia_table();
    if table_has(&code, &asia) {
        return Some("asia");
    }
    None
}

/// The region a GeoIP answer gives for `addr`: none for an address that is not
/// globally routable (the lookup is not made for it), else the region of the
/// country code `iso_code` that the lookup returned.
pub fn region_for_lookup(addr: IpAddress, iso_code: Option<&str>) -> (r: Option<&'static str>)
    ensures
        region_view(r) == (if !is_routable_global_spec(addr) {
            None
        } else {
            match iso_code {
                Some(code) => region_of_country(code@),
                None => None,
            }
        }),
{
    if !is_routable_global(addr) {
        return None;
    }
    match iso_code {
        Some(code) => country_to_region(code),
        None => None,
    }
}

/// Where the local region came from.
pub open spec fn resolved_spec(env_override: Option<String>, geoip_region: Option<&'static str>) -> Option<(Seq<char>, Seq<char>)> {
    match env_override {
        Some(v) => Some((v@, "env"@)),
        None => match geoip_region {
            Some(g) => Some((g@, "geoip"@)),
            None => None,
        },
    }
}

/// The view of a resolved region.
pub open spec fn resolved_view(r: Option<(String, &'static str)>) -> Option<(Seq<char>, Seq<char>)> {
    match r {
        Some((region, source)) => Some((region@, source@)),
        None => None,
    }
}

/// The local region and where it came from: an override from the environment
/// wins over the GeoIP answer; with neither there is none.
pub fn resolve_local_region(env_override: Option<String>, geoip_region: Option<&'static str>) -> (r: Option<(String, &'static str)>)
    ensures
        resolved_view(r) == resolved_spec(env_override, geoip_region),
{
    match env_override {
        Some(v) => Some((v, "env")),
        None => match geoip_region {
            Some(g) => {
                let mut s = String::new();
                push_str(&mut s, g);
                Some((s, "geoip"))
            },
            None => None,
        },
    }
}

/// The public addresses a relay announces, one per family.
#[derive(Clone, Copy, Debug, PartialEq, Eq)]
pub struct PublicAddresses {
    pub ipv4: Option<[u8; 4]>,
    pub ipv6: Option<[u16; 8]>,
}

impl PublicAddresses {
    /// The loopback address of each family.
    pub fn localhost() -> (r: Self)
        ensures
            r.ipv4 == Some([127u8, 0, 0, 1]),
            r.ipv6 == Some([0u16, 0, 0, 0, 0, 0, 0, 1]),
    {
        PublicAddresses { ipv4: Some([127u8, 0, 0, 1]), ipv6: Some([0u16, 0, 0, 0, 0, 0, 0, 1]) }
    }

    /// These addresses, or an error when there is none of either family.
    pub fn ensure_any(self) -> (r: Result<Self, String>)
        ensures
            self.ipv4.is_none() && self.ipv6.is_none() ==> (r matches Err(e) && e@
                == "failed to discover any public IP address"@),
            !(self.ipv4.is_none() && self.ipv6.is_none()) ==> r == Ok::<Self, String>(self),
    {
        if self.ipv4.is_none() && self.ipv6.is_none() {
            let mut e = String::new();
            push_str(&mut e, "failed to discover any public IP address");
            return Err(e);
        }
        Ok(self)
    }
}

/// A UDP interface of the TURN server: where it listens, the address it
/// announces, and its limits.
#[derive(Clone, Copy, Debug, PartialEq, Eq)]
pub struct TurnInterface {
    pub listen: SocketAddress,
    pub external: SocketAddress,
    pub idle_timeout: u32,
    pub mtu: u32,
    pub demuxer_capacity: u32,
    pub v6_only: bool,
}

/// The interface that serves IPv4 at `ip`.
pub open spec fn v4_interface(ip: [u8; 4], port: u16) -> TurnInterface {
    TurnInterface {
        listen: SocketAddress::V4 { ip: IpAddress::V4(0, 0, 0, 0), port },
        external: SocketAddress::V4 { ip: IpAddress::V4(ip[0], ip[1], ip[2], ip[3]), port },
        idle_timeout: 20,
        mtu: 1500,
        demuxer_capacity: 4096,
        v6_only: false,
    }
}

/// The interface that serves IPv6 at `ip`.
pub open spec fn v6_interface(ip: [u16; 8], port: u16) -> TurnInterface {
    TurnInterface {
        listen: SocketAddress::V6 {
            ip: IpAddress::V6(0, 0, 0, 0, 0, 0, 0, 0),
            port,
            flowinfo: 0,
            scope_id: 0,
        },
        external: SocketAddress::V6 {
            ip: IpAddress::V6(ip[0], ip[1], ip[2], ip[3], ip[4], ip[5], ip[6], ip[7]),
            port,
            flowinfo: 0,
            scope_id: 0,
        },
        idle_timeout: 20,
        mtu: 1500,
        demuxer_capacity: 4096,
        v6_only: true,
    }
}

/// The TURN interfaces for `addrs`: the IPv4 one first, then the IPv6 one.
pub open spec fn turn_interfaces_spec(addrs: PublicAddresses, port: u16) -> Seq<TurnInterface> {
    (match addrs.ipv4 {
        Some(ip) => seq![v4_interface(ip, port)],
        None => Seq::empty(),
    }) + (match addrs.ipv6 {
        Some(ip) => seq![v6_interface(ip, port)],
        None => Seq::empty(),
    })
}

/// One UDP interface of the TURN server for each public address, all on
/// `port`; an error when there is no public address.
pub fn build_turn_interfaces(public_addresses: &PublicAddresses, port: u16) -> (r: Result<Vec<TurnInterface>, String>)
    ensures
        public_addresses.ipv4.is_none() && public_addresses.ipv6.is_none() ==> (r matches Err(e)
            && e@ == "relay registration requires at least one public IP address"@),
        !(public_addresses.ipv4.is_none() && public_addresses.ipv6.is_none()) ==> (r matches Ok(v)
            && v@ == turn_interfaces_spec(*public_addresses, port)),
{
    let mut interfaces: Vec<TurnInterface> = Vec::new();
    if let Some(ip) = public_addresses.ipv4 {
        interfaces.push(
            TurnInterface {
                listen: SocketAddress::V4 { ip: IpAddress::V4(0, 0, 0, 0), port },
                external: SocketAddress::V4 { ip: IpAddress::V4(ip[0], ip[1], ip[2], ip[3]), port },
                idle_timeout: 20,
                mtu: 1500,
                demuxer_capacity: 4096,
                v6_only: false,
            },
        );
    }
    if let Some(ip) = public_addresses.ipv6 {
        interfaces.push(
            TurnInterface {
                listen: SocketAddress::V6 {
                    ip: IpAddress::V6(0, 0, 0, 0, 0, 0, 0, 0),
                    port,
                    flowinfo: 0,
                    scope_id: 0,
                },
                external: SocketAddress::V6 {
                    ip: IpAddress::V6(ip[0], ip[1], ip[2], ip[3], ip[4], ip[5], ip[6], ip[7]),
                    port,
                    flowinfo: 0,
                    scope_id: 0,
                },
                idle_timeout: 20,
                mtu: 1500,
                demuxer_capacity: 4096,
                v6_only: true,
            },
        );
    }
    if interfaces.len() == 0 {
        let mut e = String::new();
        push_str(&mut e, "relay registration requires at least one public IP address");
        return Err(e);
    }
    assert(interfaces@ =~= turn_interfaces_spec(*public_addresses, port));
    Ok(interfaces)
}

/// What a relay last registered with: the registration URL, its public
/// addresses and its TURN credentials.
#[derive(Clone, Debug)]
pub struct RegistrationState {
    pub registration_url: Option<String>,
    pub public_addresses: PublicAddresses,
    pub turn_username: String,
    pub turn_password: String,
}

impl RegistrationState {
    /// A state that has registered nowhere yet.
    pub fn new(public_addresses: PublicAddresses, turn_username: String, turn_password: String) -> (r: Self)
        ensures
            r.registration_url.is_none(),
            r.public_addresses == public_addresses,
            r.turn_username == turn_username,
            r.turn_password == turn_password,
    {
        RegistrationState { registration_url: None, public_addresses, turn_username, turn_password }
    }

    /// Records `next_url` as the registration URL. Where it is the URL already
    /// held, nothing changes and the answer is `None`; else the answer is the
    /// URL held before (if any) and the new one.
    pub fn update_registration_url(&mut self, next_url: String) -> (r: Option<(Option<String>, String)>)
        ensures
            chars_opt(old(self).registration_url) == Some(next_url@) ==> r.is_none() && *final(self)
                == *old(self),
            chars_opt(old(self).registration_url) != Some(next_url@) ==> {
                &&& r matches Some((previous, next)) && chars_opt(previous) == chars_opt(
                    old(self).registration_url,
                ) && next@ == next_url@
                &&& chars_opt(final(self).registration_url) == Some(next_url@)
            },
            final(self).public_addresses == old(self).public_addresses,
            final(self).turn_username == old(self).turn_username,
            final(self).turn_password == old(self).turn_password,
    {
        let unchanged = match &self.registration_url {
            Some(url) => *url == next_url,
            None => false,
        };
        if unchanged {
            return None;
        }
        let previous = match &self.registration_url {
            Some(url) => Some(url.clone()),
            None => None,
        };
        self.registration_url = Some(next_url.clone());
        Some((previous, next_url))
    }
}

} // verus!
