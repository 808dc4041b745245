//! Reading IP address literals with the grammar of the standard library's
//! `Ipv4Addr`, `Ipv6Addr` and `IpAddr` parsers: dotted quads without
//! octal-looking leading zeros, colon-separated hexadecimal groups with at
//! most one `::`, and an optional trailing embedded IPv4 address.

use vstd::prelude::*;

use crate::netaddr::IpAddress;

verus! {

/// The value of `c` as a digit in base 10 or 16 (`char::to_digit`).
pub open spec fn digit_of(c: char, radix: u32) -> Option<u32> {
    if '0' <= c <= '9' {
        Some((c as u32 - '0' as u32) as u32)
    } else if radix == 16 && 'a' <= c <= 'f' {
        Some((c as u32 - 'a' as u32 + 10) as u32)
    } else if radix == 16 && 'A' <= c <= 'F' {
        Some((c as u32 - 'A' as u32 + 10) as u32)
    } else {
        None
    }
}

/// How many digits follow position `pos`.
pub open spec fn digit_run(s: Seq<char>, pos: int, radix: u32) -> nat
    decreases s.len() - pos,
{
    if 0 <= pos < s.len() && digit_of(s[pos], radix) is Some {
        1 + digit_run(s, pos + 1, radix)
    } else {
        0
    }
}

/// The number written by the `n` digits from position `pos`.
pub open spec fn run_value(s: Seq<char>, pos: int, n: nat, radix: u32) -> int
    decreases n,
{
    if n == 0 {
        0
    } else {
        run_value(s, pos, (n - 1) as nat, radix) * radix + digit_of(s[pos + n - 1], radix).unwrap()
    }
}

/// A number of at most `max_digits` digits and at most `max_value`, read at
/// `pos`; a leading zero followed by more digits is refused unless
/// `allow_zero_prefix`. Gives the value and the position after it.
pub open spec fn read_number(
    s: Seq<char>,
    pos: int,
    radix: u32,
    max_digits: nat,
    allow_zero_prefix: bool,
    max_value: int,
) -> Option<(int, int)> {
    let n = digit_run(s, pos, radix);
    if n == 0 || n > max_digits {
        None
    } else if run_value(s, pos, n, radix) > max_value {
        None
    } else if !allow_zero_prefix && s[pos] == '0' && n > 1 {
        None
    } else {
        Some((run_value(s, pos, n, radix), pos + n))
    }
}

/// The position after the separator `sep` that must precede item `index`
/// (the first item has none).
pub open spec fn read_separator(s: Seq<char>, pos: int, sep: char, index: int) -> Option<int> {
    if index == 0 {
        Some(pos)
    } else if 0 <= pos < s.len() && s[pos] == sep {
        Some(pos + 1)
    } else {
        None
    }
}

/// Octet `index` of a dotted quad, read at `pos`.
pub open spec fn read_octet(s: Seq<char>, pos: int, index: int) -> Option<(int, int)> {
    match read_separator(s, pos, '.', index) {
        Some(p) => read_number(s, p, 10, 3, false, 255),
        None => None,
    }
}

/// A dotted-quad IPv4 address read at `pos`, and the position after it.
pub open spec fn read_ipv4(s: Seq<char>, pos: int) -> Option<((u8, u8, u8, u8), int)> {
    match read_octet(s, pos, 0) {
        Some((a, p1)) => match read_octet(s, p1, 1) {
            Some((b, p2)) => match read_octet(s, p2, 2) {
                Some((c, p3)) => match read_octet(s, p3, 3) {
                    Some((d, p4)) => Some(((a as u8, b as u8, c as u8, d as u8), p4)),
                    None => None,
                },
                None => None,
            },
            None => None,
        },
        None => None,
    }
}

/// Group `index` of an IPv6 address: one to four hexadecimal digits.
pub open spec fn read_group(s: Seq<char>, pos: int, index: int) -> Option<(int, int)> {
    match read_separator(s, pos, ':', index) {
        Some(p) => read_number(s, p, 16, 4, true, 0xffff),
        None => None,
    }
}

/// An embedded IPv4 address at group `index`.
pub open spec fn read_embedded_ipv4(s: Seq<char>, pos: int, index: int) -> Option<((u8, u8, u8, u8), int)> {
    match read_separator(s, pos, ':', index) {
        Some(p) => read_ipv4(s, p),
        None => None,
    }
}

/// The groups read from `pos` as groups `index..limit`: colon-separated
/// hexadecimal groups, possibly ended by an embedded IPv4 address (which
/// counts as two groups and needs room for both). Gives the groups, whether
/// an embedded IPv4 address ended them, and the position after them.
pub open spec fn read_groups(s: Seq<char>, pos: int, index: int, limit: int) -> (Seq<u16>, bool, int)
    decreases limit - index,
{
    if index >= limit {
        (seq![], false, pos)
    } else if index < limit - 1 && read_embedded_ipv4(s, pos, index) is Some {
        let ((a, b, c, d), p) = read_embedded_ipv4(s, pos, index).unwrap();
        (seq![(a * 256 + b) as u16, (c * 256 + d) as u16], true, p)
    } else {
        match read_group(s, pos, index) {
            Some((g, p)) => {
                let (rest, v4, q) = read_groups(s, p, index + 1, limit);
                (seq![g as u16] + rest, v4, q)
            },
            None => (seq![], false, pos),
        }
    }
}

/// What `Ipv6Addr::from_str` yields: the eight groups, when the whole text
/// is an IPv6 address.
pub open spec fn parse_ipv6_spec(s: Seq<char>) -> Option<Seq<u16>> {
    let (head, head_v4, p) = read_groups(s, 0, 0, 8);
    if head.len() == 8 {
        if p == s.len() {
            Some(head)
        } else {
            None
        }
    } else if head_v4 {
        None
    } else if p + 1 < s.len() && s[p] == ':' && s[p + 1] == ':' {
        let (tail, _, q) = read_groups(s, p + 2, 0, 7 - head.len());
        if q == s.len() {
            Some(head + Seq::new((8 - head.len() - tail.len()) as nat, |i: int| 0u16) + tail)
        } else {
            None
        }
    } else {
        None
    }
}

/// What `Ipv4Addr::from_str` yields: the four octets, when the whole text is
/// a dotted quad.
pub open spec fn parse_ipv4_spec(s: Seq<char>) -> Option<(u8, u8, u8, u8)> {
    match read_ipv4(s, 0) {
        Some((o, p)) => if p == s.len() {
            Some(o)
        } else {
            None
        },
        None => None,
    }
}

/// What `IpAddr::from_str` yields: the IPv4 reading when there is one, else
/// the IPv6 reading.
pub open spec fn parse_ip_spec(s: Seq<char>) -> Option<IpAddress> {
    match parse_ipv4_spec(s) {
        Some((a, b, c, d)) => Some(IpAddress::V4(a, b, c, d)),
        None => match parse_ipv6_spec(s) {
            Some(g) => Some(
                IpAddress::V6(g[0], g[1], g[2], g[3], g[4], g[5], g[6], g[7]),
            ),
            None => None,
        },
    }
}

fn digit_value_of(c: char, radix: u32) -> (r: Option<u32>)
    requires
        radix == 10 || radix == 16,
    ensures
        r == digit_of(c, radix),
{
    if '0' <= c && c <= '9' {
        Some(c as u32 - '0' as u32)
    } else if radix == 16 && 'a' <= c && c <= 'f' {
        Some(c as u32 - 'a' as u32 + 10)
    } else if radix == 16 && 'A' <= c && c <= 'F' {
        Some(c as u32 - 'A' as u32 + 10)
    } else {
        None
    }
}

/// `radix` to the power `n`.
pub open spec fn radix_pow(radix: u32, n: nat) -> int
    decreases n,
{
    if n == 0 {
        1
    } else {
        radix_pow(radix, (n - 1) as nat) * radix
    }
}

proof fn lemma_run_value_bound(s: Seq<char>, pos: int, n: nat, radix: u32)
    requires
        radix == 10 || radix == 16,
        n <= digit_run(s, pos, radix),
        0 <= pos,
    ensures
        0 <= run_value(s, pos, n, radix) < radix_pow(radix, n),
    decreases n,
{
    if n > 0 {
        lemma_run_value_bound(s, pos, (n - 1) as nat, radix);
        lemma_digit_run_reaches(s, pos, n - 1, radix);
        let prev = run_value(s, pos, (n - 1) as nat, radix);
        let d = digit_of(s[pos + n - 1], radix).unwrap();
        let pw = radix_pow(radix, (n - 1) as nat);
        assert(d < radix);
        assert(0 <= prev * radix + d < pw * radix) by (nonlinear_arith)
            requires
                0 <= prev < pw,
                0 <= d < radix,
        ;
    }
}

proof fn lemma_radix_pow_small(radix: u32, n: nat)
    requires
        radix == 10 || radix == 16,
        n <= 4,
    ensures
        radix_pow(radix, n) <= 65536,
{
    reveal_with_fuel(radix_pow, 5);
}

proof fn lemma_digit_run_reaches(s: Seq<char>, pos: int, k: int, radix: u32)
    requires
        0 <= pos,
        0 <= k < digit_run(s, pos, radix),
    ensures
        pos + k < s.len(),
        digit_of(s[pos + k], radix) is Some,
    decreases k,
{
    if k > 0 {
        lemma_digit_run_reaches(s, pos + 1, k - 1, radix);
    }
}

fn read_number_exec(
    s: &Vec<char>,
    pos: usize,
    radix: u32,
    max_digits: usize,
    allow_zero_prefix: bool,
    max_value: u32,
) -> (r: Option<(u32, usize)>)
    requires
        pos <= s@.len(),
        radix == 10 || radix == 16,
        max_digits <= 4,
    ensures
        match r {
            Some((v, p)) => read_number(s@, pos as int, radix, max_digits as nat, allow_zero_prefix, max_value as int)
                == Some((v as int, p as int)),
            None => read_number(s@, pos as int, radix, max_digits as nat, allow_zero_prefix, max_value as int) is None,
        },
{
    let n = s.len();
    let mut i = pos;
    while i < n && digit_value_of(s[i], radix).is_some()
        invariant
            pos <= i <= n,
            n == s@.len(),
            radix == 10 || radix == 16,
            digit_run(s@, pos as int, radix) == (i - pos) + digit_run(s@, i as int, radix),
        decreases n - i,
    {
        i += 1;
    }
    let count = i - pos;
    assert(digit_run(s@, i as int, radix) == 0);
    if count == 0 || count > max_digits {
        return None;
    }
    let mut value: u32 = 0;
    let mut k: usize = 0;
    while k < count
        invariant
            k <= count <= max_digits <= 4,
            count == digit_run(s@, pos as int, radix),
            pos + count <= n,
            n == s@.len(),
            radix == 10 || radix == 16,
            value == run_value(s@, pos as int, k as nat, radix),
        decreases count - k,
    {
        proof {
            lemma_digit_run_reaches(s@, pos as int, k as int, radix);
            lemma_run_value_bound(s@, pos as int, k as nat, radix);
            lemma_run_value_bound(s@, pos as int, (k + 1) as nat, radix);
            lemma_radix_pow_small(radix, (k + 1) as nat);
        }
        let d = digit_value_of(s[pos + k], radix).unwrap();
        value = value * radix + d;
        k += 1;
    }
    if value > max_value {
        return None;
    }
    if !allow_zero_prefix && s[pos] == '0' && count > 1 {
        return None;
    }
    Some((value, pos + count))
}

fn read_separator_exec(s: &Vec<char>, pos: usize, sep: char, index: usize) -> (r: Option<usize>)
    requires
        pos <= s@.len(),
    ensures
        match r {
            Some(p) => read_separator(s@, pos as int, sep, index as int) == Some(p as int) && p <= s@.len(),
            None => read_separator(s@, pos as int, sep, index as int) is None,
        },
{
    if index == 0 {
        Some(pos)
    } else if pos < s.len() && s[pos] == sep {
        Some(pos + 1)
    } else {
        None
    }
}

fn read_octet_exec(s: &Vec<char>, pos: usize, index: usize) -> (r: Option<(u32, usize)>)
    requires
        pos <= s@.len(),
    ensures
        match r {
            Some((v, p)) => read_octet(s@, pos as int, index as int) == Some((v as int, p as int)) && p <= s@.len() && v <= 255,
            None => read_octet(s@, pos as int, index as int) is None,
        },
{
    match read_separator_exec(s, pos, '.', index) {
        Some(p) => {
            let r = read_number_exec(s, p, 10, 3, false, 255);
            proof {
                if let Some((v, q)) = r {
                    assert(q as int == p + digit_run(s@, p as int, 10));
                    lemma_digit_run_reaches(s@, p as int, digit_run(s@, p as int, 10) - 1, 10);
                }
            }
            r
        },
        None => None,
    }
}

fn read_ipv4_exec(s: &Vec<char>, pos: usize) -> (r: Option<((u8, u8, u8, u8), usize)>)
    requires
        pos <= s@.len(),
    ensures
        match r {
            Some((o, p)) => read_ipv4(s@, pos as int) == Some((o, p as int)) && p <= s@.len(),
            None => read_ipv4(s@, pos as int) is None,
        },
{
    let (a, p1) = match read_octet_exec(s, pos, 0) {
        Some(x) => x,
        None => return None,
    };
    let (b, p2) = match read_octet_exec(s, p1, 1) {
        Some(x) => x,
        None => return None,
    };
    let (c, p3) = match read_octet_exec(s, p2, 2) {
        Some(x) => x,
        None => return None,
    };
    let (d, p4) = match read_octet_exec(s, p3, 3) {
        Some(x) => x,
        None => return None,
    };
    Some(((a as u8, b as u8, c as u8, d as u8), p4))
}

fn read_group_exec(s: &Vec<char>, pos: usize, index: usize) -> (r: Option<(u16, usize)>)
    requires
        pos <= s@.len(),
    ensures
        match r {
            Some((g, p)) => read_group(s@, pos as int, index as int) == Some((g as int, p as int)) && p <= s@.len(),
            None => read_group(s@, pos as int, index as int) is None,
        },
{
    match read_separator_exec(s, pos, ':', index) {
        Some(p) => {
            match read_number_exec(s, p, 16, 4, true, 0xffff) {
                Some((v, q)) => {
                    proof {
                        lemma_digit_run_reaches(s@, p as int, digit_run(s@, p as int, 16) - 1, 16);
                    }
                    Some((v as u16, q))
                },
                None => None,
            }
        },
        None => None,
    }
}

fn read_embedded_ipv4_exec(s: &Vec<char>, pos: usize, index: usize) -> (r: Option<((u8, u8, u8, u8), usize)>)
    requires
        pos <= s@.len(),
    ensures
        match r {
            Some((o, p)) => read_embedded_ipv4(s@, pos as int, index as int) == Some((o, p as int)) && p <= s@.len(),
            None => read_embedded_ipv4(s@, pos as int, index as int) is None,
        },
{
    match read_separator_exec(s, pos, ':', index) {
        Some(p) => read_ipv4_exec(s, p),
        None => None,
    }
}

fn read_groups_exec(s: &Vec<char>, pos: usize, index: usize, limit: usize) -> (r: (Vec<u16>, bool, usize))
    requires
        pos <= s@.len(),
        index <= limit <= 8,
    ensures
        (r.0@, r.1, r.2 as int) == read_groups(s@, pos as int, index as int, limit as int),
        r.2 <= s@.len(),
        r.0@.len() <= limit - index,
    decreases limit - index,
{
    if index >= limit {
        return (Vec::new(), false, pos);
    }
    if index + 1 < limit {
        if let Some(((a, b, c, d), p)) = read_embedded_ipv4_exec(s, pos, index) {
            let mut v: Vec<u16> = Vec::new();
            v.push((a as u16) * 256 + (b as u16));
            v.push((c as u16) * 256 + (d as u16));
            assert(v@ =~= seq![(a * 256 + b) as u16, (c * 256 + d) as u16]);
            return (v, true, p);
        }
    }
    match read_group_exec(s, pos, index) {
        Some((g, p)) => {
            let (rest, v4, q) = read_groups_exec(s, p, index + 1, limit);
            let mut v: Vec<u16> = Vec::new();
            v.push(g);
            let mut k: usize = 0;
            while k < rest.len()
                invariant
                    k <= rest@.len(),
                    v@ == seq![g] + rest@.take(k as int),
                decreases rest@.len() - k,
            {
                v.push(rest[k]);
                assert(rest@.take(k as int + 1) =~= rest@.take(k as int).push(rest@[k as int]));
                k += 1;
            }
            assert(rest@.take(rest@.len() as int) =~= rest@);
            (v, v4, q)
        },
        None => (Vec::new(), false, pos),
    }
}

/// Reads a whole text as an IPv6 address.
pub fn parse_ipv6(s: &Vec<char>) -> (r: Option<Vec<u16>>)
    ensures
        match r {
            Some(g) => parse_ipv6_spec(s@) == Some(g@) && g@.len() == 8,
            None => parse_ipv6_spec(s@) is None,
        },
{
    let n = s.len();
    let (head, head_v4, p) = read_groups_exec(s, 0, 0, 8);
    if head.len() == 8 {
        return if p == n {
            Some(head)
        } else {
            None
        };
    }
    if head_v4 {
        return None;
    }
    if !(p < n && n - p > 1 && s[p] == ':' && s[p + 1] == ':') {
        return None;
    }
    let (tail, _, q) = read_groups_exec(s, p + 2, 0, 7 - head.len());
    if q != n {
        return None;
    }
    let mut out = head;
    let zeros = 8 - out.len() - tail.len();
    let ghost h = out@;
    let mut k: usize = 0;
    while k < zeros
        invariant
            k <= zeros,
            out@ == h + Seq::new(k as nat, |i: int| 0u16),
        decreases zeros - k,
    {
        out.push(0);
        assert(h + Seq::new((k + 1) as nat, |i: int| 0u16) =~= (h + Seq::new(k as nat, |i: int| 0u16)).push(0));
        k += 1;
    }
    let ghost mid = out@;
    let mut j: usize = 0;
    while j < tail.len()
        invariant
            j <= tail@.len(),
            out@ == mid + tail@.take(j as int),
        decreases tail@.len() - j,
    {
        out.push(tail[j]);
        assert(tail@.take(j as int + 1) =~= tail@.take(j as int).push(tail@[j as int]));
        j += 1;
    }
    assert(tail@.take(tail@.len() as int) =~= tail@);
    Some(out)
}

/// Reads a whole text as a dotted-quad IPv4 address.
pub fn parse_ipv4(s: &Vec<char>) -> (r: Option<(u8, u8, u8, u8)>)
    ensures
        r == parse_ipv4_spec(s@),
{
    match read_ipv4_exec(s, 0) {
        Some((o, p)) => if p == s.len() {
            Some(o)
        } else {
            None
        },
        None => None,
    }
}

/// Reads a whole text as an IP address of either family (`IpAddr::from_str`).
pub fn parse_ip(s: &Vec<char>) -> (r: Option<IpAddress>)
    ensures
        r == parse_ip_spec(s@),
{
    match parse_ipv4(s) {
        Some((a, b, c, d)) => Some(IpAddress::V4(a, b, c, d)),
        None => match parse_ipv6(s) {
            Some(g) => Some(IpAddress::V6(g[0], g[1], g[2], g[3], g[4], g[5], g[6], g[7])),
            None => None,
        },
    }
}

} // verus!
