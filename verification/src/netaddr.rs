//! IP and socket addresses as plain numbers, the IPv4-mapped IPv6 form used
//! on dual-stack sockets, and which addresses are worth a GeoIP lookup.

use vstd::prelude::*;

verus! {

/// An IP address: four octets, or eight 16-bit segments.
#[derive(Clone, Copy, Debug, PartialEq, Eq, Structural)]
pub enum IpAddress {
    V4(u8, u8, u8, u8),
    V6(u16, u16, u16, u16, u16, u16, u16, u16),
}

/// A socket address. The IPv6 form keeps its flow label and scope id.
#[derive(Clone, Copy, Debug, PartialEq, Eq, Structural)]
pub enum SocketAddress {
    V4 { ip: IpAddress, port: u16 },
    V6 { ip: IpAddress, port: u16, flowinfo: u32, scope_id: u32 },
}

/// The IPv4 address `a.b.c.d` written as the IPv6 address `::ffff:a.b.c.d`.
pub open spec fn v4_to_mapped_spec(a: u8, b: u8, c: u8, d: u8) -> IpAddress {
    IpAddress::V6(0, 0, 0, 0, 0, 0xffff, (a * 256 + b) as u16, (c * 256 + d) as u16)
}

/// The IPv4 address inside an IPv4-mapped IPv6 address, if it is one.
pub open spec fn mapped_to_v4_spec(ip: IpAddress) -> Option<IpAddress> {
    match ip {
        IpAddress::V6(s0, s1, s2, s3, s4, s5, s6, s7) => if s0 == 0 && s1 == 0 && s2 == 0 && s3 == 0
            && s4 == 0 && s5 == 0xffff {
            Some(IpAddress::V4((s6 / 256) as u8, (s6 % 256) as u8, (s7 / 256) as u8, (s7 % 256) as u8))
        } else {
            None
        },
        IpAddress::V4(..) => None,
    }
}

/// A socket address in the form a dual-stack IPv6 socket sends to: IPv4
/// addresses become IPv4-mapped IPv6 addresses, IPv6 addresses stay.
pub open spec fn to_v6_mapped_spec(addr: SocketAddress) -> SocketAddress {
    match addr {
        SocketAddress::V4 { ip: IpAddress::V4(a, b, c, d), port } => SocketAddress::V6 {
            ip: v4_to_mapped_spec(a, b, c, d),
            port,
            flowinfo: 0,
            scope_id: 0,
        },
        _ => addr,
    }
}

/// A socket address as received on a dual-stack socket, with IPv4-mapped
/// IPv6 addresses turned back into IPv4 addresses.
pub open spec fn from_v6_mapped_spec(addr: SocketAddress) -> SocketAddress {
    match addr {
        SocketAddress::V6 { ip, port, .. } => match mapped_to_v4_spec(ip) {
            Some(v4) => SocketAddress::V4 { ip: v4, port },
            None => addr,
        },
        _ => addr,
    }
}

/// A socket address whose IP is of the family its form says.
pub open spec fn well_formed(addr: SocketAddress) -> bool {
    match addr {
        SocketAddress::V4 { ip, .. } => ip is V4,
        SocketAddress::V6 { ip, .. } => ip is V6,
    }
}

pub fn to_v6_mapped(addr: SocketAddress) -> (r: SocketAddress)
    ensures
        r == to_v6_mapped_spec(addr),
{
    match addr {
        SocketAddress::V4 { ip: IpAddress::V4(a, b, c, d), port } => {
            let s6 = (a as u16) * 256 + (b as u16);
            let s7 = (c as u16) * 256 + (d as u16);
            SocketAddress::V6 {
                ip: IpAddress::V6(0, 0, 0, 0, 0, 0xffff, s6, s7),
                port,
                flowinfo: 0,
                scope_id: 0,
            }
        },
        _ => addr,
    }
}

pub fn from_v6_mapped(addr: SocketAddress) -> (r: SocketAddress)
    ensures
        r == from_v6_mapped_spec(addr),
{
    match addr {
        SocketAddress::V6 { ip: IpAddress::V6(s0, s1, s2, s3, s4, s5, s6, s7), port, .. } => {
            if s0 == 0 && s1 == 0 && s2 == 0 && s3 == 0 && s4 == 0 && s5 == 0xffff {
                SocketAddress::V4 {
                    ip: IpAddress::V4((s6 / 256) as u8, (s6 % 256) as u8, (s7 / 256) as u8, (s7 % 256) as u8),
                    port,
                }
            } else {
                addr
            }
        },
        _ => addr,
    }
}

/// Turning an IPv4 socket address into its mapped form and back gives it back.
pub proof fn lemma_mapped_round_trip(addr: SocketAddress)
    requires
        addr is V4,
        well_formed(addr),
    ensures
        from_v6_mapped_spec(to_v6_mapped_spec(addr)) == addr,
{
    if let SocketAddress::V4 { ip: IpAddress::V4(a, b, c, d), port } = addr {
        assert((a * 256 + b) / 256 == a && (a * 256 + b) % 256 == b) by (nonlinear_arith)
            requires
                0 <= a < 256,
                0 <= b < 256,
        ;
        assert((c * 256 + d) / 256 == c && (c * 256 + d) % 256 == d) by (nonlinear_arith)
            requires
                0 <= c < 256,
                0 <= d < 256,
        ;
        assert(a * 256 + b <= 0xffff) by (nonlinear_arith)
            requires
                0 <= a < 256,
                0 <= b < 256,
        ;
        assert(c * 256 + d <= 0xffff) by (nonlinear_arith)
            requires
                0 <= c < 256,
                0 <= d < 256,
        ;
    }
}

/// An IPv4-mapped IPv6 socket address with no flow label or scope is the
/// mapped form of the IPv4 address it unwraps to.
pub proof fn lemma_unmapped_round_trip(addr: SocketAddress)
    requires
        addr matches SocketAddress::V6 { ip, flowinfo, scope_id, .. } && flowinfo == 0 && scope_id
            == 0 && mapped_to_v4_spec(ip) is Some,
    ensures
        to_v6_mapped_spec(from_v6_mapped_spec(addr)) == addr,
{
    if let SocketAddress::V6 { ip: IpAddress::V6(s0, s1, s2, s3, s4, s5, s6, s7), .. } = addr {
        assert((s6 / 256) * 256 + s6 % 256 == s6) by (nonlinear_arith)
            requires
                0 <= s6,
        ;
        assert((s7 / 256) * 256 + s7 % 256 == s7) by (nonlinear_arith)
            requires
                0 <= s7,
        ;
        assert(s6 / 256 < 256 && s7 / 256 < 256) by (nonlinear_arith)
            requires
                0 <= s6 < 65536,
                0 <= s7 < 65536,
        ;
    }
}

/// Unwrapping mapped addresses twice is the same as once, and mapping twice
/// the same as once.
pub proof fn lemma_mapping_idempotent(addr: SocketAddress)
    requires
        well_formed(addr),
    ensures
        from_v6_mapped_spec(from_v6_mapped_spec(addr)) == from_v6_mapped_spec(addr),
        to_v6_mapped_spec(to_v6_mapped_spec(addr)) == to_v6_mapped_spec(addr),
{
}

/// `127.0.0.0/8`.
pub open spec fn v4_is_loopback(a: u8) -> bool {
    a == 127
}

/// `10.0.0.0/8`, `172.16.0.0/12`, `192.168.0.0/16`.
pub open spec fn v4_is_private(a: u8, b: u8) -> bool {
    a == 10 || (a == 172 && 16 <= b <= 31) || (a == 192 && b == 168)
}

/// `192.0.2.0/24`, `198.51.100.0/24`, `203.0.113.0/24`.
pub open spec fn v4_is_documentation(a: u8, b: u8, c: u8) -> bool {
    (a == 192 && b == 0 && c == 2) || (a == 198 && b == 51 && c == 100) || (a == 203 && b == 0 && c
        == 113)
}

/// Whether a GeoIP lookup of this IPv4 address means anything: not loopback,
/// private, link-local, broadcast, unspecified, documentation, shared
/// (`100.64.0.0/10`), IETF (`192.0.0.0/24`), benchmarking (`198.18.0.0/15`)
/// or reserved (`240.0.0.0/4`).
pub open spec fn is_routable_global_v4_spec(a: u8, b: u8, c: u8, d: u8) -> bool {
    &&& !v4_is_loopback(a)
    &&& !v4_is_private(a, b)
    &&& !(a == 169 && b == 254)
    &&& !(a == 255 && b == 255 && c == 255 && d == 255)
    &&& !(a == 0 && b == 0 && c == 0 && d == 0)
    &&& !v4_is_documentation(a, b, c)
    &&& !(a == 100 && 64 <= b <= 127)
    &&& !(a == 192 && b == 0 && c == 0)
    &&& !(a == 198 && (b == 18 || b == 19))
    &&& a < 240
}

/// Whether a GeoIP lookup of this IPv6 address means anything: not loopback,
/// unspecified, multicast, unique-local (`fc00::/7`), link-local
/// (`fe80::/10`), documentation (`2001:db8::/32`) or discard (`100::/64`).
pub open spec fn is_routable_global_v6_spec(s: (u16, u16, u16, u16, u16, u16, u16, u16)) -> bool {
    let (s0, s1, s2, s3, s4, s5, s6, s7) = s;
    &&& !(s0 == 0 && s1 == 0 && s2 == 0 && s3 == 0 && s4 == 0 && s5 == 0 && s6 == 0 && s7 == 1)
    &&& !(s0 == 0 && s1 == 0 && s2 == 0 && s3 == 0 && s4 == 0 && s5 == 0 && s6 == 0 && s7 == 0)
    &&& !(s0 >= 0xff00)
    &&& !(0xfc00 <= s0 <= 0xfdff)
    &&& !(0xfe80 <= s0 <= 0xfebf)
    &&& !(s0 == 0x2001 && s1 == 0x0db8)
    &&& !(s0 == 0x0100 && s1 == 0 && s2 == 0 && s3 == 0)
}

pub open spec fn is_routable_global_spec(addr: IpAddress) -> bool {
    match addr {
        IpAddress::V4(a, b, c, d) => is_routable_global_v4_spec(a, b, c, d),
        IpAddress::V6(s0, s1, s2, s3, s4, s5, s6, s7) => is_routable_global_v6_spec(
            (s0, s1, s2, s3, s4, s5, s6, s7),
        ),
    }
}

pub fn is_routable_global(addr: IpAddress) -> (r: bool)
    ensures
        r == is_routable_global_spec(addr),
{
    match addr {
        IpAddress::V4(a, b, c, d) => {
            if a == 127 || a == 10 || (a == 172 && 16 <= b && b <= 31) || (a == 192 && b == 168) {
                return false;
            }
            if (a == 169 && b == 254) || (a == 255 && b == 255 && c == 255 && d == 255) || (a == 0
                && b == 0 && c == 0 && d == 0) {
                return false;
            }
            if (a == 192 && b == 0 && c == 2) || (a == 198 && b == 51 && c == 100) || (a == 203 && b
                == 0 && c == 113) {
                return false;
            }
            if a == 100 && 64 <= b && b <= 127 {
                return false;
            }
            if a == 192 && b == 0 && c == 0 {
                return false;
            }
            if a == 198 && (b == 18 || b == 19) {
                return false;
            }
            a < 240
        },
        IpAddress::V6(s0, s1, s2, s3, s4, s5, s6, s7) => {
            let low_zero = s0 == 0 && s1 == 0 && s2 == 0 && s3 == 0 && s4 == 0 && s5 == 0 && s6 == 0;
            if low_zero && (s7 == 0 || s7 == 1) {
                return false;
            }
            if s0 >= 0xff00 {
                return false;
            }
            if 0xfc00 <= s0 && s0 <= 0xfdff {
                return false;
            }
            if 0xfe80 <= s0 && s0 <= 0xfebf {
                return false;
            }
            if s0 == 0x2001 && s1 == 0x0db8 {
                return false;
            }
            !(s0 == 0x0100 && s1 == 0 && s2 == 0 && s3 == 0)
        },
    }
}

/// The private IPv4 ranges are exactly `10.0.0.0/8`, `172.16.0.0/12` and
/// `192.168.0.0/16` (as `Ipv4Addr::is_private`): their addresses are never
/// looked up, while an address `172.b.c.d` outside `172.16.0.0/12`, or
/// `192.b.c.d` with `b` neither 0 nor 168, or any address whose first octet
/// has no special range at all, is globally routable.
pub proof fn lemma_private_ranges_exactly(a: u8, b: u8, c: u8, d: u8)
    ensures
        !is_routable_global_spec(IpAddress::V4(10, b, c, d)),
        16 <= b <= 31 ==> !is_routable_global_spec(IpAddress::V4(172, b, c, d)),
        !is_routable_global_spec(IpAddress::V4(192, 168, c, d)),
        b < 16 || b > 31 ==> is_routable_global_spec(IpAddress::V4(172, b, c, d)),
        b != 0 && b != 168 ==> is_routable_global_spec(IpAddress::V4(192, b, c, d)),
        a != 0 && a != 10 && a != 100 && a != 127 && a != 169 && a != 172 && a != 192 && a != 198 && a != 203
            && a < 240 ==> is_routable_global_spec(IpAddress::V4(a, b, c, d)),
{
}

/// An IPv6 address whose first segment starts no special range (it is not
/// `0`, `0x100`, `0x2001`, nor in `fc00::/7`, `fe80::/10` or `ff00::/8`) is
/// globally routable, and the special ranges are not.
pub proof fn lemma_ipv6_ranges(s0: u16, s1: u16, s2: u16, s3: u16, s4: u16, s5: u16, s6: u16, s7: u16)
    ensures
        s0 != 0 && s0 != 0x100 && s0 != 0x2001 && !(0xfc00 <= s0 <= 0xfdff) && !(0xfe80 <= s0 <= 0xfebf) && s0
            < 0xff00 ==> is_routable_global_spec(IpAddress::V6(s0, s1, s2, s3, s4, s5, s6, s7)),
        0xfc00 <= s0 <= 0xfdff ==> !is_routable_global_spec(IpAddress::V6(s0, s1, s2, s3, s4, s5, s6, s7)),
        0xfe80 <= s0 <= 0xfebf ==> !is_routable_global_spec(IpAddress::V6(s0, s1, s2, s3, s4, s5, s6, s7)),
        s0 >= 0xff00 ==> !is_routable_global_spec(IpAddress::V6(s0, s1, s2, s3, s4, s5, s6, s7)),
        !is_routable_global_spec(IpAddress::V6(0x2001, 0x0db8, s2, s3, s4, s5, s6, s7)),
        !is_routable_global_spec(IpAddress::V6(0, 0, 0, 0, 0, 0, 0, 1)),
{
}

} // verus!
