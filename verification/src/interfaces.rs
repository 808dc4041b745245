//! Which network interfaces yield host candidates: not loopback, not
//! link-local, and not one of the virtual adapters that container runtimes,
//! hypervisors and VPNs create.

use vstd::prelude::*;

use crate::netaddr::IpAddress;
use crate::text::{chars_of, contains_seq, starts_with, trim, trim_chars, vec_contains, vec_starts_with};

verus! {

/// `c` in lower case where it is an ASCII capital (`char::to_ascii_lowercase`).
pub open spec fn ascii_lower(c: char) -> char {
    match c {
        'A' => 'a',
        'B' => 'b',
        'C' => 'c',
        'D' => 'd',
        'E' => 'e',
        'F' => 'f',
        'G' => 'g',
        'H' => 'h',
        'I' => 'i',
        'J' => 'j',
        'K' => 'k',
        'L' => 'l',
        'M' => 'm',
        'N' => 'n',
        'O' => 'o',
        'P' => 'p',
        'Q' => 'q',
        'R' => 'r',
        'S' => 's',
        'T' => 't',
        'U' => 'u',
        'V' => 'v',
        'W' => 'w',
        'X' => 'x',
        'Y' => 'y',
        'Z' => 'z',
        _ => c,
    }
}

/// `s` with its ASCII capitals in lower case (`str::to_ascii_lowercase`).
pub open spec fn ascii_lower_seq(s: Seq<char>) -> Seq<char> {
    s.map_values(|c: char| ascii_lower(c))
}

fn lower_char(c: char) -> (r: char)
    ensures
        r == ascii_lower(c),
{
    match c {
        'A' => 'a',
        'B' => 'b',
        'C' => 'c',
        'D' => 'd',
        'E' => 'e',
        'F' => 'f',
        'G' => 'g',
        'H' => 'h',
        'I' => 'i',
        'J' => 'j',
        'K' => 'k',
        'L' => 'l',
        'M' => 'm',
        'N' => 'n',
        'O' => 'o',
        'P' => 'p',
        'Q' => 'q',
        'R' => 'r',
        'S' => 's',
        'T' => 't',
        'U' => 'u',
        'V' => 'v',
        'W' => 'w',
        'X' => 'x',
        'Y' => 'y',
        'Z' => 'z',
        _ => c,
    }
}

fn lower_chars(v: &Vec<char>) -> (r: Vec<char>)
    ensures
        r@ == ascii_lower_seq(v@),
{
    let mut r: Vec<char> = Vec::new();
    let mut i: usize = 0;
    while i < v.len()
        invariant
            i <= v@.len(),
            r@ == ascii_lower_seq(v@.take(i as int)),
        decreases v@.len() - i,
    {
        r.push(lower_char(v[i]));
        assert(ascii_lower_seq(v@.take(i as int + 1)) =~= ascii_lower_seq(v@.take(i as int)).push(
            ascii_lower(v@[i as int]),
        ));
        i += 1;
    }
    assert(v@.take(v@.len() as int) =~= v@);
    r
}

/// Whether a lower-case interface name is one of the virtual adapters found
/// on Windows: Hyper-V and WSL switches, capture drivers, VPN and tunnel
/// adapters.
pub open spec fn windows_virtual_spec(lowered: Seq<char>) -> bool {
    ||| starts_with(lowered, "vethernet"@)
    ||| contains_seq(lowered, "hyper-v"@)
    ||| contains_seq(lowered, "wsl"@)
    ||| contains_seq(lowered, "npcap"@)
    ||| contains_seq(lowered, "tailscale"@)
    ||| contains_seq(lowered, "zerotier"@)
    ||| contains_seq(lowered, "wireguard"@)
    ||| contains_seq(lowered, "loopback pseudo-interface"@)
    ||| contains_seq(lowered, "teredo"@)
    ||| contains_seq(lowered, "isatap"@)
    ||| contains_seq(lowered, "6to4"@)
    ||| contains_seq(lowered, "openvpn"@)
    ||| contains_seq(lowered, "hamachi"@)
}

/// Whether an interface name is left out of candidate gathering: after
/// trimming and lower-casing, a Docker, VirtualBox, bridge, veth or libvirt
/// name, or, with the Windows rules, a Windows virtual adapter.
pub open spec fn filtered_spec(name: Seq<char>, apply_windows_rules: bool) -> bool {
    let l = ascii_lower_seq(trim(name));
    ||| starts_with(l, "docker"@)
    ||| starts_with(l, "vbox"@)
    ||| starts_with(l, "br-"@)
    ||| starts_with(l, "veth"@)
    ||| starts_with(l, "virbr"@)
    ||| (apply_windows_rules && windows_virtual_spec(l))
}

fn has_prefix(v: &Vec<char>, p: &str) -> (r: bool)
    ensures
        r == starts_with(v@, p@),
{
    let pc = chars_of(p);
    vec_starts_with(v, &pc)
}

fn has_piece(v: &Vec<char>, p: &str) -> (r: bool)
    ensures
        r == contains_seq(v@, p@),
{
    let pc = chars_of(p);
    vec_contains(v, &pc)
}

fn windows_virtual(lowered: &Vec<char>) -> (r: bool)
    ensures
        r == windows_virtual_spec(lowered@),
{
    has_prefix(lowered, "vethernet") || has_piece(lowered, "hyper-v") || has_piece(lowered, "wsl")
        || has_piece(lowered, "npcap") || has_piece(lowered, "tailscale") || has_piece(
        lowered,
        "zerotier",
    ) || has_piece(lowered, "wireguard") || has_piece(lowered, "loopback pseudo-interface")
        || has_piece(lowered, "teredo") || has_piece(lowered, "isatap") || has_piece(
        lowered,
        "6to4",
    ) || has_piece(lowered, "openvpn") || has_piece(lowered, "hamachi")
}

/// Whether a lower-case interface name is a Windows virtual adapter.
pub fn is_windows_virtual_interface_name(lowered_name: &str) -> (r: bool)
    ensures
        r == windows_virtual_spec(lowered_name@),
{
    let v = chars_of(lowered_name);
    windows_virtual(&v)
}

/// Whether the interface called `name` is left out of candidate gathering.
pub fn is_filtered_interface_name(name: &str, apply_windows_rules: bool) -> (r: bool)
    ensures
        r == filtered_spec(name@, apply_windows_rules),
{
    let v = chars_of(name);
    let t = trim_chars(&v);
    let l = lower_chars(&t);
    if has_prefix(&l, "docker") || has_prefix(&l, "vbox") || has_prefix(&l, "br-") || has_prefix(
        &l,
        "veth",
    ) || has_prefix(&l, "virbr") {
        return true;
    }
    apply_windows_rules && windows_virtual(&l)
}

/// What candidate gathering knows of a network interface.
#[derive(Clone, Debug)]
pub struct InterfaceInfo {
    pub name: String,
    pub is_loopback: bool,
    pub ip: IpAddress,
}

/// Whether an address is link-local: `169.254.0.0/16` or `fe80::/10`.
pub open spec fn link_local_spec(ip: IpAddress) -> bool {
    match ip {
        IpAddress::V4(a, b, _, _) => a == 169 && b == 254,
        IpAddress::V6(s0, _, _, _, _, _, _, _) => (s0 & 0xffc0u16) == 0xfe80u16,
    }
}

/// Whether an interface yields a host candidate: it is not loopback, its
/// name is not filtered, and its address is not link-local.
pub fn is_usable_interface(iface: &InterfaceInfo, apply_windows_rules: bool) -> (r: bool)
    ensures
        r == (!iface.is_loopback && !filtered_spec(iface.name@, apply_windows_rules)
            && !link_local_spec(iface.ip)),
{
    if iface.is_loopback {
        return false;
    }
    if is_filtered_interface_name(iface.name.as_str(), apply_windows_rules) {
        return false;
    }
    match iface.ip {
        IpAddress::V4(a, b, _, _) => !(a == 169 && b == 254),
        IpAddress::V6(s0, _, _, _, _, _, _, _) => (s0 & 0xffc0u16) != 0xfe80u16,
    }
}

} // verus!
