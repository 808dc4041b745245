//! The relay's STUN responder: a binding request is answered with a binding
//! success that carries the same transaction id and the address the request
//! came from (XOR-MAPPED-ADDRESS); every other packet goes unanswered.

use vstd::prelude::*;

use stun::agent::TransactionId;
use stun::message::{Message, Setter, BINDING_SUCCESS};
use stun::xoraddr::XorMappedAddress;

use crate::netaddr::{IpAddress, SocketAddress};

verus! {

/// The message type and transaction id of `packet`, where the `stun` crate
/// reads it as a STUN message (`Message::unmarshal_binary`): the type is the
/// 14-bit message type field, method and class together.
pub uninterp spec fn stun_message_head(packet: Seq<u8>) -> Option<(u16, Seq<u8>)>;

/// `v` as two bytes, most significant first.
pub open spec fn be16(v: u16) -> Seq<u8> {
    seq![(v / 256) as u8, (v % 256) as u8]
}

/// The STUN magic cookie, 0x2112A442, as bytes.
pub open spec fn magic_cookie() -> Seq<u8> {
    seq![0x21u8, 0x12u8, 0xA4u8, 0x42u8]
}

/// The bytes of an IP address: four octets, or eight segments of two bytes.
pub open spec fn ip_bytes(ip: IpAddress) -> Seq<u8> {
    match ip {
        IpAddress::V4(a, b, c, d) => seq![a, b, c, d],
        IpAddress::V6(s0, s1, s2, s3, s4, s5, s6, s7) => be16(s0) + be16(s1) + be16(s2) + be16(s3) + be16(s4)
            + be16(s5) + be16(s6) + be16(s7),
    }
}

/// `a` with each byte XORed with the byte of `b` at its position.
pub open spec fn xor_bytes(a: Seq<u8>, b: Seq<u8>) -> Seq<u8> {
    Seq::new(a.len(), |i: int| a[i] ^ b[i])
}

/// The bytes of the binding success response (RFC 5389) with transaction id
/// `tid` and XOR-MAPPED-ADDRESS `ip`:`port`, as the `stun` crate encodes it:
/// the 20-byte header (type 0x0101, length, magic cookie, transaction id),
/// then the one attribute (type 0x0020, length, family, the port XORed with
/// the cookie's top half, the address XORed with the cookie and the
/// transaction id).
pub open spec fn stun_success_bytes(tid: Seq<u8>, ip: IpAddress, port: u16) -> Seq<u8> {
    let family: u16 = match ip {
        IpAddress::V4(..) => 1,
        IpAddress::V6(..) => 2,
    };
    let value = be16(family) + be16(port ^ 0x2112u16) + xor_bytes(ip_bytes(ip), magic_cookie() + tid);
    let attr = be16(0x0020u16) + be16(value.len() as u16) + value;
    be16(0x0101u16) + be16(attr.len() as u16) + magic_cookie() + tid + attr
}

/// The message type of a binding request: method binding, class request.
pub const BINDING_REQUEST_TYPE: u16 = 0x0001;

/// `Message::unmarshal_binary` of the `stun` crate, giving the message type
/// (`MessageType::value`) and the transaction id. Claims that these are a
/// function of the packet alone.
#[verifier::external_body]
fn stun_parse(packet: &[u8]) -> (r: Option<(u16, [u8; 12])>)
    ensures
        stun_message_head(packet@) == match r {
            Some((t, id)) => Some((t, id@)),
            None => None,
        },
{
    let mut message = Message::new();
    message.unmarshal_binary(packet).ok()?;
    Some((message.typ.value(), message.transaction_id.0))
}

/// `Message::build` with the transaction id `tid`, the type binding success
/// and the XOR-MAPPED-ADDRESS `ip`:`port`, then `Message::marshal_binary`.
/// Claims that the bytes are the encoding `stun_success_bytes` of these
/// values (header, then the one attribute, with no padding since its value
/// is 8 or 20 bytes long), and that they are always made: each of the three
/// setters and `marshal_binary` return `Ok` in the crate's source.
#[verifier::external_body]
fn stun_binding_success(tid: [u8; 12], ip: IpAddress, port: u16) -> (r: Option<Vec<u8>>)
    ensures
        r is Some,
        r matches Some(v) ==> v@ == stun_success_bytes(tid@, ip, port),
{
    let ip = match ip {
        IpAddress::V4(a, b, c, d) => [a, b, c, d].into(),
        IpAddress::V6(s0, s1, s2, s3, s4, s5, s6, s7) => [s0, s1, s2, s3, s4, s5, s6, s7].into(),
    };
    let setters: [Box<dyn Setter>; 3] =
        [Box::new(TransactionId(tid)), Box::new(BINDING_SUCCESS), Box::new(XorMappedAddress { ip, port })];
    let mut response = Message::new();
    response.build(&setters).ok()?;
    response.marshal_binary().ok()
}

/// The IP address and port of a socket address.
pub open spec fn ip_and_port(a: SocketAddress) -> (IpAddress, u16) {
    match a {
        SocketAddress::V4 { ip, port } => (ip, port),
        SocketAddress::V6 { ip, port, .. } => (ip, port),
    }
}

/// The reply to `packet` from `src`: for a binding request, the binding
/// success with its transaction id and `src` as the mapped address; for
/// anything else, none.
pub open spec fn binding_reply(packet: Seq<u8>, src: SocketAddress) -> Option<Seq<u8>> {
    match stun_message_head(packet) {
        Some((t, id)) => if t == BINDING_REQUEST_TYPE {
            Some(stun_success_bytes(id, ip_and_port(src).0, ip_and_port(src).1))
        } else {
            None
        },
        None => None,
    }
}

/// The answer to `packet`, received from `src`: exactly the binding requests
/// are answered (see `binding_reply`).
pub fn binding_response(packet: &[u8], src: SocketAddress) -> (r: Option<Vec<u8>>)
    ensures
        match r {
            Some(v) => binding_reply(packet@, src) == Some(v@),
            None => binding_reply(packet@, src) is None,
        },
{
    let (typ, tid) = match stun_parse(packet) {
        Some(head) => head,
        None => return None,
    };
    if typ != BINDING_REQUEST_TYPE {
        return None;
    }
    let (ip, port) = match src {
        SocketAddress::V4 { ip, port } => (ip, port),
        SocketAddress::V6 { ip, port, .. } => (ip, port),
    };
    stun_binding_success(tid, ip, port)
}

} // verus!
