use bitbridge::netaddr::{IpAddress, SocketAddress};
use bitbridge::stun_reply::binding_response;
use stun::message::{Getter, Message, BINDING_SUCCESS};
use stun::xoraddr::XorMappedAddress;

fn request(typ: [u8; 2], tid: [u8; 12]) -> Vec<u8> {
    let mut p = vec![typ[0], typ[1], 0x00, 0x00, 0x21, 0x12, 0xA4, 0x42];
    p.extend_from_slice(&tid);
    p
}

#[test]
fn a_binding_request_is_answered_with_the_senders_address() {
    let tid = [7u8, 1, 2, 3, 4, 5, 6, 7, 8, 9, 10, 11];
    let src = SocketAddress::V4 { ip: IpAddress::V4(203, 0, 113, 9), port: 40000 };
    let reply = binding_response(&request([0x00, 0x01], tid), src).unwrap();
    let mut m = Message::new();
    m.unmarshal_binary(&reply).unwrap();
    assert_eq!(m.typ, BINDING_SUCCESS);
    assert_eq!(m.transaction_id.0, tid);
    let mut xor = XorMappedAddress::default();
    xor.get_from(&m).unwrap();
    assert_eq!(xor.ip.to_string(), "203.0.113.9");
    assert_eq!(xor.port, 40000);
}

#[test]
fn an_ipv6_sender_gets_its_ipv6_address() {
    let tid = [9u8; 12];
    let src = SocketAddress::V6 { ip: IpAddress::V6(0x2001, 0xdb8, 0, 0, 0, 0, 0, 5), port: 3478, flowinfo: 0, scope_id: 0 };
    let reply = binding_response(&request([0x00, 0x01], tid), src).unwrap();
    let mut m = Message::new();
    m.unmarshal_binary(&reply).unwrap();
    let mut xor = XorMappedAddress::default();
    xor.get_from(&m).unwrap();
    assert_eq!(xor.ip.to_string(), "2001:db8::5");
    assert_eq!(xor.port, 3478);
}

#[test]
fn other_packets_go_unanswered() {
    let src = SocketAddress::V4 { ip: IpAddress::V4(203, 0, 113, 9), port: 40000 };
    assert!(binding_response(&request([0x01, 0x01], [1u8; 12]), src).is_none());
    assert!(binding_response(b"not a stun message at all", src).is_none());
    assert!(binding_response(&[], src).is_none());
}

#[test]
fn the_reply_is_the_header_and_one_xor_mapped_address() {
    let tid = [7u8, 1, 2, 3, 4, 5, 6, 7, 8, 9, 10, 11];
    let src = SocketAddress::V4 { ip: IpAddress::V4(203, 0, 113, 9), port: 40000 };
    let reply = binding_response(&request([0x00, 0x01], tid), src).unwrap();
    let mut expected = vec![0x01, 0x01, 0x00, 0x0c, 0x21, 0x12, 0xA4, 0x42];
    expected.extend_from_slice(&tid);
    expected.extend_from_slice(&[0x00, 0x20, 0x00, 0x08, 0x00, 0x01, 0xBD, 0x52, 0xEA, 0x12, 0xD5, 0x4B]);
    assert_eq!(reply, expected);

    let src6 = SocketAddress::V6 { ip: IpAddress::V6(0x2001, 0xdb8, 0, 0, 0, 0, 0, 5), port: 3478, flowinfo: 0, scope_id: 0 };
    let reply6 = binding_response(&request([0x00, 0x01], tid), src6).unwrap();
    assert_eq!(reply6.len(), 20 + 4 + 20);
    assert_eq!(&reply6[2..4], &[0x00, 0x18]);
    assert_eq!(&reply6[20..26], &[0x00, 0x20, 0x00, 0x14, 0x00, 0x02]);
    let mut cookie_tid = vec![0x21, 0x12, 0xA4, 0x42];
    cookie_tid.extend_from_slice(&tid);
    let ip = [0x20u8, 0x01, 0x0d, 0xb8, 0, 0, 0, 0, 0, 0, 0, 0, 0, 0, 0, 5];
    let xored: Vec<u8> = ip.iter().zip(cookie_tid.iter()).map(|(a, b)| a ^ b).collect();
    assert_eq!(&reply6[28..44], &xored[..]);
}
