use nat_traversal::addr::{ip_is_loopback, ip_is_unspecified, Endpoint, Ip, MappedSocketAddr};
use nat_traversal::codec::{decode_endpoint_at, decode_msa_at, encode_endpoint, encode_msa};
use nat_traversal::listener_message::{
    decode_echo_external_addr, encode_echo_external_addr, request_magic,
};

#[test]
fn endpoint_v4_round_trip() {
    let e = Endpoint { ip: Ip::V4(0xC0A80164), port: 0x1234 };
    let mut buf = Vec::new();
    encode_endpoint(&e, &mut buf);
    assert_eq!(buf, vec![0u8, 0xC0, 0xA8, 0x01, 0x64, 0x12, 0x34]);
    let (back, next) = decode_endpoint_at(&buf, 0).expect("encoding must decode");
    assert_eq!(back, e);
    assert_eq!(next, 7);
}

#[test]
fn endpoint_v6_round_trip() {
    let e = Endpoint { ip: Ip::V6(0xFE800000000000000000000000000042), port: 0 };
    let mut buf = Vec::new();
    encode_endpoint(&e, &mut buf);
    assert_eq!(buf.len(), 19);
    assert_eq!(buf[0], 1);
    assert_eq!(buf[1], 0xFE);
    assert_eq!(buf[16], 0x42);
    let (back, next) = decode_endpoint_at(&buf, 0).expect("encoding must decode");
    assert_eq!(back, e);
    assert_eq!(next, 19);
}

#[test]
fn endpoint_port_extremes() {
    for port in [0u16, 1, 65535] {
        let e = Endpoint { ip: Ip::V4(0x7F000001), port };
        let mut buf = Vec::new();
        encode_endpoint(&e, &mut buf);
        let (back, _) = decode_endpoint_at(&buf, 0).unwrap();
        assert_eq!(back.port, port);
    }
}

#[test]
fn decode_rejects_unknown_tag() {
    let buf = vec![2u8, 0, 0, 0, 0, 0, 0];
    assert!(decode_endpoint_at(&buf, 0).is_none());
}

#[test]
fn decode_rejects_short_v4() {
    let buf = vec![0u8, 1, 2, 3];
    assert!(decode_endpoint_at(&buf, 0).is_none());
}

#[test]
fn decode_at_offset() {
    let e = Endpoint { ip: Ip::V4(0x0A000001), port: 80 };
    let mut buf = vec![0xFFu8, 0xFF];
    encode_endpoint(&e, &mut buf);
    let (back, next) = decode_endpoint_at(&buf, 2).expect("offset decode");
    assert_eq!(back, e);
    assert_eq!(next, 9);
}

#[test]
fn mapped_endpoint_round_trip_keeps_flag() {
    for nat_restricted in [false, true] {
        let m = MappedSocketAddr {
            addr: Endpoint { ip: Ip::V4(0xC0A80001), port: 5000 },
            nat_restricted,
        };
        let mut buf = Vec::new();
        encode_msa(&m, &mut buf);
        assert_eq!(buf.len(), 8);
        assert_eq!(buf[7], if nat_restricted { 1 } else { 0 });
        let (back, next) = decode_msa_at(&buf, 0).expect("encoding must decode");
        assert_eq!(back, m);
        assert_eq!(next, 8);
    }
}

#[test]
fn mapped_endpoint_rejects_bad_flag() {
    let m = MappedSocketAddr {
        addr: Endpoint { ip: Ip::V4(0xC0A80001), port: 5000 },
        nat_restricted: false,
    };
    let mut buf = Vec::new();
    encode_msa(&m, &mut buf);
    buf[7] = 9;
    assert!(decode_msa_at(&buf, 0).is_none());
}

#[test]
fn magic_is_four_fixed_bytes() {
    assert_eq!(request_magic(), [0x45u8, 0x43, 0x48, 0x4F]);
}

#[test]
fn echo_response_round_trip() {
    let e = Endpoint { ip: Ip::V4(0xD5C0A80B), port: 33000 };
    let bytes = encode_echo_external_addr(&e);
    assert_eq!(bytes.len(), 8);
    assert_eq!(bytes[0], 7);
    assert_eq!(decode_echo_external_addr(&bytes), Some(e));
}

#[test]
fn echo_response_round_trip_v6() {
    let e = Endpoint { ip: Ip::V6(0x20010DB8000000000000000000000007), port: 443 };
    let bytes = encode_echo_external_addr(&e);
    assert_eq!(bytes.len(), 20);
    assert_eq!(bytes[0], 19);
    assert_eq!(decode_echo_external_addr(&bytes), Some(e));
}

#[test]
fn echo_response_rejects_bad_length_prefix() {
    let e = Endpoint { ip: Ip::V4(0xD5C0A80B), port: 33000 };
    let mut bytes = encode_echo_external_addr(&e);
    bytes[0] = 6;
    assert!(decode_echo_external_addr(&bytes).is_none());
    assert!(decode_echo_external_addr(&Vec::new()).is_none());
}

#[test]
fn address_predicates() {
    assert!(ip_is_unspecified(&Ip::V4(0)));
    assert!(!ip_is_unspecified(&Ip::V4(0x7F000001)));
    assert!(ip_is_unspecified(&Ip::V6(0)));
    assert!(!ip_is_unspecified(&Ip::V6(1)));
    assert!(ip_is_loopback(&Ip::V4(0x7F000001)));
    assert!(ip_is_loopback(&Ip::V4(0x7FFFFFFE)));
    assert!(!ip_is_loopback(&Ip::V4(0x80000001)));
    assert!(ip_is_loopback(&Ip::V6(1)));
    assert!(!ip_is_loopback(&Ip::V6(2)));
}
