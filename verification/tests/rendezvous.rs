use nat_traversal::addr::{Endpoint, Ip, MappedSocketAddr};
use nat_traversal::rendezvous_info::{
    compose, decode_pub_rendezvous_info, decompose, encode_pub_rendezvous_info,
    gen_rendezvous_info, get_priv_secret,
};

fn sample_endpoints() -> Vec<MappedSocketAddr> {
    vec![
        MappedSocketAddr {
            addr: Endpoint { ip: Ip::V4(0xC0A80001), port: 4000 },
            nat_restricted: false,
        },
        MappedSocketAddr {
            addr: Endpoint { ip: Ip::V6(0x20010DB8000000000000000000000001), port: 4001 },
            nat_restricted: true,
        },
        MappedSocketAddr {
            addr: Endpoint { ip: Ip::V4(0x7F000001), port: 65535 },
            nat_restricted: false,
        },
    ]
}

#[test]
fn gen_decomposes_to_same_endpoints_and_secret() {
    let endpoints = sample_endpoints();
    let (priv_info, pub_info) = gen_rendezvous_info(endpoints.clone());
    let our_secret = get_priv_secret(priv_info);
    let (their_endpoints, their_secret) = decompose(pub_info);
    assert_eq!(their_endpoints, endpoints);
    assert_eq!(their_secret, our_secret);
}

#[test]
fn gen_with_empty_endpoint_list() {
    let (priv_info, pub_info) = gen_rendezvous_info(Vec::new());
    let our_secret = get_priv_secret(priv_info);
    let (their_endpoints, their_secret) = decompose(pub_info);
    assert!(their_endpoints.is_empty());
    assert_eq!(their_secret, our_secret);
}

#[test]
fn compose_then_decompose_returns_parts() {
    let endpoints = sample_endpoints();
    let secret = [9u8, 8, 7, 6];
    let pub_info = compose(endpoints.clone(), secret);
    let (e, s) = decompose(pub_info);
    assert_eq!(e, endpoints);
    assert_eq!(s, secret);
}

#[test]
fn transport_round_trip_preserves_bundle() {
    let endpoints = sample_endpoints();
    let secret = [1u8, 2, 3, 4];
    let pub_info = compose(endpoints.clone(), secret);
    let bytes = encode_pub_rendezvous_info(&pub_info).expect("short list must encode");
    let back = decode_pub_rendezvous_info(&bytes).expect("encoding must decode");
    let (e, s) = decompose(back);
    assert_eq!(e, endpoints);
    assert_eq!(s, secret);
}

#[test]
fn transport_round_trip_empty_list() {
    let pub_info = compose(Vec::new(), [0u8, 0, 0, 0]);
    let bytes = encode_pub_rendezvous_info(&pub_info).expect("empty list must encode");
    assert_eq!(bytes.len(), 6);
    let back = decode_pub_rendezvous_info(&bytes).expect("encoding must decode");
    let (e, s) = decompose(back);
    assert!(e.is_empty());
    assert_eq!(s, [0u8, 0, 0, 0]);
}

#[test]
fn decode_rejects_short_buffer() {
    assert!(decode_pub_rendezvous_info(&vec![1u8, 2, 3, 4, 0]).is_none());
}

#[test]
fn decode_rejects_trailing_bytes() {
    let pub_info = compose(sample_endpoints(), [1u8, 2, 3, 4]);
    let mut bytes = encode_pub_rendezvous_info(&pub_info).unwrap();
    bytes.push(0);
    assert!(decode_pub_rendezvous_info(&bytes).is_none());
}

#[test]
fn decode_rejects_truncated_endpoint() {
    let pub_info = compose(sample_endpoints(), [1u8, 2, 3, 4]);
    let mut bytes = encode_pub_rendezvous_info(&pub_info).unwrap();
    bytes.pop();
    assert!(decode_pub_rendezvous_info(&bytes).is_none());
}

#[test]
fn decode_carries_mutated_secret() {
    let pub_info = compose(sample_endpoints(), [1u8, 2, 3, 4]);
    let mut bytes = encode_pub_rendezvous_info(&pub_info).unwrap();
    bytes[0] ^= 0xFF;
    let back = decode_pub_rendezvous_info(&bytes).expect("mutating the secret keeps it decodable");
    let (_, s) = decompose(back);
    assert_eq!(s, [0xFEu8, 2, 3, 4]);
}
