//! The echo protocol between a mapping client and a simple echo server.
//!
//! The request is a fixed 4-byte magic constant. The reply is the
//! server's view of the requester's source address, length-prefixed: one
//! byte holding the length of the address encoding, then that encoding.
//! Decoding an encoded reply is proved to give back the address.

use vstd::prelude::*;

use crate::addr::Endpoint;
use crate::codec::{decode_endpoint_at, spec_endpoint_bytes, spec_parse_endpoint};

verus! {

/// The bytes of the echo request magic.
pub open spec fn spec_request_magic() -> Seq<u8> {
    seq![0x45u8, 0x43u8, 0x48u8, 0x4Fu8]
}

/// The fixed 4-byte magic a client sends to an echo server.
pub fn request_magic() -> (r: [u8; 4])
    ensures
        r@ == spec_request_magic(),
{
    let r: [u8; 4] = [0x45u8, 0x43u8, 0x48u8, 0x4Fu8];
    proof {
        assert(r@ =~= spec_request_magic());
    }
    r
}

/// The reply an echo server sends: the length of the address encoding in
/// one byte, then the encoding of the observed source address.
pub open spec fn spec_echo_response_bytes(e: Endpoint) -> Seq<u8> {
    seq![spec_endpoint_bytes(e).len() as u8] + spec_endpoint_bytes(e)
}

/// The parser for an echo reply: the observed address, or nothing when
/// the bytes are not exactly one length-prefixed address encoding.
pub open spec fn spec_parse_echo_response(b: Seq<u8>) -> Option<Endpoint> {
    if b.len() < 1 || b[0] as int + 1 != b.len() {
        None
    } else {
        match spec_parse_endpoint(b, 1) {
            Some((e, p)) => if p == b.len() {
                Some(e)
            } else {
                None
            },
            None => None,
        }
    }
}

/// Encode an echo reply carrying `e` as the observed source address.
pub fn encode_echo_external_addr(e: &Endpoint) -> (r: Vec<u8>)
    ensures
        r@ == spec_echo_response_bytes(*e),
{
    let mut body: Vec<u8> = Vec::new();
    crate::codec::encode_endpoint(e, &mut body);
    let mut out: Vec<u8> = Vec::new();
    out.push(#[verifier::truncate] (body.len() as u8));
    let mut k: usize = 0;
    while k < body.len()
        invariant
            k <= body.len(),
            body@ == spec_endpoint_bytes(*e),
            out@ == seq![spec_endpoint_bytes(*e).len() as u8] + body@.take(k as int),
        decreases body.len() - k,
    {
        out.push(body[k]);
        proof {
            assert(seq![spec_endpoint_bytes(*e).len() as u8] + body@.take(k + 1) =~= (seq![
                spec_endpoint_bytes(*e).len() as u8,
            ] + body@.take(k as int)).push(body@[k as int]));
        }
        k = k + 1;
    }
    proof {
        assert(body@.take(body@.len() as int) =~= body@);
    }
    out
}

/// Decode an echo reply, as the parser specifies.
pub fn decode_echo_external_addr(buf: &Vec<u8>) -> (r: Option<Endpoint>)
    ensures
        match r {
            Some(e) => spec_parse_echo_response(buf@) == Some(e),
            None => spec_parse_echo_response(buf@) is None,
        },
{
    if buf.len() < 1 {
        return None;
    }
    if (buf[0] as usize) + 1 != buf.len() {
        return None;
    }
    match decode_endpoint_at(buf, 1) {
        Some((e, p)) => {
            if p == buf.len() {
                Some(e)
            } else {
                None
            }
        },
        None => None,
    }
}

/// Decoding the encoding of an echo reply gives back the address.
pub proof fn lemma_echo_response_round_trip(e: Endpoint)
    ensures
        spec_parse_echo_response(spec_echo_response_bytes(e)) == Some(e),
{
    let body = spec_endpoint_bytes(e);
    let b = spec_echo_response_bytes(e);
    assert(body.len() == 7 || body.len() == 19);
    assert(b.len() == body.len() + 1);
    assert(b[0] == body.len() as u8);
    assert(b.subrange(1, 1 + body.len() as int) =~= body) by {
        assert forall|i: int| 0 <= i < body.len() implies b.subrange(
            1,
            1 + body.len() as int,
        )[i] == body[i] by {
            assert(b.subrange(1, 1 + body.len() as int)[i] == b[1 + i]);
            assert((seq![body.len() as u8] + body)[1 + i] == body[i]);
        }
    }
    crate::codec::lemma_parse_endpoint_encoded(e, b, 1);
}

} // verus!
