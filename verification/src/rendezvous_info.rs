//! Rendezvous info: the bundle two peers exchange before hole punching.
//!
//! Generation draws a fresh 4-byte secret and builds both halves at once:
//! the private half stays with us, the public half carries the same secret
//! together with our advertised endpoints and is sent to the peer. A
//! compact binary transport encoding is provided for the exchange, and
//! decoding an encoded bundle is proved to give back an equal bundle.

use vstd::prelude::*;

use crate::addr::MappedSocketAddr;
use crate::codec::{
    decode_msa_list_at, encode_msa_list_from, push_u16_be, spec_msa_list_bytes, spec_parse_msa_list,
    spec_u16_bytes, spec_u16_of,
};

verus! {

/// The private half of a rendezvous pair: the secret we expect the peer
/// to present, never transmitted.
pub struct PrivRendezvousInfo {
    secret: [u8; 4],
}

/// The public half of a rendezvous pair: our advertised endpoints and the
/// shared secret, sent to the peer out of band.
pub struct PubRendezvousInfo {
    endpoints: Vec<MappedSocketAddr>,
    secret: [u8; 4],
}

impl PrivRendezvousInfo {
    /// The secret held by this private half.
    pub closed spec fn spec_secret(&self) -> Seq<u8> {
        self.secret@
    }
}

impl PubRendezvousInfo {
    /// The endpoint list carried by this public half.
    pub closed spec fn spec_endpoints(&self) -> Seq<MappedSocketAddr> {
        self.endpoints@
    }

    /// The secret carried by this public half.
    pub closed spec fn spec_secret(&self) -> Seq<u8> {
        self.secret@
    }
}

/// Relies on rand::random: four bytes drawn from the thread-local,
/// cryptographically seeded generator. Nothing is assumed of the value.
#[verifier::external_body]
fn random_secret() -> (r: [u8; 4]) {
    rand::random()
}

/// Generate a private/public rendezvous pair for `endpoints`.
///
/// Both halves are built atomically from one freshly drawn secret, so the
/// secret of the private half always equals the secret of the public
/// half, and the public half advertises exactly `endpoints`.
pub fn gen_rendezvous_info(endpoints: Vec<MappedSocketAddr>) -> (r: (
    PrivRendezvousInfo,
    PubRendezvousInfo,
))
    ensures
        r.1.spec_endpoints() == endpoints@,
        r.0.spec_secret() == r.1.spec_secret(),
{
    let secret = random_secret();
    let priv_info = PrivRendezvousInfo { secret };
    let pub_info = PubRendezvousInfo { endpoints, secret };
    (priv_info, pub_info)
}

/// Build a public half from its parts, as a decoder of the transport
/// encoding does on the receiving side.
pub fn compose(endpoints: Vec<MappedSocketAddr>, secret: [u8; 4]) -> (r: PubRendezvousInfo)
    ensures
        r.spec_endpoints() == endpoints@,
        r.spec_secret() == secret@,
{
    PubRendezvousInfo { endpoints, secret }
}

/// Split a public half into the peer's endpoint list and secret.
pub fn decompose(info: PubRendezvousInfo) -> (r: (Vec<MappedSocketAddr>, [u8; 4]))
    ensures
        r.0@ == info.spec_endpoints(),
        r.1@ == info.spec_secret(),
{
    (info.endpoints, info.secret)
}

/// Read the secret out of a private half.
pub fn get_priv_secret(info: PrivRendezvousInfo) -> (r: [u8; 4])
    ensures
        r@ == info.spec_secret(),
{
    info.secret
}

/// The transport encoding of a public half: the four secret bytes, the
/// endpoint count in two big-endian bytes, then the endpoint encodings.
pub open spec fn spec_pub_info_bytes(endpoints: Seq<MappedSocketAddr>, secret: Seq<u8>) -> Seq<
    u8,
> {
    secret + spec_u16_bytes(endpoints.len() as u16) + spec_msa_list_bytes(endpoints)
}

/// The parser for the transport encoding: the endpoint list and secret,
/// or nothing when the bytes are not exactly one encoded bundle.
pub open spec fn spec_parse_pub_info(b: Seq<u8>) -> Option<(Seq<MappedSocketAddr>, Seq<u8>)> {
    if b.len() < 6 {
        None
    } else {
        match spec_parse_msa_list(b, 6, spec_u16_of(b[4], b[5]) as nat) {
            None => None,
            Some((s, p)) => if p == b.len() {
                Some((s, b.subrange(0, 4)))
            } else {
                None
            },
        }
    }
}

/// Encode a public half for transport. Returns nothing only when the
/// endpoint list is too long for the two-byte count of the wire format.
pub fn encode_pub_rendezvous_info(info: &PubRendezvousInfo) -> (r: Option<Vec<u8>>)
    ensures
        match r {
            Some(v) => info.spec_endpoints().len() <= 0xFFFF && v@ == spec_pub_info_bytes(
                info.spec_endpoints(),
                info.spec_secret(),
            ),
            None => info.spec_endpoints().len() > 0xFFFF,
        },
{
    if info.endpoints.len() > 0xFFFF {
        return None;
    }
    let mut out: Vec<u8> = Vec::new();
    out.push(info.secret[0]);
    out.push(info.secret[1]);
    out.push(info.secret[2]);
    out.push(info.secret[3]);
    assert(out@ =~= info.secret@);
    push_u16_be(info.endpoints.len() as u16, &mut out);
    encode_msa_list_from(&info.endpoints, 0, &mut out);
    proof {
        assert(info.endpoints@.skip(0) =~= info.endpoints@);
        assert(out@ =~= spec_pub_info_bytes(info.spec_endpoints(), info.spec_secret()));
    }
    Some(out)
}

/// Decode a transport-encoded public half, as the parser specifies.
pub fn decode_pub_rendezvous_info(buf: &Vec<u8>) -> (r: Option<PubRendezvousInfo>)
    ensures
        match r {
            Some(info) => spec_parse_pub_info(buf@) == Some(
                (info.spec_endpoints(), info.spec_secret()),
            ),
            None => spec_parse_pub_info(buf@) is None,
        },
{
    if buf.len() < 6 {
        return None;
    }
    let secret: [u8; 4] = [buf[0], buf[1], buf[2], buf[3]];
    assert(secret@ =~= buf@.subrange(0, 4));
    let n = ((buf[4] as u16) << 8) | (buf[5] as u16);
    match decode_msa_list_at(buf, 6, n) {
        None => None,
        Some((endpoints, p)) => {
            if p == buf.len() {
                Some(PubRendezvousInfo { endpoints, secret })
            } else {
                None
            }
        },
    }
}

/// Encoding a public half for transport and decoding the bytes yields an
/// equal bundle: the same endpoint list and the same secret.
pub proof fn lemma_pub_info_round_trip(endpoints: Seq<MappedSocketAddr>, secret: Seq<u8>)
    requires
        secret.len() == 4,
        endpoints.len() <= 0xFFFF,
    ensures
        spec_parse_pub_info(spec_pub_info_bytes(endpoints, secret)) == Some((endpoints, secret)),
{
    let b = spec_pub_info_bytes(endpoints, secret);
    let cnt = endpoints.len() as u16;
    let head = secret + spec_u16_bytes(cnt);
    let listbytes = spec_msa_list_bytes(endpoints);
    let ll = listbytes.len() as int;
    assert(head.len() == 6);
    assert(b == head + listbytes);
    assert(b.len() == 6 + ll);
    assert(b[4] == (cnt >> 8) as u8 && b[5] == cnt as u8) by {
        assert((head + listbytes)[4] == head[4]);
        assert((head + listbytes)[5] == head[5]);
    }
    assert(spec_u16_of((cnt >> 8) as u8, cnt as u8) == cnt) by (bit_vector);
    assert(b.subrange(0, 4) =~= secret) by {
        assert forall|i: int| 0 <= i < 4 implies b.subrange(0, 4)[i] == secret[i] by {
            assert(b.subrange(0, 4)[i] == b[i]);
            assert((head + listbytes)[i] == head[i]);
            assert((secret + spec_u16_bytes(cnt))[i] == secret[i]);
        }
    }
    assert(b.subrange(6, 6 + ll) =~= listbytes) by {
        assert forall|i: int| 0 <= i < ll implies b.subrange(6, 6 + ll)[i] == listbytes[i] by {
            assert(b.subrange(6, 6 + ll)[i] == b[6 + i]);
            assert((head + listbytes)[6 + i] == listbytes[i]);
        }
    }
    crate::codec::lemma_parse_msa_list_encoded(endpoints, b, 6);
    assert(cnt as nat == endpoints.len());
    assert(spec_parse_msa_list(b, 6, cnt as nat) == Some((endpoints, 6 + ll)));
}

} // verus!
