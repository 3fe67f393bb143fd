//! Compact binary wire format for addresses.
//!
//! A socket address is encoded as a leading tag byte that discriminates
//! IPv4 from IPv6, the address octets most significant first, and the port
//! in two big-endian bytes. A mapped endpoint appends one flag byte for
//! `nat_restricted`. Decoding is specified by a parser over byte
//! sequences, and parsing an encoding is proved to give back the value.

use vstd::prelude::*;

use crate::addr::{Endpoint, Ip, MappedSocketAddr};

verus! {

/// The two big-endian bytes of a port.
pub open spec fn spec_u16_bytes(p: u16) -> Seq<u8> {
    seq![(p >> 8) as u8, p as u8]
}

/// The four big-endian bytes of an IPv4 address value.
pub open spec fn spec_u32_bytes(a: u32) -> Seq<u8> {
    seq![(a >> 24) as u8, (a >> 16) as u8, (a >> 8) as u8, a as u8]
}

/// The sixteen big-endian bytes of an IPv6 address value.
pub open spec fn spec_u128_bytes(a: u128) -> Seq<u8> {
    seq![
        (a >> 120) as u8,
        (a >> 112) as u8,
        (a >> 104) as u8,
        (a >> 96) as u8,
        (a >> 88) as u8,
        (a >> 80) as u8,
        (a >> 72) as u8,
        (a >> 64) as u8,
        (a >> 56) as u8,
        (a >> 48) as u8,
        (a >> 40) as u8,
        (a >> 32) as u8,
        (a >> 24) as u8,
        (a >> 16) as u8,
        (a >> 8) as u8,
        a as u8,
    ]
}

/// A port read back from its two big-endian bytes.
pub open spec fn spec_u16_of(b0: u8, b1: u8) -> u16 {
    ((b0 as u16) << 8) | (b1 as u16)
}

/// An IPv4 address value read back from its four big-endian bytes.
pub open spec fn spec_u32_of(b0: u8, b1: u8, b2: u8, b3: u8) -> u32 {
    ((b0 as u32) << 24) | ((b1 as u32) << 16) | ((b2 as u32) << 8) | (b3 as u32)
}

/// An IPv6 address value read back from sixteen big-endian bytes of `b`
/// starting at `pos`.
pub open spec fn spec_u128_at(b: Seq<u8>, pos: int) -> u128 {
    ((b[pos] as u128) << 120) | ((b[pos + 1] as u128) << 112) | ((b[pos + 2] as u128) << 104)
        | ((b[pos + 3] as u128) << 96) | ((b[pos + 4] as u128) << 88) | ((b[pos + 5] as u128) << 80)
        | ((b[pos + 6] as u128) << 72) | ((b[pos + 7] as u128) << 64) | ((b[pos + 8] as u128) << 56)
        | ((b[pos + 9] as u128) << 48) | ((b[pos + 10] as u128) << 40) | ((b[pos + 11] as u128)
        << 32) | ((b[pos + 12] as u128) << 24) | ((b[pos + 13] as u128) << 16) | ((b[pos
        + 14] as u128) << 8) | (b[pos + 15] as u128)
}

/// The encoding of an IP address: tag byte, then the address octets.
pub open spec fn spec_ip_bytes(ip: Ip) -> Seq<u8> {
    match ip {
        Ip::V4(a) => seq![0u8] + spec_u32_bytes(a),
        Ip::V6(a) => seq![1u8] + spec_u128_bytes(a),
    }
}

/// The encoding of a socket address: IP bytes, then the port bytes.
pub open spec fn spec_endpoint_bytes(e: Endpoint) -> Seq<u8> {
    spec_ip_bytes(e.ip) + spec_u16_bytes(e.port)
}

/// The encoding of a mapped endpoint: the address, then one flag byte.
pub open spec fn spec_msa_bytes(m: MappedSocketAddr) -> Seq<u8> {
    spec_endpoint_bytes(m.addr) + seq![if m.nat_restricted { 1u8 } else { 0u8 }]
}

/// The encoding of a list of mapped endpoints, in order.
pub open spec fn spec_msa_list_bytes(s: Seq<MappedSocketAddr>) -> Seq<u8>
    decreases s.len(),
{
    if s.len() == 0 {
        Seq::empty()
    } else {
        spec_msa_bytes(s[0]) + spec_msa_list_bytes(s.drop_first())
    }
}

/// The parser for a socket address at `pos`: the decoded value and the
/// position just past it, or nothing when the bytes there are not an
/// encoding.
pub open spec fn spec_parse_endpoint(b: Seq<u8>, pos: int) -> Option<(Endpoint, int)> {
    if !(0 <= pos && pos < b.len()) {
        None
    } else if b[pos] == 0u8 {
        if pos + 7 <= b.len() {
            Some(
                (
                    Endpoint {
                        ip: Ip::V4(spec_u32_of(b[pos + 1], b[pos + 2], b[pos + 3], b[pos + 4])),
                        port: spec_u16_of(b[pos + 5], b[pos + 6]),
                    },
                    pos + 7,
                ),
            )
        } else {
            None
        }
    } else if b[pos] == 1u8 {
        if pos + 19 <= b.len() {
            Some(
                (
                    Endpoint {
                        ip: Ip::V6(spec_u128_at(b, pos + 1)),
                        port: spec_u16_of(b[pos + 17], b[pos + 18]),
                    },
                    pos + 19,
                ),
            )
        } else {
            None
        }
    } else {
        None
    }
}

/// The parser for a mapped endpoint at `pos`.
pub open spec fn spec_parse_msa(b: Seq<u8>, pos: int) -> Option<(MappedSocketAddr, int)> {
    match spec_parse_endpoint(b, pos) {
        None => None,
        Some((e, p)) => if p < b.len() && (b[p] == 0u8 || b[p] == 1u8) {
            Some((MappedSocketAddr { addr: e, nat_restricted: b[p] == 1u8 }, p + 1))
        } else {
            None
        },
    }
}

/// The parser for `n` consecutive mapped endpoints starting at `pos`.
pub open spec fn spec_parse_msa_list(b: Seq<u8>, pos: int, n: nat) -> Option<
    (Seq<MappedSocketAddr>, int),
>
    decreases n,
{
    if n == 0 {
        Some((Seq::empty(), pos))
    } else {
        match spec_parse_msa(b, pos) {
            None => None,
            Some((m, p)) => match spec_parse_msa_list(b, p, (n - 1) as nat) {
                None => None,
                Some((s, p2)) => Some((seq![m] + s, p2)),
            },
        }
    }
}

/// Append the two big-endian bytes of `p`.
pub fn push_u16_be(p: u16, out: &mut Vec<u8>)
    ensures
        final(out)@ == old(out)@ + spec_u16_bytes(p),
{
    out.push((p >> 8) as u8);
    out.push(#[verifier::truncate] (p as u8));
    assert(out@ =~= old(out)@ + spec_u16_bytes(p));
}

/// Append the four big-endian bytes of `a`.
pub fn push_u32_be(a: u32, out: &mut Vec<u8>)
    ensures
        final(out)@ == old(out)@ + spec_u32_bytes(a),
{
    out.push((a >> 24) as u8);
    out.push(#[verifier::truncate] ((a >> 16) as u8));
    out.push(#[verifier::truncate] ((a >> 8) as u8));
    out.push(#[verifier::truncate] (a as u8));
    assert(out@ =~= old(out)@ + spec_u32_bytes(a));
}

/// Append the sixteen big-endian bytes of `a`.
pub fn push_u128_be(a: u128, out: &mut Vec<u8>)
    ensures
        final(out)@ == old(out)@ + spec_u128_bytes(a),
{
    out.push((a >> 120) as u8);
    out.push(#[verifier::truncate] ((a >> 112) as u8));
    out.push(#[verifier::truncate] ((a >> 104) as u8));
    out.push(#[verifier::truncate] ((a >> 96) as u8));
    out.push(#[verifier::truncate] ((a >> 88) as u8));
    out.push(#[verifier::truncate] ((a >> 80) as u8));
    out.push(#[verifier::truncate] ((a >> 72) as u8));
    out.push(#[verifier::truncate] ((a >> 64) as u8));
    out.push(#[verifier::truncate] ((a >> 56) as u8));
    out.push(#[verifier::truncate] ((a >> 48) as u8));
    out.push(#[verifier::truncate] ((a >> 40) as u8));
    out.push(#[verifier::truncate] ((a >> 32) as u8));
    out.push(#[verifier::truncate] ((a >> 24) as u8));
    out.push(#[verifier::truncate] ((a >> 16) as u8));
    out.push(#[verifier::truncate] ((a >> 8) as u8));
    out.push(#[verifier::truncate] (a as u8));
    assert(out@ =~= old(out)@ + spec_u128_bytes(a));
}

/// Append the encoding of `e`.
pub fn encode_endpoint(e: &Endpoint, out: &mut Vec<u8>)
    ensures
        final(out)@ == old(out)@ + spec_endpoint_bytes(*e),
{
    match e.ip {
        Ip::V4(a) => {
            out.push(0u8);
            push_u32_be(a, out);
        },
        Ip::V6(a) => {
            out.push(1u8);
            push_u128_be(a, out);
        },
    }
    push_u16_be(e.port, out);
    assert(out@ =~= old(out)@ + spec_endpoint_bytes(*e));
}

/// Append the encoding of `m`.
pub fn encode_msa(m: &MappedSocketAddr, out: &mut Vec<u8>)
    ensures
        final(out)@ == old(out)@ + spec_msa_bytes(*m),
{
    encode_endpoint(&m.addr, out);
    out.push(if m.nat_restricted { 1u8 } else { 0u8 });
    assert(out@ =~= old(out)@ + spec_msa_bytes(*m));
}

/// Append the encodings of `s[from..]`, in order.
pub fn encode_msa_list_from(s: &Vec<MappedSocketAddr>, from: usize, out: &mut Vec<u8>)
    requires
        from <= s.len(),
    ensures
        final(out)@ == old(out)@ + spec_msa_list_bytes(s@.skip(from as int)),
    decreases s.len() - from,
{
    if from == s.len() {
        assert(s@.skip(from as int) =~= Seq::empty());
        assert(out@ =~= out@ + spec_msa_list_bytes(s@.skip(from as int)));
        return ;
    }
    encode_msa(&s[from], out);
    encode_msa_list_from(s, from + 1, out);
    proof {
        let tail = s@.skip(from as int);
        assert(tail.drop_first() =~= s@.skip(from as int + 1));
        assert(tail[0] == s@[from as int]);
        assert(out@ =~= old(out)@ + spec_msa_list_bytes(s@.skip(from as int)));
    }
}

/// Decode a socket address at `pos`, as the parser specifies.
pub fn decode_endpoint_at(buf: &Vec<u8>, pos: usize) -> (r: Option<(Endpoint, usize)>)
    ensures
        match r {
            Some(ep) => spec_parse_endpoint(buf@, pos as int) == Some((ep.0, ep.1 as int)),
            None => spec_parse_endpoint(buf@, pos as int) is None,
        },
{
    if pos >= buf.len() {
        return None;
    }
    let tag = buf[pos];
    if tag == 0 {
        if buf.len() - pos < 7 {
            return None;
        }
        let a = ((buf[pos + 1] as u32) << 24) | ((buf[pos + 2] as u32) << 16) | ((buf[pos
            + 3] as u32) << 8) | (buf[pos + 4] as u32);
        let port = ((buf[pos + 5] as u16) << 8) | (buf[pos + 6] as u16);
        Some((Endpoint { ip: Ip::V4(a), port }, pos + 7))
    } else if tag == 1 {
        if buf.len() - pos < 19 {
            return None;
        }
        let a = ((buf[pos + 1] as u128) << 120) | ((buf[pos + 2] as u128) << 112) | ((buf[pos
            + 3] as u128) << 104) | ((buf[pos + 4] as u128) << 96) | ((buf[pos + 5] as u128) << 88)
            | ((buf[pos + 6] as u128) << 80) | ((buf[pos + 7] as u128) << 72) | ((buf[pos
            + 8] as u128) << 64) | ((buf[pos + 9] as u128) << 56) | ((buf[pos + 10] as u128) << 48)
            | ((buf[pos + 11] as u128) << 40) | ((buf[pos + 12] as u128) << 32) | ((buf[pos
            + 13] as u128) << 24) | ((buf[pos + 14] as u128) << 16) | ((buf[pos + 15] as u128) << 8)
            | (buf[pos + 16] as u128);
        let port = ((buf[pos + 17] as u16) << 8) | (buf[pos + 18] as u16);
        Some((Endpoint { ip: Ip::V6(a), port }, pos + 19))
    } else {
        None
    }
}

/// Decode a mapped endpoint at `pos`, as the parser specifies.
pub fn decode_msa_at(buf: &Vec<u8>, pos: usize) -> (r: Option<(MappedSocketAddr, usize)>)
    ensures
        match r {
            Some(mp) => spec_parse_msa(buf@, pos as int) == Some((mp.0, mp.1 as int)),
            None => spec_parse_msa(buf@, pos as int) is None,
        },
{
    match decode_endpoint_at(buf, pos) {
        None => None,
        Some((e, p)) => {
            if p < buf.len() && (buf[p] == 0 || buf[p] == 1) {
                Some((MappedSocketAddr { addr: e, nat_restricted: buf[p] == 1 }, p + 1))
            } else {
                None
            }
        },
    }
}

/// Decode `n` consecutive mapped endpoints starting at `pos`, as the
/// parser specifies.
pub fn decode_msa_list_at(buf: &Vec<u8>, pos: usize, n: u16) -> (r: Option<
    (Vec<MappedSocketAddr>, usize),
>)
    ensures
        match r {
            Some(vp) => spec_parse_msa_list(buf@, pos as int, n as nat) == Some(
                (vp.0@, vp.1 as int),
            ),
            None => spec_parse_msa_list(buf@, pos as int, n as nat) is None,
        },
    decreases n,
{
    if n == 0 {
        let v: Vec<MappedSocketAddr> = Vec::new();
        assert(v@ =~= Seq::<MappedSocketAddr>::empty());
        return Some((v, pos));
    }
    match decode_msa_at(buf, pos) {
        None => None,
        Some((m, p)) => match decode_msa_list_at(buf, p, n - 1) {
            None => None,
            Some((mut v, p2)) => {
                v.insert(0, m);
                proof {
                    let rest = v@.drop_first();
                    assert(v@ =~= seq![m] + rest);
                }
                Some((v, p2))
            },
        },
    }
}

/// Parsing the encoding of a socket address, wherever it stands inside a
/// larger buffer, gives back the address.
pub proof fn lemma_parse_endpoint_encoded(e: Endpoint, b: Seq<u8>, pos: int)
    requires
        0 <= pos,
        pos + spec_endpoint_bytes(e).len() <= b.len(),
        b.subrange(pos, pos + spec_endpoint_bytes(e).len() as int) == spec_endpoint_bytes(e),
    ensures
        spec_parse_endpoint(b, pos) == Some((e, pos + spec_endpoint_bytes(e).len() as int)),
{
    let bytes = spec_endpoint_bytes(e);
    let l = bytes.len() as int;
    let pt = e.port;
    assert((((((pt >> 8) as u8) as u16) << 8) | ((pt as u8) as u16)) == pt) by (bit_vector);
    match e.ip {
        Ip::V4(a) => {
            assert(bytes.len() == 7);
            assert(b[pos + 0] == bytes[0]) by {
                assert(b.subrange(pos, pos + l)[0] == b[pos + 0]);
            }
            assert(b[pos + 1] == bytes[1]) by {
                assert(b.subrange(pos, pos + l)[1] == b[pos + 1]);
            }
            assert(b[pos + 2] == bytes[2]) by {
                assert(b.subrange(pos, pos + l)[2] == b[pos + 2]);
            }
            assert(b[pos + 3] == bytes[3]) by {
                assert(b.subrange(pos, pos + l)[3] == b[pos + 3]);
            }
            assert(b[pos + 4] == bytes[4]) by {
                assert(b.subrange(pos, pos + l)[4] == b[pos + 4]);
            }
            assert(b[pos + 5] == bytes[5]) by {
                assert(b.subrange(pos, pos + l)[5] == b[pos + 5]);
            }
            assert(b[pos + 6] == bytes[6]) by {
                assert(b.subrange(pos, pos + l)[6] == b[pos + 6]);
            }
            assert(((((a >> 24) as u8) as u32) << 24) | ((((a >> 16) as u8) as u32) << 16) | ((((a
                >> 8) as u8) as u32) << 8) | ((a as u8) as u32) == a) by (bit_vector);
            assert(b[pos] == 0u8);
            assert(spec_u32_of(b[pos + 1], b[pos + 2], b[pos + 3], b[pos + 4]) == a);
            assert(spec_u16_of(b[pos + 5], b[pos + 6]) == pt);
        },
        Ip::V6(a) => {
            assert(bytes.len() == 19);
            assert(b[pos + 0] == bytes[0]) by {
                assert(b.subrange(pos, pos + l)[0] == b[pos + 0]);
            }
            assert(b[pos + 1] == bytes[1]) by {
                assert(b.subrange(pos, pos + l)[1] == b[pos + 1]);
            }
            assert(b[pos + 2] == bytes[2]) by {
                assert(b.subrange(pos, pos + l)[2] == b[pos + 2]);
            }
            assert(b[pos + 3] == bytes[3]) by {
                assert(b.subrange(pos, pos + l)[3] == b[pos + 3]);
            }
            assert(b[pos + 4] == bytes[4]) by {
                assert(b.subrange(pos, pos + l)[4] == b[pos + 4]);
            }
            assert(b[pos + 5] == bytes[5]) by {
                assert(b.subrange(pos, pos + l)[5] == b[pos + 5]);
            }
            assert(b[pos + 6] == bytes[6]) by {
                assert(b.subrange(pos, pos + l)[6] == b[pos + 6]);
            }
            assert(b[pos + 7] == bytes[7]) by {
                assert(b.subrange(pos, pos + l)[7] == b[pos + 7]);
            }
            assert(b[pos + 8] == bytes[8]) by {
                assert(b.subrange(pos, pos + l)[8] == b[pos + 8]);
            }
            assert(b[pos + 9] == bytes[9]) by {
                assert(b.subrange(pos, pos + l)[9] == b[pos + 9]);
            }
            assert(b[pos + 10] == bytes[10]) by {
                assert(b.subrange(pos, pos + l)[10] == b[pos + 10]);
            }
            assert(b[pos + 11] == bytes[11]) by {
                assert(b.subrange(pos, pos + l)[11] == b[pos + 11]);
            }
            assert(b[pos + 12] == bytes[12]) by {
                assert(b.subrange(pos, pos + l)[12] == b[pos + 12]);
            }
            assert(b[pos + 13] == bytes[13]) by {
                assert(b.subrange(pos, pos + l)[13] == b[pos + 13]);
            }
            assert(b[pos + 14] == bytes[14]) by {
                assert(b.subrange(pos, pos + l)[14] == b[pos + 14]);
            }
            assert(b[pos + 15] == bytes[15]) by {
                assert(b.subrange(pos, pos + l)[15] == b[pos + 15]);
            }
            assert(b[pos + 16] == bytes[16]) by {
                assert(b.subrange(pos, pos + l)[16] == b[pos + 16]);
            }
            assert(b[pos + 17] == bytes[17]) by {
                assert(b.subrange(pos, pos + l)[17] == b[pos + 17]);
            }
            assert(b[pos + 18] == bytes[18]) by {
                assert(b.subrange(pos, pos + l)[18] == b[pos + 18]);
            }
            assert((((a >> 120) as u8) as u128) << 120 | (((a >> 112) as u8) as u128) << 112 | (((a >> 104) as u8) as u128) << 104 | (((a >> 96) as u8) as u128) << 96 | (((a >> 88) as u8) as u128) << 88 | (((a >> 80) as u8) as u128) << 80 | (((a >> 72) as u8) as u128) << 72 | (((a >> 64) as u8) as u128) << 64 | (((a >> 56) as u8) as u128) << 56 | (((a >> 48) as u8) as u128) << 48 | (((a >> 40) as u8) as u128) << 40 | (((a >> 32) as u8) as u128) << 32 | (((a >> 24) as u8) as u128) << 24 | (((a >> 16) as u8) as u128) << 16 | (((a >> 8) as u8) as u128) << 8 | ((a as u8) as u128) == a) by (bit_vector);
            assert(b[pos] == 1u8);
            assert(spec_u128_at(b, pos + 1) == a);
            assert(spec_u16_of(b[pos + 17], b[pos + 18]) == pt);
        },
    }
}

/// Parsing the encoding of a mapped endpoint, wherever it stands inside a
/// larger buffer, gives back the endpoint.
pub proof fn lemma_parse_msa_encoded(m: MappedSocketAddr, b: Seq<u8>, pos: int)
    requires
        0 <= pos,
        pos + spec_msa_bytes(m).len() <= b.len(),
        b.subrange(pos, pos + spec_msa_bytes(m).len() as int) == spec_msa_bytes(m),
    ensures
        spec_parse_msa(b, pos) == Some((m, pos + spec_msa_bytes(m).len() as int)),
{
    let ebytes = spec_endpoint_bytes(m.addr);
    let mbytes = spec_msa_bytes(m);
    let el = ebytes.len() as int;
    let ml = mbytes.len() as int;
    assert forall|i: int| 0 <= i < el implies b.subrange(pos, pos + el)[i] == ebytes[i] by {
        assert(b.subrange(pos, pos + el)[i] == b[pos + i]);
        assert(b.subrange(pos, pos + ml)[i] == b[pos + i]);
    }
    assert(b.subrange(pos, pos + el) =~= ebytes);
    lemma_parse_endpoint_encoded(m.addr, b, pos);
    assert(b[pos + el] == mbytes[el]) by {
        assert(b.subrange(pos, pos + ml)[el] == b[pos + el]);
    }
    assert(mbytes[el] == (if m.nat_restricted { 1u8 } else { 0u8 }));
}

/// Parsing the encoding of a list of mapped endpoints, wherever it stands
/// inside a larger buffer, gives back the list.
pub proof fn lemma_parse_msa_list_encoded(s: Seq<MappedSocketAddr>, b: Seq<u8>, pos: int)
    requires
        0 <= pos,
        pos + spec_msa_list_bytes(s).len() <= b.len(),
        b.subrange(pos, pos + spec_msa_list_bytes(s).len() as int) == spec_msa_list_bytes(s),
    ensures
        spec_parse_msa_list(b, pos, s.len()) == Some((s, pos + spec_msa_list_bytes(s).len() as int)),
    decreases s.len(),
{
    if s.len() == 0 {
        assert(s =~= Seq::<MappedSocketAddr>::empty());
    } else {
        let head = spec_msa_bytes(s[0]);
        let tailbytes = spec_msa_list_bytes(s.drop_first());
        let all = spec_msa_list_bytes(s);
        let hl = head.len() as int;
        let tl = tailbytes.len() as int;
        let al = all.len() as int;
        assert(all == head + tailbytes);
        assert forall|i: int| 0 <= i < hl implies b.subrange(pos, pos + hl)[i] == head[i] by {
            assert(b.subrange(pos, pos + hl)[i] == b[pos + i]);
            assert(b.subrange(pos, pos + al)[i] == b[pos + i]);
            assert((head + tailbytes)[i] == head[i]);
        }
        assert(b.subrange(pos, pos + hl) =~= head);
        lemma_parse_msa_encoded(s[0], b, pos);
        let p = pos + hl;
        assert forall|i: int| 0 <= i < tl implies b.subrange(p, p + tl)[i] == tailbytes[i] by {
            assert(b.subrange(p, p + tl)[i] == b[p + i]);
            assert(b.subrange(pos, pos + al)[hl + i] == b[pos + hl + i]);
            assert((head + tailbytes)[hl + i] == tailbytes[i]);
        }
        assert(b.subrange(p, p + tl) =~= tailbytes);
        lemma_parse_msa_list_encoded(s.drop_first(), b, p);
        assert(seq![s[0]] + s.drop_first() =~= s);
    }
}

} // verus!
