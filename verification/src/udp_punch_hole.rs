//! UDP hole punching: the datagram handshake and selection logic.
//!
//! Each side repeatedly sends an 8-byte datagram, its own secret
//! followed by the peer's, to every peer endpoint, while receiving on
//! the same socket. A received datagram counts exactly when its first 4
//! bytes equal the peer's declared secret; its source becomes the peer
//! address and sending stops, apart from a final burst of
//! acknowledgements. A run that reaches the global deadline ends in a
//! timed-out error carrying exactly the warnings gathered.

use vstd::prelude::*;

use crate::addr::{Endpoint, MappedSocketAddr};
use crate::rendezvous_info::{decompose, get_priv_secret, PrivRendezvousInfo, PubRendezvousInfo};

verus! {

/// Non-fatal failures of a UDP punching run.
#[derive(Clone, PartialEq, Eq, Debug)]
pub enum UdpPunchHoleWarning {
    /// Sending or receiving a datagram failed.
    SocketIo,
    /// A datagram arrived whose first 4 bytes were not the peer's
    /// declared secret.
    InvalidResponse { data: Vec<u8> },
}

/// Ways a UDP punching run fails.
#[derive(Clone, PartialEq, Eq, Debug)]
pub enum UdpPunchHoleError {
    /// The socket's local address could not be read.
    SocketLocalAddr,
    /// No matching datagram arrived before the global deadline.
    TimedOut { warnings: Vec<UdpPunchHoleWarning> },
}

/// The handshake datagram: the sender's secret, then the secret it
/// expects from the peer.
pub open spec fn spec_udp_handshake(our: Seq<u8>, their: Seq<u8>) -> Seq<u8> {
    our + their
}

/// Whether `data` begins with the 4 expected bytes.
fn prefix_matches(data: &Vec<u8>, expected: &[u8; 4]) -> (r: bool)
    ensures
        r == (data@.len() >= 4 && data@.subrange(0, 4) == expected@),
{
    if data.len() < 4 {
        return false;
    }
    let m = data[0] == expected[0] && data[1] == expected[1] && data[2] == expected[2] && data[3]
        == expected[3];
    proof {
        assert(data@.subrange(0, 4)[0] == data@[0]);
        assert(data@.subrange(0, 4)[1] == data@[1]);
        assert(data@.subrange(0, 4)[2] == data@[2]);
        assert(data@.subrange(0, 4)[3] == data@[3]);
        if m {
            assert(data@.subrange(0, 4) =~= expected@);
        }
    }
    m
}

/// The state of one UDP punching run: the two secrets, the peer
/// endpoints to send to, the warnings gathered, and the confirmed peer
/// address once a datagram matched.
pub struct UdpPunch {
    pub our_secret: [u8; 4],
    pub their_secret: [u8; 4],
    pub their_endpoints: Vec<MappedSocketAddr>,
    pub warnings: Vec<UdpPunchHoleWarning>,
    pub peer: Option<Endpoint>,
}

impl UdpPunch {
    /// Start a UDP punching run from our private half and the peer's
    /// public half: no warnings, no confirmed peer yet.
    pub fn start(ours: PrivRendezvousInfo, theirs: PubRendezvousInfo) -> (m: UdpPunch)
        ensures
            m.our_secret@ == ours.spec_secret(),
            m.their_secret@ == theirs.spec_secret(),
            m.their_endpoints@ == theirs.spec_endpoints(),
            m.warnings@ == Seq::<UdpPunchHoleWarning>::empty(),
            m.peer is None,
    {
        let our_secret = get_priv_secret(ours);
        let (their_endpoints, their_secret) = decompose(theirs);
        UdpPunch { our_secret, their_secret, their_endpoints, warnings: Vec::new(), peer: None }
    }

    /// The 8-byte datagram this side sends to every peer endpoint, and
    /// again as the acknowledgement burst after a match: our secret
    /// followed by the peer's.
    pub fn handshake_datagram(&self) -> (r: Vec<u8>)
        ensures
            r@ == spec_udp_handshake(self.our_secret@, self.their_secret@),
            r@.len() == 8,
    {
        let mut out: Vec<u8> = Vec::new();
        out.push(self.our_secret[0]);
        out.push(self.our_secret[1]);
        out.push(self.our_secret[2]);
        out.push(self.our_secret[3]);
        out.push(self.their_secret[0]);
        out.push(self.their_secret[1]);
        out.push(self.their_secret[2]);
        out.push(self.their_secret[3]);
        proof {
            assert(out@ =~= spec_udp_handshake(self.our_secret@, self.their_secret@));
        }
        out
    }

    /// Consume one received datagram. It matches exactly when its first
    /// 4 bytes equal the peer's declared secret; then its source is
    /// recorded as the peer address and the run should stop sending and
    /// acknowledge. Anything else becomes an InvalidResponse warning
    /// carrying the bytes.
    pub fn on_datagram(&mut self, source: Endpoint, data: Vec<u8>) -> (matched: bool)
        ensures
            final(self).our_secret == old(self).our_secret,
            final(self).their_secret == old(self).their_secret,
            final(self).their_endpoints@ == old(self).their_endpoints@,
            matched == (data@.len() >= 4 && data@.subrange(0, 4) == old(self).their_secret@),
            matched ==> final(self).peer == Some(source) && final(self).warnings@ == old(
                self,
            ).warnings@,
            !matched ==> final(self).peer == old(self).peer && final(self).warnings@ == old(
                self,
            ).warnings@.push((UdpPunchHoleWarning::InvalidResponse { data })),
    {
        if prefix_matches(&data, &self.their_secret) {
            self.peer = Some(source);
            true
        } else {
            self.warnings.push(UdpPunchHoleWarning::InvalidResponse { data });
            false
        }
    }

    /// Record a send or receive failure; the run continues.
    pub fn on_socket_error(&mut self)
        ensures
            final(self).our_secret == old(self).our_secret,
            final(self).their_secret == old(self).their_secret,
            final(self).their_endpoints@ == old(self).their_endpoints@,
            final(self).peer == old(self).peer,
            final(self).warnings@ == old(self).warnings@.push(UdpPunchHoleWarning::SocketIo),
    {
        self.warnings.push(UdpPunchHoleWarning::SocketIo);
    }

    /// The timed-out error of this run, carrying exactly the warnings
    /// gathered.
    pub fn timed_out_error(self) -> (e: UdpPunchHoleError)
        ensures
            e == (UdpPunchHoleError::TimedOut { warnings: self.warnings }),
    {
        UdpPunchHoleError::TimedOut { warnings: self.warnings }
    }
}

} // verus!
