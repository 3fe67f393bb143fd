//! TCP hole punching: the handshake and selection logic.
//!
//! The run dials every peer endpoint while listening on the mapped
//! socket. Each worker writes our 4-byte secret and reads 4 bytes back;
//! a connection counts only when the bytes read equal the peer's
//! declared secret. Worker outcomes arrive as events; the first success
//! wins, worker failures accumulate as warnings, and a run that reaches
//! the global deadline ends in a timed-out error carrying exactly the
//! warnings gathered.

use vstd::prelude::*;

use crate::addr::MappedSocketAddr;
use crate::mapped_tcp_socket::NewReusablyBoundSocketError;
use crate::rendezvous_info::{decompose, get_priv_secret, PrivRendezvousInfo, PubRendezvousInfo};

verus! {

/// Non-fatal failures of a punching run, accumulated and reported with
/// the result.
#[derive(Clone, Copy, PartialEq, Eq, Debug)]
pub enum TcpPunchHoleWarning {
    /// A connector could not reach its endpoint.
    Connect,
    /// Accepting an incoming connection failed.
    Accept,
    /// A stream's read or write timeout could not be set.
    StreamSetTimeout,
    /// Reading or writing a handshake failed.
    StreamIo,
    /// A connected host answered the handshake with the wrong bytes.
    InvalidResponse { data: [u8; 4] },
}

/// Ways a punching run fails.
#[derive(Clone, PartialEq, Eq, Debug)]
pub enum TcpPunchHoleError {
    /// The socket's local address could not be read.
    SocketLocalAddr,
    /// A connector socket could not be bound beside the main one.
    NewReusablyBoundSocket { err: NewReusablyBoundSocketError },
    /// Listening on the socket failed.
    Listen,
    /// No handshake succeeded before the global deadline.
    TimedOut { warnings: Vec<TcpPunchHoleWarning> },
}

/// What one worker reported, or the deadline.
#[derive(Clone, Copy, PartialEq, Eq, Debug)]
pub enum PunchEvent {
    /// The global deadline fired with no success.
    Timeout,
    /// A worker completed a validated handshake.
    Succeeded,
    /// A worker failed; the run continues.
    Warning(TcpPunchHoleWarning),
}

/// What the run should do after an event.
#[derive(Clone, Copy, PartialEq, Eq, Structural, Debug)]
pub enum PunchDecision {
    /// Keep consuming events.
    Continue,
    /// Shut the workers down and return the winning stream.
    Succeed,
    /// Shut the workers down and return the timed-out error.
    GiveUp,
}

/// The state of one punching run: the two secrets, the peer endpoints to
/// dial, and the warnings gathered so far.
pub struct TcpPunch {
    pub our_secret: [u8; 4],
    pub their_secret: [u8; 4],
    pub their_endpoints: Vec<MappedSocketAddr>,
    pub warnings: Vec<TcpPunchHoleWarning>,
}

/// The warnings gathered after a run of events, starting from `init`:
/// each warning event appends its warning, other events change nothing.
pub open spec fn spec_warnings_after(
    init: Seq<TcpPunchHoleWarning>,
    events: Seq<PunchEvent>,
) -> Seq<TcpPunchHoleWarning>
    decreases events.len(),
{
    if events.len() == 0 {
        init
    } else {
        let rest = spec_warnings_after(init, events.drop_last());
        match events.last() {
            PunchEvent::Warning(w) => rest.push(w),
            _ => rest,
        }
    }
}

/// Validate the 4 handshake bytes read from a connected host: they must
/// equal the peer's declared secret, byte for byte; anything else is an
/// InvalidResponse warning carrying the bytes.
pub fn check_handshake(expected: &[u8; 4], received: &[u8; 4]) -> (r: Result<
    (),
    TcpPunchHoleWarning,
>)
    ensures
        received@ == expected@ ==> r is Ok,
        received@ != expected@ ==> r == Err::<(), TcpPunchHoleWarning>(
            (TcpPunchHoleWarning::InvalidResponse { data: *received }),
        ),
{
    if received[0] == expected[0] && received[1] == expected[1] && received[2] == expected[2]
        && received[3] == expected[3] {
        proof {
            assert(received@ =~= expected@);
        }
        Ok(())
    } else {
        Err(TcpPunchHoleWarning::InvalidResponse { data: *received })
    }
}

impl TcpPunch {
    /// Start a punching run from our private half and the peer's public
    /// half: no warnings yet, our secret to send, the peer's secret to
    /// expect, and the peer's endpoints to dial.
    pub fn start(ours: PrivRendezvousInfo, theirs: PubRendezvousInfo) -> (m: TcpPunch)
        ensures
            m.our_secret@ == ours.spec_secret(),
            m.their_secret@ == theirs.spec_secret(),
            m.their_endpoints@ == theirs.spec_endpoints(),
            m.warnings@ == Seq::<TcpPunchHoleWarning>::empty(),
    {
        let our_secret = get_priv_secret(ours);
        let (their_endpoints, their_secret) = decompose(theirs);
        TcpPunch { our_secret, their_secret, their_endpoints, warnings: Vec::new() }
    }

    /// Validate handshake bytes against the peer's declared secret.
    pub fn check_response(&self, received: &[u8; 4]) -> (r: Result<(), TcpPunchHoleWarning>)
        ensures
            received@ == self.their_secret@ ==> r is Ok,
            received@ != self.their_secret@ ==> r == Err::<(), TcpPunchHoleWarning>(
                (TcpPunchHoleWarning::InvalidResponse { data: *received }),
            ),
    {
        check_handshake(&self.their_secret, received)
    }

    /// Consume one event: a success or the deadline ends the run, a
    /// warning is recorded and the run continues.
    pub fn on_event(&mut self, event: PunchEvent) -> (d: PunchDecision)
        ensures
            final(self).our_secret == old(self).our_secret,
            final(self).their_secret == old(self).their_secret,
            final(self).their_endpoints@ == old(self).their_endpoints@,
            final(self).warnings@ == spec_warnings_after(old(self).warnings@, seq![event]),
            match event {
                PunchEvent::Timeout => d is GiveUp && final(self).warnings@ == old(self).warnings@,
                PunchEvent::Succeeded => d is Succeed && final(self).warnings@ == old(
                    self,
                ).warnings@,
                PunchEvent::Warning(w) => d is Continue && final(self).warnings@ == old(
                    self,
                ).warnings@.push(w),
            },
    {
        proof {
            assert(seq![event].drop_last() =~= Seq::<PunchEvent>::empty());
            assert(spec_warnings_after(old(self).warnings@, Seq::<PunchEvent>::empty()) == old(
                self,
            ).warnings@);
        }
        match event {
            PunchEvent::Timeout => PunchDecision::GiveUp,
            PunchEvent::Succeeded => PunchDecision::Succeed,
            PunchEvent::Warning(w) => {
                self.warnings.push(w);
                PunchDecision::Continue
            },
        }
    }

    /// The timed-out error of this run, carrying exactly the warnings
    /// gathered.
    pub fn timed_out_error(self) -> (e: TcpPunchHoleError)
        ensures
            e == (TcpPunchHoleError::TimedOut { warnings: self.warnings }),
    {
        TcpPunchHoleError::TimedOut { warnings: self.warnings }
    }

    /// Hand out the warnings gathered, for the success report.
    pub fn into_warnings(self) -> (w: Vec<TcpPunchHoleWarning>)
        ensures
            w@ == self.warnings@,
    {
        self.warnings
    }
}

/// For a run that starts with no warnings, the warning list after any
/// sequence of events is non-empty exactly when at least one event
/// reported a warning; a run that times out returns that list, so its
/// error carries a warning exactly when some worker attempt produced
/// one.
pub proof fn lemma_timeout_warning_list(events: Seq<PunchEvent>)
    ensures
        spec_warnings_after(Seq::empty(), events).len() > 0 <==> exists|i: int|
            0 <= i < events.len() && events[i] is Warning,
    decreases events.len(),
{
    if events.len() == 0 {
    } else {
        let rest = events.drop_last();
        lemma_timeout_warning_list(rest);
        match events.last() {
            PunchEvent::Warning(w) => {
                assert(events[events.len() - 1] is Warning);
            },
            _ => {
                assert forall|i: int|
                    0 <= i < events.len() && events[i] is Warning implies exists|j: int|
                    0 <= j < rest.len() && rest[j] is Warning by {
                    assert(i != events.len() - 1);
                    assert(rest[i] == events[i]);
                }
                assert forall|j: int|
                    0 <= j < rest.len() && rest[j] is Warning implies exists|i: int|
                    0 <= i < events.len() && events[i] is Warning by {
                    assert(events[j] == rest[j]);
                }
            },
        }
    }
}

} // verus!
