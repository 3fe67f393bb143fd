use nat_traversal::addr::{Endpoint, Ip, MappedSocketAddr};
use nat_traversal::rendezvous_info::{compose, gen_rendezvous_info};
use nat_traversal::tcp_punch_hole::{
    check_handshake, PunchDecision, PunchEvent, TcpPunch, TcpPunchHoleError, TcpPunchHoleWarning,
};
use nat_traversal::udp_punch_hole::{UdpPunch, UdpPunchHoleError, UdpPunchHoleWarning};

fn v4(a: u32, port: u16) -> Endpoint {
    Endpoint { ip: Ip::V4(a), port }
}

fn peer_info(endpoints: Vec<Endpoint>) -> Vec<MappedSocketAddr> {
    endpoints
        .into_iter()
        .map(|addr| MappedSocketAddr { addr, nat_restricted: false })
        .collect()
}

#[test]
fn handshake_accepts_exact_secret_only() {
    let expected = [1u8, 2, 3, 4];
    assert!(check_handshake(&expected, &[1, 2, 3, 4]).is_ok());
    let got = check_handshake(&expected, &[1, 2, 3, 5]);
    assert_eq!(
        got,
        Err(TcpPunchHoleWarning::InvalidResponse { data: [1, 2, 3, 5] })
    );
}

#[test]
fn punch_run_exposes_peer_endpoints_and_secrets() {
    let (ours_priv, _ours_pub) = gen_rendezvous_info(Vec::new());
    let theirs = compose(
        peer_info(vec![v4(0x7F000001, 4100)]),
        [5, 6, 7, 8],
    );
    let punch = TcpPunch::start(ours_priv, theirs);
    assert_eq!(punch.their_secret, [5, 6, 7, 8]);
    assert_eq!(punch.their_endpoints.len(), 1);
    assert_eq!(punch.their_endpoints[0].addr, v4(0x7F000001, 4100));
    assert!(punch.warnings.is_empty());
}

#[test]
fn check_response_uses_peer_declared_secret() {
    let (ours_priv, _) = gen_rendezvous_info(Vec::new());
    let theirs = compose(Vec::new(), [0xAA, 0xBB, 0xCC, 0xDD]);
    let punch = TcpPunch::start(ours_priv, theirs);
    assert!(punch.check_response(&[0xAA, 0xBB, 0xCC, 0xDD]).is_ok());
    assert!(punch.check_response(&[0xAA, 0xBB, 0xCC, 0xDE]).is_err());
}

#[test]
fn first_success_wins_and_warnings_are_kept() {
    let (ours_priv, _) = gen_rendezvous_info(Vec::new());
    let theirs = compose(peer_info(vec![v4(0x7F000001, 4100)]), [1, 1, 1, 1]);
    let mut punch = TcpPunch::start(ours_priv, theirs);
    assert_eq!(
        punch.on_event(PunchEvent::Warning(TcpPunchHoleWarning::Connect)),
        PunchDecision::Continue
    );
    assert_eq!(punch.on_event(PunchEvent::Succeeded), PunchDecision::Succeed);
    assert_eq!(punch.into_warnings(), vec![TcpPunchHoleWarning::Connect]);
}

#[test]
fn empty_peer_list_still_accepts_incoming_success() {
    let (ours_priv, _) = gen_rendezvous_info(Vec::new());
    let theirs = compose(Vec::new(), [1, 1, 1, 1]);
    let mut punch = TcpPunch::start(ours_priv, theirs);
    assert!(punch.their_endpoints.is_empty());
    assert_eq!(punch.on_event(PunchEvent::Succeeded), PunchDecision::Succeed);
    assert!(punch.into_warnings().is_empty());
}

#[test]
fn timeout_error_carries_exactly_the_warnings() {
    let (ours_priv, _) = gen_rendezvous_info(Vec::new());
    let theirs = compose(Vec::new(), [1, 2, 3, 4]);
    let mut punch = TcpPunch::start(ours_priv, theirs);
    let wrong = TcpPunchHoleWarning::InvalidResponse { data: [9, 9, 9, 9] };
    assert_eq!(punch.on_event(PunchEvent::Warning(wrong)), PunchDecision::Continue);
    assert_eq!(
        punch.on_event(PunchEvent::Warning(TcpPunchHoleWarning::Accept)),
        PunchDecision::Continue
    );
    assert_eq!(punch.on_event(PunchEvent::Timeout), PunchDecision::GiveUp);
    assert_eq!(
        punch.timed_out_error(),
        TcpPunchHoleError::TimedOut {
            warnings: vec![wrong, TcpPunchHoleWarning::Accept],
        }
    );
}

#[test]
fn timeout_without_failures_carries_no_warnings() {
    let (ours_priv, _) = gen_rendezvous_info(Vec::new());
    let theirs = compose(Vec::new(), [1, 2, 3, 4]);
    let mut punch = TcpPunch::start(ours_priv, theirs);
    assert_eq!(punch.on_event(PunchEvent::Timeout), PunchDecision::GiveUp);
    assert_eq!(
        punch.timed_out_error(),
        TcpPunchHoleError::TimedOut { warnings: Vec::new() }
    );
}

#[test]
fn wrong_secret_shows_up_in_timeout_report() {
    let (a_priv, _a_pub) = gen_rendezvous_info(Vec::new());
    let b_declared = [3u8, 1, 4, 1];
    let mutated = [3u8, 1, 4, 0];
    let theirs = compose(Vec::new(), b_declared);
    let mut punch = TcpPunch::start(a_priv, theirs);
    let outcome = punch.check_response(&mutated);
    let warning = outcome.expect_err("mutated secret must be rejected");
    assert_eq!(warning, TcpPunchHoleWarning::InvalidResponse { data: mutated });
    punch.on_event(PunchEvent::Warning(warning));
    punch.on_event(PunchEvent::Timeout);
    match punch.timed_out_error() {
        TcpPunchHoleError::TimedOut { warnings } => {
            assert!(warnings
                .contains(&TcpPunchHoleWarning::InvalidResponse { data: mutated }));
        },
        other => panic!("expected TimedOut, got {:?}", other),
    }
}

#[test]
fn udp_handshake_is_our_secret_then_theirs() {
    let (ours_priv, ours_pub) = gen_rendezvous_info(Vec::new());
    let theirs = compose(Vec::new(), [9, 8, 7, 6]);
    let punch = UdpPunch::start(ours_priv, theirs);
    let datagram = punch.handshake_datagram();
    assert_eq!(datagram.len(), 8);
    assert_eq!(&datagram[0..4], &punch.our_secret);
    assert_eq!(&datagram[4..8], &[9, 8, 7, 6]);
    let (_, ours_secret) = nat_traversal::rendezvous_info::decompose(ours_pub);
    assert_eq!(&datagram[0..4], &ours_secret);
}

#[test]
fn udp_matching_datagram_records_peer() {
    let (ours_priv, _) = gen_rendezvous_info(Vec::new());
    let theirs = compose(
        peer_info(vec![v4(0x7F000001, 4200)]),
        [2, 4, 6, 8],
    );
    let mut punch = UdpPunch::start(ours_priv, theirs);
    let source = v4(0x7F000001, 4200);
    let matched = punch.on_datagram(source, vec![2, 4, 6, 8, 0xFF, 0xFF, 0xFF, 0xFF]);
    assert!(matched);
    assert_eq!(punch.peer, Some(source));
    assert!(punch.warnings.is_empty());
}

#[test]
fn udp_wrong_datagram_warns_and_leaves_peer_unset() {
    let (ours_priv, _) = gen_rendezvous_info(Vec::new());
    let theirs = compose(Vec::new(), [2, 4, 6, 8]);
    let mut punch = UdpPunch::start(ours_priv, theirs);
    let matched = punch.on_datagram(v4(0x7F000001, 4200), vec![2, 4, 6, 9, 0, 0, 0, 0]);
    assert!(!matched);
    assert_eq!(punch.peer, None);
    assert_eq!(
        punch.warnings,
        vec![UdpPunchHoleWarning::InvalidResponse { data: vec![2, 4, 6, 9, 0, 0, 0, 0] }]
    );
    let mut punch2 = punch;
    let matched_short = punch2.on_datagram(v4(0x7F000001, 4200), vec![2, 4]);
    assert!(!matched_short);
}

#[test]
fn udp_timeout_error_carries_socket_warnings() {
    let (ours_priv, _) = gen_rendezvous_info(Vec::new());
    let theirs = compose(Vec::new(), [2, 4, 6, 8]);
    let mut punch = UdpPunch::start(ours_priv, theirs);
    punch.on_socket_error();
    assert_eq!(
        punch.timed_out_error(),
        UdpPunchHoleError::TimedOut { warnings: vec![UdpPunchHoleWarning::SocketIo] }
    );
}

#[test]
fn udp_loopback_simulation_confirms_each_side() {
    let (a_priv, a_pub) = gen_rendezvous_info(peer_info(vec![v4(0x7F000001, 4300)]));
    let (b_priv, b_pub) = gen_rendezvous_info(peer_info(vec![v4(0x7F000001, 4301)]));
    let mut a = UdpPunch::start(a_priv, b_pub);
    let mut b = UdpPunch::start(b_priv, a_pub);
    let a_addr = v4(0x7F000001, 4300);
    let b_addr = v4(0x7F000001, 4301);
    // Each side's datagram, delivered to the other, matches there.
    let from_a = a.handshake_datagram();
    let from_b = b.handshake_datagram();
    assert!(b.on_datagram(a_addr, from_a));
    assert!(a.on_datagram(b_addr, from_b));
    assert_eq!(a.peer, Some(b_addr));
    assert_eq!(b.peer, Some(a_addr));
}

#[test]
fn tcp_loopback_simulation_connector_and_acceptor_validate() {
    // Peer A dials B's listener, B accepts; each side writes its own
    // secret and validates the peer's declared one.
    let (a_priv, a_pub) = gen_rendezvous_info(Vec::new());
    let (b_priv, b_pub) = gen_rendezvous_info(peer_info(vec![v4(0x7F000001, 4400)]));
    let mut a = TcpPunch::start(a_priv, b_pub);
    let mut b = TcpPunch::start(b_priv, a_pub);
    // A's connector dials b.their_endpoints... A sends a.our_secret.
    assert!(b.check_response(&a.our_secret).is_ok());
    assert!(a.check_response(&b.our_secret).is_ok());
    assert_eq!(a.on_event(PunchEvent::Succeeded), PunchDecision::Succeed);
    assert_eq!(b.on_event(PunchEvent::Succeeded), PunchDecision::Succeed);
    assert!(a.into_warnings().is_empty());
    assert!(b.into_warnings().is_empty());
}

#[test]
fn tcp_simulation_wrong_secret_times_out_both_sides() {
    // A carries a bundle for B whose secret was mutated by one byte: every
    // handshake is rejected on both sides and both runs time out with an
    // InvalidResponse warning.
    let (a_priv, a_pub) = gen_rendezvous_info(Vec::new());
    let (b_priv, b_pub) = gen_rendezvous_info(Vec::new());
    let (b_endpoints, b_secret) = nat_traversal::rendezvous_info::decompose(b_pub);
    let mut mutated = b_secret;
    mutated[0] ^= 1;
    let b_pub_mutated = compose(b_endpoints, mutated);
    let mut a = TcpPunch::start(a_priv, b_pub_mutated);
    let mut b = TcpPunch::start(b_priv, a_pub);
    // B answers with its real secret; A expects the mutated one.
    let w_a = a.check_response(&b.our_secret).unwrap_err();
    assert_eq!(w_a, TcpPunchHoleWarning::InvalidResponse { data: b.our_secret });
    a.on_event(PunchEvent::Warning(w_a));
    // A sends the secret from its own private half, which is unchanged,
    // so B still accepts it; B times out only because A drops the link.
    assert!(b.check_response(&a.our_secret).is_ok());
    assert_eq!(a.on_event(PunchEvent::Timeout), PunchDecision::GiveUp);
    assert_eq!(b.on_event(PunchEvent::Warning(TcpPunchHoleWarning::StreamIo)), PunchDecision::Continue);
    assert_eq!(b.on_event(PunchEvent::Timeout), PunchDecision::GiveUp);
    match a.timed_out_error() {
        TcpPunchHoleError::TimedOut { warnings } => {
            assert_eq!(warnings, vec![TcpPunchHoleWarning::InvalidResponse { data: b.our_secret }]);
        },
        other => panic!("expected TimedOut, got {:?}", other),
    }
}
