use kercat::addr::{CandidateAddress, IpAddress};
use kercat::errors::{ChannelError, ReceiveError, ResolutionError, SendError, SessionError};
use kercat::session::{network_event, Directive, EventAction, Session, SessionEvent, SessionPhase};
use kercat::{AddressType, Config};

fn candidate(n: u32, port: u16) -> CandidateAddress {
    CandidateAddress { ip: IpAddress::V4(n), port }
}

fn config_with(addresses: Vec<CandidateAddress>, listen: bool, keep_listening: bool) -> Config {
    Config {
        addr_type: AddressType::IP,
        addresses,
        listen,
        keep_listening,
        input_buffer_size: 1024,
        output_buffer_size: 1024,
        ignore_eof: false,
        ignore_dns: true,
    }
}

#[test]
fn zero_candidates_is_fatal() {
    let r = Session::new(config_with(Vec::new(), false, false));
    match r {
        Err(SessionError::Resolution(ResolutionError::NoAddresses)) => {}
        other => panic!("expected a resolution failure, got {:?}", other.map(|_| ())),
    }
}

#[test]
fn candidate_fallback_tries_all_in_order() {
    let c0 = candidate(1, 80);
    let c1 = candidate(2, 80);
    let c2 = candidate(3, 80);
    let mut s = Session::new(config_with(vec![c0, c1, c2], false, false)).unwrap();

    assert_eq!(s.next_step(), Directive::TryConnect(c0));
    s.on_connect_failure();
    assert_eq!(s.next_step(), Directive::TryConnect(c1));
    s.on_connect_failure();
    assert_eq!(s.next_step(), Directive::TryConnect(c2));
    s.on_connect_success();
    assert_eq!(s.phase, SessionPhase::Active);
    assert_eq!(s.next_candidate, 3);
    assert_eq!(s.next_step(), Directive::AwaitEvent);
}

#[test]
fn exhausting_candidates_fails() {
    let mut s = Session::new(config_with(vec![candidate(1, 80)], false, false)).unwrap();
    assert_eq!(s.next_step(), Directive::TryConnect(candidate(1, 80)));
    s.on_connect_failure();
    assert_eq!(s.next_step(), Directive::Exhausted);
}

#[test]
fn listen_mode_fails_on_first_failure() {
    let mut s = Session::new(config_with(vec![candidate(0, 8000)], true, false)).unwrap();
    s.on_connect_failure();
    assert_eq!(s.phase, SessionPhase::Failed);
    assert_eq!(s.next_step(), Directive::Exhausted);
}

#[test]
fn input_event_is_forwarded_to_peer() {
    let mut s = active_session(false, false);
    let a = s.handle_event(SessionEvent::Input(b"hello\n".to_vec()));
    assert_eq!(a, EventAction::Send(b"hello\n".to_vec()));
    assert_eq!(s.phase, SessionPhase::Active);
}

#[test]
fn network_data_is_delivered_locally() {
    let mut s = active_session(false, false);
    let a = s.handle_event(SessionEvent::NetworkData(b"reply\n".to_vec()));
    assert_eq!(a, EventAction::Deliver(b"reply\n".to_vec()));
    assert_eq!(s.phase, SessionPhase::Active);
}

#[test]
fn receive_failure_reenters_candidate_iteration() {
    let mut s = active_session(false, false);
    let e = SessionError::Receive(ReceiveError::PeerClosed);
    let a = s.handle_event(SessionEvent::Error(e.clone()));
    assert_eq!(a, EventAction::Reconnect(e));
    assert_eq!(s.phase, SessionPhase::Connecting);
}

#[test]
fn send_failure_reenters_candidate_iteration() {
    let mut s = active_session(false, false);
    let e = SessionError::Send(SendError::BrokenPipe);
    let a = s.handle_event(SessionEvent::Error(e.clone()));
    assert_eq!(a, EventAction::Reconnect(e));
    assert_eq!(s.phase, SessionPhase::Connecting);
}

#[test]
fn channel_failure_is_fatal() {
    let mut s = active_session(false, false);
    let e = SessionError::Channel(ChannelError::Disconnected);
    let a = s.handle_event(SessionEvent::Error(e.clone()));
    assert_eq!(a, EventAction::Fail(e));
    assert_eq!(s.phase, SessionPhase::Failed);
}

#[test]
fn benign_error_is_only_logged() {
    let mut s = active_session(false, false);
    let e = SessionError::Resolution(ResolutionError::FamilyMismatch);
    let a = s.handle_event(SessionEvent::Error(e.clone()));
    assert_eq!(a, EventAction::Log(e));
    assert_eq!(s.phase, SessionPhase::Active);
}

#[test]
fn local_close_finishes_the_session() {
    let mut s = active_session(false, false);
    let a = s.handle_event(SessionEvent::ConnectionClose);
    assert_eq!(a, EventAction::CloseAndFinish);
    assert_eq!(s.phase, SessionPhase::Finished);
    assert_eq!(s.next_step(), Directive::Finished);
}

#[test]
fn served_listener_finishes_after_peer_disconnect() {
    let mut s = active_session(true, false);
    let e = SessionError::Receive(ReceiveError::PeerClosed);
    s.handle_event(SessionEvent::Error(e));
    assert_eq!(s.phase, SessionPhase::Finished);
}

#[test]
fn keep_listening_accepts_again_on_same_address() {
    let mut s = active_session(true, true);
    let bind = s.config.addresses[0];
    let e = SessionError::Receive(ReceiveError::PeerClosed);
    s.handle_event(SessionEvent::Error(e));
    assert_eq!(s.phase, SessionPhase::Connecting);
    assert_eq!(s.next_step(), Directive::TryConnect(bind));
}

#[test]
fn events_are_serviced_in_arrival_order() {
    let mut s = active_session(false, false);
    let actions = s.drain_events(vec![
        SessionEvent::Input(b"a".to_vec()),
        SessionEvent::NetworkData(b"b".to_vec()),
        SessionEvent::Input(b"c".to_vec()),
    ]);
    assert_eq!(
        actions,
        vec![
            EventAction::Send(b"a".to_vec()),
            EventAction::Deliver(b"b".to_vec()),
            EventAction::Send(b"c".to_vec()),
        ]
    );
    assert_eq!(s.phase, SessionPhase::Active);
}

#[test]
fn draining_stops_once_the_session_leaves_the_loop() {
    let mut s = active_session(false, false);
    let actions = s.drain_events(vec![
        SessionEvent::ConnectionClose,
        SessionEvent::Input(b"late".to_vec()),
    ]);
    assert_eq!(actions, vec![EventAction::CloseAndFinish]);
    assert_eq!(s.phase, SessionPhase::Finished);
}

#[test]
fn network_task_wraps_outcomes_as_events() {
    assert_eq!(
        network_event(Ok(b"data\n".to_vec())),
        SessionEvent::NetworkData(b"data\n".to_vec())
    );
    assert_eq!(
        network_event(Err(ReceiveError::PeerClosed)),
        SessionEvent::Error(SessionError::Receive(ReceiveError::PeerClosed))
    );
}

fn active_session(listen: bool, keep_listening: bool) -> Session {
    let mut s = Session::new(config_with(
        vec![candidate(1, 80), candidate(2, 80)],
        listen,
        keep_listening,
    ))
    .unwrap();
    s.on_connect_success();
    assert_eq!(s.phase, SessionPhase::Active);
    s
}
