use chat_hub::ChatMessage;
use chat_hub::Hub;
use chat_hub::HubError;
use chat_hub::InboundOutcome;
use chat_hub::SessionDirective;
use chat_hub::SessionEvent;
use chat_hub::SessionState;
use chat_hub::replay_frames;

fn msg(sender: &str, body: &str, at: u64) -> ChatMessage {
    ChatMessage {
        sender: sender.as_bytes().to_vec(),
        body: body.as_bytes().to_vec(),
        observed_at: at,
    }
}

fn frame(sender: &str, body: &str) -> Vec<u8> {
    let mut f = sender.as_bytes().to_vec();
    f.push(b'\n');
    f.extend_from_slice(body.as_bytes());
    f
}

fn connect(hub: &mut Hub, name: &str, now: u64) -> u64 {
    let cid = hub.accept(name.as_bytes().to_vec());
    hub.activate(cid, now).unwrap();
    cid
}

#[test]
fn two_clients_broadcast_scenario() {
    // Client A connects and speaks; client B, connected before A's send,
    // receives the formatted frame; client C, connecting after, receives
    // nothing live and sees the message only through history replay.
    let mut hub = Hub::new(16);
    let a = connect(&mut hub, "alice", 1);
    let b = connect(&mut hub, "bob", 2);

    let out = hub.handle_inbound_text(a, &frame("alice", "hi"), 3);
    let published = match out {
        InboundOutcome::Published(m) => m,
        _ => panic!("expected the frame to publish"),
    };
    assert_eq!(published.sender, b"alice".to_vec());
    assert_eq!(published.body, b"hi".to_vec());
    assert_eq!(published.observed_at, 3);

    let got = hub.next_outbound(b).expect("B must receive the broadcast");
    let wire = chat_hub::broadcast_frame(&got);
    assert_eq!(wire, b"alice: hi".to_vec());
    assert!(hub.next_outbound(b).is_none());

    // A, as a subscriber itself, receives its own message too.
    let own = hub.next_outbound(a).expect("A receives its own message");
    assert_eq!(chat_hub::broadcast_frame(&own), b"alice: hi".to_vec());

    // C joins after the publish: nothing arrives on the live channel.
    let c = connect(&mut hub, "carol", 4);
    assert!(hub.next_outbound(c).is_none());

    // History replay is a separate fetch, formatted like live frames.
    let history = vec![published];
    let frames = replay_frames(&history);
    assert_eq!(frames, vec![b"alice: hi".to_vec()]);
}

#[test]
fn persistence_failure_does_not_block_broadcast() {
    // The hub broadcasts before the caller ever talks to storage: the
    // outcome carries the message for persistence, and discarding it (a
    // failed persistence write) cannot take the broadcast back.
    let mut hub = Hub::new(16);
    let a = connect(&mut hub, "alice", 1);
    let b = connect(&mut hub, "bob", 2);

    let out = hub.handle_inbound_text(a, &frame("alice", "hi"), 3);
    match out {
        InboundOutcome::Published(m) => drop(m), // persistence fails; nothing is stored
        _ => panic!("expected the frame to publish"),
    }
    let got = hub.next_outbound(b).expect("the live broadcast still arrives");
    assert_eq!(chat_hub::broadcast_frame(&got), b"alice: hi".to_vec());
}

#[test]
fn abrupt_disconnect_evicts_one_and_spares_the_other() {
    // One of two clients resets its socket without a close handshake. After
    // its session drains, the registry count drops by exactly one and the
    // surviving client keeps receiving broadcasts.
    let mut hub = Hub::new(16);
    let a = connect(&mut hub, "alice", 1);
    let b = connect(&mut hub, "bob", 2);
    assert_eq!(hub.count(), 2);

    let d = hub.on_event(a, SessionEvent::ReadError);
    assert_eq!(d, SessionDirective::BeginDrain);
    assert_eq!(hub.count(), 2); // still registered while draining
    let d = hub.on_event(a, SessionEvent::DrainComplete);
    assert_eq!(d, SessionDirective::Teardown);
    assert_eq!(hub.count(), 1);
    assert_eq!(hub.session_state(a), Some(SessionState::Closed));

    let m = msg("server", "still here", 5);
    hub.inject(&m).unwrap();
    let got = hub.next_outbound(b).expect("survivor keeps receiving");
    assert_eq!(chat_hub::broadcast_frame(&got), b"server: still here".to_vec());
}

#[test]
fn heartbeat_failure_closes_and_unregisters() {
    // A session that never sends data but whose liveness probe fails is
    // driven to Closed and disappears from the registry snapshot.
    let mut hub = Hub::new(16);
    let a = connect(&mut hub, "alice", 1);
    let quiet = connect(&mut hub, "mallory", 2);

    assert_eq!(hub.on_event(quiet, SessionEvent::HeartbeatFailed), SessionDirective::BeginDrain);
    assert_eq!(hub.on_event(quiet, SessionEvent::DrainComplete), SessionDirective::Teardown);

    assert_eq!(hub.session_state(quiet), Some(SessionState::Closed));
    let snap = hub.snapshot();
    assert_eq!(snap.len(), 1);
    assert!(snap.iter().all(|r| r.conn_id != quiet));
    assert!(snap.iter().any(|r| r.conn_id == a));
}

#[test]
fn second_failure_observer_is_a_no_op() {
    // Both tasks fail around the same time: the first observation begins
    // the drain, the second is ignored, and teardown runs exactly once.
    let mut hub = Hub::new(16);
    let a = connect(&mut hub, "alice", 1);
    assert_eq!(hub.on_event(a, SessionEvent::WriteError), SessionDirective::BeginDrain);
    assert_eq!(hub.on_event(a, SessionEvent::ReadError), SessionDirective::Ignore);
    assert_eq!(hub.on_event(a, SessionEvent::DrainComplete), SessionDirective::Teardown);
    assert_eq!(hub.on_event(a, SessionEvent::DrainComplete), SessionDirective::Ignore);
    assert_eq!(hub.count(), 0);
}

#[test]
fn malformed_frame_is_skipped_and_session_stays_active() {
    let mut hub = Hub::new(16);
    let a = connect(&mut hub, "alice", 1);

    // No separator at all.
    let out = hub.handle_inbound_text(a, &b"no separator here".to_vec(), 2);
    assert!(matches!(out, InboundOutcome::Malformed));
    // Empty sender part.
    let out = hub.handle_inbound_text(a, &b"\nbody only".to_vec(), 2);
    assert!(matches!(out, InboundOutcome::Malformed));

    assert_eq!(hub.session_state(a), Some(SessionState::Active));
    // The session still works.
    let out = hub.handle_inbound_text(a, &frame("alice", "ok"), 3);
    assert!(matches!(out, InboundOutcome::Published(_)));
}

#[test]
fn publish_after_shutdown_fails_only_that_call() {
    let mut hub = Hub::new(16);
    let a = connect(&mut hub, "alice", 1);
    hub.shutdown();
    assert!(hub.inject(&msg("server", "late", 2)).is_err());
    let out = hub.handle_inbound_text(a, &frame("alice", "late"), 3);
    assert!(matches!(out, InboundOutcome::PublishFailed));
    // The session itself is unaffected.
    assert_eq!(hub.session_state(a), Some(SessionState::Active));
}

#[test]
fn activate_rejects_unknown_and_repeated_connections() {
    let mut hub = Hub::new(16);
    assert_eq!(hub.activate(7, 1), Err(HubError::UnknownConnection));
    let cid = hub.accept(b"alice".to_vec());
    assert_eq!(hub.activate(cid, 1), Ok(()));
    assert_eq!(hub.activate(cid, 1), Err(HubError::NotConnecting));
}

#[test]
fn frames_to_inactive_sessions_are_ignored() {
    let mut hub = Hub::new(16);
    let cid = hub.accept(b"alice".to_vec());
    let out = hub.handle_inbound_text(cid, &frame("alice", "early"), 1);
    assert!(matches!(out, InboundOutcome::NotActive));
}

#[test]
fn replay_frames_match_live_shape() {
    let history = vec![msg("alice", "hi", 1), msg("bob", "yo", 2)];
    let frames = replay_frames(&history);
    assert_eq!(frames, vec![b"alice: hi".to_vec(), b"bob: yo".to_vec()]);
    // A history fetch failure degrades to no history, not to a failure.
    assert_eq!(replay_frames(&Vec::new()).len(), 0);
}
