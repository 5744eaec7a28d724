use chat_hub::ChatMessage;
use chat_hub::Fanout;
use chat_hub::PresenceRecord;
use chat_hub::Registry;
use chat_hub::RegistryError;
use chat_hub::SessionDirective;
use chat_hub::SessionEvent;
use chat_hub::SessionState;
use chat_hub::broadcast_frame;
use chat_hub::encode_inbound;
use chat_hub::parse_inbound;
use chat_hub::session_step;

fn msg(sender: &str, body: &str, at: u64) -> ChatMessage {
    ChatMessage {
        sender: sender.as_bytes().to_vec(),
        body: body.as_bytes().to_vec(),
        observed_at: at,
    }
}

fn rec(id: u64, name: &str, at: u64) -> PresenceRecord {
    PresenceRecord { conn_id: id, display_name: name.as_bytes().to_vec(), joined_at: at }
}

#[test]
fn registry_add_remove_count() {
    let mut reg = Registry::new();
    assert_eq!(reg.count(), 0);
    assert_eq!(reg.add(rec(1, "alice", 10)), Ok(()));
    assert_eq!(reg.add(rec(2, "bob", 11)), Ok(()));
    assert_eq!(reg.count(), 2);
    assert!(reg.contains(1));
    assert!(!reg.contains(3));
    assert_eq!(reg.add(rec(1, "impostor", 12)), Err(RegistryError::DuplicateIdentifier));
    assert_eq!(reg.count(), 2);
    reg.remove(1);
    assert_eq!(reg.count(), 1);
    assert!(!reg.contains(1));
}

#[test]
fn registry_remove_is_idempotent() {
    let mut once = Registry::new();
    once.add(rec(1, "alice", 10)).unwrap();
    once.add(rec(2, "bob", 11)).unwrap();
    let mut twice = Registry::new();
    twice.add(rec(1, "alice", 10)).unwrap();
    twice.add(rec(2, "bob", 11)).unwrap();

    once.remove(1);
    twice.remove(1);
    twice.remove(1);
    assert_eq!(once.count(), twice.count());
    assert_eq!(once.snapshot(), twice.snapshot());
    // Removing an absent identifier is a no-op, never an error.
    let mut reg = Registry::new();
    reg.remove(42);
    assert_eq!(reg.count(), 0);
}

#[test]
fn registry_snapshot_copies_records() {
    let mut reg = Registry::new();
    reg.add(rec(5, "alice", 10)).unwrap();
    let snap = reg.snapshot();
    assert_eq!(snap, vec![rec(5, "alice", 10)]);
}

#[test]
fn fanout_delivers_in_publish_order() {
    // Every subscriber present for the full sequence of publishes receives
    // exactly those messages, in call order.
    let mut f = Fanout::new(16);
    let s1 = f.subscribe();
    let s2 = f.subscribe();
    let ms: Vec<ChatMessage> = (0..5).map(|i| msg("alice", &format!("m{}", i), i)).collect();
    for m in &ms {
        f.publish(m).unwrap();
    }
    for sid in [s1, s2] {
        for m in &ms {
            assert_eq!(f.recv(sid).as_ref(), Some(m));
        }
        assert!(f.recv(sid).is_none());
    }
}

#[test]
fn fanout_overflow_drops_only_the_oldest_for_the_slow_subscriber() {
    let mut f = Fanout::new(2);
    let slow = f.subscribe();
    let fast = f.subscribe();
    let m1 = msg("a", "one", 1);
    let m2 = msg("a", "two", 2);
    let m3 = msg("a", "three", 3);
    f.publish(&m1).unwrap();
    // The fast subscriber drains as it goes.
    assert_eq!(f.recv(fast), Some(m1.clone()));
    f.publish(&m2).unwrap();
    assert_eq!(f.recv(fast), Some(m2.clone()));
    f.publish(&m3).unwrap();
    assert_eq!(f.recv(fast), Some(m3.clone()));
    // The slow subscriber's buffer held two: the oldest was dropped, and
    // only it is missing.
    assert_eq!(f.recv(slow), Some(m2));
    assert_eq!(f.recv(slow), Some(m3));
    assert!(f.recv(slow).is_none());
}

#[test]
fn late_subscriber_sees_nothing_earlier() {
    // A newly joined subscriber never receives a message published strictly
    // before its subscribe call returned.
    let mut f = Fanout::new(8);
    let early = f.subscribe();
    f.publish(&msg("a", "before", 1)).unwrap();
    let late = f.subscribe();
    assert!(f.recv(late).is_none());
    f.publish(&msg("a", "after", 2)).unwrap();
    assert_eq!(f.recv(late), Some(msg("a", "after", 2)));
    assert_eq!(f.recv(early), Some(msg("a", "before", 1)));
    assert_eq!(f.recv(early), Some(msg("a", "after", 2)));
}

#[test]
fn unsubscribe_spares_other_subscribers() {
    let mut f = Fanout::new(8);
    let s1 = f.subscribe();
    let s2 = f.subscribe();
    f.publish(&msg("a", "one", 1)).unwrap();
    f.unsubscribe(s1);
    f.unsubscribe(s1); // releasing an unknown endpoint is a no-op
    f.publish(&msg("a", "two", 2)).unwrap();
    assert_eq!(f.recv(s2), Some(msg("a", "one", 1)));
    assert_eq!(f.recv(s2), Some(msg("a", "two", 2)));
}

#[test]
fn frame_codec_round_trips() {
    let f = encode_inbound(&b"alice".to_vec(), &b"hi\nthere".to_vec());
    assert_eq!(f, b"alice\nhi\nthere".to_vec());
    let m = parse_inbound(&f, 9).expect("a well-formed frame decodes");
    assert_eq!(m.sender, b"alice".to_vec());
    assert_eq!(m.body, b"hi\nthere".to_vec());
    assert_eq!(m.observed_at, 9);
}

#[test]
fn frame_codec_rejects_malformed_frames() {
    assert!(parse_inbound(&b"no separator".to_vec(), 0).is_none());
    assert!(parse_inbound(&b"\nempty sender".to_vec(), 0).is_none());
    assert!(parse_inbound(&Vec::new(), 0).is_none());
    // An empty body is fine.
    let m = parse_inbound(&b"alice\n".to_vec(), 0).unwrap();
    assert_eq!(m.sender, b"alice".to_vec());
    assert_eq!(m.body, Vec::<u8>::new());
}

#[test]
fn broadcast_frame_has_the_conventional_shape() {
    assert_eq!(broadcast_frame(&msg("alice", "hi", 3)), b"alice: hi".to_vec());
}

#[test]
fn session_machine_follows_the_table() {
    let connecting = SessionState::Connecting;
    let active = SessionState::Active;
    let draining = SessionState::Draining;
    let closed = SessionState::Closed;
    let ignore = SessionDirective::Ignore;
    let begin_drain = SessionDirective::BeginDrain;
    let teardown = SessionDirective::Teardown;
    assert_eq!(session_step(connecting, SessionEvent::Activated), (active, ignore));
    assert_eq!(session_step(connecting, SessionEvent::ReadError), (closed, ignore));
    assert_eq!(session_step(active, SessionEvent::ReadError), (draining, begin_drain));
    assert_eq!(session_step(active, SessionEvent::WriteError), (draining, begin_drain));
    assert_eq!(session_step(active, SessionEvent::HeartbeatFailed), (draining, begin_drain));
    assert_eq!(session_step(active, SessionEvent::PeerClosed), (draining, begin_drain));
    assert_eq!(session_step(active, SessionEvent::MalformedFrame), (active, ignore));
    assert_eq!(session_step(draining, SessionEvent::WriteError), (draining, ignore));
    assert_eq!(session_step(draining, SessionEvent::DrainComplete), (closed, teardown));
    for e in [
        SessionEvent::Activated,
        SessionEvent::ReadError,
        SessionEvent::WriteError,
        SessionEvent::HeartbeatFailed,
        SessionEvent::PeerClosed,
        SessionEvent::MalformedFrame,
        SessionEvent::DrainComplete,
    ] {
        assert_eq!(session_step(closed, e), (closed, ignore));
    }
}
