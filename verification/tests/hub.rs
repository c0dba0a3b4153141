use std::time::{Duration, Instant};

use base58::ToBase58;
use ephemeral_chat::error::ChatError;
use ephemeral_chat::handshake::{hello_bytes, NonceSet, HANDSHAKE_LEN};
use ephemeral_chat::hub::{
    HostedRoom, Hub, Launch, PeerRegistry, ReaderStep, BROADCAST_CAPACITY, READ_TIMEOUT_SECS,
    WRITE_TIMEOUT_SECS,
};
use ephemeral_chat::io::Outcome;
use ephemeral_chat::types::{ChatEvent, PeerId};
use ephemeral_chat::wire::{FrameRead, MessageType, WireMessage};

type TestHub = Hub<u8, Vec<u8>, u32>;

fn room() -> HostedRoom<u8, Vec<u8>> {
    let launch = Launch::Running { service: 1, address: "abc.onion".to_string(), streams: vec![7] };
    HostedRoom::new(launch, 80).ok().unwrap()
}

fn hello(nonce: u8, discriminator: u8) -> Outcome<Vec<u8>> {
    Outcome::Done(hello_bytes(&[nonce; 16], &[discriminator; 16]))
}

// ── constants ──

#[test]
fn handshake_len_is_32_bytes() {
    assert_eq!(HANDSHAKE_LEN, 32);
}

#[test]
fn read_timeout_is_60_secs() {
    assert_eq!(Duration::from_secs(READ_TIMEOUT_SECS), Duration::from_secs(60));
}

#[test]
fn write_timeout_is_30_secs() {
    assert_eq!(Duration::from_secs(WRITE_TIMEOUT_SECS), Duration::from_secs(30));
}

#[test]
fn broadcast_capacity_is_256() {
    assert_eq!(BROADCAST_CAPACITY, 256);
}

#[test]
fn nonce_set_rejects_duplicates() {
    let mut set = NonceSet::new();
    let nonce = [0xAAu8; 16];
    assert!(!set.contains(&nonce));
    assert!(set.insert(nonce));
    assert!(set.contains(&nonce));
    assert!(!set.insert(nonce));
    assert!(!set.contains(&[0xABu8; 16]));
}

// ── PeerRegistry ──

#[test]
fn peer_registry_len_starts_at_zero() {
    let reg: PeerRegistry<u32> = PeerRegistry::new();
    assert_eq!(reg.len(), 0);
}

#[test]
fn peer_registry_register_increments_len() {
    let mut reg = PeerRegistry::new();
    reg.register(PeerId("alice".into()), "alice".into(), 1);
    assert_eq!(reg.len(), 1);
}

#[test]
fn peer_registry_register_multiple_peers() {
    let mut reg = PeerRegistry::new();
    reg.register(PeerId("a".into()), "alice".into(), 1);
    reg.register(PeerId("b".into()), "bob".into(), 2);
    assert_eq!(reg.len(), 2);
}

#[test]
fn peer_registry_register_same_id_twice_overwrites() {
    let mut reg = PeerRegistry::new();
    reg.register(PeerId("alice".into()), "alice".into(), 1);
    reg.register(PeerId("alice".into()), "alice2".into(), 2);
    assert_eq!(reg.len(), 1);
    assert_eq!(reg.snapshot()[0].name, "alice2");
}

#[test]
fn peer_registry_deregister_decrements_len() {
    let mut reg = PeerRegistry::new();
    reg.register(PeerId("alice".into()), "alice".into(), 1);
    reg.deregister(&PeerId("alice".into()));
    assert_eq!(reg.len(), 0);
}

#[test]
fn peer_registry_deregister_unknown_is_noop() {
    let mut reg = PeerRegistry::new();
    reg.register(PeerId("alice".into()), "alice".into(), 1);
    reg.deregister(&PeerId("ghost".into()));
    assert_eq!(reg.len(), 1);
    assert!(reg.contains(&PeerId("alice".into())));
    assert!(!reg.contains(&PeerId("ghost".into())));
}

#[test]
fn peer_registry_deregister_empty_registry_no_panic() {
    let mut reg: PeerRegistry<u32> = PeerRegistry::new();
    reg.deregister(&PeerId("ghost".into()));
    assert_eq!(reg.len(), 0);
}

#[test]
fn peer_registry_snapshot_returns_all_peers() {
    let mut reg = PeerRegistry::new();
    reg.register(PeerId("a".into()), "alice".into(), 1);
    reg.register(PeerId("b".into()), "bob".into(), 2);

    let snap = reg.snapshot();
    assert_eq!(snap.len(), 2);

    let mut ids: Vec<_> = snap.iter().map(|p| p.id.0.clone()).collect();
    ids.sort();
    assert_eq!(ids, vec!["a", "b"]);

    let mut names: Vec<_> = snap.iter().map(|p| p.name.clone()).collect();
    names.sort();
    assert_eq!(names, vec!["alice", "bob"]);
}

#[test]
fn peer_registry_snapshot_empty_registry() {
    let reg: PeerRegistry<u32> = PeerRegistry::new();
    assert!(reg.snapshot().is_empty());
}

#[test]
fn peer_registry_broadcast_to_all_delivers_to_each_peer() {
    let mut reg = PeerRegistry::new();
    reg.register(PeerId("a".into()), "alice".into(), 1u32);
    reg.register(PeerId("b".into()), "bob".into(), 2u32);

    let frame: Vec<u8> = b"hello everyone".to_vec();
    let mut seen: Vec<u32> = Vec::new();
    for d in reg.broadcast_to_all(&frame) {
        assert_eq!(d.frame, frame);
        seen.push(*d.tx);
    }
    seen.sort();
    assert_eq!(seen, vec![1, 2]);
}

#[test]
fn peer_registry_broadcast_to_empty_registry_no_panic() {
    let reg: PeerRegistry<u32> = PeerRegistry::new();
    assert!(reg.broadcast_to_all(b"hello").is_empty());
}

#[test]
fn peer_registry_broadcast_skips_deregistered_peers() {
    let mut reg = PeerRegistry::new();
    reg.register(PeerId("a".into()), "alice".into(), 1u32);
    reg.register(PeerId("b".into()), "bob".into(), 2u32);
    reg.deregister(&PeerId("b".into()));

    let frame: Vec<u8> = b"only for alice".to_vec();
    let list = reg.broadcast_to_all(&frame);
    assert_eq!(list.len(), 1);
    assert_eq!(list[0].id.0, "a");
    assert_eq!(list[0].frame, frame);
}

#[test]
fn peer_registry_register_and_deregister_toggle() {
    let mut reg = PeerRegistry::new();

    reg.register(PeerId("x".into()), "x".into(), 1);
    assert_eq!(reg.len(), 1);

    reg.deregister(&PeerId("x".into()));
    assert_eq!(reg.len(), 0);

    reg.register(PeerId("x".into()), "x".into(), 1);
    assert_eq!(reg.len(), 1);
}

#[test]
fn peer_registry_snapshot_includes_joined_at() {
    let mut reg = PeerRegistry::new();
    let before = Instant::now();
    reg.register(PeerId("alice".into()), "alice".into(), 1);
    let after = Instant::now();

    let snap = reg.snapshot();
    assert_eq!(snap.len(), 1);
    let info = &snap[0];
    assert!(info.joined_at >= before);
    assert!(info.joined_at <= after);
}

// ── Hub::handshake ──

#[test]
fn handshake_accepts_valid_nonce() {
    let mut nonces = NonceSet::new();
    let discriminator = [0xABu8; 16];
    let reply = TestHub::handshake(hello(0x42, 0xAB), &mut nonces);
    let (peer_id, name) = reply.result.unwrap();
    assert_eq!(peer_id, PeerId(discriminator.to_base58()));
    assert_eq!(name, format!("peer-{}", hex::encode(&discriminator[..4])));
}

#[test]
fn handshake_rejects_reused_nonce() {
    let mut nonces = NonceSet::new();
    nonces.insert([0x42u8; 16]);
    let reply = TestHub::handshake(hello(0x42, 0xAB), &mut nonces);
    assert!(matches!(reply.result.unwrap_err(), ChatError::NonceReused));
}

#[test]
fn handshake_rejects_wrong_length() {
    let mut nonces = NonceSet::new();
    // Only 16 bytes instead of 32
    let reply = TestHub::handshake(Outcome::Done(vec![0u8; 16]), &mut nonces);
    assert!(reply.result.is_err());
    let ended: Outcome<Vec<u8>> = Outcome::Failed("early eof".to_string());
    let reply = TestHub::handshake(ended, &mut nonces);
    assert_eq!(
        reply.result.unwrap_err().message(),
        "connection failed: handshake read: early eof"
    );
}

#[test]
fn handshake_nonce_is_consumed_on_success() {
    let mut nonces = NonceSet::new();
    let _ = TestHub::handshake(hello(0x00, 0xAB), &mut nonces).result.unwrap();
    assert!(nonces.contains(&[0x00u8; 16]));
}

#[test]
fn handshake_writes_ack_on_success() {
    let mut nonces = NonceSet::new();
    let reply = TestHub::handshake(hello(0x00, 0xAB), &mut nonces);
    assert!(reply.result.is_ok());
    assert_eq!(reply.byte, 0);
}

#[test]
fn handshake_writes_nack_on_rejected_nonce() {
    let mut nonces = NonceSet::new();
    nonces.insert([0x42u8; 16]);
    assert_eq!(TestHub::handshake(hello(0x42, 0xAB), &mut nonces).byte, 1);
}

#[test]
fn handshake_writes_nack_on_bad_length() {
    let mut nonces = NonceSet::new();
    let reply = TestHub::handshake(Outcome::TimedOut, &mut nonces);
    assert_eq!(reply.byte, 1);
    assert_eq!(reply.result.unwrap_err().message(), "connection failed: handshake timed out");
    let reply = TestHub::handshake(Outcome::Done(vec![0u8; 16]), &mut nonces);
    assert_eq!(reply.byte, 1);
    assert!(!nonces.contains(&[0u8; 16]));
}

#[test]
fn no_nonce_is_admitted_twice() {
    let mut nonces = NonceSet::new();
    let order = [1u8, 2, 1, 3, 2, 1, 3, 4];
    let mut admitted: Vec<u8> = Vec::new();
    for n in order {
        if TestHub::handshake(hello(n, n), &mut nonces).result.is_ok() {
            admitted.push(n);
        }
    }
    assert_eq!(admitted, vec![1, 2, 3, 4]);
}

// ── Hub::register_peer ──

#[test]
fn register_peer_adds_to_registry() {
    let mut reg = PeerRegistry::new();
    let _ = TestHub::register_peer(&mut reg, &PeerId("alice".into()), "alice", 5, Instant::now());
    assert_eq!(reg.len(), 1);
}

#[test]
fn register_peer_emits_peer_join_event() {
    let mut reg = PeerRegistry::new();
    let r = TestHub::register_peer(&mut reg, &PeerId("bob".into()), "bob", 5, Instant::now());
    match r.event {
        ChatEvent::PeerJoin(info) => {
            assert_eq!(info.id, PeerId("bob".into()));
            assert_eq!(info.name, "bob");
        }
        other => panic!("expected PeerJoin, got {other:?}"),
    }
    assert_eq!(r.notice.text, "bob joined");
    assert_eq!(r.notice.kind, MessageType::System);
}

// ── Hub::deregister_peer ──

#[test]
fn deregister_peer_removes_from_registry() {
    let mut reg = PeerRegistry::new();
    let _ = TestHub::register_peer(&mut reg, &PeerId("alice".into()), "alice", 5, Instant::now());
    assert_eq!(reg.len(), 1);

    let _ = TestHub::deregister_peer(&mut reg, &PeerId("alice".into()));
    assert_eq!(reg.len(), 0);
}

#[test]
fn deregister_peer_emits_peer_leave_event() {
    let mut reg = PeerRegistry::new();
    let _ = TestHub::register_peer(&mut reg, &PeerId("carol".into()), "carol", 5, Instant::now());
    let event = TestHub::deregister_peer(&mut reg, &PeerId("carol".into())).unwrap();
    assert!(matches!(event, ChatEvent::PeerLeave(_)));
    if let ChatEvent::PeerLeave(id) = event {
        assert_eq!(id, PeerId("carol".into()));
    }
}

#[test]
fn deregister_peer_deregistering_unknown_is_noop() {
    let mut reg: PeerRegistry<u32> = PeerRegistry::new();
    assert!(TestHub::deregister_peer(&mut reg, &PeerId("ghost".into())).is_none());
    assert_eq!(reg.len(), 0);
}

// ── Hub::reader_task ──

#[test]
fn reader_task_forwards_chat_message() {
    let read = FrameRead::Message(WireMessage::chat("alice", "hello"));
    match TestHub::reader_task(&PeerId("p".into()), read) {
        ReaderStep::Forward { from, message } => {
            assert_eq!(from, PeerId("p".into()));
            assert_eq!(message.kind, MessageType::Chat);
            assert_eq!(message.name, "alice");
            assert_eq!(message.text, "hello");
        }
        _ => panic!("expected the message to be forwarded"),
    }
}

#[test]
fn reader_task_responds_to_ping_with_pong() {
    let read = FrameRead::Message(WireMessage::ping());
    match TestHub::reader_task(&PeerId("p".into()), read) {
        ReaderStep::Reply(pong) => assert_eq!(pong.kind, MessageType::Pong),
        _ => panic!("expected a pong"),
    }
}

#[test]
fn reader_task_handles_eof_gracefully() {
    let gone = FrameRead::Broken(ChatError::Wire("header read failed: eof".into()));
    assert!(matches!(TestHub::reader_task(&PeerId("p".into()), gone), ReaderStep::Stop));
    assert!(matches!(
        TestHub::reader_task(&PeerId("p".into()), FrameRead::TimedOut),
        ReaderStep::Stop
    ));
}

#[test]
fn reader_task_stops_on_malformed_data() {
    let bad = FrameRead::Malformed(ChatError::Wire("json decode failed".into()));
    assert!(matches!(TestHub::reader_task(&PeerId("p".into()), bad), ReaderStep::Stop));
}

// ── Hub::writer_task ──

#[test]
fn writer_task_writes_from_broadcast_channel() {
    let event = ChatEvent::Message {
        from: PeerId("b".into()),
        name: "bob".into(),
        text: "hey".into(),
    };
    let message = TestHub::writer_task(&event).unwrap();
    assert_eq!(message.kind, MessageType::Chat);
    assert_eq!(message.name, "bob");
    assert_eq!(message.text, "hey");
    assert!(TestHub::writer_task(&ChatEvent::RoomClosed).is_none());
}

// ── HostedRoom and Hub ──

#[test]
fn launch_errors_are_named() {
    let text = |launch: Launch<u8, u8>| HostedRoom::new(launch, 80).err().unwrap().message();
    let e = || "x".to_string();
    assert_eq!(text(Launch::BadNickname(e())), "onion service error: invalid nickname: x");
    assert_eq!(text(Launch::BadConfig(e())), "onion service error: config build failed: x");
    assert_eq!(text(Launch::Failed(e())), "onion service error: launch failed: x");
    assert_eq!(text(Launch::Disabled), "onion service error: onion service disabled in config");
    assert_eq!(text(Launch::NoAddress), "onion service error: could not get onion address");
    assert_eq!(HostedRoom::<u8, u8>::nickname(17), "chat-room-17");
}

#[test]
fn hosted_room_lifecycle() {
    let mut r = room();
    assert!(r.is_running());
    assert_eq!(r.address(), "abc.onion");
    assert_eq!(r.port(), 80);
    assert!(matches!(
        r.ready_event(),
        ChatEvent::RoomReady { onion_address, port: 80 } if onion_address == "abc.onion"
    ));
    r.accept_peer().unwrap().push(8);
    assert_eq!(r.accept_peer().unwrap(), &vec![7, 8]);
    r.shutdown();
    r.shutdown();
    assert!(!r.is_running());
    assert_eq!(r.address(), "");
    assert_eq!(r.port(), 80);
    assert!(r.accept_peer().is_none());
}

#[test]
fn hub_runs_until_streams_end() {
    let mut hub: TestHub = Hub::new(room());
    let said = || Some((PeerId("p".into()), WireMessage::chat("alice", "hi")));
    assert!(hub.next_event(said()).is_none());
    hub.run();
    match hub.next_event(said()) {
        Some(ChatEvent::Message { from, name, text }) => {
            assert_eq!(from, PeerId("p".into()));
            assert_eq!(name, "alice");
            assert_eq!(text, "hi");
        }
        _ => panic!("expected a message"),
    }
    assert!(hub.next_event(None).is_none());
    assert_eq!(hub.accept_next(Some(3)), Some(3));
    assert!(hub.next_event(said()).is_some());
    let none: Option<u8> = None;
    assert!(hub.accept_next(none).is_none());
    assert!(hub.next_event(said()).is_none());
    assert_eq!(hub.address(), "abc.onion");
    assert_eq!(hub.port(), 80);
    assert_eq!(hub.peer_count(), 0);
    assert!(hub.peers().is_empty());
    hub.run();
    hub.shutdown();
    assert!(hub.next_event(said()).is_none());
    assert_eq!(hub.address(), "");
}

#[test]
fn hub_takes_a_peer_through_its_connection() {
    let mut hub: TestHub = Hub::new(room());
    let reply = hub.greet(hello(0x42, 0xAB));
    assert_eq!(reply.byte, 0);
    let (id, name) = reply.result.unwrap();
    assert_eq!(hub.greet(hello(0x42, 0xCD)).byte, 1);
    assert!(matches!(hub.enter(&id, &name, 9, Instant::now()).event, ChatEvent::PeerJoin(_)));
    assert_eq!(hub.peer_count(), 1);
    assert_eq!(hub.peers()[0].name, "peer-abababab");
    let list = hub.broadcast(b"frame");
    assert_eq!(list.len(), 1);
    assert_eq!(*list[0].tx, 9);
    assert!(matches!(hub.leave(&id), Some(ChatEvent::PeerLeave(gone)) if gone == id));
    assert!(hub.leave(&id).is_none());
    assert_eq!(hub.peer_count(), 0);
    assert!(hub.broadcast(b"frame").is_empty());
}
