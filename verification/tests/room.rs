use std::time::Instant;

use base58::{FromBase58, ToBase58};
use ephemeral_chat::bootstrap::{
    bootstrap_verdict, Progress, ProgressStream, TorBootstrap, Verdict,
};
use ephemeral_chat::error::ChatError;
use ephemeral_chat::factory::{RoomConfig, RoomFactory, RoomTask};
use ephemeral_chat::handshake::{hello_bytes, NonceSet};
use ephemeral_chat::hub::{HostedRoom, Launch, ReaderStep};
use ephemeral_chat::invite::decode;
use ephemeral_chat::io::Outcome;
use ephemeral_chat::joiner::Joiner;
use ephemeral_chat::connection::{
    hub_handshake, hub_handshake_answered, hub_handshake_name, hub_reader_task, keeps_writing,
    writer_step, BroadcastRead, WriterStep,
};
use ephemeral_chat::room::{
    accept_loop, host, join, AcceptInput, Broadcast, HostInput, HostTask, JoinTask, RoomHandle,
};
use ephemeral_chat::types::{ChatEvent, HostConfig, JoinConfig, PeerId, PeerInfo};
use ephemeral_chat::wire::{FrameRead, MessageType, WireMessage};

const ONION: &str = "vww6ybal6bd7szmgncyruucpgfkqahzddi37ktceo3ah7ngmcopnpyyd.onion";

fn config() -> HostConfig {
    HostConfig { name: "Host".to_string(), invite_ttl_secs: 300 }
}

fn launched() -> Result<HostedRoom<u8, u8>, ChatError> {
    let launch = Launch::Running { service: 1, address: ONION.to_string(), streams: 2 };
    HostedRoom::new(launch, 80)
}

fn launching() -> (RoomHandle, HostTask) {
    let (handle, mut task) = host(config());
    assert!(!task.step(HostInput::Bootstrapped(true)).stop);
    let out = task.step(HostInput::Client(true));
    assert!(out.event.is_none() && !out.stop);
    (handle, task)
}

fn serving() -> (RoomHandle, HostTask) {
    let (mut handle, mut task) = launching();
    task.opened(&mut handle, &launched()).unwrap();
    (handle, task)
}

fn connecting() -> (RoomHandle, JoinTask) {
    let (handle, mut task) = join(JoinConfig { name: "alice".into(), invite_code: "abc".into() });
    assert!(task.bootstrapped(true));
    assert!(task.client(true).is_none());
    (handle, task)
}

fn joiner_handle() -> RoomHandle {
    join(JoinConfig { name: "joiner".into(), invite_code: "abc".into() }).0
}

// ── handles ──────────────────────────────────────────────────────────────────

#[test]
fn room_handle_is_send_sync() {
    fn assert_send<T: Send>() {}
    fn assert_sync<T: Sync>() {}
    assert_send::<RoomHandle>();
    assert_sync::<RoomHandle>();
}

#[test]
fn quit_is_idempotent() {
    let (mut handle, _task) = host(config());
    assert!(handle.quit());
    assert!(!handle.quit());
    assert!(!handle.quit());
    assert!(handle.has_quit());
}

#[test]
fn send_after_quit_fails() {
    let (mut handle, _task) = host(config());
    assert_eq!(handle.send("hello").unwrap(), "hello");
    handle.quit();
    assert!(matches!(handle.send("hello"), Err(ChatError::ShuttingDown)));
    assert!(RoomHandle::queued(true).is_ok());
    assert!(matches!(RoomHandle::queued(false), Err(ChatError::ShuttingDown)));
}

#[test]
fn invite_on_joiner_fails() {
    let err = joiner_handle().invite(None).unwrap_err();
    assert_eq!(
        err.message(),
        "connection failed: invite generation only available on hub"
    );
}

#[test]
fn room_handle_methods_without_tor() {
    let (mut handle, _task) = host(HostConfig { name: "test".into(), invite_ttl_secs: 300 });

    // quit() should work even before room is ready
    handle.quit();
    assert!(handle.send("test").is_err(), "send after quit should fail");
    assert!(handle.invite(None).is_err(), "invite after quit should fail");
    assert!(handle.peers().is_empty(), "peers should be empty with no connections");
}

#[test]
fn room_handle_quit_idempotent() {
    let (mut handle, _task) = host(HostConfig { name: "test".into(), invite_ttl_secs: 300 });
    handle.quit();
    handle.quit();
    handle.quit();
    assert!(handle.send("test").is_err());
}

#[test]
fn host_config_and_join_config_exist() {
    let _hc = HostConfig { name: "test".into(), invite_ttl_secs: 300 };
    let _jc = JoinConfig { name: "test".into(), invite_code: "abc".into() };
    assert_eq!(_hc.clone().name, "test");
    assert_eq!(_jc.clone().invite_code, "abc");
}

#[test]
fn chat_event_variants_are_pub() {
    let _ = ChatEvent::Message {
        from: PeerId("a".into()),
        name: "alice".into(),
        text: "hi".into(),
    };
    let _ = ChatEvent::PeerJoin(PeerInfo {
        id: PeerId("b".into()),
        name: "bob".into(),
        joined_at: std::time::Instant::now(),
    });
    let _ = ChatEvent::PeerLeave(PeerId("c".into()));
    let _ = ChatEvent::BootstrapProgress(42);
    let _ = ChatEvent::RoomReady { onion_address: "x.onion".into(), port: 80 };
    let _ = ChatEvent::Error(ChatError::ShuttingDown);
}

#[test]
fn events_are_copied_whole() {
    let info = PeerInfo {
        id: PeerId("b".into()),
        name: "bob".into(),
        joined_at: Instant::now(),
    };
    let events = vec![
        ChatEvent::Message { from: PeerId("a".into()), name: "n".into(), text: "t".into() },
        ChatEvent::PeerJoin(info),
        ChatEvent::PeerLeave(PeerId("c".into())),
        ChatEvent::BootstrapProgress(42),
        ChatEvent::RoomReady { onion_address: "x.onion".into(), port: 80 },
        ChatEvent::InviteCreated { code: "z".into() },
        ChatEvent::RoomClosed,
        ChatEvent::Error(ChatError::NonceReused),
    ];
    for e in events {
        assert_eq!(format!("{:?}", e.clone()), format!("{:?}", e));
    }
    assert_eq!(PeerId("c".into()).display(), "c");
}

// ── factory ──────────────────────────────────────────────────────────────────

#[test]
fn room_config_is_clone_debug() {
    fn assert_clone_debug<T: Clone + std::fmt::Debug>() {}
    assert_clone_debug::<RoomConfig>();
}

#[test]
fn create_with_host_config_returns_handle_and_stream() {
    let config = RoomConfig::Host { name: "test-host".into(), invite_ttl_secs: 300 };
    let (handle, task) = RoomFactory::create(config.clone());
    assert!(!handle.has_quit());
    assert!(matches!(task, RoomTask::Host(_)));
}

#[test]
fn create_with_join_config_returns_handle_and_stream() {
    let (handle, task) = RoomFactory::create(RoomConfig::Join {
        name: "test-joiner".into(),
        invite_code: "dummy-code".into(),
    });
    assert!(handle.peers().is_empty());
    match task {
        RoomTask::Join(t) => {
            assert_eq!(t.name(), "test-joiner");
            assert_eq!(t.invite_code(), "dummy-code");
        }
        RoomTask::Host(_) => panic!("expected a joiner"),
    }
}

#[test]
fn factory_is_default() {
    let _ = RoomFactory::default();
}

// ── hosting ──────────────────────────────────────────────────────────────────

#[test]
fn e2e_host_starts_room_and_emits_room_ready() {
    let (mut handle, mut task) = host(HostConfig { name: "host".into(), invite_ttl_secs: 300 });
    let mut saw_bootstrap = false;
    let mut up = false;
    let mut progress = ProgressStream::new();
    for p in [Progress::Begun, Progress::Status(40), Progress::Finished(Ok(()))] {
        let event = progress.step(p).unwrap();
        saw_bootstrap = saw_bootstrap || matches!(event, ChatEvent::BootstrapProgress(100));
        up = bootstrap_verdict(&event) == Verdict::Ready;
    }
    assert!(saw_bootstrap, "missing bootstrap progress");
    assert!(!task.step(HostInput::Bootstrapped(up)).stop);
    assert!(!task.step(HostInput::Client(true)).stop);
    match task.opened(&mut handle, &launched()).unwrap() {
        ChatEvent::RoomReady { onion_address, port } => {
            assert!(onion_address.ends_with(".onion"));
            assert_eq!(port, 80);
        }
        other => panic!("expected RoomReady, got {other:?}"),
    }
}

#[test]
fn e2e_host_generates_valid_invite_code() {
    let (mut handle, _task) = serving();
    assert!(handle.can_invite(None));
    let code = handle.invite(None).unwrap();
    assert!(!code.is_empty());
    code.as_str().from_base58().unwrap();
    let payload = decode(&code, Some(300)).unwrap();
    assert_eq!(payload.onion_address, ONION);
    assert!(payload.timestamp > 0);
    assert_eq!(payload.suggested_name, None);
    // Codes are not reused.
    assert_ne!(code, handle.invite(None).unwrap());
}

#[test]
fn invite_code_is_exact() {
    let (mut handle, _task) = serving();
    let code = handle.invite_at(Some("bob"), [0x0F; 16], 5).unwrap();
    let text = format!("{}:{}:5:bob", ONION, "0f".repeat(16));
    assert_eq!(code, text.as_bytes().to_base58());
    let code = handle.invite_at(None, [0x0F; 16], 5).unwrap();
    let text = format!("{}:{}:5", ONION, "0f".repeat(16));
    assert_eq!(code, text.as_bytes().to_base58());
}

#[test]
fn issued_codes_are_remembered() {
    let (mut handle, _task) = serving();
    handle.invite_at(None, [1; 16], 1000).unwrap();
    handle.invite_at(None, [2; 16], 2000).unwrap();
    assert_eq!(handle.expired(&[1; 16], 1300), None);
    assert_eq!(handle.expired(&[1; 16], 1301), Some(1000));
    assert_eq!(handle.expired(&[2; 16], 1301), None);
    assert_eq!(handle.expired(&[2; 16], 2301), Some(2000));
    // Nothing is known of a code that was never given out.
    assert_eq!(handle.expired(&[3; 16], u64::MAX), None);
    // A code that could not be made is not remembered.
    let (mut handle, _task) = launching();
    assert!(handle.can_invite(None));
    assert!(handle.invite_at(None, [1; 16], 1000).is_err());
    assert_eq!(handle.expired(&[1; 16], u64::MAX), None);
}

#[test]
fn invite_to_a_room_with_a_bad_address_fails() {
    let (mut handle, mut task) = launching();
    let launch: Launch<u8, u8> =
        Launch::Running { service: 1, address: "abc.onion".to_string(), streams: 2 };
    task.opened(&mut handle, &HostedRoom::new(launch, 80)).unwrap();
    assert_eq!(
        handle.invite(None).unwrap_err().message(),
        "invite code invalid: address too short (9 chars)"
    );
}

#[test]
fn room_that_cannot_be_launched_waits_for_shutdown() {
    let (mut handle, mut task) = launching();
    let failed: Result<HostedRoom<u8, u8>, ChatError> = HostedRoom::new(Launch::Disabled, 80);
    match task.opened(&mut handle, &failed).unwrap() {
        ChatEvent::Error(e) => {
            assert_eq!(e.message(), "onion service error: onion service disabled in config")
        }
        other => panic!("expected an error, got {other:?}"),
    }
    assert!(handle.invite(None).is_err());
    let out = task.step(HostInput::Outgoing(Some("lost".to_string())));
    assert!(out.event.is_none() && out.broadcast.is_none() && !out.stop);
    let out = task.step(HostInput::Shutdown);
    assert!(matches!(out.event, Some(ChatEvent::RoomClosed)));
    assert!(out.stop);
    let out = task.step(HostInput::Shutdown);
    assert!(out.event.is_none() && !out.stop);
}

#[test]
fn hub_fans_out_to_all_others() {
    let (_handle, mut task) = serving();
    let peer = PeerId("a".into());
    let said = WireMessage::chat("alice", "hi");
    let out = task.step(HostInput::Incoming(Some((peer.clone(), said))));
    match out.event {
        Some(ChatEvent::Message { from, name, text }) => {
            assert_eq!(from, peer);
            assert_eq!(name, "alice");
            assert_eq!(text, "hi");
        }
        _ => panic!("expected a message"),
    }
    let b = out.broadcast.unwrap();
    let step = writer_step(&PeerId("b".into()), BroadcastRead::Message(b.clone()));
    match step {
        WriterStep::Write(m) => {
            assert_eq!(m.kind, MessageType::Chat);
            assert_eq!(m.name, "alice");
            assert_eq!(m.text, "hi");
        }
        _ => panic!("expected a write"),
    }
    assert!(matches!(writer_step(&peer, BroadcastRead::Message(b)), WriterStep::Skip));
}

#[test]
fn host_speaks_to_everybody() {
    let (_handle, mut task) = serving();
    let out = task.step(HostInput::Outgoing(Some("hello".to_string())));
    match out.event {
        Some(ChatEvent::Message { from, name, text }) => {
            assert_eq!(from, PeerId("[hub]".into()));
            assert_eq!(name, "Host");
            assert_eq!(text, "hello");
        }
        _ => panic!("expected a message"),
    }
    let b = out.broadcast.unwrap();
    assert!(b.except.is_none());
    assert_eq!(b.message.text, "hello");
    assert!(!out.stop);
}

#[test]
fn only_chat_is_relayed() {
    let (_handle, mut task) = serving();
    for m in [WireMessage::system("x"), WireMessage::ping(), WireMessage::pong()] {
        let out = task.step(HostInput::Incoming(Some((PeerId("a".into()), m))));
        assert!(out.event.is_none() && out.broadcast.is_none() && !out.stop);
    }
}

#[test]
fn host_loop_ends() {
    let (_, mut task) = serving();
    let out = task.step(HostInput::Shutdown);
    assert!(matches!(out.event, Some(ChatEvent::RoomClosed)));
    assert!(out.stop);
    let (_, mut task) = serving();
    assert!(task.step(HostInput::Outgoing(None)).stop);
    let (_, mut task) = serving();
    assert!(task.step(HostInput::Incoming(None)).stop);
    // Nothing happens before the room is open.
    let (mut handle, mut task) = host(config());
    assert!(!task.step(HostInput::Shutdown).stop);
    assert!(task.opened(&mut handle, &launched()).is_none());
    // Without Tor, it is over at once.
    let out = task.step(HostInput::Bootstrapped(false));
    assert!(out.stop && out.event.is_none());
}

#[test]
fn dropped_events_close_the_room() {
    for mut task in [host(config()).1, launching().1, serving().1] {
        let out = task.step(HostInput::EventsClosed);
        assert!(out.stop);
        assert!(out.event.is_none() && out.broadcast.is_none());
        // It stays closed.
        let out = task.step(HostInput::Outgoing(Some("x".to_string())));
        assert!(out.event.is_none() && out.broadcast.is_none() && !out.stop);
        assert!(!task.step(HostInput::EventsClosed).stop);
    }
}

#[test]
fn missing_client_is_an_error() {
    let (_handle, mut task) = launching();
    let out = task.step(HostInput::Client(false));
    assert!(out.stop);
    match out.event {
        Some(ChatEvent::Error(e)) => {
            assert_eq!(e.message(), "connection failed: Tor client not available")
        }
        _ => panic!("expected an error"),
    }
    let (_, mut task) = join(JoinConfig { name: "a".into(), invite_code: "b".into() });
    assert!(task.client(false).is_none());
    assert!(task.bootstrapped(true));
    assert!(matches!(task.client(false), Some(ChatEvent::Error(_))));
}

#[test]
fn accept_loop_closes_the_room() {
    let mut room = launched().ok().unwrap();
    assert_eq!(accept_loop(&mut room, AcceptInput::Stream(Some(5))), Some(5));
    assert!(room.is_running());
    let none: Option<u8> = None;
    assert_eq!(accept_loop(&mut room, AcceptInput::Stream(none)), None);
    assert!(!room.is_running());
    let mut room = launched().ok().unwrap();
    let shutdown: AcceptInput<u8> = AcceptInput::Shutdown;
    assert_eq!(accept_loop(&mut room, shutdown), None);
    assert_eq!(room.address(), "");
}

// ── peers ────────────────────────────────────────────────────────────────────

#[test]
fn peer_comes_and_goes() {
    let (mut handle, _task) = serving();
    let id = PeerId("p".into());
    let at = Instant::now();
    let arrival = handle.peer_joined(&id, "alice", at);
    match arrival.event {
        ChatEvent::PeerJoin(info) => {
            assert_eq!(info.id, id);
            assert_eq!(info.name, "alice");
            assert_eq!(info.joined_at, at);
        }
        other => panic!("expected PeerJoin, got {other:?}"),
    }
    assert_eq!(arrival.notice.text, "alice joined");
    assert_eq!(handle.peers().len(), 1);

    let departure = handle.peer_left(&id, "alice");
    assert!(matches!(departure.event, ChatEvent::PeerLeave(gone) if gone == id));
    assert_eq!(departure.notice.message.kind, MessageType::System);
    assert_eq!(departure.notice.message.text, "alice left");
    assert!(departure.notice.except.is_none());
    assert!(handle.peers().is_empty());
}

#[test]
fn hub_handshake_admits_and_rejects() {
    let mut nonces = NonceSet::new();
    let (handle, _task) = serving();
    let hello = || Outcome::Done(hello_bytes(&[1; 16], &[2; 16]));
    let step = hub_handshake(hello(), 1000, &handle, &mut nonces);
    assert_eq!(step.reply, Some(0));
    assert_eq!(step.result.unwrap(), PeerId([2u8; 16].to_base58()));
    let step = hub_handshake(hello(), 1000, &handle, &mut nonces);
    assert_eq!(step.reply, Some(2));
    assert!(matches!(step.result, Err(ChatError::NonceReused)));
    let step = hub_handshake(Outcome::Done(vec![0; 31]), 1000, &handle, &mut nonces);
    assert_eq!(step.reply, Some(1));
    assert_eq!(
        step.result.unwrap_err().message(),
        "invite code invalid: handshake wrong length"
    );
    let step = hub_handshake(Outcome::TimedOut, 1000, &handle, &mut nonces);
    assert_eq!(step.reply, None);
    assert_eq!(step.result.unwrap_err().message(), "connection failed: handshake timed out");
    let step = hub_handshake(Outcome::Failed("x".to_string()), 1000, &handle, &mut nonces);
    assert_eq!(step.reply, None);
    assert_eq!(step.result.unwrap_err().message(), "connection failed: handshake read: x");
    // A code that the room gave out is good for as long as the room says.
    let (mut handle, _task) = serving();
    handle.invite_at(None, [9; 16], 1000).unwrap();
    let hello = || Outcome::Done(hello_bytes(&[9; 16], &[2; 16]));
    let step = hub_handshake(hello(), 1301, &handle, &mut nonces);
    assert_eq!(step.reply, Some(3));
    assert!(matches!(step.result, Err(ChatError::InviteExpired { timestamp: 1000 })));
    assert_eq!(hub_handshake(hello(), 1300, &handle, &mut nonces).reply, Some(0));
}

#[test]
fn hub_handshake_goes_on_with_the_name() {
    let done = || Outcome::Done(());
    assert!(hub_handshake_answered(done(), done()).is_ok());
    let text = |w, f| hub_handshake_answered(w, f).unwrap_err().message();
    assert_eq!(text(Outcome::TimedOut, done()), "connection failed: handshake write timed out");
    assert_eq!(
        text(Outcome::Failed("x".to_string()), done()),
        "connection failed: handshake write: x"
    );
    assert_eq!(text(done(), Outcome::TimedOut), "connection failed: handshake flush timed out");
    assert_eq!(
        text(done(), Outcome::Failed("x".to_string())),
        "connection failed: handshake flush: x"
    );

    let name = |r| hub_handshake_name(r);
    assert_eq!(name(FrameRead::Message(WireMessage::system("alice"))).unwrap(), "alice");
    assert_eq!(
        name(FrameRead::TimedOut).unwrap_err().message(),
        "connection failed: handshake name read timed out"
    );
    assert_eq!(
        name(FrameRead::Broken(ChatError::Wire("eof".into()))).unwrap_err().message(),
        "connection failed: handshake name read: wire protocol error: eof"
    );
    assert_eq!(
        name(FrameRead::Malformed(ChatError::Wire("bad".into()))).unwrap_err().message(),
        "connection failed: handshake name decode: wire protocol error: bad"
    );
}

#[test]
fn hub_reader_passes_pings_over() {
    let id = PeerId("p".into());
    assert!(matches!(
        hub_reader_task(&id, FrameRead::Message(WireMessage::ping())),
        ReaderStep::Skip
    ));
    match hub_reader_task(&id, FrameRead::Message(WireMessage::chat("a", "b"))) {
        ReaderStep::Forward { from, message } => {
            assert_eq!(from, id);
            assert_eq!(message.text, "b");
        }
        _ => panic!("expected the message to be forwarded"),
    }
    let err = || ChatError::Wire("x".into());
    assert!(matches!(hub_reader_task(&id, FrameRead::TimedOut), ReaderStep::Stop));
    assert!(matches!(hub_reader_task(&id, FrameRead::Broken(err())), ReaderStep::Stop));
    assert!(matches!(hub_reader_task(&id, FrameRead::Malformed(err())), ReaderStep::Stop));
}

#[test]
fn writer_goes_on_until_it_runs_out_of_time() {
    let id = PeerId("p".into());
    assert!(matches!(writer_step(&id, BroadcastRead::Lagged), WriterStep::Skip));
    assert!(matches!(writer_step(&id, BroadcastRead::Closed), WriterStep::Stop));
    let b = Broadcast { message: WireMessage::ping(), except: None };
    assert!(matches!(writer_step(&id, BroadcastRead::Message(b)), WriterStep::Write(_)));
    let failed = || Outcome::Failed("x".to_string());
    assert!(keeps_writing(&Outcome::Done(()), &Outcome::Done(())));
    assert!(keeps_writing(&failed(), &failed()));
    assert!(!keeps_writing(&Outcome::TimedOut, &Outcome::Done(())));
    assert!(!keeps_writing(&Outcome::Done(()), &Outcome::TimedOut));
}

// ── joining ──────────────────────────────────────────────────────────────────

#[test]
fn joiner_enters_and_leaves() {
    let (mut handle, mut task) = connecting();
    assert_eq!(task.name(), "alice");
    let joined: Result<Joiner<u8>, ChatError> =
        Ok(Joiner::new_for_test(PeerId("p".into()), "alice".into()));
    let ev = task.connected(&mut handle, &joined, Instant::now()).unwrap();
    assert!(matches!(ev, ChatEvent::PeerJoin(info) if info.name == "alice"));
    assert_eq!(handle.peers()[0].id, PeerId("p".into()));
    assert!(task.connected(&mut handle, &joined, Instant::now()).is_none());

    let joiner = joined.ok().unwrap();
    let events = task.disconnected(&mut handle, &joiner, Ok(()));
    assert_eq!(events.len(), 1);
    assert!(matches!(events[0], ChatEvent::RoomClosed));
    assert!(handle.peers().is_empty());
    assert!(task.disconnected(&mut handle, &joiner, Ok(())).is_empty());
}

#[test]
fn joiner_tells_of_an_error_before_the_end() {
    let (mut handle, mut task) = connecting();
    let joined: Result<Joiner<u8>, ChatError> =
        Ok(Joiner::new_for_test(PeerId("p".into()), "alice".into()));
    task.connected(&mut handle, &joined, Instant::now()).unwrap();
    let joiner = joined.ok().unwrap();
    let events = task.disconnected(&mut handle, &joiner, Err(ChatError::ChannelClosed));
    assert_eq!(events.len(), 2);
    assert!(matches!(events[0], ChatEvent::Error(ChatError::ChannelClosed)));
    assert!(matches!(events[1], ChatEvent::RoomClosed));
}

#[test]
fn joiner_that_cannot_connect_stays_out() {
    let (mut handle, mut task) = connecting();
    let failed: Result<Joiner<u8>, ChatError> = Err(ChatError::NonceReused);
    let ev = task.connected(&mut handle, &failed, Instant::now()).unwrap();
    assert!(matches!(ev, ChatEvent::Error(ChatError::NonceReused)));
    assert!(handle.peers().is_empty());
    let joiner: Joiner<u8> = Joiner::new_for_test(PeerId("p".into()), "alice".into());
    assert!(task.disconnected(&mut handle, &joiner, Ok(())).is_empty());
    let (_, mut task) = join(JoinConfig { name: "a".into(), invite_code: "b".into() });
    assert!(!task.bootstrapped(false));
    assert!(!task.bootstrapped(true));
}

// ── bootstrap ────────────────────────────────────────────────────────────────

#[test]
fn bootstrap_lifecycle() {
    let mut tor: TorBootstrap<u8> = TorBootstrap::default();
    assert!(!tor.is_bootstrapped());
    assert_eq!(
        tor.client().unwrap_err().message(),
        "connection failed: client not bootstrapped"
    );
    assert_eq!(
        tor.client_arc().unwrap_err().message(),
        "connection failed: client not bootstrapped"
    );
    assert_eq!(
        tor.bootstrap(Err("x".to_string())).unwrap_err().message(),
        "connection failed: create client failed: x"
    );
    assert!(!tor.is_bootstrapped());
    tor.bootstrap(Ok(5)).unwrap();
    assert!(tor.is_bootstrapped());
    assert_eq!(*tor.client().unwrap(), 5);
    assert_eq!(*tor.client_arc().unwrap(), 5);
    assert_eq!(
        tor.bootstrap(Ok(6)).unwrap_err().message(),
        "connection failed: already bootstrapped"
    );
    assert_eq!(*tor.client().unwrap(), 5);
    tor.shutdown();
    tor.shutdown();
    assert!(!tor.is_bootstrapped());
    assert!(tor.client().is_err());
}

#[test]
fn bootstrap_progress_is_told() {
    let mut stream = ProgressStream::new();
    let ev = stream.step(Progress::Begun).unwrap();
    assert!(matches!(ev, ChatEvent::BootstrapProgress(0)));
    assert_eq!(bootstrap_verdict(&ev), Verdict::Waiting);
    let ev = stream.step(Progress::Status(42)).unwrap();
    assert!(matches!(ev, ChatEvent::BootstrapProgress(42)));
    let ev = stream.step(Progress::Status(255)).unwrap();
    assert!(matches!(ev, ChatEvent::BootstrapProgress(100)));
    assert!(!stream.is_over());
    let ev = stream.step(Progress::Finished(Ok(()))).unwrap();
    assert!(matches!(ev, ChatEvent::BootstrapProgress(100)));
    assert_eq!(bootstrap_verdict(&ev), Verdict::Ready);
    assert!(stream.is_over());

    let mut stream = ProgressStream::new();
    stream.step(Progress::Begun);
    let ev = stream.step(Progress::Finished(Err("x".to_string()))).unwrap();
    assert!(stream.is_over());
    assert_eq!(bootstrap_verdict(&ev), Verdict::Failed);
    match ev {
        ChatEvent::Error(e) => assert_eq!(e.message(), "connection failed: bootstrap failed: x"),
        other => panic!("expected an error, got {other:?}"),
    }
}

#[test]
fn bootstrap_events_come_in_order() {
    let mut stream = ProgressStream::new();
    // Nothing is told before it begins, and it begins once.
    assert!(stream.step(Progress::Status(10)).is_none());
    assert!(stream.step(Progress::Finished(Ok(()))).is_none());
    assert!(!stream.is_over());
    assert!(stream.step(Progress::Begun).is_some());
    assert!(stream.step(Progress::Begun).is_none());
    assert!(stream.step(Progress::Status(10)).is_some());
    assert!(stream.step(Progress::Finished(Ok(()))).is_some());
    // Nothing follows the end.
    assert!(stream.step(Progress::Status(10)).is_none());
    assert!(stream.step(Progress::Finished(Err("x".to_string()))).is_none());
    assert!(stream.step(Progress::Begun).is_none());
    assert!(stream.is_over());
}
