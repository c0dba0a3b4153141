use base58::ToBase58;
use ephemeral_chat::connector::mock::{MockAcceptor, MockTorConnector};
use ephemeral_chat::connector::TorConnector;
use ephemeral_chat::error::ChatError;
use ephemeral_chat::handshake::{
    check_hello, refusal_byte, refusal_error, NonceSet, REJECT, REJECT_EXPIRED, REJECT_USED,
};
use ephemeral_chat::invite::{encode, InvitePayload};
use ephemeral_chat::io::Outcome;
use ephemeral_chat::joiner::{
    handle_incoming_frame, Handshake, Incoming, Joiner, JoinerLoop, LoopAction, LoopInput,
    MAX_CODE_AGE_SECS,
};
use ephemeral_chat::types::{ChatEvent, PeerId};
use ephemeral_chat::wire::{FrameRead, MessageType, WireMessage};

const ONION: &str = "vww6ybal6bd7szmgncyruucpgfkqahzddi37ktceo3ah7ngmcopnpyyd.onion";

fn code(nonce: u8, timestamp: u64) -> String {
    let payload = InvitePayload {
        onion_address: ONION.into(),
        nonce: [nonce; 16],
        timestamp,
        suggested_name: None,
    };
    encode(&payload).unwrap()
}

fn now() -> u64 {
    chrono::Utc::now().timestamp() as u64
}

fn make_joiner() -> Joiner<u8> {
    Joiner::new_for_test(PeerId("test".into()), "test".into())
}

fn accepted(mock: &mut MockTorConnector<u8>, name: &str) -> Handshake<u8> {
    Joiner::connect_at(mock, &code(0xAB, 1000), name, 1000, [0x11; 16]).ok().unwrap()
}

/// Feeds the loop with an input, and with what follows from it, until it waits or is
/// over.
fn feed(
    state: &mut JoinerLoop,
    input: LoopInput,
    queue: &mut Vec<String>,
    events: &mut Vec<ChatEvent>,
    written: &mut Vec<WireMessage>,
    capacity: usize,
) -> Option<Result<(), ChatError>> {
    let mut next = input;
    loop {
        match state.step(next) {
            LoopAction::Wait => return None,
            LoopAction::Write(m) => {
                written.push(m);
                next = LoopInput::Written(Ok(()));
            }
            LoopAction::Emit(event) => {
                let room = events.len() < capacity;
                if room {
                    events.push(event);
                }
                next = LoopInput::Emitted(room);
            }
            LoopAction::TakeQueued => {
                next = LoopInput::Queued(if queue.is_empty() {
                    None
                } else {
                    Some(queue.remove(0))
                });
            }
            LoopAction::Finish(result) => return Some(result),
        }
    }
}

/// Runs a joiner without a stream: messages one by one, then the end, with some
/// messages still queued.
fn run(
    joiner: &mut Joiner<u8>,
    messages: &[&str],
    queued: &[&str],
    end: LoopInput,
    capacity: usize,
) -> (Result<(), ChatError>, Vec<ChatEvent>) {
    let (mut state, _stream) = joiner.run();
    let mut queue: Vec<String> = queued.iter().map(|s| s.to_string()).collect();
    let mut events = Vec::new();
    let mut written = Vec::new();
    for m in messages {
        let input = LoopInput::Outgoing(m.to_string());
        assert!(feed(&mut state, input, &mut queue, &mut events, &mut written, capacity).is_none());
    }
    let result = feed(&mut state, end, &mut queue, &mut events, &mut written, capacity);
    (result.unwrap(), events)
}

fn texts(events: &[ChatEvent]) -> Vec<String> {
    events
        .iter()
        .map(|e| match e {
            ChatEvent::Message { text, .. } => text.clone(),
            other => panic!("expected a message, got {other:?}"),
        })
        .collect()
}

// ── close / drop ─────────────────────────────────────────────────────────────

#[test]
fn joiner_close_is_idempotent() {
    let mut j = make_joiner();
    j.close();
    j.close();
    assert!(!j.is_connected());
}

#[test]
fn joiner_drop_calls_close() {
    drop(make_joiner());
}

#[test]
fn joiner_integration_close_is_idempotent() {
    let mut j = make_joiner();
    j.close();
    j.close();
}

#[test]
fn joiner_integration_drop_calls_close() {
    drop(make_joiner());
}

// ── handshake: accept / reject ───────────────────────────────────────────────

#[test]
fn handshake_accept_returns_peer_id() {
    let mut mock = MockTorConnector::with_connect_result(Ok(9));
    let mut h = accepted(&mut mock, "alice");
    assert_eq!(*h.stream(), 9);
    assert_eq!(h.hello().len(), 32);
    Handshake::<u8>::greeted(Outcome::Done(()), Outcome::Done(())).unwrap();
    let name = h.answered(Outcome::Done(0)).unwrap();
    assert_eq!(name.kind, MessageType::System);
    assert_eq!(name.text, "alice");
    let joiner = h.named(Outcome::Done(()), Outcome::Done(())).ok().unwrap();
    assert_eq!(joiner.peer_id(), PeerId([0x11u8; 16].to_base58()));
    assert!(!joiner.peer_id().0.is_empty());
    assert_eq!(joiner.name(), "alice");
    assert!(joiner.is_connected());
}

#[test]
fn handshake_reject_returns_error() {
    let mut mock = MockTorConnector::with_connect_result(Ok(9));
    let h = accepted(&mut mock, "alice");
    let result = h.answered(Outcome::Done(1));
    assert!(result.is_err());
    assert!(result.unwrap_err().message().contains("rejected"));
}

#[test]
fn refused_joiner_is_told_why() {
    let mut mock = MockTorConnector::with_connect_result(Ok(9));
    let h = accepted(&mut mock, "alice");
    assert!(matches!(h.answered(Outcome::Done(REJECT_USED)), Err(ChatError::NonceReused)));
    let expired = h.answered(Outcome::Done(REJECT_EXPIRED));
    assert!(matches!(expired, Err(ChatError::InviteExpired { timestamp: 1000 })));
    // Any other byte turns away without a reason.
    for byte in [REJECT, 4, 255] {
        assert_eq!(
            h.answered(Outcome::Done(byte)).unwrap_err().message(),
            "connection failed: handshake rejected by hub"
        );
    }
    let reasons = [
        (ChatError::NonceReused, REJECT_USED),
        (ChatError::InviteExpired { timestamp: 5 }, REJECT_EXPIRED),
        (ChatError::InvalidInvite("x".into()), REJECT),
    ];
    for (reason, byte) in reasons {
        assert_eq!(refusal_byte(&reason), byte);
        if byte != REJECT {
            assert_eq!(refusal_error(byte, 5).message(), reason.message());
        }
    }
}

#[test]
fn handshake_failures_are_named() {
    let failed = || Outcome::Failed("x".to_string());
    let greeted = |w, f| Handshake::<u8>::greeted(w, f).unwrap_err().message();
    let done = || Outcome::Done(());
    assert_eq!(greeted(Outcome::TimedOut, done()), "connection failed: handshake write timed out");
    assert_eq!(greeted(failed(), done()), "connection failed: handshake write: x");
    assert_eq!(greeted(done(), Outcome::TimedOut), "connection failed: handshake flush timed out");
    assert_eq!(greeted(done(), failed()), "connection failed: handshake flush: x");

    let mut mock = MockTorConnector::with_connect_result(Ok(9));
    let h = accepted(&mut mock, "alice");
    let read = |o| h.answered(o).unwrap_err().message();
    assert_eq!(read(Outcome::TimedOut), "connection failed: handshake read timed out");
    assert_eq!(read(Outcome::Failed("x".to_string())), "connection failed: handshake read: x");

    let named = |w, f| {
        let mut mock = MockTorConnector::with_connect_result(Ok(9));
        accepted(&mut mock, "alice").named(w, f).err().unwrap().message()
    };
    assert_eq!(named(Outcome::TimedOut, done()), "connection failed: handshake name write timed out");
    assert_eq!(named(failed(), done()), "connection failed: handshake name write: x");
    assert_eq!(named(done(), Outcome::TimedOut), "connection failed: handshake name flush timed out");
    assert_eq!(named(done(), failed()), "connection failed: handshake name flush: x");
}

#[test]
fn hello_presents_the_nonce_of_the_invite_once() {
    let mut nonces = NonceSet::new();
    let greet = |discriminator: u8| {
        let mut mock = MockTorConnector::with_connect_result(Ok(9));
        let code = code(0xAB, 1000);
        let h = Joiner::connect_at(&mut mock, &code, "a", 1000, [discriminator; 16]);
        h.ok().unwrap().hello()
    };
    let first = greet(1);
    assert_eq!(&first[..16], &[0xAB; 16]);
    assert_eq!(&first[16..], &[1; 16]);
    assert_eq!(check_hello(&first, &mut nonces).unwrap(), [1; 16]);
    let err = check_hello(&greet(2), &mut nonces).unwrap_err();
    assert_eq!(err.message(), "nonce already used");
}

// ── connect ──────────────────────────────────────────────────────────────────

#[test]
fn joiner_connect_rejects_empty_invite() {
    let mut mock: MockTorConnector<u8> = MockTorConnector::new();
    let result = Joiner::connect(&mut mock, "", "alice");
    assert!(result.is_err());
    assert_eq!(mock.call_count(), 0);
    assert!(mock.last_target().is_none());
}

#[test]
fn joiner_connect_rejects_garbage_invite() {
    let mut mock: MockTorConnector<u8> = MockTorConnector::new();
    let result = Joiner::connect(&mut mock, "!!!not-base58!!!", "alice");
    assert!(result.is_err());
    assert_eq!(mock.call_count(), 0);
}

#[test]
fn joiner_connect_rejects_truncated_invite() {
    let mut mock: MockTorConnector<u8> = MockTorConnector::new();
    let result = Joiner::connect(&mut mock, "abc", "alice");
    assert!(result.is_err());
    assert_eq!(mock.call_count(), 0);
}

#[test]
fn joiner_connect_rejects_expired_invite() {
    let code = code(0x42, 1_700_000_000);
    let mut mock: MockTorConnector<u8> = MockTorConnector::new();
    let result = Joiner::connect(&mut mock, &code, "alice");
    assert!(matches!(result.err(), Some(ChatError::InviteExpired { timestamp: 1_700_000_000 })));
    assert_eq!(mock.call_count(), 0);
}

#[test]
fn joiner_leaves_the_life_of_a_code_to_the_room() {
    let join = |age: u64| {
        let mut mock = MockTorConnector::with_connect_result(Ok(9u8));
        let r = Joiner::connect_at(&mut mock, &code(0x42, 1000), "alice", 1000 + age, [1; 16]);
        (r.err().map(|e| e.message()), mock.call_count())
    };
    assert_eq!(join(400), (None, 1));
    assert_eq!(join(86_400), (None, 1));
    assert_eq!(join(MAX_CODE_AGE_SECS), (None, 1));
    // Only a code that is older than any that is still in use is not tried at all.
    let refused = Some("invite expired (issued at 1000)".to_string());
    assert_eq!(join(MAX_CODE_AGE_SECS + 1), (refused, 0));
}

#[test]
fn joiner_without_a_name_takes_the_suggested_one() {
    let name = |given: &str, suggested: Option<&str>| {
        let payload = InvitePayload {
            onion_address: ONION.into(),
            nonce: [7; 16],
            timestamp: 1000,
            suggested_name: suggested.map(|s| s.to_string()),
        };
        let mut mock = MockTorConnector::with_connect_result(Ok(9u8));
        let code = encode(&payload).unwrap();
        let h = Joiner::connect_at(&mut mock, &code, given, 1000, [1; 16]).ok().unwrap();
        let said = h.answered(Outcome::Done(0)).unwrap().text;
        let joiner = h.named(Outcome::Done(()), Outcome::Done(())).ok().unwrap();
        assert_eq!(joiner.name(), said);
        said
    };
    assert_eq!(name("", Some("zoe")), "zoe");
    assert_eq!(name("ann", Some("zoe")), "ann");
    assert_eq!(name("ann", None), "ann");
    assert_eq!(name("", None), "");
}

#[test]
fn code_that_overruns_the_decoder_is_refused() {
    let mut mock: MockTorConnector<u8> = MockTorConnector::new();
    let result = Joiner::connect(&mut mock, &"1".repeat(200), "alice");
    assert_eq!(
        result.err().unwrap().message(),
        "invite code invalid: bad base58: InvalidBase58Length"
    );
    assert_eq!(mock.call_count(), 0);
}

#[test]
fn joiner_connect_rejects_invite_with_bad_onion_address() {
    // Address ends with .onion but is far too short (real v3 is 56 chars).
    let raw = "short.onion:00000000000000000000000000000000:1700000000";
    let code = raw.as_bytes().to_base58();

    let mut mock: MockTorConnector<u8> = MockTorConnector::new();
    let result = Joiner::connect(&mut mock, &code, "alice");
    assert!(result.is_err());
    assert_eq!(mock.call_count(), 0);
}

#[test]
fn joiner_connect_calls_tor_with_correct_target() {
    let code = code(0xAB, now());
    let mut mock: MockTorConnector<u8> = MockTorConnector::new();
    let _ = Joiner::connect(&mut mock, &code, "alice");
    assert_eq!(mock.call_count(), 1);
    let (addr, port) = mock.last_target().unwrap();
    assert_eq!(addr, ONION);
    assert_eq!(port, 80);
}

#[test]
fn joiner_connect_propagates_tor_error() {
    let code = code(0xAB, now());
    let down = ChatError::Connection("network down".into());
    let mut mock: MockTorConnector<u8> = MockTorConnector::with_connect_result(Err(down));
    let result = Joiner::connect(&mut mock, &code, "alice");
    assert_eq!(result.err().unwrap().message(), "connection failed: network down");
}

#[test]
fn discriminators_are_drawn_anew() {
    let code = code(0xAB, now());
    let hello = || {
        let mut mock = MockTorConnector::with_connect_result(Ok(9u8));
        Joiner::connect(&mut mock, &code, "alice").ok().unwrap().hello()
    };
    let (a, b) = (hello(), hello());
    assert_eq!(&a[..16], &b[..16]);
    assert_ne!(&a[16..], &b[16..]);
}

#[test]
fn mock_hands_its_result_out_once() {
    let mut mock: MockTorConnector<u8> = MockTorConnector::default();
    assert_eq!(
        mock.connect("a", 1).unwrap_err().message(),
        "connection failed: mock: connect not configured"
    );
    assert_eq!(
        mock.connect("b", 2).unwrap_err().message(),
        "connection failed: mock: result consumed"
    );
    assert_eq!(mock.call_count(), 2);
    assert_eq!(mock.last_target(), Some(("b".to_string(), 2)));
}

#[test]
fn mock_acceptor_keeps_the_order() {
    let mut acceptor = MockAcceptor::new(vec![1, 2]);
    assert_eq!(acceptor.accept(), Some(1));
    assert_eq!(acceptor.accept(), Some(2));
    assert_eq!(acceptor.accept(), None);
    assert_eq!(acceptor.accept(), None);
}

// ── run ──────────────────────────────────────────────────────────────────────

#[test]
fn joiner_run_exits_on_immediate_shutdown() {
    let (result, events) = run(&mut make_joiner(), &[], &[], LoopInput::Shutdown, 16);
    assert!(result.is_ok());
    assert!(events.is_empty());
}

#[test]
fn joiner_run_exits_when_message_channel_closes() {
    let (result, _) = run(&mut make_joiner(), &[], &[], LoopInput::MessagesClosed, 16);
    assert!(result.is_ok());
}

#[test]
fn joiner_run_exits_when_event_receiver_dropped() {
    let (result, _) = run(&mut make_joiner(), &[], &[], LoopInput::EventsClosed, 16);
    assert_eq!(
        result.unwrap_err().message(),
        "connection failed: event receiver dropped"
    );
}

#[test]
fn joiner_run_exits_when_the_hub_is_gone() {
    let (result, events) = run(&mut make_joiner(), &["a"], &["b"], LoopInput::ReaderDone, 16);
    assert!(result.is_ok());
    assert_eq!(texts(&events), vec!["a", "b"]);
}

#[test]
fn run_forwards_messages_to_events() {
    let (result, events) = run(&mut make_joiner(), &["hello"], &[], LoopInput::Shutdown, 16);
    result.unwrap();
    assert!(events
        .iter()
        .any(|e| matches!(e, ChatEvent::Message { text, .. } if text == "hello")));
}

#[test]
fn run_forwards_multiple_messages_in_order() {
    let messages = ["first", "second", "third"];
    let (result, events) = run(&mut make_joiner(), &messages, &[], LoopInput::Shutdown, 16);
    result.unwrap();
    assert_eq!(texts(&events), vec!["first", "second", "third"]);
}

#[test]
fn run_forwards_messages_in_order() {
    let mut j = Joiner::new_for_test(PeerId("p1".into()), "alice".into());
    let (result, events) = run(&mut j, &["first"], &["second", "third"], LoopInput::Shutdown, 16);
    result.unwrap();
    assert_eq!(texts(&events), vec!["first", "second", "third"]);
}

#[test]
fn joiner_run_handles_empty_message() {
    let (_, events) = run(&mut make_joiner(), &[""], &[], LoopInput::Shutdown, 16);
    assert_eq!(texts(&events), vec![""]);
}

#[test]
fn joiner_run_handles_unicode_message() {
    let (_, events) = run(&mut make_joiner(), &["你好 🌍"], &[], LoopInput::Shutdown, 16);
    assert_eq!(texts(&events), vec!["你好 🌍"]);
}

#[test]
fn run_handles_long_message() {
    let long = "x".repeat(8192);
    let (_, events) = run(&mut make_joiner(), &[&long], &[], LoopInput::Shutdown, 16);
    assert_eq!(texts(&events)[0].len(), 8192);
}

#[test]
fn run_shutdown_while_message_in_flight() {
    let (result, events) = run(&mut make_joiner(), &[], &["in-flight"], LoopInput::Shutdown, 16);
    assert!(result.is_ok());
    assert_eq!(texts(&events), vec!["in-flight"]);
}

#[test]
fn run_rapid_message_then_shutdown() {
    let all: Vec<String> = (0..50).map(|i| format!("msg-{i}")).collect();
    let refs: Vec<&str> = all.iter().map(|s| s.as_str()).collect();
    let (result, events) =
        run(&mut make_joiner(), &refs[..34], &refs[34..], LoopInput::Shutdown, 64);
    result.unwrap();
    assert_eq!(texts(&events), all);
}

#[test]
fn run_emits_correct_peer_name() {
    let mut j = Joiner::new_for_test(PeerId("peer-abc".into()), "alice".into());
    let (_, events) = run(&mut j, &["hi"], &[], LoopInput::Shutdown, 16);
    match &events[0] {
        ChatEvent::Message { from, name, text } => {
            assert_eq!(from, &PeerId("peer-abc".into()));
            assert_eq!(name, "alice");
            assert_eq!(text, "hi");
        }
        other => panic!("expected a message, got {other:?}"),
    }
}

#[test]
fn run_emits_peer_name_in_events() {
    let mut j = Joiner::new_for_test(PeerId("p1".into()), "alice".into());
    let (_, events) = run(&mut j, &["hi"], &[], LoopInput::Shutdown, 16);
    assert!(matches!(&events[0], ChatEvent::Message { name, .. } if name == "alice"));
}

#[test]
fn held_back_events_are_shown_at_the_end() {
    // Room for one event at first, and for all of them later.
    let (mut state, _) = make_joiner().run();
    let mut queue = Vec::new();
    let mut events = Vec::new();
    let mut written = Vec::new();
    for m in ["a", "b", "c"] {
        let input = LoopInput::Outgoing(m.to_string());
        assert!(feed(&mut state, input, &mut queue, &mut events, &mut written, 1).is_none());
    }
    assert_eq!(texts(&events), vec!["a"]);
    let end = feed(&mut state, LoopInput::Shutdown, &mut queue, &mut events, &mut written, 9);
    assert!(end.unwrap().is_ok());
    assert_eq!(texts(&events), vec!["a", "b", "c"]);
    assert!(written.is_empty());
}

#[test]
fn no_event_overtakes_another() {
    let (mut state, _) = make_joiner().run();
    let said = |s: &str| LoopInput::Outgoing(s.to_string());
    let offered = |a: LoopAction| match a {
        LoopAction::Emit(ChatEvent::Message { text, .. }) => text,
        _ => panic!("expected an event"),
    };
    assert_eq!(offered(state.step(said("a"))), "a");
    assert!(matches!(state.step(LoopInput::Emitted(false)), LoopAction::Wait));
    // What was held back is offered first, and the new event behind it.
    assert_eq!(offered(state.step(said("b"))), "a");
    assert!(matches!(state.step(LoopInput::Emitted(false)), LoopAction::Wait));
    assert_eq!(offered(state.step(said("c"))), "a");
    assert_eq!(offered(state.step(LoopInput::Emitted(true))), "b");
    assert_eq!(offered(state.step(LoopInput::Emitted(true))), "c");
    assert!(matches!(state.step(LoopInput::Emitted(false)), LoopAction::Wait));
    // Messages that were queued before the end come behind it, too.
    assert!(matches!(state.step(LoopInput::Shutdown), LoopAction::TakeQueued));
    assert_eq!(offered(state.step(LoopInput::Queued(Some("d".to_string())))), "c");
    assert!(matches!(state.step(LoopInput::Emitted(false)), LoopAction::TakeQueued));
    assert_eq!(offered(state.step(LoopInput::Queued(None))), "c");
    assert_eq!(offered(state.step(LoopInput::Emitted(true))), "d");
    assert!(matches!(state.step(LoopInput::Emitted(true)), LoopAction::Finish(Ok(()))));
}

#[test]
fn events_without_room_are_dropped_at_the_end() {
    let (result, events) =
        run(&mut make_joiner(), &["a", "b", "c"], &["d"], LoopInput::MessagesClosed, 2);
    assert!(result.is_ok());
    assert_eq!(texts(&events), vec!["a", "b"]);
}

#[test]
fn connected_joiner_writes_before_it_shows() {
    let mut mock = MockTorConnector::with_connect_result(Ok(9));
    let h = accepted(&mut mock, "alice");
    let mut j = h.named(Outcome::Done(()), Outcome::Done(())).ok().unwrap();
    let (mut state, stream) = j.run();
    assert_eq!(stream, Some(9));
    assert!(!j.is_connected());
    match state.step(LoopInput::Outgoing("hi".to_string())) {
        LoopAction::Write(m) => {
            assert_eq!(m.kind, MessageType::Chat);
            assert_eq!(m.name, "alice");
            assert_eq!(m.text, "hi");
        }
        _ => panic!("expected a write"),
    }
    // Nothing but the outcome of the write matters now.
    assert!(matches!(state.step(LoopInput::Shutdown), LoopAction::Wait));
    assert!(matches!(state.step(LoopInput::Written(Ok(()))), LoopAction::Emit(_)));
    assert!(matches!(state.step(LoopInput::Emitted(true)), LoopAction::Wait));
    // A message that cannot be written ends the loop.
    assert!(matches!(state.step(LoopInput::Outgoing("x".to_string())), LoopAction::Write(_)));
    let err = ChatError::Connection("write timed out".into());
    match state.step(LoopInput::Written(Err(err))) {
        LoopAction::Finish(Err(e)) => assert_eq!(e.message(), "connection failed: write timed out"),
        _ => panic!("expected the end"),
    }
    assert!(matches!(state.step(LoopInput::Shutdown), LoopAction::Wait));
}

#[test]
fn incoming_frames_are_sorted() {
    match handle_incoming_frame(FrameRead::Message(WireMessage::chat("bob", "hey"))) {
        Incoming::Event(ChatEvent::Message { from, name, text }) => {
            assert_eq!(from, PeerId("bob".into()));
            assert_eq!(name, "bob");
            assert_eq!(text, "hey");
        }
        _ => panic!("expected an event"),
    }
    let err = || ChatError::Wire("x".into());
    assert!(matches!(handle_incoming_frame(FrameRead::Malformed(err())), Incoming::Skip));
    assert!(matches!(handle_incoming_frame(FrameRead::Broken(err())), Incoming::Stop));
    assert!(matches!(handle_incoming_frame(FrameRead::TimedOut), Incoming::Stop));
}
