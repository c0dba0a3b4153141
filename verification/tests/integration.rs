//! A hub and joiners, with queues of bytes in place of the network.

use std::time::Instant;

use ephemeral_chat::connection::{
    writer_step, BroadcastRead, ConnAction, ConnInput, Connection, WriterStep,
};
use ephemeral_chat::connector::mock::{MockAcceptor, MockTorConnector};
use ephemeral_chat::error::ChatError;
use ephemeral_chat::handshake::NonceSet;
use ephemeral_chat::hub::{HostedRoom, Launch};
use ephemeral_chat::io::Outcome;
use ephemeral_chat::joiner::{
    handle_incoming_frame, Handshake, Incoming, Joiner, JoinerLoop, LoopAction, LoopInput,
};
use ephemeral_chat::room::{
    host, join, Broadcast, HostInput, HostTask, JoinTask, RoomHandle,
};
use ephemeral_chat::types::{ChatEvent, HostConfig, JoinConfig, PeerId};
use ephemeral_chat::wire::{encode_message, received, FrameRead, WireMessage};

const ONION: &str = "vww6ybal6bd7szmgncyruucpgfkqahzddi37ktceo3ah7ngmcopnpyyd.onion";
const NOW: u64 = 1_700_000_000;

fn read(frame: &[u8]) -> FrameRead {
    let header: [u8; 4] = [frame[0], frame[1], frame[2], frame[3]];
    received(header, Ok(frame[4..].to_vec()))
}

struct Hub {
    handle: RoomHandle,
    task: HostTask,
    nonces: NonceSet,
    events: Vec<ChatEvent>,
    peers: Vec<Peer>,
}

/// Both ends of one connection.
struct Peer {
    room: RoomHandle,
    task: JoinTask,
    conn: Connection,
    id: PeerId,
    joiner: Joiner<u8>,
    state: JoinerLoop,
    events: Vec<ChatEvent>,
    result: Option<bool>,
}

impl Hub {
    fn new() -> Hub {
        Hub::with_ttl(300)
    }

    fn with_ttl(invite_ttl_secs: u64) -> Hub {
        let (mut handle, mut task) = host(HostConfig { name: "Host".to_string(), invite_ttl_secs });
        task.step(HostInput::Bootstrapped(true));
        task.step(HostInput::Client(true));
        let launch = Launch::Running { service: 0u8, address: ONION.to_string(), streams: 0u8 };
        let ready = task.opened(&mut handle, &HostedRoom::new(launch, 80)).unwrap();
        Hub { handle, task, nonces: NonceSet::new(), events: vec![ready], peers: vec![] }
    }

    fn code(&mut self, nonce: u8) -> String {
        self.handle.invite_at(None, [nonce; 16], NOW).unwrap()
    }

    fn join(&mut self, code: &str, name: &str, discriminator: u8) -> Result<usize, ChatError> {
        self.join_at(code, name, discriminator, NOW + 10)
    }

    /// A joiner comes with a code; what it reads in answer is returned.
    fn join_at(
        &mut self,
        code: &str,
        name: &str,
        discriminator: u8,
        now: u64,
    ) -> Result<usize, ChatError> {
        let (mut room, mut task) =
            join(JoinConfig { name: name.to_string(), invite_code: code.to_string() });
        assert!(task.bootstrapped(true));
        assert!(task.client(true).is_none());
        let mut tor = MockTorConnector::with_connect_result(Ok(1u8));
        let (code, name) = (task.invite_code(), task.name());
        let h = Joiner::connect_at(&mut tor, code, name, now, [discriminator; 16])?;
        let mut acceptor = MockAcceptor::new(vec![h.hello()]);
        let mut conn = Connection::new();
        let hello = acceptor.accept().unwrap();
        let input = ConnInput::Hello { read: Outcome::Done(hello), now };
        let byte = match conn.step(input, &mut self.handle, &mut self.nonces) {
            ConnAction::Answer(b) => b,
            ConnAction::Refuse { reply, .. } => {
                assert!(conn.is_closed());
                reply.unwrap()
            }
            _ => panic!("expected an answer"),
        };
        Handshake::<u8>::greeted(Outcome::Done(()), Outcome::Done(()))?;
        let name_message = h.answered(Outcome::Done(byte))?;
        let input = ConnInput::Answered { written: Outcome::Done(()), flushed: Outcome::Done(()) };
        let next = conn.step(input, &mut self.handle, &mut self.nonces);
        assert!(matches!(next, ConnAction::ReadName));
        let frame = encode_message(&name_message)?;
        let joined = h.named(Outcome::Done(()), Outcome::Done(()));
        let event = task.connected(&mut room, &joined, Instant::now()).unwrap();
        let mut joiner = joined?;
        let input = ConnInput::Named { read: read(&frame), joined_at: Instant::now() };
        let arrival = match conn.step(input, &mut self.handle, &mut self.nonces) {
            ConnAction::Welcome(a) => a,
            _ => panic!("expected a welcome"),
        };
        self.events.push(arrival.event);
        let (state, _stream) = joiner.run();
        let mut peer = Peer {
            room,
            task,
            conn,
            id: joiner.peer_id(),
            joiner,
            state,
            events: vec![event],
            result: None,
        };
        peer.receive(&arrival.notice);
        self.peers.push(peer);
        Ok(self.peers.len() - 1)
    }

    fn spread(&mut self, broadcast: &Broadcast) {
        for p in self.peers.iter_mut() {
            if p.conn.is_closed() {
                continue;
            }
            let step = writer_step(&p.id, BroadcastRead::Message(broadcast.clone()));
            if let WriterStep::Write(m) = step {
                p.receive(&m);
            }
        }
    }

    fn host_input(&mut self, input: HostInput) {
        let out = self.task.step(input);
        if let Some(ev) = out.event {
            self.events.push(ev);
        }
        if let Some(b) = out.broadcast {
            self.spread(&b);
        }
    }

    fn say(&mut self, text: &str) {
        let line = self.handle.send(text).unwrap();
        self.host_input(HostInput::Outgoing(Some(line)));
    }

    /// Feeds a peer's loop, and the hub with what the peer writes.
    fn peer_input(&mut self, i: usize, input: LoopInput) {
        let mut next = input;
        loop {
            let action = self.peers[i].state.step(next);
            match action {
                LoopAction::Wait => return,
                LoopAction::Write(m) => {
                    let frame = encode_message(&m).unwrap();
                    self.hub_reads(i, read(&frame));
                    next = LoopInput::Written(Ok(()));
                }
                LoopAction::Emit(ev) => {
                    self.peers[i].events.push(ev);
                    next = LoopInput::Emitted(true);
                }
                LoopAction::TakeQueued => next = LoopInput::Queued(None),
                LoopAction::Finish(result) => {
                    let peer = &mut self.peers[i];
                    peer.result = Some(result.is_ok());
                    let last = peer.task.disconnected(&mut peer.room, &peer.joiner, result);
                    peer.events.extend(last);
                    return;
                }
            }
        }
    }

    fn hub_reads(&mut self, i: usize, what: FrameRead) {
        let input = ConnInput::Read(what);
        let action = self.peers[i].conn.step(input, &mut self.handle, &mut self.nonces);
        self.conn_action(action);
    }

    fn conn_action(&mut self, action: ConnAction) {
        match action {
            ConnAction::Forward { from, message } => {
                self.host_input(HostInput::Incoming(Some((from, message))));
            }
            ConnAction::Farewell(departure) => {
                self.events.push(departure.event);
                self.spread(&departure.notice);
            }
            ConnAction::Nothing => {}
            _ => panic!("unexpected action"),
        }
    }

    fn peer_quits(&mut self, i: usize) {
        self.peer_input(i, LoopInput::Shutdown);
        self.peers[i].joiner.close();
        self.hub_reads(i, FrameRead::Broken(ChatError::Wire("header read failed: eof".into())));
    }

    fn quit(&mut self) {
        if !self.handle.quit() {
            return;
        }
        self.host_input(HostInput::Shutdown);
        for i in 0..self.peers.len() {
            let action =
                self.peers[i].conn.step(ConnInput::Shutdown, &mut self.handle, &mut self.nonces);
            self.conn_action(action);
            self.peer_input(i, LoopInput::ReaderDone);
        }
    }
}

impl Peer {
    fn receive(&mut self, m: &WireMessage) {
        let frame = encode_message(m).unwrap();
        if let Incoming::Event(ev) = handle_incoming_frame(read(&frame)) {
            self.events.push(ev);
        }
    }

    fn heard(&self, who: &str, what: &str) -> bool {
        heard(&self.events, who, what)
    }
}

fn heard(events: &[ChatEvent], who: &str, what: &str) -> bool {
    events
        .iter()
        .any(|e| matches!(e, ChatEvent::Message { name, text, .. } if name == who && text == what))
}

fn count(events: &[ChatEvent], what: &str) -> usize {
    events.iter().filter(|e| matches!(e, ChatEvent::Message { text, .. } if text == what)).count()
}

#[test]
fn integration_peer_join_fires() {
    let mut hub = Hub::new();
    let code = hub.code(1);
    let alice = hub.join(&code, "Alice", 7).ok().unwrap();
    assert!(hub.events.iter().any(|e| matches!(e, ChatEvent::RoomReady { .. })));
    assert!(hub
        .events
        .iter()
        .any(|e| matches!(e, ChatEvent::PeerJoin(info) if info.name == "Alice")));
    // The joiner sees itself join, and is told by the hub.
    assert!(hub.peers[alice]
        .events
        .iter()
        .any(|e| matches!(e, ChatEvent::PeerJoin(info) if info.name == "Alice")));
    assert_eq!(hub.peers[alice].room.peers().len(), 1);
    assert!(hub.peers[alice].heard("", "Alice joined"));
    assert_eq!(hub.handle.peers().len(), 1);
}

#[test]
fn integration_messages_flow_bidirectional() {
    let mut hub = Hub::new();
    let code = hub.code(1);
    let alice = hub.join(&code, "Alice", 7).ok().unwrap();
    hub.say("hello from host");
    assert!(hub.peers[alice].heard("Host", "hello from host"));
    hub.peer_input(alice, LoopInput::Outgoing("hello from joiner".to_string()));
    assert!(heard(&hub.events, "Alice", "hello from joiner"));
    assert!(hub.peers[alice].heard("Alice", "hello from joiner"));
}

#[test]
fn integration_peer_leave_on_joiner_quit() {
    let mut hub = Hub::new();
    let code = hub.code(1);
    let alice = hub.join(&code, "Alice", 7).ok().unwrap();
    let id = hub.peers[alice].id.clone();
    hub.peer_quits(alice);
    assert!(hub.events.iter().any(|e| matches!(e, ChatEvent::PeerLeave(gone) if *gone == id)));
    assert!(hub.handle.peers().is_empty());
    assert!(hub.peers[alice].result == Some(true));
    assert!(!hub.peers[alice].joiner.is_connected());
}

#[test]
fn integration_room_close_notifies_joiner() {
    let mut hub = Hub::new();
    let code = hub.code(1);
    let alice = hub.join(&code, "Alice", 7).ok().unwrap();
    hub.quit();
    hub.quit();
    assert!(hub.peers[alice].events.iter().any(|e| matches!(e, ChatEvent::RoomClosed)));
    assert!(hub.peers[alice].room.peers().is_empty());
    assert!(hub.events.iter().any(|e| matches!(e, ChatEvent::RoomClosed)));
    assert!(hub.peers[alice].result == Some(true));
    assert!(hub.handle.peers().is_empty());
    assert!(hub.handle.send("x").is_err());
}

#[test]
fn integration_host_send_message_no_peers() {
    let mut hub = Hub::new();
    hub.say("nobody here");
    assert!(heard(&hub.events, "Host", "nobody here"));
    hub.say("still alive");
    assert!(heard(&hub.events, "Host", "still alive"));
}

#[test]
fn fan_out_reaches_everybody_once() {
    let mut hub = Hub::new();
    let mut peers = Vec::new();
    for (i, name) in ["Alice", "Bob", "Carol"].iter().enumerate() {
        let code = hub.code(i as u8);
        peers.push(hub.join(&code, name, 10 + i as u8).ok().unwrap());
    }
    hub.peer_input(peers[0], LoopInput::Outgoing("hi all".to_string()));
    assert_eq!(count(&hub.events, "hi all"), 1);
    for p in &peers {
        // The sender shows its own message itself; it does not come back.
        assert_eq!(count(&hub.peers[*p].events, "hi all"), 1);
    }
    // Whoever leaves is missed by the others, and hears nothing more.
    hub.peer_quits(peers[1]);
    assert!(hub.peers[peers[0]].heard("", "Bob left"));
    assert!(hub.peers[peers[2]].heard("", "Bob left"));
    hub.say("after");
    assert!(!hub.peers[peers[1]].heard("Host", "after"));
    assert!(hub.peers[peers[2]].heard("Host", "after"));
}

#[test]
fn code_is_good_for_one_joiner() {
    let mut hub = Hub::new();
    let code = hub.code(1);
    hub.join(&code, "Alice", 7).ok().unwrap();
    let err = hub.join(&code, "Mallory", 8).err().unwrap();
    assert!(matches!(err, ChatError::NonceReused));
    assert_eq!(err.message(), "nonce already used");
    assert_eq!(hub.handle.peers().len(), 1);
    // Another code works.
    let code = hub.code(2);
    assert!(hub.join(&code, "Bob", 9).is_ok());
}

#[test]
fn pings_and_garbage_on_a_connection() {
    let mut hub = Hub::new();
    let code = hub.code(1);
    let alice = hub.join(&code, "Alice", 7).ok().unwrap();
    hub.hub_reads(alice, FrameRead::Message(WireMessage::ping()));
    assert_eq!(hub.handle.peers().len(), 1);
    hub.hub_reads(alice, FrameRead::Malformed(ChatError::Wire("x".into())));
    assert!(hub.handle.peers().is_empty());
    assert!(hub.peers[alice].conn.is_closed());
    // A closed connection does nothing any more.
    hub.hub_reads(alice, FrameRead::Message(WireMessage::chat("Alice", "ghost")));
    assert_eq!(count(&hub.events, "ghost"), 0);
}

#[test]
fn both_ends_agree_on_who_joined() {
    let mut hub = Hub::new();
    let code = hub.code(1);
    let alice = hub.join(&code, "Alice", 7).ok().unwrap();
    let listed = hub.handle.peers();
    assert_eq!(listed.len(), 1);
    assert_eq!(listed[0].id, hub.peers[alice].joiner.peer_id());
    assert_eq!(listed[0].name, hub.peers[alice].joiner.name());
    assert!(hub.nonces.contains(&[1; 16]));
}

#[test]
fn failed_handshakes_leave_no_trace() {
    let mut hub = Hub::new();
    let refuse = |hub: &mut Hub, inputs: Vec<ConnInput>| {
        let mut conn = Connection::new();
        let mut last = None;
        for i in inputs {
            last = Some(conn.step(i, &mut hub.handle, &mut hub.nonces));
        }
        assert!(conn.is_closed());
        match last {
            Some(ConnAction::Refuse { reply, error }) => (reply, error.message()),
            _ => panic!("expected a refusal"),
        }
    };
    let hello = |n: u8| ConnInput::Hello { read: Outcome::Done(vec![n; 32]), now: NOW };
    let done = || Outcome::Done(());
    assert_eq!(
        refuse(&mut hub, vec![ConnInput::Hello { read: Outcome::TimedOut, now: NOW }]),
        (None, "connection failed: handshake timed out".to_string())
    );
    assert_eq!(
        refuse(&mut hub, vec![ConnInput::Hello { read: Outcome::Done(vec![0; 3]), now: NOW }]),
        (Some(1), "invite code invalid: handshake wrong length".to_string())
    );
    let stuck = ConnInput::Answered { written: Outcome::TimedOut, flushed: done() };
    assert_eq!(
        refuse(&mut hub, vec![hello(1), stuck]),
        (None, "connection failed: handshake write timed out".to_string())
    );
    // The nonce is burned all the same.
    assert_eq!(
        refuse(&mut hub, vec![hello(1)]),
        (Some(2), "nonce already used".to_string())
    );
    let answered = ConnInput::Answered { written: done(), flushed: done() };
    let silent = ConnInput::Named { read: FrameRead::TimedOut, joined_at: Instant::now() };
    assert_eq!(
        refuse(&mut hub, vec![hello(2), answered, silent]),
        (None, "connection failed: handshake name read timed out".to_string())
    );
    assert!(hub.handle.peers().is_empty());
    assert_eq!(hub.events.len(), 1);
}

#[test]
fn room_decides_how_long_a_code_lives() {
    let mut hub = Hub::with_ttl(1);
    let code = hub.code(1);
    let err = hub.join_at(&code, "Alice", 7, NOW + 10).err().unwrap();
    assert!(matches!(err, ChatError::InviteExpired { timestamp: NOW }));
    assert!(hub.handle.peers().is_empty());
    // In time, the same code still works.
    assert!(hub.join_at(&code, "Alice", 7, NOW + 1).is_ok());

    let mut hub = Hub::with_ttl(600);
    let code = hub.code(1);
    assert!(hub.join_at(&code, "Alice", 7, NOW + 400).is_ok());
    let code = hub.code(2);
    assert!(hub.join_at(&code, "Bob", 8, NOW + 600).is_ok());
    let code = hub.code(3);
    assert!(hub.join_at(&code, "Carol", 9, NOW + 601).is_err());

    let mut hub = Hub::with_ttl(0);
    let code = hub.code(1);
    assert!(hub.join_at(&code, "Alice", 7, NOW + 86_400).is_ok());
}

#[test]
fn expired_code_is_named_to_the_hub() {
    let mut hub = Hub::with_ttl(60);
    hub.code(1);
    let hello = |now: u64| ConnInput::Hello { read: Outcome::Done(vec![1; 32]), now };
    let mut conn = Connection::new();
    match conn.step(hello(NOW + 61), &mut hub.handle, &mut hub.nonces) {
        ConnAction::Refuse { reply, error } => {
            assert_eq!(reply, Some(3));
            assert!(matches!(error, ChatError::InviteExpired { timestamp: NOW }));
        }
        _ => panic!("expected a refusal"),
    }
    assert!(conn.is_closed());
    assert!(!hub.nonces.contains(&[1; 16]));
    let mut conn = Connection::new();
    let answer = conn.step(hello(NOW + 60), &mut hub.handle, &mut hub.nonces);
    assert!(matches!(answer, ConnAction::Answer(0)));
}

#[test]
fn invite_suggests_a_name() {
    let mut hub = Hub::new();
    let code = hub.handle.invite_at(Some("Zoe"), [5; 16], NOW).unwrap();
    let zoe = hub.join(&code, "", 7).ok().unwrap();
    assert_eq!(hub.peers[zoe].joiner.name(), "Zoe");
    assert_eq!(hub.handle.peers()[0].name, "Zoe");
    let code = hub.handle.invite_at(Some("Zoe"), [6; 16], NOW).unwrap();
    let ann = hub.join(&code, "Ann", 8).ok().unwrap();
    assert_eq!(hub.peers[ann].joiner.name(), "Ann");
}
