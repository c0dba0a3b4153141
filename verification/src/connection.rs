//! A peer's connection, on the hub's side.
//!
//! [`Connection`] takes a stream through its life: the greeting is answered, the peer
//! sends its name and enters the room, its messages are handed on, and at the end it
//! leaves the room. [`writer_step`] decides which broadcasts go to the peer meanwhile.
use std::time::Instant;

use vstd::prelude::*;
use vstd::utf8::*;

use crate::codec;
use crate::error::{connection_error, error_text, ChatError, ErrorView};
use crate::handshake;
use crate::handshake::{
    check_hello, NonceSet, ACCEPT, HANDSHAKE_LEN, REJECT_EXPIRED, REJECT_USED,
};
use crate::hub;
use crate::hub::{Arrival, ReaderStep, StepView};
use crate::invite;
use crate::invite::{array16, InviteView};
use crate::io;
use crate::io::{io_result, Outcome};
use crate::joiner;
use crate::joiner::{ActionView, HandshakeView, LoopInput, LoopView};
use crate::room;
use crate::room::{
    text_result, Broadcast, Departure, HostInput, HostPhase, HostView, RoomHandle, RoomView,
};
use crate::text;
use crate::types::{EventView, PeerId, PeerInfoView};
use crate::wire::{FrameRead, MessageType, WireMessage, WireView};

verus! {

// ---------------------------------------------------------------------------
// Handshake
// ---------------------------------------------------------------------------

/// The hub's answer to a greeting: the byte to write, if any, and the identifier of
/// an admitted peer or the reason why it is not.
pub struct HelloStep {
    pub reply: Option<u8>,
    pub result: Result<PeerId, ChatError>,
}

/// What a room makes of a greeting: one with a code that has outlived the room's time to
/// live is turned away as expired, and otherwise the nonce decides.
pub open spec fn room_admission(
    room: RoomView,
    used: Set<Seq<u8>>,
    hello: Seq<u8>,
    now: u64,
) -> Result<Seq<u8>, ErrorView> {
    let expired = room::expired_code(room, handshake::hello_nonce(hello), now);
    if hello.len() == HANDSHAKE_LEN && expired is Some {
        Err(ErrorView::InviteExpired { timestamp: expired.unwrap() })
    } else {
        handshake::admission(used, hello)
    }
}

/// The nonces that are used once a room answered a greeting.
pub open spec fn burned_by(
    room: RoomView,
    used: Set<Seq<u8>>,
    hello: Seq<u8>,
    now: u64,
) -> Set<Seq<u8>> {
    if room_admission(room, used, hello, now) is Ok {
        used.insert(handshake::hello_nonce(hello))
    } else {
        used
    }
}

/// Checks a greeting, and burns its nonce if the peer is admitted. Returns the
/// discriminator.
fn admit_hello(hello: &[u8], now: u64, handle: &RoomHandle, nonces: &mut NonceSet) -> (r: Result<
    [u8; 16],
    ChatError,
>)
    ensures
        final(nonces)@ == burned_by(handle@, old(nonces)@, hello@, now),
        match room_admission(handle@, old(nonces)@, hello@, now) {
            Ok(discriminator) => r matches Ok(d) && d@ == discriminator,
            Err(fault) => r matches Err(e) && e@ == fault,
        },
{
    if hello.len() == HANDSHAKE_LEN {
        let nonce = array16(&hello[0..16]);
        assert(nonce@ =~= handshake::hello_nonce(hello@));
        if let Some(timestamp) = handle.expired(&nonce, now) {
            return Err(ChatError::InviteExpired { timestamp });
        }
    }
    check_hello(hello, nonces)
}

/// Answers what was read of a greeting, at a time given in seconds since the Unix epoch.
/// A greeting that could not be read gets no answer.
pub fn hub_handshake(
    read: Outcome<Vec<u8>>,
    now: u64,
    handle: &RoomHandle,
    nonces: &mut NonceSet,
) -> (r: HelloStep)
    ensures
        match io::io_fault(read, "handshake timed out"@, "handshake read: "@) {
            Some(fault) => {
                &&& final(nonces)@ == old(nonces)@
                &&& r.reply is None
                &&& r.result matches Err(e) && e@ == fault
            },
            None => read matches Outcome::Done(hello) && {
                &&& final(nonces)@ == burned_by(handle@, old(nonces)@, hello@, now)
                &&& match room_admission(handle@, old(nonces)@, hello@, now) {
                    Err(fault) => r.reply == Some(handshake::refusal(fault)) && (
                    r.result matches Err(e) && e@ == fault),
                    Ok(d) => r.reply == Some(ACCEPT) && (r.result matches Ok(id) && id@
                        == codec::base58_text(d)),
                }
            },
        },
{
    match io_result(read, "handshake timed out", "handshake read: ") {
        Err(e) => HelloStep { reply: None, result: Err(e) },
        Ok(hello) => match admit_hello(hello.as_slice(), now, handle, nonces) {
            Err(e) => HelloStep { reply: Some(handshake::refusal_byte(&e)), result: Err(e) },
            Ok(d) => HelloStep { reply: Some(ACCEPT), result: Ok(handshake::peer_id(&d)) },
        },
    }
}

/// What went wrong when the answer was written and flushed, if anything.
pub open spec fn answer_fault(written: Outcome<()>, flushed: Outcome<()>) -> Option<ErrorView> {
    match io::io_fault(written, "handshake write timed out"@, "handshake write: "@) {
        Some(fault) => Some(fault),
        None => io::io_fault(flushed, "handshake flush timed out"@, "handshake flush: "@),
    }
}

/// After writing and flushing the answer that admits a peer.
pub fn hub_handshake_answered(written: Outcome<()>, flushed: Outcome<()>) -> (r: Result<
    (),
    ChatError,
>)
    ensures
        match answer_fault(written, flushed) {
            Some(fault) => r matches Err(e) && e@ == fault,
            None => r is Ok,
        },
{
    match io_result(written, "handshake write timed out", "handshake write: ") {
        Err(e) => Err(e),
        Ok(()) => io_result(flushed, "handshake flush timed out", "handshake flush: "),
    }
}

/// The name in the first message of an admitted peer, or why there is none.
pub open spec fn name_read(read: FrameRead) -> Result<Seq<char>, ErrorView> {
    match read {
        FrameRead::TimedOut => Err(ErrorView::Connection("handshake name read timed out"@)),
        FrameRead::Broken(e) => Err(
            ErrorView::Connection("handshake name read: "@ + error_text(e@)),
        ),
        FrameRead::Malformed(e) => Err(
            ErrorView::Connection("handshake name decode: "@ + error_text(e@)),
        ),
        FrameRead::Message(m) => Ok(m@.text),
    }
}

/// The name that an admitted peer sent as its first message.
pub fn hub_handshake_name(read: FrameRead) -> (r: Result<String, ChatError>)
    ensures
        text_result(r) == name_read(read),
{
    match read {
        FrameRead::TimedOut => Err(connection_error("handshake name read timed out")),
        FrameRead::Broken(e) => {
            let reason = e.message();
            Err(ChatError::Connection(text::concat2("handshake name read: ", reason.as_str())))
        },
        FrameRead::Malformed(e) => {
            let reason = e.message();
            Err(ChatError::Connection(text::concat2("handshake name decode: ", reason.as_str())))
        },
        FrameRead::Message(m) => Ok(m.text),
    }
}

/// What to do about what was read from a peer.
pub open spec fn message_step(id: Seq<char>, read: FrameRead) -> StepView {
    match read {
        FrameRead::Message(m) => if m.kind == MessageType::Ping {
            StepView::Skip
        } else {
            StepView::Forward { from: id, message: m@ }
        },
        _ => StepView::Stop,
    }
}

/// What to do about what was read from a peer. A ping is passed over, any other
/// message is handed on, and anything else ends the connection.
pub fn hub_reader_task(peer_id: &PeerId, read: FrameRead) -> (step: ReaderStep)
    ensures
        step@ == message_step(peer_id@, read),
{
    match read {
        FrameRead::Message(message) => {
            if message.kind == MessageType::Ping {
                ReaderStep::Skip
            } else {
                ReaderStep::Forward { from: peer_id.clone(), message }
            }
        },
        _ => ReaderStep::Stop,
    }
}

// ---------------------------------------------------------------------------
// Broadcasts
// ---------------------------------------------------------------------------

/// What came of waiting for the next broadcast.
pub enum BroadcastRead {
    /// A broadcast.
    Message(Broadcast),
    /// Some broadcasts were missed.
    Lagged,
    /// No more broadcasts will come.
    Closed,
}

/// What to do about a broadcast.
pub enum WriterStep {
    /// Write the message to the peer.
    Write(WireMessage),
    /// Go on waiting.
    Skip,
    /// Stop writing.
    Stop,
}

/// What a peer gets of a broadcast.
pub open spec fn delivered(b: room::BroadcastView, peer: Seq<char>) -> Option<WireView> {
    if room::addressed(b, peer) {
        Some(b.message)
    } else {
        None
    }
}

/// Decides what a peer's writer does about a broadcast.
pub fn writer_step(peer_id: &PeerId, read: BroadcastRead) -> (r: WriterStep)
    ensures
        match read {
            BroadcastRead::Message(b) => match delivered(b@, peer_id@) {
                Some(message) => r matches WriterStep::Write(m) && m@ == message,
                None => r is Skip,
            },
            BroadcastRead::Lagged => r is Skip,
            BroadcastRead::Closed => r is Stop,
        },
        match read {
            BroadcastRead::Message(b) => if b@.except == Some(peer_id@) {
                r is Skip
            } else {
                r matches WriterStep::Write(m) && m@ == b@.message
            },
            _ => true,
        },
{
    match read {
        BroadcastRead::Message(b) => {
            let spared = match &b.except {
                Some(id) => id.same(peer_id),
                None => false,
            };
            if spared {
                WriterStep::Skip
            } else {
                WriterStep::Write(b.message)
            }
        },
        BroadcastRead::Lagged => WriterStep::Skip,
        BroadcastRead::Closed => WriterStep::Stop,
    }
}

/// Whether a peer's writer goes on after writing and flushing a frame: only running
/// out of time stops it.
pub fn keeps_writing(written: &Outcome<()>, flushed: &Outcome<()>) -> (b: bool)
    ensures
        b == (!(*written is TimedOut) && !(*flushed is TimedOut)),
{
    match (written, flushed) {
        (Outcome::TimedOut, _) => false,
        (_, Outcome::TimedOut) => false,
        _ => true,
    }
}

// ---------------------------------------------------------------------------
// Lifecycle
// ---------------------------------------------------------------------------

/// Where a connection stands.
enum Phase {
    /// The peer has to greet.
    Greeting,
    /// The peer is told that it is admitted.
    Answering(PeerId),
    /// The peer has to send its name.
    Naming(PeerId),
    /// The peer is in the room.
    Open { id: PeerId, name: String },
    /// The connection is over.
    Closed,
}

/// Where a connection stands, with its texts as characters.
#[verifier::ext_equal]
pub enum PhaseView {
    Greeting,
    Answering(Seq<char>),
    Naming(Seq<char>),
    Open { id: Seq<char>, name: Seq<char> },
    Closed,
}

/// A peer's connection.
pub struct Connection {
    phase: Phase,
}

impl View for Connection {
    type V = PhaseView;

    closed spec fn view(&self) -> PhaseView {
        match self.phase {
            Phase::Greeting => PhaseView::Greeting,
            Phase::Answering(id) => PhaseView::Answering(id@),
            Phase::Naming(id) => PhaseView::Naming(id@),
            Phase::Open { id, name } => PhaseView::Open { id: id@, name: name@ },
            Phase::Closed => PhaseView::Closed,
        }
    }
}

/// What happened on a connection.
pub enum ConnInput {
    /// The greeting was read, or not, at a time in seconds since the Unix epoch.
    Hello { read: Outcome<Vec<u8>>, now: u64 },
    /// The answer was written and flushed, or not.
    Answered { written: Outcome<()>, flushed: Outcome<()> },
    /// The first message was read, or not; and when.
    Named { read: FrameRead, joined_at: Instant },
    /// The next message was read, or not.
    Read(FrameRead),
    /// The room is shutting down.
    Shutdown,
}

/// What to do about it.
pub enum ConnAction {
    /// Go on as before.
    Nothing,
    /// Write the byte and flush it.
    Answer(u8),
    /// Write the byte, if there is one, and give up.
    Refuse { reply: Option<u8>, error: ChatError },
    /// Read the first message.
    ReadName,
    /// Tell of the peer, and begin to read and write.
    Welcome(Arrival),
    /// Hand the message on, with its sender.
    Forward { from: PeerId, message: WireMessage },
    /// Tell that the peer has gone, and close the connection.
    Farewell(Departure),
}

/// A [`ConnAction`] with its texts as characters.
#[verifier::ext_equal]
pub enum ConnView {
    Nothing,
    Answer(u8),
    Refuse { reply: Option<u8>, error: ErrorView },
    ReadName,
    Welcome { event: EventView, notice: WireView },
    Forward { from: Seq<char>, message: WireView },
    Farewell { event: EventView, broadcast: room::BroadcastView },
}

impl View for ConnAction {
    type V = ConnView;

    open spec fn view(&self) -> ConnView {
        match self {
            ConnAction::Nothing => ConnView::Nothing,
            ConnAction::Answer(byte) => ConnView::Answer(*byte),
            ConnAction::Refuse { reply, error } => ConnView::Refuse {
                reply: *reply,
                error: error@,
            },
            ConnAction::ReadName => ConnView::ReadName,
            ConnAction::Welcome(arrival) => ConnView::Welcome {
                event: arrival.event@,
                notice: arrival.notice@,
            },
            ConnAction::Forward { from, message } => ConnView::Forward {
                from: from@,
                message: message@,
            },
            ConnAction::Farewell(departure) => ConnView::Farewell {
                event: departure.event@,
                broadcast: departure.notice@,
            },
        }
    }
}

/// A connection, with the room and the used nonces that it shares with others.
#[verifier::ext_equal]
pub struct ConnState {
    pub phase: PhaseView,
    pub room: RoomView,
    pub used: Set<Seq<u8>>,
}

/// The connection is given up.
pub open spec fn given_up(s: ConnState, reply: Option<u8>, error: ErrorView) -> (
    ConnState,
    ConnView,
) {
    (ConnState { phase: PhaseView::Closed, ..s }, ConnView::Refuse { reply, error })
}

/// The peer leaves the room.
pub open spec fn departed(s: ConnState, id: Seq<char>, name: Seq<char>) -> (ConnState, ConnView) {
    (
        ConnState {
            phase: PhaseView::Closed,
            room: RoomView { peers: s.room.peers.remove(id), ..s.room },
            ..s
        },
        ConnView::Farewell {
            event: EventView::PeerLeave(id),
            broadcast: room::BroadcastView {
                message: hub::notice_view(name, " left"@),
                except: None,
            },
        },
    )
}

/// What reading the greeting leads to.
pub open spec fn hello_step(s: ConnState, read: Outcome<Vec<u8>>, now: u64) -> (
    ConnState,
    ConnView,
) {
    match io::io_fault(read, "handshake timed out"@, "handshake read: "@) {
        Some(fault) => given_up(s, None, fault),
        None => {
            let hello = read->Done_0@;
            match room_admission(s.room, s.used, hello, now) {
                Err(fault) => given_up(s, Some(handshake::refusal(fault)), fault),
                Ok(d) => (
                    ConnState {
                        phase: PhaseView::Answering(codec::base58_text(d)),
                        used: burned_by(s.room, s.used, hello, now),
                        ..s
                    },
                    ConnView::Answer(ACCEPT),
                ),
            }
        },
    }
}

/// What writing the answer leads to.
pub open spec fn answered_step(
    s: ConnState,
    id: Seq<char>,
    written: Outcome<()>,
    flushed: Outcome<()>,
) -> (ConnState, ConnView) {
    match answer_fault(written, flushed) {
        Some(fault) => given_up(s, None, fault),
        None => (ConnState { phase: PhaseView::Naming(id), ..s }, ConnView::ReadName),
    }
}

/// What reading the name leads to: the peer enters the room.
pub open spec fn named_step(
    s: ConnState,
    id: Seq<char>,
    read: FrameRead,
    joined_at: Instant,
) -> (ConnState, ConnView) {
    match name_read(read) {
        Err(fault) => given_up(s, None, fault),
        Ok(name) => (
            ConnState {
                phase: PhaseView::Open { id, name },
                room: RoomView {
                    peers: s.room.peers.insert(id, hub::entry_of(name, joined_at, ())),
                    ..s.room
                },
                ..s
            },
            ConnView::Welcome {
                event: EventView::PeerJoin(PeerInfoView { id, name, joined_at }),
                notice: hub::notice_view(name, " joined"@),
            },
        ),
    }
}

/// What reading a message leads to.
pub open spec fn read_step(
    s: ConnState,
    id: Seq<char>,
    name: Seq<char>,
    read: FrameRead,
) -> (ConnState, ConnView) {
    match message_step(id, read) {
        StepView::Forward { from, message } => (s, ConnView::Forward { from, message }),
        StepView::Stop => departed(s, id, name),
        _ => (s, ConnView::Nothing),
    }
}

/// One step of a connection. Input that it is not waiting for changes nothing.
pub open spec fn conn_step(s: ConnState, input: ConnInput) -> (ConnState, ConnView) {
    match (s.phase, input) {
        (PhaseView::Greeting, ConnInput::Hello { read, now }) => hello_step(s, read, now),
        (PhaseView::Answering(id), ConnInput::Answered { written, flushed }) => answered_step(
            s,
            id,
            written,
            flushed,
        ),
        (PhaseView::Naming(id), ConnInput::Named { read, joined_at }) => named_step(
            s,
            id,
            read,
            joined_at,
        ),
        (PhaseView::Open { id, name }, ConnInput::Read(read)) => read_step(s, id, name, read),
        (PhaseView::Open { id, name }, ConnInput::Shutdown) => departed(s, id, name),
        _ => (s, ConnView::Nothing),
    }
}

impl Connection {
    /// A stream that was just accepted.
    pub fn new() -> (c: Self)
        ensures
            c@ == PhaseView::Greeting,
    {
        Connection { phase: Phase::Greeting }
    }

    /// Whether the connection is over.
    pub fn is_closed(&self) -> (b: bool)
        ensures
            b == (self@ == PhaseView::Closed),
    {
        matches!(self.phase, Phase::Closed)
    }

    /// Takes note of what happened, and says what to do about it.
    pub fn step(&mut self, input: ConnInput, handle: &mut RoomHandle, nonces: &mut NonceSet) -> (a:
        ConnAction)
        ensures
            (
                ConnState { phase: final(self)@, room: final(handle)@, used: final(nonces)@ },
                a@,
            ) == conn_step(
                ConnState { phase: old(self)@, room: old(handle)@, used: old(nonces)@ },
                input,
            ),
    {
        let mut phase = Phase::Closed;
        std::mem::swap(&mut phase, &mut self.phase);
        match (phase, input) {
            (Phase::Greeting, ConnInput::Hello { read, now }) => {
                let answer = hub_handshake(read, now, handle, nonces);
                match answer.result {
                    Err(error) => ConnAction::Refuse { reply: answer.reply, error },
                    Ok(id) => {
                        self.phase = Phase::Answering(id);
                        ConnAction::Answer(ACCEPT)
                    },
                }
            },
            (Phase::Answering(id), ConnInput::Answered { written, flushed }) => {
                match hub_handshake_answered(written, flushed) {
                    Err(error) => ConnAction::Refuse { reply: None, error },
                    Ok(()) => {
                        self.phase = Phase::Naming(id);
                        ConnAction::ReadName
                    },
                }
            },
            (Phase::Naming(id), ConnInput::Named { read, joined_at }) => {
                match hub_handshake_name(read) {
                    Err(error) => ConnAction::Refuse { reply: None, error },
                    Ok(name) => {
                        let arrival = handle.peer_joined(&id, name.as_str(), joined_at);
                        self.phase = Phase::Open { id, name };
                        ConnAction::Welcome(arrival)
                    },
                }
            },
            (Phase::Open { id, name }, ConnInput::Read(read)) => {
                match hub_reader_task(&id, read) {
                    ReaderStep::Forward { from, message } => {
                        self.phase = Phase::Open { id, name };
                        ConnAction::Forward { from, message }
                    },
                    ReaderStep::Stop => ConnAction::Farewell(
                        handle.peer_left(&id, name.as_str()),
                    ),
                    _ => {
                        self.phase = Phase::Open { id, name };
                        ConnAction::Nothing
                    },
                }
            },
            (Phase::Open { id, name }, ConnInput::Shutdown) => ConnAction::Farewell(
                handle.peer_left(&id, name.as_str()),
            ),
            (phase, _) => {
                self.phase = phase;
                ConnAction::Nothing
            },
        }
    }
}

// ---------------------------------------------------------------------------
// Laws
// ---------------------------------------------------------------------------

/// A peer that is turned away never enters the room, and its connection is over.
pub proof fn refused_peer_never_enters(s: ConnState, input: ConnInput)
    requires
        conn_step(s, input).1 is Refuse,
    ensures
        conn_step(s, input).0.room == s.room,
        conn_step(s, input).0.phase == PhaseView::Closed,
{
}

/// A used nonce is turned away with "nonce already used", unless its code has expired,
/// and the byte says which.
pub proof fn used_nonce_is_rejected(s: ConnState, hello: Vec<u8>, now: u64)
    requires
        s.phase == PhaseView::Greeting,
        hello@.len() == HANDSHAKE_LEN,
        s.used.contains(handshake::hello_nonce(hello@)),
    ensures
        conn_step(s, ConnInput::Hello { read: Outcome::Done(hello), now }) == (
            ConnState { phase: PhaseView::Closed, ..s },
            ConnView::Refuse {
                reply: match room::expired_code(
                    s.room,
                    handshake::hello_nonce(hello@),
                    now,
                ) {
                    Some(_) => Some(REJECT_EXPIRED),
                    None => Some(REJECT_USED),
                },
                error: match room::expired_code(
                    s.room,
                    handshake::hello_nonce(hello@),
                    now,
                ) {
                    Some(timestamp) => ErrorView::InviteExpired { timestamp },
                    None => ErrorView::NonceReused,
                },
            },
        ),
{
}

/// A joiner that is turned away learns why: that its code has expired, with the time at
/// which it was issued, or that it was used before. With a code that the room gave out,
/// both ends have the same reason.
pub proof fn refused_joiner_learns_why<S>(
    s: ConnState,
    h: HandshakeView<S>,
    hello: Vec<u8>,
    now: u64,
)
    requires
        s.phase == PhaseView::Greeting,
        h.nonce.len() == 16,
        h.discriminator.len() == 16,
        hello@ == joiner::greeting(h),
    ensures
        ({
            let action = conn_step(s, ConnInput::Hello { read: Outcome::Done(hello), now }).1;
            let expired = room::expired_code(s.room, h.nonce, now);
            if expired is None && !s.used.contains(h.nonce) {
                action == ConnView::Answer(ACCEPT) && joiner::answer(h, ACCEPT) is Ok
            } else {
                action matches ConnView::Refuse { reply: Some(byte), error } && {
                    &&& joiner::answer(h, byte) == Err::<WireView, ErrorView>(
                        if expired is Some {
                            ErrorView::InviteExpired { timestamp: h.timestamp }
                        } else {
                            ErrorView::NonceReused
                        },
                    )
                    &&& room::issue_time(s.room.issued, h.nonce) == Some(h.timestamp)
                        ==> joiner::answer(h, byte) == Err::<WireView, ErrorView>(error)
                }
            }
        }),
{
    assert(handshake::hello_nonce(hello@) =~= h.nonce);
}

/// The time to live of a room decides how long its codes live: a greeting with a code
/// that the room gave out is turned away as expired exactly if the time to live is not
/// zero and has run out since the code was given out. Until then only the nonce
/// decides.
pub proof fn time_to_live_decides(
    room: RoomView,
    used: Set<Seq<u8>>,
    nonce: Seq<u8>,
    discriminator: Seq<u8>,
    issued: u64,
    now: u64,
)
    requires
        room.invite is Some,
        room::issue_time(room.issued, nonce) == Some(issued),
        nonce.len() == 16,
        discriminator.len() == 16,
    ensures
        ({
            let ttl = room.invite.unwrap().ttl_secs;
            let r = room_admission(room, used, nonce + discriminator, now);
            &&& r == Err::<Seq<u8>, ErrorView>(ErrorView::InviteExpired { timestamp: issued })
                <==> ttl > 0 && now > issued + ttl
            &&& !(ttl > 0 && now > issued + ttl) ==> r == handshake::admission(
                used,
                nonce + discriminator,
            )
        }),
{
    assert(handshake::hello_nonce(nonce + discriminator) =~= nonce);
}

/// The code that a room gives out leads back to the room, within the time to live that
/// the room gives it: decoding it gives the room's address and the nonce, and a joiner
/// that greets the hub with that nonce, as the first one, is admitted.
pub proof fn room_code_opens_room(
    v: RoomView,
    name: Option<Seq<char>>,
    nonce: Seq<u8>,
    timestamp: u64,
    now: u64,
    used: Set<Seq<u8>>,
    discriminator: Seq<u8>,
)
    requires
        room::room_invite(v, name, nonce, timestamp) is Ok,
        nonce.len() == 16,
        discriminator.len() == 16,
        !v.invite.unwrap().onion_address.contains(':'),
        name != Some(Seq::<char>::empty()),
        encode_utf8(invite::invite_text(room_payload(v, name, nonce, timestamp))).len()
            <= codec::BASE58_LIMIT,
        !invite::from_the_future(timestamp, now),
        !invite::has_expired(timestamp, Some(v.invite.unwrap().ttl_secs), now),
        now <= timestamp + joiner::MAX_CODE_AGE_SECS,
        !used.contains(nonce),
    ensures
        ({
            let code = room::room_invite(v, name, nonce, timestamp)->Ok_0;
            let after = room::invited(v, name, nonce, timestamp);
            &&& invite::decoded_invite(code, Some(joiner::MAX_CODE_AGE_SECS), now) == Ok::<
                InviteView,
                ErrorView,
            >(room_payload(v, name, nonce, timestamp))
            &&& room_admission(after, used, nonce + discriminator, now) == Ok::<
                Seq<u8>,
                ErrorView,
            >(discriminator)
        }),
{
    invite::invite_round_trip(
        room_payload(v, name, nonce, timestamp),
        Some(joiner::MAX_CODE_AGE_SECS),
        now,
    );
    handshake::fresh_nonce_admitted(used, nonce, discriminator);
    assert(handshake::hello_nonce(nonce + discriminator) =~= nonce);
}

/// What is in the code that a room gives out.
pub open spec fn room_payload(
    v: RoomView,
    name: Option<Seq<char>>,
    nonce: Seq<u8>,
    timestamp: u64,
) -> InviteView {
    InviteView {
        onion_address: v.invite.unwrap().onion_address,
        nonce,
        timestamp,
        suggested_name: name,
    }
}

/// Once the time to live has run out, the code of a room is turned away as expired,
/// whether it was used or not.
pub proof fn room_code_expires(
    v: RoomView,
    name: Option<Seq<char>>,
    nonce: Seq<u8>,
    timestamp: u64,
    now: u64,
    used: Set<Seq<u8>>,
    discriminator: Seq<u8>,
)
    requires
        room::room_invite(v, name, nonce, timestamp) is Ok,
        nonce.len() == 16,
        discriminator.len() == 16,
        v.invite.unwrap().ttl_secs > 0,
        now > timestamp + v.invite.unwrap().ttl_secs,
    ensures
        room_admission(
            room::invited(v, name, nonce, timestamp),
            used,
            nonce + discriminator,
            now,
        ) == Err::<Seq<u8>, ErrorView>(ErrorView::InviteExpired { timestamp }),
{
    assert(handshake::hello_nonce(nonce + discriminator) =~= nonce);
}

/// Whether a connection's peer is in the room if the connection is open.
pub open spec fn open_is_listed(s: ConnState) -> bool {
    s.phase matches PhaseView::Open { id, name } ==> s.room.peers.contains_key(id)
        && s.room.peers[id].name == name
}

/// While a connection is open, its peer is in the room under its name; once it has
/// said farewell, it is not, and nobody else was touched.
pub proof fn open_connection_is_listed(s: ConnState, input: ConnInput)
    requires
        open_is_listed(s),
    ensures
        open_is_listed(conn_step(s, input).0),
        conn_step(s, input).1 matches ConnView::Farewell { event, .. } ==> (event
            matches EventView::PeerLeave(id) && conn_step(s, input).0.room.peers
            == s.room.peers.remove(id)),
        conn_step(s, input).1 matches ConnView::Welcome { event, .. } ==> (event
            matches EventView::PeerJoin(info) && conn_step(s, input).0.room.peers
            == s.room.peers.insert(info.id, hub::entry_of(info.name, info.joined_at, ()))),
{
}

/// Nonces that were used stay used, whatever happens on a connection.
pub proof fn nonces_stay_used(s: ConnState, input: ConnInput)
    ensures
        s.used.subset_of(conn_step(s, input).0.used),
{
}

/// A closed connection does nothing any more.
pub proof fn closed_is_final(s: ConnState, input: ConnInput)
    requires
        s.phase == PhaseView::Closed,
    ensures
        conn_step(s, input) == (s, ConnView::Nothing),
{
}

/// A connection after several things happened on it, one after the other.
pub open spec fn conn_run(s: ConnState, inputs: Seq<ConnInput>) -> ConnState
    decreases inputs.len(),
{
    if inputs.len() == 0 {
        s
    } else {
        conn_step(conn_run(s, inputs.drop_last()), inputs.last()).0
    }
}

/// Whether no greeting among the inputs is that of a peer which the room lists.
pub open spec fn greets_as_stranger(room: RoomView, inputs: Seq<ConnInput>) -> bool {
    forall|i: int|
        0 <= i < inputs.len() ==> (#[trigger] inputs[i] matches ConnInput::Hello { read: Outcome::Done(hello), .. }
            ==> !room.peers.contains_key(
            codec::base58_text(handshake::hello_discriminator(hello@)),
        ))
}

/// A connection leaves no trace in the room: whatever happened on it, once it is over
/// the list of peers is what it was before, and until its peer has given a name, too.
/// This holds where the peer's identifier was not listed before.
pub proof fn connection_leaves_no_trace(s: ConnState, inputs: Seq<ConnInput>)
    requires
        s.phase == PhaseView::Greeting,
        greets_as_stranger(s.room, inputs),
    ensures
        !(conn_run(s, inputs).phase is Open) ==> conn_run(s, inputs).room == s.room,
        conn_run(s, inputs).phase matches PhaseView::Open { id, name } ==> {
            &&& !s.room.peers.contains_key(id)
            &&& conn_run(s, inputs).room.peers.remove(id) == s.room.peers
            &&& conn_run(s, inputs).room.peers[id].name == name
        },
        conn_run(s, inputs).phase matches PhaseView::Answering(id)
            ==> !s.room.peers.contains_key(id),
        conn_run(s, inputs).phase matches PhaseView::Naming(id) ==> !s.room.peers.contains_key(id),
        conn_run(s, inputs).room == (RoomView {
            peers: conn_run(s, inputs).room.peers,
            ..s.room
        }),
    decreases inputs.len(),
{
    if inputs.len() > 0 {
        let done = inputs.drop_last();
        assert forall|i: int| 0 <= i < done.len() implies (
        #[trigger] done[i] matches ConnInput::Hello { read: Outcome::Done(hello), .. }
            ==> !s.room.peers.contains_key(
            codec::base58_text(handshake::hello_discriminator(hello@)),
        )) by {
            assert(done[i] == inputs[i]);
        }
        connection_leaves_no_trace(s, done);
        let before = conn_run(s, done);
        let input = inputs.last();
        assert(inputs[inputs.len() - 1] == input);
        match (before.phase, input) {
            (PhaseView::Naming(id), ConnInput::Named { read, joined_at }) => {
                if let Ok(name) = name_read(read) {
                    hub::register_deregister_restores(
                        s.room.peers,
                        id,
                        hub::entry_of(name, joined_at, ()),
                    );
                }
            },
            _ => {},
        }
    }
}

/// Both ends agree: a joiner that goes through the handshake with an unused nonce, whose
/// code has not expired, is admitted, and the hub lists it under the identifier and the
/// name that it has for itself. From then on its nonce is used.
pub proof fn both_ends_agree<S>(
    s: ConnState,
    h: HandshakeView<S>,
    hello: Vec<u8>,
    name: WireMessage,
    now: u64,
    joined_at: Instant,
)
    requires
        s.phase == PhaseView::Greeting,
        h.nonce.len() == 16,
        h.discriminator.len() == 16,
        !s.used.contains(h.nonce),
        room::expired_code(s.room, h.nonce, now) is None,
        hello@ == joiner::greeting(h),
        name@ == joiner::introduction(h),
    ensures
        ({
            let (s1, a1) = conn_step(s, ConnInput::Hello { read: Outcome::Done(hello), now });
            let (s2, a2) = conn_step(
                s1,
                ConnInput::Answered { written: Outcome::Done(()), flushed: Outcome::Done(()) },
            );
            let (s3, a3) = conn_step(
                s2,
                ConnInput::Named { read: FrameRead::Message(name), joined_at },
            );
            let joined = joiner::admitted(h);
            &&& a1 == ConnView::Answer(ACCEPT)
            &&& a2 == ConnView::ReadName
            &&& a3 is Welcome
            &&& s3.phase == (PhaseView::Open { id: joined.peer_id, name: joined.name })
            &&& s3.room.peers == s.room.peers.insert(
                joined.peer_id,
                hub::entry_of(joined.name, joined_at, ()),
            )
            &&& s3.used == s.used.insert(h.nonce)
        }),
{
    handshake::fresh_nonce_admitted(s.used, h.nonce, h.discriminator);
    assert(handshake::hello_nonce(hello@) =~= h.nonce);
}

/// A message crosses the room: what the user of a joiner writes is handed on by the
/// hub, is shown to the host under the joiner's identifier and name, and is delivered
/// unchanged to every other peer, who sees who wrote it; it does not come back.
pub proof fn message_crosses_room(
    writer: LoopView,
    text: String,
    sent: WireMessage,
    s: ConnState,
    from: PeerId,
    host: HostView,
    peer: Seq<char>,
)
    requires
        joiner::loop_step(writer, LoopInput::Outgoing(text)).1 == ActionView::Write(sent@),
        s.phase matches PhaseView::Open { id, .. } && id == from@,
        host.phase == HostPhase::Serving,
    ensures
        conn_step(s, ConnInput::Read(FrameRead::Message(sent))) == (
            s,
            ConnView::Forward { from: from@, message: sent@ },
        ),
        ({
            let (next, out) = room::host_step(host, HostInput::Incoming(Some((from, sent))));
            &&& next == host
            &&& out.event == Some(
                EventView::Message { from: from@, name: writer.name, text: text@ },
            )
            &&& out.broadcast matches Some(b) && delivered(b, peer) == if peer == from@ {
                None
            } else {
                Some(sent@)
            }
        }),
        joiner::shown(sent@) == (EventView::Message {
            from: writer.name,
            name: writer.name,
            text: text@,
        }),
{
}

/// A broadcast is delivered unchanged to every peer but the one that it spares, whatever
/// the message is, and to that one not at all.
pub proof fn broadcast_spares_only_one(b: room::BroadcastView, peer: Seq<char>)
    ensures
        b.except != Some(peer) ==> delivered(b, peer) == Some(b.message),
        b.except == Some(peer) ==> delivered(b, peer) is None,
{
}

/// What the host says is delivered to every peer, whoever it is, as a chat message under
/// the host's name, whatever is said.
pub proof fn host_is_heard_by_everybody(host: HostView, text: String, peer: Seq<char>)
    requires
        host.phase == HostPhase::Serving,
    ensures
        room::host_step(host, HostInput::Outgoing(Some(text))).1.broadcast matches Some(b)
            && delivered(b, peer) == Some(
            WireView { kind: MessageType::Chat, name: host.name, text: text@ },
        ),
{
}

/// What a peer says is delivered to every other peer as it was said, under the name that
/// it was said under.
pub proof fn peer_is_heard_by_everybody_else(
    host: HostView,
    from: PeerId,
    m: WireMessage,
    peer: Seq<char>,
)
    requires
        host.phase == HostPhase::Serving,
        m.kind == MessageType::Chat,
    ensures
        room::host_step(host, HostInput::Incoming(Some((from, m)))).1.broadcast matches Some(b)
            && delivered(b, peer) == if peer == from@ {
            None
        } else {
            Some(WireView { kind: MessageType::Chat, name: m@.name, text: m@.text })
        },
{
}

/// A greeting that could not be read is not answered, and the reason is given: that it
/// took too long, or what went wrong. Nothing else changes.
pub proof fn unread_greeting_is_not_answered(s: ConnState, reason: String, now: u64)
    requires
        s.phase == PhaseView::Greeting,
    ensures
        conn_step(s, ConnInput::Hello { read: Outcome::TimedOut, now }) == (
            ConnState { phase: PhaseView::Closed, ..s },
            ConnView::Refuse {
                reply: None,
                error: ErrorView::Connection("handshake timed out"@),
            },
        ),
        conn_step(s, ConnInput::Hello { read: Outcome::Failed(reason), now }) == (
            ConnState { phase: PhaseView::Closed, ..s },
            ConnView::Refuse {
                reply: None,
                error: ErrorView::Connection("handshake read: "@ + reason@),
            },
        ),
{
}

/// A greeting of the wrong length is turned away, and nothing else changes; one of the
/// right length, whose nonce is unused and whose code has not expired, is answered with
/// zero, its nonce is used from then on, and the peer is known by its discriminator.
pub proof fn greeting_is_answered(s: ConnState, hello: Vec<u8>, now: u64)
    requires
        s.phase == PhaseView::Greeting,
    ensures
        hello@.len() != 32 ==> conn_step(s, ConnInput::Hello { read: Outcome::Done(hello), now })
            == (
            ConnState { phase: PhaseView::Closed, ..s },
            ConnView::Refuse {
                reply: Some(1),
                error: ErrorView::InvalidInvite("handshake wrong length"@),
            },
        ),
        hello@.len() == 32 && !s.used.contains(hello@.subrange(0, 16)) && room::expired_code(
            s.room,
            hello@.subrange(0, 16),
            now,
        ) is None ==> conn_step(s, ConnInput::Hello { read: Outcome::Done(hello), now }) == (
            ConnState {
                phase: PhaseView::Answering(codec::base58_text(hello@.subrange(16, 32))),
                room: s.room,
                used: s.used.insert(hello@.subrange(0, 16)),
            },
            ConnView::Answer(0),
        ),
        hello@.len() == 32 && room::expired_code(s.room, hello@.subrange(0, 16), now) is Some
            ==> conn_step(s, ConnInput::Hello { read: Outcome::Done(hello), now }) == (
            ConnState { phase: PhaseView::Closed, ..s },
            ConnView::Refuse {
                reply: Some(3),
                error: ErrorView::InviteExpired {
                    timestamp: room::expired_code(
                        s.room,
                        hello@.subrange(0, 16),
                        now,
                    ).unwrap(),
                },
            },
        ),
        hello@.len() == 32 && room::expired_code(s.room, hello@.subrange(0, 16), now) is None
            && s.used.contains(hello@.subrange(0, 16)) ==> conn_step(
            s,
            ConnInput::Hello { read: Outcome::Done(hello), now },
        ) == (
            ConnState { phase: PhaseView::Closed, ..s },
            ConnView::Refuse { reply: Some(2), error: ErrorView::NonceReused },
        ),
{
}

/// What a room makes of a greeting, and which nonces are used then, is what its
/// connection acts on: it is judged by its length, then by the time to live of its code,
/// then by its nonce.
pub proof fn greeting_is_judged_in_order(
    v: RoomView,
    used: Set<Seq<u8>>,
    hello: Seq<u8>,
    now: u64,
)
    ensures
        hello.len() != 32 ==> room_admission(v, used, hello, now) == Err::<Seq<u8>, ErrorView>(
            ErrorView::InvalidInvite("handshake wrong length"@),
        ),
        hello.len() == 32 ==> match room::expired_code(v, hello.subrange(0, 16), now) {
            Some(timestamp) => room_admission(v, used, hello, now) == Err::<Seq<u8>, ErrorView>(
                ErrorView::InviteExpired { timestamp },
            ),
            None => room_admission(v, used, hello, now) == if used.contains(
                hello.subrange(0, 16),
            ) {
                Err::<Seq<u8>, ErrorView>(ErrorView::NonceReused)
            } else {
                Ok::<Seq<u8>, ErrorView>(hello.subrange(16, 32))
            },
        },
        room_admission(v, used, hello, now) is Ok ==> burned_by(v, used, hello, now)
            == used.insert(hello.subrange(0, 16)),
        room_admission(v, used, hello, now) is Err ==> burned_by(v, used, hello, now) == used,
{
}

/// Once the answer was written and flushed, the peer has to give its name; otherwise the
/// connection is given up, and the first thing that went wrong is the reason.
pub proof fn answer_goes_out(
    s: ConnState,
    id: Seq<char>,
    written: Outcome<()>,
    flushed: Outcome<()>,
)
    requires
        s.phase == PhaseView::Answering(id),
    ensures
        conn_step(s, ConnInput::Answered { written, flushed }) == match (written, flushed) {
            (Outcome::Done(_), Outcome::Done(_)) => (
                ConnState { phase: PhaseView::Naming(id), ..s },
                ConnView::ReadName,
            ),
            _ => (
                ConnState { phase: PhaseView::Closed, ..s },
                ConnView::Refuse {
                    reply: None,
                    error: ErrorView::Connection(
                        match (written, flushed) {
                            (Outcome::TimedOut, _) => "handshake write timed out"@,
                            (Outcome::Failed(reason), _) => "handshake write: "@ + reason@,
                            (_, Outcome::TimedOut) => "handshake flush timed out"@,
                            (_, Outcome::Failed(reason)) => "handshake flush: "@ + reason@,
                            _ => Seq::empty(),
                        },
                    ),
                },
            ),
        },
{
}

/// A peer that gives its name, in whatever message, enters the room under it: the host
/// sees it join, the peer is welcomed by name, and it is listed beside all others.
/// Without a name it does not enter, and nothing changes in the room.
pub proof fn named_peer_enters(
    s: ConnState,
    id: Seq<char>,
    m: WireMessage,
    e: ChatError,
    joined_at: Instant,
)
    requires
        s.phase == PhaseView::Naming(id),
    ensures
        ({
            let (next, action) = conn_step(
                s,
                ConnInput::Named { read: FrameRead::Message(m), joined_at },
            );
            &&& next.phase == (PhaseView::Open { id, name: m@.text })
            &&& next.used == s.used
            &&& next.room.peers.dom() == s.room.peers.dom().insert(id)
            &&& next.room.peers[id].name == m@.text
            &&& next.room.peers[id].joined_at == joined_at
            &&& forall|other: Seq<char>|
                other != id && #[trigger] s.room.peers.contains_key(other)
                    ==> next.room.peers[other] == s.room.peers[other]
            &&& next.room == (RoomView { peers: next.room.peers, ..s.room })
            &&& action == (ConnView::Welcome {
                event: EventView::PeerJoin(PeerInfoView { id, name: m@.text, joined_at }),
                notice: WireView {
                    kind: MessageType::System,
                    name: Seq::empty(),
                    text: m@.text + " joined"@,
                },
            })
        }),
        conn_step(s, ConnInput::Named { read: FrameRead::TimedOut, joined_at }) == (
            ConnState { phase: PhaseView::Closed, ..s },
            ConnView::Refuse {
                reply: None,
                error: ErrorView::Connection("handshake name read timed out"@),
            },
        ),
        conn_step(s, ConnInput::Named { read: FrameRead::Broken(e), joined_at }) == (
            ConnState { phase: PhaseView::Closed, ..s },
            ConnView::Refuse {
                reply: None,
                error: ErrorView::Connection("handshake name read: "@ + error_text(e@)),
            },
        ),
        conn_step(s, ConnInput::Named { read: FrameRead::Malformed(e), joined_at }) == (
            ConnState { phase: PhaseView::Closed, ..s },
            ConnView::Refuse {
                reply: None,
                error: ErrorView::Connection("handshake name decode: "@ + error_text(e@)),
            },
        ),
{
}

/// While a peer is in the room, every message of it but a ping is handed on unchanged
/// under its identifier, and a ping is passed over; neither changes anything.
pub proof fn messages_are_handed_on(
    s: ConnState,
    id: Seq<char>,
    name: Seq<char>,
    m: WireMessage,
)
    requires
        s.phase == (PhaseView::Open { id, name }),
    ensures
        conn_step(s, ConnInput::Read(FrameRead::Message(m))) == if m.kind == MessageType::Ping {
            (s, ConnView::Nothing)
        } else {
            (s, ConnView::Forward { from: id, message: m@ })
        },
{
}

/// A peer whose connection breaks, falls silent or brings garbage leaves the room, as all
/// do when the room shuts down: the host sees it go, every peer is told by name, it is not
/// listed any more, and the others still are.
pub proof fn gone_peer_is_missed(
    s: ConnState,
    id: Seq<char>,
    name: Seq<char>,
    input: ConnInput,
    peer: Seq<char>,
)
    requires
        s.phase == (PhaseView::Open { id, name }),
        input is Shutdown || (input matches ConnInput::Read(read) && !(read is Message)),
    ensures
        ({
            let (next, action) = conn_step(s, input);
            &&& next.phase == PhaseView::Closed
            &&& next.used == s.used
            &&& next.room == (RoomView { peers: s.room.peers.remove(id), ..s.room })
            &&& action matches ConnView::Farewell { event, broadcast } && event
                == EventView::PeerLeave(id) && delivered(broadcast, peer) == Some(
                WireView {
                    kind: MessageType::System,
                    name: Seq::empty(),
                    text: name + " left"@,
                },
            )
        }),
{
}

/// What a connection is not waiting for changes nothing.
pub proof fn untimely_input_is_ignored(s: ConnState, input: ConnInput)
    requires
        match s.phase {
            PhaseView::Greeting => !(input is Hello),
            PhaseView::Answering(_) => !(input is Answered),
            PhaseView::Naming(_) => !(input is Named),
            PhaseView::Open { .. } => !(input is Read) && !(input is Shutdown),
            PhaseView::Closed => true,
        },
    ensures
        conn_step(s, input) == (s, ConnView::Nothing),
{
}

/// What is asked for is seen as it is.
pub proof fn actions_are_seen_whole(
    byte: u8,
    reply: Option<u8>,
    error: ChatError,
    arrival: Arrival,
    from: PeerId,
    message: WireMessage,
    departure: Departure,
)
    ensures
        ConnAction::Nothing@ == ConnView::Nothing,
        ConnAction::Answer(byte)@ == ConnView::Answer(byte),
        (ConnAction::Refuse { reply, error })@ == (ConnView::Refuse { reply, error: error@ }),
        ConnAction::ReadName@ == ConnView::ReadName,
        ConnAction::Welcome(arrival)@ == (ConnView::Welcome {
            event: arrival.event@,
            notice: arrival.notice@,
        }),
        (ConnAction::Forward { from, message })@ == (ConnView::Forward {
            from: from@,
            message: message@,
        }),
        ConnAction::Farewell(departure)@ == (ConnView::Farewell {
            event: departure.event@,
            broadcast: departure.notice@,
        }),
{
}

} // verus!
