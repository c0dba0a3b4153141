//! Joiner: connects to a hosted onion service via Tor.
//!
//! Pre-condition: Tor is already bootstrapped.
//!
//! [`Joiner::connect`] decodes the invite, opens a stream to the room and prepares
//! the handshake. The steps of [`Handshake`] decide on the outcome of each write
//! and read, and end in a [`Joiner`]. [`Joiner::run`] gives the [`JoinerLoop`],
//! which decides what happens to each message until the connection ends.
use vstd::prelude::*;

use crate::codec;
use crate::connector::TorConnector;
use crate::error::{connection_error, ChatError, ErrorView};
use crate::handshake;
use crate::handshake::{hello_bytes, ACCEPT, HANDSHAKE_LEN};
use crate::invite;
use crate::invite::{decode_at, InvitePayload};
use crate::io;
use crate::io::{io_result, Outcome};
use crate::system;
use crate::types;
use crate::types::{ChatEvent, EventView, PeerId};
use crate::wire;
use crate::wire::{FrameRead, MessageType, WireMessage, WireView};

verus! {

/// A code that was issued longer ago than this, in seconds, is not tried any more: no
/// room is up for so long. How long a code lives within that time is up to the room
/// that gave it out.
pub const MAX_CODE_AGE_SECS: u64 = 2_592_000;

/// The port on which rooms listen.
pub const ROOM_PORT: u16 = 80;

/// A peer of a room, with the stream that connects it.
pub struct Joiner<S> {
    stream: Option<S>,
    peer_id: PeerId,
    name: String,
}

/// The state of a [`Joiner`].
#[verifier::ext_equal]
pub struct JoinerView<S> {
    pub stream: Option<S>,
    pub peer_id: Seq<char>,
    pub name: Seq<char>,
}

impl<S> View for Joiner<S> {
    type V = JoinerView<S>;

    closed spec fn view(&self) -> JoinerView<S> {
        JoinerView { stream: self.stream, peer_id: self.peer_id@, name: self.name@ }
    }
}

/// A connection whose handshake is under way.
pub struct Handshake<S> {
    stream: S,
    nonce: [u8; 16],
    discriminator: [u8; 16],
    timestamp: u64,
    name: String,
}

/// The state of a [`Handshake`].
#[verifier::ext_equal]
pub struct HandshakeView<S> {
    pub stream: S,
    pub nonce: Seq<u8>,
    pub discriminator: Seq<u8>,
    /// When the invite was issued.
    pub timestamp: u64,
    pub name: Seq<char>,
}

impl<S> View for Handshake<S> {
    type V = HandshakeView<S>;

    closed spec fn view(&self) -> HandshakeView<S> {
        HandshakeView {
            stream: self.stream,
            nonce: self.nonce@,
            discriminator: self.discriminator@,
            timestamp: self.timestamp,
            name: self.name@,
        }
    }
}

/// The 32 bytes with which a handshake begins.
pub open spec fn greeting<S>(h: HandshakeView<S>) -> Seq<u8> {
    h.nonce + h.discriminator
}

/// The message with which an accepted peer gives its name.
pub open spec fn introduction<S>(h: HandshakeView<S>) -> WireView {
    WireView { kind: MessageType::System, name: Seq::empty(), text: h.name }
}

/// What the hub's answer leads to: an accepted peer gives its name, and any other learns
/// why it was turned away.
pub open spec fn answer<S>(h: HandshakeView<S>, byte: u8) -> Result<WireView, ErrorView> {
    if byte == ACCEPT {
        Ok(introduction(h))
    } else {
        Err(handshake::refused(byte, h.timestamp))
    }
}

/// The joiner that a completed handshake makes.
pub open spec fn admitted<S>(h: HandshakeView<S>) -> JoinerView<S> {
    JoinerView {
        stream: Some(h.stream),
        peer_id: codec::base58_text(h.discriminator),
        name: h.name,
    }
}

/// The name under which a joiner enters: its own, or else the one that the invite
/// suggests.
pub open spec fn chosen_name(name: Seq<char>, v: invite::InviteView) -> Seq<char> {
    if name.len() > 0 {
        name
    } else {
        invite::shown_name(v)
    }
}

/// Whether a connector was asked for the room that an invite names, and for nothing
/// where the invite is refused, and what came of it.
pub open spec fn dialled<S, C: TorConnector<Stream = S>>(
    r: Result<Handshake<S>, ChatError>,
    before: C,
    after: C,
    decoded: Result<invite::InviteView, ErrorView>,
    name: Seq<char>,
    discriminator: Seq<u8>,
) -> bool {
    match decoded {
        Err(fault) => {
            &&& after == before
            &&& r matches Err(e) && e@ == fault
        },
        Ok(v) => exists|reply: Result<S, ChatError>|
            {
                &&& #[trigger] before.dials(v.onion_address, ROOM_PORT, reply, after)
                &&& match reply {
                    Err(e) => r == Err::<Handshake<S>, ChatError>(e),
                    Ok(stream) => r matches Ok(h) && h@ == (HandshakeView {
                        stream,
                        nonce: v.nonce,
                        discriminator,
                        timestamp: v.timestamp,
                        name: chosen_name(name, v),
                    }),
                }
            },
    }
}

impl<S> Joiner<S> {
    /// Connect to a hosted room using an invite code.
    ///
    /// Decodes the invite, validates it is not expired, connects through Tor,
    /// then prepares the handshake. The time and the discriminator are the
    /// machine's; [`Joiner::connect_at`] takes them as arguments.
    pub fn connect<C: TorConnector<Stream = S>>(tor: &mut C, invite_code: &str, name: &str) -> (r:
        Result<Handshake<S>, ChatError>)
        ensures
            exists|now: u64, discriminator: Seq<u8>|
                discriminator.len() == 16 && #[trigger] dialled(
                    r,
                    *old(tor),
                    *final(tor),
                    #[trigger] invite::decoded_invite(invite_code@, Some(MAX_CODE_AGE_SECS), now),
                    name@,
                    discriminator,
                ),
    {
        let now: u64 = system::unix_time();
        let discriminator = system::random_bytes();
        Self::connect_at(tor, invite_code, name, now, discriminator)
    }

    /// Connect at a given time, under the identity of a given discriminator.
    pub fn connect_at<C: TorConnector<Stream = S>>(
        tor: &mut C,
        invite_code: &str,
        name: &str,
        now: u64,
        discriminator: [u8; 16],
    ) -> (r: Result<Handshake<S>, ChatError>)
        ensures
            dialled(
                r,
                *old(tor),
                *final(tor),
                invite::decoded_invite(invite_code@, Some(MAX_CODE_AGE_SECS), now),
                name@,
                discriminator@,
            ),
            r matches Ok(h) ==> (invite::decoded_invite(
                invite_code@,
                Some(2_592_000),
                now,
            ) matches Ok(v) && {
                &&& h@.nonce == v.nonce
                &&& h@.discriminator == discriminator@
                &&& h@.timestamp == v.timestamp
                &&& h@.name == if name@.len() > 0 {
                    name@
                } else {
                    match v.suggested_name {
                        Some(n) => n,
                        None => Seq::empty(),
                    }
                }
            }),
    {
        match decode_at(invite_code, Some(MAX_CODE_AGE_SECS), now) {
            Err(e) => Err(e),
            Ok(payload) => {
                let connected = tor.connect(payload.onion_address.as_str(), ROOM_PORT);
                assert(old(tor).dials(payload@.onion_address, ROOM_PORT, connected, *tor));
                let suggested = match &payload.suggested_name {
                    Some(n) => n.as_str(),
                    None => "",
                };
                let name = if name.unicode_len() > 0 {
                    name
                } else {
                    proof {
                        reveal_strlit("");
                        assert(suggested@ =~= invite::shown_name(payload@));
                    }
                    suggested
                };
                Handshake::begin(connected, &payload, name, discriminator)
            },
        }
    }

    /// The identifier of this peer.
    pub fn peer_id(&self) -> (id: PeerId)
        ensures
            id@ == self@.peer_id,
    {
        self.peer_id.clone()
    }

    /// The display name of this peer.
    pub fn name(&self) -> (s: String)
        ensures
            s@ == self@.name,
    {
        self.name.clone()
    }

    /// Whether there is a stream to the room.
    pub fn is_connected(&self) -> (b: bool)
        ensures
            b == (self@.stream is Some),
    {
        self.stream.is_some()
    }

    /// Starts the main loop, and hands out the stream that it works on. Without a
    /// stream, messages are only shown locally.
    pub fn run(&mut self) -> (r: (JoinerLoop, Option<S>))
        ensures
            r.1 == old(self)@.stream,
            r.0@ == (LoopView {
                peer_id: old(self)@.peer_id,
                name: old(self)@.name,
                connected: old(self)@.stream is Some,
                pending: Seq::empty(),
                phase: PhaseView::Waiting,
            }),
            final(self)@ == (JoinerView { stream: None, ..old(self)@ }),
    {
        let stream = self.stream.take();
        let pending: Vec<ChatEvent> = Vec::new();
        assert(types::event_views(pending@) =~= Seq::empty());
        let state = JoinerLoop {
            peer_id: self.peer_id.clone(),
            name: self.name.clone(),
            connected: stream.is_some(),
            pending,
            phase: Phase::Waiting,
        };
        (state, stream)
    }

    /// Close the connection. Idempotent.
    pub fn close(&mut self)
        ensures
            final(self)@ == (JoinerView { stream: None, ..old(self)@ }),
    {
        self.stream = None;
    }

    /// A joiner without a stream, for tests.
    pub fn new_for_test(peer_id: PeerId, name: String) -> (j: Self)
        ensures
            j@ == (JoinerView::<S> { stream: None, peer_id: peer_id@, name: name@ }),
    {
        Joiner { stream: None, peer_id, name }
    }
}

// ---------------------------------------------------------------------------
// Handshake
// ---------------------------------------------------------------------------

impl<S> Handshake<S> {
    /// The handshake on a stream that was opened for an invite, or the error of
    /// opening it.
    pub fn begin(
        connected: Result<S, ChatError>,
        payload: &InvitePayload,
        name: &str,
        discriminator: [u8; 16],
    ) -> (r: Result<Self, ChatError>)
        ensures
            match connected {
                Err(e) => r == Err::<Self, ChatError>(e),
                Ok(stream) => r matches Ok(h) && h@ == (HandshakeView {
                    stream,
                    nonce: payload@.nonce,
                    discriminator: discriminator@,
                    timestamp: payload@.timestamp,
                    name: name@,
                }),
            },
    {
        match connected {
            Err(e) => Err(e),
            Ok(stream) => Ok(
                Handshake {
                    stream,
                    nonce: payload.nonce,
                    discriminator,
                    timestamp: payload.timestamp,
                    name: name.to_owned(),
                },
            ),
        }
    }

    /// The stream that the handshake runs on.
    pub fn stream(&mut self) -> (s: &mut S)
        ensures
            *s == old(self)@.stream,
            final(self)@ == (HandshakeView { stream: *final(s), ..old(self)@ }),
    {
        &mut self.stream
    }

    /// The 32 bytes to write first: the nonce of the invite and the discriminator.
    pub fn hello(&self) -> (bytes: Vec<u8>)
        ensures
            bytes@ == greeting(self@),
            bytes@.len() == HANDSHAKE_LEN,
    {
        hello_bytes(&self.nonce, &self.discriminator)
    }

    /// After writing and flushing the greeting.
    pub fn greeted(written: Outcome<()>, flushed: Outcome<()>) -> (r: Result<(), ChatError>)
        ensures
            match io::io_fault(written, "handshake write timed out"@, "handshake write: "@) {
                Some(fault) => r matches Err(e) && e@ == fault,
                None => match io::io_fault(
                    flushed,
                    "handshake flush timed out"@,
                    "handshake flush: "@,
                ) {
                    Some(fault) => r matches Err(e) && e@ == fault,
                    None => r is Ok,
                },
            },
    {
        match io_result(written, "handshake write timed out", "handshake write: ") {
            Err(e) => Err(e),
            Ok(()) => io_result(flushed, "handshake flush timed out", "handshake flush: "),
        }
    }

    /// After reading the hub's answer. An accepted peer sends its name next; any other
    /// is told why it was turned away, as far as the hub says so.
    pub fn answered(&self, read: Outcome<u8>) -> (r: Result<WireMessage, ChatError>)
        ensures
            match io::io_fault(read, "handshake read timed out"@, "handshake read: "@) {
                Some(fault) => r matches Err(e) && e@ == fault,
                None => wire::message_result(r) == answer(self@, read->Done_0),
            },
    {
        match io_result(read, "handshake read timed out", "handshake read: ") {
            Err(e) => Err(e),
            Ok(byte) => {
                if byte != ACCEPT {
                    Err(handshake::refusal_error(byte, self.timestamp))
                } else {
                    Ok(WireMessage::system(self.name.as_str()))
                }
            },
        }
    }

    /// After writing and flushing the name: the peer is in the room.
    pub fn named(self, written: Outcome<()>, flushed: Outcome<()>) -> (r: Result<
        Joiner<S>,
        ChatError,
    >)
        ensures
            match io::io_fault(
                written,
                "handshake name write timed out"@,
                "handshake name write: "@,
            ) {
                Some(fault) => r matches Err(e) && e@ == fault,
                None => match io::io_fault(
                    flushed,
                    "handshake name flush timed out"@,
                    "handshake name flush: "@,
                ) {
                    Some(fault) => r matches Err(e) && e@ == fault,
                    None => r matches Ok(j) && j@ == admitted(self@),
                },
            },
    {
        match io_result(written, "handshake name write timed out", "handshake name write: ") {
            Err(e) => return Err(e),
            Ok(()) => {},
        }
        match io_result(flushed, "handshake name flush timed out", "handshake name flush: ") {
            Err(e) => return Err(e),
            Ok(()) => {},
        }
        let peer_id = handshake::peer_id(&self.discriminator);
        Ok(Joiner { stream: Some(self.stream), peer_id, name: self.name })
    }
}

// ---------------------------------------------------------------------------
// Incoming frames
// ---------------------------------------------------------------------------

/// What to do about what was read from the hub.
pub enum Incoming {
    /// Show the event.
    Event(ChatEvent),
    /// Go on reading.
    Skip,
    /// Stop reading: the connection is over.
    Stop,
}

/// The event that shows a message of the hub. The sender is known by name only.
pub open spec fn shown(m: WireView) -> EventView {
    EventView::Message { from: m.name, name: m.name, text: m.text }
}

/// Decides on what was read from the hub: a message is shown, a malformed one is
/// passed over, and anything else ends the connection.
pub fn handle_incoming_frame(read: FrameRead) -> (r: Incoming)
    ensures
        match read {
            FrameRead::Message(m) => r matches Incoming::Event(ev) && ev@ == shown(m@),
            FrameRead::Malformed(_) => r is Skip,
            FrameRead::TimedOut => r is Stop,
            FrameRead::Broken(_) => r is Stop,
        },
{
    match read {
        FrameRead::Message(m) => Incoming::Event(
            ChatEvent::Message { from: PeerId(m.name.clone()), name: m.name, text: m.text },
        ),
        FrameRead::Malformed(_) => Incoming::Skip,
        FrameRead::TimedOut => Incoming::Stop,
        FrameRead::Broken(_) => Incoming::Stop,
    }
}

// ---------------------------------------------------------------------------
// The main loop
// ---------------------------------------------------------------------------

/// Where the main loop stands.
enum Phase {
    /// Waiting for something to happen.
    Waiting,
    /// A message is being written.
    Writing(String),
    /// The oldest event that was not shown yet is offered to the user interface;
    /// `closing` while messages that were queued before the end are worked off.
    Emitting { closing: bool },
    /// Asking for the next queued message.
    Draining,
    /// The oldest event that was held back is offered a last time.
    Flushing,
    /// The loop is over.
    Finished,
}

/// Where the main loop stands, with its texts as characters.
#[verifier::ext_equal]
pub enum PhaseView {
    Waiting,
    Writing(Seq<char>),
    Emitting { closing: bool },
    Draining,
    Flushing,
    Finished,
}

/// The joiner's main loop: decides what happens to each message.
pub struct JoinerLoop {
    peer_id: PeerId,
    name: String,
    connected: bool,
    pending: Vec<ChatEvent>,
    phase: Phase,
}

/// The state of a [`JoinerLoop`].
#[verifier::ext_equal]
pub struct LoopView {
    pub peer_id: Seq<char>,
    pub name: Seq<char>,
    /// Whether messages are written to a stream.
    pub connected: bool,
    /// Events that were not shown yet, the latest last.
    pub pending: Seq<EventView>,
    pub phase: PhaseView,
}

impl View for JoinerLoop {
    type V = LoopView;

    closed spec fn view(&self) -> LoopView {
        LoopView {
            peer_id: self.peer_id@,
            name: self.name@,
            connected: self.connected,
            pending: types::event_views(self.pending@),
            phase: match self.phase {
                Phase::Waiting => PhaseView::Waiting,
                Phase::Writing(s) => PhaseView::Writing(s@),
                Phase::Emitting { closing } => PhaseView::Emitting { closing },
                Phase::Draining => PhaseView::Draining,
                Phase::Flushing => PhaseView::Flushing,
                Phase::Finished => PhaseView::Finished,
            },
        }
    }
}

/// What happened.
pub enum LoopInput {
    /// Shutdown was signalled.
    Shutdown,
    /// The reader has stopped: the hub is gone.
    ReaderDone,
    /// No more messages will come from the user.
    MessagesClosed,
    /// The user interface takes no more events.
    EventsClosed,
    /// The user wrote a message.
    Outgoing(String),
    /// The message was encoded and written, or not.
    Written(Result<(), ChatError>),
    /// The event was accepted, or there was no room for it.
    Emitted(bool),
    /// The next queued message, if there is one.
    Queued(Option<String>),
}

/// What to do next.
pub enum LoopAction {
    /// Wait for something to happen.
    Wait,
    /// Write the message to the stream.
    Write(WireMessage),
    /// Offer the event to the user interface, without waiting.
    Emit(ChatEvent),
    /// Look for a queued message, without waiting.
    TakeQueued,
    /// End the loop with this result.
    Finish(Result<(), ChatError>),
}

/// A [`LoopAction`] with its texts as characters.
#[verifier::ext_equal]
pub enum ActionView {
    Wait,
    Write(WireView),
    Emit(EventView),
    TakeQueued,
    Finish(Result<(), ErrorView>),
}

impl View for LoopAction {
    type V = ActionView;

    open spec fn view(&self) -> ActionView {
        match self {
            LoopAction::Wait => ActionView::Wait,
            LoopAction::Write(m) => ActionView::Write(m@),
            LoopAction::Emit(ev) => ActionView::Emit(ev@),
            LoopAction::TakeQueued => ActionView::TakeQueued,
            LoopAction::Finish(r) => ActionView::Finish(
                match *r {
                    Ok(()) => Ok(()),
                    Err(e) => Err(e@),
                },
            ),
        }
    }
}

/// The event that shows a message of this peer.
pub open spec fn own_message(v: LoopView, text: Seq<char>) -> EventView {
    EventView::Message { from: v.peer_id, name: v.name, text }
}

/// The state with another phase.
pub open spec fn in_phase(v: LoopView, phase: PhaseView) -> LoopView {
    LoopView { phase, ..v }
}

/// Offers the oldest event that was not shown yet.
pub open spec fn offer(v: LoopView, closing: bool) -> (LoopView, ActionView) {
    (in_phase(v, PhaseView::Emitting { closing }), ActionView::Emit(v.pending[0]))
}

/// Takes up the event of a message, and offers the oldest event: that one, unless others
/// were held back before.
pub open spec fn message_made(v: LoopView, text: Seq<char>, closing: bool) -> (
    LoopView,
    ActionView,
) {
    offer(LoopView { pending: v.pending.push(own_message(v, text)), ..v }, closing)
}

/// Goes back to waiting, or to the messages that were queued before the end.
pub open spec fn resume(v: LoopView, closing: bool) -> (LoopView, ActionView) {
    if closing {
        (in_phase(v, PhaseView::Draining), ActionView::TakeQueued)
    } else {
        (in_phase(v, PhaseView::Waiting), ActionView::Wait)
    }
}

/// The events that are left once the oldest was shown.
pub open spec fn one_shown(v: LoopView) -> LoopView {
    if v.pending.len() == 0 {
        v
    } else {
        LoopView { pending: v.pending.skip(1), ..v }
    }
}

/// Offers the oldest event that was held back, or ends the loop.
pub open spec fn flush_step(v: LoopView) -> (LoopView, ActionView) {
    if v.pending.len() == 0 {
        (in_phase(v, PhaseView::Finished), ActionView::Finish(Ok(())))
    } else {
        (in_phase(v, PhaseView::Flushing), ActionView::Emit(v.pending[0]))
    }
}

/// One step of the main loop. Input that the loop is not waiting for changes
/// nothing.
pub open spec fn loop_step(v: LoopView, input: LoopInput) -> (LoopView, ActionView) {
    match (v.phase, input) {
        (PhaseView::Waiting, LoopInput::Shutdown) => (
            in_phase(v, PhaseView::Draining),
            ActionView::TakeQueued,
        ),
        (PhaseView::Waiting, LoopInput::ReaderDone) => (
            in_phase(v, PhaseView::Draining),
            ActionView::TakeQueued,
        ),
        (PhaseView::Waiting, LoopInput::MessagesClosed) => (
            in_phase(v, PhaseView::Draining),
            ActionView::TakeQueued,
        ),
        (PhaseView::Waiting, LoopInput::EventsClosed) => (
            in_phase(v, PhaseView::Finished),
            ActionView::Finish(Err(ErrorView::Connection("event receiver dropped"@))),
        ),
        (PhaseView::Waiting, LoopInput::Outgoing(text)) => if v.connected {
            (
                in_phase(v, PhaseView::Writing(text@)),
                ActionView::Write(
                    WireView { kind: MessageType::Chat, name: v.name, text: text@ },
                ),
            )
        } else {
            message_made(v, text@, false)
        },
        (PhaseView::Writing(text), LoopInput::Written(Ok(()))) => message_made(v, text, false),
        (PhaseView::Writing(_), LoopInput::Written(Err(e))) => (
            in_phase(v, PhaseView::Finished),
            ActionView::Finish(Err(e@)),
        ),
        (PhaseView::Emitting { closing }, LoopInput::Emitted(true)) => if v.pending.len() > 1 {
            offer(one_shown(v), closing)
        } else {
            resume(one_shown(v), closing)
        },
        (PhaseView::Emitting { closing }, LoopInput::Emitted(false)) => resume(v, closing),
        (PhaseView::Draining, LoopInput::Queued(Some(text))) => message_made(v, text@, true),
        (PhaseView::Draining, LoopInput::Queued(None)) => flush_step(v),
        (PhaseView::Flushing, LoopInput::Emitted(true)) => flush_step(one_shown(v)),
        (PhaseView::Flushing, LoopInput::Emitted(false)) => (
            in_phase(v, PhaseView::Finished),
            ActionView::Finish(Ok(())),
        ),
        _ => (v, ActionView::Wait),
    }
}

impl JoinerLoop {
    /// Build a ChatEvent::Message for an outgoing chat message.
    fn make_event(&self, text: String) -> (ev: ChatEvent)
        ensures
            ev@ == own_message(self@, text@),
    {
        ChatEvent::Message { from: self.peer_id.clone(), name: self.name.clone(), text }
    }

    /// Offers the oldest event that was not shown yet.
    fn try_emit(&mut self, closing: bool) -> (a: LoopAction)
        requires
            old(self)@.pending.len() > 0,
        ensures
            (final(self)@, a@) == offer(old(self)@, closing),
    {
        self.phase = Phase::Emitting { closing };
        assert(types::event_views(self.pending@)[0] == self.pending@[0]@);
        LoopAction::Emit(self.pending[0].clone())
    }

    /// Takes up the event of a message, and offers the oldest event.
    fn emit_message(&mut self, text: String, closing: bool) -> (a: LoopAction)
        ensures
            (final(self)@, a@) == message_made(old(self)@, text@, closing),
    {
        let event = self.make_event(text);
        let ghost before = self.pending@;
        self.pending.push(event);
        assert(types::event_views(self.pending@) =~= types::event_views(before).push(event@));
        self.try_emit(closing)
    }

    /// Goes back to waiting, or to the messages that were queued before the end.
    fn go_on(&mut self, closing: bool) -> (a: LoopAction)
        ensures
            (final(self)@, a@) == resume(old(self)@, closing),
    {
        if closing {
            self.phase = Phase::Draining;
            LoopAction::TakeQueued
        } else {
            self.phase = Phase::Waiting;
            LoopAction::Wait
        }
    }

    /// The oldest event was shown.
    fn take_shown(&mut self)
        ensures
            final(self)@ == one_shown(old(self)@),
    {
        if self.pending.len() > 0 {
            let ghost before = self.pending@;
            self.pending.remove(0);
            assert(types::event_views(self.pending@) =~= types::event_views(before).skip(1));
        }
    }

    /// Offers the oldest event that was held back, or ends the loop.
    fn flush_pending(&mut self) -> (a: LoopAction)
        ensures
            (final(self)@, a@) == flush_step(old(self)@),
    {
        if self.pending.len() == 0 {
            self.phase = Phase::Finished;
            return LoopAction::Finish(Ok(()));
        }
        assert(types::event_views(self.pending@)[0] == self.pending@[0]@);
        self.phase = Phase::Flushing;
        LoopAction::Emit(self.pending[0].clone())
    }

    /// Takes note of what happened, and says what to do next.
    pub fn step(&mut self, input: LoopInput) -> (a: LoopAction)
        ensures
            (final(self)@, a@) == loop_step(old(self)@, input),
    {
        let mut phase = Phase::Finished;
        std::mem::swap(&mut phase, &mut self.phase);
        assert(self@ == in_phase(old(self)@, PhaseView::Finished));
        match (phase, input) {
            (Phase::Waiting, LoopInput::Shutdown) => {
                self.phase = Phase::Draining;
                LoopAction::TakeQueued
            },
            (Phase::Waiting, LoopInput::ReaderDone) => {
                self.phase = Phase::Draining;
                LoopAction::TakeQueued
            },
            (Phase::Waiting, LoopInput::MessagesClosed) => {
                self.phase = Phase::Draining;
                LoopAction::TakeQueued
            },
            (Phase::Waiting, LoopInput::EventsClosed) => LoopAction::Finish(
                Err(connection_error("event receiver dropped")),
            ),
            (Phase::Waiting, LoopInput::Outgoing(text)) => {
                if self.connected {
                    let message = WireMessage::chat(self.name.as_str(), text.as_str());
                    self.phase = Phase::Writing(text);
                    LoopAction::Write(message)
                } else {
                    self.emit_message(text, false)
                }
            },
            (Phase::Writing(text), LoopInput::Written(Ok(()))) => self.emit_message(text, false),
            (Phase::Writing(_), LoopInput::Written(Err(e))) => LoopAction::Finish(Err(e)),
            (Phase::Emitting { closing }, LoopInput::Emitted(true)) => {
                self.take_shown();
                assert(self@.pending.len() == self.pending@.len());
                assert(self@ == in_phase(one_shown(old(self)@), PhaseView::Finished));
                if self.pending.len() > 0 {
                    self.try_emit(closing)
                } else {
                    self.go_on(closing)
                }
            },
            (Phase::Emitting { closing }, LoopInput::Emitted(false)) => self.go_on(closing),
            (Phase::Draining, LoopInput::Queued(Some(text))) => self.emit_message(text, true),
            (Phase::Draining, LoopInput::Queued(None)) => self.flush_pending(),
            (Phase::Flushing, LoopInput::Emitted(true)) => {
                self.take_shown();
                assert(self@ == in_phase(one_shown(old(self)@), PhaseView::Finished));
                self.flush_pending()
            },
            (Phase::Flushing, LoopInput::Emitted(false)) => LoopAction::Finish(Ok(())),
            (phase, _) => {
                self.phase = phase;
                LoopAction::Wait
            },
        }
    }
}

// ---------------------------------------------------------------------------
// Laws
// ---------------------------------------------------------------------------

/// A code is good for one peer: once a joiner was admitted with it, every other
/// joiner that greets the hub with the same code is told that its nonce was used.
pub proof fn code_admits_once<S>(
    used: Set<Seq<u8>>,
    first: HandshakeView<S>,
    second: HandshakeView<S>,
)
    requires
        first.nonce == second.nonce,
        first.nonce.len() == 16,
        first.discriminator.len() == 16,
        second.discriminator.len() == 16,
        handshake::admission(used, greeting(first)) is Ok,
    ensures
        handshake::admission(
            handshake::burned(used, greeting(first)),
            greeting(second),
        ) == Err::<Seq<u8>, ErrorView>(ErrorView::NonceReused),
{
    handshake::reused_nonce_refused(
        used,
        first.nonce,
        first.discriminator,
        second.discriminator,
    );
}

/// The event that a step makes, if any: that of a message, once it was written to the
/// stream where there is one.
pub open spec fn event_made(v: LoopView, input: LoopInput) -> Seq<EventView> {
    match (v.phase, input) {
        (PhaseView::Waiting, LoopInput::Outgoing(text)) => if v.connected {
            Seq::empty()
        } else {
            seq![own_message(v, text@)]
        },
        (PhaseView::Writing(text), LoopInput::Written(Ok(()))) => seq![own_message(v, text)],
        (PhaseView::Draining, LoopInput::Queued(Some(text))) => seq![own_message(v, text@)],
        _ => Seq::empty(),
    }
}

/// The event that is shown before a step, if any: the one that was offered, where the
/// user interface accepted it.
pub open spec fn event_shown(v: LoopView, input: LoopInput) -> Seq<EventView> {
    match (v.phase, input) {
        (PhaseView::Emitting { .. }, LoopInput::Emitted(true)) => v.pending.take(1),
        (PhaseView::Flushing, LoopInput::Emitted(true)) => v.pending.take(1),
        _ => Seq::empty(),
    }
}

/// The state after several things happened, one after the other.
pub open spec fn loop_run(v: LoopView, inputs: Seq<LoopInput>) -> LoopView
    decreases inputs.len(),
{
    if inputs.len() == 0 {
        v
    } else {
        loop_step(loop_run(v, inputs.drop_last()), inputs.last()).0
    }
}

/// The events that are made meanwhile, in order.
pub open spec fn events_made(v: LoopView, inputs: Seq<LoopInput>) -> Seq<EventView>
    decreases inputs.len(),
{
    if inputs.len() == 0 {
        Seq::empty()
    } else {
        let done = inputs.drop_last();
        events_made(v, done) + event_made(loop_run(v, done), inputs.last())
    }
}

/// The events that are shown meanwhile, in order.
pub open spec fn events_shown(v: LoopView, inputs: Seq<LoopInput>) -> Seq<EventView>
    decreases inputs.len(),
{
    if inputs.len() == 0 {
        Seq::empty()
    } else {
        let done = inputs.drop_last();
        events_shown(v, done) + event_shown(loop_run(v, done), inputs.last())
    }
}

/// Whether the loop has an event to offer when it says so.
pub open spec fn offers_something(v: LoopView) -> bool {
    v.phase is Emitting || v.phase is Flushing ==> v.pending.len() > 0
}

/// Events are shown in the order in which they were made, and none is lost while the
/// loop runs: whatever happens, those that were shown, followed by those that are held
/// back, are all that were made. So what was shown is a beginning of what was made.
pub proof fn events_are_shown_in_order(v: LoopView, inputs: Seq<LoopInput>)
    requires
        offers_something(v),
    ensures
        v.pending + events_made(v, inputs) == events_shown(v, inputs) + loop_run(
            v,
            inputs,
        ).pending,
        events_shown(v, inputs).is_prefix_of(v.pending + events_made(v, inputs)),
        offers_something(loop_run(v, inputs)),
    decreases inputs.len(),
{
    if inputs.len() == 0 {
        assert(v.pending + events_made(v, inputs) =~= events_shown(v, inputs) + v.pending);
    } else {
        let done = inputs.drop_last();
        let input = inputs.last();
        events_are_shown_in_order(v, done);
        let before = loop_run(v, done);
        let after = loop_run(v, inputs);
        assert(before.pending + event_made(before, input) =~= event_shown(before, input)
            + after.pending);
        assert(v.pending + events_made(v, inputs) =~= (v.pending + events_made(v, done))
            + event_made(before, input));
        assert(events_shown(v, inputs) + after.pending =~= events_shown(v, done) + (event_shown(
            before,
            input,
        ) + after.pending));
        assert(events_shown(v, done) + (before.pending + event_made(before, input)) =~= (
        events_shown(v, done) + before.pending) + event_made(before, input));
    }
}

/// The event that is offered is always the oldest one that was not shown yet.
pub proof fn oldest_event_is_offered(v: LoopView, input: LoopInput)
    requires
        offers_something(v),
    ensures
        loop_step(v, input).1 matches ActionView::Emit(event) ==> loop_step(v, input).0.pending.len()
            > 0 && event == loop_step(v, input).0.pending[0],
{
}

/// A message that is written while the loop waits is taken up under this peer's name,
/// and on a connected joiner only after it was written to the stream; unless others
/// are held back it is offered to the user interface next. Accepted or not, the loop
/// then waits for the next message, and holds back what was not accepted.
pub proof fn message_is_offered(v: LoopView, text: String)
    requires
        v.phase == PhaseView::Waiting,
    ensures
        ({
            let (v1, a1) = loop_step(v, LoopInput::Outgoing(text));
            let (v2, a2) = if v.connected {
                loop_step(v1, LoopInput::Written(Ok(())))
            } else {
                (v1, a1)
            };
            let waiting = v.pending.push(own_message(v, text@));
            let accepted = loop_step(v2, LoopInput::Emitted(true));
            &&& v.connected ==> a1 == ActionView::Write(
                WireView { kind: MessageType::Chat, name: v.name, text: text@ },
            )
            &&& a2 == ActionView::Emit(waiting[0])
            &&& loop_step(v2, LoopInput::Emitted(false)) == (
                LoopView { pending: waiting, ..v },
                ActionView::Wait,
            )
            &&& v.pending.len() == 0 ==> accepted == (v, ActionView::Wait)
            &&& v.pending.len() > 0 ==> accepted.0.pending == waiting.skip(1) && accepted.1
                == ActionView::Emit(waiting[1])
        }),
{
    let waiting = v.pending.push(own_message(v, text@));
    if v.pending.len() == 0 {
        assert(waiting.skip(1) =~= v.pending);
    }
}

/// The events that are offered when held-back events are flushed into a user
/// interface with room for all of them.
pub open spec fn flushed(v: LoopView) -> Seq<EventView>
    decreases v.pending.len(),
{
    if v.pending.len() == 0 {
        Seq::empty()
    } else {
        seq![flush_step(v).1->Emit_0] + flushed(one_shown(flush_step(v).0))
    }
}

/// With room for all of them, every event that was held back is shown before the loop
/// ends, in the order in which the messages were written.
pub proof fn flush_shows_everything(v: LoopView)
    ensures
        flushed(v) == v.pending,
    decreases v.pending.len(),
{
    if v.pending.len() > 0 {
        flush_shows_everything(one_shown(flush_step(v).0));
        assert(flushed(v) =~= v.pending);
    } else {
        assert(flushed(v) =~= v.pending);
    }
}

/// The loop ends well on shutdown, when the hub is gone and when no more messages
/// can come: once the queue is empty and nothing is held back, the result is `Ok`.
/// It ends with an error only when the user interface is gone, or when a message
/// could not be written.
pub proof fn loop_end(v: LoopView, input: LoopInput)
    ensures
        loop_step(v, input).1 matches ActionView::Finish(Err(e)) ==> (v.phase
            == PhaseView::Waiting && input is EventsClosed) || (v.phase is Writing && input
            matches LoopInput::Written(Err(_))),
        v.phase == PhaseView::Waiting && v.pending.len() == 0 && (input is Shutdown
            || input is ReaderDone || input is MessagesClosed) ==> {
            let draining = loop_step(v, input).0;
            loop_step(draining, LoopInput::Queued(None)).1 == ActionView::Finish(Ok(()))
        },
        loop_step(v, input).1 is Finish ==> loop_step(v, input).0.phase == PhaseView::Finished,
        v.phase == PhaseView::Finished ==> loop_step(v, input) == (v, ActionView::Wait),
{
}

/// A joiner that gives a name enters under it, whatever the invite suggests; one that
/// gives none enters under the name that the invite suggests, or under none.
pub proof fn own_name_comes_first(name: Seq<char>, v: invite::InviteView)
    ensures
        name.len() > 0 ==> chosen_name(name, v) == name,
        name.len() == 0 ==> (v.suggested_name matches Some(n) ==> chosen_name(name, v) == n),
        name.len() == 0 && v.suggested_name is None ==> chosen_name(name, v).len() == 0,
{
}

/// A joiner with a code that is in order asks for the room's address on port 80, once, and
/// takes what comes of it: the error as it is, or a stream on which it greets with the
/// nonce of the code and its own discriminator, under its own name if it gave one. With
/// any other code it asks for nothing, and gives the reason why the code was refused.
pub proof fn joiner_dials_the_room<S, C: TorConnector<Stream = S>>(
    r: Result<Handshake<S>, ChatError>,
    before: C,
    after: C,
    decoded: Result<invite::InviteView, ErrorView>,
    name: Seq<char>,
    discriminator: Seq<u8>,
)
    requires
        dialled(r, before, after, decoded, name, discriminator),
    ensures
        match decoded {
            Err(fault) => after == before && (r matches Err(e) && e@ == fault),
            Ok(v) => exists|reply: Result<S, ChatError>|
                {
                    &&& #[trigger] before.dials(v.onion_address, 80, reply, after)
                    &&& reply matches Err(e) ==> r == Err::<Handshake<S>, ChatError>(e)
                    &&& reply matches Ok(stream) ==> (r matches Ok(h) && {
                        &&& h@.stream == stream
                        &&& h@.timestamp == v.timestamp
                        &&& greeting(h@) == v.nonce + discriminator
                        &&& name.len() > 0 ==> h@.name == name
                        &&& name.len() == 0 ==> h@.name == match v.suggested_name {
                            Some(n) => n,
                            None => Seq::empty(),
                        }
                    })
                },
        },
{
    if let Ok(v) = decoded {
        let reply = choose|reply: Result<S, ChatError>|
            {
                &&& #[trigger] before.dials(v.onion_address, ROOM_PORT, reply, after)
                &&& match reply {
                    Err(e) => r == Err::<Handshake<S>, ChatError>(e),
                    Ok(stream) => r matches Ok(h) && h@ == (HandshakeView {
                        stream,
                        nonce: v.nonce,
                        discriminator,
                        timestamp: v.timestamp,
                        name: chosen_name(name, v),
                    }),
                }
            };
        assert(before.dials(v.onion_address, 80, reply, after));
    }
}

/// A joiner that the hub lets in gives its name in a system message, and is then in the
/// room under that name and under the identifier of its discriminator, on the stream that
/// it greeted on. Any other byte of the hub is a refusal.
pub proof fn accepted_joiner_gives_its_name<S>(h: HandshakeView<S>, byte: u8)
    ensures
        greeting(h) == h.nonce + h.discriminator,
        answer(h, 0) == Ok::<WireView, ErrorView>(
            WireView { kind: MessageType::System, name: Seq::empty(), text: h.name },
        ),
        admitted(h).stream == Some(h.stream),
        admitted(h).name == h.name,
        admitted(h).peer_id == codec::base58_text(h.discriminator),
        byte != 0 ==> answer(h, byte) is Err,
        answer(h, 2) == Err::<WireView, ErrorView>(ErrorView::NonceReused),
        answer(h, 3) == Err::<WireView, ErrorView>(
            ErrorView::InviteExpired { timestamp: h.timestamp },
        ),
        byte == 1 || byte > 3 ==> answer(h, byte) == Err::<WireView, ErrorView>(
            ErrorView::Connection("handshake rejected by hub"@),
        ),
{
}

/// What the hub sends is shown as it is, under the name that it came under.
pub proof fn message_is_shown_as_it_came(m: WireView)
    ensures
        shown(m) == (EventView::Message { from: m.name, name: m.name, text: m.text }),
{
}

/// A message of the user goes out as a chat message under the user's name, whatever it
/// says; without a stream it is not written. Once it is written, or where it need not be,
/// exactly one event shows it, under the user's identifier and name.
pub proof fn own_message_goes_out_and_is_shown(v: LoopView, text: String)
    requires
        v.phase == PhaseView::Waiting,
    ensures
        ({
            let said = EventView::Message { from: v.peer_id, name: v.name, text: text@ };
            let (v1, a1) = loop_step(v, LoopInput::Outgoing(text));
            let (v2, a2) = loop_step(v1, LoopInput::Written(Ok(())));
            if v.connected {
                &&& a1 == ActionView::Write(
                    WireView { kind: MessageType::Chat, name: v.name, text: text@ },
                )
                &&& v1.pending == v.pending
                &&& v2.pending == v.pending.push(said)
                &&& a2 == ActionView::Emit(v2.pending[0])
            } else {
                &&& v1.pending == v.pending.push(said)
                &&& a1 == ActionView::Emit(v1.pending[0])
            }
        }),
{
}

/// A message that could not be written ends the loop with the reason, and is not shown.
pub proof fn unwritten_message_ends_the_loop(v: LoopView, text: Seq<char>, e: ChatError)
    requires
        v.phase == PhaseView::Writing(text),
    ensures
        loop_step(v, LoopInput::Written(Err(e))) == (
            LoopView { phase: PhaseView::Finished, ..v },
            ActionView::Finish(Err(e@)),
        ),
{
}

/// Messages that were queued when the end came are shown like any other, but not written;
/// when there are none left, what is held back is offered, and then the loop ends well.
pub proof fn end_works_off_the_queue(v: LoopView, text: String)
    ensures
        v.phase == PhaseView::Waiting ==> {
            let draining = (LoopView { phase: PhaseView::Draining, ..v }, ActionView::TakeQueued);
            &&& loop_step(v, LoopInput::Shutdown) == draining
            &&& loop_step(v, LoopInput::ReaderDone) == draining
            &&& loop_step(v, LoopInput::MessagesClosed) == draining
            &&& loop_step(v, LoopInput::EventsClosed) == (
                LoopView { phase: PhaseView::Finished, ..v },
                ActionView::Finish(Err(ErrorView::Connection("event receiver dropped"@))),
            )
        },
        v.phase == PhaseView::Draining ==> {
            let (taken, offered) = loop_step(v, LoopInput::Queued(Some(text)));
            let (last, action) = loop_step(v, LoopInput::Queued(None));
            &&& taken.pending == v.pending.push(
                EventView::Message { from: v.peer_id, name: v.name, text: text@ },
            )
            &&& offered == ActionView::Emit(taken.pending[0])
            &&& loop_step(taken, LoopInput::Emitted(false)) == (
                LoopView { pending: taken.pending, ..v },
                ActionView::TakeQueued,
            )
            &&& last.pending == v.pending
            &&& v.pending.len() == 0 ==> action == ActionView::Finish(Ok(()))
            &&& v.pending.len() > 0 ==> action == ActionView::Emit(v.pending[0])
        },
        v.phase == PhaseView::Flushing && v.pending.len() > 0 ==> {
            let (shown, next) = loop_step(v, LoopInput::Emitted(true));
            &&& shown.pending == v.pending.skip(1)
            &&& v.pending.len() == 1 ==> next == ActionView::Finish(Ok(()))
            &&& v.pending.len() > 1 ==> next == ActionView::Emit(v.pending[1])
            &&& loop_step(v, LoopInput::Emitted(false)).1 == ActionView::Finish(Ok(()))
        },
{
}

/// A joiner keeps its identifier, its name and its stream, whatever happens; and what its
/// loop is not waiting for changes nothing.
pub proof fn loop_keeps_who_it_is(v: LoopView, input: LoopInput)
    ensures
        loop_step(v, input).0.peer_id == v.peer_id,
        loop_step(v, input).0.name == v.name,
        loop_step(v, input).0.connected == v.connected,
        v.phase == PhaseView::Waiting && (input is Written || input is Emitted || input is Queued)
            ==> loop_step(v, input) == (v, ActionView::Wait),
        v.phase is Writing && !(input is Written) ==> loop_step(v, input) == (v, ActionView::Wait),
        (v.phase is Emitting || v.phase is Flushing) && !(input is Emitted) ==> loop_step(v, input)
            == (v, ActionView::Wait),
        v.phase == PhaseView::Draining && !(input is Queued) ==> loop_step(v, input) == (
            v,
            ActionView::Wait,
        ),
        v.phase == PhaseView::Finished ==> loop_step(v, input) == (v, ActionView::Wait),
{
}

/// A joiner takes a code for thirty days, at most, whatever the room makes of it.
pub proof fn code_is_taken_for_thirty_days(token: Seq<char>, now: u64)
    ensures
        invite::read_invite(token) matches Ok(v) ==> {
            let r = invite::decoded_invite(token, Some(MAX_CODE_AGE_SECS), now);
            &&& r == Err::<invite::InviteView, ErrorView>(
                ErrorView::InviteExpired { timestamp: v.timestamp },
            ) <==> now > v.timestamp + 30 * 24 * 60 * 60
            &&& r == Ok::<invite::InviteView, ErrorView>(v) <==> v.timestamp - 300 <= now
                <= v.timestamp + 30 * 24 * 60 * 60
        },
{
}

/// A message that is being written waits for nothing but that; once it is written, the
/// oldest event that was not shown is offered, and then the loop waits again.
pub proof fn message_is_written_first(v: LoopView, text: String)
    requires
        v.phase == PhaseView::Waiting,
    ensures
        ({
            let said = EventView::Message { from: v.peer_id, name: v.name, text: text@ };
            let made = LoopView {
                pending: v.pending.push(said),
                phase: PhaseView::Emitting { closing: false },
                ..v
            };
            let (v1, a1) = loop_step(v, LoopInput::Outgoing(text));
            &&& v.connected ==> v1 == (LoopView { phase: PhaseView::Writing(text@), ..v })
            &&& v.connected ==> loop_step(v1, LoopInput::Written(Ok(()))).0 == made
            &&& !v.connected ==> v1 == made
        }),
{
}

/// An event that the user interface took is gone, and the next one is offered until there
/// is none; one that it did not take stays in front. Then the loop goes on where it was:
/// waiting, or, near its end, looking for the next queued message.
pub proof fn offering_goes_on_until_refused(v: LoopView, closing: bool)
    requires
        v.phase == (PhaseView::Emitting { closing }),
    ensures
        ({
            let next = if closing {
                (PhaseView::Draining, ActionView::TakeQueued)
            } else {
                (PhaseView::Waiting, ActionView::Wait)
            };
            &&& v.pending.len() > 1 ==> loop_step(v, LoopInput::Emitted(true)) == (
                LoopView { pending: v.pending.skip(1), ..v },
                ActionView::Emit(v.pending[1]),
            )
            &&& v.pending.len() <= 1 ==> loop_step(v, LoopInput::Emitted(true)) == (
                LoopView { pending: Seq::empty(), phase: next.0, ..v },
                next.1,
            )
            &&& loop_step(v, LoopInput::Emitted(false)) == (
                LoopView { phase: next.0, ..v },
                next.1,
            )
        }),
{
    if v.pending.len() == 1 {
        assert(v.pending.skip(1) =~= Seq::empty());
    }
    if v.pending.len() == 0 {
        assert(v.pending =~= Seq::empty());
    }
}

/// At the end of the queue what was held back is offered, event by event, for as long as
/// it is taken, and then the loop is over.
pub proof fn what_was_held_back_is_offered(v: LoopView, text: String)
    ensures
        v.phase == PhaseView::Draining ==> {
            &&& loop_step(v, LoopInput::Queued(Some(text))).0.phase == (PhaseView::Emitting {
                closing: true,
            })
            &&& loop_step(v, LoopInput::Queued(None)).0 == (LoopView {
                phase: if v.pending.len() > 0 {
                    PhaseView::Flushing
                } else {
                    PhaseView::Finished
                },
                ..v
            })
        },
        v.phase == PhaseView::Flushing ==> {
            &&& loop_step(v, LoopInput::Emitted(false)) == (
                LoopView { phase: PhaseView::Finished, ..v },
                ActionView::Finish(Ok(())),
            )
            &&& v.pending.len() > 0 ==> loop_step(v, LoopInput::Emitted(true)).0 == (LoopView {
                pending: v.pending.skip(1),
                phase: if v.pending.len() > 1 {
                    PhaseView::Flushing
                } else {
                    PhaseView::Finished
                },
                ..v
            })
        },
{
}

/// What is asked for is seen as it is.
pub proof fn loop_action_is_seen_whole(m: WireMessage, ev: ChatEvent, e: ChatError)
    ensures
        LoopAction::Wait@ == ActionView::Wait,
        LoopAction::Write(m)@ == ActionView::Write(m@),
        LoopAction::Emit(ev)@ == ActionView::Emit(ev@),
        LoopAction::TakeQueued@ == ActionView::TakeQueued,
        LoopAction::Finish(Ok(()))@ == ActionView::Finish(Ok(())),
        LoopAction::Finish(Err(e))@ == ActionView::Finish(Err(e@)),
{
}

} // verus!
