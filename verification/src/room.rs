//! Unified room API: [`RoomHandle`] holds what a room's users share, [`HostTask`] and
//! [`JoinTask`] decide what a room does.
use std::time::Instant;

use vstd::prelude::*;
use vstd::utf8::*;

use crate::codec;
use crate::error::{connection_error, ChatError, ErrorView};
use crate::handshake;
use crate::hub;
use crate::hub::{Arrival, EntryView, HostedRoom, PeerRegistry};
use crate::invite;
use crate::invite::{encode, InvitePayload, InviteView};
use crate::joiner::{Joiner, JoinerView};
use crate::system;
use crate::text;
use crate::types;
use crate::types::{
    ChatEvent, EventView, HostConfig, JoinConfig, PeerId, PeerInfo, PeerInfoView,
};
use crate::wire::{MessageType, WireMessage, WireView};

verus! {

/// Capacity of the event stream.
pub const EVENT_CHAN_CAP: usize = 256;

/// Capacity of the queue of messages that the user wrote.
pub const SEND_CHAN_CAP: usize = 64;

/// Capacity of the queue of messages that peers sent.
pub const MSG_CHAN_CAP: usize = 128;

/// Capacity of the broadcast to peers.
pub const BROADCAST_CHAN_CAP: usize = 256;

/// How long a hub waits for the name of a peer, in seconds.
pub const NAME_TIMEOUT_SECS: u64 = 10;

// ---------------------------------------------------------------------------
// RoomHandle
// ---------------------------------------------------------------------------

/// Where a hosted room can be reached.
struct InviteInfo {
    onion_address: String,
    port: u16,
    ttl_secs: u64,
}

/// Where a hosted room can be reached, with its address as characters.
#[verifier::ext_equal]
pub struct InfoView {
    pub onion_address: Seq<char>,
    pub port: u16,
    pub ttl_secs: u64,
}

/// Handle for sending to and controlling a room.
pub struct RoomHandle {
    /// Hub-only: onion address + port for invite generation.
    invite: Option<InviteInfo>,
    /// The nonce and the time of issue of each invite code, in order.
    issued: Vec<([u8; 16], u64)>,
    peers: PeerRegistry<()>,
    quit_flag: bool,
    /// Our display name.
    name: String,
}

/// The state of a [`RoomHandle`].
#[verifier::ext_equal]
pub struct RoomView {
    pub invite: Option<InfoView>,
    /// The nonce and the time of issue of each invite code, in order.
    pub issued: Seq<(Seq<u8>, u64)>,
    pub peers: Map<Seq<char>, EntryView<()>>,
    pub quit: bool,
    pub name: Seq<char>,
}

impl View for RoomHandle {
    type V = RoomView;

    closed spec fn view(&self) -> RoomView {
        RoomView {
            invite: match self.invite {
                Some(info) => Some(
                    InfoView {
                        onion_address: info.onion_address@,
                        port: info.port,
                        ttl_secs: info.ttl_secs,
                    },
                ),
                None => None,
            },
            issued: issue_views(self.issued@),
            peers: self.peers@,
            quit: self.quit_flag,
            name: self.name@,
        }
    }
}

/// The nonces and the times of issue of invite codes.
pub open spec fn issue_views(issued: Seq<([u8; 16], u64)>) -> Seq<(Seq<u8>, u64)> {
    issued.map_values(|p: ([u8; 16], u64)| (p.0@, p.1))
}

/// A room at its start.
pub open spec fn fresh_room(name: Seq<char>) -> RoomView {
    RoomView {
        invite: None,
        issued: Seq::empty(),
        peers: Map::<Seq<char>, EntryView<()>>::empty(),
        quit: false,
        name,
    }
}

/// Whether the token of any invite with that name can be computed, if there is to be
/// one.
pub open spec fn invite_fits(v: RoomView, suggested_name: Option<Seq<char>>) -> bool {
    !v.quit && (v.invite matches Some(info) && invite::address_fault(info.onion_address) is None)
        ==> {
        let info = v.invite.unwrap();
        let name = match suggested_name {
            Some(s) => s,
            None => Seq::empty(),
        };
        (encode_utf8(info.onion_address).len() + encode_utf8(name).len() + invite::FIXED_BYTES)
            * 138 <= usize::MAX
    }
}

/// The invite code that a room gives out for a nonce and a time of issue.
pub open spec fn room_invite(
    v: RoomView,
    suggested_name: Option<Seq<char>>,
    nonce: Seq<u8>,
    timestamp: u64,
) -> Result<Seq<char>, ErrorView> {
    if v.quit {
        Err(ErrorView::ShuttingDown)
    } else {
        match v.invite {
            None => Err(ErrorView::Connection("invite generation only available on hub"@)),
            Some(info) => match invite::address_fault(info.onion_address) {
                Some(message) => Err(ErrorView::InvalidInvite(message)),
                None => Ok(
                    invite::invite_token(
                        InviteView {
                            onion_address: info.onion_address,
                            nonce,
                            timestamp,
                            suggested_name,
                        },
                    ),
                ),
            },
        }
    }
}

/// The room once it gave out an invite code, or failed to.
pub open spec fn invited(
    v: RoomView,
    suggested_name: Option<Seq<char>>,
    nonce: Seq<u8>,
    timestamp: u64,
) -> RoomView {
    if room_invite(v, suggested_name, nonce, timestamp) is Ok {
        RoomView { issued: v.issued.push((nonce, timestamp)), ..v }
    } else {
        v
    }
}

/// When the code with a nonce was given out, if it was: the last time counts.
pub open spec fn issue_time(issued: Seq<(Seq<u8>, u64)>, nonce: Seq<u8>) -> Option<u64>
    decreases issued.len(),
{
    if issued.len() == 0 {
        None
    } else if issued.last().0 == nonce {
        Some(issued.last().1)
    } else {
        issue_time(issued.drop_last(), nonce)
    }
}

/// The time of issue of a code that has outlived the room's time to live, by its nonce.
/// A time to live of zero never ends.
pub open spec fn expired_code(v: RoomView, nonce: Seq<u8>, now: u64) -> Option<u64> {
    match (v.invite, issue_time(v.issued, nonce)) {
        (Some(info), Some(timestamp)) => if invite::has_expired(
            timestamp,
            Some(info.ttl_secs),
            now,
        ) {
            Some(timestamp)
        } else {
            None
        },
        _ => None,
    }
}

/// The view of a result that holds a text.
pub open spec fn text_result(r: Result<String, ChatError>) -> Result<Seq<char>, ErrorView> {
    match r {
        Ok(s) => Ok(s@),
        Err(e) => Err(e@),
    }
}

impl RoomHandle {
    fn new(name: String) -> (h: Self)
        ensures
            h@ == fresh_room(name@),
    {
        let issued: Vec<([u8; 16], u64)> = Vec::new();
        assert(issue_views(issued@) =~= Seq::empty());
        RoomHandle { invite: None, issued, peers: PeerRegistry::new(), quit_flag: false, name }
    }

    /// The text to queue for the room, or an error if the room has been shut down.
    pub fn send(&self, text: &str) -> (r: Result<String, ChatError>)
        ensures
            text_result(r) == if self@.quit {
                Err(ErrorView::ShuttingDown)
            } else {
                Ok(text@)
            },
    {
        if self.quit_flag {
            return Err(ChatError::ShuttingDown);
        }
        Ok(text.to_owned())
    }

    /// What became of queueing a text: a room that takes no more is shutting down.
    pub fn queued(accepted: bool) -> (r: Result<(), ChatError>)
        ensures
            accepted ==> r is Ok,
            !accepted ==> (r matches Err(e) && e@ == ErrorView::ShuttingDown),
    {
        if accepted {
            Ok(())
        } else {
            Err(ChatError::ShuttingDown)
        }
    }

    /// Generate a new invite code, and keep its nonce and time of issue.
    ///
    /// Only available on hub rooms. Returns an error when called by a joiner. The
    /// nonce and the time are the machine's; [`RoomHandle::invite_at`] takes them as
    /// arguments.
    pub fn invite(&mut self, suggested_name: Option<&str>) -> (r: Result<String, ChatError>)
        requires
            invite_fits(old(self)@, text::opt_str(suggested_name)),
        ensures
            exists|nonce: Seq<u8>, timestamp: u64|
                {
                    &&& nonce.len() == 16
                    &&& #[trigger] room_invite(
                        old(self)@,
                        text::opt_str(suggested_name),
                        nonce,
                        timestamp,
                    ) == text_result(r)
                    &&& final(self)@ == invited(
                        old(self)@,
                        text::opt_str(suggested_name),
                        nonce,
                        timestamp,
                    )
                },
    {
        let nonce = system::random_bytes();
        let timestamp: u64 = system::unix_time();
        self.invite_at(suggested_name, nonce, timestamp)
    }

    /// The invite code with a given nonce and time of issue, which the room keeps.
    pub fn invite_at(&mut self, suggested_name: Option<&str>, nonce: [u8; 16], timestamp: u64) -> (r:
        Result<String, ChatError>)
        requires
            invite_fits(old(self)@, text::opt_str(suggested_name)),
        ensures
            text_result(r) == room_invite(
                old(self)@,
                text::opt_str(suggested_name),
                nonce@,
                timestamp,
            ),
            final(self)@ == invited(
                old(self)@,
                text::opt_str(suggested_name),
                nonce@,
                timestamp,
            ),
    {
        if self.quit_flag {
            return Err(ChatError::ShuttingDown);
        }
        let r = match &self.invite {
            None => Err(connection_error("invite generation only available on hub")),
            Some(info) => {
                let name = match suggested_name {
                    Some(s) => Some(s.to_owned()),
                    None => None,
                };
                let payload = InvitePayload {
                    onion_address: info.onion_address.clone(),
                    nonce,
                    timestamp,
                    suggested_name: name,
                };
                proof {
                    invite::lemma_invite_text_len(payload@);
                    assert(payload@.suggested_name == text::opt_str(suggested_name));
                }
                encode(&payload)
            },
        };
        if r.is_ok() {
            let ghost before = self.issued@;
            self.issued.push((nonce, timestamp));
            assert(issue_views(self.issued@) =~= issue_views(before).push((nonce@, timestamp)));
        }
        r
    }

    /// The time of issue of the code with that nonce, if the room gave it out and it has
    /// expired.
    pub fn expired(&self, nonce: &[u8; 16], now: u64) -> (r: Option<u64>)
        ensures
            r == expired_code(self@, nonce@, now),
    {
        let ttl: u64 = match &self.invite {
            None => return None,
            Some(info) => info.ttl_secs,
        };
        let ghost views = issue_views(self.issued@);
        let mut i: usize = self.issued.len();
        assert(views.take(i as int) =~= views);
        while i > 0
            invariant
                i <= self.issued.len(),
                views == issue_views(self.issued@),
                issue_time(views, nonce@) == issue_time(views.take(i as int), nonce@),
                self@.issued == views,
                self@.invite matches Some(info) && info.ttl_secs == ttl,
            decreases i,
        {
            let (issued_nonce, timestamp) = self.issued[i - 1];
            assert(views.take(i as int).last() == (issued_nonce@, timestamp));
            if handshake::same_nonce(&issued_nonce, nonce) {
                if ttl > 0 && now > timestamp && now - timestamp > ttl {
                    return Some(timestamp);
                }
                return None;
            }
            assert(views.take(i as int).drop_last() =~= views.take(i - 1));
            i = i - 1;
        }
        None
    }

    /// Whether an invite code can be computed for any nonce and time, if there is to be
    /// one.
    pub fn can_invite(&self, suggested_name: Option<&str>) -> (b: bool)
        ensures
            b == invite_fits(self@, text::opt_str(suggested_name)),
    {
        if self.quit_flag {
            return true;
        }
        match &self.invite {
            None => true,
            Some(info) => {
                if invite::validate_address(info.onion_address.as_str()).is_err() {
                    return true;
                }
                let a: usize = text::byte_len(info.onion_address.as_str());
                let n: usize = match suggested_name {
                    Some(s) => text::byte_len(s),
                    None => 0,
                };
                let limit: usize = usize::MAX / 138;
                assert(forall|x: int| x <= limit <==> #[trigger] (x * 138) <= usize::MAX);
                limit >= invite::FIXED_BYTES && a <= limit - invite::FIXED_BYTES && n <= limit
                    - invite::FIXED_BYTES - a
            },
        }
    }

    /// Snapshot of connected peers, in no particular order.
    pub fn peers(&self) -> (r: Vec<PeerInfo>)
        ensures
            hub::is_snapshot(types::peer_views(r@), self@.peers),
    {
        self.peers.snapshot()
    }

    /// Graceful shutdown of the room. Idempotent: returns whether this call is the
    /// one that shuts it down.
    pub fn quit(&mut self) -> (first: bool)
        ensures
            first == !old(self)@.quit,
            final(self)@ == (RoomView { quit: true, ..old(self)@ }),
    {
        let first = !self.quit_flag;
        self.quit_flag = true;
        first
    }

    /// Whether the room was shut down.
    pub fn has_quit(&self) -> (b: bool)
        ensures
            b == self@.quit,
    {
        self.quit_flag
    }

    /// Enters a peer that was admitted to the room.
    pub fn peer_joined(&mut self, peer_id: &PeerId, name: &str, joined_at: Instant) -> (r: Arrival)
        ensures
            final(self)@ == (RoomView {
                peers: old(self)@.peers.insert(peer_id@, hub::entry_of(name@, joined_at, ())),
                ..old(self)@
            }),
            r.event@ == EventView::PeerJoin(
                PeerInfoView { id: peer_id@, name: name@, joined_at },
            ),
            r.notice@ == hub::notice_view(name@, " joined"@),
    {
        self.peers.register_at(peer_id.clone(), name.to_owned(), (), joined_at);
        let notice = WireMessage::system(text::concat2(name, " joined").as_str());
        let info = PeerInfo { id: peer_id.clone(), name: name.to_owned(), joined_at };
        Arrival { event: ChatEvent::PeerJoin(info), notice }
    }

    /// Takes out a peer that has disconnected. The others are told.
    pub fn peer_left(&mut self, peer_id: &PeerId, name: &str) -> (r: Departure)
        ensures
            final(self)@ == (RoomView { peers: old(self)@.peers.remove(peer_id@), ..old(self)@ }),
            r.event@ == EventView::PeerLeave(peer_id@),
            r.notice@ == (BroadcastView {
                message: hub::notice_view(name@, " left"@),
                except: None,
            }),
    {
        self.peers.deregister(peer_id);
        let message = WireMessage::system(text::concat2(name, " left").as_str());
        Departure {
            event: ChatEvent::PeerLeave(peer_id.clone()),
            notice: Broadcast { message, except: None },
        }
    }
}

// ---------------------------------------------------------------------------
// Broadcasts
// ---------------------------------------------------------------------------

/// A message for all peers, or for all but one.
pub struct Broadcast {
    pub message: WireMessage,
    pub except: Option<PeerId>,
}

/// A [`Broadcast`] with its texts as characters.
#[verifier::ext_equal]
pub struct BroadcastView {
    pub message: WireView,
    pub except: Option<Seq<char>>,
}

impl View for Broadcast {
    type V = BroadcastView;

    open spec fn view(&self) -> BroadcastView {
        BroadcastView {
            message: self.message@,
            except: match self.except {
                Some(id) => Some(id@),
                None => None,
            },
        }
    }
}

impl Clone for Broadcast {
    fn clone(&self) -> (r: Self)
        ensures
            r@ == self@,
    {
        let except = match &self.except {
            Some(id) => Some(id.clone()),
            None => None,
        };
        Broadcast { message: self.message.clone(), except }
    }
}

/// What to tell of a peer that has gone: an event for the user interface, and a
/// message for the peers that remain.
pub struct Departure {
    pub event: ChatEvent,
    pub notice: Broadcast,
}

/// Whether a broadcast is meant for a peer.
pub open spec fn addressed(b: BroadcastView, peer: Seq<char>) -> bool {
    b.except != Some(peer)
}

// ---------------------------------------------------------------------------
// Hosting
// ---------------------------------------------------------------------------

/// Where a hosted room stands.
#[derive(Clone, Copy, PartialEq, Eq, Structural)]
pub enum HostPhase {
    /// Tor is starting.
    Bootstrapping,
    /// The onion service is not up yet.
    Launching,
    /// The room is open.
    Serving,
    /// The onion service could not be launched.
    Refused,
    /// The room is closed.
    Ended,
}

/// The main loop of a hosted room.
pub struct HostTask {
    name: String,
    invite_ttl_secs: u64,
    phase: HostPhase,
}

/// The state of a [`HostTask`].
#[verifier::ext_equal]
pub struct HostView {
    pub name: Seq<char>,
    pub invite_ttl_secs: u64,
    pub phase: HostPhase,
}

impl View for HostTask {
    type V = HostView;

    closed spec fn view(&self) -> HostView {
        HostView {
            name: self.name@,
            invite_ttl_secs: self.invite_ttl_secs,
            phase: self.phase,
        }
    }
}

/// What happened in a hosted room.
pub enum HostInput {
    /// Tor is up, or will not come up.
    Bootstrapped(bool),
    /// There is a Tor client to work with, or not.
    Client(bool),
    /// Shutdown was signalled.
    Shutdown,
    /// The host wrote a message, or will write none any more.
    Outgoing(Option<String>),
    /// A peer sent a message, or none will send any more.
    Incoming(Option<(PeerId, WireMessage)>),
    /// The user interface takes no more events.
    EventsClosed,
}

/// What a hosted room does about it.
pub struct HostOutput {
    /// For the user interface.
    pub event: Option<ChatEvent>,
    /// For the peers.
    pub broadcast: Option<Broadcast>,
    /// Whether the loop is over.
    pub stop: bool,
}

/// A [`HostOutput`] with its texts as characters.
#[verifier::ext_equal]
pub struct OutputView {
    pub event: Option<EventView>,
    pub broadcast: Option<BroadcastView>,
    pub stop: bool,
}

impl View for HostOutput {
    type V = OutputView;

    open spec fn view(&self) -> OutputView {
        OutputView {
            event: match self.event {
                Some(ev) => Some(ev@),
                None => None,
            },
            broadcast: match self.broadcast {
                Some(b) => Some(b@),
                None => None,
            },
            stop: self.stop,
        }
    }
}

/// Nothing to do.
pub open spec fn quiet() -> OutputView {
    OutputView { event: None, broadcast: None, stop: false }
}

/// The end of the loop.
pub open spec fn ended(v: HostView, event: Option<EventView>) -> (HostView, OutputView) {
    (
        HostView { phase: HostPhase::Ended, ..v },
        OutputView { event, broadcast: None, stop: true },
    )
}

/// Somebody said something: the host sees it, and all peers but the one who said it.
pub open spec fn said(
    from: Seq<char>,
    name: Seq<char>,
    text: Seq<char>,
    except: Option<Seq<char>>,
) -> OutputView {
    OutputView {
        event: Some(EventView::Message { from, name, text }),
        broadcast: Some(
            BroadcastView {
                message: WireView { kind: MessageType::Chat, name, text },
                except,
            },
        ),
        stop: false,
    }
}

/// The event for a room that has no Tor client to work with.
pub open spec fn no_client() -> EventView {
    EventView::Error(ErrorView::Connection("Tor client not available"@))
}

/// One step of a hosted room. Input that it is not waiting for changes nothing.
pub open spec fn host_step(v: HostView, input: HostInput) -> (HostView, OutputView) {
    match (v.phase, input) {
        (HostPhase::Ended, _) => (v, quiet()),
        (_, HostInput::EventsClosed) => ended(v, None),
        (HostPhase::Bootstrapping, HostInput::Bootstrapped(true)) => (
            HostView { phase: HostPhase::Launching, ..v },
            quiet(),
        ),
        (HostPhase::Bootstrapping, HostInput::Bootstrapped(false)) => ended(v, None),
        (HostPhase::Launching, HostInput::Client(false)) => ended(v, Some(no_client())),
        (HostPhase::Serving, HostInput::Shutdown) => ended(v, Some(EventView::RoomClosed)),
        (HostPhase::Serving, HostInput::Outgoing(None)) => ended(v, None),
        (HostPhase::Serving, HostInput::Outgoing(Some(text))) => (
            v,
            said("[hub]"@, v.name, text@, None),
        ),
        (HostPhase::Serving, HostInput::Incoming(None)) => ended(v, None),
        (HostPhase::Serving, HostInput::Incoming(Some((peer, m)))) => if m.kind
            == MessageType::Chat {
            (v, said(peer@, m@.name, m@.text, Some(peer@)))
        } else {
            (v, quiet())
        },
        (HostPhase::Refused, HostInput::Shutdown) => ended(v, Some(EventView::RoomClosed)),
        (HostPhase::Refused, HostInput::Outgoing(None)) => ended(v, None),
        _ => (v, quiet()),
    }
}

/// Host a new room: the handle for its users, and its main loop.
pub fn host(config: HostConfig) -> (r: (RoomHandle, HostTask))
    ensures
        r.0@ == fresh_room(config.name@),
        r.1@ == (HostView {
            name: config.name@,
            invite_ttl_secs: config.invite_ttl_secs,
            phase: HostPhase::Bootstrapping,
        }),
{
    let task = HostTask {
        name: config.name.clone(),
        invite_ttl_secs: config.invite_ttl_secs,
        phase: HostPhase::Bootstrapping,
    };
    (RoomHandle::new(config.name), task)
}

/// The event for a room that has no Tor client to work with.
fn client_missing() -> (ev: ChatEvent)
    ensures
        ev@ == no_client(),
{
    ChatEvent::Error(connection_error("Tor client not available"))
}

impl HostTask {
    /// The onion service was launched, or not. A room that is up can be invited to.
    /// Nothing happens unless the room was waiting for it.
    pub fn opened<S, R>(
        &mut self,
        handle: &mut RoomHandle,
        room: &Result<HostedRoom<S, R>, ChatError>,
    ) -> (r: Option<ChatEvent>)
        ensures
            if old(self)@.phase != HostPhase::Launching {
                r is None && final(self)@ == old(self)@ && final(handle)@ == old(handle)@
            } else {
                match *room {
                    Ok(hosted) => {
                        let address = hub::shown_address(hosted@.address);
                        let port = hosted@.port;
                        &&& r matches Some(ev) && ev@ == (EventView::RoomReady {
                            onion_address: address,
                            port,
                        })
                        &&& final(self)@ == (HostView { phase: HostPhase::Serving, ..old(self)@ })
                        &&& final(handle)@ == (RoomView {
                            invite: Some(
                                InfoView {
                                    onion_address: address,
                                    port,
                                    ttl_secs: old(self)@.invite_ttl_secs,
                                },
                            ),
                            ..old(handle)@
                        })
                    },
                    Err(e) => {
                        &&& r matches Some(ev) && ev@ == EventView::Error(e@)
                        &&& final(self)@ == (HostView { phase: HostPhase::Refused, ..old(self)@ })
                        &&& final(handle)@ == old(handle)@
                    },
                }
            },
    {
        if self.phase != HostPhase::Launching {
            return None;
        }
        match room {
            Ok(hosted) => {
                self.phase = HostPhase::Serving;
                handle.invite = Some(
                    InviteInfo {
                        onion_address: hosted.address().to_owned(),
                        port: hosted.port(),
                        ttl_secs: self.invite_ttl_secs,
                    },
                );
                Some(hosted.ready_event())
            },
            Err(e) => {
                self.phase = HostPhase::Refused;
                Some(ChatEvent::Error(e.clone()))
            },
        }
    }

    fn stop(&mut self, event: Option<ChatEvent>) -> (o: HostOutput)
        ensures
            (final(self)@, o@) == ended(
                old(self)@,
                match event {
                    Some(ev) => Some(ev@),
                    None => None,
                },
            ),
    {
        self.phase = HostPhase::Ended;
        HostOutput { event, broadcast: None, stop: true }
    }

    /// Takes note of what happened, and says what to do.
    pub fn step(&mut self, input: HostInput) -> (o: HostOutput)
        ensures
            (final(self)@, o@) == host_step(old(self)@, input),
    {
        match (self.phase, input) {
            (HostPhase::Ended, _) => HostOutput { event: None, broadcast: None, stop: false },
            (_, HostInput::EventsClosed) => self.stop(None),
            (HostPhase::Bootstrapping, HostInput::Bootstrapped(true)) => {
                self.phase = HostPhase::Launching;
                HostOutput { event: None, broadcast: None, stop: false }
            },
            (HostPhase::Bootstrapping, HostInput::Bootstrapped(false)) => self.stop(None),
            (HostPhase::Launching, HostInput::Client(false)) => self.stop(Some(client_missing())),
            (HostPhase::Serving, HostInput::Shutdown) => self.stop(Some(ChatEvent::RoomClosed)),
            (HostPhase::Serving, HostInput::Outgoing(None)) => self.stop(None),
            (HostPhase::Serving, HostInput::Outgoing(Some(text))) => {
                let message = WireMessage::chat(self.name.as_str(), text.as_str());
                let event = ChatEvent::Message {
                    from: PeerId("[hub]".to_owned()),
                    name: self.name.clone(),
                    text,
                };
                HostOutput {
                    event: Some(event),
                    broadcast: Some(Broadcast { message, except: None }),
                    stop: false,
                }
            },
            (HostPhase::Serving, HostInput::Incoming(None)) => self.stop(None),
            (HostPhase::Serving, HostInput::Incoming(Some((peer, m)))) => {
                if m.kind == MessageType::Chat {
                    let message = m.clone();
                    let event = ChatEvent::Message {
                        from: peer.clone(),
                        name: m.name,
                        text: m.text,
                    };
                    HostOutput {
                        event: Some(event),
                        broadcast: Some(Broadcast { message, except: Some(peer) }),
                        stop: false,
                    }
                } else {
                    HostOutput { event: None, broadcast: None, stop: false }
                }
            },
            (HostPhase::Refused, HostInput::Shutdown) => self.stop(Some(ChatEvent::RoomClosed)),
            (HostPhase::Refused, HostInput::Outgoing(None)) => self.stop(None),
            _ => HostOutput { event: None, broadcast: None, stop: false },
        }
    }
}

/// What happened while a room waits for peers.
pub enum AcceptInput<X> {
    /// Shutdown was signalled.
    Shutdown,
    /// A peer opened a stream, or none will any more.
    Stream(Option<X>),
}

/// Decides about what happened while a room waits for peers: a stream gets a
/// connection of its own, and anything else closes the room.
pub fn accept_loop<S, R, X>(room: &mut HostedRoom<S, R>, input: AcceptInput<X>) -> (r: Option<X>)
    ensures
        match input {
            AcceptInput::Stream(Some(x)) => r == Some(x) && final(room)@ == old(room)@,
            _ => r is None && final(room)@ == hub::shut(old(room)@),
        },
{
    match input {
        AcceptInput::Stream(Some(x)) => Some(x),
        _ => {
            room.shutdown();
            None
        },
    }
}

// ---------------------------------------------------------------------------
// Joining
// ---------------------------------------------------------------------------

/// Where a joiner stands.
#[derive(Clone, Copy, PartialEq, Eq, Structural)]
pub enum JoinPhase {
    /// Tor is starting.
    Bootstrapping,
    /// The room is being connected to.
    Connecting,
    /// The joiner is in the room.
    InRoom,
    /// It is over.
    Ended,
}

/// The life of a joiner.
pub struct JoinTask {
    name: String,
    invite_code: String,
    phase: JoinPhase,
}

/// The state of a [`JoinTask`].
#[verifier::ext_equal]
pub struct JoinView {
    pub name: Seq<char>,
    pub invite_code: Seq<char>,
    pub phase: JoinPhase,
}

impl View for JoinTask {
    type V = JoinView;

    closed spec fn view(&self) -> JoinView {
        JoinView { name: self.name@, invite_code: self.invite_code@, phase: self.phase }
    }
}

/// Join an existing room: the handle for its user, and the joiner's life.
pub fn join(config: JoinConfig) -> (r: (RoomHandle, JoinTask))
    ensures
        r.0@ == fresh_room(config.name@),
        r.1@ == (JoinView {
            name: config.name@,
            invite_code: config.invite_code@,
            phase: JoinPhase::Bootstrapping,
        }),
{
    let name = config.name.clone();
    let task = JoinTask {
        name: config.name,
        invite_code: config.invite_code,
        phase: JoinPhase::Bootstrapping,
    };
    (RoomHandle::new(name), task)
}

/// The peers of a room that a joiner has entered.
pub open spec fn entered<S>(
    v: RoomView,
    joiner: JoinerView<S>,
    joined_at: Instant,
) -> RoomView {
    RoomView {
        peers: v.peers.insert(joiner.peer_id, hub::entry_of(joiner.name, joined_at, ())),
        ..v
    }
}

/// The peers of a room that a joiner has left.
pub open spec fn left<S>(v: RoomView, joiner: JoinerView<S>) -> RoomView {
    RoomView { peers: v.peers.remove(joiner.peer_id), ..v }
}

impl JoinTask {
    /// The display name to join under.
    pub fn name(&self) -> (s: &str)
        ensures
            s@ == self@.name,
    {
        self.name.as_str()
    }

    /// The code to join with.
    pub fn invite_code(&self) -> (s: &str)
        ensures
            s@ == self@.invite_code,
    {
        self.invite_code.as_str()
    }

    /// Tor is up, or will not come up. Returns whether to go on.
    pub fn bootstrapped(&mut self, up: bool) -> (go_on: bool)
        ensures
            go_on == (old(self)@.phase == JoinPhase::Bootstrapping && up),
            final(self)@ == if old(self)@.phase != JoinPhase::Bootstrapping {
                old(self)@
            } else if up {
                JoinView { phase: JoinPhase::Connecting, ..old(self)@ }
            } else {
                JoinView { phase: JoinPhase::Ended, ..old(self)@ }
            },
    {
        if self.phase != JoinPhase::Bootstrapping {
            return false;
        }
        self.phase = if up {
            JoinPhase::Connecting
        } else {
            JoinPhase::Ended
        };
        up
    }

    /// There is a Tor client to work with, or not. Without one, it is over.
    pub fn client(&mut self, available: bool) -> (r: Option<ChatEvent>)
        ensures
            if old(self)@.phase == JoinPhase::Connecting && !available {
                &&& r matches Some(ev) && ev@ == no_client()
                &&& final(self)@ == (JoinView { phase: JoinPhase::Ended, ..old(self)@ })
            } else {
                r is None && final(self)@ == old(self)@
            },
    {
        if self.phase == JoinPhase::Connecting && !available {
            self.phase = JoinPhase::Ended;
            Some(client_missing())
        } else {
            None
        }
    }

    /// The joiner is connected, or not. One that is enters itself as a peer; for one
    /// that is not, it is over. Nothing happens unless it was waiting for it.
    pub fn connected<S>(
        &mut self,
        handle: &mut RoomHandle,
        result: &Result<Joiner<S>, ChatError>,
        joined_at: Instant,
    ) -> (r: Option<ChatEvent>)
        ensures
            if old(self)@.phase != JoinPhase::Connecting {
                r is None && final(self)@ == old(self)@ && final(handle)@ == old(handle)@
            } else {
                match *result {
                    Ok(joiner) => {
                        &&& r matches Some(ev) && ev@ == EventView::PeerJoin(
                            PeerInfoView { id: joiner@.peer_id, name: joiner@.name, joined_at },
                        )
                        &&& final(self)@ == (JoinView { phase: JoinPhase::InRoom, ..old(self)@ })
                        &&& final(handle)@ == entered(old(handle)@, joiner@, joined_at)
                    },
                    Err(e) => {
                        &&& r matches Some(ev) && ev@ == EventView::Error(e@)
                        &&& final(self)@ == (JoinView { phase: JoinPhase::Ended, ..old(self)@ })
                        &&& final(handle)@ == old(handle)@
                    },
                }
            },
    {
        if self.phase != JoinPhase::Connecting {
            return None;
        }
        match result {
            Ok(joiner) => {
                self.phase = JoinPhase::InRoom;
                let id = joiner.peer_id();
                let name = joiner.name();
                handle.peers.register_at(id.clone(), name.clone(), (), joined_at);
                Some(ChatEvent::PeerJoin(PeerInfo { id, name, joined_at }))
            },
            Err(e) => {
                self.phase = JoinPhase::Ended;
                Some(ChatEvent::Error(e.clone()))
            },
        }
    }

    /// The joiner's connection is over: it takes itself out again. The events tell of
    /// an error, if there was one, and that the room is closed. Nothing happens to a
    /// joiner that is not in the room.
    pub fn disconnected<S>(
        &mut self,
        handle: &mut RoomHandle,
        joiner: &Joiner<S>,
        result: Result<(), ChatError>,
    ) -> (events: Vec<ChatEvent>)
        ensures
            if old(self)@.phase != JoinPhase::InRoom {
                &&& events@.len() == 0
                &&& final(self)@ == old(self)@
                &&& final(handle)@ == old(handle)@
            } else {
                &&& final(self)@ == (JoinView { phase: JoinPhase::Ended, ..old(self)@ })
                &&& final(handle)@ == left(old(handle)@, joiner@)
                &&& types::event_views(events@) == match result {
                    Ok(()) => seq![EventView::RoomClosed],
                    Err(e) => seq![EventView::Error(e@), EventView::RoomClosed],
                }
            },
    {
        let mut events: Vec<ChatEvent> = Vec::new();
        if self.phase != JoinPhase::InRoom {
            return events;
        }
        self.phase = JoinPhase::Ended;
        let ghost outcome = result;
        if let Err(e) = result {
            events.push(ChatEvent::Error(e));
        }
        let id = joiner.peer_id();
        handle.peers.deregister(&id);
        events.push(ChatEvent::RoomClosed);
        assert(types::event_views(events@) =~= match outcome {
            Ok(()) => seq![EventView::RoomClosed],
            Err(e) => seq![EventView::Error(e@), EventView::RoomClosed],
        });
        events
    }
}

// ---------------------------------------------------------------------------
// Laws
// ---------------------------------------------------------------------------

/// The hub fans out: what a peer says is shown to the host and goes, unchanged, to
/// every other peer, and not back to the peer who said it.
pub proof fn chat_fans_out(v: HostView, peer: PeerId, m: WireMessage, other: Seq<char>)
    requires
        v.phase == HostPhase::Serving,
        m.kind == MessageType::Chat,
    ensures
        ({
            let (next, out) = host_step(v, HostInput::Incoming(Some((peer, m))));
            &&& next == v
            &&& out.event == Some(
                EventView::Message { from: peer@, name: m@.name, text: m@.text },
            )
            &&& out.broadcast == Some(BroadcastView { message: m@, except: Some(peer@) })
            &&& out.broadcast matches Some(b) && (addressed(b, other) <==> other != peer@)
            &&& !out.stop
        }),
{
}

/// What the host says is shown to the host and goes to every peer.
pub proof fn host_speaks_to_all(v: HostView, text: String, other: Seq<char>)
    requires
        v.phase == HostPhase::Serving,
    ensures
        ({
            let (next, out) = host_step(v, HostInput::Outgoing(Some(text)));
            &&& next == v
            &&& out.event == Some(
                EventView::Message { from: "[hub]"@, name: v.name, text: text@ },
            )
            &&& out.broadcast == Some(
                BroadcastView {
                    message: WireView { kind: MessageType::Chat, name: v.name, text: text@ },
                    except: None,
                },
            )
            &&& out.broadcast matches Some(b) && addressed(b, other)
            &&& !out.stop
        }),
{
}

/// System messages, pings and pongs of a peer reach nobody.
pub proof fn only_chat_is_relayed(v: HostView, peer: PeerId, m: WireMessage)
    requires
        m.kind != MessageType::Chat,
    ensures
        host_step(v, HostInput::Incoming(Some((peer, m)))) == (
            v,
            OutputView { event: None, broadcast: None, stop: false },
        ),
{
}

/// A closed room stays closed and silent.
pub proof fn ended_is_final(v: HostView, input: HostInput)
    requires
        v.phase == HostPhase::Ended,
    ensures
        host_step(v, input) == (v, OutputView { event: None, broadcast: None, stop: false }),
{
}

/// A room whose onion service runs, or failed to, is closed by a shutdown, and says
/// so.
pub proof fn shutdown_closes_room(v: HostView)
    requires
        v.phase == HostPhase::Serving || v.phase == HostPhase::Refused,
    ensures
        ({
            let (next, out) = host_step(v, HostInput::Shutdown);
            &&& next == (HostView { phase: HostPhase::Ended, ..v })
            &&& out.event == Some(EventView::RoomClosed)
            &&& out.broadcast is None
            &&& out.stop
        }),
{
}

/// After quitting, no invite is given out; and a joiner, who has no onion address,
/// never gives one out.
pub proof fn no_invite_after_quit(
    v: RoomView,
    name: Option<Seq<char>>,
    nonce: Seq<u8>,
    timestamp: u64,
)
    ensures
        room_invite(RoomView { quit: true, ..v }, name, nonce, timestamp) == Err::<
            Seq<char>,
            ErrorView,
        >(ErrorView::ShuttingDown),
        v.invite is None ==> room_invite(v, name, nonce, timestamp) is Err,
{
}

/// A room whose events nobody takes any more closes, wherever it stands.
pub proof fn dropped_events_close_room(v: HostView)
    requires
        v.phase != HostPhase::Ended,
    ensures
        ({
            let (next, out) = host_step(v, HostInput::EventsClosed);
            &&& next == (HostView { phase: HostPhase::Ended, ..v })
            &&& out == (OutputView { event: None, broadcast: None, stop: true })
        }),
{
}

/// A room remembers when it gave out a code, and giving out another one changes nothing
/// about it.
pub proof fn code_is_remembered(
    v: RoomView,
    name: Option<Seq<char>>,
    nonce: Seq<u8>,
    timestamp: u64,
    other: Seq<u8>,
)
    requires
        room_invite(v, name, nonce, timestamp) is Ok,
        other != nonce,
    ensures
        issue_time(invited(v, name, nonce, timestamp).issued, nonce) == Some(timestamp),
        issue_time(invited(v, name, nonce, timestamp).issued, other) == issue_time(
            v.issued,
            other,
        ),
{
    assert(v.issued.push((nonce, timestamp)).drop_last() =~= v.issued);
}

/// A joiner that entered the room and left it again leaves its list of peers as it
/// was.
pub proof fn joiner_comes_and_goes<S>(v: RoomView, joiner: JoinerView<S>, joined_at: Instant)
    requires
        !v.peers.contains_key(joiner.peer_id),
    ensures
        left(entered(v, joiner, joined_at), joiner) == v,
{
    hub::register_deregister_restores(
        v.peers,
        joiner.peer_id,
        hub::entry_of(joiner.name, joined_at, ()),
    );
}

/// A room whose Tor does not start ends, without a word of its own.
pub proof fn room_without_tor_ends(v: HostView)
    requires
        v.phase == HostPhase::Bootstrapping,
    ensures
        ({
            let (next, out) = host_step(v, HostInput::Bootstrapped(false));
            &&& next == (HostView { phase: HostPhase::Ended, ..v })
            &&& out == (OutputView { event: None, broadcast: None, stop: true })
        }),
{
}

/// A room whose Tor is up goes on to launch its onion service, silently; and then only a
/// missing client stops it, which the host is told.
pub proof fn room_with_tor_launches(v: HostView, available: bool)
    ensures
        v.phase == HostPhase::Bootstrapping ==> host_step(v, HostInput::Bootstrapped(true)) == (
            HostView { phase: HostPhase::Launching, ..v },
            OutputView { event: None, broadcast: None, stop: false },
        ),
        v.phase == HostPhase::Launching ==> host_step(v, HostInput::Client(available))
            == if available {
            (v, OutputView { event: None, broadcast: None, stop: false })
        } else {
            (
                HostView { phase: HostPhase::Ended, ..v },
                OutputView {
                    event: Some(
                        EventView::Error(ErrorView::Connection("Tor client not available"@)),
                    ),
                    broadcast: None,
                    stop: true,
                },
            )
        },
{
}

/// A room that is open, or could not be opened, ends when the host can write nothing any
/// more; an open one also when peers cannot. Nobody is told.
pub proof fn silenced_room_ends(v: HostView)
    ensures
        v.phase == HostPhase::Serving || v.phase == HostPhase::Refused ==> host_step(
            v,
            HostInput::Outgoing(None),
        ) == (
            HostView { phase: HostPhase::Ended, ..v },
            OutputView { event: None, broadcast: None, stop: true },
        ),
        v.phase == HostPhase::Serving ==> host_step(v, HostInput::Incoming(None)) == (
            HostView { phase: HostPhase::Ended, ..v },
            OutputView { event: None, broadcast: None, stop: true },
        ),
{
}

/// What a room is not waiting for changes nothing and is not heard of: messages before
/// the room is open or where it could not be opened, and a shutdown while Tor or the
/// onion service is starting.
pub proof fn untimely_input_is_ignored(v: HostView, input: HostInput)
    requires
        match v.phase {
            HostPhase::Bootstrapping => !(input is Bootstrapped) && !(input is EventsClosed),
            HostPhase::Launching => !(input is Client) && !(input is EventsClosed),
            HostPhase::Serving => input is Bootstrapped || input is Client,
            HostPhase::Refused => !(input is Shutdown) && !(input is EventsClosed) && !(
            input matches HostInput::Outgoing(None)),
            HostPhase::Ended => true,
        },
    ensures
        host_step(v, input) == (v, OutputView { event: None, broadcast: None, stop: false }),
{
}

/// A room keeps its name and its time to live, whatever happens, and it stops exactly
/// when it ends.
pub proof fn room_keeps_its_settings(v: HostView, input: HostInput)
    ensures
        host_step(v, input).0.name == v.name,
        host_step(v, input).0.invite_ttl_secs == v.invite_ttl_secs,
        v.phase != HostPhase::Ended ==> (host_step(v, input).1.stop <==> host_step(
            v,
            input,
        ).0.phase == HostPhase::Ended),
        host_step(v, input).1.broadcast is Some ==> host_step(v, input).1.event is Some,
{
}

/// A room begins without an onion address, without codes and without peers.
pub proof fn room_begins_empty(name: Seq<char>)
    ensures
        fresh_room(name).invite is None,
        fresh_room(name).issued == Seq::<(Seq<u8>, u64)>::empty(),
        fresh_room(name).peers == Map::<Seq<char>, EntryView<()>>::empty(),
        !fresh_room(name).quit,
        fresh_room(name).name == name,
{
}

/// A room gives out a code whenever it is open, has not been shut down and has a valid
/// address; and the code spells out that address, the nonce, the time of issue and the
/// name that is suggested, whatever they are.
pub proof fn open_room_gives_out_codes(
    v: RoomView,
    name: Option<Seq<char>>,
    nonce: Seq<u8>,
    timestamp: u64,
)
    ensures
        room_invite(v, name, nonce, timestamp) is Ok <==> !v.quit && (v.invite matches Some(info)
            && invite::ends_with(info.onion_address, ".onion"@) && encode_utf8(
            info.onion_address,
        ).len() >= 62),
        room_invite(v, name, nonce, timestamp) matches Ok(code) ==> code == codec::base58_text(
            encode_utf8(
                v.invite.unwrap().onion_address + ":"@ + codec::hex_text(nonce) + ":"@
                    + text::decimal(timestamp as nat) + match name {
                    Some(n) => ":"@ + n,
                    None => Seq::empty(),
                },
            ),
        ),
        !v.quit && v.invite is None ==> room_invite(v, name, nonce, timestamp) == Err::<
            Seq<char>,
            ErrorView,
        >(ErrorView::Connection("invite generation only available on hub"@)),
{
    if let Some(info) = v.invite {
        let head = info.onion_address + ":"@ + codec::hex_text(nonce) + ":"@ + text::decimal(
            timestamp as nat,
        );
        match name {
            Some(n) => {
                assert(head + (":"@ + n) =~= head + ":"@ + n);
            },
            None => {
                assert(head + Seq::<char>::empty() =~= head);
            },
        }
    }
}

/// Giving out a code changes nothing in a room but the list of its codes, which it goes
/// to the end of; and failing to give one out changes nothing at all.
pub proof fn giving_out_a_code_only_notes_it(
    v: RoomView,
    name: Option<Seq<char>>,
    nonce: Seq<u8>,
    timestamp: u64,
)
    ensures
        ({
            let after = invited(v, name, nonce, timestamp);
            &&& after.invite == v.invite
            &&& after.peers == v.peers
            &&& after.quit == v.quit
            &&& after.name == v.name
            &&& room_invite(v, name, nonce, timestamp) is Ok ==> after.issued == v.issued.push(
                (nonce, timestamp),
            )
            &&& room_invite(v, name, nonce, timestamp) is Err ==> after == v
        }),
{
}

/// The time of issue of a code is that of the last entry with its nonce; a nonce that was
/// never given out has none.
pub proof fn last_issue_counts(issued: Seq<(Seq<u8>, u64)>, nonce: Seq<u8>)
    ensures
        match issue_time(issued, nonce) {
            Some(t) => exists|i: int|
                0 <= i < issued.len() && #[trigger] issued[i] == (nonce, t) && forall|j: int|
                    i < j < issued.len() ==> (#[trigger] issued[j]).0 != nonce,
            None => forall|j: int| 0 <= j < issued.len() ==> (#[trigger] issued[j]).0 != nonce,
        },
    decreases issued.len(),
{
    if issued.len() > 0 {
        let rest = issued.drop_last();
        if issued.last().0 == nonce {
            assert(issued[issued.len() - 1] == (nonce, issued.last().1));
        } else {
            last_issue_counts(rest, nonce);
            if let Some(t) = issue_time(rest, nonce) {
                let i = choose|i: int|
                    0 <= i < rest.len() && #[trigger] rest[i] == (nonce, t) && forall|j: int|
                        i < j < rest.len() ==> (#[trigger] rest[j]).0 != nonce;
                assert(issued[i] == (nonce, t));
                assert forall|j: int| i < j < issued.len() implies (#[trigger] issued[j]).0
                    != nonce by {
                    if j < rest.len() {
                        assert(rest[j].0 != nonce);
                    }
                }
            } else {
                assert forall|j: int| 0 <= j < issued.len() implies (#[trigger] issued[j]).0
                    != nonce by {
                    if j < rest.len() {
                        assert(rest[j].0 != nonce);
                    }
                }
            }
        }
    }
}

/// A code has expired exactly if the room gave it out, its time to live is not zero, and
/// more seconds than that have passed since.
pub proof fn expiry_is_exact(v: RoomView, nonce: Seq<u8>, now: u64, issued: u64)
    ensures
        expired_code(v, nonce, now) == Some(issued) <==> issue_time(v.issued, nonce) == Some(
            issued,
        ) && (v.invite matches Some(info) && info.ttl_secs > 0 && now > issued + info.ttl_secs),
{
}

/// A joiner that enters a room is listed in it under its identifier, with its name and
/// the time, and nothing else in the room changes; nor does it when the joiner leaves.
pub proof fn joiner_is_listed_while_in_the_room<S>(
    v: RoomView,
    joiner: JoinerView<S>,
    joined_at: Instant,
    other: Seq<char>,
)
    requires
        other != joiner.peer_id,
    ensures
        ({
            let inside = entered(v, joiner, joined_at);
            let outside = left(v, joiner);
            &&& inside.peers.contains_key(joiner.peer_id)
            &&& inside.peers[joiner.peer_id].name == joiner.name
            &&& inside.peers[joiner.peer_id].joined_at == joined_at
            &&& !outside.peers.contains_key(joiner.peer_id)
            &&& inside.peers.contains_key(other) == v.peers.contains_key(other)
            &&& outside.peers.contains_key(other) == v.peers.contains_key(other)
            &&& v.peers.contains_key(other) ==> inside.peers[other] == v.peers[other]
                && outside.peers[other] == v.peers[other]
            &&& inside == (RoomView { peers: inside.peers, ..v })
            &&& outside == (RoomView { peers: outside.peers, ..v })
        }),
{
}

/// What is seen of a broadcast is its message and whom it spares, of what a room does
/// everything, and of a result the text or the error, whichever it holds.
pub proof fn outputs_are_seen_whole(
    b: Broadcast,
    o: HostOutput,
    s: String,
    e: ChatError,
    issued: Seq<([u8; 16], u64)>,
    i: int,
)
    ensures
        b@.message == b.message@,
        b@.except == match b.except {
            Some(id) => Some(id@),
            None => None,
        },
        o@.event == match o.event {
            Some(ev) => Some(ev@),
            None => None,
        },
        o@.broadcast == match o.broadcast {
            Some(x) => Some(x@),
            None => None,
        },
        o@.stop == o.stop,
        text_result(Ok(s)) == Ok::<Seq<char>, ErrorView>(s@),
        text_result(Err(e)) == Err::<Seq<char>, ErrorView>(e@),
        issue_views(issued).len() == issued.len(),
        0 <= i < issued.len() ==> issue_views(issued)[i] == (issued[i].0@, issued[i].1),
{
}

/// A room can be asked for a code whenever it gives none out, because it is closing, or not
/// open yet, or has a bad address; and otherwise if the encoder's buffer can be asked for.
pub proof fn closed_room_can_be_asked(v: RoomView, name: Option<Seq<char>>)
    ensures
        v.quit || v.invite is None ==> invite_fits(v, name),
        v.invite matches Some(info) && (invite::address_fault(info.onion_address) is Some || (
        encode_utf8(info.onion_address).len() + encode_utf8(
            match name {
                Some(s) => s,
                None => Seq::empty(),
            },
        ).len() + 55) * 138 <= usize::MAX) ==> invite_fits(v, name),
{
}

} // verus!
