//! What flows between a room and its user interface.
use std::time::Instant;

use vstd::prelude::*;

use crate::error::{ChatError, ErrorView};

verus! {

/// `std::time::Instant`: a reading of a monotonic clock. Values of it are only
/// carried along.
#[verifier::external_type_specification]
#[verifier::external_body]
pub struct ExInstant(Instant);

/// Opaque peer identifier (base58-encoded public key).
#[derive(Debug, PartialEq, Eq, Hash)]
pub struct PeerId(pub String);

impl View for PeerId {
    type V = Seq<char>;

    open spec fn view(&self) -> Seq<char> {
        self.0@
    }
}

impl Clone for PeerId {
    fn clone(&self) -> (r: Self)
        ensures
            r@ == self@,
    {
        PeerId(self.0.clone())
    }
}

impl PeerId {
    /// The identifier as users read it.
    pub fn display(&self) -> (s: String)
        ensures
            s@ == self@,
    {
        self.0.clone()
    }

    /// Whether two identifiers are the same.
    pub fn same(&self, other: &PeerId) -> (r: bool)
        ensures
            r == (self@ == other@),
    {
        self.0 == other.0
    }
}

/// Metadata about a connected peer.
#[derive(Debug)]
pub struct PeerInfo {
    pub id: PeerId,
    pub name: String,
    pub joined_at: Instant,
}

/// A [`PeerInfo`] with its texts as characters.
#[verifier::ext_equal]
pub struct PeerInfoView {
    pub id: Seq<char>,
    pub name: Seq<char>,
    pub joined_at: Instant,
}

impl View for PeerInfo {
    type V = PeerInfoView;

    open spec fn view(&self) -> PeerInfoView {
        PeerInfoView { id: self.id@, name: self.name@, joined_at: self.joined_at }
    }
}

impl Clone for PeerInfo {
    fn clone(&self) -> (r: Self)
        ensures
            r@ == self@,
    {
        PeerInfo { id: self.id.clone(), name: self.name.clone(), joined_at: self.joined_at }
    }
}

/// The views of a list of peers.
pub open spec fn peer_views(peers: Seq<PeerInfo>) -> Seq<PeerInfoView> {
    peers.map_values(|p: PeerInfo| p@)
}

/// Events emitted by the chat room.
#[derive(Debug)]
pub enum ChatEvent {
    /// A chat message from a peer.
    Message { from: PeerId, name: String, text: String },
    /// A peer joined the room.
    PeerJoin(PeerInfo),
    /// A peer left the room.
    PeerLeave(PeerId),
    /// Tor bootstrap progress (0-100).
    BootstrapProgress(u8),
    /// Room is ready with the given onion address.
    RoomReady { onion_address: String, port: u16 },
    /// A new invite code exists.
    InviteCreated { code: String },
    /// The room is gone.
    RoomClosed,
    /// An error occurred.
    Error(ChatError),
}

/// A [`ChatEvent`] with its texts as characters.
#[verifier::ext_equal]
pub enum EventView {
    Message { from: Seq<char>, name: Seq<char>, text: Seq<char> },
    PeerJoin(PeerInfoView),
    PeerLeave(Seq<char>),
    BootstrapProgress(u8),
    RoomReady { onion_address: Seq<char>, port: u16 },
    InviteCreated { code: Seq<char> },
    RoomClosed,
    Error(ErrorView),
}

impl View for ChatEvent {
    type V = EventView;

    open spec fn view(&self) -> EventView {
        match self {
            ChatEvent::Message { from, name, text } => EventView::Message {
                from: from@,
                name: name@,
                text: text@,
            },
            ChatEvent::PeerJoin(info) => EventView::PeerJoin(info@),
            ChatEvent::PeerLeave(id) => EventView::PeerLeave(id@),
            ChatEvent::BootstrapProgress(pct) => EventView::BootstrapProgress(*pct),
            ChatEvent::RoomReady { onion_address, port } => EventView::RoomReady {
                onion_address: onion_address@,
                port: *port,
            },
            ChatEvent::InviteCreated { code } => EventView::InviteCreated { code: code@ },
            ChatEvent::RoomClosed => EventView::RoomClosed,
            ChatEvent::Error(e) => EventView::Error(e@),
        }
    }
}

impl Clone for ChatEvent {
    fn clone(&self) -> (r: Self)
        ensures
            r@ == self@,
    {
        match self {
            ChatEvent::Message { from, name, text } => ChatEvent::Message {
                from: from.clone(),
                name: name.clone(),
                text: text.clone(),
            },
            ChatEvent::PeerJoin(info) => ChatEvent::PeerJoin(info.clone()),
            ChatEvent::PeerLeave(id) => ChatEvent::PeerLeave(id.clone()),
            ChatEvent::BootstrapProgress(pct) => ChatEvent::BootstrapProgress(*pct),
            ChatEvent::RoomReady { onion_address, port } => ChatEvent::RoomReady {
                onion_address: onion_address.clone(),
                port: *port,
            },
            ChatEvent::InviteCreated { code } => ChatEvent::InviteCreated { code: code.clone() },
            ChatEvent::RoomClosed => ChatEvent::RoomClosed,
            ChatEvent::Error(e) => ChatEvent::Error(e.clone()),
        }
    }
}

/// The views of a list of events.
pub open spec fn event_views(events: Seq<ChatEvent>) -> Seq<EventView> {
    events.map_values(|e: ChatEvent| e@)
}

/// Configuration for hosting a room.
#[derive(Debug)]
pub struct HostConfig {
    pub name: String,
    pub invite_ttl_secs: u64,
}

impl Clone for HostConfig {
    fn clone(&self) -> (r: Self)
        ensures
            r.name@ == self.name@,
            r.invite_ttl_secs == self.invite_ttl_secs,
    {
        HostConfig { name: self.name.clone(), invite_ttl_secs: self.invite_ttl_secs }
    }
}

/// Configuration for joining a room.
#[derive(Debug)]
pub struct JoinConfig {
    pub name: String,
    pub invite_code: String,
}

impl Clone for JoinConfig {
    fn clone(&self) -> (r: Self)
        ensures
            r.name@ == self.name@,
            r.invite_code@ == self.invite_code@,
    {
        JoinConfig { name: self.name.clone(), invite_code: self.invite_code.clone() }
    }
}

/// What is seen of a peer is its identifier, its name and the time at which it came, and
/// of an event everything that it holds.
pub proof fn events_are_seen_whole(
    from: PeerId,
    name: String,
    text: String,
    port: u16,
    pct: u8,
    info: PeerInfo,
    e: ChatError,
)
    ensures
        from@ == from.0@,
        info@ == (PeerInfoView {
            id: info.id.0@,
            name: info.name@,
            joined_at: info.joined_at,
        }),
        (ChatEvent::Message { from, name, text })@ == (EventView::Message {
            from: from@,
            name: name@,
            text: text@,
        }),
        ChatEvent::PeerJoin(info)@ == EventView::PeerJoin(info@),
        ChatEvent::PeerLeave(from)@ == EventView::PeerLeave(from@),
        ChatEvent::BootstrapProgress(pct)@ == EventView::BootstrapProgress(pct),
        (ChatEvent::RoomReady { onion_address: text, port })@ == (EventView::RoomReady {
            onion_address: text@,
            port,
        }),
        (ChatEvent::InviteCreated { code: text })@ == (EventView::InviteCreated { code: text@ }),
        ChatEvent::RoomClosed@ == EventView::RoomClosed,
        ChatEvent::Error(e)@ == EventView::Error(e@),
{
}

/// Lists are seen item by item, in order, with nothing left out.
pub proof fn lists_are_seen_in_order(peers: Seq<PeerInfo>, events: Seq<ChatEvent>, i: int)
    ensures
        peer_views(peers).len() == peers.len(),
        0 <= i < peers.len() ==> peer_views(peers)[i] == peers[i]@,
        event_views(events).len() == events.len(),
        0 <= i < events.len() ==> event_views(events)[i] == events[i]@,
{
}

} // verus!
