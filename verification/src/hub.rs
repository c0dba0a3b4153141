//! Hosted onion service (hub/room) and connection management.
//!
//! Per-connection lifecycle:
//!   1. [`Hub::handshake`] admits a peer or turns it away
//!   2. [`Hub::register_peer`] enters it into the registry
//!   3. [`Hub::reader_task`] and [`Hub::writer_task`] decide on what arrives
//!   4. [`Hub::deregister_peer`] takes it out again
use std::time::Instant;

use vstd::prelude::*;

use crate::codec;
use crate::error::{ChatError, ErrorView};
use crate::handshake;
use crate::handshake::{check_hello, peer_id, NonceSet, ACCEPT, REJECT};
use crate::io::{io_result, Outcome};
use crate::system;
use crate::text;
use crate::types;
use crate::types::{ChatEvent, EventView, PeerId, PeerInfo, PeerInfoView};
use crate::wire::{FrameRead, MessageType, WireMessage, WireView};

verus! {

/// Read timeout for detecting dead peers, in seconds.
pub const READ_TIMEOUT_SECS: u64 = 60;

/// Write timeout for avoiding blocked writes, in seconds.
pub const WRITE_TIMEOUT_SECS: u64 = 30;

/// Broadcast channel capacity per peer.
pub const BROADCAST_CAPACITY: usize = 256;

// ---------------------------------------------------------------------------
// HostedRoom: v3 onion service lifecycle
// ---------------------------------------------------------------------------

/// What became of launching an onion service. `S` is the running service, `R` the
/// source of the streams that peers open.
pub enum Launch<S, R> {
    /// The service's nickname was refused.
    BadNickname(String),
    /// The service's configuration was refused.
    BadConfig(String),
    /// The service could not be started.
    Failed(String),
    /// Onion services are disabled in the configuration.
    Disabled,
    /// The service has no address.
    NoAddress,
    /// The service runs.
    Running { service: S, address: String, streams: R },
}

/// The error of a launch, if it is one.
pub open spec fn launch_fault<S, R>(launch: Launch<S, R>) -> Option<ErrorView> {
    match launch {
        Launch::BadNickname(e) => Some(ErrorView::OnionService("invalid nickname: "@ + e@)),
        Launch::BadConfig(e) => Some(ErrorView::OnionService("config build failed: "@ + e@)),
        Launch::Failed(e) => Some(ErrorView::OnionService("launch failed: "@ + e@)),
        Launch::Disabled => Some(ErrorView::OnionService("onion service disabled in config"@)),
        Launch::NoAddress => Some(ErrorView::OnionService("could not get onion address"@)),
        Launch::Running { .. } => None,
    }
}

/// A room that is reachable through an onion service.
pub struct HostedRoom<S, R> {
    running_svc: Option<S>,
    address: Option<String>,
    port: u16,
    stream_rx: Option<R>,
}

/// The state of a [`HostedRoom`].
#[verifier::ext_equal]
pub struct HostedView<S, R> {
    pub service: Option<S>,
    pub address: Option<Seq<char>>,
    pub port: u16,
    pub streams: Option<R>,
}

impl<S, R> View for HostedRoom<S, R> {
    type V = HostedView<S, R>;

    closed spec fn view(&self) -> HostedView<S, R> {
        HostedView {
            service: self.running_svc,
            address: text::opt_text(self.address),
            port: self.port,
            streams: self.stream_rx,
        }
    }
}

/// The address that a room shows: empty once it is shut down.
pub open spec fn shown_address(address: Option<Seq<char>>) -> Seq<char> {
    match address {
        Some(s) => s,
        None => ""@,
    }
}

/// A hosted room after its shutdown.
pub open spec fn shut<S, R>(v: HostedView<S, R>) -> HostedView<S, R> {
    HostedView { service: None, address: None, port: v.port, streams: None }
}

impl<S, R> HostedRoom<S, R> {
    /// The nickname of the onion service that is launched as number `id`.
    pub fn nickname(id: u64) -> (s: String)
        ensures
            s@ == "chat-room-"@ + text::decimal(id as nat),
    {
        let number = text::decimal_string(id);
        text::concat2("chat-room-", number.as_str())
    }

    /// The room of an onion service that was launched, or the error of the launch.
    pub fn new(launch: Launch<S, R>, port: u16) -> (r: Result<Self, ChatError>)
        ensures
            match launch_fault(launch) {
                Some(fault) => r matches Err(e) && e@ == fault,
                None => r matches Ok(room) && launch matches Launch::Running {
                    service,
                    address,
                    streams,
                } && room@ == (HostedView {
                    service: Some(service),
                    address: Some(address@),
                    port,
                    streams: Some(streams),
                }),
            },
    {
        match launch {
            Launch::BadNickname(e) => Err(
                ChatError::OnionService(text::concat2("invalid nickname: ", e.as_str())),
            ),
            Launch::BadConfig(e) => Err(
                ChatError::OnionService(text::concat2("config build failed: ", e.as_str())),
            ),
            Launch::Failed(e) => Err(
                ChatError::OnionService(text::concat2("launch failed: ", e.as_str())),
            ),
            Launch::Disabled => Err(
                ChatError::OnionService("onion service disabled in config".to_owned()),
            ),
            Launch::NoAddress => Err(
                ChatError::OnionService("could not get onion address".to_owned()),
            ),
            Launch::Running { service, address, streams } => Ok(
                HostedRoom {
                    running_svc: Some(service),
                    address: Some(address),
                    port,
                    stream_rx: Some(streams),
                },
            ),
        }
    }

    /// The onion address, empty after shutdown.
    pub fn address(&self) -> (s: &str)
        ensures
            s@ == shown_address(self@.address),
    {
        match &self.address {
            Some(s) => s.as_str(),
            None => "",
        }
    }

    /// The port that peers connect to.
    pub fn port(&self) -> (p: u16)
        ensures
            p == self@.port,
    {
        self.port
    }

    /// The event that announces the room.
    pub fn ready_event(&self) -> (ev: ChatEvent)
        ensures
            ev@ == (EventView::RoomReady {
                onion_address: shown_address(self@.address),
                port: self@.port,
            }),
    {
        ChatEvent::RoomReady { onion_address: self.address().to_owned(), port: self.port }
    }

    /// Where the next peer's stream comes from: nowhere, after shutdown.
    pub fn accept_peer(&mut self) -> (r: Option<&mut R>)
        ensures
            match r {
                Some(source) => old(self)@.streams == Some(*source) && final(self)@
                    == (HostedView { streams: Some(*final(source)), ..old(self)@ }),
                None => old(self)@.streams is None && final(self)@ == old(self)@,
            },
    {
        match &mut self.stream_rx {
            Some(source) => Some(source),
            None => None,
        }
    }

    /// Ends the onion service. Idempotent.
    pub fn shutdown(&mut self)
        ensures
            final(self)@ == shut(old(self)@),
    {
        self.running_svc = None;
        self.stream_rx = None;
        self.address = None;
    }

    /// Whether the onion service runs.
    pub fn is_running(&self) -> (b: bool)
        ensures
            b == (self@.service is Some),
    {
        self.running_svc.is_some()
    }
}

// ---------------------------------------------------------------------------
// PeerRegistry
// ---------------------------------------------------------------------------

/// A registered peer; `T` takes the frames that are meant for it.
pub struct PeerEntry<T> {
    id: PeerId,
    name: String,
    joined_at: Instant,
    tx: T,
}

/// What the registry knows of a peer, beside its identifier.
#[verifier::ext_equal]
pub struct EntryView<T> {
    pub name: Seq<char>,
    pub joined_at: Instant,
    pub tx: T,
}

/// The connected peers, by identifier. No identifier occurs twice.
pub struct PeerRegistry<T> {
    entries: Vec<PeerEntry<T>>,
}

spec fn entry_ids<T>(entries: Seq<PeerEntry<T>>) -> Seq<Seq<char>> {
    entries.map_values(|e: PeerEntry<T>| e.id@)
}

spec fn entry_view<T>(e: PeerEntry<T>) -> EntryView<T> {
    EntryView { name: e.name@, joined_at: e.joined_at, tx: e.tx }
}

spec fn entry_map<T>(entries: Seq<PeerEntry<T>>) -> Map<Seq<char>, EntryView<T>> {
    Map::new(
        |id: Seq<char>| entry_ids(entries).contains(id),
        |id: Seq<char>|
            entry_view(
                entries[choose|i: int| 0 <= i < entries.len() && #[trigger] entry_ids(entries)[i] == id],
            ),
    )
}

impl<T> View for PeerRegistry<T> {
    type V = Map<Seq<char>, EntryView<T>>;

    closed spec fn view(&self) -> Map<Seq<char>, EntryView<T>> {
        entry_map(self.entries@)
    }
}

proof fn lemma_entry<T>(entries: Seq<PeerEntry<T>>, i: int)
    requires
        0 <= i < entries.len(),
        entry_ids(entries).no_duplicates(),
    ensures
        entry_map(entries).contains_key(entries[i].id@),
        entry_map(entries)[entries[i].id@] == entry_view(entries[i]),
{
    let ids = entry_ids(entries);
    let id = entries[i].id@;
    assert(ids[i] == id);
    assert(ids.contains(id));
    let k = choose|k: int| 0 <= k < entries.len() && #[trigger] ids[k] == id;
    assert(k == i);
}

proof fn lemma_entry_count<T>(entries: Seq<PeerEntry<T>>)
    requires
        entry_ids(entries).no_duplicates(),
    ensures
        entry_map(entries).dom() == entry_ids(entries).to_set(),
        entry_map(entries).dom().finite(),
        entry_map(entries).len() == entries.len(),
{
    let ids = entry_ids(entries);
    assert(entry_map(entries).dom() =~= ids.to_set());
    ids.unique_seq_to_set();
}

/// Whether a list of peers is a snapshot of a registry: each registered peer once,
/// with its name and the time at which it joined.
pub open spec fn is_snapshot<T>(
    list: Seq<PeerInfoView>,
    peers: Map<Seq<char>, EntryView<T>>,
) -> bool {
    &&& list.map_values(|p: PeerInfoView| p.id).no_duplicates()
    &&& list.map_values(|p: PeerInfoView| p.id).to_set() == peers.dom()
    &&& forall|i: int|
        0 <= i < list.len() ==> {
            &&& (#[trigger] list[i]).name == peers[list[i].id].name
            &&& list[i].joined_at == peers[list[i].id].joined_at
        }
}

/// A frame on its way to one peer.
pub struct Delivery<'a, T> {
    pub id: &'a PeerId,
    pub tx: &'a T,
    pub frame: Vec<u8>,
}

/// Whether deliveries carry a frame to each peer of a registry, once.
pub open spec fn reaches_all<T>(
    list: Seq<Delivery<T>>,
    peers: Map<Seq<char>, EntryView<T>>,
    frame: Seq<u8>,
) -> bool {
    &&& list.map_values(|d: Delivery<T>| d.id@).no_duplicates()
    &&& list.map_values(|d: Delivery<T>| d.id@).to_set() == peers.dom()
    &&& forall|i: int|
        0 <= i < list.len() ==> {
            &&& *(#[trigger] list[i]).tx == peers[list[i].id@].tx
            &&& list[i].frame@ == frame
        }
}

impl<T> PeerRegistry<T> {
    /// No identifier occurs twice.
    #[verifier::type_invariant]
    spec fn inv(&self) -> bool {
        entry_ids(self.entries@).no_duplicates()
    }

    /// An empty registry.
    pub fn new() -> (r: Self)
        ensures
            r@ == Map::<Seq<char>, EntryView<T>>::empty(),
    {
        let r = PeerRegistry { entries: Vec::new() };
        assert(r@ =~= Map::<Seq<char>, EntryView<T>>::empty());
        r
    }

    fn position(&self, id: &PeerId) -> (r: Option<usize>)
        ensures
            match r {
                Some(i) => i < self.entries@.len() && self.entries@[i as int].id@ == id@,
                None => !self@.contains_key(id@),
            },
    {
        let mut i: usize = 0;
        while i < self.entries.len()
            invariant
                i <= self.entries.len(),
                forall|j: int| 0 <= j < i ==> self.entries@[j].id@ != id@,
            decreases self.entries.len() - i,
        {
            if self.entries[i].id.same(id) {
                return Some(i);
            }
            i = i + 1;
        }
        proof {
            let ids = entry_ids(self.entries@);
            assert forall|j: int| 0 <= j < ids.len() implies ids[j] != id@ by {
                assert(ids[j] == self.entries@[j].id@);
            }
        }
        None
    }

    /// Enters a peer at the present time, in place of one with the same identifier.
    pub fn register(&mut self, peer_id: PeerId, name: String, tx: T)
        ensures
            exists|joined_at: Instant|
                final(self)@ == old(self)@.insert(
                    peer_id@,
                    #[trigger] entry_of(name@, joined_at, tx),
                ),
    {
        let joined_at = system::now();
        let ghost view = entry_of(name@, joined_at, tx);
        self.register_at(peer_id, name, tx, joined_at);
        assert(self@ == old(self)@.insert(peer_id@, view));
    }

    /// Enters a peer that joined at a given time, in place of one with the same
    /// identifier.
    pub fn register_at(&mut self, peer_id: PeerId, name: String, tx: T, joined_at: Instant)
        ensures
            final(self)@ == old(self)@.insert(peer_id@, entry_of(name@, joined_at, tx)),
    {
        proof {
            use_type_invariant(&*self);
        }
        let ghost before = self.entries@;
        let ghost ids = entry_ids(before);
        let ghost id = peer_id@;
        let ghost view = entry_of(name@, joined_at, tx);
        let found = self.position(&peer_id);
        let entry = PeerEntry { id: peer_id, name, joined_at, tx };
        let mut entries: Vec<PeerEntry<T>> = Vec::new();
        std::mem::swap(&mut entries, &mut self.entries);
        match found {
            Some(i) => {
                entries.set(i, entry);
                assert(entry_ids(entries@) =~= ids);
                self.entries = entries;
                proof {
                    assert forall|k: Seq<char>| #[trigger] self@.contains_key(k) implies self@[k]
                        == old(self)@.insert(id, view)[k] by {
                        let j = choose|j: int| 0 <= j < ids.len() && #[trigger] ids[j] == k;
                        lemma_entry(self.entries@, j);
                        lemma_entry(before, j);
                        if j != i {
                            assert(ids[i as int] == id);
                        }
                    }
                    assert(ids[i as int] == id);
                    assert(self@ =~= old(self)@.insert(id, view));
                }
            },
            None => {
                entries.push(entry);
                let ghost after = entry_ids(entries@);
                proof {
                    assert(after =~= ids.push(id));
                    assert(!ids.contains(id));
                    assert forall|a: int, b: int|
                        0 <= a < after.len() && 0 <= b < after.len() && a != b implies after[a]
                        != after[b] by {
                        if a == ids.len() {
                            assert(ids.contains(ids[b]));
                        } else if b == ids.len() {
                            assert(ids.contains(ids[a]));
                        } else {
                            assert(ids[a] != ids[b]);
                        }
                    }
                }
                self.entries = entries;
                proof {
                    assert(after[ids.len() as int] == id);
                    assert forall|k: Seq<char>|
                        old(self)@.insert(id, view).contains_key(k) implies self@.contains_key(
                        k,
                    ) by {
                        if k != id {
                            let j = choose|j: int| 0 <= j < ids.len() && #[trigger] ids[j] == k;
                            assert(after[j] == k);
                        }
                    }
                    assert forall|k: Seq<char>| #[trigger] self@.contains_key(k) implies old(
                        self,
                    )@.insert(id, view).contains_key(k) && self@[k] == old(self)@.insert(
                        id,
                        view,
                    )[k] by {
                        let j = choose|j: int| 0 <= j < after.len() && #[trigger] after[j] == k;
                        lemma_entry(self.entries@, j);
                        if j < ids.len() {
                            assert(ids[j] == k);
                            lemma_entry(before, j);
                        }
                    }
                    assert(self@ =~= old(self)@.insert(id, view));
                }
            },
        }
    }

    /// Takes a peer out. Does nothing where there is none of that identifier.
    pub fn deregister(&mut self, peer_id: &PeerId)
        ensures
            final(self)@ == old(self)@.remove(peer_id@),
    {
        proof {
            use_type_invariant(&*self);
        }
        let ghost before = self.entries@;
        let ghost ids = entry_ids(before);
        match self.position(peer_id) {
            Some(i) => {
                let mut entries: Vec<PeerEntry<T>> = Vec::new();
                std::mem::swap(&mut entries, &mut self.entries);
                let _gone = entries.remove(i);
                let ghost after = entry_ids(entries@);
                proof {
                    assert(after =~= ids.remove(i as int));
                    assert(ids[i as int] == peer_id@);
                    assert forall|a: int, b: int|
                        0 <= a < after.len() && 0 <= b < after.len() && a != b implies after[a]
                        != after[b] by {
                        let a0 = if a < i { a } else { a + 1 };
                        let b0 = if b < i { b } else { b + 1 };
                        assert(ids[a0] != ids[b0]);
                    }
                }
                self.entries = entries;
                proof {
                    assert forall|k: Seq<char>|
                        old(self)@.remove(peer_id@).contains_key(k) implies self@.contains_key(
                        k,
                    ) by {
                        let j = choose|j: int| 0 <= j < ids.len() && #[trigger] ids[j] == k;
                        let j1 = if j < i { j } else { j - 1 };
                        assert(after[j1] == k);
                    }
                    assert forall|k: Seq<char>| #[trigger] self@.contains_key(k) implies old(
                        self,
                    )@.remove(peer_id@).contains_key(k) && self@[k] == old(self)@[k] by {
                        let j = choose|j: int| 0 <= j < after.len() && #[trigger] after[j] == k;
                        let j0 = if j < i { j } else { j + 1 };
                        assert(ids[j0] == k);
                        lemma_entry(self.entries@, j);
                        lemma_entry(before, j0);
                    }
                    assert(self@ =~= old(self)@.remove(peer_id@));
                }
            },
            None => {
                assert(self@ =~= old(self)@.remove(peer_id@));
            },
        }
    }

    /// Whether a peer of that identifier is registered.
    pub fn contains(&self, peer_id: &PeerId) -> (b: bool)
        ensures
            b == self@.contains_key(peer_id@),
    {
        match self.position(peer_id) {
            Some(i) => {
                proof {
                    use_type_invariant(self);
                    lemma_entry(self.entries@, i as int);
                }
                true
            },
            None => false,
        }
    }

    /// The registered peers, in no particular order.
    pub fn snapshot(&self) -> (r: Vec<PeerInfo>)
        ensures
            is_snapshot(types::peer_views(r@), self@),
    {
        let mut r: Vec<PeerInfo> = Vec::new();
        let mut i: usize = 0;
        while i < self.entries.len()
            invariant
                i <= self.entries.len(),
                r@.len() == i,
                forall|j: int|
                    0 <= j < i ==> {
                        &&& (#[trigger] r@[j])@.id == self.entries@[j].id@
                        &&& r@[j]@.name == self.entries@[j].name@
                        &&& r@[j]@.joined_at == self.entries@[j].joined_at
                    },
            decreases self.entries.len() - i,
        {
            let e = &self.entries[i];
            r.push(PeerInfo { id: e.id.clone(), name: e.name.clone(), joined_at: e.joined_at });
            i = i + 1;
        }
        proof {
            use_type_invariant(self);
            let list = types::peer_views(r@);
            assert(list.map_values(|p: PeerInfoView| p.id) =~= entry_ids(self.entries@));
            lemma_entry_count(self.entries@);
            assert forall|j: int| 0 <= j < list.len() implies {
                &&& (#[trigger] list[j]).name == self@[list[j].id].name
                &&& list[j].joined_at == self@[list[j].id].joined_at
            } by {
                lemma_entry(self.entries@, j);
                assert(list[j] == r@[j]@);
            }
        }
        r
    }

    /// How many peers are registered.
    pub fn len(&self) -> (n: usize)
        ensures
            n == self@.len(),
            self@.dom().finite(),
    {
        proof {
            use_type_invariant(self);
            lemma_entry_count(self.entries@);
        }
        self.entries.len()
    }

    /// The deliveries that bring a frame to every registered peer.
    pub fn broadcast_to_all(&self, frame: &[u8]) -> (r: Vec<Delivery<'_, T>>)
        ensures
            reaches_all(r@, self@, frame@),
    {
        let mut r: Vec<Delivery<'_, T>> = Vec::new();
        let mut i: usize = 0;
        while i < self.entries.len()
            invariant
                i <= self.entries.len(),
                r@.len() == i,
                forall|j: int|
                    0 <= j < i ==> {
                        &&& (#[trigger] r@[j]).id@ == self.entries@[j].id@
                        &&& *r@[j].tx == self.entries@[j].tx
                        &&& r@[j].frame@ == frame@
                    },
            decreases self.entries.len() - i,
        {
            let e = &self.entries[i];
            let mut copy: Vec<u8> = Vec::new();
            copy.extend_from_slice(frame);
            assert(copy@ =~= frame@);
            r.push(Delivery { id: &e.id, tx: &e.tx, frame: copy });
            i = i + 1;
        }
        proof {
            use_type_invariant(self);
            assert(r@.map_values(|d: Delivery<T>| d.id@) =~= entry_ids(self.entries@));
            lemma_entry_count(self.entries@);
            assert forall|j: int| 0 <= j < r@.len() implies {
                &&& *(#[trigger] r@[j]).tx == self@[r@[j].id@].tx
                &&& r@[j].frame@ == frame@
            } by {
                lemma_entry(self.entries@, j);
            }
        }
        r
    }
}

/// What the registry holds of a peer.
pub open spec fn entry_of<T>(name: Seq<char>, joined_at: Instant, tx: T) -> EntryView<T> {
    EntryView { name, joined_at, tx }
}

// ---------------------------------------------------------------------------
// Hub: connection lifecycle
// ---------------------------------------------------------------------------

/// A room with its peers, its used nonces, and whether it accepts connections.
pub struct Hub<S, R, T> {
    room: HostedRoom<S, R>,
    peers: PeerRegistry<T>,
    used_nonces: NonceSet,
    running: bool,
}

/// The state of a [`Hub`].
#[verifier::ext_equal]
pub struct HubView<S, R, T> {
    pub room: HostedView<S, R>,
    pub peers: Map<Seq<char>, EntryView<T>>,
    pub used_nonces: Set<Seq<u8>>,
    pub running: bool,
}

impl<S, R, T> View for Hub<S, R, T> {
    type V = HubView<S, R, T>;

    closed spec fn view(&self) -> HubView<S, R, T> {
        HubView {
            room: self.room@,
            peers: self.peers@,
            used_nonces: self.used_nonces@,
            running: self.running,
        }
    }
}

/// The hub's answer to a greeting: the byte to write, and the peer that is admitted
/// or the reason why not.
pub struct HubReply {
    pub byte: u8,
    pub result: Result<(PeerId, String), ChatError>,
}

/// What to tell of a peer that has come: an event for the user interface, and a
/// message for the peer.
pub struct Arrival {
    pub event: ChatEvent,
    pub notice: WireMessage,
}

/// What to do about what was read from a peer.
pub enum ReaderStep {
    /// Hand the message on, with its sender.
    Forward { from: PeerId, message: WireMessage },
    /// Answer the peer.
    Reply(WireMessage),
    /// Go on reading.
    Skip,
    /// Stop reading: the connection is over.
    Stop,
}

/// A [`ReaderStep`] with its texts as characters.
#[verifier::ext_equal]
pub enum StepView {
    Forward { from: Seq<char>, message: WireView },
    Reply(WireView),
    Skip,
    Stop,
}

impl View for ReaderStep {
    type V = StepView;

    open spec fn view(&self) -> StepView {
        match self {
            ReaderStep::Forward { from, message } => StepView::Forward {
                from: from@,
                message: message@,
            },
            ReaderStep::Reply(message) => StepView::Reply(message@),
            ReaderStep::Skip => StepView::Skip,
            ReaderStep::Stop => StepView::Stop,
        }
    }
}

/// The pong that answers a ping.
pub open spec fn pong_view() -> WireView {
    WireView { kind: MessageType::Pong, name: Seq::empty(), text: Seq::empty() }
}

/// The system message that tells of a peer coming or going.
pub open spec fn notice_view(name: Seq<char>, what: Seq<char>) -> WireView {
    WireView { kind: MessageType::System, name: Seq::empty(), text: name + what }
}

/// The name under which the hub lists a peer that it knows nothing of but its
/// discriminator.
pub open spec fn provisional_name(discriminator: Seq<u8>) -> Seq<char> {
    "peer-"@ + codec::hex_text(discriminator.take(4))
}

/// The nonces that are used once a greeting was answered.
pub open spec fn greeted(used: Set<Seq<u8>>, read: Outcome<Vec<u8>>) -> Set<Seq<u8>> {
    match read {
        Outcome::Done(hello) => handshake::burned(used, hello@),
        _ => used,
    }
}

/// Whether a reply is the hub's answer to a greeting: a peer with a fresh nonce is
/// accepted under the identifier of its discriminator, and anything else is rejected.
pub open spec fn answers(r: HubReply, used: Set<Seq<u8>>, read: Outcome<Vec<u8>>) -> bool {
    match read {
        Outcome::TimedOut => r.byte == REJECT && (r.result matches Err(e) && e@
            == ErrorView::Connection("handshake timed out"@)),
        Outcome::Failed(reason) => r.byte == REJECT && (r.result matches Err(e) && e@
            == ErrorView::Connection("handshake read: "@ + reason@)),
        Outcome::Done(hello) => match handshake::admission(used, hello@) {
            Err(fault) => r.byte == REJECT && (r.result matches Err(e) && e@ == fault),
            Ok(d) => r.byte == ACCEPT && (r.result matches Ok((id, name)) && id@
                == codec::base58_text(d) && name@ == provisional_name(d)),
        },
    }
}

impl<S, R, T> Hub<S, R, T> {
    /// A hub without peers, that does not run yet.
    pub fn new(room: HostedRoom<S, R>) -> (hub: Self)
        ensures
            hub@ == (HubView {
                room: room@,
                peers: Map::<Seq<char>, EntryView<T>>::empty(),
                used_nonces: Set::<Seq<u8>>::empty(),
                running: false,
            }),
    {
        Hub {
            room,
            peers: PeerRegistry::new(),
            used_nonces: NonceSet::new(),
            running: false,
        }
    }

    /// The onion address of the room.
    pub fn address(&self) -> (s: &str)
        ensures
            s@ == shown_address(self@.room.address),
    {
        self.room.address()
    }

    /// The port of the room.
    pub fn port(&self) -> (p: u16)
        ensures
            p == self@.room.port,
    {
        self.room.port()
    }

    /// The connected peers, in no particular order.
    pub fn peers(&self) -> (r: Vec<PeerInfo>)
        ensures
            is_snapshot(types::peer_views(r@), self@.peers),
    {
        self.peers.snapshot()
    }

    /// How many peers are connected.
    pub fn peer_count(&self) -> (n: usize)
        ensures
            n == self@.peers.len(),
    {
        self.peers.len()
    }

    /// Answers a greeting, with this hub's nonces.
    pub fn greet(&mut self, read: Outcome<Vec<u8>>) -> (r: HubReply)
        ensures
            final(self)@ == (HubView {
                used_nonces: greeted(old(self)@.used_nonces, read),
                ..old(self)@
            }),
            answers(r, old(self)@.used_nonces, read),
    {
        Self::handshake(read, &mut self.used_nonces)
    }

    /// Enters a peer that was admitted.
    pub fn enter(&mut self, peer_id: &PeerId, name: &str, tx: T, joined_at: Instant) -> (r:
        Arrival)
        ensures
            final(self)@ == (HubView {
                peers: old(self)@.peers.insert(peer_id@, entry_of(name@, joined_at, tx)),
                ..old(self)@
            }),
            r.event@ == EventView::PeerJoin(
                PeerInfoView { id: peer_id@, name: name@, joined_at },
            ),
            r.notice@ == notice_view(name@, " joined"@),
    {
        Self::register_peer(&mut self.peers, peer_id, name, tx, joined_at)
    }

    /// Takes out a peer whose connection is over.
    pub fn leave(&mut self, peer_id: &PeerId) -> (r: Option<ChatEvent>)
        ensures
            final(self)@ == (HubView { peers: old(self)@.peers.remove(peer_id@), ..old(self)@ }),
            r is Some <==> old(self)@.peers.contains_key(peer_id@),
            r matches Some(ev) ==> ev@ == EventView::PeerLeave(peer_id@),
    {
        Self::deregister_peer(&mut self.peers, peer_id)
    }

    /// The deliveries that bring a frame to every connected peer.
    pub fn broadcast(&self, frame: &[u8]) -> (r: Vec<Delivery<'_, T>>)
        ensures
            reaches_all(r@, self@.peers, frame@),
    {
        self.peers.broadcast_to_all(frame)
    }

    /// The event of what a peer sent, while the hub runs.
    pub fn next_event(&self, received: Option<(PeerId, WireMessage)>) -> (r: Option<ChatEvent>)
        ensures
            match received {
                Some((from, message)) if self@.running => r matches Some(ev) && ev@
                    == (EventView::Message {
                    from: from@,
                    name: message@.name,
                    text: message@.text,
                }),
                _ => r is None,
            },
    {
        if !self.running {
            return None;
        }
        match received {
            Some((from, message)) => Some(
                ChatEvent::Message { from, name: message.name, text: message.text },
            ),
            None => None,
        }
    }

    /// Begins to accept connections.
    pub fn run(&mut self)
        ensures
            final(self)@ == (HubView { running: true, ..old(self)@ }),
    {
        self.running = true;
    }

    /// What to do about the next stream: hand it to a connection of its own, or, if
    /// there is none any more, end the run.
    pub fn accept_next<X>(&mut self, stream: Option<X>) -> (r: Option<X>)
        ensures
            r == stream,
            final(self)@ == (HubView {
                running: old(self)@.running && stream is Some,
                ..old(self)@
            }),
    {
        if stream.is_none() {
            self.running = false;
        }
        stream
    }

    /// Closes the room and ends the run. Idempotent.
    pub fn shutdown(&mut self)
        ensures
            final(self)@ == (HubView { room: shut(old(self)@.room), running: false, ..old(self)@ }),
    {
        self.room.shutdown();
        self.running = false;
    }

    /// Phase 1: answers what was read of a greeting. Anything but a full greeting
    /// with an unused nonce is rejected.
    pub fn handshake(read: Outcome<Vec<u8>>, nonces: &mut NonceSet) -> (r: HubReply)
        ensures
            final(nonces)@ == greeted(old(nonces)@, read),
            answers(r, old(nonces)@, read),
    {
        match io_result(read, "handshake timed out", "handshake read: ") {
            Err(e) => HubReply { byte: REJECT, result: Err(e) },
            Ok(hello) => match check_hello(hello.as_slice(), nonces) {
                Err(e) => HubReply { byte: REJECT, result: Err(e) },
                Ok(d) => {
                    let id = peer_id(&d);
                    let start: [u8; 4] = [d[0], d[1], d[2], d[3]];
                    assert(start@ =~= d@.take(4));
                    let digits = codec::to_hex(&start);
                    let name = text::concat2("peer-", digits.as_str());
                    HubReply { byte: ACCEPT, result: Ok((id, name)) }
                },
            },
        }
    }

    /// Phase 2: enters a peer into the registry.
    pub fn register_peer(
        peers: &mut PeerRegistry<T>,
        peer_id: &PeerId,
        name: &str,
        tx: T,
        joined_at: Instant,
    ) -> (r: Arrival)
        ensures
            final(peers)@ == old(peers)@.insert(peer_id@, entry_of(name@, joined_at, tx)),
            r.event@ == EventView::PeerJoin(
                PeerInfoView { id: peer_id@, name: name@, joined_at },
            ),
            r.notice@ == notice_view(name@, " joined"@),
    {
        peers.register_at(peer_id.clone(), name.to_owned(), tx, joined_at);
        let notice = WireMessage::system(text::concat2(name, " joined").as_str());
        let info = PeerInfo { id: peer_id.clone(), name: name.to_owned(), joined_at };
        Arrival { event: ChatEvent::PeerJoin(info), notice }
    }

    /// Phase 4: takes a peer out of the registry. The event tells of a peer that
    /// was there; taking out one that was not is no event.
    pub fn deregister_peer(peers: &mut PeerRegistry<T>, peer_id: &PeerId) -> (r: Option<ChatEvent>)
        ensures
            final(peers)@ == old(peers)@.remove(peer_id@),
            r is Some <==> old(peers)@.contains_key(peer_id@),
            r matches Some(ev) ==> ev@ == EventView::PeerLeave(peer_id@),
    {
        let known = peers.contains(peer_id);
        peers.deregister(peer_id);
        if known {
            Some(ChatEvent::PeerLeave(peer_id.clone()))
        } else {
            None
        }
    }

    /// Phase 3: what to do about what was read from a peer. A ping is answered, any
    /// other message is handed on, and anything else ends the connection.
    pub fn reader_task(peer_id: &PeerId, read: FrameRead) -> (step: ReaderStep)
        ensures
            step@ == (match read {
                FrameRead::Message(m) => if m.kind == MessageType::Ping {
                    StepView::Reply(pong_view())
                } else {
                    StepView::Forward { from: peer_id@, message: m@ }
                },
                _ => StepView::Stop,
            }),
    {
        match read {
            FrameRead::Message(message) => {
                if message.kind == MessageType::Ping {
                    ReaderStep::Reply(WireMessage::pong())
                } else {
                    ReaderStep::Forward { from: peer_id.clone(), message }
                }
            },
            _ => ReaderStep::Stop,
        }
    }

    /// Phase 3: the message that carries an event of the room to a peer. Only what
    /// somebody said is carried.
    pub fn writer_task(event: &ChatEvent) -> (r: Option<WireMessage>)
        ensures
            match event@ {
                EventView::Message { from, name, text } => r matches Some(m) && m@ == (WireView {
                    kind: MessageType::Chat,
                    name,
                    text,
                }),
                _ => r is None,
            },
    {
        match event {
            ChatEvent::Message { from: _, name, text } => Some(
                WireMessage::chat(name.as_str(), text.as_str()),
            ),
            _ => None,
        }
    }
}

// ---------------------------------------------------------------------------
// Laws
// ---------------------------------------------------------------------------

/// Registering a peer and taking it out again leaves the registry as it was, if the
/// peer was not there before.
pub proof fn register_deregister_restores<T>(
    peers: Map<Seq<char>, EntryView<T>>,
    id: Seq<char>,
    entry: EntryView<T>,
)
    requires
        !peers.contains_key(id),
    ensures
        peers.insert(id, entry).remove(id) == peers,
{
    assert(peers.insert(id, entry).remove(id) =~= peers);
}

/// Registering an identifier twice keeps one peer, the later one.
pub proof fn register_overwrites<T>(
    peers: Map<Seq<char>, EntryView<T>>,
    id: Seq<char>,
    first: EntryView<T>,
    second: EntryView<T>,
)
    requires
        peers.dom().finite(),
    ensures
        peers.insert(id, first).insert(id, second) == peers.insert(id, second),
        peers.insert(id, first).insert(id, second).len() == peers.insert(id, first).len(),
{
    assert(peers.insert(id, first).insert(id, second) =~= peers.insert(id, second));
    assert(peers.insert(id, first).dom() =~= peers.insert(id, second).dom());
}

/// A broadcast reaches a peer exactly if it is registered: a peer that was taken out
/// gets nothing.
pub proof fn broadcast_skips_deregistered<T>(
    list: Seq<Delivery<T>>,
    peers: Map<Seq<char>, EntryView<T>>,
    id: Seq<char>,
    frame: Seq<u8>,
)
    requires
        reaches_all(list, peers.remove(id), frame),
    ensures
        forall|i: int| 0 <= i < list.len() ==> (#[trigger] list[i]).id@ != id,
        forall|other: Seq<char>| #[trigger] peers.contains_key(other) && other != id ==> exists|i: int|
            0 <= i < list.len() && (#[trigger] list[i]).id@ == other,
{
    let ids = list.map_values(|d: Delivery<T>| d.id@);
    assert forall|i: int| 0 <= i < list.len() implies (#[trigger] list[i]).id@ != id by {
        assert(ids[i] == list[i].id@);
        assert(ids.to_set().contains(ids[i]));
    }
    assert forall|other: Seq<char>| #[trigger] peers.contains_key(other) && other
        != id implies exists|i: int| 0 <= i < list.len() && (#[trigger] list[i]).id@ == other by {
        assert(ids.to_set().contains(other));
        let i = choose|i: int| 0 <= i < ids.len() && ids[i] == other;
        assert(list[i].id@ == other);
    }
}

/// Shutting a room down twice is shutting it down once, and nothing is reachable
/// afterwards.
pub proof fn hosted_shutdown_idempotent<S, R>(v: HostedView<S, R>)
    ensures
        shut(shut(v)) == shut(v),
        shut(v).service is None,
        shut(v).streams is None,
        shown_address(shut(v).address) == ""@,
{
}

/// Every launch that does not end with a running service is a failure of the onion
/// service, with the reason word for word; one that does is none.
pub proof fn launch_is_judged<S, R>(reason: String, service: S, address: String, streams: R)
    ensures
        launch_fault(Launch::<S, R>::BadNickname(reason)) == Some(
            ErrorView::OnionService("invalid nickname: "@ + reason@),
        ),
        launch_fault(Launch::<S, R>::BadConfig(reason)) == Some(
            ErrorView::OnionService("config build failed: "@ + reason@),
        ),
        launch_fault(Launch::<S, R>::Failed(reason)) == Some(
            ErrorView::OnionService("launch failed: "@ + reason@),
        ),
        launch_fault(Launch::<S, R>::Disabled) == Some(
            ErrorView::OnionService("onion service disabled in config"@),
        ),
        launch_fault(Launch::<S, R>::NoAddress) == Some(
            ErrorView::OnionService("could not get onion address"@),
        ),
        launch_fault(Launch::Running { service, address, streams }) is None,
{
}

/// A room shows the address of its service as it is, and none once it is shut down. The
/// port is all that outlives the service.
pub proof fn room_shows_its_address<S, R>(v: HostedView<S, R>, address: Seq<char>)
    ensures
        shown_address(Some(address)) == address,
        shown_address(None) == Seq::<char>::empty(),
        shut(v).port == v.port,
        shut(v).service is None && shut(v).address is None && shut(v).streams is None,
{
    reveal_strlit("");
    assert(""@ =~= Seq::<char>::empty());
}

/// A snapshot lists every peer that is registered, once, by its name and the time at
/// which it joined, and nobody else.
pub proof fn snapshot_is_complete<T>(
    list: Seq<PeerInfoView>,
    peers: Map<Seq<char>, EntryView<T>>,
    id: Seq<char>,
)
    requires
        is_snapshot(list, peers),
    ensures
        peers.contains_key(id) <==> exists|i: int| 0 <= i < list.len() && (#[trigger] list[i]).id
            == id,
        forall|i: int, j: int|
            0 <= i < list.len() && 0 <= j < list.len() && (#[trigger] list[i]).id == (
            #[trigger] list[j]).id ==> i == j,
        forall|i: int|
            0 <= i < list.len() && (#[trigger] list[i]).id == id ==> list[i].name == peers[id].name
                && list[i].joined_at == peers[id].joined_at,
{
    let ids = list.map_values(|p: PeerInfoView| p.id);
    assert forall|i: int| 0 <= i < list.len() implies ids.to_set().contains(
        (#[trigger] list[i]).id,
    ) by {
        assert(ids[i] == list[i].id);
    }
    if peers.contains_key(id) {
        assert(ids.to_set().contains(id));
        let i = choose|i: int| 0 <= i < ids.len() && ids[i] == id;
        assert(list[i].id == id);
    }
    assert forall|i: int, j: int|
        0 <= i < list.len() && 0 <= j < list.len() && (#[trigger] list[i]).id == (
        #[trigger] list[j]).id implies i == j by {
        assert(ids[i] == ids[j]);
    }
}

/// A broadcast brings the same frame to every peer that is registered, once, through its
/// own channel, and to nobody else.
pub proof fn broadcast_reaches_each_once<T>(
    list: Seq<Delivery<T>>,
    peers: Map<Seq<char>, EntryView<T>>,
    frame: Seq<u8>,
    id: Seq<char>,
)
    requires
        reaches_all(list, peers, frame),
    ensures
        peers.contains_key(id) <==> exists|i: int| 0 <= i < list.len() && (#[trigger] list[i]).id@
            == id,
        forall|i: int, j: int|
            0 <= i < list.len() && 0 <= j < list.len() && (#[trigger] list[i]).id@ == (
            #[trigger] list[j]).id@ ==> i == j,
        forall|i: int|
            0 <= i < list.len() && (#[trigger] list[i]).id@ == id ==> list[i].frame@ == frame
                && *list[i].tx == peers[id].tx,
{
    let ids = list.map_values(|d: Delivery<T>| d.id@);
    assert forall|i: int| 0 <= i < list.len() implies ids.to_set().contains(
        (#[trigger] list[i]).id@,
    ) by {
        assert(ids[i] == list[i].id@);
    }
    if peers.contains_key(id) {
        assert(ids.to_set().contains(id));
        let i = choose|i: int| 0 <= i < ids.len() && ids[i] == id;
        assert(list[i].id@ == id);
    }
    assert forall|i: int, j: int|
        0 <= i < list.len() && 0 <= j < list.len() && (#[trigger] list[i]).id@ == (
        #[trigger] list[j]).id@ implies i == j by {
        assert(ids[i] == ids[j]);
    }
}

/// What is registered of a peer is what it came with; what is told of it is its name and
/// what it did, in a system message without a sender; and a ping is answered by a message
/// that holds nothing.
pub proof fn peers_are_told_of_as_they_came<T>(
    name: Seq<char>,
    what: Seq<char>,
    joined_at: Instant,
    tx: T,
    discriminator: Seq<u8>,
)
    ensures
        entry_of(name, joined_at, tx).name == name,
        entry_of(name, joined_at, tx).joined_at == joined_at,
        entry_of(name, joined_at, tx).tx == tx,
        notice_view(name, what) == (WireView {
            kind: MessageType::System,
            name: Seq::empty(),
            text: name + what,
        }),
        pong_view() == (WireView {
            kind: MessageType::Pong,
            name: Seq::empty(),
            text: Seq::empty(),
        }),
        discriminator.len() == 16 ==> provisional_name(discriminator) == "peer-"@
            + codec::hex_text(
            seq![discriminator[0], discriminator[1], discriminator[2], discriminator[3]],
        ),
{
    if discriminator.len() == 16 {
        assert(discriminator.take(4) =~= seq![
            discriminator[0],
            discriminator[1],
            discriminator[2],
            discriminator[3],
        ]);
    }
}

/// A hub lets in exactly whoever greets with 32 bytes of which the first 16 are new to
/// it. It answers zero then, knows the peer by its last 16 bytes, and does not let anybody
/// in with the first 16 again. Whoever is not let in is answered one, and uses up nothing.
pub proof fn hub_lets_in_the_new(r: HubReply, used: Set<Seq<u8>>, read: Outcome<Vec<u8>>)
    requires
        answers(r, used, read),
    ensures
        match read {
            Outcome::TimedOut => {
                &&& r.byte == 1 && greeted(used, read) == used
                &&& r.result matches Err(e) && e@ == ErrorView::Connection("handshake timed out"@)
            },
            Outcome::Failed(reason) => {
                &&& r.byte == 1 && greeted(used, read) == used
                &&& r.result matches Err(e) && e@ == ErrorView::Connection(
                    "handshake read: "@ + reason@,
                )
            },
            Outcome::Done(hello) => {
                let fresh = hello@.len() == 32 && !used.contains(hello@.subrange(0, 16));
                &&& r.result is Ok <==> fresh
                &&& r.byte == if fresh {
                    0u8
                } else {
                    1u8
                }
                &&& greeted(used, read) == if fresh {
                    used.insert(hello@.subrange(0, 16))
                } else {
                    used
                }
                &&& r.result matches Ok((id, name)) ==> id@ == codec::base58_text(
                    hello@.subrange(16, 32),
                ) && name@ == "peer-"@ + codec::hex_text(hello@.subrange(16, 20))
                &&& r.result matches Err(e) ==> e@ == if hello@.len() != 32 {
                    ErrorView::InvalidInvite("handshake wrong length"@)
                } else {
                    ErrorView::NonceReused
                }
            },
        },
{
    if let Outcome::Done(hello) = read {
        if hello@.len() == 32 {
            assert(hello@.subrange(16, 32).take(4) =~= hello@.subrange(16, 20));
        }
    }
}

/// What is asked for is seen as it is.
pub proof fn steps_are_seen_whole(from: PeerId, message: WireMessage)
    ensures
        (ReaderStep::Forward { from, message })@ == (StepView::Forward {
            from: from@,
            message: message@,
        }),
        ReaderStep::Reply(message)@ == StepView::Reply(message@),
        ReaderStep::Skip@ == StepView::Skip,
        ReaderStep::Stop@ == StepView::Stop,
{
}

} // verus!
