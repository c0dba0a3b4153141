//! The text interface: lines in, lines out.
use vstd::prelude::*;

use crate::command;
use crate::command::{list_peers, parse_command, SlashCommand};
use crate::error::{error_text, ErrorView};
use crate::roster;
use crate::text;
use crate::tui;
use crate::tui::truncate_onion;
use crate::types;
use crate::types::{ChatEvent, EventView, PeerInfo, PeerInfoView};

verus! {

/// What the text interface wants done.
#[derive(Debug)]
pub enum TextAction {
    Nothing,
    /// Leave the room.
    Stop,
    /// Send a message to the room.
    Send(String),
    /// Generate an invite code, for somebody of that name.
    Invite(Option<String>),
    /// Look up the connected peers.
    Peers,
    /// Print a line.
    Print(String),
    /// Print a line, and leave the room.
    PrintAndStop(String),
    /// Print a line to the error stream.
    Warn(String),
    /// Print a line to the error stream, and leave the room.
    WarnAndStop(String),
    /// Print to the error stream, without ending the line.
    Progress(String),
}

/// A [`TextAction`] with its texts as characters.
#[verifier::ext_equal]
pub enum TextView {
    Nothing,
    Stop,
    Send(Seq<char>),
    Invite(Option<Seq<char>>),
    Peers,
    Print(Seq<char>),
    PrintAndStop(Seq<char>),
    Warn(Seq<char>),
    WarnAndStop(Seq<char>),
    Progress(Seq<char>),
}

impl View for TextAction {
    type V = TextView;

    open spec fn view(&self) -> TextView {
        match self {
            TextAction::Nothing => TextView::Nothing,
            TextAction::Stop => TextView::Stop,
            TextAction::Send(s) => TextView::Send(s@),
            TextAction::Invite(name) => TextView::Invite(text::opt_text(*name)),
            TextAction::Peers => TextView::Peers,
            TextAction::Print(s) => TextView::Print(s@),
            TextAction::PrintAndStop(s) => TextView::PrintAndStop(s@),
            TextAction::Warn(s) => TextView::Warn(s@),
            TextAction::WarnAndStop(s) => TextView::WarnAndStop(s@),
            TextAction::Progress(s) => TextView::Progress(s@),
        }
    }
}

/// The text interface.
pub struct Headless {
    /// Whether messages can be sent.
    pub room_ready: bool,
    /// Who has joined, and has not left.
    pub peers: Vec<PeerInfo>,
}

/// The state of a [`Headless`], with its texts as characters.
#[verifier::ext_equal]
pub struct HeadlessView {
    pub room_ready: bool,
    pub peers: Seq<PeerInfoView>,
}

impl View for Headless {
    type V = HeadlessView;

    open spec fn view(&self) -> HeadlessView {
        HeadlessView { room_ready: self.room_ready, peers: types::peer_views(self.peers@) }
    }
}

/// What a line of input asks for.
pub open spec fn line_step(room_ready: bool, line: Seq<char>) -> TextView {
    let line = text::trimmed(line);
    if line.len() == 0 {
        TextView::Nothing
    } else if line == "/quit"@ {
        TextView::Stop
    } else {
        match text::after_slash(line) {
            Some(cmd) => match command::parsed_command(cmd) {
                command::SlashView::Invite(name) => TextView::Invite(name),
                command::SlashView::Peers => TextView::Peers,
                _ => TextView::Print("[system] unknown command: /"@ + cmd),
            },
            None => if room_ready {
                TextView::Send(line)
            } else {
                TextView::Nothing
            },
        }
    }
}

/// What an event of the room leads to: the state from then on, and what is printed. No
/// event means that the connection is lost.
pub open spec fn event_step(v: HeadlessView, ev: Option<EventView>) -> (HeadlessView, TextView) {
    match ev {
        None => (v, TextView::WarnAndStop("\n[system] connection lost"@)),
        Some(EventView::BootstrapProgress(pct)) => if 0 < pct < 100 {
            (
                v,
                TextView::Progress(
                    "\rBootstrapping: "@ + text::decimal(pct as nat) + "%  "@,
                ),
            )
        } else {
            (v, TextView::Nothing)
        },
        Some(EventView::RoomReady { onion_address, .. }) => (
            HeadlessView { room_ready: true, ..v },
            TextView::Print(
                "\n[system] room ready: "@ + tui::shown_onion(onion_address) + "..."@,
            ),
        ),
        Some(EventView::PeerJoin(info)) => (
            HeadlessView { room_ready: true, peers: roster::with_peer(v.peers, info) },
            TextView::Print("[system] "@ + info.name + " joined"@),
        ),
        Some(EventView::PeerLeave(id)) => (
            HeadlessView { peers: roster::without_peer(v.peers, id), ..v },
            TextView::Print("[system] "@ + roster::name_of(v.peers, id) + " left"@),
        ),
        Some(EventView::Message { name, text, .. }) => (
            v,
            TextView::Print("["@ + name + "] "@ + text),
        ),
        Some(EventView::InviteCreated { code }) => (
            v,
            TextView::Print("[system] new invite code: "@ + code),
        ),
        Some(EventView::RoomClosed) => (
            v,
            TextView::PrintAndStop("[system] room closed"@),
        ),
        Some(EventView::Error(e)) => (
            v,
            TextView::Warn("\n[error] "@ + error_text(e)),
        ),
    }
}

impl Headless {
    /// A text interface whose room is not ready.
    pub fn new() -> (h: Self)
        ensures
            h@ == (HeadlessView { room_ready: false, peers: Seq::empty() }),
    {
        let peers: Vec<PeerInfo> = Vec::new();
        assert(types::peer_views(peers@) =~= Seq::empty());
        Headless { room_ready: false, peers }
    }

    /// Takes in a line of input.
    pub fn handle_line(&self, line: &str) -> (a: TextAction)
        ensures
            a@ == line_step(self@.room_ready, line@),
    {
        let line = text::trim_text(line);
        if line.as_str().unicode_len() == 0 {
            return TextAction::Nothing;
        }
        if text::same_text(line.as_str(), "/quit") {
            return TextAction::Stop;
        }
        match text::strip_slash(line.as_str()) {
            Some(cmd) => match parse_command(cmd.as_str()) {
                SlashCommand::Invite(name) => TextAction::Invite(name),
                SlashCommand::Peers => TextAction::Peers,
                _ => TextAction::Print(
                    text::concat2("[system] unknown command: /", cmd.as_str()),
                ),
            },
            None => {
                if self.room_ready {
                    TextAction::Send(line)
                } else {
                    TextAction::Nothing
                }
            },
        }
    }

    /// Takes in an event of the room, or the end of them.
    pub fn handle_event(&mut self, ev: Option<ChatEvent>) -> (a: TextAction)
        ensures
            (final(self)@, a@) == event_step(
                old(self)@,
                match ev {
                    Some(e) => Some(e@),
                    None => None,
                },
            ),
            ev matches Some(ChatEvent::Message { name, text, .. }) ==> final(self)@ == old(self)@
                && a@ == TextView::Print("["@ + name@ + "] "@ + text@),
    {
        let ev = match ev {
            None => {
                return TextAction::WarnAndStop("\n[system] connection lost".to_owned());
            },
            Some(ev) => ev,
        };
        match ev {
            ChatEvent::BootstrapProgress(pct) => {
                if pct > 0 && pct < 100 {
                    let number = text::decimal_string(pct as u64);
                    TextAction::Progress(
                        text::concat3("\rBootstrapping: ", number.as_str(), "%  "),
                    )
                } else {
                    TextAction::Nothing
                }
            },
            ChatEvent::RoomReady { onion_address, .. } => {
                self.room_ready = true;
                let shown = truncate_onion(onion_address.as_str());
                TextAction::Print(text::concat3("\n[system] room ready: ", shown, "..."))
            },
            ChatEvent::PeerJoin(info) => {
                self.room_ready = true;
                roster::add_peer(&mut self.peers, &info);
                TextAction::Print(text::concat3("[system] ", info.name.as_str(), " joined"))
            },
            ChatEvent::PeerLeave(id) => {
                let name = roster::peer_name(&self.peers, &id);
                roster::remove_peer(&mut self.peers, &id);
                TextAction::Print(text::concat3("[system] ", name.as_str(), " left"))
            },
            ChatEvent::Message { name, text, .. } => {
                let mut line = text::concat3("[", name.as_str(), "] ");
                line.append(text.as_str());
                TextAction::Print(line)
            },
            ChatEvent::InviteCreated { code } => TextAction::Print(
                text::concat2("[system] new invite code: ", code.as_str()),
            ),
            ChatEvent::RoomClosed => TextAction::PrintAndStop("[system] room closed".to_owned()),
            ChatEvent::Error(e) => {
                let reason = e.message();
                TextAction::Warn(text::concat2("\n[error] ", reason.as_str()))
            },
        }
    }
}

/// What is printed of an invite code, or of the failure to get one.
pub fn invite_result(code: Result<String, String>) -> (a: TextAction)
    ensures
        a@ == match code {
            Ok(c) => TextView::Print("[system] invite code: "@ + c@),
            Err(e) => TextView::Warn("[error] invite failed: "@ + e@),
        },
{
    match code {
        Ok(c) => TextAction::Print(text::concat2("[system] invite code: ", c.as_str())),
        Err(e) => TextAction::Warn(text::concat2("[error] invite failed: ", e.as_str())),
    }
}

/// What is printed of the connected peers.
pub fn peers_result(peers: &Vec<PeerInfo>) -> (a: TextAction)
    ensures
        a@ == TextView::Print("[system] "@ + command::peer_list(peers@, "no peers"@)),
{
    let list = list_peers(peers, "no peers");
    TextAction::Print(text::concat2("[system] ", list.as_str()))
}

// ---------------------------------------------------------------------------
// Laws
// ---------------------------------------------------------------------------

/// Before the room is ready nothing is sent; once it is, it stays ready, and a line
/// that is no command is sent without the white space around it.
pub proof fn lines_are_sent_once_ready(line: Seq<char>, v: HeadlessView, ev: Option<EventView>)
    requires
        text::trimmed(line).len() > 0,
        text::trimmed(line)[0] != '/',
    ensures
        line_step(false, line) == TextView::Nothing,
        line_step(true, line) == TextView::Send(text::trimmed(line)),
        v.room_ready ==> event_step(v, ev).0.room_ready,
{
    reveal_strlit("/quit");
}

/// The text interface ends on `/quit`, when the room closes and when the connection
/// is lost, and on nothing else.
pub proof fn text_interface_ends(
    line: Seq<char>,
    ready: bool,
    v: HeadlessView,
    ev: Option<EventView>,
)
    ensures
        line_step(ready, line) == TextView::Stop <==> text::trimmed(line) == "/quit"@,
        !(line_step(ready, line) is PrintAndStop) && !(line_step(ready, line) is WarnAndStop),
        event_step(v, ev).1 is WarnAndStop <==> ev is None,
        event_step(v, ev).1 is PrintAndStop <==> ev == Some(EventView::RoomClosed),
        !(event_step(v, ev).1 is Stop),
{
    reveal_strlit("/quit");
}

/// Whoever joins and leaves is named both times.
pub proof fn peer_is_named_when_it_leaves(v: HeadlessView, info: PeerInfoView)
    requires
        !roster::lists(v.peers, info.id),
    ensures
        ({
            let (joined, first) = event_step(v, Some(EventView::PeerJoin(info)));
            let (left, second) = event_step(joined, Some(EventView::PeerLeave(info.id)));
            &&& first == TextView::Print("[system] "@ + info.name + " joined"@)
            &&& second == TextView::Print("[system] "@ + info.name + " left"@)
        }),
{
    roster::newcomer_is_known_by_name(v.peers, info, info);
}

/// Every message is printed with the name that it came under, whether or not the room is
/// known to be ready, and changes nothing.
pub proof fn message_is_printed(
    v: HeadlessView,
    from: Seq<char>,
    name: Seq<char>,
    text: Seq<char>,
)
    ensures
        event_step(v, Some(EventView::Message { from, name, text })) == (
            v,
            TextView::Print("["@ + name + "] "@ + text),
        ),
{
}

/// What becomes of the room is printed: that it is ready, with as much of its address as
/// fits into twelve bytes; its new codes; its errors; and its end.
pub proof fn room_is_reported(
    v: HeadlessView,
    onion_address: Seq<char>,
    port: u16,
    code: Seq<char>,
    error: ErrorView,
)
    ensures
        event_step(v, Some(EventView::RoomReady { onion_address, port })) == (
            HeadlessView { room_ready: true, peers: v.peers },
            TextView::Print(
                "\n[system] room ready: "@ + onion_address.take(
                    text::fitting(onion_address, 12) as int,
                ) + "..."@,
            ),
        ),
        event_step(v, Some(EventView::InviteCreated { code })) == (
            v,
            TextView::Print("[system] new invite code: "@ + code),
        ),
        event_step(v, Some(EventView::Error(error))) == (
            v,
            TextView::Warn("\n[error] "@ + error_text(error)),
        ),
        event_step(v, Some(EventView::RoomClosed)) == (
            v,
            TextView::PrintAndStop("[system] room closed"@),
        ),
        event_step(v, None) == (v, TextView::WarnAndStop("\n[system] connection lost"@)),
{
}

/// Whoever comes or goes is reported by name. With somebody there, the room is ready; a
/// departure says nothing about that.
pub proof fn peers_are_reported(v: HeadlessView, info: PeerInfoView, id: Seq<char>)
    ensures
        event_step(v, Some(EventView::PeerJoin(info))) == (
            HeadlessView {
                room_ready: true,
                peers: if roster::lists(v.peers, info.id) {
                    v.peers
                } else {
                    v.peers.push(info)
                },
            },
            TextView::Print("[system] "@ + info.name + " joined"@),
        ),
        event_step(v, Some(EventView::PeerLeave(id))) == (
            HeadlessView {
                room_ready: v.room_ready,
                peers: v.peers.filter(|p: PeerInfoView| p.id != id),
            },
            TextView::Print("[system] "@ + roster::name_of(v.peers, id) + " left"@),
        ),
{
}

/// Progress is printed as a percentage while Tor starts, but neither its beginning nor
/// its end; it changes nothing.
pub proof fn progress_is_printed(v: HeadlessView, pct: u8)
    ensures
        event_step(v, Some(EventView::BootstrapProgress(pct))) == (
            v,
            if pct == 0 || pct >= 100 {
                TextView::Nothing
            } else {
                TextView::Progress("\rBootstrapping: "@ + text::decimal(pct as nat) + "%  "@)
            },
        ),
{
}

/// An empty line asks for nothing, and a line with a slash in front is a command, ready
/// or not: it asks for a code or for the peers, or it is unknown, and is never sent.
pub proof fn commands_are_not_sent(ready: bool, line: Seq<char>)
    ensures
        text::trimmed(line).len() == 0 ==> line_step(ready, line) == TextView::Nothing,
        text::trimmed(line).len() > 0 && text::trimmed(line)[0] == '/' ==> {
            let cmd = text::trimmed(line).skip(1);
            line_step(ready, line) == if text::trimmed(line) == "/quit"@ {
                TextView::Stop
            } else {
                match command::parsed_command(cmd) {
                    command::SlashView::Invite(name) => TextView::Invite(name),
                    command::SlashView::Peers => TextView::Peers,
                    _ => TextView::Print("[system] unknown command: /"@ + cmd),
                }
            }
        },
{
}

/// What is seen of the interface is whether the room is ready, and its peers in order; and
/// what it asks for is seen as it is.
pub proof fn interface_is_seen_whole(h: Headless, s: String, name: Option<String>)
    ensures
        h@.room_ready == h.room_ready,
        h@.peers == types::peer_views(h.peers@),
        TextAction::Nothing@ == TextView::Nothing,
        TextAction::Stop@ == TextView::Stop,
        TextAction::Send(s)@ == TextView::Send(s@),
        TextAction::Invite(name)@ == TextView::Invite(text::opt_text(name)),
        TextAction::Peers@ == TextView::Peers,
        TextAction::Print(s)@ == TextView::Print(s@),
        TextAction::PrintAndStop(s)@ == TextView::PrintAndStop(s@),
        TextAction::Warn(s)@ == TextView::Warn(s@),
        TextAction::WarnAndStop(s)@ == TextView::WarnAndStop(s@),
        TextAction::Progress(s)@ == TextView::Progress(s@),
{
}

} // verus!
