//! The state behind the terminal interface: what keys, events and results do to it.
use vstd::prelude::*;
use vstd::string::*;

use crate::command;
use crate::command::{list_peers, parse_command, SlashCommand};
use crate::error::error_text;
use crate::roster;
use crate::text;
use crate::types;
use crate::types::{ChatEvent, EventView, PeerInfo, PeerInfoView};

pub mod laws;

verus! {

/// How many bytes of an onion address are shown.
pub const ONION_DISPLAY_LEN: usize = 12;

/// How long the interface stays up once the room is closed, in milliseconds.
pub const CLOSING_MILLIS: u64 = 3000;

/// How long the interface stays up once the connection is lost, in milliseconds.
pub const LOST_MILLIS: u64 = 5000;

// ---------------------------------------------------------------------------
// State
// ---------------------------------------------------------------------------

/// The present time: on the calendar, and on a clock that never steps back.
#[derive(Clone, Copy, Debug)]
pub struct Now {
    /// Seconds since the Unix epoch.
    pub unix_secs: i64,
    /// Milliseconds since the program started.
    pub millis: u64,
}

/// A message as it is displayed.
#[derive(Debug)]
pub struct DispMsg {
    /// When it came, in seconds since the Unix epoch, if times are shown.
    pub ts: Option<i64>,
    pub name: String,
    pub text: String,
    pub system: bool,
}

/// A [`DispMsg`] with its texts as characters.
#[verifier::ext_equal]
pub struct MsgView {
    pub ts: Option<i64>,
    pub name: Seq<char>,
    pub text: Seq<char>,
    pub system: bool,
}

impl View for DispMsg {
    type V = MsgView;

    open spec fn view(&self) -> MsgView {
        MsgView { ts: self.ts, name: self.name@, text: self.text@, system: self.system }
    }
}

/// The views of a list of displayed messages.
pub open spec fn msg_views(msgs: Seq<DispMsg>) -> Seq<MsgView> {
    msgs.map_values(|m: DispMsg| m@)
}

/// What the interface is doing.
#[derive(Debug, PartialEq, Eq)]
pub enum Mode {
    /// Tor is starting.
    Bootstrap { progress: u8, msg: String },
    /// The room is up.
    Running,
    /// The room is gone; since when, in milliseconds since the program started, and for
    /// how many the interface stays up.
    ShuttingDown { since: u64, wait: u64 },
}

/// A [`Mode`] with its texts as characters.
#[verifier::ext_equal]
pub enum ModeView {
    Bootstrap { progress: u8, msg: Seq<char> },
    Running,
    ShuttingDown { since: u64, wait: u64 },
}

impl View for Mode {
    type V = ModeView;

    open spec fn view(&self) -> ModeView {
        match self {
            Mode::Bootstrap { progress, msg } => ModeView::Bootstrap {
                progress: *progress,
                msg: msg@,
            },
            Mode::Running => ModeView::Running,
            Mode::ShuttingDown { since, wait } => ModeView::ShuttingDown {
                since: *since,
                wait: *wait,
            },
        }
    }
}

/// The state of the interface.
pub struct App {
    pub mode: Mode,
    /// Whether there is a room to talk to.
    pub has_room: bool,
    pub msgs: Vec<DispMsg>,
    pub input: String,
    /// A byte position in the input.
    pub cursor: usize,
    /// How many messages the view is scrolled up; 0 = at bottom.
    pub scroll: usize,
    pub onion: Option<String>,
    pub peers: Vec<PeerInfo>,
    pub timestamps: bool,
    pub quit: bool,
    /// When the interface started, in milliseconds since the program started.
    pub bootstrap_start: u64,
    pub input_focused: bool,
    /// Whether results of commands can come back.
    pub cmd_ready: bool,
}

/// The state of an [`App`], with its texts as characters.
#[verifier::ext_equal]
pub struct AppView {
    pub mode: ModeView,
    pub has_room: bool,
    pub msgs: Seq<MsgView>,
    pub input: Seq<char>,
    pub cursor: usize,
    pub scroll: usize,
    pub onion: Option<Seq<char>>,
    pub peers: Seq<PeerInfoView>,
    pub timestamps: bool,
    pub quit: bool,
    pub bootstrap_start: u64,
    pub input_focused: bool,
    pub cmd_ready: bool,
}

impl View for App {
    type V = AppView;

    open spec fn view(&self) -> AppView {
        AppView {
            mode: self.mode@,
            has_room: self.has_room,
            msgs: msg_views(self.msgs@),
            input: self.input@,
            cursor: self.cursor,
            scroll: self.scroll,
            onion: text::opt_text(self.onion),
            peers: types::peer_views(self.peers@),
            timestamps: self.timestamps,
            quit: self.quit,
            bootstrap_start: self.bootstrap_start,
            input_focused: self.input_focused,
            cmd_ready: self.cmd_ready,
        }
    }
}

/// What the interface wants done.
#[derive(Debug)]
pub enum UiAction {
    Nothing,
    /// Send a message to the room.
    Send(String),
    /// Generate an invite code, for somebody of that name.
    Invite(Option<String>),
    /// Look up the connected peers.
    Peers,
    /// Leave the room.
    Quit,
}

/// A [`UiAction`] with its texts as characters.
#[verifier::ext_equal]
pub enum UiView {
    Nothing,
    Send(Seq<char>),
    Invite(Option<Seq<char>>),
    Peers,
    Quit,
}

impl View for UiAction {
    type V = UiView;

    open spec fn view(&self) -> UiView {
        match self {
            UiAction::Nothing => UiView::Nothing,
            UiAction::Send(s) => UiView::Send(s@),
            UiAction::Invite(name) => UiView::Invite(text::opt_text(*name)),
            UiAction::Peers => UiView::Peers,
            UiAction::Quit => UiView::Quit,
        }
    }
}

/// What came of a command.
pub enum CmdResult {
    Invite { code: Result<String, String> },
    Peers { peers: Vec<PeerInfo> },
    Quit,
}

// ---------------------------------------------------------------------------
// Keys
// ---------------------------------------------------------------------------

/// A key.
#[derive(Clone, Copy, Debug, PartialEq, Eq, Structural)]
pub enum KeyCode {
    Char(char),
    Enter,
    Backspace,
    Delete,
    Left,
    Right,
    Home,
    End,
    Up,
    Down,
    PageUp,
    PageDown,
    /// Any other key.
    Other,
}

/// The modifiers that are held down with a key.
#[derive(Clone, Copy, Debug, PartialEq, Eq, Structural)]
pub struct KeyModifiers {
    pub control: bool,
    pub shift: bool,
    /// Any other modifier.
    pub other: bool,
}

/// A key press.
#[derive(Clone, Copy, Debug, PartialEq, Eq, Structural)]
pub struct KeyEvent {
    pub code: KeyCode,
    pub modifiers: KeyModifiers,
}

/// Whether a key press is Ctrl-C.
pub open spec fn is_ctrl_c(key: KeyEvent) -> bool {
    key.code == KeyCode::Char('c') && key.modifiers.control
}

/// Whether no modifier is held down, or only Shift.
pub open spec fn is_plain(m: KeyModifiers) -> bool {
    !m.control && !m.other
}

impl KeyEvent {
    /// Whether this is Ctrl-C.
    pub fn is_ctrl_c(&self) -> (b: bool)
        ensures
            b == is_ctrl_c(*self),
    {
        self.code == KeyCode::Char('c') && self.modifiers.control
    }
}

// ---------------------------------------------------------------------------
// Model
// ---------------------------------------------------------------------------

/// The state with one more message.
pub open spec fn pushed(
    v: AppView,
    name: Seq<char>,
    text: Seq<char>,
    system: bool,
    now: Now,
) -> AppView {
    let ts = if v.timestamps {
        Some(now.unix_secs)
    } else {
        None
    };
    AppView { msgs: v.msgs.push(MsgView { ts, name, text, system }), ..v }
}

/// The state with one more message of the system.
pub open spec fn noted(v: AppView, text: Seq<char>, now: Now) -> AppView {
    pushed(v, "system"@, text, true, now)
}

/// The part of an onion address that is shown: as much as fits into twelve bytes.
pub open spec fn shown_onion(addr: Seq<char>) -> Seq<char> {
    addr.take(text::fitting(addr, ONION_DISPLAY_LEN as nat) as int)
}

/// What an event of the room does to the interface.
pub open spec fn event_step(v: AppView, ev: EventView, now: Now) -> AppView {
    match ev {
        EventView::BootstrapProgress(pct) => match v.mode {
            ModeView::Bootstrap { progress, msg } => AppView {
                mode: ModeView::Bootstrap {
                    progress: pct,
                    msg: if pct < 100 {
                        "bootstrapping tor..."@
                    } else {
                        msg
                    },
                },
                ..v
            },
            _ => v,
        },
        EventView::RoomReady { onion_address, .. } => noted(
            AppView { onion: Some(onion_address), mode: ModeView::Running, ..v },
            "room ready: "@ + shown_onion(onion_address) + "..."@,
            now,
        ),
        EventView::PeerJoin(info) => noted(
            AppView {
                peers: roster::with_peer(v.peers, info),
                mode: if v.mode is Bootstrap {
                    ModeView::Running
                } else {
                    v.mode
                },
                ..v
            },
            info.name + " joined"@,
            now,
        ),
        EventView::PeerLeave(id) => noted(
            AppView { peers: roster::without_peer(v.peers, id), ..v },
            roster::name_of(v.peers, id) + " left"@,
            now,
        ),
        EventView::Message { name, text, .. } => pushed(v, name, text, false, now),
        EventView::InviteCreated { code } => noted(v, "new invite code: "@ + code, now),
        EventView::RoomClosed => noted(
            AppView {
                mode: ModeView::ShuttingDown { since: now.millis, wait: CLOSING_MILLIS },
                ..v
            },
            "room closed"@,
            now,
        ),
        EventView::Error(e) => noted(v, "error: "@ + error_text(e), now),
    }
}

/// How many characters stand before the cursor.
pub open spec fn before_cursor(v: AppView) -> nat {
    text::fitting(v.input, v.cursor as nat)
}

/// The state with another input, and the cursor behind its first `n` characters.
pub open spec fn edited(v: AppView, input: Seq<char>, n: nat) -> AppView {
    AppView { input, cursor: text::offset(input, n) as usize, ..v }
}

/// A number less another, or zero.
pub open spec fn less(a: usize, b: usize) -> usize {
    if a >= b {
        (a - b) as usize
    } else {
        0
    }
}

/// A number more another, or the largest there is.
pub open spec fn more(a: usize, b: usize) -> usize {
    if a + b <= usize::MAX {
        (a + b) as usize
    } else {
        usize::MAX
    }
}

/// What the help command shows.
pub open spec fn help_noted(v: AppView, now: Now) -> AppView {
    let v1 = noted(v, "available commands:"@, now);
    let v2 = noted(v1, "  /invite [name]  — generate an invite code"@, now);
    let v3 = noted(v2, "  /peers         — list connected peers"@, now);
    let v4 = noted(v3, "  /help          — show this help"@, now);
    noted(v4, "  /quit          — leave the room"@, now)
}

/// What a command, given without its slash, does.
pub open spec fn dispatch_step(v: AppView, cmd: Seq<char>, now: Now) -> (AppView, UiView) {
    if !v.has_room {
        (noted(v, "room not ready"@, now), UiView::Nothing)
    } else if !v.cmd_ready {
        (noted(v, "command channel not ready"@, now), UiView::Nothing)
    } else {
        match command::parsed_command(cmd) {
            command::SlashView::Invite(name) => (v, UiView::Invite(name)),
            command::SlashView::Peers => (v, UiView::Peers),
            command::SlashView::Quit => (v, UiView::Quit),
            command::SlashView::Help => (help_noted(v, now), UiView::Nothing),
            command::SlashView::Unknown(s) => (
                noted(v, "unknown command: /"@ + s, now),
                UiView::Nothing,
            ),
        }
    }
}

/// What Enter does: the input is consumed, and the view jumps to the bottom.
pub open spec fn send_step(v: AppView, now: Now) -> (AppView, UiView) {
    let cleared = AppView { input: Seq::empty(), cursor: 0, scroll: 0, ..v };
    if v.input.len() == 0 {
        (cleared, UiView::Nothing)
    } else {
        match text::after_slash(v.input) {
            Some(cmd) => dispatch_step(cleared, cmd, now),
            None => if v.has_room {
                (cleared, UiView::Send(v.input))
            } else {
                (cleared, UiView::Nothing)
            },
        }
    }
}

/// What a key press does.
pub open spec fn key_step(v: AppView, key: KeyEvent, now: Now) -> (AppView, UiView) {
    if is_ctrl_c(key) {
        (AppView { quit: true, ..v }, UiView::Nothing)
    } else if v.mode != ModeView::Running {
        (v, UiView::Nothing)
    } else {
        match key.code {
            KeyCode::Enter => send_step(v, now),
            KeyCode::Char(c) => if is_plain(key.modifiers) {
                let n = before_cursor(v);
                (edited(v, v.input.insert(n as int, c), n + 1), UiView::Nothing)
            } else {
                (v, UiView::Nothing)
            },
            KeyCode::Backspace => {
                let n = before_cursor(v);
                if n > 0 {
                    (edited(v, v.input.remove(n - 1), (n - 1) as nat), UiView::Nothing)
                } else {
                    (v, UiView::Nothing)
                }
            },
            KeyCode::Delete => {
                let n = before_cursor(v);
                if n < v.input.len() {
                    (edited(v, v.input.remove(n as int), n), UiView::Nothing)
                } else {
                    (v, UiView::Nothing)
                }
            },
            KeyCode::Left => {
                let n = before_cursor(v);
                if n > 0 {
                    (edited(v, v.input, (n - 1) as nat), UiView::Nothing)
                } else {
                    (v, UiView::Nothing)
                }
            },
            KeyCode::Right => {
                let n = before_cursor(v);
                if n < v.input.len() {
                    (edited(v, v.input, n + 1), UiView::Nothing)
                } else {
                    (v, UiView::Nothing)
                }
            },
            KeyCode::Home => (AppView { cursor: 0, ..v }, UiView::Nothing),
            KeyCode::End => (edited(v, v.input, v.input.len()), UiView::Nothing),
            KeyCode::Up => (AppView { scroll: more(v.scroll, 1), ..v }, UiView::Nothing),
            KeyCode::Down => (AppView { scroll: less(v.scroll, 1), ..v }, UiView::Nothing),
            KeyCode::PageUp => (AppView { scroll: more(v.scroll, 10), ..v }, UiView::Nothing),
            KeyCode::PageDown => (AppView { scroll: less(v.scroll, 10), ..v }, UiView::Nothing),
            KeyCode::Other => (v, UiView::Nothing),
        }
    }
}

/// What the result of a command does.
pub open spec fn result_step(v: AppView, result: CmdResult, now: Now) -> AppView {
    match result {
        CmdResult::Invite { code: Ok(c) } => noted(v, "invite code: "@ + c@, now),
        CmdResult::Invite { code: Err(e) } => noted(v, "invite failed: "@ + e@, now),
        CmdResult::Peers { peers } => noted(
            v,
            command::peer_list(peers@, "no peers connected"@),
            now,
        ),
        CmdResult::Quit => AppView { quit: true, ..v },
    }
}

/// What the end of the room's events does.
pub open spec fn lost_step(v: AppView, now: Now) -> AppView {
    if v.mode is ShuttingDown {
        v
    } else {
        AppView {
            mode: ModeView::ShuttingDown { since: now.millis, wait: LOST_MILLIS },
            ..noted(v, "connection lost"@, now)
        }
    }
}

/// What the passing of time does: a closed room is left after three seconds, and one to
/// which the connection was lost after five.
pub open spec fn tick_step(v: AppView, now: Now) -> AppView {
    AppView {
        quit: v.quit || (v.mode matches ModeView::ShuttingDown { since, wait } && now.millis
            > since + wait),
        ..v
    }
}

/// What happens to the interface.
pub enum UiInput {
    /// A key was pressed.
    Key(KeyEvent),
    /// The room has an event, or will have none any more.
    Event(Option<ChatEvent>),
    /// A command has a result.
    Result(CmdResult),
    /// Some time has passed.
    Tick,
}

/// What happens when the interface takes something in; and each time it looks at the
/// clock.
pub open spec fn ui_step(v: AppView, input: UiInput, now: Now) -> (AppView, UiView) {
    let (next, action) = match input {
        UiInput::Key(key) => key_step(v, key, now),
        UiInput::Event(Some(ev)) => (event_step(v, ev@, now), UiView::Nothing),
        UiInput::Event(None) => (lost_step(v, now), UiView::Nothing),
        UiInput::Result(result) => (result_step(v, result, now), UiView::Nothing),
        UiInput::Tick => (v, UiView::Nothing),
    };
    (tick_step(next, now), action)
}

// ---------------------------------------------------------------------------
// The interface
// ---------------------------------------------------------------------------

/// The part of an onion address that is shown.
pub fn truncate_onion(addr: &str) -> (s: &str)
    ensures
        s@ == shown_onion(addr@),
{
    text::cut(addr, ONION_DISPLAY_LEN)
}

impl App {
    /// A new interface, while Tor starts.
    pub fn new(timestamps: bool, now: Now) -> (app: Self)
        ensures
            app@ == (AppView {
                mode: ModeView::Bootstrap { progress: 0, msg: "starting tor..."@ },
                has_room: false,
                msgs: Seq::empty(),
                input: Seq::empty(),
                cursor: 0,
                scroll: 0,
                onion: None,
                peers: Seq::empty(),
                timestamps,
                quit: false,
                bootstrap_start: now.millis,
                input_focused: true,
                cmd_ready: false,
            }),
    {
        let msgs: Vec<DispMsg> = Vec::new();
        let peers: Vec<PeerInfo> = Vec::new();
        assert(msg_views(msgs@) =~= Seq::empty());
        assert(types::peer_views(peers@) =~= Seq::empty());
        App {
            mode: Mode::Bootstrap { progress: 0, msg: "starting tor...".to_owned() },
            has_room: false,
            msgs,
            input: String::new(),
            cursor: 0,
            scroll: 0,
            onion: None,
            peers,
            timestamps,
            quit: false,
            bootstrap_start: now.millis,
            input_focused: true,
            cmd_ready: false,
        }
    }

    /// Results of commands can come back from now on.
    pub fn set_cmd_tx(&mut self)
        ensures
            final(self)@ == (AppView { cmd_ready: true, ..old(self)@ }),
    {
        self.cmd_ready = true;
    }

    /// Adds a message.
    pub fn push(&mut self, name: String, text: String, system: bool, now: Now)
        ensures
            final(self)@ == pushed(old(self)@, name@, text@, system, now),
    {
        let ts = if self.timestamps {
            Some(now.unix_secs)
        } else {
            None
        };
        let ghost before = self.msgs@;
        let m = DispMsg { ts, name, text, system };
        self.msgs.push(m);
        assert(msg_views(self.msgs@) =~= msg_views(before).push(m@));
    }

    /// Adds a message of the system.
    fn note(&mut self, text: String, now: Now)
        ensures
            final(self)@ == noted(old(self)@, text@, now),
    {
        self.push("system".to_owned(), text, true, now);
    }

    /// Whether the newest message is in view.
    pub fn at_bottom(&self) -> (b: bool)
        ensures
            b == (self@.scroll == 0),
    {
        self.scroll == 0
    }

    /// Takes in an event of the room.
    pub fn handle_event(&mut self, ev: ChatEvent, now: Now)
        ensures
            final(self)@ == event_step(old(self)@, ev@, now),
            ev matches ChatEvent::Message { name, text, .. } ==> final(self)@ == (AppView {
                msgs: old(self)@.msgs.push(
                    MsgView {
                        ts: if old(self)@.timestamps {
                            Some(now.unix_secs)
                        } else {
                            None
                        },
                        name: name@,
                        text: text@,
                        system: false,
                    },
                ),
                ..old(self)@
            }),
    {
        match ev {
            ChatEvent::BootstrapProgress(pct) => {
                if let Mode::Bootstrap { progress, msg } = &mut self.mode {
                    *progress = pct;
                    if pct < 100 {
                        *msg = "bootstrapping tor...".to_owned();
                    }
                }
            },
            ChatEvent::RoomReady { onion_address, .. } => {
                let shown = truncate_onion(onion_address.as_str());
                let line = text::concat3("room ready: ", shown, "...");
                self.onion = Some(onion_address);
                self.mode = Mode::Running;
                self.note(line, now);
            },
            ChatEvent::PeerJoin(info) => {
                roster::add_peer(&mut self.peers, &info);
                let starting = matches!(self.mode, Mode::Bootstrap { .. });
                if starting {
                    self.mode = Mode::Running;
                }
                self.note(text::concat2(info.name.as_str(), " joined"), now);
            },
            ChatEvent::PeerLeave(id) => {
                let name = roster::peer_name(&self.peers, &id);
                roster::remove_peer(&mut self.peers, &id);
                self.note(text::concat2(name.as_str(), " left"), now);
            },
            ChatEvent::Message { name, text, .. } => {
                self.push(name, text, false, now);
            },
            ChatEvent::InviteCreated { code } => {
                self.note(text::concat2("new invite code: ", code.as_str()), now);
            },
            ChatEvent::RoomClosed => {
                self.mode = Mode::ShuttingDown { since: now.millis, wait: CLOSING_MILLIS };
                self.note("room closed".to_owned(), now);
            },
            ChatEvent::Error(e) => {
                let reason = e.message();
                self.note(text::concat2("error: ", reason.as_str()), now);
            },
        }
    }

    /// The room's events have ended.
    pub fn events_ended(&mut self, now: Now)
        ensures
            final(self)@ == lost_step(old(self)@, now),
    {
        let closing = matches!(self.mode, Mode::ShuttingDown { .. });
        if !closing {
            self.note("connection lost".to_owned(), now);
            self.mode = Mode::ShuttingDown { since: now.millis, wait: LOST_MILLIS };
        }
    }

    /// Takes in the result of a command.
    pub fn handle_result(&mut self, result: CmdResult, now: Now)
        ensures
            final(self)@ == result_step(old(self)@, result, now),
    {
        match result {
            CmdResult::Invite { code: Ok(c) } => {
                self.note(text::concat2("invite code: ", c.as_str()), now);
            },
            CmdResult::Invite { code: Err(e) } => {
                self.note(text::concat2("invite failed: ", e.as_str()), now);
            },
            CmdResult::Peers { peers } => {
                self.note(list_peers(&peers, "no peers connected"), now);
            },
            CmdResult::Quit => {
                self.quit = true;
            },
        }
    }

    /// Takes in whatever happened, and looks at the clock.
    pub fn step(&mut self, input: UiInput, now: Now) -> (action: UiAction)
        ensures
            (final(self)@, action@) == ui_step(old(self)@, input, now),
    {
        let action = match input {
            UiInput::Key(key) => self.handle_key(key, now),
            UiInput::Event(Some(ev)) => {
                self.handle_event(ev, now);
                UiAction::Nothing
            },
            UiInput::Event(None) => {
                self.events_ended(now);
                UiAction::Nothing
            },
            UiInput::Result(result) => {
                self.handle_result(result, now);
                UiAction::Nothing
            },
            UiInput::Tick => UiAction::Nothing,
        };
        self.tick(now);
        action
    }

    /// How many whole seconds ago the interface started.
    pub fn uptime_secs(&self, now: Now) -> (secs: u64)
        ensures
            secs == if now.millis >= self@.bootstrap_start {
                (now.millis - self@.bootstrap_start) / 1000
            } else {
                0
            },
    {
        now.millis.saturating_sub(self.bootstrap_start) / 1000
    }

    /// Time has passed.
    pub fn tick(&mut self, now: Now)
        ensures
            final(self)@ == tick_step(old(self)@, now),
    {
        if let Mode::ShuttingDown { since, wait } = &self.mode {
            if now.millis > *since && now.millis - *since > *wait {
                self.quit = true;
            }
        }
    }

    /// Puts the cursor behind the first `n` characters of the input.
    fn put_cursor(&mut self, n: usize)
        requires
            n <= old(self)@.input.len(),
        ensures
            final(self)@ == edited(old(self)@, old(self)@.input, n as nat),
    {
        self.cursor = text::byte_offset(self.input.as_str(), n);
    }

    /// Types a character behind the first `n` characters of the input.
    fn insert_at(&mut self, n: usize, c: char)
        requires
            n <= old(self)@.input.len(),
        ensures
            final(self)@ == edited(
                old(self)@,
                old(self)@.input.insert(n as int, c),
                (n + 1) as nat,
            ),
    {
        let len: usize = self.input.as_str().unicode_len();
        let mut line = self.input.as_str().substring_char(0, n).to_owned();
        line.push(c);
        self.cursor = text::byte_len(line.as_str());
        let ghost head = line@;
        line.append(self.input.as_str().substring_char(n, len));
        proof {
            assert(line@ =~= self.input@.insert(n as int, c));
            assert(line@.take(n + 1) =~= head);
        }
        self.input = line;
    }

    /// Erases the character behind the first `n` characters of the input.
    fn remove_at(&mut self, n: usize)
        requires
            n < old(self)@.input.len(),
        ensures
            final(self)@ == edited(old(self)@, old(self)@.input.remove(n as int), n as nat),
    {
        let len: usize = self.input.as_str().unicode_len();
        let mut line = self.input.as_str().substring_char(0, n).to_owned();
        self.cursor = text::byte_len(line.as_str());
        let ghost head = line@;
        line.append(self.input.as_str().substring_char(n + 1, len));
        proof {
            assert(line@ =~= self.input@.remove(n as int));
            assert(line@.take(n as int) =~= head);
        }
        self.input = line;
    }

    /// Takes in a key press.
    pub fn handle_key(&mut self, key: KeyEvent, now: Now) -> (action: UiAction)
        ensures
            (final(self)@, action@) == key_step(old(self)@, key, now),
    {
        if key.is_ctrl_c() {
            self.quit = true;
            return UiAction::Nothing;
        }
        let running = matches!(self.mode, Mode::Running);
        if !running {
            return UiAction::Nothing;
        }
        let n: usize = text::chars_fitting(self.input.as_str(), self.cursor);
        let len: usize = self.input.as_str().unicode_len();
        match key.code {
            KeyCode::Enter => {
                return self.send(now);
            },
            KeyCode::Char(c) => {
                if !key.modifiers.control && !key.modifiers.other {
                    self.insert_at(n, c);
                }
            },
            KeyCode::Backspace => {
                if n > 0 {
                    self.remove_at(n - 1);
                }
            },
            KeyCode::Delete => {
                if n < len {
                    self.remove_at(n);
                }
            },
            KeyCode::Left => {
                if n > 0 {
                    self.put_cursor(n - 1);
                }
            },
            KeyCode::Right => {
                if n < len {
                    self.put_cursor(n + 1);
                }
            },
            KeyCode::Home => {
                self.cursor = 0;
            },
            KeyCode::End => {
                self.put_cursor(len);
            },
            KeyCode::Up => {
                self.scroll = self.scroll.saturating_add(1);
            },
            KeyCode::Down => {
                self.scroll = self.scroll.saturating_sub(1);
            },
            KeyCode::PageUp => {
                self.scroll = self.scroll.saturating_add(10);
            },
            KeyCode::PageDown => {
                self.scroll = self.scroll.saturating_sub(10);
            },
            KeyCode::Other => {},
        }
        UiAction::Nothing
    }

    /// Consumes the input.
    pub fn send(&mut self, now: Now) -> (action: UiAction)
        ensures
            (final(self)@, action@) == send_step(old(self)@, now),
    {
        let mut line = String::new();
        std::mem::swap(&mut line, &mut self.input);
        self.cursor = 0;
        self.scroll = 0;
        if line.as_str().unicode_len() == 0 {
            return UiAction::Nothing;
        }
        match text::strip_slash(line.as_str()) {
            Some(cmd) => self.dispatch_command(cmd.as_str(), now),
            None => {
                if self.has_room {
                    UiAction::Send(line)
                } else {
                    UiAction::Nothing
                }
            },
        }
    }

    /// Carries out a command, given without its slash.
    pub fn dispatch_command(&mut self, cmd: &str, now: Now) -> (action: UiAction)
        ensures
            (final(self)@, action@) == dispatch_step(old(self)@, cmd@, now),
    {
        if !self.has_room {
            self.note("room not ready".to_owned(), now);
            return UiAction::Nothing;
        }
        if !self.cmd_ready {
            self.note("command channel not ready".to_owned(), now);
            return UiAction::Nothing;
        }
        match parse_command(cmd) {
            SlashCommand::Invite(name) => UiAction::Invite(name),
            SlashCommand::Peers => UiAction::Peers,
            SlashCommand::Quit => UiAction::Quit,
            SlashCommand::Help => {
                self.note("available commands:".to_owned(), now);
                self.note("  /invite [name]  — generate an invite code".to_owned(), now);
                self.note("  /peers         — list connected peers".to_owned(), now);
                self.note("  /help          — show this help".to_owned(), now);
                self.note("  /quit          — leave the room".to_owned(), now);
                UiAction::Nothing
            },
            SlashCommand::Unknown(s) => {
                self.note(text::concat2("unknown command: /", s.as_str()), now);
                UiAction::Nothing
            },
        }
    }
}

} // verus!
