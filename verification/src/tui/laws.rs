//! What holds of the terminal interface, whatever is typed and whatever happens.
use vstd::prelude::*;
use vstd::utf8::*;

use crate::command;
use crate::connection;
use crate::error::{error_text, ErrorView};
use crate::headless;
use crate::headless::{HeadlessView, TextView};
use crate::joiner;
use crate::joiner::{ActionView, LoopInput, LoopView, PhaseView};
use crate::room;
use crate::room::{HostInput, HostPhase, HostView};
use crate::roster;
use crate::text;
use crate::tui;
use crate::tui::{
    App, AppView, CmdResult, KeyCode, KeyEvent, KeyModifiers, Mode, ModeView, MsgView, Now,
    UiAction, UiInput, UiView,
};
use crate::types;
use crate::types::{ChatEvent, EventView, PeerId, PeerInfo, PeerInfoView};
use crate::wire::WireMessage;

verus! {

// ---------------------------------------------------------------------------
// Keys
// ---------------------------------------------------------------------------

/// Ctrl-C quits, whatever the interface is doing, and no other key does.
pub proof fn only_ctrl_c_quits(v: AppView, key: KeyEvent, now: Now)
    ensures
        tui::key_step(v, key, now).0.quit == (v.quit || tui::is_ctrl_c(key)),
{
}

/// Input is locked while Tor starts and while the room closes: no key but Ctrl-C does
/// anything.
pub proof fn input_is_locked(v: AppView, key: KeyEvent, now: Now)
    requires
        v.mode != ModeView::Running,
        !tui::is_ctrl_c(key),
    ensures
        tui::key_step(v, key, now) == (v, UiView::Nothing),
{
}

/// Enter consumes the input and jumps to the bottom.
pub proof fn enter_consumes_input(v: AppView, modifiers: KeyModifiers, now: Now)
    requires
        v.mode == ModeView::Running,
    ensures
        ({
            let next = tui::key_step(v, KeyEvent { code: KeyCode::Enter, modifiers }, now).0;
            &&& next.input.len() == 0
            &&& next.cursor == 0
            &&& next.scroll == 0
        }),
{
}

/// A line that is not empty and does not start with a slash is sent to the room as it
/// is; an empty line is not.
pub proof fn enter_sends_line(v: AppView, modifiers: KeyModifiers, now: Now)
    requires
        v.mode == ModeView::Running,
        v.has_room,
    ensures
        ({
            let action = tui::key_step(v, KeyEvent { code: KeyCode::Enter, modifiers }, now).1;
            &&& v.input.len() > 0 && v.input[0] != '/' ==> action == UiView::Send(v.input)
            &&& v.input.len() == 0 ==> action == UiView::Nothing
            &&& v.input.len() > 0 && v.input[0] == '/' ==> !(action is Send)
        }),
{
}

/// Keys other than Enter ask for nothing to be done.
pub proof fn only_enter_acts(v: AppView, key: KeyEvent, now: Now)
    requires
        key.code != KeyCode::Enter,
    ensures
        tui::key_step(v, key, now).1 == UiView::Nothing,
{
}

/// Scrolling down never goes below the bottom, and scrolling up and down again by the
/// same distance changes nothing.
pub proof fn scrolling_is_undone(v: AppView, modifiers: KeyModifiers, now: Now)
    requires
        v.mode == ModeView::Running,
        v.scroll + 10 <= usize::MAX,
    ensures
        ({
            let up = KeyEvent { code: KeyCode::Up, modifiers };
            let down = KeyEvent { code: KeyCode::Down, modifiers };
            let page_up = KeyEvent { code: KeyCode::PageUp, modifiers };
            let page_down = KeyEvent { code: KeyCode::PageDown, modifiers };
            &&& tui::key_step(tui::key_step(v, up, now).0, down, now).0 == v
            &&& tui::key_step(tui::key_step(v, page_up, now).0, page_down, now).0 == v
            &&& v.scroll == 0 ==> tui::key_step(v, down, now).0 == v
            &&& v.scroll <= 10 ==> tui::key_step(v, page_down, now).0.scroll == 0
        }),
{
}

// ---------------------------------------------------------------------------
// Editing
// ---------------------------------------------------------------------------

/// Whether the cursor stands between characters.
pub open spec fn between_chars(v: AppView) -> bool {
    v.cursor == text::offset(v.input, tui::before_cursor(v))
}

/// The input can be held, and one more character beside it.
pub open spec fn has_room_to_type(v: AppView) -> bool {
    encode_utf8(v.input).len() + 4 <= usize::MAX
}

proof fn lemma_edited(v: AppView, input: Seq<char>, n: nat)
    requires
        n <= input.len(),
        encode_utf8(input).len() <= usize::MAX,
    ensures
        between_chars(tui::edited(v, input, n)),
        tui::before_cursor(tui::edited(v, input, n)) == n,
        tui::edited(v, input, n).cursor == text::offset(input, n),
{
    text::lemma_offset_monotonic(input, n, input.len());
    assert(input.take(input.len() as int) =~= input);
    text::lemma_fitting_offset(input, n);
}

proof fn lemma_insert_size(input: Seq<char>, n: int, c: char)
    requires
        0 <= n <= input.len(),
    ensures
        encode_utf8(input.insert(n, c)).len() <= encode_utf8(input).len() + 4,
        text::offset(input.insert(n, c), (n + 1) as nat) == text::offset(input, n as nat)
            + encode_scalar(c as u32).len(),
{
    let a = input.take(n);
    let b = input.skip(n);
    let typed = input.insert(n, c);
    assert(input =~= a + b);
    assert(typed =~= a + (seq![c] + b));
    text::lemma_encode_concat(a, b);
    text::lemma_encode_concat(a, seq![c] + b);
    text::lemma_encode_concat(seq![c], b);
    text::lemma_encode_char(c);
    assert(typed.take(n) =~= a);
    text::lemma_offset_step(typed, n as nat);
}

proof fn lemma_remove_size(input: Seq<char>, n: int)
    requires
        0 <= n < input.len(),
    ensures
        encode_utf8(input.remove(n)).len() <= encode_utf8(input).len(),
{
    let a = input.take(n);
    let b = input.skip(n + 1);
    let c = input[n];
    assert(input =~= a + (seq![c] + b));
    assert(input.remove(n) =~= a + b);
    text::lemma_encode_concat(a, b);
    text::lemma_encode_concat(a, seq![c] + b);
    text::lemma_encode_concat(seq![c], b);
}

/// Whatever is typed, in whatever script, the cursor stays between characters.
pub proof fn cursor_stays_between_chars(v: AppView, key: KeyEvent, now: Now)
    requires
        between_chars(v),
        has_room_to_type(v),
    ensures
        between_chars(tui::key_step(v, key, now).0),
{
    let n = tui::before_cursor(v);
    text::lemma_fitting(v.input, v.cursor as nat);
    if v.mode == ModeView::Running && !tui::is_ctrl_c(key) {
        match key.code {
            KeyCode::Char(c) => {
                if tui::is_plain(key.modifiers) {
                    lemma_insert_size(v.input, n as int, c);
                    lemma_edited(v, v.input.insert(n as int, c), n + 1);
                }
            },
            KeyCode::Backspace => {
                if n > 0 {
                    lemma_remove_size(v.input, n - 1);
                    lemma_edited(v, v.input.remove(n - 1), (n - 1) as nat);
                }
            },
            KeyCode::Delete => {
                if n < v.input.len() {
                    lemma_remove_size(v.input, n as int);
                    lemma_edited(v, v.input.remove(n as int), n);
                }
            },
            KeyCode::Left => {
                if n > 0 {
                    lemma_edited(v, v.input, (n - 1) as nat);
                }
            },
            KeyCode::Right => {
                if n < v.input.len() {
                    lemma_edited(v, v.input, n + 1);
                }
            },
            KeyCode::Home => {
                lemma_edited(v, v.input, 0);
                assert(v.input.take(0) =~= Seq::<char>::empty());
                assert(encode_utf8(Seq::<char>::empty()) =~= Seq::<u8>::empty());
            },
            KeyCode::End => {
                lemma_edited(v, v.input, v.input.len());
            },
            KeyCode::Enter => {
                lemma_send_clears(v, now);
                let next = tui::key_step(v, key, now).0;
                assert(next.input =~= Seq::<char>::empty());
                assert(next.input.take(0) =~= Seq::<char>::empty());
                assert(encode_utf8(Seq::<char>::empty()) =~= Seq::<u8>::empty());
            },
            _ => {},
        }
    }
}

proof fn lemma_send_clears(v: AppView, now: Now)
    ensures
        tui::send_step(v, now).0.input.len() == 0,
        tui::send_step(v, now).0.cursor == 0,
{
}

/// A character is typed at the cursor, the cursor moves behind it, and Backspace takes
/// it back.
pub proof fn backspace_undoes_typing(v: AppView, c: char, now: Now)
    requires
        between_chars(v),
        has_room_to_type(v),
        v.mode == ModeView::Running,
    ensures
        ({
            let plain = KeyModifiers { control: false, shift: false, other: false };
            let typing = KeyEvent { code: KeyCode::Char(c), modifiers: plain };
            let backspace = KeyEvent { code: KeyCode::Backspace, modifiers: plain };
            let typed = tui::key_step(v, typing, now).0;
            &&& typed.input == v.input.insert(tui::before_cursor(v) as int, c)
            &&& typed.cursor == v.cursor + encode_scalar(c as u32).len()
            &&& tui::key_step(typed, backspace, now).0 == v
        }),
{
    let n = tui::before_cursor(v);
    let input = v.input.insert(n as int, c);
    text::lemma_fitting(v.input, v.cursor as nat);
    lemma_insert_size(v.input, n as int, c);
    lemma_edited(v, input, n + 1);
    assert(input.remove(n as int) =~= v.input);
}

/// Stepping over a character and back again changes nothing.
pub proof fn arrows_undo_each_other(v: AppView, modifiers: KeyModifiers, now: Now)
    requires
        between_chars(v),
        encode_utf8(v.input).len() <= usize::MAX,
        v.mode == ModeView::Running,
    ensures
        ({
            let left = KeyEvent { code: KeyCode::Left, modifiers };
            let right = KeyEvent { code: KeyCode::Right, modifiers };
            let n = tui::before_cursor(v);
            &&& n < v.input.len() ==> tui::key_step(tui::key_step(v, right, now).0, left, now).0
                == v
            &&& n > 0 ==> tui::key_step(tui::key_step(v, left, now).0, right, now).0 == v
        }),
{
    let n = tui::before_cursor(v);
    text::lemma_fitting(v.input, v.cursor as nat);
    if n < v.input.len() {
        lemma_edited(v, v.input, n + 1);
    }
    if n > 0 {
        lemma_edited(v, v.input, (n - 1) as nat);
    }
}

/// The state after the characters of a text were typed, one after the other.
pub open spec fn after_typing(v: AppView, s: Seq<char>, now: Now) -> AppView
    decreases s.len(),
{
    if s.len() == 0 {
        v
    } else {
        let plain = KeyModifiers { control: false, shift: false, other: false };
        let key = KeyEvent { code: KeyCode::Char(s.last()), modifiers: plain };
        tui::key_step(after_typing(v, s.drop_last(), now), key, now).0
    }
}

/// What is typed at the end of the input, character by character and in whatever
/// script, stands in the input, the cursor stands behind it, and nothing else changes.
pub proof fn typing_appends(v: AppView, s: Seq<char>, now: Now)
    requires
        v.mode == ModeView::Running,
        v.cursor == encode_utf8(v.input).len(),
        encode_utf8(v.input + s).len() <= usize::MAX,
    ensures
        after_typing(v, s, now) == (AppView {
            input: v.input + s,
            cursor: encode_utf8(v.input + s).len() as usize,
            ..v
        }),
    decreases s.len(),
{
    if s.len() == 0 {
        assert(v.input + s =~= v.input);
    } else {
        let head = s.drop_last();
        let c = s.last();
        let whole = v.input + s;
        let part = v.input + head;
        assert(whole =~= part + seq![c]);
        text::lemma_encode_concat(part, seq![c]);
        typing_appends(v, head, now);
        let before = after_typing(v, head, now);
        assert(part.take(part.len() as int) =~= part);
        text::lemma_fitting_offset(part, part.len());
        assert(tui::before_cursor(before) == part.len());
        assert(part.insert(part.len() as int, c) =~= whole);
        assert(whole.take(whole.len() as int) =~= whole);
    }
}

// ---------------------------------------------------------------------------
// Events
// ---------------------------------------------------------------------------

/// No peer is ever listed twice, whatever happens in the room.
pub proof fn peers_stay_unique(v: AppView, ev: EventView, now: Now)
    requires
        roster::peers_unique(v.peers),
    ensures
        roster::peers_unique(tui::event_step(v, ev, now).peers),
{
    match ev {
        EventView::PeerLeave(id) => {
            roster::removing_keeps_unique(v.peers, id);
        },
        EventView::PeerJoin(info) => {
            roster::adding_keeps_unique(v.peers, info);
        },
        _ => {},
    }
}

/// A peer that has left is not listed any more, and all others still are.
pub proof fn left_peer_is_gone(v: AppView, id: Seq<char>, now: Now)
    requires
        roster::peers_unique(v.peers),
    ensures
        ({
            let after = tui::event_step(v, EventView::PeerLeave(id), now).peers;
            &&& !roster::lists(after, id)
            &&& forall|i: int|
                0 <= i < v.peers.len() && (#[trigger] v.peers[i]).id != id ==> after.contains(
                    v.peers[i],
                )
        }),
{
    roster::removed_peer_is_gone(v.peers, id);
}

/// A peer that has joined is listed.
pub proof fn joined_peer_is_listed(v: AppView, info: PeerInfoView, now: Now)
    ensures
        roster::lists(tui::event_step(v, EventView::PeerJoin(info), now).peers, info.id),
{
    roster::added_peer_is_listed(v.peers, info);
}

/// Whoever joins and leaves is named both times.
pub proof fn peer_is_named_when_it_leaves(v: AppView, info: PeerInfoView, now: Now)
    requires
        !roster::lists(v.peers, info.id),
    ensures
        ({
            let joined = tui::event_step(v, EventView::PeerJoin(info), now);
            let left = tui::event_step(joined, EventView::PeerLeave(info.id), now);
            &&& joined.msgs.last().text == info.name + " joined"@
            &&& left.msgs.last().text == info.name + " left"@
            &&& left.msgs.last().system
        }),
{
    roster::newcomer_is_known_by_name(v.peers, info, info);
}

/// Nothing that was shown disappears: events, results of commands and keys only ever
/// add messages.
pub proof fn history_is_kept(v: AppView, ev: EventView, key: KeyEvent, result: CmdResult, now: Now)
    ensures
        v.msgs.is_prefix_of(tui::event_step(v, ev, now).msgs),
        v.msgs.is_prefix_of(tui::key_step(v, key, now).0.msgs),
        v.msgs.is_prefix_of(tui::result_step(v, result, now).msgs),
        v.msgs.is_prefix_of(tui::lost_step(v, now).msgs),
{
    assert(v.msgs.is_prefix_of(tui::key_step(v, key, now).0.msgs)) by {
        if key.code == KeyCode::Enter {
            lemma_send_history(v, now);
        }
    }
}

proof fn lemma_send_history(v: AppView, now: Now)
    ensures
        v.msgs.is_prefix_of(tui::send_step(v, now).0.msgs),
{
    let cleared = AppView { input: Seq::empty(), cursor: 0, scroll: 0, ..v };
    assert(v.msgs.is_prefix_of(tui::help_noted(cleared, now).msgs));
}

/// A room that is up is announced, and can be talked in.
pub proof fn ready_room_runs(v: AppView, onion_address: Seq<char>, port: u16, now: Now)
    ensures
        ({
            let next = tui::event_step(v, EventView::RoomReady { onion_address, port }, now);
            &&& next.mode == ModeView::Running
            &&& next.onion == Some(onion_address)
        }),
{
}

/// When the room closes, input is locked, and three seconds later the interface quits
/// by itself, not earlier.
pub proof fn closed_room_is_left(v: AppView, closed: Now, later: Now)
    requires
        !v.quit,
    ensures
        ({
            let closing = tui::event_step(v, EventView::RoomClosed, closed);
            &&& closing.mode is ShuttingDown
            &&& tui::tick_step(closing, later).quit <==> later.millis > closed.millis + 3000
        }),
{
}

/// When the connection is lost, the user is told once, input is locked, and five seconds
/// later the interface quits by itself, not earlier.
pub proof fn lost_room_is_left(v: AppView, lost: Now, later: Now)
    requires
        !v.quit,
        !(v.mode is ShuttingDown),
    ensures
        ({
            let closing = tui::lost_step(v, lost);
            &&& closing.mode is ShuttingDown
            &&& closing.msgs == tui::noted(v, "connection lost"@, lost).msgs
            &&& tui::lost_step(closing, later) == closing
            &&& tui::tick_step(closing, later).quit <==> later.millis > lost.millis + 5000
        }),
{
}

/// Whatever happens, the interface never forgets that it is to quit, and never lists a
/// peer twice.
#[verifier::rlimit(30)]
pub proof fn interface_invariants(v: AppView, input: UiInput, now: Now)
    requires
        roster::peers_unique(v.peers),
    ensures
        v.quit ==> tui::ui_step(v, input, now).0.quit,
        roster::peers_unique(tui::ui_step(v, input, now).0.peers),
{
    match input {
        UiInput::Event(Some(ev)) => {
            peers_stay_unique(v, ev@, now);
        },
        _ => {},
    }
}

/// Every message is shown, as it is and under its name, behind all others, whatever the
/// interface is doing and however far it is scrolled; and nothing else changes.
pub proof fn message_is_shown(
    v: AppView,
    from: Seq<char>,
    name: Seq<char>,
    text: Seq<char>,
    now: Now,
)
    ensures
        ({
            let next = tui::event_step(v, EventView::Message { from, name, text }, now);
            let ts = if v.timestamps {
                Some(now.unix_secs)
            } else {
                None
            };
            &&& next.msgs == v.msgs.push(MsgView { ts, name, text, system: false })
            &&& next == (AppView { msgs: next.msgs, ..v })
        }),
{
}

/// A note of the system is shown like a message, under the name `system`, with the time
/// if times are shown; and nothing else changes.
pub proof fn note_is_shown(v: AppView, text: Seq<char>, now: Now)
    ensures
        ({
            let next = tui::noted(v, text, now);
            let ts = if v.timestamps {
                Some(now.unix_secs)
            } else {
                None
            };
            &&& next.msgs == v.msgs.push(MsgView { ts, name: "system"@, text, system: true })
            &&& next == (AppView { msgs: next.msgs, ..v })
        }),
{
}

/// Of an onion address as many characters are shown as fit into twelve bytes: all of a
/// short one, and of a long one not one character less.
pub proof fn address_is_cut_to_fit(addr: Seq<char>)
    ensures
        ({
            let shown = tui::shown_onion(addr);
            let n = shown.len();
            &&& n <= addr.len()
            &&& shown == addr.take(n as int)
            &&& encode_utf8(shown).len() <= 12
            &&& n < addr.len() ==> encode_utf8(addr.take((n + 1) as int)).len() > 12
        }),
{
    text::lemma_fitting(addr, 12);
}

/// What becomes of the room is noted: that it is ready, its new codes, its errors and
/// its end, after which it takes three seconds until the interface quits.
pub proof fn room_is_reported(
    v: AppView,
    onion_address: Seq<char>,
    port: u16,
    code: Seq<char>,
    error: ErrorView,
    now: Now,
)
    ensures
        tui::event_step(v, EventView::RoomReady { onion_address, port }, now) == (AppView {
            mode: ModeView::Running,
            onion: Some(onion_address),
            ..tui::noted(v, "room ready: "@ + tui::shown_onion(onion_address) + "..."@, now)
        }),
        tui::event_step(v, EventView::InviteCreated { code }, now) == tui::noted(
            v,
            "new invite code: "@ + code,
            now,
        ),
        tui::event_step(v, EventView::Error(error), now) == tui::noted(
            v,
            "error: "@ + error_text(error),
            now,
        ),
        tui::event_step(v, EventView::RoomClosed, now) == (AppView {
            mode: ModeView::ShuttingDown { since: now.millis, wait: 3000 },
            ..tui::noted(v, "room closed"@, now)
        }),
        tui::lost_step(v, now) == if v.mode is ShuttingDown {
            v
        } else {
            AppView {
                mode: ModeView::ShuttingDown { since: now.millis, wait: 5000 },
                ..tui::noted(v, "connection lost"@, now)
            }
        },
{
}

/// Whoever comes or goes is noted by name. When somebody comes, Tor is up; a room that
/// is closing stays so.
pub proof fn peers_are_reported(v: AppView, info: PeerInfoView, id: Seq<char>, now: Now)
    ensures
        tui::event_step(v, EventView::PeerJoin(info), now) == (AppView {
            mode: match v.mode {
                ModeView::ShuttingDown { since, wait } => ModeView::ShuttingDown { since, wait },
                _ => ModeView::Running,
            },
            peers: if roster::lists(v.peers, info.id) {
                v.peers
            } else {
                v.peers.push(info)
            },
            ..tui::noted(v, info.name + " joined"@, now)
        }),
        tui::event_step(v, EventView::PeerLeave(id), now) == (AppView {
            peers: v.peers.filter(|p: PeerInfoView| p.id != id),
            ..tui::noted(v, roster::name_of(v.peers, id) + " left"@, now)
        }),
{
}

/// Progress is shown while Tor starts, and at no other time; it changes nothing but
/// that.
pub proof fn progress_is_shown(v: AppView, pct: u8, now: Now)
    ensures
        ({
            let next = tui::event_step(v, EventView::BootstrapProgress(pct), now);
            match v.mode {
                ModeView::Bootstrap { progress, msg } => {
                    &&& next == (AppView { mode: next.mode, ..v })
                    &&& next.mode matches ModeView::Bootstrap { progress: p, msg: m } && p == pct
                        && m == if pct < 100 {
                        "bootstrapping tor..."@
                    } else {
                        msg
                    }
                },
                _ => next == v,
            }
        }),
{
}

/// What comes of a command is noted: the code or why there is none, and the names of the
/// peers. Quitting quits, and notes nothing.
pub proof fn results_are_reported(
    v: AppView,
    code: String,
    reason: String,
    peers: Vec<PeerInfo>,
    now: Now,
)
    ensures
        tui::result_step(v, CmdResult::Invite { code: Ok(code) }, now) == tui::noted(
            v,
            "invite code: "@ + code@,
            now,
        ),
        tui::result_step(v, CmdResult::Invite { code: Err(reason) }, now) == tui::noted(
            v,
            "invite failed: "@ + reason@,
            now,
        ),
        peers@.len() == 0 ==> tui::result_step(v, CmdResult::Peers { peers }, now) == tui::noted(
            v,
            "no peers connected"@,
            now,
        ),
        peers@.len() > 0 ==> tui::result_step(v, CmdResult::Peers { peers }, now) == tui::noted(
            v,
            "peers: "@ + text::joined(peers@.map_values(|p: PeerInfo| p@.name), ", "@),
            now,
        ),
        tui::result_step(v, CmdResult::Quit, now) == (AppView { quit: true, ..v }),
{
    assert(command::peer_names(peers@) =~= peers@.map_values(|p: PeerInfo| p@.name));
}

/// Ctrl-C and nothing else is a request to quit: that key, with Control held down, and
/// whatever else is. It changes nothing but that.
pub proof fn control_c_only_quits(v: AppView, key: KeyEvent, now: Now)
    ensures
        tui::is_ctrl_c(key) <==> key.code == KeyCode::Char('c') && key.modifiers.control,
        key.code == KeyCode::Char('c') && key.modifiers.control ==> tui::key_step(v, key, now) == (
            AppView { quit: true, ..v },
            UiView::Nothing,
        ),
{
}

/// The keys edit the input at the cursor, which stands behind `n` characters: one is
/// typed there, or taken out before or behind it, and the cursor moves along; or the
/// cursor moves by one character, to the front or to the end. At either end there is
/// nothing to take out, and nowhere to go. Nothing else changes.
pub proof fn keys_edit_at_the_cursor(v: AppView, n: nat, c: char, m: KeyModifiers, now: Now)
    requires
        v.mode == ModeView::Running,
        n <= v.input.len(),
        v.cursor == encode_utf8(v.input.take(n as int)).len(),
        encode_utf8(v.input).len() + 4 <= usize::MAX,
    ensures
        !m.control && !m.other ==> {
            let next = tui::key_step(v, KeyEvent { code: KeyCode::Char(c), modifiers: m }, now).0;
            &&& next.input == v.input.insert(n as int, c)
            &&& next.cursor == v.cursor + encode_scalar(c as u32).len()
            &&& next == (AppView { input: next.input, cursor: next.cursor, ..v })
        },
        m.other || (m.control && c != 'c') ==> tui::key_step(
            v,
            KeyEvent { code: KeyCode::Char(c), modifiers: m },
            now,
        ).0 == (AppView { quit: v.quit || (m.control && c == 'c'), ..v }),
        ({
            let next = tui::key_step(v, KeyEvent { code: KeyCode::Backspace, modifiers: m }, now).0;
            &&& n > 0 ==> next.input == v.input.remove(n - 1) && next.cursor == encode_utf8(
                v.input.take(n - 1),
            ).len() && next == (AppView { input: next.input, cursor: next.cursor, ..v })
            &&& n == 0 ==> next == v
        }),
        ({
            let next = tui::key_step(v, KeyEvent { code: KeyCode::Delete, modifiers: m }, now).0;
            &&& n < v.input.len() ==> next.input == v.input.remove(n as int) && next == (AppView {
                input: next.input,
                ..v
            })
            &&& n == v.input.len() ==> next == v
        }),
        ({
            let next = tui::key_step(v, KeyEvent { code: KeyCode::Left, modifiers: m }, now).0;
            &&& n > 0 ==> next.cursor == encode_utf8(v.input.take(n - 1)).len()
            &&& n == 0 ==> next.cursor == v.cursor
            &&& next == (AppView { cursor: next.cursor, ..v })
        }),
        ({
            let next = tui::key_step(v, KeyEvent { code: KeyCode::Right, modifiers: m }, now).0;
            &&& n < v.input.len() ==> next.cursor == encode_utf8(v.input.take((n + 1) as int)).len()
            &&& n == v.input.len() ==> next.cursor == v.cursor
            &&& next == (AppView { cursor: next.cursor, ..v })
        }),
        tui::key_step(v, KeyEvent { code: KeyCode::Home, modifiers: m }, now).0 == (AppView {
            cursor: 0,
            ..v
        }),
        tui::key_step(v, KeyEvent { code: KeyCode::End, modifiers: m }, now).0 == (AppView {
            cursor: encode_utf8(v.input).len() as usize,
            ..v
        }),
{
    text::lemma_fitting_offset(v.input, n);
    assert(tui::before_cursor(v) == n);
    assert(v.input.take(v.input.len() as int) =~= v.input);
    lemma_insert_size(v.input, n as int, c);
    lemma_edited(v, v.input.insert(n as int, c), n + 1);
    lemma_edited(v, v.input, v.input.len());
    if n > 0 {
        lemma_remove_size(v.input, n - 1);
        lemma_edited(v, v.input.remove(n - 1), (n - 1) as nat);
        lemma_edited(v, v.input, (n - 1) as nat);
        assert(v.input.remove(n - 1).take(n - 1) =~= v.input.take(n - 1));
    }
    if n < v.input.len() {
        lemma_remove_size(v.input, n as int);
        lemma_edited(v, v.input.remove(n as int), n);
        lemma_edited(v, v.input, n + 1);
        assert(v.input.remove(n as int).take(n as int) =~= v.input.take(n as int));
    }
}

/// The arrows scroll by one message and the page keys by ten, as far as there is room to;
/// other keys do not scroll, but Enter goes back to the bottom. Nothing else changes.
pub proof fn keys_scroll(v: AppView, key: KeyEvent, now: Now)
    requires
        v.mode == ModeView::Running,
    ensures
        ({
            let next = tui::key_step(v, key, now).0;
            &&& key.code == KeyCode::Up || key.code == KeyCode::Down || key.code == KeyCode::PageUp
                || key.code == KeyCode::PageDown ==> next == (AppView { scroll: next.scroll, ..v })
            &&& match key.code {
                KeyCode::Up => next.scroll == if v.scroll < usize::MAX {
                    v.scroll + 1
                } else {
                    usize::MAX as int
                },
                KeyCode::Down => next.scroll == if v.scroll > 0 {
                    v.scroll - 1
                } else {
                    0
                },
                KeyCode::PageUp => next.scroll == if v.scroll <= usize::MAX - 10 {
                    v.scroll + 10
                } else {
                    usize::MAX as int
                },
                KeyCode::PageDown => next.scroll == if v.scroll >= 10 {
                    v.scroll - 10
                } else {
                    0
                },
                KeyCode::Enter => next.scroll == 0,
                KeyCode::Other => next == v,
                _ => next.scroll == v.scroll,
            }
        }),
{
}

/// Enter takes the line. What starts with a slash is a command; any other line that is
/// not empty is sent as it is, if there is a room. Nothing changes but that the line is
/// gone, the view is at the bottom, and what the command shows.
pub proof fn enter_takes_the_line(v: AppView, line: Seq<char>, modifiers: KeyModifiers, now: Now)
    requires
        v.mode == ModeView::Running,
    ensures
        ({
            let enter = KeyEvent { code: KeyCode::Enter, modifiers };
            let cleared = AppView { input: Seq::empty(), cursor: 0, scroll: 0, ..v };
            &&& v.input == seq!['/'] + line ==> tui::key_step(v, enter, now)
                == tui::dispatch_step(cleared, line, now)
            &&& v.input.len() == 0 || v.input[0] != '/' ==> tui::key_step(v, enter, now) == (
                cleared,
                if v.has_room && v.input.len() > 0 {
                    UiView::Send(v.input)
                } else {
                    UiView::Nothing
                },
            )
        }),
{
    text::slash_marks_a_command(line);
}

/// A command needs a room and a way back for what comes of it: without, the user is told
/// so, and nothing is asked for.
pub proof fn command_needs_a_room(v: AppView, cmd: Seq<char>, now: Now)
    ensures
        !v.has_room ==> tui::dispatch_step(v, cmd, now) == (
            tui::noted(v, "room not ready"@, now),
            UiView::Nothing,
        ),
        v.has_room && !v.cmd_ready ==> tui::dispatch_step(v, cmd, now) == (
            tui::noted(v, "command channel not ready"@, now),
            UiView::Nothing,
        ),
{
}

/// A command asks for what it says, and changes nothing; only the help, and the complaint
/// about a command that is unknown, are shown, and ask for nothing.
pub proof fn commands_do_what_they_say(v: AppView, cmd: Seq<char>, now: Now)
    requires
        v.has_room,
        v.cmd_ready,
    ensures
        match command::parsed_command(cmd) {
            command::SlashView::Invite(name) => tui::dispatch_step(v, cmd, now) == (
                v,
                UiView::Invite(name),
            ),
            command::SlashView::Peers => tui::dispatch_step(v, cmd, now) == (v, UiView::Peers),
            command::SlashView::Quit => tui::dispatch_step(v, cmd, now) == (v, UiView::Quit),
            command::SlashView::Unknown(s) => tui::dispatch_step(v, cmd, now) == (
                tui::noted(v, "unknown command: /"@ + s, now),
                UiView::Nothing,
            ),
            command::SlashView::Help => {
                let (next, action) = tui::dispatch_step(v, cmd, now);
                let n = v.msgs.len() as int;
                &&& action == UiView::Nothing
                &&& next == (AppView { msgs: next.msgs, ..v })
                &&& next.msgs.len() == n + 5
                &&& next.msgs.take(n) == v.msgs
                &&& forall|i: int|
                    n <= i < n + 5 ==> (#[trigger] next.msgs[i]).system && next.msgs[i].name
                        == "system"@ && next.msgs[i].ts == if v.timestamps {
                        Some(now.unix_secs)
                    } else {
                        None
                    }
                &&& next.msgs[n].text == "available commands:"@
                &&& next.msgs[n + 1].text == "  /invite [name]  — generate an invite code"@
                &&& next.msgs[n + 2].text == "  /peers         — list connected peers"@
                &&& next.msgs[n + 3].text == "  /help          — show this help"@
                &&& next.msgs[n + 4].text == "  /quit          — leave the room"@
            },
        },
{
    let next = tui::help_noted(v, now);
    assert(next.msgs.take(v.msgs.len() as int) =~= v.msgs);
}

/// Whatever the interface takes in, it then looks at the clock: it quits once more time
/// has passed since the room was gone than it was to wait, and the passing of time does
/// nothing else.
pub proof fn time_only_quits(v: AppView, key: KeyEvent, now: Now)
    ensures
        tui::ui_step(v, UiInput::Tick, now) == (
            AppView {
                quit: v.quit || match v.mode {
                    ModeView::ShuttingDown { since, wait } => now.millis > since + wait,
                    _ => false,
                },
                ..v
            },
            UiView::Nothing,
        ),
        tui::tick_step(v, now) == tui::ui_step(v, UiInput::Tick, now).0,
        tui::ui_step(v, UiInput::Key(key), now) == (
            tui::tick_step(tui::key_step(v, key, now).0, now),
            tui::key_step(v, key, now).1,
        ),
        tui::ui_step(v, UiInput::Event(None), now) == (
            tui::tick_step(tui::lost_step(v, now), now),
            UiView::Nothing,
        ),
{
}

/// What is seen of the interface is all of it, message by message and in order; and what it
/// asks for is seen as it is.
pub proof fn interface_is_seen_whole(app: App, i: int, s: String, name: Option<String>)
    ensures
        app@.msgs.len() == app.msgs@.len(),
        0 <= i < app.msgs@.len() ==> app@.msgs[i] == (MsgView {
            ts: app.msgs@[i].ts,
            name: app.msgs@[i].name@,
            text: app.msgs@[i].text@,
            system: app.msgs@[i].system,
        }),
        app@.peers == types::peer_views(app.peers@),
        app@.input == app.input@,
        app@.onion == text::opt_text(app.onion),
        app@.mode == match app.mode {
            Mode::Bootstrap { progress, msg } => ModeView::Bootstrap { progress, msg: msg@ },
            Mode::Running => ModeView::Running,
            Mode::ShuttingDown { since, wait } => ModeView::ShuttingDown { since, wait },
        },
        app@.has_room == app.has_room && app@.cursor == app.cursor && app@.scroll == app.scroll
            && app@.timestamps == app.timestamps && app@.quit == app.quit && app@.bootstrap_start
            == app.bootstrap_start && app@.input_focused == app.input_focused && app@.cmd_ready
            == app.cmd_ready,
        UiAction::Nothing@ == UiView::Nothing,
        UiAction::Send(s)@ == UiView::Send(s@),
        UiAction::Invite(name)@ == UiView::Invite(text::opt_text(name)),
        UiAction::Peers@ == UiView::Peers,
        UiAction::Quit@ == UiView::Quit,
{
}

/// Every event and every result is taken in, whatever the interface is doing, and asks for
/// nothing.
pub proof fn everything_is_taken_in(v: AppView, ev: ChatEvent, result: CmdResult, now: Now)
    ensures
        tui::ui_step(v, UiInput::Event(Some(ev)), now) == (
            tui::tick_step(tui::event_step(v, ev@, now), now),
            UiView::Nothing,
        ),
        tui::ui_step(v, UiInput::Result(result), now) == (
            tui::tick_step(tui::result_step(v, result, now), now),
            UiView::Nothing,
        ),
        ev matches ChatEvent::Message { name, text, .. } ==> {
            let shown = tui::ui_step(v, UiInput::Event(Some(ev)), now).0.msgs;
            &&& shown.len() == v.msgs.len() + 1
            &&& shown.take(v.msgs.len() as int) == v.msgs
            &&& shown.last().name == name@ && shown.last().text == text@ && !shown.last().system
        },
{
    if let ChatEvent::Message { name, text, .. } = ev {
        let shown = tui::ui_step(v, UiInput::Event(Some(ev)), now).0.msgs;
        assert(shown.take(v.msgs.len() as int) =~= v.msgs);
    }
}

/// What one peer types, all others read: a line that is entered is sent to the room as it
/// is, goes out under the name of whoever typed it, and stands behind all other messages
/// on the screen of every other peer, and of the host, whatever they are doing; without a
/// screen it is printed.
pub proof fn what_is_typed_is_read_by_all(
    typed: AppView,
    enter: KeyEvent,
    writer: LoopView,
    text: String,
    sent: WireMessage,
    from: PeerId,
    host: HostView,
    peer: Seq<char>,
    screen: AppView,
    lines: HeadlessView,
    now: Now,
)
    requires
        typed.mode == ModeView::Running,
        typed.has_room,
        typed.input.len() > 0,
        typed.input[0] != '/',
        enter.code == KeyCode::Enter,
        text@ == typed.input,
        writer.phase == PhaseView::Waiting,
        writer.connected,
        joiner::loop_step(writer, LoopInput::Outgoing(text)).1 == ActionView::Write(sent@),
        host.phase == HostPhase::Serving,
        peer != from@,
    ensures
        tui::key_step(typed, enter, now).1 == UiView::Send(text@),
        ({
            let out = room::host_step(host, HostInput::Incoming(Some((from, sent)))).1;
            let ts = if screen.timestamps {
                Some(now.unix_secs)
            } else {
                None
            };
            let line = MsgView { ts, name: writer.name, text: typed.input, system: false };
            &&& out.event matches Some(ev) && tui::event_step(screen, ev, now).msgs
                == screen.msgs.push(line)
            &&& out.broadcast matches Some(b) && (connection::delivered(
                b,
                peer,
            ) matches Some(m) && {
                &&& tui::event_step(screen, joiner::shown(m), now).msgs == screen.msgs.push(line)
                &&& headless::event_step(lines, Some(joiner::shown(m))).1 == TextView::Print(
                    "["@ + writer.name + "] "@ + typed.input,
                )
            })
        }),
{
}

} // verus!
