use std::time::Instant;

use ephemeral_chat::command::{
    create_room, entered_name, list_peers, parse_command, resolve_name, Commands, SlashCommand,
    DEFAULT_INVITE_TTL,
};
use ephemeral_chat::error::{ChatError, IoErrorKind};
use ephemeral_chat::factory::RoomTask;
use ephemeral_chat::headless::{invite_result, peers_result, Headless, TextAction};
use ephemeral_chat::render::{
    indicator_area, message_line, render_bootstrap, render_input, render_messages,
    render_status, too_small, top_bar, visible_window, Area,
};
use ephemeral_chat::text;
use ephemeral_chat::tui::{
    truncate_onion, App, CmdResult, DispMsg, KeyCode, KeyEvent, KeyModifiers,
    Mode, Now, UiAction, UiInput,
};
use ephemeral_chat::types::{ChatEvent, PeerId, PeerInfo};

const NONE: KeyModifiers = KeyModifiers { control: false, shift: false, other: false };
const SHIFT: KeyModifiers = KeyModifiers { control: false, shift: true, other: false };
const CONTROL: KeyModifiers = KeyModifiers { control: true, shift: false, other: false };
const ALT: KeyModifiers = KeyModifiers { control: false, shift: false, other: true };

fn at(millis: u64) -> Now {
    Now { unix_secs: 1_700_000_000, millis }
}

fn key(code: KeyCode, modifiers: KeyModifiers) -> KeyEvent {
    KeyEvent { code, modifiers }
}

fn press(app: &mut App, code: KeyCode) -> UiAction {
    app.handle_key(key(code, NONE), at(0))
}

fn type_text(app: &mut App, s: &str) {
    for c in s.chars() {
        assert!(matches!(press(app, KeyCode::Char(c)), UiAction::Nothing));
    }
}

fn running() -> App {
    let mut app = App::new(false, at(0));
    app.set_cmd_tx();
    app.has_room = true;
    app.mode = Mode::Running;
    app
}

fn peer(id: &str, name: &str) -> PeerInfo {
    PeerInfo { id: PeerId(id.into()), name: name.into(), joined_at: Instant::now() }
}

fn last(app: &App) -> &str {
    &app.msgs[app.msgs.len() - 1].text
}

fn show(app: &mut App, ev: ChatEvent) {
    app.handle_event(ev, at(7));
}

// ── keys ─────────────────────────────────────────────────────────────────────

#[test]
fn typing_and_sending_does_not_quit() {
    let mut app = App::new(false, at(0));
    app.set_cmd_tx();
    app.mode = Mode::Running;
    assert!(!app.quit);

    for c in "hello".chars() {
        app.handle_key(key(KeyCode::Char(c), NONE), at(0));
    }
    assert_eq!(app.input, "hello");
    assert!(!app.quit, "typing must not quit");

    app.handle_key(key(KeyCode::Enter, NONE), at(0));
    assert!(app.input.is_empty(), "input should be consumed");
    assert!(!app.quit, "sending must not quit");
}

#[test]
fn typing_individual_chars_does_not_quit() {
    let mut app = App::new(false, at(0));
    app.set_cmd_tx();
    app.mode = Mode::Running;
    assert!(!app.quit);

    let chars = [('a', NONE), ('b', NONE), (' ', NONE), ('Z', SHIFT), ('1', NONE)];
    for (c, modif) in chars {
        app.handle_key(key(KeyCode::Char(c), modif), at(0));
        assert!(!app.quit, "char '{}' with {:?} must not quit", c, modif);
    }
    assert_eq!(app.input, "ab Z1");
}

#[test]
fn ctrl_c_sets_quit() {
    let mut app = App::new(false, at(0));
    app.set_cmd_tx();
    assert!(!app.quit);
    app.handle_key(key(KeyCode::Char('c'), CONTROL), at(0));
    assert!(app.quit);
}

#[test]
fn ctrl_c_detection() {
    // Ctrl+C should trigger quit
    assert!(key(KeyCode::Char('c'), CONTROL).is_ctrl_c(), "Ctrl+C should trigger quit");
    // Just 'c' should not
    assert!(!key(KeyCode::Char('c'), NONE).is_ctrl_c(), "plain 'c' should not trigger quit");
    // Ctrl+Z should not trigger quit (we only check Ctrl+C)
    assert!(!key(KeyCode::Char('z'), CONTROL).is_ctrl_c(), "Ctrl+Z should not trigger quit");
}

#[test]
fn shutdown_state_locks_input() {
    let mut app = running();
    app.mode = Mode::ShuttingDown { since: 0, wait: 3000 };
    type_text(&mut app, "x");
    assert!(app.input.is_empty(), "input should be locked during shutdown");

    app.mode = Mode::Bootstrap { progress: 0, msg: "starting tor...".into() };
    type_text(&mut app, "x");
    press(&mut app, KeyCode::Up);
    assert!(app.input.is_empty(), "input should be locked during bootstrap");
    assert_eq!(app.scroll, 0);
}

#[test]
fn empty_input_no_dispatch() {
    let mut app = running();
    let action = press(&mut app, KeyCode::Enter);
    assert!(matches!(action, UiAction::Nothing), "empty input should not dispatch anything");
    assert!(app.msgs.is_empty());
}

#[test]
fn non_slash_input_not_command() {
    let mut app = running();
    type_text(&mut app, "hello world");
    assert!(text::strip_slash(&app.input).is_none());
    match press(&mut app, KeyCode::Enter) {
        UiAction::Send(s) => assert_eq!(s, "hello world"),
        other => panic!("text without / prefix should be sent, got {other:?}"),
    }
}

#[test]
fn command_prefix_stripping() {
    let inputs = vec![
        ("/invite", Some("invite")),
        ("/peers", Some("peers")),
        ("/quit", Some("quit")),
        ("/help", Some("help")),
        ("/some_long_command", Some("some_long_command")),
        ("hello", None),
        ("", None),
    ];

    for (input, expected_cmd) in inputs {
        let cmd = text::strip_slash(input);
        assert_eq!(
            cmd.as_deref(),
            expected_cmd,
            "strip_slash for '{}' should yield {:?}",
            input,
            expected_cmd
        );
    }
}

#[test]
fn command_parsing_routes_correctly() {
    let mut app = running();
    let mut enter = |line: &str| {
        type_text(&mut app, line);
        press(&mut app, KeyCode::Enter)
    };
    assert!(matches!(enter("/invite"), UiAction::Invite(None)));
    assert!(matches!(enter("/invite bob smith"), UiAction::Invite(Some(n)) if n == "bob"));
    assert!(matches!(enter("/peers"), UiAction::Peers));
    assert!(matches!(enter("/quit"), UiAction::Quit));
    assert!(matches!(enter("/unknown_cmd x"), UiAction::Nothing));
    assert_eq!(last(&app), "unknown command: /unknown_cmd x");
    assert!(app.msgs[0].system);
    assert_eq!(app.msgs[0].name, "system");
}

#[test]
fn help_lists_the_commands() {
    let mut app = running();
    type_text(&mut app, "/help");
    press(&mut app, KeyCode::Enter);
    let lines: Vec<&str> = app.msgs.iter().map(|m| m.text.as_str()).collect();
    assert_eq!(
        lines,
        vec![
            "available commands:",
            "  /invite [name]  — generate an invite code",
            "  /peers         — list connected peers",
            "  /help          — show this help",
            "  /quit          — leave the room",
        ]
    );
}

#[test]
fn invite_before_room_ready() {
    let mut app = running();
    app.has_room = false;
    type_text(&mut app, "/invite");
    let action = press(&mut app, KeyCode::Enter);
    assert!(matches!(action, UiAction::Nothing));
    assert_eq!(last(&app), "room not ready", "invite before room ready should show error");
    // Without a room, a message goes nowhere.
    type_text(&mut app, "hi");
    assert!(matches!(press(&mut app, KeyCode::Enter), UiAction::Nothing));
}

#[test]
fn command_channel_not_ready() {
    let mut app = running();
    app.cmd_ready = false;
    type_text(&mut app, "/peers");
    press(&mut app, KeyCode::Enter);
    assert_eq!(
        last(&app),
        "command channel not ready",
        "should show error when results cannot come back"
    );
}

#[test]
fn input_cursor_bounds() {
    let mut app = running();
    type_text(&mut app, "hello");
    press(&mut app, KeyCode::Home);

    // Left at start should do nothing
    press(&mut app, KeyCode::Left);
    assert_eq!(app.cursor, 0);

    // Right to end
    for _ in 0..5 {
        press(&mut app, KeyCode::Right);
    }
    assert_eq!(app.cursor, 5);

    // Right past end should do nothing
    press(&mut app, KeyCode::Right);
    assert_eq!(app.cursor, 5);

    // Backspace at position
    app.cursor = 3;
    press(&mut app, KeyCode::Backspace);
    assert_eq!(app.input, "helo"); // removes 'l' at index 2
    assert_eq!(app.cursor, 2);

    // Delete at position
    app.cursor = 1;
    press(&mut app, KeyCode::Delete);
    assert_eq!(app.input, "hlo");
    assert_eq!(app.cursor, 1);
}

#[test]
fn editing_at_the_ends() {
    let mut app = running();
    press(&mut app, KeyCode::Backspace);
    press(&mut app, KeyCode::Delete);
    type_text(&mut app, "bc");
    press(&mut app, KeyCode::Home);
    type_text(&mut app, "a");
    assert_eq!(app.input, "abc");
    assert_eq!(app.cursor, 1);
    press(&mut app, KeyCode::End);
    assert_eq!(app.cursor, 3);
    press(&mut app, KeyCode::Delete);
    press(&mut app, KeyCode::Other);
    assert_eq!(app.input, "abc");
    app.handle_key(key(KeyCode::Char('x'), ALT), at(0));
    app.handle_key(key(KeyCode::Char('x'), CONTROL), at(0));
    assert_eq!(app.input, "abc");
}

#[test]
fn backspace_undoes_typing() {
    let mut app = running();
    type_text(&mut app, "hello");
    app.cursor = 2;
    type_text(&mut app, "X");
    assert_eq!(app.input, "heXllo");
    press(&mut app, KeyCode::Backspace);
    assert_eq!(app.input, "hello");
    assert_eq!(app.cursor, 2);
}

#[test]
fn any_text_is_edited_by_characters() {
    let mut app = running();
    type_text(&mut app, "éa");
    assert_eq!(app.input, "éa");
    assert_eq!(app.cursor, 3);
    press(&mut app, KeyCode::Left);
    type_text(&mut app, "🎉");
    assert_eq!(app.input, "é🎉a");
    assert_eq!(app.cursor, 6);
    press(&mut app, KeyCode::Delete);
    assert_eq!(app.input, "é🎉");
    press(&mut app, KeyCode::Right);
    assert_eq!(app.cursor, 6);
    press(&mut app, KeyCode::Backspace);
    assert_eq!(app.input, "é");
    assert_eq!(app.cursor, 2);
    press(&mut app, KeyCode::Home);
    type_text(&mut app, "你");
    press(&mut app, KeyCode::End);
    type_text(&mut app, "!");
    assert_eq!(app.input, "你é!");
    assert!(matches!(press(&mut app, KeyCode::Enter), UiAction::Send(s) if s == "你é!"));
    assert_eq!(app.cursor, 0);
}

#[test]
fn cursor_beyond_the_text_is_at_its_end() {
    let mut app = running();
    app.input = "ab".into();
    app.cursor = 9;
    type_text(&mut app, "c");
    assert_eq!(app.input, "abc");
    assert_eq!(app.cursor, 3);
}

#[test]
fn scroll_bounds() {
    let mut app = running();

    // Down at bottom should do nothing
    press(&mut app, KeyCode::Down);
    assert_eq!(app.scroll, 0);
    assert!(app.at_bottom());

    // Up should increase
    press(&mut app, KeyCode::PageUp);
    assert_eq!(app.scroll, 10);

    // Down should decrease
    for _ in 0..3 {
        press(&mut app, KeyCode::Down);
    }
    assert_eq!(app.scroll, 7);

    // Down past bottom should clamp
    for _ in 0..10 {
        press(&mut app, KeyCode::PageDown);
    }
    assert_eq!(app.scroll, 0);

    press(&mut app, KeyCode::Up);
    assert_eq!(app.scroll, 1);
    app.scroll = usize::MAX;
    press(&mut app, KeyCode::Up);
    press(&mut app, KeyCode::PageUp);
    assert_eq!(app.scroll, usize::MAX);
}

#[test]
fn sending_scrolls_to_the_bottom() {
    let mut app = running();
    app.scroll = 5;
    type_text(&mut app, "hi");
    press(&mut app, KeyCode::Enter);
    assert_eq!(app.scroll, 0);
    assert_eq!(app.cursor, 0);
}

// ── events ───────────────────────────────────────────────────────────────────

#[test]
fn bootstrap_to_running_transition() {
    let mut app = App::new(false, at(0));
    assert_eq!(app.mode, Mode::Bootstrap { progress: 0, msg: "starting tor...".into() });

    // Bootstrap progress
    show(&mut app, ChatEvent::BootstrapProgress(50));
    assert_eq!(app.mode, Mode::Bootstrap { progress: 50, msg: "bootstrapping tor...".into() });
    show(&mut app, ChatEvent::BootstrapProgress(100));
    assert_eq!(app.mode, Mode::Bootstrap { progress: 100, msg: "bootstrapping tor...".into() });

    // Room ready → transition to Running
    show(
        &mut app,
        ChatEvent::RoomReady { onion_address: "abcdefghijklmnop.onion".into(), port: 80 },
    );
    assert_eq!(app.mode, Mode::Running);
    assert_eq!(last(&app), "room ready: abcdefghijkl...");
    assert_eq!(app.onion.as_deref(), Some("abcdefghijklmnop.onion"));

    // Running mode should allow input
    type_text(&mut app, "x");
    assert_eq!(app.input, "x");
    show(&mut app, ChatEvent::BootstrapProgress(3));
    assert_eq!(app.mode, Mode::Running);
}

#[test]
fn peers_are_listed_once() {
    let mut app = App::new(false, at(0));
    show(&mut app, ChatEvent::PeerJoin(peer("a", "alice")));
    assert_eq!(app.mode, Mode::Running);
    show(&mut app, ChatEvent::PeerJoin(peer("a", "alice")));
    show(&mut app, ChatEvent::PeerJoin(peer("b", "bob")));
    let names: Vec<&str> = app.peers.iter().map(|p| p.name.as_str()).collect();
    assert_eq!(names, vec!["alice", "bob"]);
    assert_eq!(last(&app), "bob joined");
    show(&mut app, ChatEvent::PeerLeave(PeerId("a".into())));
    assert_eq!(app.peers.len(), 1);
    assert_eq!(app.peers[0].name, "bob");
    assert_eq!(last(&app), "alice left");
    show(&mut app, ChatEvent::PeerLeave(PeerId("ghost".into())));
    assert_eq!(last(&app), "ghost left");
    assert_eq!(app.peers.len(), 1);
    assert_eq!(app.msgs.len(), 5);
}

#[test]
fn events_are_shown() {
    let mut app = running();
    show(
        &mut app,
        ChatEvent::Message { from: PeerId("x".into()), name: "bob".into(), text: "hey".into() },
    );
    assert_eq!(app.msgs[0].name, "bob");
    assert!(!app.msgs[0].system);
    assert_eq!(last(&app), "hey");
    show(&mut app, ChatEvent::InviteCreated { code: "zzz".into() });
    assert_eq!(last(&app), "new invite code: zzz");
    show(&mut app, ChatEvent::Error(ChatError::NonceReused));
    assert_eq!(last(&app), "error: nonce already used");
    show(&mut app, ChatEvent::RoomClosed);
    assert_eq!(last(&app), "room closed");
    assert_eq!(app.mode, Mode::ShuttingDown { since: 7, wait: 3000 });
}

#[test]
fn cmd_result_handling() {
    let mut app = running();
    app.handle_result(CmdResult::Invite { code: Ok("invite-abc123".into()) }, at(0));
    assert_eq!(last(&app), "invite code: invite-abc123");
    app.handle_result(CmdResult::Invite { code: Err("connection failed".into()) }, at(0));
    assert_eq!(last(&app), "invite failed: connection failed");
    app.handle_result(CmdResult::Peers { peers: vec![] }, at(0));
    assert_eq!(last(&app), "no peers connected");
    app.handle_result(CmdResult::Peers { peers: vec![peer("a", "A"), peer("b", "B")] }, at(0));
    assert_eq!(last(&app), "peers: A, B");
    assert!(!app.quit);
    app.handle_result(CmdResult::Quit, at(0));
    assert!(app.quit);
}

#[test]
fn display_message_timestamp_handling() {
    // With timestamps enabled
    let mut app = App::new(true, at(0));
    app.push("a".into(), "x".into(), false, at(0));
    assert_eq!(app.msgs[0].ts, Some(1_700_000_000));

    // Without timestamps
    let mut app = App::new(false, at(0));
    app.push("a".into(), "x".into(), false, at(0));
    assert!(app.msgs[0].ts.is_none());
}

#[test]
fn closed_room_is_left_after_three_seconds() {
    let mut app = running();
    app.tick(at(1_000_000));
    assert!(!app.quit);
    app.handle_event(ChatEvent::RoomClosed, at(1000));
    // Its events end as well, which is no news.
    app.events_ended(at(2000));
    assert_eq!(app.msgs.len(), 1);
    assert_eq!(app.mode, Mode::ShuttingDown { since: 1000, wait: 3000 });
    app.tick(at(500));
    app.tick(at(4000));
    assert!(!app.quit);
    app.tick(at(4001));
    assert!(app.quit);
}

#[test]
fn lost_room_is_left_after_five_seconds() {
    let mut app = running();
    app.events_ended(at(1000));
    assert_eq!(last(&app), "connection lost");
    assert_eq!(app.mode, Mode::ShuttingDown { since: 1000, wait: 5000 });
    app.events_ended(at(2000));
    assert_eq!(app.msgs.len(), 1);
    assert_eq!(app.mode, Mode::ShuttingDown { since: 1000, wait: 5000 });
    app.tick(at(6000));
    assert!(!app.quit);
    app.tick(at(6001));
    assert!(app.quit);
}

#[test]
fn interface_takes_in_whatever_happens() {
    let mut app = running();
    let mut step = |input: UiInput, millis: u64| app.step(input, at(millis));
    step(UiInput::Key(key(KeyCode::Char('x'), NONE)), 0);
    let sent = step(UiInput::Key(key(KeyCode::Enter, NONE)), 0);
    assert!(matches!(sent, UiAction::Send(s) if s == "x"));
    step(UiInput::Result(CmdResult::Peers { peers: vec![] }), 0);
    step(UiInput::Event(Some(ChatEvent::RoomClosed)), 1000);
    step(UiInput::Event(None), 2000);
    step(UiInput::Tick, 4000);
    assert!(!app.quit);
    assert_eq!(app.msgs.len(), 2);
    app.step(UiInput::Tick, at(4001));
    assert!(app.quit);
    let odd = UiInput::Event(Some(ChatEvent::RoomReady {
        onion_address: "abcdefghijkémn".into(),
        port: 80,
    }));
    app.step(odd, at(5000));
    assert_eq!(last(&app), "room ready: abcdefghijk...");
    assert_eq!(App::new(false, at(500)).uptime_secs(at(3700)), 3);
    assert_eq!(App::new(false, at(500)).uptime_secs(at(0)), 0);
}

#[test]
fn onion_addresses_are_cut() {
    assert_eq!(truncate_onion("abcdefghijklmnop"), "abcdefghijkl");
    assert_eq!(truncate_onion("abcdefghijkl"), "abcdefghijkl");
    assert_eq!(truncate_onion("abc"), "abc");
    // A character is not cut in two.
    assert_eq!(truncate_onion("abcdefghijkémn"), "abcdefghijk");
    assert_eq!(truncate_onion("éééééééé"), "éééééé");
    assert_eq!(truncate_onion("你你你你你"), "你你你你");
}

// ── rendering ────────────────────────────────────────────────────────────────

#[test]
fn peer_info_display_formatting() {
    let peers = vec![peer("abc123", "Alice"), peer("def456", "Bob")];
    assert_eq!(list_peers(&peers, "no peers"), "peers: Alice, Bob");

    // Empty peers
    let empty: Vec<PeerInfo> = vec![];
    assert_eq!(list_peers(&empty, "no peers"), "no peers");
}

#[test]
fn bars_are_rendered() {
    let mut app = running();
    assert_eq!(top_bar(&app), "ephemeral-chat");
    app.onion = Some("abcdefghijklmnop.onion".into());
    assert_eq!(top_bar(&app), "ephemeral-chat [abcdefghijkl...]");
    assert_eq!(render_status(&app), ("no peers".to_string(), false));
    app.peers.push(peer("a", "alice"));
    app.mode = Mode::ShuttingDown { since: 0, wait: 3000 };
    assert_eq!(render_status(&app), ("peers: alice".to_string(), true));
    assert_eq!(render_input(&app), ("> ".to_string(), false));
    app.mode = Mode::Running;
    app.input = "hi".into();
    assert_eq!(render_input(&app), ("> hi".to_string(), true));
    app.input_focused = false;
    assert_eq!(render_input(&app), ("> hi".to_string(), false));
}

#[test]
fn small_terminals_are_refused() {
    assert_eq!(
        too_small(9, 24),
        Some("Terminal too small: 9x24 (need at least 10x4)".to_string())
    );
    assert_eq!(
        too_small(80, 3),
        Some("Terminal too small: 80x3 (need at least 10x4)".to_string())
    );
    assert_eq!(too_small(10, 4), None);
}

#[test]
fn bootstrap_line_is_rendered() {
    assert_eq!(render_bootstrap(0, 0, "starting tor..."), "  ⠋  starting tor...");
    assert_eq!(render_bootstrap(13, 42, "bootstrapping"), "  ⠸  bootstrapping  42%");
    assert_eq!(render_bootstrap(9, 100, "bootstrapping"), "  ⠏  connecting...");
    let spinner: String =
        (0..10).map(|i| render_bootstrap(i, 0, "").chars().nth(2).unwrap()).collect();
    assert_eq!(spinner, "⠋⠙⠹⠸⠼⠴⠦⠧⠇⠏");
}

#[test]
fn window_follows_the_scroll_position() {
    assert_eq!(visible_window(100, 0, 10), (90, 100));
    assert_eq!(visible_window(100, 1, 10), (89, 99));
    assert_eq!(visible_window(100, 95, 10), (0, 5));
    assert_eq!(visible_window(100, 200, 10), (0, 0));
    assert_eq!(visible_window(3, 0, 10), (0, 3));
}

#[test]
fn messages_are_rendered() {
    let mut app = running();
    for i in 0..5 {
        app.push("bob".into(), format!("m{i}"), false, at(0));
    }
    app.push("system".into(), "note".into(), true, at(0));
    let (lines, more) = render_messages(&app, 2);
    assert!(!more);
    assert_eq!(lines.len(), 2);
    assert_eq!(lines[0].prefix, "[bob] ");
    assert_eq!(lines[0].text, "m4");
    assert!(!lines[0].system);
    assert_eq!(lines[1].prefix, "[system] ");
    assert!(lines[1].system);
    app.scroll = 3;
    let (lines, more) = render_messages(&app, 2);
    assert!(more);
    assert_eq!(lines[0].text, "m1");
    assert_eq!(lines[1].text, "m2");
}

#[test]
fn long_names_are_cut() {
    let msg = |name: &str, system: bool| DispMsg {
        ts: Some(5),
        name: name.into(),
        text: "x".into(),
        system,
    };
    let line = message_line(&msg("abcdefghijklmnopqrstu", false));
    assert_eq!(line.prefix, "[abcdefghijklmnopq...] ");
    assert_eq!(line.ts, Some(5));
    assert_eq!(message_line(&msg("abcdefghijklmnopqrst", false)).prefix, "[abcdefghijklmnopqrst] ");
    // A character is not cut in two.
    assert_eq!(
        message_line(&msg("abcdefghijklmnopérstuv", false)).prefix,
        "[abcdefghijklmnop...] "
    );
    assert_eq!(message_line(&msg("🎉🎉🎉🎉🎉🎉", false)).prefix, "[🎉🎉🎉🎉...] ");
    assert_eq!(message_line(&msg("abcdefghijklmnopérstuv", true)).prefix, "[system] ");
}

#[test]
fn indicator_takes_the_last_row() {
    let area = Area { x: 2, y: 1, width: 80, height: 20 };
    assert_eq!(indicator_area(area), Area { x: 2, y: 20, width: 15, height: 1 });
    let area = Area { x: 0, y: 0, width: 9, height: 0 };
    assert_eq!(indicator_area(area), Area { x: 0, y: 0, width: 9, height: 1 });
}

// ── commands and names ───────────────────────────────────────────────────────

fn host_command(name: Option<&str>) -> Commands {
    Commands::Host {
        invite_ttl: DEFAULT_INVITE_TTL,
        name: name.map(|s| s.to_string()),
        timestamps: true,
        headless: false,
    }
}

fn join_command(name: Option<&str>) -> Commands {
    Commands::Join {
        invite_code: "abc123code".into(),
        name: name.map(|s| s.to_string()),
        timestamps: false,
        headless: true,
    }
}

#[test]
fn commands_are_read() {
    assert!(matches!(parse_command(" invite \t bob x"), SlashCommand::Invite(Some(n)) if n == "bob"));
    assert!(matches!(parse_command("invite"), SlashCommand::Invite(None)));
    assert!(matches!(parse_command("quit now"), SlashCommand::Quit));
    assert!(matches!(parse_command(""), SlashCommand::Unknown(s) if s.is_empty()));
    assert!(matches!(parse_command("Invite"), SlashCommand::Unknown(_)));
    assert!(matches!(parse_command("\u{3000}peers"), SlashCommand::Peers));
}

#[test]
fn subcommands_carry_their_options() {
    let h = host_command(Some(" Ann "));
    assert!(h.timestamps());
    assert!(!h.headless());
    assert_eq!(h.name_override().as_deref(), Some(" Ann "));
    assert_eq!(h.joiner_name(), None);
    let j = join_command(Some(" Bob\n"));
    assert!(!j.timestamps());
    assert!(j.headless());
    assert_eq!(j.joiner_name().as_deref(), Some("Bob"));
    assert_eq!(join_command(None).joiner_name().as_deref(), Some(""));
    assert_eq!(join_command(None).name_override(), None);
}

#[test]
fn rooms_are_created_as_asked() {
    let (handle, task) = create_room("Ann", &host_command(None));
    assert!(handle.peers().is_empty());
    assert!(matches!(task, RoomTask::Host(_)));
    match create_room("Bob", &join_command(None)).1 {
        RoomTask::Join(t) => {
            assert_eq!(t.name(), "Bob");
            assert_eq!(t.invite_code(), "abc123code");
        }
        RoomTask::Host(_) => panic!("expected a joiner"),
    }
}

#[test]
fn names_are_resolved() {
    let some = |s: &str| Some(s.to_string());
    assert_eq!(resolve_name(some(" Ann "), some("Bob")), some("Ann"));
    assert_eq!(resolve_name(some("  "), some("Bob\n")), some("Bob"));
    assert_eq!(resolve_name(None, some("Bob")), some("Bob"));
    assert_eq!(resolve_name(None, some(" \u{2003} ")), None);
    assert_eq!(resolve_name(None, None), None);
    assert_eq!(entered_name("  Carol \n").unwrap(), "Carol");
    let e = entered_name(" \n").unwrap_err();
    assert_eq!(e.kind, IoErrorKind::InvalidInput);
    assert_eq!(e.message, "Display name cannot be empty");
    // What was entered is found again.
    assert_eq!(resolve_name(Some(entered_name(" \u{a0}Zoë ").unwrap()), None), some("Zoë"));
}

// ── headless ─────────────────────────────────────────────────────────────────

fn printed(a: TextAction) -> String {
    match a {
        TextAction::Print(s) => s,
        other => panic!("expected a line, got {other:?}"),
    }
}

#[test]
fn headless_lines() {
    let mut h = Headless::new();
    assert!(matches!(h.handle_line("   "), TextAction::Nothing));
    assert!(matches!(h.handle_line(" hello "), TextAction::Nothing));
    assert!(matches!(h.handle_line(" /quit "), TextAction::Stop));
    assert!(matches!(h.handle_line("/invite"), TextAction::Invite(None)));
    assert!(matches!(h.handle_line("/invite bob"), TextAction::Invite(Some(n)) if n == "bob"));
    assert!(matches!(h.handle_line("/peers"), TextAction::Peers));
    assert_eq!(printed(h.handle_line("/quit now")), "[system] unknown command: /quit now");
    assert_eq!(printed(h.handle_line("/help")), "[system] unknown command: /help");
    h.room_ready = true;
    assert!(matches!(h.handle_line(" hello "), TextAction::Send(s) if s == "hello"));
}

#[test]
fn headless_events() {
    let mut h = Headless::new();
    let mut out = |ev: ChatEvent| h.handle_event(Some(ev));
    assert!(matches!(out(ChatEvent::BootstrapProgress(0)), TextAction::Nothing));
    assert!(matches!(out(ChatEvent::BootstrapProgress(100)), TextAction::Nothing));
    assert!(matches!(
        out(ChatEvent::BootstrapProgress(7)),
        TextAction::Progress(s) if s == "\rBootstrapping: 7%  "
    ));
    assert_eq!(printed(out(ChatEvent::PeerLeave(PeerId("x".into())))), "[system] x left");
    let said = ChatEvent::Message { from: PeerId("x".into()), name: "bob".into(), text: "hi".into() };
    assert_eq!(printed(out(said)), "[bob] hi");
    assert_eq!(
        printed(out(ChatEvent::InviteCreated { code: "z".into() })),
        "[system] new invite code: z"
    );
    assert!(matches!(
        out(ChatEvent::Error(ChatError::NonceReused)),
        TextAction::Warn(s) if s == "\n[error] nonce already used"
    ));
    assert!(matches!(
        out(ChatEvent::RoomClosed),
        TextAction::PrintAndStop(s) if s == "[system] room closed"
    ));
    assert!(!h.room_ready);
    let ready = ChatEvent::RoomReady { onion_address: "abcdefghijklmnop".into(), port: 80 };
    assert_eq!(printed(h.handle_event(Some(ready))), "\n[system] room ready: abcdefghijkl...");
    assert!(h.room_ready);
    let mut h = Headless::new();
    assert_eq!(
        printed(h.handle_event(Some(ChatEvent::PeerJoin(peer("a", "alice"))))),
        "[system] alice joined"
    );
    assert!(h.room_ready);
    // Whoever joined leaves under its name.
    let left = || Some(ChatEvent::PeerLeave(PeerId("a".into())));
    assert_eq!(printed(h.handle_event(left())), "[system] alice left");
    assert_eq!(printed(h.handle_event(left())), "[system] a left");
    assert!(matches!(
        h.handle_event(None),
        TextAction::WarnAndStop(s) if s == "\n[system] connection lost"
    ));
}

#[test]
fn headless_results() {
    assert_eq!(printed(invite_result(Ok("abc".into()))), "[system] invite code: abc");
    assert!(matches!(
        invite_result(Err("x".into())),
        TextAction::Warn(s) if s == "[error] invite failed: x"
    ));
    assert_eq!(printed(peers_result(&vec![])), "[system] no peers");
    assert_eq!(printed(peers_result(&vec![peer("a", "A"), peer("b", "B")])), "[system] peers: A, B");
}

// ── text ─────────────────────────────────────────────────────────────────────

#[test]
fn numerals_are_read_and_written() {
    assert_eq!(text::decimal_string(0), "0");
    assert_eq!(text::decimal_string(18446744073709551615), "18446744073709551615");
    assert_eq!(text::parse_u64("18446744073709551615"), Some(u64::MAX));
    assert_eq!(text::parse_u64("18446744073709551616"), None);
    assert_eq!(text::parse_u64("+007"), Some(7));
    assert_eq!(text::parse_u64("+"), None);
    assert_eq!(text::parse_u64(""), None);
    assert_eq!(text::parse_u64("++1"), None);
    assert_eq!(text::parse_u64("1x"), None);
}

#[test]
fn fields_and_words_are_split() {
    assert_eq!(text::split_fields("a:b:c:d:e", ':', 4), vec!["a", "b", "c", "d:e"]);
    assert_eq!(text::split_fields("::", ':', 4), vec!["", "", ""]);
    assert_eq!(text::split_fields("", ':', 4), vec![""]);
    assert_eq!(text::split_fields("a:b", ':', 1), vec!["a:b"]);
    assert_eq!(text::split_words("  a\tbc \n d "), vec!["a", "bc", "d"]);
    assert!(text::split_words(" \n").is_empty());
    assert_eq!(text::trim_text("\u{a0} a b \r\n"), "a b");
    let list: Vec<String> = vec!["a".into(), "b".into(), "c".into()];
    assert_eq!(text::join(&list, ", "), "a, b, c");
    assert_eq!(text::join(&list[..1].to_vec(), ", "), "a");
}

#[test]
fn white_space_is_trimmed() {
    let spaces = "\u{9}\u{a}\u{b}\u{c}\u{d} \u{85}\u{a0}\u{1680}\u{2000}\u{200a}\u{2028}\u{2029}\u{202f}\u{205f}\u{3000}";
    assert_eq!(text::trim_text(&format!("{spaces}a{spaces}")), "a");
    for c in spaces.chars() {
        assert!(c.is_whitespace());
    }
    // Neither of these is white space.
    let kept = "\u{200b}a\u{feff}\u{180e}\u{1c}";
    assert_eq!(text::trim_text(kept), kept);
    assert_eq!(text::trim_text(&text::trim_text("  a b  ")), "a b");
}

#[test]
fn texts_are_cut_between_characters() {
    assert_eq!(text::cut("aé🎉", 0), "");
    assert_eq!(text::cut("aé🎉", 1), "a");
    assert_eq!(text::cut("aé🎉", 2), "a");
    assert_eq!(text::cut("aé🎉", 3), "aé");
    assert_eq!(text::cut("aé🎉", 6), "aé");
    assert_eq!(text::cut("aé🎉", 7), "aé🎉");
    assert_eq!(text::cut("aé🎉", 99), "aé🎉");
    assert_eq!(text::chars_fitting("aé🎉", 6), 2);
    assert_eq!(text::byte_offset("aé🎉", 2), 3);
    assert_eq!(text::byte_offset("aé🎉", 3), 7);
}
