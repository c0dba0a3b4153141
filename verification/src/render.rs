//! What the terminal interface shows: the texts of its bars and lines, and which
//! messages are in view.
use vstd::prelude::*;
use vstd::string::*;
use vstd::utf8::*;

use crate::command;
use crate::command::list_peers;
use crate::text;
use crate::tui;
use crate::tui::{truncate_onion, App, DispMsg, Mode, ModeView, MsgView};

verus! {

/// The name of the program, as it is shown.
pub const APP_NAME: &'static str = "ephemeral-chat";

/// Longer display names are cut.
pub const MAX_DISPLAY_NAME: usize = 20;

/// How many bytes of a cut display name are shown.
pub const CUT_DISPLAY_NAME: usize = 17;

/// The smallest terminal that the layout fits into.
pub const MIN_WIDTH: u16 = 10;

/// The smallest terminal that the layout fits into.
pub const MIN_HEIGHT: u16 = 4;

// ---------------------------------------------------------------------------
// Bars
// ---------------------------------------------------------------------------

/// The complaint about a terminal that is too small.
pub open spec fn size_complaint(width: u16, height: u16) -> Option<Seq<char>> {
    if width < MIN_WIDTH || height < MIN_HEIGHT {
        Some(
            "Terminal too small: "@ + text::decimal(width as nat) + "x"@ + text::decimal(
                height as nat,
            ) + " (need at least 10x4)"@,
        )
    } else {
        None
    }
}

/// Complains about a terminal that is too small for the layout.
pub fn too_small(width: u16, height: u16) -> (r: Option<String>)
    ensures
        text::opt_text(r) == size_complaint(width, height),
{
    if width < MIN_WIDTH || height < MIN_HEIGHT {
        let w = text::decimal_string(width as u64);
        let h = text::decimal_string(height as u64);
        let mut s = text::concat3("Terminal too small: ", w.as_str(), "x");
        s.append(h.as_str());
        s.append(" (need at least 10x4)");
        Some(s)
    } else {
        None
    }
}

/// The top bar: the name of the program, and the beginning of the onion address.
pub fn top_bar(app: &App) -> (s: String)
    ensures
        s@ == match app@.onion {
            Some(addr) => "ephemeral-chat"@ + " ["@ + tui::shown_onion(addr) + "...]"@,
            None => "ephemeral-chat"@,
        },
{
    match &app.onion {
        Some(addr) => {
            let shown = truncate_onion(addr.as_str());
            let mut s = text::concat3(APP_NAME, " [", shown);
            s.append("...]");
            s
        },
        None => APP_NAME.to_owned(),
    }
}

/// The spinner at a given second.
pub open spec fn spinner_at(secs: u64) -> char {
    seq!['⠋', '⠙', '⠹', '⠸', '⠼', '⠴', '⠦', '⠧', '⠇', '⠏'][(secs % 10) as int]
}

fn spinner(secs: u64) -> (c: char)
    ensures
        c == spinner_at(secs),
{
    let i: u64 = secs % 10;
    if i == 0 {
        '⠋'
    } else if i == 1 {
        '⠙'
    } else if i == 2 {
        '⠹'
    } else if i == 3 {
        '⠸'
    } else if i == 4 {
        '⠼'
    } else if i == 5 {
        '⠴'
    } else if i == 6 {
        '⠦'
    } else if i == 7 {
        '⠧'
    } else if i == 8 {
        '⠇'
    } else {
        '⠏'
    }
}

/// The line that is shown while Tor starts.
pub open spec fn bootstrap_view(secs: u64, progress: u8, msg: Seq<char>) -> Seq<char> {
    let start = "  "@.push(spinner_at(secs)) + "  "@;
    if progress == 0 {
        start + msg
    } else if progress < 100 {
        start + msg + "  "@ + text::decimal(progress as nat) + "%"@
    } else {
        start + "connecting..."@
    }
}

/// The line that is shown while Tor starts, some seconds after it did.
pub fn render_bootstrap(elapsed_secs: u64, progress: u8, msg: &str) -> (s: String)
    ensures
        s@ == bootstrap_view(elapsed_secs, progress, msg@),
{
    let mut s = "  ".to_owned();
    s.push(spinner(elapsed_secs));
    s.append("  ");
    if progress == 0 {
        s.append(msg);
    } else if progress < 100 {
        let number = text::decimal_string(progress as u64);
        s.append(msg);
        s.append("  ");
        s.append(number.as_str());
        s.append("%");
    } else {
        s.append("connecting...");
    }
    s
}

/// The status bar: the names of the peers, and whether it is shown as a warning.
pub fn render_status(app: &App) -> (r: (String, bool))
    ensures
        r.0@ == command::peer_list(app.peers@, "no peers"@),
        r.1 == (app@.mode is ShuttingDown),
{
    let warning = matches!(app.mode, Mode::ShuttingDown { .. });
    (list_peers(&app.peers, "no peers"), warning)
}

/// The input bar: a prompt and the input, and whether input is taken.
pub fn render_input(app: &App) -> (r: (String, bool))
    ensures
        r.0@ == "> "@ + app@.input,
        r.1 == (app@.mode == ModeView::Running && app@.input_focused),
{
    let running = matches!(app.mode, Mode::Running);
    (text::concat2("> ", app.input.as_str()), running && app.input_focused)
}

// ---------------------------------------------------------------------------
// Messages
// ---------------------------------------------------------------------------

/// A message as one line.
pub struct MessageLine {
    /// When it came, in seconds since the Unix epoch, if times are shown.
    pub ts: Option<i64>,
    /// Who said it, in brackets.
    pub prefix: String,
    pub system: bool,
    pub text: String,
}

/// A [`MessageLine`] with its texts as characters.
#[verifier::ext_equal]
pub struct LineView {
    pub ts: Option<i64>,
    pub prefix: Seq<char>,
    pub system: bool,
    pub text: Seq<char>,
}

impl View for MessageLine {
    type V = LineView;

    open spec fn view(&self) -> LineView {
        LineView { ts: self.ts, prefix: self.prefix@, system: self.system, text: self.text@ }
    }
}

/// The views of a list of lines.
pub open spec fn line_views(lines: Seq<MessageLine>) -> Seq<LineView> {
    lines.map_values(|l: MessageLine| l@)
}

/// A display name as it is shown: a long one is cut, between characters.
pub open spec fn display_name(name: Seq<char>) -> Seq<char> {
    if encode_utf8(name).len() > MAX_DISPLAY_NAME {
        name.take(text::fitting(name, CUT_DISPLAY_NAME as nat) as int) + "..."@
    } else {
        name
    }
}

/// The line of a message.
pub open spec fn line_of(m: MsgView) -> LineView {
    LineView {
        ts: m.ts,
        prefix: if m.system {
            "[system] "@
        } else {
            "["@ + display_name(m.name) + "] "@
        },
        system: m.system,
        text: m.text,
    }
}

/// The messages in view: as many as there are rows, ending where the view is scrolled
/// to.
pub open spec fn window(total: usize, scroll: usize, rows: usize) -> (usize, usize) {
    let end = tui::less(total, scroll);
    (tui::less(end, rows), end)
}

/// The messages in view, by position: from the first to before the second.
pub fn visible_window(total: usize, scroll: usize, rows: usize) -> (r: (usize, usize))
    ensures
        r == window(total, scroll, rows),
        r.0 <= r.1 <= total,
{
    let end: usize = total.saturating_sub(scroll);
    (end.saturating_sub(rows), end)
}

fn cut_name(name: &str) -> (s: String)
    ensures
        s@ == display_name(name@),
{
    if text::byte_len(name) > MAX_DISPLAY_NAME {
        text::concat2(text::cut(name, CUT_DISPLAY_NAME), "...")
    } else {
        name.to_owned()
    }
}

/// The line of a message.
pub fn message_line(m: &DispMsg) -> (l: MessageLine)
    ensures
        l@ == line_of(m@),
{
    let prefix = if m.system {
        "[system] ".to_owned()
    } else {
        let name = cut_name(m.name.as_str());
        text::concat3("[", name.as_str(), "] ")
    };
    MessageLine { ts: m.ts, prefix, system: m.system, text: m.text.clone() }
}

/// The lines in view, and whether there are more below.
pub fn render_messages(app: &App, rows: u16) -> (r: (Vec<MessageLine>, bool))
    ensures
        ({
            let (start, end) = window(app.msgs@.len() as usize, app.scroll, rows as usize);
            line_views(r.0@) == app@.msgs.subrange(start as int, end as int).map_values(
                |m: MsgView| line_of(m),
            )
        }),
        r.1 == (app@.scroll != 0),
{
    let (start, end) = visible_window(app.msgs.len(), app.scroll, rows as usize);
    let ghost shown = app@.msgs.subrange(start as int, end as int).map_values(
        |m: MsgView| line_of(m),
    );
    let mut lines: Vec<MessageLine> = Vec::new();
    let mut i: usize = start;
    assert(line_views(lines@) =~= shown.take(0));
    while i < end
        invariant
            start <= i <= end <= app.msgs@.len(),
            shown == app@.msgs.subrange(start as int, end as int).map_values(
                |m: MsgView| line_of(m),
            ),
            line_views(lines@) == shown.take(i - start),
        decreases end - i,
    {
        assert(app@.msgs[i as int] == app.msgs@[i as int]@);
        let ghost before = lines@;
        let line = message_line(&app.msgs[i]);
        lines.push(line);
        proof {
            assert(line_views(lines@) =~= line_views(before).push(line@));
            assert(shown[i - start] == line@);
            assert(shown.take(i - start).push(line@) =~= shown.take(i - start + 1));
        }
        i = i + 1;
    }
    assert(shown.take(end - start) =~= shown);
    (lines, !app.at_bottom())
}

// ---------------------------------------------------------------------------
// Areas
// ---------------------------------------------------------------------------

/// A rectangle on the screen.
#[derive(Clone, Copy, Debug, PartialEq, Eq, Structural)]
pub struct Area {
    pub x: u16,
    pub y: u16,
    pub width: u16,
    pub height: u16,
}

/// The row below an area; the last one, where there is none.
pub open spec fn bottom(area: Area) -> int {
    if area.y + area.height <= u16::MAX {
        area.y + area.height
    } else {
        u16::MAX as int
    }
}

/// Where the hint that there are more messages below goes: the last row of the area.
pub fn indicator_area(area: Area) -> (r: Area)
    ensures
        r == (Area {
            x: area.x,
            y: if bottom(area) > 0 {
                (bottom(area) - 1) as u16
            } else {
                0
            },
            width: if area.width < 15 {
                area.width
            } else {
                15
            },
            height: 1,
        }),
{
    let below: u16 = area.y.saturating_add(area.height);
    let width: u16 = if area.width < 15 {
        area.width
    } else {
        15
    };
    Area { x: area.x, y: below.saturating_sub(1), width, height: 1 }
}

// ---------------------------------------------------------------------------
// Laws
// ---------------------------------------------------------------------------

/// The window shows as many messages as fit, and never one that does not exist. At
/// the bottom, the newest message is in view.
pub proof fn window_shows_what_fits(total: usize, scroll: usize, rows: usize)
    ensures
        ({
            let (start, end) = window(total, scroll, rows);
            &&& start <= end <= total
            &&& end - start <= rows
            &&& end - start < rows ==> start == 0
            &&& scroll == 0 ==> end == total
            &&& scroll >= total ==> start == end == 0
        }),
{
}

/// A display name that is shown never takes more than twenty bytes.
pub proof fn shown_name_is_short(name: Seq<char>)
    ensures
        encode_utf8(display_name(name)).len() <= MAX_DISPLAY_NAME,
{
    let n = text::fitting(name, CUT_DISPLAY_NAME as nat);
    text::lemma_fitting(name, CUT_DISPLAY_NAME as nat);
    reveal_strlit("...");
    assert(is_ascii_chars("..."@));
    is_ascii_chars_encode_utf8("..."@);
    text::lemma_encode_concat(name.take(n as int), "..."@);
}

/// Scrolling up by one message moves the window by one message, until the oldest one
/// is reached.
pub proof fn window_moves_with_scroll(total: usize, scroll: usize, rows: usize)
    requires
        scroll < total,
    ensures
        window(total, (scroll + 1) as usize, rows).1 == window(total, scroll, rows).1 - 1,
{
}

/// The view ends as many messages above the newest as it is scrolled up, and begins as
/// many above that as there are rows; neither goes beyond the oldest.
pub proof fn window_ends_where_scrolled_to(total: usize, scroll: usize, rows: usize)
    ensures
        scroll <= total ==> window(total, scroll, rows).1 == total - scroll,
        scroll > total ==> window(total, scroll, rows).1 == 0,
        rows <= window(total, scroll, rows).1 ==> window(total, scroll, rows).0 == window(
            total,
            scroll,
            rows,
        ).1 - rows,
        rows > window(total, scroll, rows).1 ==> window(total, scroll, rows).0 == 0,
{
}

/// A name of up to twenty bytes is shown whole. Of a longer one as many characters are
/// shown as fit into seventeen bytes, and three dots.
pub proof fn long_name_is_cut(name: Seq<char>)
    ensures
        encode_utf8(name).len() <= 20 ==> display_name(name) == name,
        encode_utf8(name).len() > 20 ==> exists|n: int|
            {
                &&& 0 <= n < name.len()
                &&& encode_utf8(name.take(n)).len() <= 17
                &&& encode_utf8(name.take(n + 1)).len() > 17
                &&& display_name(name) == #[trigger] name.take(n) + "..."@
            },
{
    if encode_utf8(name).len() > 20 {
        let n = text::fitting(name, 17);
        text::lemma_fitting(name, 17);
        if n == name.len() {
            assert(name.take(n as int) =~= name);
        }
        assert(display_name(name) == name.take(n as int) + "..."@);
    }
}

/// A message is shown with its time, as it is; behind the name of whoever said it, in
/// brackets, or behind `[system]`, whatever name it has.
pub proof fn line_shows_the_message(m: MsgView)
    ensures
        line_of(m).text == m.text,
        line_of(m).ts == m.ts,
        line_of(m).system == m.system,
        m.system ==> line_of(m).prefix == "[system] "@,
        !m.system ==> line_of(m).prefix == "["@ + display_name(m.name) + "] "@,
{
}

/// A terminal is large enough with ten columns and four rows; a smaller one is complained
/// about, with its size.
pub proof fn small_terminal_is_complained_about(width: u16, height: u16)
    ensures
        width >= 10 && height >= 4 <==> size_complaint(width, height) is None,
        width < 10 || height < 4 ==> size_complaint(width, height) == Some(
            "Terminal too small: "@ + text::decimal(width as nat) + "x"@ + text::decimal(
                height as nat,
            ) + " (need at least 10x4)"@,
        ),
{
}

/// The spinner turns once in ten seconds, and shows another picture in each of them.
pub proof fn spinner_turns(secs: u64)
    requires
        secs + 10 <= u64::MAX,
    ensures
        spinner_at((secs + 10) as u64) == spinner_at(secs),
        spinner_at(0) == '⠋' && spinner_at(1) == '⠙' && spinner_at(2) == '⠹' && spinner_at(3)
            == '⠸' && spinner_at(4) == '⠼' && spinner_at(5) == '⠴' && spinner_at(6) == '⠦'
            && spinner_at(7) == '⠧' && spinner_at(8) == '⠇' && spinner_at(9) == '⠏',
{
}

/// While Tor starts, what it is doing is shown behind the spinner, with the progress once
/// there is any; when it is done, that the room is being connected to.
pub proof fn progress_is_shown(secs: u64, progress: u8, msg: Seq<char>)
    ensures
        ({
            let spinner = seq![' ', ' ', spinner_at(secs), ' ', ' '];
            &&& progress == 0 ==> bootstrap_view(secs, progress, msg) == spinner + msg
            &&& 0 < progress < 100 ==> bootstrap_view(secs, progress, msg) == spinner + msg + "  "@
                + text::decimal(progress as nat) + "%"@
            &&& progress >= 100 ==> bootstrap_view(secs, progress, msg) == spinner
                + "connecting..."@
        }),
{
    reveal_strlit("  ");
    assert("  "@.push(spinner_at(secs)) + "  "@ =~= seq![' ', ' ', spinner_at(secs), ' ', ' ']);
}

/// The row below an area is the one behind its last row, as far as there are rows.
pub proof fn bottom_is_below(area: Area)
    ensures
        area.y + area.height <= 65535 ==> bottom(area) == area.y + area.height,
        area.y + area.height > 65535 ==> bottom(area) == 65535,
{
}

/// What is seen of a line is all of it, and lines are seen in order.
pub proof fn lines_are_seen_whole(lines: Seq<MessageLine>, i: int)
    ensures
        line_views(lines).len() == lines.len(),
        0 <= i < lines.len() ==> line_views(lines)[i] == (LineView {
            ts: lines[i].ts,
            prefix: lines[i].prefix@,
            system: lines[i].system,
            text: lines[i].text@,
        }),
{
}

} // verus!
