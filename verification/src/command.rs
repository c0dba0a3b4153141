//! What users ask for: on the command line, and in the input bar.
use vstd::prelude::*;

use crate::connection;
use crate::error::{ErrorView, IoError, IoErrorKind, IoErrorView};
use crate::factory::{RoomConfig, RoomFactory, RoomTask};
use crate::factory;
use crate::room::{
    HostPhase, HostView, JoinPhase, JoinView, RoomHandle, RoomView,
};
use crate::room;
use crate::text;
use crate::types::PeerInfo;

verus! {

/// Seconds before an invite code expires, unless the user says otherwise.
pub const DEFAULT_INVITE_TTL: u64 = 300;

// ---------------------------------------------------------------------------
// The command line
// ---------------------------------------------------------------------------

/// The subcommands of the program.
#[derive(Debug)]
pub enum Commands {
    /// Host a new chat room
    Host { invite_ttl: u64, name: Option<String>, timestamps: bool, headless: bool },
    /// Join an existing chat room
    Join { invite_code: String, name: Option<String>, timestamps: bool, headless: bool },
}

/// The name given with a subcommand.
pub open spec fn given_name(command: Commands) -> Option<Seq<char>> {
    match command {
        Commands::Host { name, .. } => text::opt_text(name),
        Commands::Join { name, .. } => text::opt_text(name),
    }
}

impl Commands {
    /// Whether messages are shown with the time.
    pub fn timestamps(&self) -> (b: bool)
        ensures
            b == match *self {
                Commands::Host { timestamps, .. } => timestamps,
                Commands::Join { timestamps, .. } => timestamps,
            },
    {
        match self {
            Commands::Host { timestamps, .. } => *timestamps,
            Commands::Join { timestamps, .. } => *timestamps,
        }
    }

    /// Whether the program runs without a terminal interface.
    pub fn headless(&self) -> (b: bool)
        ensures
            b == match *self {
                Commands::Host { headless, .. } => headless,
                Commands::Join { headless, .. } => headless,
            },
    {
        match self {
            Commands::Host { headless, .. } => *headless,
            Commands::Join { headless, .. } => *headless,
        }
    }

    /// The name given with the subcommand.
    pub fn name_override(&self) -> (r: Option<String>)
        ensures
            text::opt_text(r) == given_name(*self),
    {
        match self {
            Commands::Host { name: Some(n), .. } => Some(n.clone()),
            Commands::Join { name: Some(n), .. } => Some(n.clone()),
            _ => None,
        }
    }

    /// The display name of a joiner, if this is one: what was given, without white
    /// space around it, or else nothing. A host's name is looked up elsewhere.
    pub fn joiner_name(&self) -> (r: Option<String>)
        ensures
            text::opt_text(r) == match *self {
                Commands::Join { name: Some(n), .. } => Some(text::trimmed(n@)),
                Commands::Join { name: None, .. } => Some(Seq::empty()),
                Commands::Host { .. } => None,
            },
    {
        match self {
            Commands::Join { name: Some(n), .. } => Some(text::trim_text(n.as_str())),
            Commands::Join { name: None, .. } => Some(String::new()),
            Commands::Host { .. } => None,
        }
    }
}

/// The configuration of the room that a subcommand asks for.
pub open spec fn room_config(name: Seq<char>, command: Commands) -> factory::ConfigView {
    match command {
        Commands::Host { invite_ttl, .. } => factory::ConfigView::Host {
            name,
            invite_ttl_secs: invite_ttl,
        },
        Commands::Join { invite_code, .. } => factory::ConfigView::Join {
            name,
            invite_code: invite_code@,
        },
    }
}

/// Creates the room that a subcommand asks for.
pub fn create_room(name: &str, command: &Commands) -> (r: (RoomHandle, RoomTask))
    ensures
        r.0@ == room::fresh_room(name@),
        factory::task_of(r.1, room_config(name@, *command)),
        match *command {
            Commands::Host { invite_ttl, .. } => r.1 matches RoomTask::Host(t) && t@ == (HostView {
                name: name@,
                invite_ttl_secs: invite_ttl,
                phase: HostPhase::Bootstrapping,
            }),
            Commands::Join { invite_code, .. } => r.1 matches RoomTask::Join(t) && t@ == (
            JoinView {
                name: name@,
                invite_code: invite_code@,
                phase: JoinPhase::Bootstrapping,
            }),
        },
{
    let config = match command {
        Commands::Host { invite_ttl, .. } => RoomConfig::Host {
            name: name.to_owned(),
            invite_ttl_secs: *invite_ttl,
        },
        Commands::Join { invite_code, .. } => RoomConfig::Join {
            name: name.to_owned(),
            invite_code: invite_code.clone(),
        },
    };
    RoomFactory::create(config)
}

// ---------------------------------------------------------------------------
// Display names
// ---------------------------------------------------------------------------

/// A name without white space around it, unless nothing is left.
pub open spec fn usable_name(s: Option<Seq<char>>) -> Option<Seq<char>> {
    match s {
        Some(name) if text::trimmed(name).len() > 0 => Some(text::trimmed(name)),
        _ => None,
    }
}

/// A host's display name: the one that was given, or else the one that was stored.
/// `None` means that the user has to be asked.
pub fn resolve_name(override_name: Option<String>, stored: Option<String>) -> (r: Option<String>)
    ensures
        text::opt_text(r) == match usable_name(text::opt_text(override_name)) {
            Some(name) => Some(name),
            None => usable_name(text::opt_text(stored)),
        },
{
    match override_name {
        Some(name) => {
            let name = text::trim_text(name.as_str());
            if name.as_str().unicode_len() > 0 {
                return Some(name);
            }
        },
        None => {},
    }
    match stored {
        Some(name) => {
            let name = text::trim_text(name.as_str());
            if name.as_str().unicode_len() > 0 {
                return Some(name);
            }
        },
        None => {},
    }
    None
}

/// The display name that the user entered when asked.
pub fn entered_name(input: &str) -> (r: Result<String, IoError>)
    ensures
        match r {
            Ok(name) => text::trimmed(input@).len() > 0 && name@ == text::trimmed(input@),
            Err(e) => text::trimmed(input@).len() == 0 && e@ == (IoErrorView {
                kind: IoErrorKind::InvalidInput,
                message: "Display name cannot be empty"@,
            }),
        },
{
    let name = text::trim_text(input);
    if name.as_str().unicode_len() > 0 {
        Ok(name)
    } else {
        Err(
            IoError {
                kind: IoErrorKind::InvalidInput,
                message: "Display name cannot be empty".to_owned(),
            },
        )
    }
}

/// A name that was entered and stored is the one that is found the next time: trimming
/// it again changes nothing.
pub proof fn entered_name_is_found_again(input: Seq<char>)
    requires
        text::trimmed(input).len() > 0,
    ensures
        usable_name(Some(text::trimmed(input))) == Some(text::trimmed(input)),
{
    text::trimming_is_idempotent(input);
}

// ---------------------------------------------------------------------------
// Slash commands
// ---------------------------------------------------------------------------

/// A command that was typed into the input bar.
#[derive(Debug)]
pub enum SlashCommand {
    /// Generate an invite code, for somebody of that name.
    Invite(Option<String>),
    /// List connected peers.
    Peers,
    /// Leave the room.
    Quit,
    /// Show the commands.
    Help,
    /// Anything else, as it was typed.
    Unknown(String),
}

/// A [`SlashCommand`] with its texts as characters.
#[verifier::ext_equal]
pub enum SlashView {
    Invite(Option<Seq<char>>),
    Peers,
    Quit,
    Help,
    Unknown(Seq<char>),
}

impl View for SlashCommand {
    type V = SlashView;

    open spec fn view(&self) -> SlashView {
        match self {
            SlashCommand::Invite(name) => SlashView::Invite(text::opt_text(*name)),
            SlashCommand::Peers => SlashView::Peers,
            SlashCommand::Quit => SlashView::Quit,
            SlashCommand::Help => SlashView::Help,
            SlashCommand::Unknown(s) => SlashView::Unknown(s@),
        }
    }
}

/// The first word of a command, empty where there is none.
pub open spec fn command_word(cmd: Seq<char>) -> Seq<char> {
    if text::words(cmd).len() > 0 {
        text::words(cmd)[0]
    } else {
        ""@
    }
}

/// The second word of a command, if there is one.
pub open spec fn command_argument(cmd: Seq<char>) -> Option<Seq<char>> {
    if text::words(cmd).len() > 1 {
        Some(text::words(cmd)[1])
    } else {
        None
    }
}

/// The command that a text without its slash stands for.
pub open spec fn parsed_command(cmd: Seq<char>) -> SlashView {
    if command_word(cmd) == "invite"@ {
        SlashView::Invite(command_argument(cmd))
    } else if command_word(cmd) == "peers"@ {
        SlashView::Peers
    } else if command_word(cmd) == "quit"@ {
        SlashView::Quit
    } else if command_word(cmd) == "help"@ {
        SlashView::Help
    } else {
        SlashView::Unknown(cmd)
    }
}

/// Reads a command, given without its slash.
pub fn parse_command(cmd: &str) -> (r: SlashCommand)
    ensures
        r@ == parsed_command(cmd@),
{
    let parts = text::split_words(cmd);
    let ghost words = text::words(cmd@);
    assert(words.len() == parts.len());
    assert forall|i: int| 0 <= i < parts.len() implies words[i] == #[trigger] parts[i]@ by {
        assert(text::texts(parts@)[i] == parts@[i]@);
    }
    let word = if parts.len() > 0 {
        assert(words[0] == parts[0]@);
        parts[0].as_str()
    } else {
        ""
    };
    if text::same_text(word, "invite") {
        if parts.len() > 1 {
            assert(words[1] == parts[1]@);
            SlashCommand::Invite(Some(parts[1].clone()))
        } else {
            SlashCommand::Invite(None)
        }
    } else if text::same_text(word, "peers") {
        SlashCommand::Peers
    } else if text::same_text(word, "quit") {
        SlashCommand::Quit
    } else if text::same_text(word, "help") {
        SlashCommand::Help
    } else {
        SlashCommand::Unknown(cmd.to_owned())
    }
}

// ---------------------------------------------------------------------------
// Lists of peers
// ---------------------------------------------------------------------------

/// The names of peers, in order.
pub open spec fn peer_names(peers: Seq<PeerInfo>) -> Seq<Seq<char>> {
    peers.map_values(|p: PeerInfo| p@.name)
}

/// The names of peers, separated by commas, or another text where there are none.
pub open spec fn peer_list(peers: Seq<PeerInfo>, none: Seq<char>) -> Seq<char> {
    if peers.len() == 0 {
        none
    } else {
        "peers: "@ + text::joined(peer_names(peers), ", "@)
    }
}

/// Lists the names of peers.
pub fn list_peers(peers: &Vec<PeerInfo>, none: &str) -> (s: String)
    ensures
        s@ == peer_list(peers@, none@),
{
    if peers.len() == 0 {
        return none.to_owned();
    }
    let mut names: Vec<String> = Vec::new();
    let mut i: usize = 0;
    while i < peers.len()
        invariant
            i <= peers.len(),
            text::texts(names@) == peer_names(peers@.take(i as int)),
        decreases peers.len() - i,
    {
        let ghost before = names@;
        let name = peers[i].name.clone();
        names.push(name);
        proof {
            assert(text::texts(names@) =~= text::texts(before).push(name@));
            assert(peer_names(peers@.take(i + 1)) =~= peer_names(peers@.take(i as int)).push(
                peers@[i as int]@.name,
            ));
        }
        i = i + 1;
    }
    assert(peers@.take(peers@.len() as int) =~= peers@);
    let list = text::join(&names, ", ");
    text::concat2("peers: ", list.as_str())
}

// ---------------------------------------------------------------------------
// Laws
// ---------------------------------------------------------------------------

/// What the user gives with a subcommand is what the room works with: a host's room has
/// the name and the time to live that were asked for, a joiner's the name and the code,
/// and both start by waiting for Tor.
pub proof fn room_is_what_was_asked_for(name: Seq<char>, command: Commands, task: RoomTask)
    requires
        factory::task_of(task, room_config(name, command)),
    ensures
        command matches Commands::Host { invite_ttl, .. } ==> (task matches RoomTask::Host(t) && {
            &&& t@.name == name
            &&& t@.invite_ttl_secs == invite_ttl
            &&& t@.phase == HostPhase::Bootstrapping
        }),
        command matches Commands::Join { invite_code, .. } ==> (task matches RoomTask::Join(t) && {
            &&& t@.name == name
            &&& t@.invite_code == invite_code@
            &&& t@.phase == JoinPhase::Bootstrapping
        }),
        factory::config_name(room_config(name, command)) == name,
{
}

/// Codes live as long as the host asked for on the command line: in a room that was
/// opened with the settings of its task, a greeting with a code that the room gave out
/// is refused as expired exactly if the time to live given with the subcommand is not
/// zero and more seconds than that have passed.
pub proof fn codes_live_as_long_as_asked(
    name: Seq<char>,
    command: Commands,
    task: RoomTask,
    room: RoomView,
    used: Set<Seq<u8>>,
    nonce: Seq<u8>,
    discriminator: Seq<u8>,
    issued: u64,
    now: u64,
)
    requires
        command is Host,
        factory::task_of(task, room_config(name, command)),
        task matches RoomTask::Host(t) && (room.invite matches Some(info) && info.ttl_secs
            == t@.invite_ttl_secs),
        room::issue_time(room.issued, nonce) == Some(issued),
        nonce.len() == 16,
        discriminator.len() == 16,
    ensures
        command matches Commands::Host { invite_ttl, .. } && {
            connection::room_admission(room, used, nonce + discriminator, now) == Err::<
                Seq<u8>,
                ErrorView,
            >(ErrorView::InviteExpired { timestamp: issued }) <==> invite_ttl > 0 && now > issued
                + invite_ttl
        },
{
    connection::time_to_live_decides(room, used, nonce, discriminator, issued, now);
}

/// A name counts exactly if something is left of it without the white space around it,
/// and that is then the name.
pub proof fn name_is_what_stands_between_white_space(
    before: Seq<char>,
    name: Seq<char>,
    after: Seq<char>,
)
    requires
        text::blank(before),
        text::blank(after),
        name.len() > 0 ==> !text::white_space(name[0]) && !text::white_space(name.last()),
    ensures
        usable_name(None) is None,
        name.len() > 0 ==> usable_name(Some(before + name + after)) == Some(name),
        name.len() == 0 ==> usable_name(Some(before + name + after)) is None,
{
    text::trimming_leaves_what_stands_between(before, name, after);
}

/// A command is known by its first word, whatever white space stands around it, and
/// whatever follows: `invite` takes the next word as a name, if there is one, and the
/// other three take nothing. Anything else is unknown, and kept as it was typed.
pub proof fn first_word_is_the_command(
    before: Seq<char>,
    word: Seq<char>,
    rest: Seq<char>,
)
    requires
        text::blank(before),
        text::is_word(word),
        rest.len() > 0 ==> text::white_space(rest[0]),
    ensures
        ({
            let cmd = before + word + rest;
            &&& word == "invite"@ && text::blank(rest) ==> parsed_command(cmd)
                == SlashView::Invite(None)
            &&& word == "peers"@ ==> parsed_command(cmd) == SlashView::Peers
            &&& word == "quit"@ ==> parsed_command(cmd) == SlashView::Quit
            &&& word == "help"@ ==> parsed_command(cmd) == SlashView::Help
            &&& word != "invite"@ && word != "peers"@ && word != "quit"@ && word != "help"@
                ==> parsed_command(cmd) == SlashView::Unknown(cmd)
        }),
        parsed_command(before) == SlashView::Unknown(before),
{
    text::words_stand_between_white_space(before, word, rest);
    text::blank_text_has_no_words(before);
    if text::blank(rest) {
        text::blank_text_has_no_words(rest);
    }
    reveal_strlit("");
    reveal_strlit("invite");
    reveal_strlit("peers");
    reveal_strlit("quit");
    reveal_strlit("help");
    assert(""@.len() == 0 && "invite"@.len() == 6 && "peers"@.len() == 5 && "quit"@.len() == 4
        && "help"@.len() == 4);
    assert("invite"@[0] != "peers"@[0]);
    assert("invite"@[0] != "quit"@[0]);
    assert("invite"@[0] != "help"@[0]);
    assert("peers"@[0] != "quit"@[0]);
    assert("peers"@[0] != "help"@[0]);
    assert("quit"@[0] != "help"@[0]);
}

/// The word behind `invite` is the name of whoever is invited, and what follows it is
/// passed over.
pub proof fn second_word_is_invited(
    before: Seq<char>,
    gap: Seq<char>,
    name: Seq<char>,
    rest: Seq<char>,
)
    requires
        text::blank(before),
        text::blank(gap),
        gap.len() > 0,
        text::is_word(name),
        rest.len() > 0 ==> text::white_space(rest[0]),
    ensures
        parsed_command(before + "invite"@ + (gap + name + rest)) == SlashView::Invite(Some(name)),
{
    reveal_strlit("invite");
    let behind = gap + name + rest;
    assert(behind[0] == gap[0]);
    assert(text::is_word("invite"@)) by {
        assert forall|i: int| 0 <= i < "invite"@.len() implies !text::white_space(
            #[trigger] "invite"@[i],
        ) by {}
    }
    text::words_stand_between_white_space(before, "invite"@, behind);
    text::words_stand_between_white_space(gap, name, rest);
}

/// Peers are listed by name, in their order, each behind a comma but the first; nobody
/// is left out.
pub proof fn peers_are_listed_by_name(peers: Seq<PeerInfo>, last: PeerInfo, none: Seq<char>)
    ensures
        peer_list(Seq::empty(), none) == none,
        peer_list(seq![last], none) == "peers: "@ + last@.name,
        peers.len() > 0 ==> peer_list(peers.push(last), none) == peer_list(peers, none) + ", "@
            + last@.name,
{
    assert(peer_names(seq![last]) =~= seq![last@.name]);
    assert(peer_names(peers.push(last)).drop_last() =~= peer_names(peers));
    if peers.len() > 0 {
        assert(peer_list(peers.push(last), none) =~= peer_list(peers, none) + ", "@ + last@.name);
    }
}

/// What is seen of a command is which it is, and what it was given; and the name given with
/// a subcommand is the one that it holds.
pub proof fn commands_are_seen_whole(command: Commands, name: Option<String>, s: String)
    ensures
        SlashCommand::Invite(name)@ == SlashView::Invite(text::opt_text(name)),
        SlashCommand::Peers@ == SlashView::Peers,
        SlashCommand::Quit@ == SlashView::Quit,
        SlashCommand::Help@ == SlashView::Help,
        SlashCommand::Unknown(s)@ == SlashView::Unknown(s@),
        command matches Commands::Host { name: n, .. } ==> given_name(command) == match n {
            Some(x) => Some(x@),
            None => None,
        },
        command matches Commands::Join { name: n, .. } ==> given_name(command) == match n {
            Some(x) => Some(x@),
            None => None,
        },
{
}

} // verus!
