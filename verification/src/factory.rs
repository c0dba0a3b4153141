//! Unified room factory: a single entry point for hosting or joining rooms.
use vstd::prelude::*;

use crate::room;
use crate::room::{HostPhase, HostTask, HostView, JoinPhase, JoinTask, JoinView, RoomHandle};
use crate::types::{HostConfig, JoinConfig};

verus! {

/// Unified room creation configuration.
#[derive(Debug)]
pub enum RoomConfig {
    /// Host a new room.
    Host {
        /// Display name / room label.
        name: String,
        /// Seconds before the generated invite code expires.
        invite_ttl_secs: u64,
    },
    /// Join an existing room via an invite code.
    Join {
        /// Display name for this participant.
        name: String,
        /// The invite code received from the host.
        invite_code: String,
    },
}

/// A [`RoomConfig`] with its texts as characters.
#[verifier::ext_equal]
pub enum ConfigView {
    Host { name: Seq<char>, invite_ttl_secs: u64 },
    Join { name: Seq<char>, invite_code: Seq<char> },
}

impl View for RoomConfig {
    type V = ConfigView;

    open spec fn view(&self) -> ConfigView {
        match self {
            RoomConfig::Host { name, invite_ttl_secs } => ConfigView::Host {
                name: name@,
                invite_ttl_secs: *invite_ttl_secs,
            },
            RoomConfig::Join { name, invite_code } => ConfigView::Join {
                name: name@,
                invite_code: invite_code@,
            },
        }
    }
}

impl Clone for RoomConfig {
    fn clone(&self) -> (r: Self)
        ensures
            r@ == self@,
    {
        match self {
            RoomConfig::Host { name, invite_ttl_secs } => RoomConfig::Host {
                name: name.clone(),
                invite_ttl_secs: *invite_ttl_secs,
            },
            RoomConfig::Join { name, invite_code } => RoomConfig::Join {
                name: name.clone(),
                invite_code: invite_code.clone(),
            },
        }
    }
}

/// What a new room has to do.
pub enum RoomTask {
    Host(HostTask),
    Join(JoinTask),
}

/// The display name in a configuration.
pub open spec fn config_name(config: ConfigView) -> Seq<char> {
    match config {
        ConfigView::Host { name, .. } => name,
        ConfigView::Join { name, .. } => name,
    }
}

/// Whether a task is the one that a configuration asks for.
pub open spec fn task_of(task: RoomTask, config: ConfigView) -> bool {
    match config {
        ConfigView::Host { name, invite_ttl_secs } => task matches RoomTask::Host(t) && t@ == (
        HostView { name, invite_ttl_secs, phase: HostPhase::Bootstrapping }),
        ConfigView::Join { name, invite_code } => task matches RoomTask::Join(t) && t@ == (
        JoinView { name, invite_code, phase: JoinPhase::Bootstrapping }),
    }
}

/// Factory that turns a [`RoomConfig`] into a live room.
pub struct RoomFactory;

impl Default for RoomFactory {
    fn default() -> (f: Self)
        ensures
            f == RoomFactory,
    {
        RoomFactory
    }
}

impl RoomFactory {
    /// Create a room from the given [`RoomConfig`].
    ///
    /// Returns a [`RoomHandle`] for sending/controlling the room, and what the room
    /// has to do.
    pub fn create(config: RoomConfig) -> (r: (RoomHandle, RoomTask))
        ensures
            r.0@ == room::fresh_room(config_name(config@)),
            task_of(r.1, config@),
    {
        match config {
            RoomConfig::Host { name, invite_ttl_secs } => {
                let (handle, task) = room::host(HostConfig { name, invite_ttl_secs });
                (handle, RoomTask::Host(task))
            },
            RoomConfig::Join { name, invite_code } => {
                let (handle, task) = room::join(JoinConfig { name, invite_code });
                (handle, RoomTask::Join(task))
            },
        }
    }
}

/// A room is made under the name in its configuration, whichever it is; and what is seen of
/// a configuration is all of it.
pub proof fn configuration_is_seen_whole(name: String, code: String, ttl: u64)
    ensures
        (RoomConfig::Host { name, invite_ttl_secs: ttl })@ == (ConfigView::Host {
            name: name@,
            invite_ttl_secs: ttl,
        }),
        (RoomConfig::Join { name, invite_code: code })@ == (ConfigView::Join {
            name: name@,
            invite_code: code@,
        }),
        config_name((RoomConfig::Host { name, invite_ttl_secs: ttl })@) == name@,
        config_name((RoomConfig::Join { name, invite_code: code })@) == name@,
{
}

/// A task is the one that a configuration asks for exactly if it is of the same sort, under
/// the same name, with the same time to live or the same code, and has not begun.
pub proof fn task_follows_its_configuration(
    host: HostTask,
    join: JoinTask,
    name: Seq<char>,
    ttl: u64,
    code: Seq<char>,
)
    ensures
        task_of(RoomTask::Host(host), ConfigView::Host { name, invite_ttl_secs: ttl })
            <==> host@.name == name && host@.invite_ttl_secs == ttl && host@.phase
            == HostPhase::Bootstrapping,
        task_of(RoomTask::Join(join), ConfigView::Join { name, invite_code: code })
            <==> join@.name == name && join@.invite_code == code && join@.phase
            == JoinPhase::Bootstrapping,
        !task_of(RoomTask::Join(join), ConfigView::Host { name, invite_ttl_secs: ttl }),
        !task_of(RoomTask::Host(host), ConfigView::Join { name, invite_code: code }),
{
}

} // verus!
