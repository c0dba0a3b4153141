//! Ephemeral chat: peer-to-peer rooms over Tor onion services.
//!
//! One person hosts a room and hands out invite codes, others join with them, and when
//! the host leaves the room is gone. This crate holds what the program decides and
//! computes, with contracts that Verus proves: invite codes and their single use, the
//! wire format, the life of rooms and connections, and what the interfaces show. The
//! network, the terminal and the file system are driven by the program around it.

pub mod bootstrap;
pub mod codec;
pub mod command;
pub mod connection;
pub mod connector;
pub mod error;
pub mod factory;
pub mod handshake;
pub mod headless;
pub mod hub;
pub mod invite;
pub mod io;
pub mod joiner;
pub mod json;
pub mod numeral;
pub mod payload;
pub mod render;
pub mod room;
pub mod roster;
mod system;
pub mod text;
pub mod tui;
pub mod types;
pub mod wire;

pub use bootstrap::TorBootstrap;
pub use error::ChatError;
pub use hub::{HostedRoom, Hub};
pub use invite::{decode as decode_invite, encode as encode_invite, InvitePayload};
pub use joiner::Joiner;
pub use room::{host, join, RoomHandle};
pub use types::{ChatEvent, HostConfig, JoinConfig, PeerId, PeerInfo};
