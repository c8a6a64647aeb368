//! Core logic of an IRC server: host mask parsing and matching, channel
//! permissions, command parsing and protocol replies.

pub mod channel;
pub mod client;
pub mod connection;
pub mod database;
pub mod host_mask;
pub mod keys;
pub mod message;
pub mod messages;
pub mod persistence;
pub mod proto;
pub mod protocol;
pub mod server;
pub mod session;
pub mod text;
pub mod wire;

use vstd::prelude::*;

verus! {

/// The name the server announces itself with.
pub const SERVER_NAME: &'static str = "my.cool.server";

} // verus!
