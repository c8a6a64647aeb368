//! The requests the persistence layer answers.

use vstd::prelude::*;

use crate::channel::permissions::Permission;
use crate::channel::ChannelId;
use crate::connection::UserId;

verus! {

/// Creates a channel if it does not exist yet; answered with its id.
pub struct ChannelCreated {
    pub name: String,
}

/// Records that a user joined a channel.
pub struct ChannelJoined {
    pub channel_id: ChannelId,
    pub user_id: UserId,
}

/// Records that a user left a channel.
pub struct ChannelParted {
    pub channel_id: ChannelId,
    pub user_id: UserId,
}

/// Asks for the channels a user is in.
pub struct FetchUserChannels {
    pub user_id: UserId,
}

/// Asks for the access levels of every user in a channel.
pub struct FetchAllUserChannelPermissions {
    pub channel_id: ChannelId,
}

/// Stores the access level of a user in a channel.
pub struct SetUserChannelPermissions {
    pub channel_id: ChannelId,
    pub user_id: UserId,
    pub permissions: Permission,
}

/// Asks for the user that owns a nick.
pub struct FetchUserIdByNick {
    pub nick: String,
}

/// Stores a message sent to a channel.
pub struct ChannelMessage {
    pub channel_id: ChannelId,
    pub sender: String,
    pub message: String,
    pub receivers: Vec<UserId>,
}

/// Stores a private message for a user who is not connected.
pub struct PrivateMessage {
    pub sender: String,
    pub receiver: UserId,
    pub message: String,
}

/// Asks for the private messages a user has not seen.
pub struct FetchUnseenPrivateMessages {
    pub user_id: UserId,
}

/// Asks for the messages of a channel a user has not seen.
pub struct FetchUnseenChannelMessages {
    pub channel_name: String,
    pub user_id: UserId,
}

/// Claims a nick for a user; answered with whether the user owns it.
pub struct ReserveNick {
    pub user_id: UserId,
    pub nick: String,
}

} // verus!
