//! The requests that pass between clients, channels and the server.

use vstd::prelude::*;

use crate::connection::UserId;
use crate::message::Message;

verus! {

/// A user asks to change their own nick, or an operator another user's.
pub struct UserNickChangeInternal {
    pub old_nick: String,
    pub new_nick: String,
}

/// A message to pass on to every member of a channel, or to one client.
pub struct Broadcast {
    pub message: Message,
}

/// Asks a client for the channels it is in, with its level in each.
pub struct ConnectedChannels;

/// Asks the server for every channel, for `LIST`.
pub struct ChannelList;

/// Asks for the `WHO` list of a channel or nick.
pub struct FetchWhoList {
    pub query: String,
}

/// Asks for the `WHOIS` of a nick.
pub struct FetchWhois {
    pub query: String,
}

/// Asks a channel for its members, for `NAMES`.
pub struct ChannelMemberList;

/// Asks a channel for the access level of a user.
pub struct FetchUserPermission {
    pub user: UserId,
}

/// Asks a channel for its topic.
pub struct ChannelFetchTopic;

/// Asks a channel for its `WHO` list.
pub struct ChannelFetchWhoList;

/// Asks the server for its message of the day.
pub struct ServerFetchMotd;

/// Asks the server for its user counts.
pub struct ServerListUsers;

/// Asks the server for its administrative contact.
pub struct ServerAdminInfo;

/// Tells a client it was kicked from a channel.
pub struct UserKickedFromChannel {
    pub channel: String,
}

/// Asks a client for its connection details.
pub struct FetchClientDetails;

/// Whether a message is a normal message or a notice.
#[derive(Copy, Clone, Debug, PartialEq, Eq, Structural, Hash)]
pub enum MessageKind {
    Normal,
    Notice,
}

impl MessageKind {
    pub open spec fn command_spec(self) -> Seq<char> {
        match self {
            MessageKind::Normal => "PRIVMSG"@,
            MessageKind::Notice => "NOTICE"@,
        }
    }

    /// The command that carries a message of this kind.
    pub fn command(self) -> (s: &'static str)
        ensures
            s@ == self.command_spec(),
    {
        match self {
            MessageKind::Normal => "PRIVMSG",
            MessageKind::Notice => "NOTICE",
        }
    }

    /// The number this kind is stored as.
    pub fn code(self) -> (n: i16)
        ensures
            n == match self {
                MessageKind::Normal => 0i16,
                MessageKind::Notice => 1i16,
            },
    {
        match self {
            MessageKind::Normal => 0,
            MessageKind::Notice => 1,
        }
    }

    /// The kind stored as `n`, if any.
    pub fn from_code(n: i16) -> (k: Option<MessageKind>)
        ensures
            n == 0 ==> k == Some(MessageKind::Normal),
            n == 1 ==> k == Some(MessageKind::Notice),
            n != 0 && n != 1 ==> k is None,
    {
        if n == 0 {
            Some(MessageKind::Normal)
        } else if n == 1 {
            Some(MessageKind::Notice)
        } else {
            None
        }
    }
}

/// Asks the server for the client using a nick.
pub struct FetchClientByNick {
    pub nick: String,
}

} // verus!
