//! Channels: access levels and the decisions a channel takes on requests.

pub mod permissions;
pub mod response;

use std::collections::HashMap;

use vstd::prelude::*;

use crate::channel::permissions::{ModeChange, Permission};
use crate::channel::response::{
    channel_privmsg, join_announcement, join_announcement_messages, kick_message, mode_letter, mode_message,
    part_message, quit_message,
};
use crate::connection::{InitiatedConnection, UserId};
use crate::message::{message_texts, push_message, raw_command, Message, MessageText};

verus! {

/// The database id of a channel.
#[derive(Copy, Clone, Debug, PartialEq, Eq, Structural, Hash)]
pub struct ChannelId(pub i64);

/// Why a user could not join a channel.
#[derive(Copy, Clone, Debug, PartialEq, Eq, Structural)]
pub enum ChannelJoinRejectionReason {
    Banned,
}

/// Why a request to change a user's access level was refused.
#[derive(Copy, Clone, Debug, PartialEq, Eq, Structural)]
pub enum SetModeRejection {
    /// The level to remove is not the one the user holds.
    NothingToRemove,
    /// The requester may not make this change.
    NotAllowed,
}

/// The topic of a channel, who set it and when (seconds since the epoch).
#[derive(Clone, Debug)]
pub struct CurrentChannelTopic {
    pub topic: String,
    pub set_by: String,
    pub set_time: i64,
}

impl CurrentChannelTopic {
    /// A copy of the topic, equal to it.
    pub fn clone_topic(&self) -> (t: CurrentChannelTopic)
        ensures
            t == *self,
    {
        CurrentChannelTopic { topic: self.topic.clone(), set_by: self.set_by.clone(), set_time: self.set_time }
    }
}

/// What a channel whose levels are `perms` decides on `requester` setting
/// (`add`) or removing the level `mode` of `affected`: removing a level the
/// user does not hold does nothing, and a change must leave both the old and
/// the new level below the requester's, who must be a half operator or
/// above. The level the user gets, where the change is made.
pub open spec fn set_mode_outcome(
    perms: Map<i64, Permission>,
    requester: UserId,
    affected: UserId,
    add: bool,
    mode: Permission,
) -> Result<Permission, SetModeRejection> {
    let own = level_in(perms, requester);
    let current = level_in(perms, affected);
    let new = if add {
        mode
    } else {
        Permission::Normal
    };
    if !add && current != mode {
        Err(SetModeRejection::NothingToRemove)
    } else if !(own.level() >= Permission::HalfOperator.level() && own.level() > new.level() && own.level()
        > current.level()) {
        Err(SetModeRejection::NotAllowed)
    } else {
        Ok(new)
    }
}

/// The first of `members` going by `nick`, if any.
pub open spec fn first_named(members: Seq<InitiatedConnection>, nick: Seq<char>) -> Option<InitiatedConnection>
    decreases members.len(),
{
    if members.len() == 0 {
        None
    } else if members[0].nick@ == nick {
        Some(members[0])
    } else {
        first_named(members.drop_first(), nick)
    }
}

/// The `MODE` messages that tell a channel named `channel` that the user
/// `affected` was given (`add`) or lost the level `mode`: one for each of the
/// user's connections among `members`, in order, each from that connection
/// and naming its nick. A level without a mode sends none.
pub open spec fn mode_broadcast(
    members: Seq<InitiatedConnection>,
    affected: UserId,
    channel: Seq<char>,
    add: bool,
    mode: Permission,
) -> Seq<MessageText>
    decreases members.len(),
{
    if members.len() == 0 {
        Seq::empty()
    } else {
        let rest = mode_broadcast(members.drop_last(), affected, channel, add, mode);
        let c = members.last();
        match mode.mode_spec() {
            Some(m) => if c.user_id == affected {
                rest.push(
                    raw_command(
                        Some(c.nick_prefix()),
                        "MODE"@,
                        seq![channel, seq![if add { '+' } else { '-' }, mode_letter(m)->0], c.nick@],
                    ),
                )
            } else {
                rest
            },
            None => rest,
        }
    }
}

/// The levels and the announcements that a channel named `channel` with
/// levels `perms` and members `members` ends with after `requester` asks
/// for `modes`, taken in order: a mode that stands for a level and names a
/// member is decided as `set_mode_outcome` says, and every other mode is
/// passed over.
pub open spec fn apply_modes(
    perms: Map<i64, Permission>,
    requester: UserId,
    members: Seq<InitiatedConnection>,
    channel: Seq<char>,
    modes: Seq<ModeChange>,
) -> (Map<i64, Permission>, Seq<MessageText>)
    decreases modes.len(),
{
    if modes.len() == 0 {
        (perms, Seq::empty())
    } else {
        let (before, sent) = apply_modes(perms, requester, members, channel, modes.drop_last());
        let change = modes.last();
        match Permission::from_mode_spec(change.mode) {
            Ok(level) => match change.argument {
                Some(nick) => match first_named(members, nick@) {
                    Some(a) => match set_mode_outcome(before, requester, a.user_id, change.add, level) {
                        Ok(new) => (
                            before.insert(a.user_id.0, new),
                            sent + mode_broadcast(members, a.user_id, channel, change.add, level),
                        ),
                        Err(_) => (before, sent),
                    },
                    None => (before, sent),
                },
                None => (before, sent),
            },
            Err(_) => (before, sent),
        }
    }
}

/// A request to set (`add`) or remove the level `user_mode` of the member
/// going by `affected_nick`.
pub struct SetUserMode {
    pub requester: InitiatedConnection,
    pub add: bool,
    pub affected_nick: String,
    pub user_mode: Permission,
}

/// The client ids of channel members, in order.
pub open spec fn client_ids(clients: Seq<(u64, InitiatedConnection)>) -> Seq<u64> {
    clients.map_values(|e: (u64, InitiatedConnection)| e.0)
}

/// The connections of channel members, in order.
pub open spec fn member_conns(clients: Seq<(u64, InitiatedConnection)>) -> Seq<InitiatedConnection> {
    clients.map_values(|e: (u64, InitiatedConnection)| e.1)
}

/// The members other than the client `client`, in order.
pub open spec fn without_client(clients: Seq<(u64, InitiatedConnection)>, client: u64) -> Seq<
    (u64, InitiatedConnection),
> {
    clients.filter(|e: (u64, InitiatedConnection)| e.0 != client)
}

/// The connection of the first member that is the client `client`, if any.
pub open spec fn connection_of(clients: Seq<(u64, InitiatedConnection)>, client: u64) -> Option<InitiatedConnection>
    decreases clients.len(),
{
    if clients.len() == 0 {
        None
    } else {
        match connection_of(clients.drop_last(), client) {
            Some(c) => Some(c),
            None => if clients.last().0 == client {
                Some(clients.last().1)
            } else {
                None
            },
        }
    }
}

/// The first member whose connection goes by `nick`, if any.
pub open spec fn member_named(clients: Seq<(u64, InitiatedConnection)>, nick: Seq<char>) -> Option<
    (u64, InitiatedConnection),
>
    decreases clients.len(),
{
    if clients.len() == 0 {
        None
    } else {
        match member_named(clients.drop_last(), nick) {
            Some(e) => Some(e),
            None => if clients.last().1.nick@ == nick {
                Some(clients.last())
            } else {
                None
            },
        }
    }
}

/// A connection going by another nick.
pub open spec fn with_nick(c: InitiatedConnection, nick: String) -> InitiatedConnection {
    InitiatedConnection { nick: nick, ..c }
}

proof fn lemma_connection_of_prefix(s: Seq<(u64, InitiatedConnection)>, k: int, client: u64)
    requires
        0 <= k <= s.len(),
        connection_of(s.take(k), client) is Some,
    ensures
        connection_of(s, client) == connection_of(s.take(k), client),
    decreases s.len(),
{
    if k == s.len() {
        assert(s.take(k) =~= s);
    } else {
        assert(s.drop_last().take(k) =~= s.take(k));
        lemma_connection_of_prefix(s.drop_last(), k, client);
    }
}

proof fn lemma_member_named_prefix(s: Seq<(u64, InitiatedConnection)>, k: int, nick: Seq<char>)
    requires
        0 <= k <= s.len(),
        member_named(s.take(k), nick) is Some,
    ensures
        member_named(s, nick) == member_named(s.take(k), nick),
    decreases s.len(),
{
    if k == s.len() {
        assert(s.take(k) =~= s);
    } else {
        assert(s.drop_last().take(k) =~= s.take(k));
        lemma_member_named_prefix(s.drop_last(), k, nick);
    }
}

/// The entries of `clients` other than those of the client `client`, in
/// order.
pub fn clients_without(clients: &Vec<(u64, InitiatedConnection)>, client: u64) -> (r: Vec<(u64, InitiatedConnection)>)
    ensures
        r@ == without_client(clients@, client),
        r@.len() <= clients@.len(),
{
    let ghost all = clients@;
    let mut kept: Vec<(u64, InitiatedConnection)> = Vec::new();
    let mut i: usize = 0;
    while i < clients.len()
        invariant
            i <= clients.len(),
            all == clients@,
            kept@ == without_client(all.take(i as int), client),
            kept@.len() <= i,
        decreases clients.len() - i,
    {
        proof {
            reveal(Seq::filter);
            assert(all.take(i + 1).drop_last() =~= all.take(i as int));
        }
        let (id, c) = &clients[i];
        if *id != client {
            kept.push((*id, c.clone_connection()));
        }
        i = i + 1;
    }
    assert(all.take(all.len() as int) =~= all);
    kept
}

/// The entries of `clients`, with `connection` in place of each entry of
/// the client `client`.
pub fn clients_renamed(clients: &Vec<(u64, InitiatedConnection)>, client: u64, connection: &InitiatedConnection) -> (r:
    Vec<(u64, InitiatedConnection)>)
    ensures
        r@ == clients@.map_values(
            |e: (u64, InitiatedConnection)|
                if e.0 == client {
                    (client, *connection)
                } else {
                    e
                },
        ),
{
    let ghost all = clients@;
    let mut out: Vec<(u64, InitiatedConnection)> = Vec::new();
    let mut i: usize = 0;
    while i < clients.len()
        invariant
            i <= clients.len(),
            all == clients@,
            out@ == all.take(i as int).map_values(
                |e: (u64, InitiatedConnection)|
                    if e.0 == client {
                        (client, *connection)
                    } else {
                        e
                    },
            ),
        decreases clients.len() - i,
    {
        let (id, c) = &clients[i];
        if *id == client {
            let copy = connection.clone_connection();
            out.push((client, copy));
        } else {
            let copy = c.clone_connection();
            out.push((*id, copy));
        }
        assert(all.take(i + 1).map_values(
            |e: (u64, InitiatedConnection)|
                if e.0 == client {
                    (client, *connection)
                } else {
                    e
                },
        ) =~= all.take(i as int).map_values(
            |e: (u64, InitiatedConnection)|
                if e.0 == client {
                    (client, *connection)
                } else {
                    e
                },
        ).push(
            if all[i as int].0 == client {
                (client, *connection)
            } else {
                all[i as int]
            },
        ));
        i = i + 1;
    }
    assert(all.take(all.len() as int) =~= all);
    out
}

/// Messages for some of the members of a channel, by client id.
pub struct Delivery {
    pub recipients: Vec<u64>,
    pub messages: Vec<Message>,
}

/// What a channel knows: its name, the access level of each user who has
/// one other than `Normal`, its topic, and the clients in it with the
/// connection each joined with.
pub struct Channel {
    pub name: String,
    /// Access levels by user id.
    pub permissions: HashMap<i64, Permission>,
    /// The clients in the channel, by client id, with their connections.
    pub clients: Vec<(u64, InitiatedConnection)>,
    pub topic: Option<CurrentChannelTopic>,
    pub channel_id: ChannelId,
}

/// The access level a user holds under `perms`: `Normal` unless stated.
pub open spec fn level_in(perms: Map<i64, Permission>, user: UserId) -> Permission {
    if perms.contains_key(user.0) {
        perms[user.0]
    } else {
        Permission::Normal
    }
}

impl Channel {
    /// The stored access levels, by user id.
    pub open spec fn permissions(&self) -> Map<i64, Permission> {
        self.permissions@
    }

    /// A channel with no access levels stored and no topic.
    pub fn new(name: String, channel_id: ChannelId) -> (c: Channel)
        ensures
            c.name@ == name@,
            c.channel_id == channel_id,
            c.permissions() == Map::<i64, Permission>::empty(),
            c.topic is None,
            c.clients@.len() == 0,
    {
        Channel { name, permissions: HashMap::new(), clients: Vec::new(), topic: None, channel_id }
    }

    /// Replaces the stored access levels with `levels`, later entries
    /// winning over earlier ones for one user.
    pub fn load_permissions(&mut self, levels: Vec<(UserId, Permission)>)
        ensures
            final(self).name == old(self).name,
            final(self).topic == old(self).topic,
            final(self).channel_id == old(self).channel_id,
            final(self).clients == old(self).clients,
            final(self).permissions() == levels_map(levels@),
    {
        let mut map: HashMap<i64, Permission> = HashMap::new();
        let mut i: usize = 0;
        while i < levels.len()
            invariant
                i <= levels.len(),
                map@ == levels_map(levels@.take(i as int)),
            decreases levels.len() - i,
        {
            let (user, level) = levels[i];
            map.insert(user.0, level);
            proof {
                assert(levels@.take(i + 1).drop_last() =~= levels@.take(i as int));
            }
            i = i + 1;
        }
        assert(levels@.take(levels.len() as int) =~= levels@);
        self.permissions = map;
    }

    /// The user's access level, `Normal` unless one is stored.
    pub fn get_user_permissions(&self, user_id: UserId) -> (p: Permission)
        ensures
            p == level_in(self.permissions(), user_id),
    {
        match self.permissions.get(&user_id.0) {
            Some(p) => *p,
            None => Permission::Normal,
        }
    }

    /// The connections of the members, in order.
    pub fn member_connections(&self) -> (r: Vec<InitiatedConnection>)
        ensures
            r@ == member_conns(self.clients@),
    {
        let mut out: Vec<InitiatedConnection> = Vec::new();
        let mut i: usize = 0;
        while i < self.clients.len()
            invariant
                i <= self.clients.len(),
                out@ == member_conns(self.clients@.take(i as int)),
            decreases self.clients.len() - i,
        {
            out.push(self.clients[i].1.clone_connection());
            assert(member_conns(self.clients@.take(i + 1)) =~= member_conns(self.clients@.take(i as int)).push(
                self.clients@[i as int].1,
            ));
            i = i + 1;
        }
        assert(self.clients@.take(self.clients.len() as int) =~= self.clients@);
        out
    }

    /// The client ids of the members, in order.
    pub fn client_id_list(&self) -> (r: Vec<u64>)
        ensures
            r@ == client_ids(self.clients@),
    {
        let mut out: Vec<u64> = Vec::new();
        let mut i: usize = 0;
        while i < self.clients.len()
            invariant
                i <= self.clients.len(),
                out@ == client_ids(self.clients@.take(i as int)),
            decreases self.clients.len() - i,
        {
            out.push(self.clients[i].0);
            assert(client_ids(self.clients@.take(i + 1)) =~= client_ids(self.clients@.take(i as int)).push(
                self.clients@[i as int].0,
            ));
            i = i + 1;
        }
        assert(self.clients@.take(self.clients.len() as int) =~= self.clients@);
        out
    }

    /// The client ids of the members other than `client`, in order.
    fn ids_except(&self, client: u64) -> (r: Vec<u64>)
        ensures
            r@ == client_ids(without_client(self.clients@, client)),
    {
        let ghost all = self.clients@;
        let mut out: Vec<u64> = Vec::new();
        let mut i: usize = 0;
        while i < self.clients.len()
            invariant
                i <= self.clients.len(),
                all == self.clients@,
                out@ == client_ids(without_client(all.take(i as int), client)),
            decreases self.clients.len() - i,
        {
            proof {
                reveal(Seq::filter);
                assert(all.take(i + 1).drop_last() =~= all.take(i as int));
            }
            let id = self.clients[i].0;
            if id != client {
                let ghost before = without_client(all.take(i as int), client);
                out.push(id);
                assert(without_client(all.take(i + 1), client) == before.push(all[i as int]));
                assert(client_ids(before.push(all[i as int])) =~= client_ids(before).push(id));
            }
            i = i + 1;
        }
        assert(all.take(all.len() as int) =~= all);
        out
    }

    /// Where the client `client` first stands among the members.
    fn find_client(&self, client: u64) -> (r: Option<usize>)
        ensures
            match connection_of(self.clients@, client) {
                Some(c) => r matches Some(i) && i < self.clients.len() && self.clients@[i as int] == (client, c),
                None => r is None,
            },
    {
        let ghost all = self.clients@;
        let mut i: usize = 0;
        while i < self.clients.len()
            invariant
                i <= self.clients.len(),
                all == self.clients@,
                connection_of(all.take(i as int), client) is None,
            decreases self.clients.len() - i,
        {
            assert(all.take(i + 1).drop_last() =~= all.take(i as int));
            if self.clients[i].0 == client {
                proof {
                    lemma_connection_of_prefix(all, i + 1, client);
                }
                return Some(i);
            }
            i = i + 1;
        }
        assert(all.take(all.len() as int) =~= all);
        None
    }

    /// Where the first member going by `nick` stands.
    fn find_named(&self, nick: &String) -> (r: Option<usize>)
        ensures
            match member_named(self.clients@, nick@) {
                Some(e) => r matches Some(i) && i < self.clients.len() && self.clients@[i as int] == e,
                None => r is None,
            },
    {
        let ghost all = self.clients@;
        let mut i: usize = 0;
        while i < self.clients.len()
            invariant
                i <= self.clients.len(),
                all == self.clients@,
                member_named(all.take(i as int), nick@) is None,
            decreases self.clients.len() - i,
        {
            assert(all.take(i + 1).drop_last() =~= all.take(i as int));
            if self.clients[i].1.nick.eq(nick) {
                proof {
                    lemma_member_named_prefix(all, i + 1, nick@);
                }
                return Some(i);
            }
            i = i + 1;
        }
        assert(all.take(all.len() as int) =~= all);
        None
    }

    /// Takes the client `client` out of the members.
    fn remove_client(&mut self, client: u64)
        ensures
            final(self).clients@ == without_client(old(self).clients@, client),
            final(self).name == old(self).name,
            final(self).topic == old(self).topic,
            final(self).channel_id == old(self).channel_id,
            final(self).permissions == old(self).permissions,
    {
        self.clients = clients_without(&self.clients, client);
    }

    /// A client joins with `connection`, as `join` decides: once admitted it
    /// is a member (in place of any earlier entry of it), and every member,
    /// the joiner included, gets the `JOIN` and the mode of the joiner's
    /// level.
    pub fn join_client(&mut self, client: u64, connection: InitiatedConnection) -> (r: Result<
        Delivery,
        ChannelJoinRejectionReason,
    >)
        ensures
            final(self).name == old(self).name,
            final(self).topic == old(self).topic,
            final(self).channel_id == old(self).channel_id,
            level_in(old(self).permissions(), connection.user_id) == Permission::Ban ==> {
                &&& r matches Err(ChannelJoinRejectionReason::Banned)
                &&& final(self).permissions() == old(self).permissions()
                &&& final(self).clients == old(self).clients
            },
            level_in(old(self).permissions(), connection.user_id) != Permission::Ban ==> {
                let level = if old(self).permissions().is_empty() {
                    Permission::Founder
                } else {
                    level_in(old(self).permissions(), connection.user_id)
                };
                &&& final(self).permissions() == if old(self).permissions().is_empty() {
                    map![connection.user_id.0 => Permission::Founder]
                } else {
                    old(self).permissions()
                }
                &&& final(self).clients@ == without_client(old(self).clients@, client).push((client, connection))
                &&& r matches Ok(d) && d.recipients@ == client_ids(final(self).clients@) && message_texts(
                    d.messages@,
                ) == join_announcement(connection, old(self).name@, level)
            },
    {
        let level = match self.join(connection.user_id) {
            Ok(p) => p,
            Err(e) => return Err(e),
        };
        let messages = join_announcement_messages(&connection, &self.name, level);
        self.remove_client(client);
        self.clients.push((client, connection));
        let recipients = self.client_id_list();
        Ok(Delivery { recipients, messages })
    }

    /// A member leaves with an optional message: the leaver and every
    /// member left get the `PART`.
    pub fn part(&mut self, client: u64, message: Option<String>) -> (r: Option<Delivery>)
        ensures
            final(self).name == old(self).name,
            final(self).topic == old(self).topic,
            final(self).channel_id == old(self).channel_id,
            final(self).permissions() == old(self).permissions(),
            match connection_of(old(self).clients@, client) {
                None => r is None && final(self).clients == old(self).clients,
                Some(c) => {
                    &&& final(self).clients@ == without_client(old(self).clients@, client)
                    &&& r matches Some(d) && d.recipients@ == seq![client] + client_ids(final(self).clients@)
                        && message_texts(d.messages@) == seq![
                        raw_command(
                            Some(c.nick_prefix()),
                            "PART"@,
                            match message {
                                Some(t) => seq![old(self).name@, t@],
                                None => seq![old(self).name@],
                            },
                        ),
                    ]
                },
            },
    {
        let i = match self.find_client(client) {
            Some(i) => i,
            None => return None,
        };
        let leaver = self.clients[i].1.clone_connection();
        let mut messages: Vec<Message> = Vec::new();
        push_message(&mut messages, part_message(&leaver, &self.name, message));
        self.remove_client(client);
        let mut recipients: Vec<u64> = Vec::new();
        recipients.push(client);
        let mut rest = self.client_id_list();
        recipients.append(&mut rest);
        assert(message_texts(messages@) =~= seq![messages@[0]@]);
        Some(Delivery { recipients, messages })
    }

    /// A member's client disconnects: every member left gets the `QUIT`.
    pub fn disconnect(&mut self, client: u64, message: Option<String>) -> (r: Option<Delivery>)
        ensures
            final(self).name == old(self).name,
            final(self).topic == old(self).topic,
            final(self).channel_id == old(self).channel_id,
            final(self).permissions() == old(self).permissions(),
            match connection_of(old(self).clients@, client) {
                None => r is None && final(self).clients == old(self).clients,
                Some(c) => {
                    &&& final(self).clients@ == without_client(old(self).clients@, client)
                    &&& r matches Some(d) && d.recipients@ == client_ids(final(self).clients@)
                        && message_texts(d.messages@) == seq![
                        raw_command(
                            Some(c.nick_prefix()),
                            "QUIT"@,
                            match message {
                                Some(t) => seq![t@],
                                None => Seq::empty(),
                            },
                        ),
                    ]
                },
            },
    {
        let i = match self.find_client(client) {
            Some(i) => i,
            None => return None,
        };
        let leaver = self.clients[i].1.clone_connection();
        let mut messages: Vec<Message> = Vec::new();
        push_message(&mut messages, quit_message(&leaver, message));
        self.remove_client(client);
        let recipients = self.client_id_list();
        assert(message_texts(messages@) =~= seq![messages@[0]@]);
        Some(Delivery { recipients, messages })
    }

    /// A member changed nick: each entry of the client takes `connection`
    /// going by `new_nick`.
    pub fn rename_member(&mut self, client: u64, connection: InitiatedConnection, new_nick: String)
        ensures
            final(self).name == old(self).name,
            final(self).topic == old(self).topic,
            final(self).channel_id == old(self).channel_id,
            final(self).permissions() == old(self).permissions(),
            final(self).clients@ == old(self).clients@.map_values(
                |e: (u64, InitiatedConnection)|
                    if e.0 == client {
                        (client, with_nick(connection, new_nick))
                    } else {
                        e
                    },
            ),
    {
        let mut updated = connection;
        updated.nick = new_nick;
        assert(updated == with_nick(connection, new_nick));
        self.clients = clients_renamed(&self.clients, client, &updated);
    }

    /// Decides on a user joining: a banned user is refused; the first user
    /// to join a channel without stored levels becomes its founder. Returns
    /// the level the user holds in the channel.
    pub fn join(&mut self, user_id: UserId) -> (r: Result<Permission, ChannelJoinRejectionReason>)
        ensures
            final(self).name == old(self).name,
            final(self).topic == old(self).topic,
            final(self).channel_id == old(self).channel_id,
            final(self).clients == old(self).clients,
            level_in(old(self).permissions(), user_id) == Permission::Ban ==> r == Err::<
                Permission,
                ChannelJoinRejectionReason,
            >(ChannelJoinRejectionReason::Banned) && final(self).permissions() == old(
                self,
            ).permissions(),
            level_in(old(self).permissions(), user_id) != Permission::Ban ==> {
                if old(self).permissions().is_empty() {
                    &&& r == Ok::<Permission, ChannelJoinRejectionReason>(Permission::Founder)
                    &&& final(self).permissions() == map![user_id.0 => Permission::Founder]
                } else {
                    &&& r == Ok::<Permission, ChannelJoinRejectionReason>(
                        level_in(old(self).permissions(), user_id),
                    )
                    &&& final(self).permissions() == old(self).permissions()
                }
            },
    {
        let permissions = self.get_user_permissions(user_id);
        if !permissions.can_join() {
            return Err(ChannelJoinRejectionReason::Banned);
        }
        if self.permissions.is_empty() {
            self.permissions.insert(user_id.0, Permission::Founder);
            assert(self.permissions@ =~= map![user_id.0 => Permission::Founder]);
            return Ok(Permission::Founder);
        }
        Ok(permissions)
    }

    /// Decides on `requester` setting (`add`) or removing the level `mode` of
    /// `affected`. Removing a level the user does not hold does nothing; any
    /// change must be one `can_set_permission` allows. Returns the new level.
    pub fn set_user_mode(&mut self, requester: UserId, affected: UserId, add: bool, mode: Permission) -> (r:
        Result<Permission, SetModeRejection>)
        ensures
            final(self).name == old(self).name,
            final(self).topic == old(self).topic,
            final(self).channel_id == old(self).channel_id,
            final(self).clients == old(self).clients,
            r == set_mode_outcome(old(self).permissions(), requester, affected, add, mode),
            !add && level_in(old(self).permissions(), affected) != mode ==> r == Err::<
                Permission,
                SetModeRejection,
            >(SetModeRejection::NothingToRemove),
            !add && r is Ok ==> level_in(old(self).permissions(), affected) == mode && r == Ok::<
                Permission,
                SetModeRejection,
            >(Permission::Normal),
            final(self).permissions() == match r {
                Ok(new) => old(self).permissions().insert(affected.0, new),
                Err(_) => old(self).permissions(),
            },
    {
        let permissions = self.get_user_permissions(requester);
        let affected_perms = self.get_user_permissions(affected);
        let new_perms = if add {
            mode
        } else if affected_perms == mode {
            Permission::Normal
        } else {
            return Err(SetModeRejection::NothingToRemove);
        };
        if !permissions.can_set_permission(new_perms, affected_perms) {
            return Err(SetModeRejection::NotAllowed);
        }
        self.permissions.insert(affected.0, new_perms);
        Ok(new_perms)
    }

    /// The member of `members` going by `nick`, the first if several.
    fn find_member(members: &Vec<InitiatedConnection>, nick: &String) -> (r: Option<usize>)
        ensures
            match first_named(members@, nick@) {
                Some(c) => r matches Some(i) && i < members.len() && members@[i as int] == c,
                None => r is None,
            },
    {
        let mut i: usize = 0;
        assert(members@.skip(0) =~= members@);
        while i < members.len()
            invariant
                i <= members.len(),
                first_named(members@, nick@) == first_named(members@.skip(i as int), nick@),
            decreases members.len() - i,
        {
            assert(members@.skip(i as int).drop_first() =~= members@.skip(i + 1));
            if members[i].nick.eq(nick) {
                return Some(i);
            }
            i = i + 1;
        }
        None
    }

    /// The `MODE` messages telling the channel that `affected` was given or
    /// lost the level `mode`, one from each of their connections.
    fn announce_mode(&self, members: &Vec<InitiatedConnection>, affected: UserId, add: bool, mode: Permission) -> (r:
        Vec<Message>)
        ensures
            message_texts(r@) == mode_broadcast(members@, affected, self.name@, add, mode),
    {
        let mut out: Vec<Message> = Vec::new();
        let mut i: usize = 0;
        while i < members.len()
            invariant
                i <= members.len(),
                message_texts(out@) == mode_broadcast(members@.take(i as int), affected, self.name@, add, mode),
            decreases members.len() - i,
        {
            let c = &members[i];
            assert(members@.take(i + 1).drop_last() =~= members@.take(i as int));
            if c.user_id.0 == affected.0 {
                match mode.into_mode(add, c.nick.clone()) {
                    Some(change) => {
                        let m = mode_message(c, &self.name, &change);
                        push_message(&mut out, m);
                    },
                    None => {},
                }
            }
            i = i + 1;
        }
        assert(members@.take(members.len() as int) =~= members@);
        out
    }

    /// Decides on a request to set or remove the level of the member going
    /// by `msg.affected_nick`, as `set_user_mode` does, and gives the `MODE`
    /// messages that announce an accepted change to every member. Nothing
    /// happens when no member goes by that nick.
    pub fn set_member_mode(&mut self, msg: &SetUserMode) -> (r: Vec<Message>)
        ensures
            final(self).name == old(self).name,
            final(self).topic == old(self).topic,
            final(self).channel_id == old(self).channel_id,
            final(self).clients == old(self).clients,
            match first_named(member_conns(old(self).clients@), msg.affected_nick@) {
                None => final(self).permissions() == old(self).permissions() && r@.len() == 0,
                Some(a) => match set_mode_outcome(
                    old(self).permissions(),
                    msg.requester.user_id,
                    a.user_id,
                    msg.add,
                    msg.user_mode,
                ) {
                    Ok(new) => final(self).permissions() == old(self).permissions().insert(a.user_id.0, new)
                        && message_texts(r@) == mode_broadcast(
                        member_conns(old(self).clients@),
                        a.user_id,
                        old(self).name@,
                        msg.add,
                        msg.user_mode,
                    ),
                    Err(_) => final(self).permissions() == old(self).permissions() && r@.len() == 0,
                },
            },
    {
        let members = self.member_connections();
        let found = Self::find_member(&members, &msg.affected_nick);
        let i = match found {
            Some(i) => i,
            None => return Vec::new(),
        };
        let affected = members[i].user_id;
        match self.set_user_mode(msg.requester.user_id, affected, msg.add, msg.user_mode) {
            Ok(_) => self.announce_mode(&members, affected, msg.add, msg.user_mode),
            Err(_) => Vec::new(),
        }
    }

    /// Decides on `requester` asking for each of `modes` in turn, and gives
    /// the `MODE` messages that announce the changes made to every member.
    pub fn set_modes(&mut self, requester: &InitiatedConnection, modes: &Vec<ModeChange>) -> (r: Vec<Message>)
        ensures
            final(self).name == old(self).name,
            final(self).topic == old(self).topic,
            final(self).channel_id == old(self).channel_id,
            final(self).clients == old(self).clients,
            (final(self).permissions(), message_texts(r@)) == apply_modes(
                old(self).permissions(),
                requester.user_id,
                member_conns(old(self).clients@),
                old(self).name@,
                modes@,
            ),
    {
        let mut out: Vec<Message> = Vec::new();
        let ghost start = self.permissions();
        let mut i: usize = 0;
        while i < modes.len()
            invariant
                i <= modes.len(),
                self.name == old(self).name,
                self.topic == old(self).topic,
                self.channel_id == old(self).channel_id,
                self.clients == old(self).clients,
                start == old(self).permissions(),
                (self.permissions(), message_texts(out@)) == apply_modes(
                    start,
                    requester.user_id,
                    member_conns(old(self).clients@),
                    self.name@,
                    modes@.take(i as int),
                ),
            decreases modes.len() - i,
        {
            let change = &modes[i];
            assert(modes@.take(i + 1).drop_last() =~= modes@.take(i as int));
            let ghost before = out@;
            match Permission::try_from(change.mode) {
                Ok(level) => match &change.argument {
                    Some(nick) => {
                        let request = SetUserMode {
                            requester: requester.clone_connection(),
                            add: change.add,
                            affected_nick: nick.clone(),
                            user_mode: level,
                        };
                        let mut sent = self.set_member_mode(&request);
                        let ghost sent_view = sent@;
                        out.append(&mut sent);
                        assert(message_texts(out@) =~= message_texts(before) + message_texts(sent_view));
                    },
                    None => {},
                },
                Err(_) => {},
            }
            i = i + 1;
        }
        assert(modes@.take(modes.len() as int) =~= modes@);
        out
    }

    /// Decides on the member `kicker` kicking the member going by `user`: a
    /// half operator or above may. Gives the kicked client, who is no longer
    /// a member, and the `KICK` that every member, the kicked one included,
    /// gets.
    pub fn kick_user(&mut self, kicker: u64, user: &String, reason: Option<String>) -> (r: Option<(u64, Delivery)>)
        ensures
            final(self).name == old(self).name,
            final(self).topic == old(self).topic,
            final(self).channel_id == old(self).channel_id,
            final(self).permissions() == old(self).permissions(),
            match connection_of(old(self).clients@, kicker) {
                None => r is None && final(self).clients == old(self).clients,
                Some(k) => if level_in(old(self).permissions(), k.user_id).level() < Permission::HalfOperator.level() {
                    r is None && final(self).clients == old(self).clients
                } else {
                    match member_named(old(self).clients@, user@) {
                        None => r is None && final(self).clients == old(self).clients,
                        Some(e) => {
                            &&& final(self).clients@ == without_client(old(self).clients@, e.0)
                            &&& r matches Some((id, d)) && id == e.0 && d.recipients@ == client_ids(
                                old(self).clients@,
                            ) && message_texts(d.messages@) == seq![
                                raw_command(
                                    Some(k.nick_prefix()),
                                    "KICK"@,
                                    match reason {
                                        Some(t) => seq![old(self).name@, e.1.nick@, t@],
                                        None => seq![old(self).name@, e.1.nick@],
                                    },
                                ),
                            ]
                        },
                    }
                },
            },
    {
        let k = match self.find_client(kicker) {
            Some(k) => k,
            None => return None,
        };
        let kicker_conn = self.clients[k].1.clone_connection();
        if !self.get_user_permissions(kicker_conn.user_id).can_kick() {
            return None;
        }
        let j = match self.find_named(user) {
            Some(j) => j,
            None => return None,
        };
        let kicked = self.clients[j].0;
        let mut messages: Vec<Message> = Vec::new();
        push_message(&mut messages, kick_message(&kicker_conn, &self.name, &self.clients[j].1.nick, reason));
        assert(message_texts(messages@) =~= seq![messages@[0]@]);
        let recipients = self.client_id_list();
        self.remove_client(kicked);
        Some((kicked, Delivery { recipients, messages }))
    }

    /// Decides on a member's message to the channel: unless the sender is
    /// banned, every other member gets it as a `PRIVMSG` from them.
    pub fn message_from(&self, sender: u64, message: String) -> (r: Option<Delivery>)
        ensures
            match connection_of(self.clients@, sender) {
                None => r is None,
                Some(c) => if level_in(self.permissions(), c.user_id) == Permission::Ban {
                    r is None
                } else {
                    r matches Some(d) && d.recipients@ == client_ids(without_client(self.clients@, sender))
                        && message_texts(d.messages@) == seq![
                        raw_command(Some(c.nick_prefix()), "PRIVMSG"@, seq![self.name@, message@]),
                    ]
                },
            },
    {
        let i = match self.find_client(sender) {
            Some(i) => i,
            None => return None,
        };
        let from = &self.clients[i].1;
        if !self.get_user_permissions(from.user_id).can_chatter() {
            return None;
        }
        let mut messages: Vec<Message> = Vec::new();
        push_message(&mut messages, channel_privmsg(from, &self.name, message));
        assert(message_texts(messages@) =~= seq![messages@[0]@]);
        Some(Delivery { recipients: self.ids_except(sender), messages })
    }

    /// Decides on `requester` setting the topic: only a half operator or
    /// above may.
    pub fn update_topic(&mut self, requester: UserId, topic: String, set_by: String, set_time: i64) -> (r:
        bool)
        ensures
            final(self).name == old(self).name,
            final(self).channel_id == old(self).channel_id,
            final(self).clients == old(self).clients,
            final(self).permissions() == old(self).permissions(),
            r == level_in(old(self).permissions(), requester).can_set_topic_spec(),
            r ==> (final(self).topic matches Some(t) && t.topic@ == topic@ && t.set_by@ == set_by@
                && t.set_time == set_time),
            !r ==> final(self).topic == old(self).topic,
    {
        if !self.get_user_permissions(requester).can_set_topic() {
            return false;
        }
        self.topic = Some(CurrentChannelTopic { topic, set_by, set_time });
        true
    }
}

/// The map that storing each pair of `levels`, in order, gives.
pub open spec fn levels_map(levels: Seq<(UserId, Permission)>) -> Map<i64, Permission>
    decreases levels.len(),
{
    if levels.len() == 0 {
        Map::empty()
    } else {
        levels_map(levels.drop_last()).insert(levels.last().0.0, levels.last().1)
    }
}

/// A change of access level that a channel accepts never reaches the
/// requester's own level: the level the user held and the one they get are
/// both below it, and the requester is a half operator or above.
pub proof fn lemma_set_mode_below_requester(
    perms: Map<i64, Permission>,
    requester: UserId,
    affected: UserId,
    add: bool,
    mode: Permission,
)
    requires
        set_mode_outcome(perms, requester, affected, add, mode) is Ok,
    ensures
        set_mode_outcome(perms, requester, affected, add, mode)->Ok_0.level() < level_in(perms, requester).level(),
        level_in(perms, affected).level() < level_in(perms, requester).level(),
        level_in(perms, requester).level() >= Permission::HalfOperator.level(),
        level_in(perms, requester) != Permission::Ban && level_in(perms, requester) != Permission::Normal
            && level_in(perms, requester) != Permission::Voice,
{
}

/// Removing a level succeeds only where the user holds exactly that level,
/// and then leaves them `Normal`; removing any level the user does not hold
/// is refused as doing nothing, whoever asks.
pub proof fn lemma_remove_only_held_level(
    perms: Map<i64, Permission>,
    requester: UserId,
    affected: UserId,
    mode: Permission,
)
    ensures
        level_in(perms, affected) != mode ==> set_mode_outcome(perms, requester, affected, false, mode) == Err::<
            Permission,
            SetModeRejection,
        >(SetModeRejection::NothingToRemove),
        set_mode_outcome(perms, requester, affected, false, mode) is Ok ==> level_in(perms, affected) == mode
            && set_mode_outcome(perms, requester, affected, false, mode) == Ok::<Permission, SetModeRejection>(
            Permission::Normal,
        ),
{
}

/// After a change that a channel accepts, the user holds the level the
/// change gave them, and every other user keeps the level they had.
pub proof fn lemma_set_mode_then_get(
    perms: Map<i64, Permission>,
    requester: UserId,
    affected: UserId,
    add: bool,
    mode: Permission,
    other: UserId,
)
    requires
        set_mode_outcome(perms, requester, affected, add, mode) is Ok,
    ensures
        ({
            let new = set_mode_outcome(perms, requester, affected, add, mode)->Ok_0;
            &&& level_in(perms.insert(affected.0, new), affected) == new
            &&& other != affected ==> level_in(perms.insert(affected.0, new), other) == level_in(perms, other)
        }),
{
}

} // verus!
