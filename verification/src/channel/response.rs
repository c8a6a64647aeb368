//! The replies a channel sends: its topic, WHO and NAMES lists, and the
//! answers to invites, refused joins and missing privileges.

use vstd::prelude::*;

use crate::channel::permissions::Permission;
use crate::channel::{level_in, member_conns, Channel, ChannelJoinRejectionReason, CurrentChannelTopic};
use crate::connection::InitiatedConnection;
use crate::message::{
    bare_reply, message_texts, prefix_text, push_message, server_message, server_reply,
    signed_decimal, signed_decimal_string, strings2, strings3, strings4, text, texts, Command,
    Message, MessageText, Prefix, PrefixText, ERR_BANNEDFROMCHAN, ERR_CHANOPRIVSNEEDED,
    ERR_NOTONCHANNEL, ERR_USERONCHANNEL, RPL_ENDOFNAMES, RPL_INVITING, RPL_NAMREPLY,
    RPL_NOTOPIC, RPL_TOPIC, RPL_TOPICWHOTIME, RPL_WHOREPLY,
};
use crate::server::response::IntoProtocol;
use crate::text::{join_spaces, join_with_spaces};
use crate::SERVER_NAME;

verus! {

/// The topic of a channel, as sent to a user.
pub struct ChannelTopic {
    pub channel_name: String,
    pub topic: Option<CurrentChannelTopic>,
    /// Whether a channel without a topic sends nothing at all.
    pub skip_on_none: bool,
}

/// The replies describing a channel's topic.
pub open spec fn topic_replies(
    for_user: Seq<char>,
    channel: Seq<char>,
    topic: Option<CurrentChannelTopic>,
    skip_on_none: bool,
) -> Seq<MessageText> {
    match topic {
        Some(t) => seq![
            server_reply(RPL_TOPIC, seq![for_user, channel, t.topic@]),
            server_reply(RPL_TOPICWHOTIME, seq![for_user, channel, t.set_by@, signed_decimal(t.set_time as int)]),
        ],
        None => if skip_on_none {
            Seq::empty()
        } else {
            seq![server_reply(RPL_NOTOPIC, seq![for_user, channel, "No topic is set"@])]
        },
    }
}

impl ChannelTopic {
    /// The topic of `channel`.
    pub fn new(channel: &Channel, skip_on_none: bool) -> (t: ChannelTopic)
        ensures
            t.channel_name == channel.name,
            t.topic == channel.topic,
            t.skip_on_none == skip_on_none,
    {
        let topic = match &channel.topic {
            Some(current) => Some(current.clone_topic()),
            None => None,
        };
        ChannelTopic { channel_name: channel.name.clone(), topic, skip_on_none }
    }
}

impl IntoProtocol for ChannelTopic {
    open spec fn messages_spec(self, for_user: Seq<char>) -> Seq<MessageText> {
        topic_replies(for_user, self.channel_name@, self.topic, self.skip_on_none)
    }

    /// `332` and `333` for a topic; `331` without one, unless told to send
    /// nothing.
    fn into_messages(self, for_user: &str) -> (r: Vec<Message>)
        ensures
            message_texts(r@) == topic_replies(for_user@, self.channel_name@, self.topic, self.skip_on_none),
    {
        let mut out: Vec<Message> = Vec::new();
        match self.topic {
            Some(t) => {
                let when = signed_decimal_string(t.set_time);
                push_message(
                    &mut out,
                    server_message(RPL_TOPIC, strings3(text(for_user), self.channel_name.clone(), t.topic.clone())),
                );
                push_message(
                    &mut out,
                    server_message(
                        RPL_TOPICWHOTIME,
                        strings4(text(for_user), self.channel_name.clone(), t.set_by.clone(), when),
                    ),
                );
            },
            None => {
                if !self.skip_on_none {
                    push_message(
                        &mut out,
                        server_message(
                            RPL_NOTOPIC,
                            strings3(text(for_user), self.channel_name, text("No topic is set")),
                        ),
                    );
                }
            },
        }
        assert(message_texts(out@) =~= topic_replies(
            for_user@,
            self.channel_name@,
            self.topic,
            self.skip_on_none,
        ));
        out
    }
}

/// The members of a channel, each with their access level, for `WHO`.
pub struct ChannelWhoList {
    pub channel_name: String,
    pub nick_list: Vec<(Permission, InitiatedConnection)>,
}

/// `H` for a user who is here, `G` for one who is away.
pub open spec fn presence(c: InitiatedConnection) -> Seq<char> {
    if c.away is Some {
        "G"@
    } else {
        "H"@
    }
}

/// The `352` line describing one member.
pub open spec fn who_reply(for_user: Seq<char>, channel: Seq<char>, p: Permission, c: InitiatedConnection) -> MessageText {
    server_reply(
        RPL_WHOREPLY,
        seq![
            for_user,
            channel,
            c.user@,
            c.host@,
            SERVER_NAME@,
            c.nick@,
            presence(c) + p.prefix_spec(),
            "0"@,
            c.real_name@,
        ],
    )
}

/// The `352` lines of a channel's members, in order.
pub open spec fn who_replies(
    for_user: Seq<char>,
    channel: Seq<char>,
    members: Seq<(Permission, InitiatedConnection)>,
) -> Seq<MessageText> {
    members.map_values(|e: (Permission, InitiatedConnection)| who_reply(for_user, channel, e.0, e.1))
}

/// Builds the `352` line of one member.
fn who_message(for_user: &str, channel: &String, p: Permission, c: &InitiatedConnection) -> (m: Message)
    ensures
        m@ == who_reply(for_user@, channel@, p, *c),
{
    let mut flags = if c.away.is_some() {
        text("G")
    } else {
        text("H")
    };
    flags.append(p.into_prefix());
    let mut params: Vec<String> = Vec::new();
    params.push(text(for_user));
    params.push(channel.clone());
    params.push(c.user.clone());
    params.push(c.host.clone());
    params.push(text(SERVER_NAME));
    params.push(c.nick.clone());
    params.push(flags);
    params.push(text("0"));
    params.push(c.real_name.clone());
    assert(texts(params@) =~= seq![
        for_user@,
        channel@,
        c.user@,
        c.host@,
        SERVER_NAME@,
        c.nick@,
        presence(*c) + p.prefix_spec(),
        "0"@,
        c.real_name@,
    ]);
    server_message(RPL_WHOREPLY, params)
}

/// Each member with their access level in a channel whose levels are
/// `perms`, in order.
pub open spec fn member_levels(perms: Map<i64, Permission>, members: Seq<InitiatedConnection>) -> Seq<
    (Permission, InitiatedConnection),
> {
    members.map_values(|c: InitiatedConnection| (level_in(perms, c.user_id), c))
}

/// Pairs each member with their access level in `channel`.
fn members_with_levels(channel: &Channel, members: &Vec<InitiatedConnection>) -> (r: Vec<(Permission, InitiatedConnection)>)
    ensures
        r@ == member_levels(channel.permissions(), members@),
{
    let mut out: Vec<(Permission, InitiatedConnection)> = Vec::new();
    let mut i: usize = 0;
    while i < members.len()
        invariant
            i <= members.len(),
            out@ == member_levels(channel.permissions(), members@.take(i as int)),
        decreases members.len() - i,
    {
        let c = &members[i];
        out.push((channel.get_user_permissions(c.user_id), c.clone_connection()));
        assert(member_levels(channel.permissions(), members@.take(i + 1)) =~= member_levels(
            channel.permissions(),
            members@.take(i as int),
        ).push((level_in(channel.permissions(), members@[i as int].user_id), members@[i as int])));
        i = i + 1;
    }
    assert(members@.take(members.len() as int) =~= members@);
    out
}

impl ChannelWhoList {
    /// The `WHO` list of `channel`: each member with their level.
    pub fn new(channel: &Channel) -> (l: ChannelWhoList)
        ensures
            l.channel_name == channel.name,
            l.nick_list@ == member_levels(channel.permissions(), member_conns(channel.clients@)),
    {
        let members = channel.member_connections();
        ChannelWhoList { channel_name: channel.name.clone(), nick_list: members_with_levels(channel, &members) }
    }

    /// The list with only the entries of one user, as a client answers a
    /// `WHO` about itself.
    pub fn retain_user(self, user_id: crate::connection::UserId) -> (r: ChannelWhoList)
        ensures
            r.channel_name == self.channel_name,
            r.nick_list@ == self.nick_list@.filter(|e: (Permission, InitiatedConnection)| e.1.user_id == user_id),
    {
        let mut kept: Vec<(Permission, InitiatedConnection)> = Vec::new();
        let mut rest = self.nick_list;
        let ghost all = rest@;
        let mut i: usize = 0;
        let n = rest.len();
        while i < n
            invariant
                i <= n == all.len(),
                rest@.len() == n,
                forall|j: int| i <= j < n ==> #[trigger] rest@[j] == all[j],
                kept@ == all.take(i as int).filter(|e: (Permission, InitiatedConnection)| e.1.user_id == user_id),
            decreases n - i,
        {
            proof {
                reveal(Seq::filter);
                assert(all.take(i + 1).drop_last() =~= all.take(i as int));
            }
            let keep = rest[i].1.user_id.0 == user_id.0;
            if keep {
                let (p, c) = &rest[i];
                let entry = (*p, c.clone_connection());
                kept.push(entry);
            }
            i = i + 1;
        }
        assert(all.take(n as int) =~= all);
        ChannelWhoList { channel_name: self.channel_name, nick_list: kept }
    }

    /// One `352` line per member.
    pub fn to_messages(&self, for_user: &str) -> (r: Vec<Message>)
        ensures
            message_texts(r@) == who_replies(for_user@, self.channel_name@, self.nick_list@),
    {
        let mut out: Vec<Message> = Vec::new();
        let mut i: usize = 0;
        while i < self.nick_list.len()
            invariant
                i <= self.nick_list.len(),
                message_texts(out@) == who_replies(for_user@, self.channel_name@, self.nick_list@.take(i as int)),
            decreases self.nick_list.len() - i,
        {
            let (p, c) = &self.nick_list[i];
            let m = who_message(for_user, &self.channel_name, *p, c);
            push_message(&mut out, m);
            assert(who_replies(for_user@, self.channel_name@, self.nick_list@.take(i + 1)) =~= who_replies(
                for_user@,
                self.channel_name@,
                self.nick_list@.take(i as int),
            ).push(m@));
            i = i + 1;
        }
        assert(self.nick_list@.take(self.nick_list.len() as int) =~= self.nick_list@);
        out
    }
}

impl IntoProtocol for ChannelWhoList {
    open spec fn messages_spec(self, for_user: Seq<char>) -> Seq<MessageText> {
        who_replies(for_user, self.channel_name@, self.nick_list@)
    }

    /// One `352` line per member.
    fn into_messages(self, for_user: &str) -> (r: Vec<Message>)
        ensures
            message_texts(r@) == who_replies(for_user@, self.channel_name@, self.nick_list@),
    {
        self.to_messages(for_user)
    }
}

/// The members of a channel, each with their access level, for `NAMES`.
pub struct ChannelNamesList {
    pub channel_name: String,
    pub nick_list: Vec<(Permission, InitiatedConnection)>,
}

/// How one member appears in a `NAMES` list: the prefix of their level and
/// their nick, or their full `nick!user@host` when host names are asked for.
pub open spec fn name_entry(p: Permission, c: InitiatedConnection, with_hostnames: bool) -> Seq<char> {
    p.prefix_spec() + if with_hostnames {
        prefix_text(c.nick_prefix())
    } else {
        c.nick@
    }
}

pub open spec fn name_entries(members: Seq<(Permission, InitiatedConnection)>, with_hostnames: bool) -> Seq<Seq<char>> {
    members.map_values(|e: (Permission, InitiatedConnection)| name_entry(e.0, e.1, with_hostnames))
}

/// `353` with every member, then `366`.
pub open spec fn names_replies(
    for_user: Seq<char>,
    channel: Seq<char>,
    members: Seq<(Permission, InitiatedConnection)>,
    with_hostnames: bool,
) -> Seq<MessageText> {
    seq![
        server_reply(RPL_NAMREPLY, seq![for_user, "="@, channel, join_spaces(name_entries(members, with_hostnames))]),
        server_reply(RPL_ENDOFNAMES, seq![for_user, "End of /NAMES list"@]),
    ]
}

impl ChannelNamesList {
    /// The `NAMES` list of `channel`: each member with their level.
    pub fn new(channel: &Channel) -> (l: ChannelNamesList)
        ensures
            l.channel_name == channel.name,
            l.nick_list@ == member_levels(channel.permissions(), member_conns(channel.clients@)),
    {
        let members = channel.member_connections();
        ChannelNamesList { channel_name: channel.name.clone(), nick_list: members_with_levels(channel, &members) }
    }

    /// A list of `channel_name` with no members.
    pub fn empty(channel_name: String) -> (l: ChannelNamesList)
        ensures
            l.channel_name == channel_name,
            l.nick_list@.len() == 0,
    {
        ChannelNamesList { channel_name, nick_list: Vec::new() }
    }

    /// The `NAMES` reply.
    pub fn into_messages(self, for_user: String, with_hostnames: bool) -> (r: Vec<Message>)
        ensures
            message_texts(r@) == names_replies(for_user@, self.channel_name@, self.nick_list@, with_hostnames),
    {
        let mut entries: Vec<String> = Vec::new();
        let mut i: usize = 0;
        while i < self.nick_list.len()
            invariant
                i <= self.nick_list.len(),
                texts(entries@) == name_entries(self.nick_list@.take(i as int), with_hostnames),
            decreases self.nick_list.len() - i,
        {
            let (p, c) = &self.nick_list[i];
            let mut entry = text(p.into_prefix());
            if with_hostnames {
                let full = c.to_nick().to_string();
                entry.append(full.as_str());
            } else {
                entry.append(c.nick.as_str());
            }
            assert(self.nick_list@[i as int] == (*p, *c));
            assert(entry@ == name_entry(*p, *c, with_hostnames));
            let ghost before = entries@;
            entries.push(entry);
            assert(self.nick_list@.take(i + 1) =~= self.nick_list@.take(i as int).push((*p, *c)));
            assert(texts(entries@) =~= texts(before).push(name_entry(*p, *c, with_hostnames)));
            assert(texts(entries@) =~= name_entries(self.nick_list@.take(i + 1), with_hostnames));
            i = i + 1;
        }
        assert(self.nick_list@.take(self.nick_list.len() as int) =~= self.nick_list@);
        let joined = join_with_spaces(&entries);
        let mut out: Vec<Message> = Vec::new();
        push_message(
            &mut out,
            server_message(RPL_NAMREPLY, strings4(for_user.clone(), text("="), self.channel_name, joined)),
        );
        push_message(&mut out, server_message(RPL_ENDOFNAMES, strings2(for_user, text("End of /NAMES list"))));
        assert(message_texts(out@) =~= names_replies(
            for_user@,
            self.channel_name@,
            self.nick_list@,
            with_hostnames,
        ));
        out
    }
}

/// How an invite went.
#[derive(Copy, Clone, Debug, PartialEq, Eq, Structural)]
pub enum ChannelInviteResult {
    Successful,
    NoSuchUser,
    UserAlreadyOnChannel,
    NotOnChannel,
}

/// The reply to an invite, if one is sent.
pub open spec fn invite_reply(
    r: ChannelInviteResult,
    invited: Seq<char>,
    channel: Seq<char>,
    for_user: Seq<char>,
) -> Option<MessageText> {
    match r {
        ChannelInviteResult::Successful => Some(server_reply(RPL_INVITING, seq![for_user, invited, channel])),
        ChannelInviteResult::NoSuchUser => None,
        ChannelInviteResult::UserAlreadyOnChannel => Some(
            server_reply(ERR_USERONCHANNEL, seq![for_user, invited, channel, "is already on channel"@]),
        ),
        ChannelInviteResult::NotOnChannel => Some(
            server_reply(ERR_NOTONCHANNEL, seq![for_user, channel, "You're not on that channel"@]),
        ),
    }
}

impl ChannelInviteResult {
    /// `341` on success, `443` or `442` on failure; nothing for an unknown
    /// user.
    pub fn into_message(self, invited_user: String, channel: String, for_user: String) -> (r: Option<Message>)
        ensures
            match invite_reply(self, invited_user@, channel@, for_user@) {
                Some(t) => r matches Some(m) && m@ == t,
                None => r is None,
            },
    {
        match self {
            ChannelInviteResult::Successful => Some(
                server_message(RPL_INVITING, strings3(for_user, invited_user, channel)),
            ),
            ChannelInviteResult::NoSuchUser => None,
            ChannelInviteResult::UserAlreadyOnChannel => Some(
                server_message(
                    ERR_USERONCHANNEL,
                    strings4(for_user, invited_user, channel, text("is already on channel")),
                ),
            ),
            ChannelInviteResult::NotOnChannel => Some(
                server_message(ERR_NOTONCHANNEL, strings3(for_user, channel, text("You're not on that channel"))),
            ),
        }
    }
}

impl IntoProtocol for ChannelJoinRejectionReason {
    open spec fn messages_spec(self, for_user: Seq<char>) -> Seq<MessageText> {
        seq![
            server_reply(ERR_BANNEDFROMCHAN, seq![for_user, "Cannot join channel (+b)"@]),
        ]
    }

    /// `474 <user> :Cannot join channel (+b)`.
    fn into_messages(self, for_user: &str) -> (r: Vec<Message>)
        ensures
            message_texts(r@) == seq![
                server_reply(ERR_BANNEDFROMCHAN, seq![for_user@, "Cannot join channel (+b)"@]),
            ],
    {
        let mut out: Vec<Message> = Vec::new();
        match self {
            ChannelJoinRejectionReason::Banned => {
                push_message(
                    &mut out,
                    server_message(ERR_BANNEDFROMCHAN, strings2(text(for_user), text("Cannot join channel (+b)"))),
                );
            },
        }
        assert(message_texts(out@) =~= seq![
            server_reply(ERR_BANNEDFROMCHAN, seq![for_user@, "Cannot join channel (+b)"@]),
        ]);
        out
    }
}

/// Sent when a user lacks the access level a channel command needs: who
/// they are, and the channel.
pub struct MissingPrivileges(pub Prefix, pub String);

impl MissingPrivileges {
    /// `482 <user> <channel> :You're not channel operator`.
    pub fn into_message(self) -> (m: Message)
        ensures
            m@ == bare_reply(ERR_CHANOPRIVSNEEDED, seq![prefix_text(self.0@), self.1@, "You're not channel operator"@]),
    {
        let who = self.0.to_string();
        crate::message::bare_message(
            ERR_CHANOPRIVSNEEDED,
            strings3(who, self.1, text("You're not channel operator")),
        )
    }
}

/// The letter of a channel mode.
pub open spec fn mode_letter(m: crate::channel::permissions::ChannelModeFlag) -> Option<char> {
    match m {
        crate::channel::permissions::ChannelModeFlag::Ban => Some('b'),
        crate::channel::permissions::ChannelModeFlag::Voice => Some('v'),
        crate::channel::permissions::ChannelModeFlag::Halfop => Some('h'),
        crate::channel::permissions::ChannelModeFlag::Oper => Some('o'),
        crate::channel::permissions::ChannelModeFlag::Founder => Some('q'),
        crate::channel::permissions::ChannelModeFlag::Other => None,
    }
}

/// The arguments of a `MODE` message for one change on a channel: the
/// channel, the flag (`+o`, `-v`, ...) and the argument, if any.
pub open spec fn mode_args(channel: Seq<char>, change: crate::channel::permissions::ModeChange) -> Seq<Seq<char>> {
    let flag = seq![if change.add { '+' } else { '-' }, mode_letter(change.mode)->0];
    match change.argument {
        Some(a) => seq![channel, flag, a@],
        None => seq![channel, flag],
    }
}

/// `:<nick!user@host> MODE <channel> <flag> [argument]`, for a change of a
/// mode that stands for an access level.
pub fn mode_message(
    c: &InitiatedConnection,
    channel: &String,
    change: &crate::channel::permissions::ModeChange,
) -> (m: Message)
    requires
        mode_letter(change.mode) is Some,
    ensures
        m@ == crate::message::raw_command(Some(c.nick_prefix()), "MODE"@, mode_args(channel@, *change)),
{
    let letter = match change.mode {
        crate::channel::permissions::ChannelModeFlag::Ban => 'b',
        crate::channel::permissions::ChannelModeFlag::Voice => 'v',
        crate::channel::permissions::ChannelModeFlag::Halfop => 'h',
        crate::channel::permissions::ChannelModeFlag::Oper => 'o',
        _ => 'q',
    };
    let mut flag = String::new();
    crate::text::push_char(&mut flag, if change.add { '+' } else { '-' });
    crate::text::push_char(&mut flag, letter);
    assert(flag@ =~= seq![if change.add { '+' } else { '-' }, mode_letter(change.mode)->0]);
    let args = match &change.argument {
        Some(a) => strings3(channel.clone(), flag, a.clone()),
        None => strings2(channel.clone(), flag),
    };
    crate::message::raw_message(Some(c.to_nick()), "MODE", args)
}

/// `:<nick!user@host> PRIVMSG <channel> :<message>`: a message to a channel
/// as its members receive it.
pub fn channel_privmsg(sender: &InitiatedConnection, channel: &String, message: String) -> (m: Message)
    ensures
        m@ == crate::message::raw_command(Some(sender.nick_prefix()), "PRIVMSG"@, seq![channel@, message@]),
{
    crate::message::raw_message(Some(sender.to_nick()), "PRIVMSG", strings2(channel.clone(), message))
}

/// What the members of a channel see when a user joins at `permission`:
/// the `JOIN`, then the mode of their access level, if it has one.
pub open spec fn join_announcement(c: InitiatedConnection, channel: Seq<char>, permission: Permission) -> Seq<MessageText> {
    let join = crate::message::raw_command(Some(c.nick_prefix()), "JOIN"@, seq![channel]);
    match permission.mode_spec() {
        Some(mode) => seq![
            join,
            crate::message::raw_command(
                Some(c.nick_prefix()),
                "MODE"@,
                seq![channel, seq!['+', mode_letter(mode)->0], c.nick@],
            ),
        ],
        None => seq![join],
    }
}

/// Announces a join to the members of a channel.
pub fn join_announcement_messages(c: &InitiatedConnection, channel: &String, permission: Permission) -> (r: Vec<
    Message,
>)
    ensures
        message_texts(r@) == join_announcement(*c, channel@, permission),
{
    let mut out: Vec<Message> = Vec::new();
    push_message(&mut out, crate::message::raw_message(Some(c.to_nick()), "JOIN", crate::message::strings1(channel.clone())));
    match permission.into_mode(true, c.nick.clone()) {
        Some(change) => {
            let m = mode_message(c, channel, &change);
            assert(mode_args(channel@, change) =~= seq![channel@, seq!['+', mode_letter(change.mode)->0], c.nick@]);
            push_message(&mut out, m);
        },
        None => {},
    }
    assert(message_texts(out@) =~= join_announcement(*c, channel@, permission));
    out
}

/// `:<kicker> KICK <channel> <nick> [:reason]`.
pub fn kick_message(kicker: &InitiatedConnection, channel: &String, kicked: &String, reason: Option<String>) -> (m:
    Message)
    ensures
        m@ == crate::message::raw_command(
            Some(kicker.nick_prefix()),
            "KICK"@,
            match reason {
                Some(r) => seq![channel@, kicked@, r@],
                None => seq![channel@, kicked@],
            },
        ),
{
    let args = match reason {
        Some(r) => strings3(channel.clone(), kicked.clone(), r),
        None => strings2(channel.clone(), kicked.clone()),
    };
    crate::message::raw_message(Some(kicker.to_nick()), "KICK", args)
}

/// `:<nick!user@host> PART <channel> [:message]`.
pub fn part_message(c: &InitiatedConnection, channel: &String, message: Option<String>) -> (m: Message)
    ensures
        m@ == crate::message::raw_command(
            Some(c.nick_prefix()),
            "PART"@,
            match message {
                Some(t) => seq![channel@, t@],
                None => seq![channel@],
            },
        ),
{
    let args = match message {
        Some(t) => strings2(channel.clone(), t),
        None => crate::message::strings1(channel.clone()),
    };
    crate::message::raw_message(Some(c.to_nick()), "PART", args)
}

/// `:<nick!user@host> QUIT [:message]`, sent to a channel when a member
/// leaves the server.
pub fn quit_message(c: &InitiatedConnection, message: Option<String>) -> (m: Message)
    ensures
        m@ == crate::message::raw_command(
            Some(c.nick_prefix()),
            "QUIT"@,
            match message {
                Some(t) => seq![t@],
                None => Seq::empty(),
            },
        ),
{
    let args = match message {
        Some(t) => crate::message::strings1(t),
        None => {
            let v: Vec<String> = Vec::new();
            assert(texts(v@) =~= Seq::<Seq<char>>::empty());
            v
        },
    };
    crate::message::raw_message(Some(c.to_nick()), "QUIT", args)
}

/// `:<source> INVITE <nick> <channel>`, sent to the invited user.
pub fn invite_message(source: &InitiatedConnection, nick: String, channel: String) -> (m: Message)
    ensures
        m@ == crate::message::raw_command(Some(source.nick_prefix()), "INVITE"@, seq![nick@, channel@]),
{
    crate::message::raw_message(Some(source.to_nick()), "INVITE", strings2(nick, channel))
}

/// How an invite goes once the server has looked the nick up: whether a
/// client uses it, and whether that client is already on the channel.
pub fn invite_outcome(inviter_on_channel: bool, invitee_connected: bool, invitee_on_channel: bool) -> (r:
    ChannelInviteResult)
    ensures
        !inviter_on_channel ==> r == ChannelInviteResult::NotOnChannel,
        inviter_on_channel && !invitee_connected ==> r == ChannelInviteResult::NoSuchUser,
        inviter_on_channel && invitee_connected && invitee_on_channel ==> r == ChannelInviteResult::UserAlreadyOnChannel,
        inviter_on_channel && invitee_connected && !invitee_on_channel ==> r == ChannelInviteResult::Successful,
{
    if !inviter_on_channel {
        ChannelInviteResult::NotOnChannel
    } else if !invitee_connected {
        ChannelInviteResult::NoSuchUser
    } else if invitee_on_channel {
        ChannelInviteResult::UserAlreadyOnChannel
    } else {
        ChannelInviteResult::Successful
    }
}

} // verus!
