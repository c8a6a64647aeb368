//! The replies the server sends: WHOIS, WHO, ADMIN, LUSERS, MOTD and LIST.

use vstd::prelude::*;

use crate::channel::permissions::Permission;
use crate::channel::response::{who_replies, ChannelWhoList};
use crate::connection::InitiatedConnection;
use crate::message::{
    decimal, message_texts, push_message, server_message, server_reply, signed_decimal,
    signed_decimal_string, strings2, strings3, strings4, text, texts, usize_string, Message,
    MessageText, ERR_NOMOTD, ERR_NOSUCHNICK, RPL_ADMINEMAIL, RPL_ADMINLOC1, RPL_ADMINLOC2,
    RPL_ADMINME, RPL_AWAY, RPL_ENDOFMOTD, RPL_ENDOFWHO, RPL_ENDOFWHOIS, RPL_GLOBALUSERS, RPL_LIST,
    RPL_LISTEND, RPL_LISTSTART, RPL_LOCALUSERS, RPL_LUSERCHANNELS, RPL_LUSERCLIENT, RPL_LUSERME,
    RPL_LUSEROP, RPL_MOTD, RPL_MOTDSTART, RPL_WHOISCHANNELS, RPL_WHOISIDLE, RPL_WHOISSERVER,
    RPL_WHOISUSER,
};
use crate::text::{join_spaces, join_with_spaces, split_on, split_string, trim, trim_string};
use crate::SERVER_NAME;

verus! {

/// A reply that is sent to a user as protocol messages.
pub trait IntoProtocol: Sized {
    /// The texts of the messages that carry this reply to `for_user`.
    spec fn messages_spec(self, for_user: Seq<char>) -> Seq<MessageText>;

    /// The messages that carry this reply to the user `for_user`.
    fn into_messages(self, for_user: &str) -> (r: Vec<Message>)
        ensures
            message_texts(r@) == self.messages_spec(for_user@),
    ;
}

impl IntoProtocol for () {
    open spec fn messages_spec(self, for_user: Seq<char>) -> Seq<MessageText> {
        Seq::empty()
    }

    /// Nothing to send.
    fn into_messages(self, for_user: &str) -> (r: Vec<Message>)
        ensures
            r@.len() == 0,
    {
        let r: Vec<Message> = Vec::new();
        assert(message_texts(r@) =~= Seq::<MessageText>::empty());
        r
    }
}

impl<T: IntoProtocol, E: IntoProtocol> IntoProtocol for Result<T, E> {
    open spec fn messages_spec(self, for_user: Seq<char>) -> Seq<MessageText> {
        match self {
            Ok(v) => v.messages_spec(for_user),
            Err(e) => e.messages_spec(for_user),
        }
    }

    /// The messages of whichever reply the result holds.
    fn into_messages(self, for_user: &str) -> (r: Vec<Message>)
        ensures
            message_texts(r@) == match self {
                Ok(v) => v.messages_spec(for_user@),
                Err(e) => e.messages_spec(for_user@),
            },
    {
        match self {
            Ok(v) => v.into_messages(for_user),
            Err(e) => e.into_messages(for_user),
        }
    }
}

/// The answer to a `WHOIS`: the user asked about, if connected, and the
/// channels they are in with their level in each.
pub struct Whois {
    pub query: String,
    pub conn: Option<InitiatedConnection>,
    pub channels: Vec<(Permission, String)>,
}

/// The channels of a user as `WHOIS` lists them.
pub open spec fn channel_entries(channels: Seq<(Permission, String)>) -> Seq<Seq<char>> {
    channels.map_values(|e: (Permission, String)| e.0.prefix_spec() + e.1@)
}

/// The replies to a `WHOIS`.
pub open spec fn whois_replies(
    for_user: Seq<char>,
    query: Seq<char>,
    conn: Option<InitiatedConnection>,
    channels: Seq<(Permission, String)>,
) -> Seq<MessageText> {
    match conn {
        None => seq![server_reply(ERR_NOSUCHNICK, seq![for_user, query, "No such nick"@])],
        Some(c) => {
            let nick = c.nick@;
            let head = seq![
                server_reply(RPL_WHOISUSER, seq![for_user, nick, c.user@, "*"@, c.real_name@]),
                server_reply(RPL_WHOISSERVER, seq![for_user, nick, SERVER_NAME@, SERVER_NAME@]),
                server_reply(
                    RPL_WHOISIDLE,
                    seq![for_user, nick, "0"@, signed_decimal(c.at as int), "seconds idle, signon time"@],
                ),
                server_reply(RPL_WHOISCHANNELS, seq![for_user, nick, join_spaces(channel_entries(channels))]),
            ];
            let away = match c.away {
                Some(msg) => seq![server_reply(RPL_AWAY, seq![for_user, nick, msg@])],
                None => Seq::empty(),
            };
            head + away + seq![server_reply(RPL_ENDOFWHOIS, seq![for_user, nick, "End of /WHOIS list"@])]
        },
    }
}

/// The numeric code of a reply, if it is one.
pub open spec fn reply_code(m: MessageText) -> Option<u16> {
    match m.command {
        crate::message::CommandText::Response(code, _) => Some(code),
        _ => None,
    }
}

/// The WHOIS replies on a connected user hold an away line (`301`) exactly
/// when the user has an away message, and that line carries the message;
/// a user who is not away gets `311`, `312`, `317`, `319` and `318`, in that
/// order, and nothing else.
pub proof fn lemma_whois_away_line(
    for_user: Seq<char>,
    query: Seq<char>,
    c: InitiatedConnection,
    channels: Seq<(Permission, String)>,
)
    ensures
        ({
            let r = whois_replies(for_user, query, Some(c), channels);
            &&& (exists|i: int| 0 <= i < r.len() && reply_code(r[i]) == Some(RPL_AWAY)) <==> c.away is Some
            &&& forall|i: int|
                0 <= i < r.len() && reply_code(r[i]) == Some(RPL_AWAY) ==> r[i] == server_reply(
                    RPL_AWAY,
                    seq![for_user, c.nick@, c.away.unwrap()@],
                )
            &&& c.away is None ==> r.len() == 5 && r.map_values(|m: MessageText| reply_code(m)) == seq![
                Some(RPL_WHOISUSER),
                Some(RPL_WHOISSERVER),
                Some(RPL_WHOISIDLE),
                Some(RPL_WHOISCHANNELS),
                Some(RPL_ENDOFWHOIS),
            ]
        }),
{
    let r = whois_replies(for_user, query, Some(c), channels);
    match c.away {
        Some(msg) => {
            assert(reply_code(r[4]) == Some(RPL_AWAY));
        },
        None => {
            assert(r.map_values(|m: MessageText| reply_code(m)) =~= seq![
                Some(RPL_WHOISUSER),
                Some(RPL_WHOISSERVER),
                Some(RPL_WHOISIDLE),
                Some(RPL_WHOISCHANNELS),
                Some(RPL_ENDOFWHOIS),
            ]);
        },
    }
}

impl IntoProtocol for Whois {
    open spec fn messages_spec(self, for_user: Seq<char>) -> Seq<MessageText> {
        whois_replies(for_user, self.query@, self.conn, self.channels@)
    }

    /// `401` for an unknown nick; otherwise `311`, `312`, `317`, `319`,
    /// `301` if the user is away, and `318`.
    fn into_messages(self, for_user: &str) -> (r: Vec<Message>)
        ensures
            message_texts(r@) == whois_replies(for_user@, self.query@, self.conn, self.channels@),
    {
        let mut out: Vec<Message> = Vec::new();
        let conn = match self.conn {
            None => {
                push_message(
                    &mut out,
                    server_message(ERR_NOSUCHNICK, strings3(text(for_user), self.query, text("No such nick"))),
                );
                assert(message_texts(out@) =~= whois_replies(for_user@, self.query@, self.conn, self.channels@));
                return out;
            },
            Some(c) => c,
        };
        let mut entries: Vec<String> = Vec::new();
        let mut i: usize = 0;
        while i < self.channels.len()
            invariant
                i <= self.channels.len(),
                texts(entries@) == channel_entries(self.channels@.take(i as int)),
            decreases self.channels.len() - i,
        {
            let (p, name) = &self.channels[i];
            let mut entry = text(p.into_prefix());
            entry.append(name.as_str());
            assert(self.channels@[i as int] == (*p, *name));
            let ghost before = entries@;
            entries.push(entry);
            assert(self.channels@.take(i + 1) =~= self.channels@.take(i as int).push((*p, *name)));
            assert(texts(entries@) =~= texts(before).push(p.prefix_spec() + name@));
            i = i + 1;
        }
        assert(self.channels@.take(self.channels.len() as int) =~= self.channels@);
        let joined = join_with_spaces(&entries);
        let nick = conn.nick.clone();
        let mut user_params: Vec<String> = Vec::new();
        user_params.push(text(for_user));
        user_params.push(nick.clone());
        user_params.push(conn.user.clone());
        user_params.push(text("*"));
        user_params.push(conn.real_name.clone());
        assert(texts(user_params@) =~= seq![for_user@, nick@, conn.user@, "*"@, conn.real_name@]);
        push_message(&mut out, server_message(RPL_WHOISUSER, user_params));
        push_message(
            &mut out,
            server_message(RPL_WHOISSERVER, strings4(text(for_user), nick.clone(), text(SERVER_NAME), text(SERVER_NAME))),
        );
        let mut idle_params: Vec<String> = Vec::new();
        idle_params.push(text(for_user));
        idle_params.push(nick.clone());
        idle_params.push(text("0"));
        idle_params.push(signed_decimal_string(conn.at));
        idle_params.push(text("seconds idle, signon time"));
        assert(texts(idle_params@) =~= seq![
            for_user@,
            nick@,
            "0"@,
            signed_decimal(conn.at as int),
            "seconds idle, signon time"@,
        ]);
        push_message(&mut out, server_message(RPL_WHOISIDLE, idle_params));
        push_message(&mut out, server_message(RPL_WHOISCHANNELS, strings3(text(for_user), nick.clone(), joined)));
        match &conn.away {
            Some(msg) => {
                push_message(&mut out, server_message(RPL_AWAY, strings3(text(for_user), nick.clone(), msg.clone())));
            },
            None => {},
        }
        push_message(
            &mut out,
            server_message(RPL_ENDOFWHOIS, strings3(text(for_user), nick, text("End of /WHOIS list"))),
        );
        assert(message_texts(out@) =~= whois_replies(for_user@, self.query@, self.conn, self.channels@));
        out
    }
}

/// The answer when a nick is not connected.
pub struct NoSuchNick {
    pub nick: String,
}

impl IntoProtocol for NoSuchNick {
    open spec fn messages_spec(self, for_user: Seq<char>) -> Seq<MessageText> {
        seq![server_reply(ERR_NOSUCHNICK, seq![for_user, self.nick@, "No such nick"@])]
    }

    /// `401 <user> <nick> :No such nick`.
    fn into_messages(self, for_user: &str) -> (r: Vec<Message>)
        ensures
            message_texts(r@) == seq![server_reply(ERR_NOSUCHNICK, seq![for_user@, self.nick@, "No such nick"@])],
    {
        let ghost nick = self.nick@;
        let mut out: Vec<Message> = Vec::new();
        push_message(&mut out, server_message(ERR_NOSUCHNICK, strings3(text(for_user), self.nick, text("No such nick"))));
        assert(message_texts(out@) =~= seq![server_reply(ERR_NOSUCHNICK, seq![for_user@, nick, "No such nick"@])]);
        out
    }
}

/// The answer to a `WHO`: the member lists found, and what was asked.
pub struct WhoList {
    pub list: Vec<ChannelWhoList>,
    pub query: String,
}

/// The `352` lines of each list, one list after the other.
pub open spec fn who_list_lines(for_user: Seq<char>, lists: Seq<ChannelWhoList>) -> Seq<MessageText>
    decreases lists.len(),
{
    if lists.len() == 0 {
        Seq::empty()
    } else {
        who_list_lines(for_user, lists.drop_last()) + who_replies(
            for_user,
            lists.last().channel_name@,
            lists.last().nick_list@,
        )
    }
}

impl WhoList {
    /// An empty answer to `query`.
    pub fn new(query: String) -> (w: WhoList)
        ensures
            w.query == query,
            w.list@.len() == 0,
    {
        WhoList { list: Vec::new(), query }
    }
}

impl IntoProtocol for WhoList {
    open spec fn messages_spec(self, for_user: Seq<char>) -> Seq<MessageText> {
        who_list_lines(for_user, self.list@) + seq![
            server_reply(RPL_ENDOFWHO, seq![for_user, self.query@, "End of WHO list"@]),
        ]
    }

    /// The lines of every list, then `315 <user> <query> :End of WHO list`.
    fn into_messages(self, for_user: &str) -> (r: Vec<Message>)
        ensures
            message_texts(r@) == who_list_lines(for_user@, self.list@) + seq![
                server_reply(RPL_ENDOFWHO, seq![for_user@, self.query@, "End of WHO list"@]),
            ],
    {
        let ghost lists = self.list@;
        let mut out: Vec<Message> = Vec::new();
        let n = self.list.len();
        let mut i: usize = 0;
        while i < n
            invariant
                i <= n == lists.len(),
                lists == self.list@,
                message_texts(out@) == who_list_lines(for_user@, lists.take(i as int)),
            decreases n - i,
        {
            let mut lines = self.list[i].to_messages(for_user);
            let ghost before = out@;
            let ghost added = lines@;
            out.append(&mut lines);
            assert(message_texts(out@) =~= message_texts(before) + message_texts(added));
            assert(lists.take(i + 1).drop_last() =~= lists.take(i as int));
            assert(lists.take(i + 1).last() == lists[i as int]);
            i = i + 1;
        }
        assert(lists.take(n as int) =~= lists);
        let ghost before = out@;
        push_message(
            &mut out,
            server_message(RPL_ENDOFWHO, strings3(text(for_user), self.query, text("End of WHO list"))),
        );
        out
    }
}

/// The administrative contact of the server.
pub struct AdminInfo {
    pub line1: String,
    pub line2: String,
    pub email: String,
}

/// The replies to `ADMIN`.
pub open spec fn admin_replies(for_user: Seq<char>, a: AdminInfo) -> Seq<MessageText> {
    seq![
        server_reply(RPL_ADMINME, seq![for_user, SERVER_NAME@, "Administrative info"@]),
        server_reply(RPL_ADMINLOC1, seq![for_user, a.line1@]),
        server_reply(RPL_ADMINLOC2, seq![for_user, a.line2@]),
        server_reply(RPL_ADMINEMAIL, seq![for_user, a.email@]),
    ]
}

impl IntoProtocol for AdminInfo {
    open spec fn messages_spec(self, for_user: Seq<char>) -> Seq<MessageText> {
        admin_replies(for_user, self)
    }

    /// `256`, `257`, `258` and `259`.
    fn into_messages(self, for_user: &str) -> (r: Vec<Message>)
        ensures
            message_texts(r@) == admin_replies(for_user@, self),
    {
        let ghost me = self;
        let mut out: Vec<Message> = Vec::new();
        push_message(
            &mut out,
            server_message(RPL_ADMINME, strings3(text(for_user), text(SERVER_NAME), text("Administrative info"))),
        );
        push_message(&mut out, server_message(RPL_ADMINLOC1, strings2(text(for_user), self.line1)));
        push_message(&mut out, server_message(RPL_ADMINLOC2, strings2(text(for_user), self.line2)));
        push_message(&mut out, server_message(RPL_ADMINEMAIL, strings2(text(for_user), self.email)));
        assert(message_texts(out@) =~= admin_replies(for_user@, me));
        out
    }
}

/// The user counts of the server.
pub struct ListUsers {
    pub current_clients: usize,
    pub max_clients: usize,
    pub operators_online: usize,
    pub channels_formed: usize,
}

/// The replies to `LUSERS`.
pub open spec fn lusers_replies(for_user: Seq<char>, l: ListUsers) -> Seq<MessageText> {
    let cur = decimal(l.current_clients as nat);
    let max = decimal(l.max_clients as nat);
    seq![
        server_reply(RPL_LUSERCLIENT, seq![for_user, "There are "@ + cur + " users and 0 invisible on 1 servers"@]),
        server_reply(RPL_LUSEROP, seq![for_user, "0"@, "operator(s) online"@]),
        server_reply(RPL_LUSERCHANNELS, seq![for_user, decimal(l.channels_formed as nat), "channels formed"@]),
        server_reply(RPL_LUSERME, seq![for_user, "I have "@ + cur + " clients and 1 servers"@]),
        server_reply(RPL_LOCALUSERS, seq![for_user, cur, max, "Current local users "@ + cur + ", max "@ + max]),
        server_reply(RPL_GLOBALUSERS, seq![for_user, cur, max, "Current global users "@ + cur + ", max "@ + max]),
    ]
}

/// `<a><n><b>`.
fn around(a: &str, n: &String, b: &str) -> (s: String)
    ensures
        s@ == a@ + n@ + b@,
{
    let mut s = text(a);
    s.append(n.as_str());
    s.append(b);
    s
}

/// `<prefix><cur>, max <max>`.
fn counts(prefix: &str, cur: &String, max: &String) -> (s: String)
    ensures
        s@ == prefix@ + cur@ + ", max "@ + max@,
{
    let mut s = around(prefix, cur, ", max ");
    s.append(max.as_str());
    s
}

impl IntoProtocol for ListUsers {
    open spec fn messages_spec(self, for_user: Seq<char>) -> Seq<MessageText> {
        lusers_replies(for_user, self)
    }

    /// `251`, `252`, `254`, `255`, `265` and `266`.
    fn into_messages(self, for_user: &str) -> (r: Vec<Message>)
        ensures
            message_texts(r@) == lusers_replies(for_user@, self),
    {
        let cur = usize_string(self.current_clients);
        let max = usize_string(self.max_clients);
        let mut out: Vec<Message> = Vec::new();
        push_message(
            &mut out,
            server_message(
                RPL_LUSERCLIENT,
                strings2(text(for_user), around("There are ", &cur, " users and 0 invisible on 1 servers")),
            ),
        );
        push_message(&mut out, server_message(RPL_LUSEROP, strings3(text(for_user), text("0"), text("operator(s) online"))));
        push_message(
            &mut out,
            server_message(
                RPL_LUSERCHANNELS,
                strings3(text(for_user), usize_string(self.channels_formed), text("channels formed")),
            ),
        );
        push_message(
            &mut out,
            server_message(RPL_LUSERME, strings2(text(for_user), around("I have ", &cur, " clients and 1 servers"))),
        );
        push_message(
            &mut out,
            server_message(
                RPL_LOCALUSERS,
                strings4(text(for_user), cur.clone(), max.clone(), counts("Current local users ", &cur, &max)),
            ),
        );
        push_message(
            &mut out,
            server_message(
                RPL_GLOBALUSERS,
                strings4(text(for_user), cur.clone(), max.clone(), counts("Current global users ", &cur, &max)),
            ),
        );
        assert(message_texts(out@) =~= lusers_replies(for_user@, self));
        out
    }
}

/// The message of the day, if the server has one.
pub struct Motd {
    pub motd: Option<String>,
}

/// No message of the day.
impl Default for Motd {
    fn default() -> (m: Motd)
        ensures
            m.motd is None,
    {
        Motd { motd: None }
    }
}

/// `375`, one `372` per line of the trimmed text, and `376`; `422` without
/// a message of the day.
pub open spec fn motd_replies(for_user: Seq<char>, motd: Option<Seq<char>>) -> Seq<MessageText> {
    match motd {
        Some(text) => seq![
            server_reply(RPL_MOTDSTART, seq![for_user, "- "@ + SERVER_NAME@ + " Message of the day -"@]),
        ] + split_on(trim(text), '\n').map_values(|line: Seq<char>| server_reply(RPL_MOTD, seq![for_user, line]))
            + seq![server_reply(RPL_ENDOFMOTD, seq![for_user, "End of /MOTD command."@])],
        None => seq![server_reply(ERR_NOMOTD, seq![for_user, "MOTD File is missing"@])],
    }
}

impl IntoProtocol for Motd {
    open spec fn messages_spec(self, for_user: Seq<char>) -> Seq<MessageText> {
        motd_replies(
            for_user,
            match self.motd {
                Some(m) => Some(m@),
                None => None,
            },
        )
    }

    /// The message of the day, as replies.
    fn into_messages(self, for_user: &str) -> (r: Vec<Message>)
        ensures
            message_texts(r@) == motd_replies(
                for_user@,
                match self.motd {
                    Some(m) => Some(m@),
                    None => None,
                },
            ),
    {
        let mut out: Vec<Message> = Vec::new();
        match self.motd {
            Some(motd) => {
                let mut banner = text("- ");
                banner.append(SERVER_NAME);
                banner.append(" Message of the day -");
                push_message(&mut out, server_message(RPL_MOTDSTART, strings2(text(for_user), banner)));
                let trimmed = trim_string(motd.as_str());
                let lines = split_string(trimmed.as_str(), '\n');
                let ghost ls = texts(lines@);
                let ghost start = out@;
                let mut i: usize = 0;
                while i < lines.len()
                    invariant
                        i <= lines.len(),
                        ls == texts(lines@),
                        message_texts(out@) == message_texts(start) + ls.take(i as int).map_values(
                            |line: Seq<char>| server_reply(RPL_MOTD, seq![for_user@, line]),
                        ),
                    decreases lines.len() - i,
                {
                    push_message(&mut out, server_message(RPL_MOTD, strings2(text(for_user), lines[i].clone())));
                    assert(ls.take(i + 1) =~= ls.take(i as int).push(ls[i as int]));
                    assert(message_texts(out@) =~= message_texts(start) + ls.take(i + 1).map_values(
                        |line: Seq<char>| server_reply(RPL_MOTD, seq![for_user@, line]),
                    ));
                    i = i + 1;
                }
                assert(ls.take(lines.len() as int) =~= ls);
                push_message(
                    &mut out,
                    server_message(RPL_ENDOFMOTD, strings2(text(for_user), text("End of /MOTD command."))),
                );
                assert(message_texts(out@) =~= motd_replies(for_user@, Some(motd@)));
            },
            None => {
                push_message(&mut out, server_message(ERR_NOMOTD, strings2(text(for_user), text("MOTD File is missing"))));
                assert(message_texts(out@) =~= motd_replies(for_user@, None));
            },
        }
        out
    }
}

/// One channel in a `LIST`.
pub struct ChannelListItem {
    pub channel_name: String,
    pub client_count: usize,
    pub topic: Option<String>,
}

/// The channels of the server, for `LIST`.
pub struct ChannelList {
    pub members: Vec<ChannelListItem>,
}

/// No channels.
impl Default for ChannelList {
    fn default() -> (l: ChannelList)
        ensures
            l.members@.len() == 0,
    {
        ChannelList { members: Vec::new() }
    }
}

/// The `322` line of one channel.
pub open spec fn list_line(for_user: Seq<char>, item: ChannelListItem) -> MessageText {
    server_reply(
        RPL_LIST,
        seq![
            for_user,
            item.channel_name@,
            decimal(item.client_count as nat),
            match item.topic {
                Some(t) => t@,
                None => Seq::empty(),
            },
        ],
    )
}

/// `321`, one `322` per channel, and `323`.
pub open spec fn list_replies(for_user: Seq<char>, items: Seq<ChannelListItem>) -> Seq<MessageText> {
    seq![server_reply(RPL_LISTSTART, seq![for_user, "Channel"@, "Users  Name"@])] + items.map_values(
        |item: ChannelListItem| list_line(for_user, item),
    ) + seq![server_reply(RPL_LISTEND, seq![for_user, "End of /LIST"@])]
}

impl ChannelList {
    /// An empty list.
    pub fn new() -> (l: ChannelList)
        ensures
            l.members@.len() == 0,
    {
        ChannelList { members: Vec::new() }
    }
}

impl IntoProtocol for ChannelList {
    open spec fn messages_spec(self, for_user: Seq<char>) -> Seq<MessageText> {
        list_replies(for_user, self.members@)
    }

    /// The `LIST` reply.
    fn into_messages(self, for_user: &str) -> (r: Vec<Message>)
        ensures
            message_texts(r@) == list_replies(for_user@, self.members@),
    {
        let mut out: Vec<Message> = Vec::new();
        push_message(
            &mut out,
            server_message(RPL_LISTSTART, strings3(text(for_user), text("Channel"), text("Users  Name"))),
        );
        let ghost start = out@;
        let mut i: usize = 0;
        while i < self.members.len()
            invariant
                i <= self.members.len(),
                message_texts(out@) == message_texts(start) + self.members@.take(i as int).map_values(
                    |item: ChannelListItem| list_line(for_user@, item),
                ),
            decreases self.members.len() - i,
        {
            let item = &self.members[i];
            let topic = match &item.topic {
                Some(t) => t.clone(),
                None => String::new(),
            };
            assert(topic@ == match item.topic {
                Some(t) => t@,
                None => Seq::<char>::empty(),
            });
            let count = usize_string(item.client_count);
            let params = strings4(text(for_user), item.channel_name.clone(), count, topic);
            assert(texts(params@) == seq![
                for_user@,
                item.channel_name@,
                decimal(item.client_count as nat),
                match item.topic {
                    Some(t) => t@,
                    None => Seq::<char>::empty(),
                },
            ]);
            let m = server_message(RPL_LIST, params);
            assert(m@ == list_line(for_user@, *item));
            push_message(&mut out, m);
            assert(self.members@.take(i + 1) =~= self.members@.take(i as int).push(*item));
            assert(message_texts(out@) =~= message_texts(start) + self.members@.take(i + 1).map_values(
                |item: ChannelListItem| list_line(for_user@, item),
            ));
            i = i + 1;
        }
        assert(self.members@.take(self.members.len() as int) =~= self.members@);
        push_message(&mut out, server_message(RPL_LISTEND, strings2(text(for_user), text("End of /LIST"))));
        assert(message_texts(out@) =~= list_replies(for_user@, self.members@));
        out
    }
}

} // verus!
