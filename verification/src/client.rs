//! The decisions a client connection takes: what each command from the
//! client leads to, the tags of replayed messages, away, kill and quit
//! texts, and when a silent client has timed out.

use vstd::prelude::*;

use crate::channel::permissions::ModeChange;
use crate::connection::sasl::SaslAlreadyAuthenticated;
use crate::connection::{Capability, InitiatedConnection};
use crate::message::{
    bare_message, bare_reply, message_texts, parsed_prefix, prefix_from_str, push_message,
    raw_command, raw_message, server_message, server_reply, signed_decimal, signed_decimal_string,
    strings1, strings2, strings3, strings4, text, texts, Command, Message, MessageText, Prefix,
    PrefixText, Tag, TagText, ERR_SASLALREADY, ERR_UNKNOWNCOMMAND, RPL_ENDOFINFO, RPL_INFO,
    RPL_NOWAWAY, RPL_TIME, RPL_UNAWAY, RPL_VERSION,
};
use crate::messages::{MessageKind, UserNickChangeInternal};
use crate::text::{
    chars_of, is_whitespace, lemma_filter_push, non_empty, push_char, split_on, split_string,
    string_from_chars, trim, trim_string,
};
use crate::SERVER_NAME;

verus! {


/// The channel names of a comma separated list: its non-empty pieces.
pub open spec fn channel_name_list(s: Seq<char>) -> Seq<Seq<char>> {
    split_on(s, ',').filter(|x: Seq<char>| non_empty(x))
}


/// Splits a comma separated list of channel names, dropping empty names.
pub fn parse_channel_name_list(s: &str) -> (r: Vec<String>)
    ensures
        texts(r@) == channel_name_list(s@),
{
    let v = chars_of(s);
    let mut out: Vec<String> = Vec::new();
    let mut start: usize = 0;
    let mut i: usize = 0;
    while i < v.len()
        invariant
            v@ == s@,
            start <= i <= v.len(),
            split_on(v@.take(i as int), ',').len() >= 1,
            texts(out@) == split_on(v@.take(i as int), ',').drop_last().filter(
                |y: Seq<char>| non_empty(y),
            ),
            split_on(v@.take(i as int), ',').last() == v@.subrange(start as int, i as int),
        decreases v.len() - i,
    {
        let ghost pre = v@.take(i as int);
        let ghost next = v@.take(i + 1);
        assert(next.drop_last() =~= pre);
        assert(next.last() == v@[i as int]);
        if v[i] == ',' {
            if start < i {
                let name = string_from_chars(&v, start, i);
                proof {
                    lemma_filter_push(split_on(pre, ',').drop_last(), split_on(pre, ',').last());
                    assert(split_on(pre, ',').drop_last().push(split_on(pre, ',').last()) =~= split_on(pre, ','));
                }
                out.push(name);
            } else {
                proof {
                    lemma_filter_push(split_on(pre, ',').drop_last(), split_on(pre, ',').last());
                    assert(split_on(pre, ',').drop_last().push(split_on(pre, ',').last()) =~= split_on(pre, ','));
                }
            }
            proof {
                assert(split_on(next, ',') == split_on(pre, ',').push(Seq::<char>::empty()));
                assert(split_on(next, ',').drop_last() =~= split_on(pre, ','));
                assert(v@.subrange(i + 1, i + 1) =~= Seq::<char>::empty());
            }
            start = i + 1;
        } else {
            proof {
                let p = split_on(pre, ',');
                assert(split_on(next, ',') == p.update(p.len() - 1, p.last().push(v@[i as int])));
                assert(split_on(next, ',').drop_last() =~= p.drop_last());
                assert(v@.subrange(start as int, i + 1) =~= v@.subrange(start as int, i as int).push(v@[i as int]));
            }
        }
        i = i + 1;
    }
    assert(v@.take(v.len() as int) =~= s@);
    let ghost all = split_on(s@, ',');
    proof {
        lemma_filter_push(all.drop_last(), all.last());
        assert(all.drop_last().push(all.last()) =~= all);
    }
    if start < i {
        let name = string_from_chars(&v, start, i);
        out.push(name);
    }
    assert(texts(out@) =~= channel_name_list(s@));
    out
}

/// The non-empty pieces.
pub open spec fn kept_names(p: Seq<Seq<char>>) -> Seq<Seq<char>> {
    p.filter(|y: Seq<char>| non_empty(y))
}

proof fn lemma_kept_pieces(p: Seq<Seq<char>>)
    requires
        forall|i: int| 0 <= i < p.len() ==> !(#[trigger] p[i]).contains(','),
    ensures
        forall|i: int|
            0 <= i < kept_names(p).len() ==> (#[trigger] kept_names(p)[i]).len() > 0 && !kept_names(p)[i].contains(
                ',',
            ),
    decreases p.len(),
{
    if p.len() > 0 {
        let q = p.drop_last();
        assert forall|i: int| 0 <= i < q.len() implies !(#[trigger] q[i]).contains(',') by {
            assert(q[i] == p[i]);
        }
        lemma_kept_pieces(q);
        lemma_filter_push(q, p.last());
        assert(q.push(p.last()) =~= p);
        assert(!p[p.len() - 1].contains(','));
        let kq = kept_names(q);
        let kp = kept_names(p);
        assert(kp == if non_empty(p.last()) {
            kq.push(p.last())
        } else {
            kq
        });
        assert forall|i: int| 0 <= i < kp.len() implies (#[trigger] kp[i]).len() > 0 && !kp[i].contains(',') by {
            if i < kq.len() {
                assert(kp[i] == kq[i]);
            } else {
                assert(kp[i] == p.last());
            }
        }
    } else {
        reveal(Seq::filter);
        assert(kept_names(p) =~= Seq::<Seq<char>>::empty());
    }
}

/// Every name of a comma separated channel list is non-empty and holds no
/// comma.
pub proof fn lemma_channel_names_clean(s: Seq<char>)
    ensures
        forall|i: int|
            0 <= i < channel_name_list(s).len() ==> (#[trigger] channel_name_list(s)[i]).len() > 0
                && !channel_name_list(s)[i].contains(','),
{
    crate::text::lemma_split_pieces_lack_separator(s, ',');
    lemma_kept_pieces(split_on(s, ','));
    assert(channel_name_list(s) == kept_names(split_on(s, ',')));
}

/// What chrono writes for a moment given in milliseconds since the Unix
/// epoch, as RFC 3339 with milliseconds and a `Z` suffix; nothing where the
/// moment is out of chrono's range.
pub uninterp spec fn rfc3339_millis_text(millis: i64) -> Option<Seq<char>>;

/// Formats a moment with `DateTime::<Utc>::from_timestamp_millis` and
/// `to_rfc3339_opts(SecondsFormat::Millis, true)`. Claimed: the text depends
/// on the moment alone.
#[verifier::external_body]
fn rfc3339_millis(millis: i64) -> (r: Option<String>)
    ensures
        r is Some <==> rfc3339_millis_text(millis) is Some,
        r matches Some(s) ==> rfc3339_millis_text(millis) == Some(s@),
{
    match chrono::DateTime::<chrono::Utc>::from_timestamp_millis(millis) {
        Some(t) => Some(t.to_rfc3339_opts(chrono::SecondsFormat::Millis, true)),
        None => None,
    }
}

/// What chrono writes for a moment given in seconds since the Unix epoch
/// with the format `%a %b %d %Y %T`; nothing where the moment is out of
/// chrono's range.
pub uninterp spec fn date_text(secs: i64) -> Option<Seq<char>>;

/// Formats a moment with `DateTime::<Utc>::from_timestamp` and
/// `format("%a %b %d %Y %T")`. Claimed: the text depends on the moment
/// alone.
#[verifier::external_body]
fn format_date(secs: i64) -> (r: Option<String>)
    ensures
        r is Some <==> date_text(secs) is Some,
        r matches Some(s) ==> date_text(secs) == Some(s@),
{
    match chrono::DateTime::<chrono::Utc>::from_timestamp(secs, 0) {
        Some(t) => Some(t.format("%a %b %d %Y %T").to_string()),
        None => None,
    }
}

/// The `time` tag of a message sent at `millis`, for a client that asked
/// for `server-time`.
pub open spec fn time_tag(caps: Capability, millis: i64) -> Option<TagText> {
    if !caps.server_time {
        None
    } else {
        match rfc3339_millis_text(millis) {
            Some(t) => Some(TagText { key: "time"@, value: Some(t) }),
            None => None,
        }
    }
}

pub open spec fn opt_tag(t: Option<Tag>) -> Option<TagText> {
    match t {
        Some(x) => Some(x@),
        None => None,
    }
}

/// The `time` tag for a message sent at `millis` (milliseconds since the
/// Unix epoch), if the client asked for `server-time`.
pub fn maybe_build_time_tag(capabilities: Capability, millis: i64) -> (r: Option<Tag>)
    ensures
        opt_tag(r) == time_tag(capabilities, millis),
{
    if !capabilities.contains(Capability { userhost_in_names: false, server_time: true }) {
        return None;
    }
    match rfc3339_millis(millis) {
        Some(t) => Some(Tag { key: text("time"), value: Some(t) }),
        None => None,
    }
}

/// Collects the tags of a message.
pub struct TagBuilder {
    inner: Vec<Tag>,
}

impl View for TagBuilder {
    type V = Seq<TagText>;

    closed spec fn view(&self) -> Seq<TagText> {
        self.inner@.map_values(|t: Tag| t@)
    }
}

impl TagBuilder {
    /// A builder with no tags.
    pub fn new() -> (b: TagBuilder)
        ensures
            b@ == Seq::<TagText>::empty(),
    {
        let b = TagBuilder { inner: Vec::new() };
        assert(b@ =~= Seq::<TagText>::empty());
        b
    }

    /// Adds a tag, if there is one.
    pub fn insert(self, tag: Option<Tag>) -> (b: TagBuilder)
        ensures
            b@ == match tag {
                Some(t) => self@.push(t@),
                None => self@,
            },
    {
        let mut inner = self.inner;
        match tag {
            Some(t) => {
                let ghost before = inner@;
                inner.push(t);
                let b = TagBuilder { inner };
                assert(b@ =~= before.map_values(|t: Tag| t@).push(t@));
                b
            },
            None => TagBuilder { inner },
        }
    }

    /// The tags, or nothing when there are none.
    pub fn into_tags(self) -> (r: Option<Vec<Tag>>)
        ensures
            match r {
                Some(v) => self@.len() > 0 && v@.map_values(|t: Tag| t@) == self@,
                None => self@.len() == 0,
            },
    {
        if self.inner.len() == 0 {
            None
        } else {
            Some(self.inner)
        }
    }
}

/// Whether a name is a channel name: it starts with `#`, `&`, `+` or `!`.
pub open spec fn is_channel_name(s: Seq<char>) -> bool {
    s.len() > 0 && (s[0] == '#' || s[0] == '&' || s[0] == '+' || s[0] == '!')
}

/// Whether a name is a channel name.
pub fn channel_name(s: &str) -> (b: bool)
    ensures
        b == is_channel_name(s@),
{
    if s.unicode_len() == 0 {
        return false;
    }
    let c = s.get_char(0);
    c == '#' || c == '&' || c == '+' || c == '!'
}

/// Whether `v` holds `name`.
pub fn contains_name(v: &Vec<String>, name: &str) -> (b: bool)
    ensures
        b == texts(v@).contains(name@),
{
    let ghost w = texts(v@);
    let target = String::from_str(name);
    let mut i: usize = 0;
    while i < v.len()
        invariant
            i <= v.len(),
            w == texts(v@),
            target@ == name@,
            forall|j: int| 0 <= j < i ==> w[j] != name@,
        decreases v.len() - i,
    {
        if v[i] == target {
            assert(w[i as int] == name@);
            return true;
        }
        i = i + 1;
    }
    proof {
        if w.contains(name@) {
            let j = choose|j: int| 0 <= j < w.len() && w[j] == name@;
            assert(w[j] != name@);
        }
    }
    false
}

/// The channels of a join request that are to be joined: those that are
/// channel names and not joined already, in order.
pub open spec fn channels_to_join(requested: Seq<Seq<char>>, joined: Seq<Seq<char>>) -> Seq<Seq<char>> {
    requested.filter(|c: Seq<char>| is_channel_name(c) && !joined.contains(c))
}

/// Picks the channels of a join request that are to be joined.
pub fn filter_join_request(requested: Vec<String>, joined: &Vec<String>) -> (r: Vec<String>)
    ensures
        texts(r@) == channels_to_join(
            texts(requested@),
            texts(joined@),
        ),
{
    let ghost req = texts(requested@);
    let ghost have = texts(joined@);
    let mut out: Vec<String> = Vec::new();
    let mut i: usize = 0;
    while i < requested.len()
        invariant
            i <= requested.len(),
            req == texts(requested@),
            have == texts(joined@),
            texts(out@) == channels_to_join(req.take(i as int), have),
        decreases requested.len() - i,
    {
        let name = &requested[i];
        let keep = channel_name(name.as_str()) && !contains_name(joined, name.as_str());
        proof {
            reveal(Seq::filter);
            assert(req.take(i + 1).drop_last() =~= req.take(i as int));
            assert(req.take(i + 1).last() == name@);
        }
        if keep {
            let ghost before = out@;
            out.push(name.clone());
            assert(texts(out@) =~= texts(before).push(name@));
        }
        i = i + 1;
    }
    assert(req.take(requested.len() as int) =~= req);
    out
}

/// The joined channels whose member lists were asked for, in the order they
/// were joined.
pub open spec fn channels_to_list(joined: Seq<Seq<char>>, requested: Seq<Seq<char>>) -> Seq<Seq<char>> {
    joined.filter(|c: Seq<char>| requested.contains(c))
}

/// Picks the joined channels whose member lists were asked for.
pub fn filter_member_request(joined: &Vec<String>, requested: &Vec<String>) -> (r: Vec<String>)
    ensures
        texts(r@) == channels_to_list(
            texts(joined@),
            texts(requested@),
        ),
{
    let ghost have = texts(joined@);
    let ghost req = texts(requested@);
    let mut out: Vec<String> = Vec::new();
    let mut i: usize = 0;
    while i < joined.len()
        invariant
            i <= joined.len(),
            have == texts(joined@),
            req == texts(requested@),
            texts(out@) == channels_to_list(have.take(i as int), req),
        decreases joined.len() - i,
    {
        let name = &joined[i];
        let keep = contains_name(requested, name.as_str());
        proof {
            reveal(Seq::filter);
            assert(have.take(i + 1).drop_last() =~= have.take(i as int));
            assert(have.take(i + 1).last() == name@);
        }
        if keep {
            let ghost before = out@;
            out.push(name.clone());
            assert(texts(out@) =~= texts(before).push(name@));
        }
        i = i + 1;
    }
    assert(have.take(joined.len() as int) =~= have);
    out
}

/// A message stored while its recipient was away, as replayed to them:
/// tagged with the time it was sent, from its sender, addressed to `target`.
pub open spec fn replayed_message(
    caps: Capability,
    sent_millis: i64,
    sender: Seq<char>,
    target: Seq<char>,
    message: Seq<char>,
    kind: MessageKind,
) -> MessageText {
    MessageText {
        tags: match time_tag(caps, sent_millis) {
            Some(t) => Some(seq![t]),
            None => None,
        },
        prefix: Some(parsed_prefix(sender)),
        command: crate::message::CommandText::Raw(kind.command_spec(), seq![target, message]),
    }
}

/// Builds a stored message for replay to a client: private messages are
/// addressed to the client's nick, channel messages to the channel.
pub fn build_unseen_message(
    capabilities: Capability,
    sent_millis: i64,
    sender: &str,
    target: String,
    message: String,
    kind: MessageKind,
) -> (m: Message)
    ensures
        m@ == replayed_message(capabilities, sent_millis, sender@, target@, message@, kind),
{
    let tags = TagBuilder::new().insert(maybe_build_time_tag(capabilities, sent_millis)).into_tags();
    let m = Message {
        tags,
        prefix: Some(prefix_from_str(sender)),
        command: Command::Raw(text(kind.command()), strings2(target, message)),
    };
    proof {
        if m.tags is Some {
            assert(m.tags->0@.map_values(|t: Tag| t@) =~= seq![time_tag(capabilities, sent_millis)->0]);
        }
    }
    m
}

/// `:<nick!user@host> NICK <new>`, telling a client that a user changed
/// nick.
pub fn nick_change_message(c: &InitiatedConnection, new_nick: String) -> (m: Message)
    ensures
        m@ == raw_command(Some(c.nick_prefix()), "NICK"@, seq![new_nick@]),
{
    raw_message(Some(c.to_nick()), "NICK", strings1(new_nick))
}

/// The reason a client was killed by an operator.
pub fn kill_reason(killer: &str, comment: &str) -> (s: String)
    ensures
        s@ == "Killed ("@ + killer@ + " ("@ + comment@ + "))"@,
{
    let mut s = text("Killed (");
    s.append(killer);
    s.append(" (");
    s.append(comment);
    s.append("))");
    s
}

/// The away message a client is left with: none for an empty one.
pub open spec fn away_message(msg: Option<Seq<char>>) -> Option<Seq<char>> {
    match msg {
        Some(m) => if m.len() == 0 {
            None
        } else {
            Some(m)
        },
        None => None,
    }
}

/// The reply to `AWAY`.
pub open spec fn away_reply(nick: Seq<char>, away: Option<Seq<char>>) -> MessageText {
    if away is Some {
        bare_reply(RPL_NOWAWAY, seq![nick, "You have been marked as being away"@])
    } else {
        bare_reply(RPL_UNAWAY, seq![nick, "You are no longer marked as being away"@])
    }
}

/// Sets or clears the away message of a client and gives the reply to send.
pub fn set_away(c: &mut InitiatedConnection, msg: Option<String>) -> (reply: Message)
    ensures
        crate::connection::opt_chars(final(c).away) == away_message(crate::connection::opt_chars(msg)),
        final(c).nick == old(c).nick,
        final(c).user == old(c).user,
        final(c).host == old(c).host,
        final(c).real_name == old(c).real_name,
        final(c).user_id == old(c).user_id,
        final(c).mode == old(c).mode,
        final(c).capabilities == old(c).capabilities,
        final(c).at == old(c).at,
        reply@ == away_reply(old(c).nick@, away_message(crate::connection::opt_chars(msg))),
{
    c.away = match msg {
        Some(m) => if m.as_str().unicode_len() == 0 {
            None
        } else {
            Some(m)
        },
        None => None,
    };
    if c.away.is_some() {
        bare_message(RPL_NOWAWAY, strings2(c.nick.clone(), text("You have been marked as being away")))
    } else {
        bare_message(RPL_UNAWAY, strings2(c.nick.clone(), text("You are no longer marked as being away")))
    }
}

/// What a client's departure tells the others: the message for the
/// server, the message for its channels, and the `ERROR` sent back to the
/// client.
pub struct Departure {
    pub server_message: Option<String>,
    pub channel_message: Option<String>,
    pub error: Message,
}

pub open spec fn or_text(o: Option<Seq<char>>, default: Seq<char>) -> Seq<char> {
    match o {
        Some(t) => t,
        None => default,
    }
}

/// Decides what a departing client tells the others. A client that quit
/// says `Quit: <reason>` to the server and gets an empty `ERROR`; one the
/// server dropped passes the reason on and gets `ERROR :Closing Link:
/// <reason>`.
pub fn departure(graceful: bool, reason: Option<String>) -> (d: Departure)
    ensures
        graceful ==> crate::connection::opt_chars(d.server_message) == Some(
            "Quit: "@ + or_text(crate::connection::opt_chars(reason), Seq::empty()),
        ),
        !graceful ==> crate::connection::opt_chars(d.server_message) == crate::connection::opt_chars(reason),
        crate::connection::opt_chars(d.channel_message) == crate::connection::opt_chars(reason),
        d.error@ == raw_command(
            None,
            "ERROR"@,
            seq![
                if graceful {
                    Seq::empty()
                } else {
                    "Closing Link: "@ + or_text(crate::connection::opt_chars(reason), "Ungraceful shutdown"@)
                },
            ],
        ),
{
    let reason_text = match &reason {
        Some(r) => r.clone(),
        None => String::new(),
    };
    let server_message = if graceful {
        let mut s = text("Quit: ");
        s.append(reason_text.as_str());
        Some(s)
    } else {
        reason.clone()
    };
    let error_text = if graceful {
        String::new()
    } else {
        let mut s = text("Closing Link: ");
        match &reason {
            Some(r) => s.append(r.as_str()),
            None => s.append("Ungraceful shutdown"),
        }
        s
    };
    Departure { server_message, channel_message: reason, error: raw_message(None, "ERROR", strings1(error_text)) }
}

/// How long a client may stay silent, in seconds.
pub const PING_TIMEOUT_SECS: u64 = 120;

/// What a ping round decides: whether the client timed out, with the reason,
/// and the `PING` to send.
pub struct PingRound {
    pub timeout_reason: Option<String>,
    pub ping: Message,
}

/// A ping round, `silent_secs` after the client was last heard from: it has
/// timed out after 120 seconds; a `PING` is sent either way.
pub fn ping_round(silent_secs: u64) -> (r: PingRound)
    ensures
        (silent_secs >= 120) <==> r.timeout_reason is Some,
        r.timeout_reason matches Some(t) ==> t@ == "Ping timeout: 120 seconds"@,
        r.ping@ == raw_command(None, "PING"@, seq![SERVER_NAME@]),
{
    let timeout_reason = if silent_secs >= PING_TIMEOUT_SECS {
        Some(text("Ping timeout: 120 seconds"))
    } else {
        None
    };
    PingRound { timeout_reason, ping: raw_message(None, "PING", strings1(text(SERVER_NAME))) }
}

/// The text sent in answer to `INFO`, one reply per line.
pub const INFO_TEXT: &'static str = "titanirc is an IRC server.\nIt keeps channels, nicks and unseen messages across reconnects.";

/// A command from a connected client, as far as the client's handling of
/// it goes.
pub enum ClientCommand {
    Nick(String),
    UserMode,
    Quit(Option<String>),
    /// `JOIN` with its comma separated channels.
    Join(String),
    Part(String, Option<String>),
    ChannelMode(String, Vec<ModeChange>),
    Topic(String, Option<String>),
    /// `NAMES` with its comma separated channels, if any.
    Names(Option<String>),
    List,
    /// `INVITE <nick> <channel>`.
    Invite(String, String),
    /// `KICK <channel> <users> [reason]`, the users comma separated.
    Kick(String, String, Option<String>),
    Privmsg(String, String),
    Notice(String, String),
    Motd,
    Lusers,
    Version,
    Time,
    Admin,
    Info,
    Who(Option<String>),
    Whois(Option<String>),
    Whowas,
    /// `KILL <nick> <comment>`.
    Kill(String, String),
    Ping(String),
    Pong,
    Away(Option<String>),
    Wallops(String),
    /// `SANICK <old> <new>`.
    Sanick(String, String),
    Authenticate,
    /// A command the server accepts and does nothing with.
    Ignored,
    /// Any other command, as written on the wire.
    Other(String),
}

/// What handling a client command leads to.
pub enum ClientAction {
    /// Ask to change this client's nick.
    ChangeNick(UserNickChangeInternal),
    /// The client quits, with its reason.
    Quit(Option<String>),
    /// Join these channels.
    JoinChannels(Vec<String>),
    /// Leave a joined channel, with a message.
    PartChannel(String, Option<String>),
    /// Ask a joined channel to change modes.
    SetChannelMode(String, Vec<ModeChange>),
    /// Ask a joined channel to change its topic.
    UpdateTopic(String, String),
    /// Ask a joined channel for its topic, and send it to the client.
    FetchTopic(String),
    /// Ask these joined channels for their members, and send them.
    ListMembers(Vec<String>),
    /// Ask the server for the channel list, and send it.
    FetchChannelList,
    /// Ask a joined channel to invite a nick.
    Invite(String, String),
    /// Ask a joined channel to kick a user, with a reason.
    Kick(String, String, Option<String>),
    /// Send a message to the user owning a nick.
    SendPrivateMessage(String, String, MessageKind),
    /// Send a message to a joined channel.
    SendChannelMessage(String, String, MessageKind),
    /// Ask the server for the message of the day, and send it.
    FetchMotd,
    /// Ask the server for its user counts, and send them.
    FetchUserCounts,
    /// Ask the server for its administrative contact, and send it.
    FetchAdminInfo,
    /// Ask the server for a `WHO` list, and send it.
    FetchWhoList(String),
    /// Ask the server for a `WHOIS`, and send it.
    FetchWhois(String),
    /// Ask the server to disconnect a user: killer, killed and comment.
    Kill(String, String, String),
    /// Send this message to the client.
    Write(Message),
    /// The client answered a ping.
    MarkActive,
    /// Set or clear the away message.
    SetAway(Option<String>),
    /// Ask the server to send wallops.
    Wallops(String),
    /// Ask the server to change another user's nick.
    ForceNickChange(UserNickChangeInternal),
}

/// A client action, with its texts as characters.
pub enum ActionText {
    ChangeNick(Seq<char>, Seq<char>),
    Quit(Option<Seq<char>>),
    JoinChannels(Seq<Seq<char>>),
    PartChannel(Seq<char>, Option<Seq<char>>),
    SetChannelMode(Seq<char>, Seq<ModeChange>),
    UpdateTopic(Seq<char>, Seq<char>),
    FetchTopic(Seq<char>),
    ListMembers(Seq<Seq<char>>),
    FetchChannelList,
    Invite(Seq<char>, Seq<char>),
    Kick(Seq<char>, Seq<char>, Option<Seq<char>>),
    SendPrivateMessage(Seq<char>, Seq<char>, MessageKind),
    SendChannelMessage(Seq<char>, Seq<char>, MessageKind),
    FetchMotd,
    FetchUserCounts,
    FetchAdminInfo,
    FetchWhoList(Seq<char>),
    FetchWhois(Seq<char>),
    Kill(Seq<char>, Seq<char>, Seq<char>),
    Write(MessageText),
    MarkActive,
    SetAway(Option<Seq<char>>),
    Wallops(Seq<char>),
    ForceNickChange(Seq<char>, Seq<char>),
}

pub open spec fn chars_opt(o: Option<String>) -> Option<Seq<char>> {
    crate::connection::opt_chars(o)
}

impl View for ClientAction {
    type V = ActionText;

    open spec fn view(&self) -> ActionText {
        match self {
            ClientAction::ChangeNick(n) => ActionText::ChangeNick(n.old_nick@, n.new_nick@),
            ClientAction::Quit(r) => ActionText::Quit(chars_opt(*r)),
            ClientAction::JoinChannels(v) => ActionText::JoinChannels(texts(v@)),
            ClientAction::PartChannel(c, m) => ActionText::PartChannel(c@, chars_opt(*m)),
            ClientAction::SetChannelMode(c, m) => ActionText::SetChannelMode(c@, m@),
            ClientAction::UpdateTopic(c, t) => ActionText::UpdateTopic(c@, t@),
            ClientAction::FetchTopic(c) => ActionText::FetchTopic(c@),
            ClientAction::ListMembers(v) => ActionText::ListMembers(texts(v@)),
            ClientAction::FetchChannelList => ActionText::FetchChannelList,
            ClientAction::Invite(c, n) => ActionText::Invite(c@, n@),
            ClientAction::Kick(c, u, r) => ActionText::Kick(c@, u@, chars_opt(*r)),
            ClientAction::SendPrivateMessage(d, m, k) => ActionText::SendPrivateMessage(d@, m@, *k),
            ClientAction::SendChannelMessage(c, m, k) => ActionText::SendChannelMessage(c@, m@, *k),
            ClientAction::FetchMotd => ActionText::FetchMotd,
            ClientAction::FetchUserCounts => ActionText::FetchUserCounts,
            ClientAction::FetchAdminInfo => ActionText::FetchAdminInfo,
            ClientAction::FetchWhoList(q) => ActionText::FetchWhoList(q@),
            ClientAction::FetchWhois(q) => ActionText::FetchWhois(q@),
            ClientAction::Kill(a, b, c) => ActionText::Kill(a@, b@, c@),
            ClientAction::Write(m) => ActionText::Write(m@),
            ClientAction::MarkActive => ActionText::MarkActive,
            ClientAction::SetAway(m) => ActionText::SetAway(chars_opt(*m)),
            ClientAction::Wallops(m) => ActionText::Wallops(m@),
            ClientAction::ForceNickChange(n) => ActionText::ForceNickChange(n.old_nick@, n.new_nick@),
        }
    }
}

pub open spec fn action_texts(v: Seq<ClientAction>) -> Seq<ActionText> {
    v.map_values(|a: ClientAction| a@)
}

/// The first word of a text: what follows any leading whitespace, up to the
/// next whitespace.
pub open spec fn first_word(s: Seq<char>) -> Seq<char> {
    leading_word(trim_start_chars(s))
}

pub open spec fn trim_start_chars(s: Seq<char>) -> Seq<char> {
    crate::text::trim_start(s)
}

pub open spec fn leading_word(s: Seq<char>) -> Seq<char>
    decreases s.len(),
{
    if s.len() == 0 || is_whitespace(s[0]) {
        Seq::empty()
    } else {
        seq![s[0]] + leading_word(s.drop_first())
    }
}

proof fn lemma_leading_word_extend(s: Seq<char>, i: int)
    requires
        0 <= i < s.len(),
        !is_whitespace(s[i]),
        forall|j: int| 0 <= j < i ==> !is_whitespace(s[j]),
    ensures
        leading_word(s).len() > i,
        leading_word(s)[i] == s[i],
    decreases i,
{
    if i > 0 {
        lemma_leading_word_extend(s.drop_first(), i - 1);
    }
}

proof fn lemma_leading_word_stop(s: Seq<char>, i: int)
    requires
        0 <= i <= s.len(),
        i == s.len() || is_whitespace(s[i]),
        forall|j: int| 0 <= j < i ==> !is_whitespace(s[j]),
    ensures
        leading_word(s) == s.subrange(0, i),
    decreases i,
{
    if i > 0 {
        lemma_leading_word_stop(s.drop_first(), i - 1);
        assert(seq![s[0]] + s.drop_first().subrange(0, i - 1) =~= s.subrange(0, i));
    } else {
        assert(s.subrange(0, 0) =~= Seq::<char>::empty());
    }
}

/// The first word of a text.
pub fn first_word_of(s: &str) -> (w: String)
    ensures
        w@ == first_word(s@),
{
    let v = chars_of(s);
    let mut i: usize = 0;
    while i < v.len() && crate::text::whitespace(v[i])
        invariant
            v@ == s@,
            i <= v.len(),
            forall|j: int| 0 <= j < i ==> is_whitespace(v@[j]),
        decreases v.len() - i,
    {
        i = i + 1;
    }
    proof {
        crate::text::lemma_trim_start_skip(v@, i as int);
    }
    let ghost rest = v@.subrange(i as int, v.len() as int);
    assert(crate::text::trim_start(rest) == rest);
    let mut k = i;
    while k < v.len() && !crate::text::whitespace(v[k])
        invariant
            v@ == s@,
            i <= k <= v.len(),
            forall|j: int| i <= j < k ==> !is_whitespace(v@[j]),
        decreases v.len() - k,
    {
        k = k + 1;
    }
    proof {
        let kk = (k - i) as int;
        assert forall|j: int| 0 <= j < kk implies !is_whitespace(rest[j]) by {
            assert(rest[j] == v@[i + j]);
        }
        if kk < rest.len() {
            assert(rest[kk] == v@[k as int]);
        }
        lemma_leading_word_stop(rest, kk);
        assert(rest.subrange(0, kk) =~= v@.subrange(i as int, k as int));
    }
    string_from_chars(&v, i, k)
}

/// The reply to a command the server does not know.
pub open spec fn unknown_command_reply(nick: Seq<char>, word: Seq<char>) -> MessageText {
    MessageText {
        tags: None,
        prefix: Some(parsed_prefix(nick)),
        command: crate::message::CommandText::Response(ERR_UNKNOWNCOMMAND, seq![word, "Unknown command"@]),
    }
}

fn unknown_command(nick: &str, word: String) -> (m: Message)
    ensures
        m@ == unknown_command_reply(nick@, word@),
{
    Message {
        tags: None,
        prefix: Some(prefix_from_str(nick)),
        command: Command::Response(ERR_UNKNOWNCOMMAND, strings2(word, text("Unknown command"))),
    }
}

/// The replies to `INFO`: one per line of the info text, then the end.
pub open spec fn info_replies(nick: Seq<char>) -> Seq<MessageText> {
    split_on(trim(INFO_TEXT@), '\n').map_values(|line: Seq<char>| bare_reply(RPL_INFO, seq![nick, line]))
        + seq![bare_reply(RPL_ENDOFINFO, seq![nick, "End of INFO list"@])]
}

fn info_messages(nick: &str) -> (r: Vec<ClientAction>)
    ensures
        action_texts(r@) == info_replies(nick@).map_values(|m: MessageText| ActionText::Write(m)),
{
    let lines = split_string(trim_string(INFO_TEXT).as_str(), '\n');
    let ghost ls = texts(lines@);
    let mut out: Vec<ClientAction> = Vec::new();
    let mut i: usize = 0;
    while i < lines.len()
        invariant
            i <= lines.len(),
            ls == texts(lines@),
            action_texts(out@) == ls.take(i as int).map_values(
                |line: Seq<char>| ActionText::Write(bare_reply(RPL_INFO, seq![nick@, line])),
            ),
        decreases lines.len() - i,
    {
        let m = bare_message(RPL_INFO, strings2(text(nick), lines[i].clone()));
        let ghost before = out@;
        out.push(ClientAction::Write(m));
        assert(ls.take(i + 1) =~= ls.take(i as int).push(ls[i as int]));
        assert(action_texts(out@) =~= action_texts(before).push(ActionText::Write(m@)));
        i = i + 1;
    }
    assert(ls.take(lines.len() as int) =~= ls);
    let end = bare_message(RPL_ENDOFINFO, strings2(text(nick), text("End of INFO list")));
    let ghost before = out@;
    out.push(ClientAction::Write(end));
    assert(action_texts(out@) =~= action_texts(before).push(ActionText::Write(end@)));
    assert(action_texts(out@) =~= info_replies(nick@).map_values(|m: MessageText| ActionText::Write(m)));
    out
}

/// The kicks a `KICK` asks for: one per named user.
pub open spec fn kick_actions(channel: Seq<char>, users: Seq<char>, reason: Option<Seq<char>>) -> Seq<ActionText> {
    channel_name_list(users).map_values(|u: Seq<char>| ActionText::Kick(channel, u, reason))
}

fn kicks(channel: &String, users: &str, reason: &Option<String>) -> (r: Vec<ClientAction>)
    ensures
        action_texts(r@) == kick_actions(channel@, users@, chars_opt(*reason)),
{
    let names = parse_channel_name_list(users);
    let ghost ns = texts(names@);
    let mut out: Vec<ClientAction> = Vec::new();
    let mut i: usize = 0;
    while i < names.len()
        invariant
            i <= names.len(),
            ns == texts(names@),
            action_texts(out@) == ns.take(i as int).map_values(
                |u: Seq<char>| ActionText::Kick(channel@, u, chars_opt(*reason)),
            ),
        decreases names.len() - i,
    {
        let a = ClientAction::Kick(channel.clone(), names[i].clone(), reason.clone());
        let ghost before = out@;
        out.push(a);
        assert(ns.take(i + 1) =~= ns.take(i as int).push(ns[i as int]));
        assert(action_texts(out@) =~= action_texts(before).push(a@));
        i = i + 1;
    }
    assert(ns.take(names.len() as int) =~= ns);
    out
}

/// The reply to `TIME`: the server, the time in seconds and as a date.
pub open spec fn time_reply(nick: Seq<char>, now: i64) -> MessageText {
    bare_reply(
        RPL_TIME,
        seq![
            nick,
            SERVER_NAME@,
            signed_decimal(now as int),
            match date_text(now) {
                Some(t) => t,
                None => Seq::empty(),
            },
        ],
    )
}

/// Whether a message names a source other than the client: such messages
/// are dropped.
pub open spec fn spoofed(nick: Seq<char>, source: Option<PrefixText>) -> bool {
    match source {
        Some(PrefixText::Nickname(n, _, _)) => n != nick,
        _ => false,
    }
}

/// What a command from a client leads to, for a client with `nick`, operator
/// status `oper`, in the `joined` channels, at time `now`, on a server
/// running `version`.
pub open spec fn command_actions(
    nick: Seq<char>,
    oper: bool,
    joined: Seq<Seq<char>>,
    source: Option<PrefixText>,
    command: ClientCommand,
    now: i64,
    version: Seq<char>,
) -> Seq<ActionText> {
    if spoofed(nick, source) {
        Seq::empty()
    } else {
        match command {
            ClientCommand::Nick(new_nick) => seq![ActionText::ChangeNick(nick, new_nick@)],
            ClientCommand::UserMode => Seq::empty(),
            ClientCommand::Quit(reason) => seq![ActionText::Quit(chars_opt(reason))],
            ClientCommand::Join(names) => seq![ActionText::JoinChannels(channel_name_list(names@))],
            ClientCommand::Part(channel, msg) => if joined.contains(channel@) {
                seq![ActionText::PartChannel(channel@, chars_opt(msg))]
            } else {
                Seq::empty()
            },
            ClientCommand::ChannelMode(channel, modes) => if joined.contains(channel@) {
                seq![ActionText::SetChannelMode(channel@, modes@)]
            } else {
                Seq::empty()
            },
            ClientCommand::Topic(channel, topic) => if !joined.contains(channel@) {
                Seq::empty()
            } else {
                match topic {
                    Some(t) => seq![ActionText::UpdateTopic(channel@, t@)],
                    None => seq![ActionText::FetchTopic(channel@)],
                }
            },
            ClientCommand::Names(names) => {
                let channels = channel_name_list(or_text(chars_opt(names), Seq::empty()));
                if channels.len() == 0 {
                    Seq::empty()
                } else {
                    seq![ActionText::ListMembers(channels)]
                }
            },
            ClientCommand::List => seq![ActionText::FetchChannelList],
            ClientCommand::Invite(invited, channel) => if joined.contains(channel@) {
                seq![ActionText::Invite(channel@, invited@)]
            } else {
                Seq::empty()
            },
            ClientCommand::Kick(channel, users, reason) => if joined.contains(channel@) {
                kick_actions(channel@, users@, chars_opt(reason))
            } else {
                Seq::empty()
            },
            ClientCommand::Privmsg(target, msg) => message_actions(joined, target@, msg@, MessageKind::Normal),
            ClientCommand::Notice(target, msg) => message_actions(joined, target@, msg@, MessageKind::Notice),
            ClientCommand::Motd => seq![ActionText::FetchMotd],
            ClientCommand::Lusers => seq![ActionText::FetchUserCounts],
            ClientCommand::Version => seq![
                ActionText::Write(server_reply(RPL_VERSION, seq![nick, version, SERVER_NAME@])),
            ],
            ClientCommand::Time => seq![ActionText::Write(time_reply(nick, now))],
            ClientCommand::Admin => seq![ActionText::FetchAdminInfo],
            ClientCommand::Info => info_replies(nick).map_values(|m: MessageText| ActionText::Write(m)),
            ClientCommand::Who(query) => match query {
                Some(q) => seq![ActionText::FetchWhoList(q@)],
                None => seq![ActionText::Write(unknown_command_reply(nick, "WHO"@))],
            },
            ClientCommand::Whois(query) => match query {
                Some(q) => seq![ActionText::FetchWhois(q@)],
                None => seq![ActionText::Write(unknown_command_reply(nick, "WHOIS"@))],
            },
            ClientCommand::Whowas => Seq::empty(),
            ClientCommand::Kill(killed, comment) => seq![ActionText::Kill(nick, killed@, comment@)],
            ClientCommand::Ping(token) => seq![ActionText::Write(raw_command(None, "PONG"@, seq![token@]))],
            ClientCommand::Pong => seq![ActionText::MarkActive],
            ClientCommand::Away(msg) => seq![ActionText::SetAway(chars_opt(msg))],
            ClientCommand::Wallops(msg) => if oper {
                seq![ActionText::Wallops(msg@)]
            } else {
                seq![ActionText::Write(unknown_command_reply(nick, "WALLOPS"@))]
            },
            ClientCommand::Sanick(old_nick, new_nick) => seq![ActionText::ForceNickChange(old_nick@, new_nick@)],
            ClientCommand::Authenticate => seq![
                ActionText::Write(bare_reply(ERR_SASLALREADY, seq![nick, "You have already authenticated using SASL"@])),
            ],
            ClientCommand::Ignored => Seq::empty(),
            ClientCommand::Other(wire) => seq![ActionText::Write(unknown_command_reply(nick, first_word(wire@)))],
        }
    }
}

/// Where a `PRIVMSG` or `NOTICE` goes: to the user owning a nick, to a
/// joined channel, or nowhere for a channel the client is not in.
pub open spec fn message_actions(joined: Seq<Seq<char>>, target: Seq<char>, msg: Seq<char>, kind: MessageKind) -> Seq<
    ActionText,
> {
    if !is_channel_name(target) {
        seq![ActionText::SendPrivateMessage(target, msg, kind)]
    } else if joined.contains(target) {
        seq![ActionText::SendChannelMessage(target, msg, kind)]
    } else {
        Seq::empty()
    }
}

fn one(a: ClientAction) -> (r: Vec<ClientAction>)
    ensures
        action_texts(r@) == seq![a@],
{
    let mut v = Vec::new();
    v.push(a);
    assert(action_texts(v@) =~= seq![a@]);
    v
}

fn none() -> (r: Vec<ClientAction>)
    ensures
        action_texts(r@) == Seq::<ActionText>::empty(),
{
    let v: Vec<ClientAction> = Vec::new();
    assert(action_texts(v@) =~= Seq::<ActionText>::empty());
    v
}

fn route_message(joined: &Vec<String>, target: String, msg: String, kind: MessageKind) -> (r: Vec<ClientAction>)
    ensures
        action_texts(r@) == message_actions(texts(joined@), target@, msg@, kind),
{
    if !channel_name(target.as_str()) {
        one(ClientAction::SendPrivateMessage(target, msg, kind))
    } else if contains_name(joined, target.as_str()) {
        one(ClientAction::SendChannelMessage(target, msg, kind))
    } else {
        none()
    }
}

proof fn lemma_no_channels_in_nothing()
    ensures
        channel_name_list(Seq::<char>::empty()) == Seq::<Seq<char>>::empty(),
{
    let e = Seq::<char>::empty();
    assert(split_on(e, ',') == seq![e]);
    lemma_filter_push(Seq::<Seq<char>>::empty(), e);
    assert(Seq::<Seq<char>>::empty().push(e) =~= seq![e]);
    reveal(Seq::filter);
    assert(Seq::<Seq<char>>::empty().filter(|y: Seq<char>| non_empty(y)) =~= Seq::<Seq<char>>::empty());
}

/// A line from the client that could not be read as a message.
pub struct UnreadableLine;

/// Takes one item of the client's stream: a line that could not be read is
/// dropped with nothing done; a message is handled as `handle_command`
/// does, with its source and command.
pub fn handle_item(
    conn: &InitiatedConnection,
    joined: &Vec<String>,
    item: Result<(Option<Prefix>, ClientCommand), UnreadableLine>,
    now: i64,
    version: &str,
) -> (r: Vec<ClientAction>)
    ensures
        match item {
            Err(_) => r@.len() == 0,
            Ok((source, command)) => action_texts(r@) == command_actions(
                conn.nick@,
                conn.mode.oper,
                texts(joined@),
                match source {
                    Some(p) => Some(p@),
                    None => None,
                },
                command,
                now,
                version@,
            ),
        },
{
    match item {
        Err(_) => Vec::new(),
        Ok((source, command)) => handle_command(conn, joined, source, command, now, version),
    }
}

/// Decides what a command from a connected client leads to.
///
/// Messages that name another nick as their source are dropped. Commands on
/// a channel the client has not joined do nothing, except messages to a
/// nick, which go to the user owning it.
#[verifier::rlimit(40)]
pub fn handle_command(
    conn: &InitiatedConnection,
    joined: &Vec<String>,
    source: Option<Prefix>,
    command: ClientCommand,
    now: i64,
    version: &str,
) -> (r: Vec<ClientAction>)
    ensures
        action_texts(r@) == command_actions(
            conn.nick@,
            conn.mode.oper,
            texts(joined@),
            match source {
                Some(p) => Some(p@),
                None => None,
            },
            command,
            now,
            version@,
        ),
{
    let nick = &conn.nick;
    match &source {
        Some(Prefix::Nickname(n, _, _)) => {
            if !(*n == *nick) {
                return none();
            }
        },
        _ => {},
    }
    match command {
        ClientCommand::Nick(new_nick) => one(
            ClientAction::ChangeNick(UserNickChangeInternal { old_nick: nick.clone(), new_nick }),
        ),
        ClientCommand::UserMode => none(),
        ClientCommand::Quit(reason) => one(ClientAction::Quit(reason)),
        ClientCommand::Join(names) => one(ClientAction::JoinChannels(parse_channel_name_list(names.as_str()))),
        ClientCommand::Part(channel, msg) => if contains_name(joined, channel.as_str()) {
            one(ClientAction::PartChannel(channel, msg))
        } else {
            none()
        },
        ClientCommand::ChannelMode(channel, modes) => if contains_name(joined, channel.as_str()) {
            one(ClientAction::SetChannelMode(channel, modes))
        } else {
            none()
        },
        ClientCommand::Topic(channel, topic) => if !contains_name(joined, channel.as_str()) {
            none()
        } else {
            match topic {
                Some(t) => one(ClientAction::UpdateTopic(channel, t)),
                None => one(ClientAction::FetchTopic(channel)),
            }
        },
        ClientCommand::Names(names) => {
            let list = match &names {
                Some(n) => parse_channel_name_list(n.as_str()),
                None => {
                    proof {
                        lemma_no_channels_in_nothing();
                    }
                    Vec::new()
                },
            };
            if list.len() == 0 {
                none()
            } else {
                one(ClientAction::ListMembers(list))
            }
        },
        ClientCommand::List => one(ClientAction::FetchChannelList),
        ClientCommand::Invite(invited, channel) => if contains_name(joined, channel.as_str()) {
            one(ClientAction::Invite(channel, invited))
        } else {
            none()
        },
        ClientCommand::Kick(channel, users, reason) => if contains_name(joined, channel.as_str()) {
            kicks(&channel, users.as_str(), &reason)
        } else {
            none()
        },
        ClientCommand::Privmsg(target, msg) => route_message(joined, target, msg, MessageKind::Normal),
        ClientCommand::Notice(target, msg) => route_message(joined, target, msg, MessageKind::Notice),
        ClientCommand::Motd => one(ClientAction::FetchMotd),
        ClientCommand::Lusers => one(ClientAction::FetchUserCounts),
        ClientCommand::Version => one(
            ClientAction::Write(server_message(RPL_VERSION, strings3(nick.clone(), text(version), text(SERVER_NAME)))),
        ),
        ClientCommand::Time => {
            let date = match format_date(now) {
                Some(d) => d,
                None => String::new(),
            };
            assert(date@ == match date_text(now) {
                Some(t) => t,
                None => Seq::<char>::empty(),
            });
            let stamp = signed_decimal_string(now);
            let ghost d = date@;
            let ghost st = stamp@;
            let params = strings4(nick.clone(), text(SERVER_NAME), stamp, date);
            assert(texts(params@) == seq![nick@, SERVER_NAME@, st, d]);
            assert(st == signed_decimal(now as int));
            assert(seq![nick@, SERVER_NAME@, st, d] == seq![
                nick@,
                SERVER_NAME@,
                signed_decimal(now as int),
                match date_text(now) {
                    Some(t) => t,
                    None => Seq::<char>::empty(),
                },
            ]);
            let m = bare_message(RPL_TIME, params);
            assert(m@ == time_reply(nick@, now));
            one(ClientAction::Write(m))
        },
        ClientCommand::Admin => one(ClientAction::FetchAdminInfo),
        ClientCommand::Info => info_messages(nick.as_str()),
        ClientCommand::Who(query) => match query {
            Some(q) => one(ClientAction::FetchWhoList(q)),
            None => one(ClientAction::Write(unknown_command(nick.as_str(), text("WHO")))),
        },
        ClientCommand::Whois(query) => match query {
            Some(q) => one(ClientAction::FetchWhois(q)),
            None => one(ClientAction::Write(unknown_command(nick.as_str(), text("WHOIS")))),
        },
        ClientCommand::Whowas => none(),
        ClientCommand::Kill(killed, comment) => one(ClientAction::Kill(nick.clone(), killed, comment)),
        ClientCommand::Ping(token) => one(ClientAction::Write(raw_message(None, "PONG", strings1(token)))),
        ClientCommand::Pong => one(ClientAction::MarkActive),
        ClientCommand::Away(msg) => one(ClientAction::SetAway(msg)),
        ClientCommand::Wallops(msg) => if conn.mode.oper {
            one(ClientAction::Wallops(msg))
        } else {
            one(ClientAction::Write(unknown_command(nick.as_str(), text("WALLOPS"))))
        },
        ClientCommand::Sanick(old_nick, new_nick) => one(
            ClientAction::ForceNickChange(UserNickChangeInternal { old_nick, new_nick }),
        ),
        ClientCommand::Authenticate => one(ClientAction::Write(SaslAlreadyAuthenticated(nick.clone()).into_message())),
        ClientCommand::Ignored => none(),
        ClientCommand::Other(wire) => one(
            ClientAction::Write(unknown_command(nick.as_str(), first_word_of(wire.as_str()))),
        ),
    }
}

/// A `TOPIC` on a joined channel, from the client itself, carrying a text
/// asks that channel to take exactly that text as its topic; without a text
/// it only fetches the current one.
pub proof fn lemma_topic_with_text_updates(
    nick: Seq<char>,
    oper: bool,
    joined: Seq<Seq<char>>,
    source: Option<PrefixText>,
    channel: String,
    topic: Option<String>,
    now: i64,
    version: Seq<char>,
)
    requires
        !spoofed(nick, source),
        joined.contains(channel@),
    ensures
        match topic {
            Some(t) => command_actions(nick, oper, joined, source, ClientCommand::Topic(channel, topic), now, version)
                == seq![ActionText::UpdateTopic(channel@, t@)],
            None => command_actions(nick, oper, joined, source, ClientCommand::Topic(channel, topic), now, version)
                == seq![ActionText::FetchTopic(channel@)],
        },
{
}

/// Only a `TOPIC` without a text fetches a channel's topic: whatever the
/// command, an action that fetches the topic of a channel comes from a
/// `TOPIC` on that channel that carried no text.
pub proof fn lemma_fetch_topic_only_without_text(
    nick: Seq<char>,
    oper: bool,
    joined: Seq<Seq<char>>,
    source: Option<PrefixText>,
    command: ClientCommand,
    now: i64,
    version: Seq<char>,
    i: int,
)
    requires
        0 <= i < command_actions(nick, oper, joined, source, command, now, version).len(),
        command_actions(nick, oper, joined, source, command, now, version)[i] is FetchTopic,
    ensures
        command matches ClientCommand::Topic(channel, None) && channel@ == command_actions(
            nick,
            oper,
            joined,
            source,
            command,
            now,
            version,
        )[i]->FetchTopic_0,
{
}

} // verus!
