//! What a line protocol session answers to each command, and what the
//! user behind it asks the rest of the server for.

use vstd::prelude::*;
use vstd::string::StringSliceAdditionalSpecFns;

use crate::protocol::commands::{Command, JoinCommand, ModeCommand, NickCommand, PrivmsgCommand};
use crate::protocol::primitives::{Channel, FreeText, Mode, Nick, Receiver, ServerName};
use crate::protocol::replies::{Reply, ServerMessage, Source};

verus! {

/// A reply, with its parameters as bytes.
pub enum ReplyText {
    RplWelcome,
    RplYourHost,
    RplCreated,
    RplMyInfo,
    RplISupport,
    RplUmodeIs(Seq<u8>),
    RplMotdStart(Seq<u8>),
    RplMotd(Seq<u8>),
    RplEndOfMotd,
    RplVersion(Seq<char>, Seq<char>, Seq<u8>, Seq<u8>),
}

impl View for Reply {
    type V = ReplyText;

    open spec fn view(&self) -> ReplyText {
        match self {
            Reply::RplWelcome => ReplyText::RplWelcome,
            Reply::RplYourHost => ReplyText::RplYourHost,
            Reply::RplCreated => ReplyText::RplCreated,
            Reply::RplMyInfo => ReplyText::RplMyInfo,
            Reply::RplISupport => ReplyText::RplISupport,
            Reply::RplUmodeIs(m) => ReplyText::RplUmodeIs(m.0@),
            Reply::RplMotdStart(s) => ReplyText::RplMotdStart(s.0@),
            Reply::RplMotd(t) => ReplyText::RplMotd(t.0@),
            Reply::RplEndOfMotd => ReplyText::RplEndOfMotd,
            Reply::RplVersion(v, d, s, t) => ReplyText::RplVersion(v@, d@, s.0@, t.0@),
        }
    }
}

pub open spec fn reply_texts(v: Seq<Reply>) -> Seq<ReplyText> {
    v.map_values(|r: Reply| r@)
}

/// The name the session announces for itself.
pub const SESSION_SERVER_NAME: &'static str = "my.test.server";

/// The greeting sent once a nick is given.
pub open spec fn greeting() -> Seq<ReplyText> {
    seq![
        ReplyText::RplWelcome,
        ReplyText::RplYourHost,
        ReplyText::RplCreated,
        ReplyText::RplMyInfo,
        ReplyText::RplISupport,
    ]
}

/// The message of the day.
pub open spec fn message_of_the_day() -> Seq<ReplyText> {
    seq![
        ReplyText::RplMotdStart(SESSION_SERVER_NAME.spec_bytes()),
        ReplyText::RplMotd("Hello, welcome to this server!".spec_bytes()),
        ReplyText::RplMotd("it's very cool!".spec_bytes()),
        ReplyText::RplEndOfMotd,
    ]
}

/// The answer to `VERSION` from a server running `version`.
pub open spec fn version_reply(version: Seq<char>) -> ReplyText {
    ReplyText::RplVersion(
        version,
        "release"@,
        SESSION_SERVER_NAME.spec_bytes(),
        "https://github.com/MITBorg/titanirc".spec_bytes(),
    )
}

/// What a session answers to a command: the greeting to `NICK`, the mode
/// to `MODE`, the message of the day to `MOTD` and the version to
/// `VERSION`; nothing to anything else.
pub open spec fn session_replies_spec(c: crate::protocol::commands::CommandText, version: Seq<char>) -> Seq<ReplyText> {
    match c {
        crate::protocol::commands::CommandText::Nick(_) => greeting(),
        crate::protocol::commands::CommandText::Mode(_, m) => seq![ReplyText::RplUmodeIs(m)],
        crate::protocol::commands::CommandText::Motd => message_of_the_day(),
        crate::protocol::commands::CommandText::Version => seq![version_reply(version)],
        _ => Seq::empty(),
    }
}

fn bytes_of(s: &str) -> (v: Vec<u8>)
    ensures
        v@ == s.spec_bytes(),
{
    let mut v: Vec<u8> = Vec::new();
    crate::protocol::replies::push_str(&mut v, s);
    v
}

fn push_reply(out: &mut Vec<Reply>, r: Reply)
    ensures
        reply_texts(final(out)@) == reply_texts(old(out)@).push(r@),
{
    out.push(r);
    assert(reply_texts(out@) =~= reply_texts(old(out)@).push(r@));
}

fn greeting_replies(out: &mut Vec<Reply>)
    ensures
        reply_texts(final(out)@) == reply_texts(old(out)@) + greeting(),
{
    push_reply(out, Reply::RplWelcome);
    push_reply(out, Reply::RplYourHost);
    push_reply(out, Reply::RplCreated);
    push_reply(out, Reply::RplMyInfo);
    push_reply(out, Reply::RplISupport);
    assert(reply_texts(out@) =~= reply_texts(old(out)@) + greeting());
}

fn motd_replies(out: &mut Vec<Reply>)
    ensures
        reply_texts(final(out)@) == reply_texts(old(out)@) + message_of_the_day(),
{
    push_reply(out, Reply::RplMotdStart(ServerName(bytes_of(SESSION_SERVER_NAME))));
    push_reply(out, Reply::RplMotd(FreeText(bytes_of("Hello, welcome to this server!"))));
    push_reply(out, Reply::RplMotd(FreeText(bytes_of("it's very cool!"))));
    push_reply(out, Reply::RplEndOfMotd);
    assert(reply_texts(out@) =~= reply_texts(old(out)@) + message_of_the_day());
}

fn version_replies(out: &mut Vec<Reply>, version: &str)
    ensures
        reply_texts(final(out)@) == reply_texts(old(out)@).push(version_reply(version@)),
{
    push_reply(
        out,
        Reply::RplVersion(
            String::from_str(version),
            String::from_str("release"),
            ServerName(bytes_of(SESSION_SERVER_NAME)),
            FreeText(bytes_of("https://github.com/MITBorg/titanirc")),
        ),
    );
}

/// What a user's command asks of the rest of the server, besides the
/// replies it gets.
pub enum UserRequest {
    /// Take this nick and log in with the password given before.
    TakeNick(Vec<u8>),
    /// Join this channel.
    Join(Vec<u8>),
    /// Send text to the user with this nick.
    MessageUser(Vec<u8>, Vec<u8>),
    /// Send text to this joined channel.
    MessageChannel(Vec<u8>, Vec<u8>),
}

/// A request, with its parameters as bytes.
pub enum RequestText {
    TakeNick(Seq<u8>),
    Join(Seq<u8>),
    MessageUser(Seq<u8>, Seq<u8>),
    MessageChannel(Seq<u8>, Seq<u8>),
}

impl View for UserRequest {
    type V = RequestText;

    open spec fn view(&self) -> RequestText {
        match self {
            UserRequest::TakeNick(n) => RequestText::TakeNick(n@),
            UserRequest::Join(c) => RequestText::Join(c@),
            UserRequest::MessageUser(n, t) => RequestText::MessageUser(n@, t@),
            UserRequest::MessageChannel(c, t) => RequestText::MessageChannel(c@, t@),
        }
    }
}

/// Whether a user may send a command: a message to a channel needs the
/// channel to be joined.
pub open spec fn user_may_send(c: crate::protocol::commands::CommandText, joined: Seq<Seq<u8>>) -> bool {
    match c {
        crate::protocol::commands::CommandText::Privmsg(true, channel, _) => joined.contains(channel),
        _ => true,
    }
}

/// What a user's command asks of the rest of the server, while the user
/// goes by `nick`: a channel is only joined once a nick is given.
pub open spec fn user_request_spec(c: crate::protocol::commands::CommandText, nick: Option<Seq<u8>>) -> Option<RequestText> {
    match c {
        crate::protocol::commands::CommandText::Nick(n) => Some(RequestText::TakeNick(n)),
        crate::protocol::commands::CommandText::Join(ch) => if nick is Some {
            Some(RequestText::Join(ch))
        } else {
            None
        },
        crate::protocol::commands::CommandText::Privmsg(false, to, text) => Some(RequestText::MessageUser(to, text)),
        crate::protocol::commands::CommandText::Privmsg(true, to, text) => Some(RequestText::MessageChannel(to, text)),
        _ => None,
    }
}

/// Whether a channel is among the joined ones.
fn joined_contains(joined: &Vec<Vec<u8>>, channel: &Vec<u8>) -> (b: bool)
    ensures
        b == joined@.map_values(|c: Vec<u8>| c@).contains(channel@),
{
    let ghost names = joined@.map_values(|c: Vec<u8>| c@);
    let mut i: usize = 0;
    while i < joined.len()
        invariant
            i <= joined.len(),
            names == joined@.map_values(|c: Vec<u8>| c@),
            forall|j: int| 0 <= j < i ==> names[j] != channel@,
        decreases joined.len() - i,
    {
        if bytes_equal(&joined[i], channel) {
            assert(names[i as int] == channel@);
            return true;
        }
        i = i + 1;
    }
    proof {
        if names.contains(channel@) {
            let j = choose|j: int| 0 <= j < names.len() && names[j] == channel@;
            assert(names[j] != channel@);
        }
    }
    false
}

fn bytes_equal(a: &Vec<u8>, b: &Vec<u8>) -> (r: bool)
    ensures
        r == (a@ == b@),
{
    if a.len() != b.len() {
        return false;
    }
    let mut i: usize = 0;
    while i < a.len()
        invariant
            a@.len() == b@.len(),
            i <= a.len(),
            forall|j: int| 0 <= j < i ==> a@[j] == b@[j],
        decreases a.len() - i,
    {
        if a[i] != b[i] {
            return false;
        }
        i = i + 1;
    }
    assert(a@ =~= b@);
    true
}

/// Whether a user may send a command, as `Session::handle` needs.
pub fn may_send(command: &Command, joined: &Vec<Vec<u8>>) -> (b: bool)
    ensures
        b == user_may_send(command@, joined@.map_values(|c: Vec<u8>| c@)),
{
    match command {
        Command::Privmsg(c) => match &c.receiver {
            Receiver::Channel(ch) => joined_contains(joined, &ch.0),
            Receiver::User(_) => true,
        },
        _ => true,
    }
}

/// What handling a command gives: the replies to write back to the user,
/// and what to ask of the rest of the server.
pub struct Handled {
    pub replies: Vec<Reply>,
    pub request: Option<UserRequest>,
}

pub open spec fn request_text(r: Option<UserRequest>) -> Option<RequestText> {
    match r {
        Some(x) => Some(x@),
        None => None,
    }
}

/// The seconds without a command after which a session is dropped.
pub const SESSION_TIMEOUT_SECS: i64 = 240;

/// The state a session keeps for its user.
pub struct Session {
    /// The version the server reports.
    pub version: String,
    /// The nick the user gave, if any.
    pub nick: Option<Vec<u8>>,
    /// The channels the user is in.
    pub channels: Vec<Vec<u8>>,
    /// When the user last sent a command, in seconds.
    pub last_active: i64,
}

impl Session {
    pub open spec fn nick_text(&self) -> Option<Seq<u8>> {
        match self.nick {
            Some(n) => Some(n@),
            None => None,
        }
    }

    pub open spec fn joined_names(&self) -> Seq<Seq<u8>> {
        self.channels@.map_values(|c: Vec<u8>| c@)
    }

    /// A session that has just connected at `now`, with no nick and no
    /// channels.
    pub fn new(version: String, now: i64) -> (s: Self)
        ensures
            s.version@ == version@,
            s.nick is None,
            s.joined_names().len() == 0,
            s.last_active == now,
    {
        Session { version, nick: None, channels: Vec::new(), last_active: now }
    }

    /// Records that the user is now in `channel`, once.
    pub fn channel_joined(&mut self, channel: Vec<u8>)
        ensures
            final(self).joined_names() == (if old(self).joined_names().contains(channel@) {
                old(self).joined_names()
            } else {
                old(self).joined_names().push(channel@)
            }),
            final(self).nick == old(self).nick,
            final(self).version == old(self).version,
            final(self).last_active == old(self).last_active,
    {
        if !joined_contains(&self.channels, &channel) {
            let ghost before = self.joined_names();
            self.channels.push(channel);
            assert(self.joined_names() =~= before.push(channel@));
        }
    }

    /// Whether the user has been silent for longer than the session allows
    /// at `now`. A ping is sent every round either way.
    pub fn timed_out(&self, now: i64) -> (b: bool)
        ensures
            b == (now - self.last_active > SESSION_TIMEOUT_SECS),
    {
        (now as i128) - (self.last_active as i128) > (SESSION_TIMEOUT_SECS as i128)
    }

    /// Takes a command from the user at `now`: the session notes the time
    /// and the nick, and the result holds the replies and the request that
    /// the command gives. A `JOIN` before any nick is dropped here; the
    /// `JoinCommand` handler itself always asks to join.
    pub fn handle(&mut self, command: Command, now: i64) -> (h: Handled)
        requires
            user_may_send(command@, old(self).joined_names()),
        ensures
            reply_texts(h.replies@) == session_replies_spec(command@, old(self).version@),
            request_text(h.request) == user_request_spec(command@, old(self).nick_text()),
            final(self).nick_text() == (match command@ {
                crate::protocol::commands::CommandText::Nick(n) => Some(n),
                _ => old(self).nick_text(),
            }),
            final(self).joined_names() == old(self).joined_names(),
            final(self).version == old(self).version,
            final(self).last_active == now,
    {
        self.last_active = now;
        match command {
            Command::Nick(c) => self.handle_cmd(c),
            Command::Join(c) => if self.nick.is_some() {
                self.handle_cmd(c)
            } else {
                let replies: Vec<Reply> = Vec::new();
                assert(reply_texts(replies@) =~= Seq::<ReplyText>::empty());
                Handled { replies, request: None }
            },
            Command::Mode(c) => self.handle_cmd(c),
            Command::Privmsg(c) => self.handle_cmd(c),
            Command::Motd => {
                let mut replies: Vec<Reply> = Vec::new();
                assert(reply_texts(replies@) =~= Seq::<ReplyText>::empty());
                motd_replies(&mut replies);
                assert(reply_texts(replies@) =~= message_of_the_day());
                Handled { replies, request: None }
            },
            Command::Version => {
                let mut replies: Vec<Reply> = Vec::new();
                assert(reply_texts(replies@) =~= Seq::<ReplyText>::empty());
                version_replies(&mut replies, self.version.as_str());
                assert(reply_texts(replies@) =~= seq![version_reply(self.version@)]);
                Handled { replies, request: None }
            },
            _ => {
                let replies: Vec<Reply> = Vec::new();
                assert(reply_texts(replies@) =~= Seq::<ReplyText>::empty());
                Handled { replies, request: None }
            },
        }
    }
}

/// Handles one kind of command from the user of a session.
pub trait CommandHandler<T> {
    /// Whether the session can take `command` as it stands.
    spec fn accepts(&self, command: T) -> bool;

    /// Updates the session for `command`, and gives the replies to write
    /// back and what to ask of the rest of the server.
    fn handle_cmd(&mut self, command: T) -> Handled
        requires
            old(self).accepts(command),
    ;
}

impl CommandHandler<NickCommand> for Session {
    open spec fn accepts(&self, command: NickCommand) -> bool {
        true
    }

    /// Takes the nick, greets the user and asks to log in with it.
    fn handle_cmd(&mut self, command: NickCommand) -> (h: Handled)
        ensures
            final(self).nick_text() == Some(command.nick.0@),
            final(self).joined_names() == old(self).joined_names(),
            final(self).version == old(self).version,
            final(self).last_active == old(self).last_active,
            reply_texts(h.replies@) == greeting(),
            request_text(h.request) == Some(RequestText::TakeNick(command.nick.0@)),
    {
        let nick = command.nick.0;
        self.nick = Some(nick.clone());
        let mut replies: Vec<Reply> = Vec::new();
        assert(reply_texts(replies@) =~= Seq::<ReplyText>::empty());
        greeting_replies(&mut replies);
        assert(reply_texts(replies@) =~= greeting());
        Handled { replies, request: Some(UserRequest::TakeNick(nick)) }
    }
}

impl CommandHandler<JoinCommand> for Session {
    open spec fn accepts(&self, command: JoinCommand) -> bool {
        true
    }

    /// Asks to join the channel; the session learns of the channel once
    /// it has taken the user in.
    fn handle_cmd(&mut self, command: JoinCommand) -> (h: Handled)
        ensures
            *final(self) == *old(self),
            h.replies@.len() == 0,
            request_text(h.request) == Some(RequestText::Join(command.channel.0@)),
    {
        Handled { replies: Vec::new(), request: Some(UserRequest::Join(command.channel.0)) }
    }
}

impl CommandHandler<ModeCommand> for Session {
    open spec fn accepts(&self, command: ModeCommand) -> bool {
        true
    }

    /// Answers with the mode that was asked for.
    fn handle_cmd(&mut self, command: ModeCommand) -> (h: Handled)
        ensures
            *final(self) == *old(self),
            reply_texts(h.replies@) == seq![ReplyText::RplUmodeIs(command.mode.0@)],
            h.request is None,
    {
        let mut replies: Vec<Reply> = Vec::new();
        assert(reply_texts(replies@) =~= Seq::<ReplyText>::empty());
        push_reply(&mut replies, Reply::RplUmodeIs(Mode(command.mode.0)));
        assert(reply_texts(replies@) =~= seq![ReplyText::RplUmodeIs(command.mode.0@)]);
        Handled { replies, request: None }
    }
}

impl CommandHandler<PrivmsgCommand> for Session {
    /// A message to a channel needs the channel to be joined.
    open spec fn accepts(&self, command: PrivmsgCommand) -> bool {
        match command.receiver {
            Receiver::Channel(ch) => self.joined_names().contains(ch.0@),
            Receiver::User(_) => true,
        }
    }

    /// Passes the message on to its receiver.
    fn handle_cmd(&mut self, command: PrivmsgCommand) -> (h: Handled)
        ensures
            *final(self) == *old(self),
            h.replies@.len() == 0,
            request_text(h.request) == Some(
                match command.receiver {
                    Receiver::User(n) => RequestText::MessageUser(n.0@, command.free_text.0@),
                    Receiver::Channel(ch) => RequestText::MessageChannel(ch.0@, command.free_text.0@),
                },
            ),
    {
        let request = match command.receiver {
            Receiver::User(n) => UserRequest::MessageUser(n.0, command.free_text.0),
            Receiver::Channel(ch) => UserRequest::MessageChannel(ch.0, command.free_text.0),
        };
        Handled { replies: Vec::new(), request: Some(request) }
    }
}

/// `:<nick> JOIN <channel>`, telling a member that someone joined.
pub fn join_notice(nick: Vec<u8>, channel: Vec<u8>) -> (m: ServerMessage)
    ensures
        m matches ServerMessage::Command(Source::User(n), Command::Join(j)) && n.0@ == nick@ && j.channel.0@
            == channel@,
{
    ServerMessage::Command(Source::User(Nick(nick)), Command::Join(JoinCommand { channel: Channel(channel) }))
}

/// `:<from> PRIVMSG <channel> <text>`, a channel message as a member gets
/// it.
pub fn channel_message_notice(from: Vec<u8>, channel: Vec<u8>, text: Vec<u8>) -> (m: ServerMessage)
    ensures
        m matches ServerMessage::Command(Source::User(n), Command::Privmsg(p)) && n.0@ == from@
            && p.receiver == Receiver::Channel(Channel(channel)) && p.free_text.0@ == text@,
{
    ServerMessage::Command(
        Source::User(Nick(from)),
        Command::Privmsg(PrivmsgCommand { receiver: Receiver::Channel(Channel(channel)), free_text: FreeText(text) }),
    )
}

/// `:<from> PRIVMSG <nick> <text>`, a private message as its recipient gets
/// it.
pub fn user_message_notice(from: Vec<u8>, to: Vec<u8>, text: Vec<u8>) -> (m: ServerMessage)
    ensures
        m matches ServerMessage::Command(Source::User(n), Command::Privmsg(p)) && n.0@ == from@
            && p.receiver == Receiver::User(Nick(to)) && p.free_text.0@ == text@,
{
    ServerMessage::Command(
        Source::User(Nick(from)),
        Command::Privmsg(PrivmsgCommand { receiver: Receiver::User(Nick(to)), free_text: FreeText(text) }),
    )
}

/// The members a channel passes a message on to: every member but the one
/// to skip, in order.
pub fn broadcast_targets(members: &Vec<u128>, skip: Option<u128>) -> (r: Vec<u128>)
    ensures
        r@ == members@.filter(|m: u128| skip != Some(m)),
{
    let mut out: Vec<u128> = Vec::new();
    let mut i: usize = 0;
    while i < members.len()
        invariant
            i <= members.len(),
            out@ == members@.take(i as int).filter(|m: u128| skip != Some(m)),
        decreases members.len() - i,
    {
        let m = members[i];
        proof {
            reveal(Seq::filter);
            assert(members@.take(i + 1).drop_last() =~= members@.take(i as int));
        }
        let keep = match skip {
            Some(s) => s != m,
            None => true,
        };
        if keep {
            out.push(m);
        }
        i = i + 1;
    }
    assert(members@.take(members.len() as int) =~= members@);
    out
}

} // verus!
