//! IRC messages as the server builds them: tags, a prefix and a command,
//! which is either a numeric reply or a named command with its arguments.

use vstd::prelude::*;

use crate::SERVER_NAME;

verus! {

pub const RPL_WELCOME: u16 = 1;
pub const RPL_YOURHOST: u16 = 2;
pub const RPL_CREATED: u16 = 3;
pub const RPL_MYINFO: u16 = 4;
pub const RPL_ISUPPORT: u16 = 5;
pub const RPL_LUSERCLIENT: u16 = 251;
pub const RPL_LUSEROP: u16 = 252;
pub const RPL_LUSERCHANNELS: u16 = 254;
pub const RPL_LUSERME: u16 = 255;
pub const RPL_ADMINME: u16 = 256;
pub const RPL_ADMINLOC1: u16 = 257;
pub const RPL_ADMINLOC2: u16 = 258;
pub const RPL_ADMINEMAIL: u16 = 259;
pub const RPL_LOCALUSERS: u16 = 265;
pub const RPL_GLOBALUSERS: u16 = 266;
pub const RPL_AWAY: u16 = 301;
pub const RPL_UNAWAY: u16 = 305;
pub const RPL_NOWAWAY: u16 = 306;
pub const RPL_WHOISUSER: u16 = 311;
pub const RPL_WHOISSERVER: u16 = 312;
pub const RPL_ENDOFWHO: u16 = 315;
pub const RPL_WHOISIDLE: u16 = 317;
pub const RPL_ENDOFWHOIS: u16 = 318;
pub const RPL_WHOISCHANNELS: u16 = 319;
pub const RPL_LISTSTART: u16 = 321;
pub const RPL_LIST: u16 = 322;
pub const RPL_LISTEND: u16 = 323;
pub const RPL_NOTOPIC: u16 = 331;
pub const RPL_TOPIC: u16 = 332;
pub const RPL_TOPICWHOTIME: u16 = 333;
pub const RPL_INVITING: u16 = 341;
pub const RPL_VERSION: u16 = 351;
pub const RPL_WHOREPLY: u16 = 352;
pub const RPL_NAMREPLY: u16 = 353;
pub const RPL_ENDOFNAMES: u16 = 366;
pub const RPL_INFO: u16 = 371;
pub const RPL_MOTD: u16 = 372;
pub const RPL_ENDOFINFO: u16 = 374;
pub const RPL_MOTDSTART: u16 = 375;
pub const RPL_ENDOFMOTD: u16 = 376;
pub const RPL_TIME: u16 = 391;
pub const ERR_NOSUCHNICK: u16 = 401;
pub const ERR_UNKNOWNCOMMAND: u16 = 421;
pub const ERR_NOMOTD: u16 = 422;
pub const ERR_NICKNAMEINUSE: u16 = 433;
pub const ERR_NOTONCHANNEL: u16 = 442;
pub const ERR_USERONCHANNEL: u16 = 443;
pub const ERR_BANNEDFROMCHAN: u16 = 474;
pub const ERR_CHANOPRIVSNEEDED: u16 = 482;
pub const RPL_LOGGEDIN: u16 = 900;
pub const RPL_SASLSUCCESS: u16 = 903;
pub const ERR_SASLFAIL: u16 = 904;
pub const ERR_SASLABORT: u16 = 906;
pub const ERR_SASLALREADY: u16 = 907;
pub const RPL_SASLMECHS: u16 = 908;

/// A message tag: a key and an optional value.
#[derive(Clone, Debug, PartialEq, Eq)]
pub struct Tag {
    pub key: String,
    pub value: Option<String>,
}

/// Who a message comes from: the server, or a user by nick, user name and
/// host.
#[derive(Clone, Debug, PartialEq, Eq)]
pub enum Prefix {
    ServerName(String),
    Nickname(String, String, String),
}

/// A numeric reply with its parameters, or a named command with its
/// arguments.
#[derive(Clone, Debug, PartialEq, Eq)]
pub enum Command {
    Response(u16, Vec<String>),
    Raw(String, Vec<String>),
}

/// One IRC message.
#[derive(Clone, Debug, PartialEq, Eq)]
pub struct Message {
    pub tags: Option<Vec<Tag>>,
    pub prefix: Option<Prefix>,
    pub command: Command,
}

pub struct TagText {
    pub key: Seq<char>,
    pub value: Option<Seq<char>>,
}

pub enum PrefixText {
    ServerName(Seq<char>),
    Nickname(Seq<char>, Seq<char>, Seq<char>),
}

pub enum CommandText {
    Response(u16, Seq<Seq<char>>),
    Raw(Seq<char>, Seq<Seq<char>>),
}

pub struct MessageText {
    pub tags: Option<Seq<TagText>>,
    pub prefix: Option<PrefixText>,
    pub command: CommandText,
}

/// The characters of each string.
pub open spec fn texts(v: Seq<String>) -> Seq<Seq<char>> {
    v.map_values(|s: String| s@)
}

pub open spec fn opt_text(o: Option<String>) -> Option<Seq<char>> {
    match o {
        Some(s) => Some(s@),
        None => None,
    }
}

impl View for Tag {
    type V = TagText;

    open spec fn view(&self) -> TagText {
        TagText { key: self.key@, value: opt_text(self.value) }
    }
}

impl View for Prefix {
    type V = PrefixText;

    open spec fn view(&self) -> PrefixText {
        match self {
            Prefix::ServerName(s) => PrefixText::ServerName(s@),
            Prefix::Nickname(n, u, h) => PrefixText::Nickname(n@, u@, h@),
        }
    }
}

impl View for Command {
    type V = CommandText;

    open spec fn view(&self) -> CommandText {
        match self {
            Command::Response(code, params) => CommandText::Response(*code, texts(params@)),
            Command::Raw(name, args) => CommandText::Raw(name@, texts(args@)),
        }
    }
}

impl View for Message {
    type V = MessageText;

    open spec fn view(&self) -> MessageText {
        MessageText {
            tags: match self.tags {
                Some(t) => Some(t@.map_values(|x: Tag| x@)),
                None => None,
            },
            prefix: match self.prefix {
                Some(p) => Some(p@),
                None => None,
            },
            command: self.command@,
        }
    }
}

/// How a prefix is written: the server name, or `nick!user@host` leaving
/// out the parts that are empty.
pub open spec fn prefix_text(p: PrefixText) -> Seq<char> {
    match p {
        PrefixText::ServerName(name) => name,
        PrefixText::Nickname(name, user, host) => if user.len() == 0 && host.len() == 0 {
            name
        } else if host.len() == 0 {
            name + seq!['!'] + user
        } else if user.len() == 0 {
            name + seq!['@'] + host
        } else {
            name + seq!['!'] + user + seq!['@'] + host
        },
    }
}

impl Prefix {
    /// Writes the prefix as it appears on the wire.
    pub fn to_string(&self) -> (s: String)
        ensures
            s@ == prefix_text(self@),
    {
        match self {
            Prefix::ServerName(name) => name.clone(),
            Prefix::Nickname(name, user, host) => {
                let mut s = name.clone();
                if user.as_str().unicode_len() > 0 {
                    crate::text::push_char(&mut s, '!');
                    s.append(user.as_str());
                }
                if host.as_str().unicode_len() > 0 {
                    crate::text::push_char(&mut s, '@');
                    s.append(host.as_str());
                }
                s
            },
        }
    }
}

/// What `irc_proto::Prefix::new_from_str` makes of a text.
pub uninterp spec fn parsed_prefix(s: Seq<char>) -> PrefixText;

/// Reads a prefix with `irc_proto::Prefix::new_from_str`, which splits
/// `nick!user@host` and recognises server names. Claimed: the result
/// depends on the text alone.
#[verifier::external_body]
pub(crate) fn prefix_from_str(s: &str) -> (p: Prefix)
    ensures
        p@ == parsed_prefix(s@),
{
    match irc_proto::Prefix::new_from_str(s) {
        irc_proto::Prefix::ServerName(name) => Prefix::ServerName(name),
        irc_proto::Prefix::Nickname(nick, user, host) => Prefix::Nickname(nick, user, host),
    }
}

/// The texts of a list of messages.
pub open spec fn message_texts(v: Seq<Message>) -> Seq<MessageText> {
    v.map_values(|m: Message| m@)
}

/// A numeric reply from this server.
pub open spec fn server_reply(code: u16, params: Seq<Seq<char>>) -> MessageText {
    MessageText {
        tags: None,
        prefix: Some(PrefixText::ServerName(SERVER_NAME@)),
        command: CommandText::Response(code, params),
    }
}

/// A numeric reply without a prefix.
pub open spec fn bare_reply(code: u16, params: Seq<Seq<char>>) -> MessageText {
    MessageText { tags: None, prefix: None, command: CommandText::Response(code, params) }
}

/// A named command without tags, with the given prefix.
pub open spec fn raw_command(
    prefix: Option<PrefixText>,
    name: Seq<char>,
    args: Seq<Seq<char>>,
) -> MessageText {
    MessageText { tags: None, prefix, command: CommandText::Raw(name, args) }
}

/// An owned copy of a string slice.
pub fn text(s: &str) -> (r: String)
    ensures
        r@ == s@,
{
    String::from_str(s)
}

/// Builds a numeric reply from this server.
pub fn server_message(code: u16, params: Vec<String>) -> (m: Message)
    ensures
        m@ == server_reply(code, texts(params@)),
{
    Message {
        tags: None,
        prefix: Some(Prefix::ServerName(text(SERVER_NAME))),
        command: Command::Response(code, params),
    }
}

/// Builds a numeric reply without a prefix.
pub fn bare_message(code: u16, params: Vec<String>) -> (m: Message)
    ensures
        m@ == bare_reply(code, texts(params@)),
{
    Message { tags: None, prefix: None, command: Command::Response(code, params) }
}

/// Builds a named command with the given prefix.
pub fn raw_message(prefix: Option<Prefix>, name: &str, args: Vec<String>) -> (m: Message)
    ensures
        m@ == raw_command(
            match prefix {
                Some(p) => Some(p@),
                None => None,
            },
            name@,
            texts(args@),
        ),
{
    Message { tags: None, prefix, command: Command::Raw(text(name), args) }
}

/// A vector of one string.
pub fn strings1(a: String) -> (v: Vec<String>)
    ensures
        texts(v@) == seq![a@],
{
    let mut v = Vec::new();
    v.push(a);
    assert(texts(v@) =~= seq![a@]);
    v
}

/// A vector of two strings.
pub fn strings2(a: String, b: String) -> (v: Vec<String>)
    ensures
        texts(v@) == seq![a@, b@],
{
    let mut v = Vec::new();
    v.push(a);
    v.push(b);
    assert(texts(v@) =~= seq![a@, b@]);
    v
}

/// A vector of three strings.
pub fn strings3(a: String, b: String, c: String) -> (v: Vec<String>)
    ensures
        texts(v@) == seq![a@, b@, c@],
{
    let mut v = Vec::new();
    v.push(a);
    v.push(b);
    v.push(c);
    assert(texts(v@) =~= seq![a@, b@, c@]);
    v
}

/// A vector of four strings.
pub fn strings4(a: String, b: String, c: String, d: String) -> (v: Vec<String>)
    ensures
        texts(v@) == seq![a@, b@, c@, d@],
{
    let mut v = Vec::new();
    v.push(a);
    v.push(b);
    v.push(c);
    v.push(d);
    assert(texts(v@) =~= seq![a@, b@, c@, d@]);
    v
}

/// Appends one message to a list.
pub fn push_message(out: &mut Vec<Message>, m: Message)
    ensures
        message_texts(final(out)@) == message_texts(old(out)@).push(m@),
{
    out.push(m);
    assert(message_texts(out@) =~= message_texts(old(out)@).push(m@));
}

/// The decimal digits of a number.
pub open spec fn decimal(n: nat) -> Seq<char>
    decreases n,
{
    if n < 10 {
        seq![digit_char(n)]
    } else {
        decimal(n / 10).push(digit_char(n % 10))
    }
}

pub open spec fn digit_char(d: nat) -> char {
    if d == 0 {
        '0'
    } else if d == 1 {
        '1'
    } else if d == 2 {
        '2'
    } else if d == 3 {
        '3'
    } else if d == 4 {
        '4'
    } else if d == 5 {
        '5'
    } else if d == 6 {
        '6'
    } else if d == 7 {
        '7'
    } else if d == 8 {
        '8'
    } else {
        '9'
    }
}

/// The decimal text of a signed number, with a minus sign when negative.
pub open spec fn signed_decimal(n: int) -> Seq<char> {
    if n < 0 {
        seq!['-'] + decimal((-n) as nat)
    } else {
        decimal(n as nat)
    }
}

fn digit(d: u64) -> (c: char)
    requires
        d < 10,
    ensures
        c == digit_char(d as nat),
{
    if d == 0 {
        '0'
    } else if d == 1 {
        '1'
    } else if d == 2 {
        '2'
    } else if d == 3 {
        '3'
    } else if d == 4 {
        '4'
    } else if d == 5 {
        '5'
    } else if d == 6 {
        '6'
    } else if d == 7 {
        '7'
    } else if d == 8 {
        '8'
    } else {
        '9'
    }
}

/// Writes a number in decimal.
pub fn decimal_string(n: u64) -> (s: String)
    ensures
        s@ == decimal(n as nat),
    decreases n,
{
    if n < 10 {
        let mut s = String::new();
        crate::text::push_char(&mut s, digit(n));
        assert(s@ =~= seq![digit_char(n as nat)]);
        s
    } else {
        let mut s = decimal_string(n / 10);
        crate::text::push_char(&mut s, digit(n % 10));
        s
    }
}

/// Writes a signed number in decimal.
pub fn signed_decimal_string(n: i64) -> (s: String)
    ensures
        s@ == signed_decimal(n as int),
{
    if n < 0 {
        let magnitude: u64 = if n == i64::MIN {
            9223372036854775808u64
        } else {
            (-n) as u64
        };
        let digits = decimal_string(magnitude);
        let mut s = String::new();
        crate::text::push_char(&mut s, '-');
        s.append(digits.as_str());
        assert(s@ =~= seq!['-'] + decimal((-n) as nat));
        s
    } else {
        decimal_string(n as u64)
    }
}

/// Writes a `usize` in decimal.
pub fn usize_string(n: usize) -> (s: String)
    ensures
        s@ == decimal(n as nat),
{
    decimal_string(n as u64)
}

} // verus!
