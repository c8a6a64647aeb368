//! The commands a client sends on the line protocol, and their grammar.
//!
//! A line is an optional `:source ` prefix, a command name (any case) and
//! its parameters, each preceded by one space. Most parameters run to the
//! next space; free text starts with `:` and runs to the end of the line; a
//! receiver is a channel when it starts with `#` and a nick otherwise.
//! Anything after the last parameter is ignored.

use vstd::prelude::*;

use crate::protocol::primitives::{
    is_letter, valid_nick, Channel, FreeText, HostName, Mode, Nick, RealName, Receiver, ServerName,
    Username, ValidatingParser,
};

verus! {

/// Why a line could not be read.
#[derive(Copy, Clone, Debug, PartialEq, Eq, Structural)]
pub enum ParseError {
    /// A parameter is not preceded by a space.
    MissingSpace,
    /// Free text does not start with `:`.
    MissingColon,
    /// A nick is not acceptable.
    InvalidNick,
}

/// The commands the grammar knows.
#[derive(Copy, Clone, Debug, PartialEq, Eq, Structural)]
pub enum CommandName {
    User,
    Nick,
    Motd,
    Version,
    Help,
    Users,
    Time,
    Pong,
    Ping,
    List,
    Mode,
    Whois,
    Userhost,
    Userip,
    Join,
    Privmsg,
}

/// The name a command is written with, in upper case.
pub open spec fn name_bytes(n: CommandName) -> Seq<u8> {
    match n {
        CommandName::User => seq![85u8, 83, 69, 82],
        CommandName::Nick => seq![78u8, 73, 67, 75],
        CommandName::Motd => seq![77u8, 79, 84, 68],
        CommandName::Version => seq![86u8, 69, 82, 83, 73, 79, 78],
        CommandName::Help => seq![72u8, 69, 76, 80],
        CommandName::Users => seq![85u8, 83, 69, 82, 83],
        CommandName::Time => seq![84u8, 73, 77, 69],
        CommandName::Pong => seq![80u8, 79, 78, 71],
        CommandName::Ping => seq![80u8, 73, 78, 71],
        CommandName::List => seq![76u8, 73, 83, 84],
        CommandName::Mode => seq![77u8, 79, 68, 69],
        CommandName::Whois => seq![87u8, 72, 79, 73, 83],
        CommandName::Userhost => seq![85u8, 83, 69, 82, 72, 79, 83, 84],
        CommandName::Userip => seq![85u8, 83, 69, 82, 73, 80],
        CommandName::Join => seq![74u8, 79, 73, 78],
        CommandName::Privmsg => seq![80u8, 82, 73, 86, 77, 83, 71],
    }
}

/// The command with this upper case name, if any.
pub open spec fn command_named(word: Seq<u8>) -> Option<CommandName> {
    if word == name_bytes(CommandName::User) {
        Some(CommandName::User)
    } else if word == name_bytes(CommandName::Nick) {
        Some(CommandName::Nick)
    } else if word == name_bytes(CommandName::Motd) {
        Some(CommandName::Motd)
    } else if word == name_bytes(CommandName::Version) {
        Some(CommandName::Version)
    } else if word == name_bytes(CommandName::Help) {
        Some(CommandName::Help)
    } else if word == name_bytes(CommandName::Users) {
        Some(CommandName::Users)
    } else if word == name_bytes(CommandName::Time) {
        Some(CommandName::Time)
    } else if word == name_bytes(CommandName::Pong) {
        Some(CommandName::Pong)
    } else if word == name_bytes(CommandName::Ping) {
        Some(CommandName::Ping)
    } else if word == name_bytes(CommandName::List) {
        Some(CommandName::List)
    } else if word == name_bytes(CommandName::Mode) {
        Some(CommandName::Mode)
    } else if word == name_bytes(CommandName::Whois) {
        Some(CommandName::Whois)
    } else if word == name_bytes(CommandName::Userhost) {
        Some(CommandName::Userhost)
    } else if word == name_bytes(CommandName::Userip) {
        Some(CommandName::Userip)
    } else if word == name_bytes(CommandName::Join) {
        Some(CommandName::Join)
    } else if word == name_bytes(CommandName::Privmsg) {
        Some(CommandName::Privmsg)
    } else {
        None
    }
}

/// A byte in upper case, as `to_ascii_uppercase` gives it.
pub open spec fn upper(c: u8) -> u8 {
    if 97 <= c <= 122 {
        (c - 32) as u8
    } else {
        c
    }
}

/// The first position at or after `from` holding a space, or the end.
pub open spec fn space_from(s: Seq<u8>, from: int) -> int
    decreases s.len() - from,
{
    if from >= s.len() {
        s.len() as int
    } else if s[from] == 32 {
        from
    } else {
        space_from(s, from + 1)
    }
}

/// The line without its `:source ` prefix, where it has one.
pub open spec fn without_source(line: Seq<u8>) -> Seq<u8> {
    if line.len() > 0 && line[0] == 58 && space_from(line, 1) < line.len() {
        line.subrange(space_from(line, 1) + 1, line.len() as int)
    } else {
        line
    }
}

/// The parameter after the space at `p`: where it starts and ends.
pub open spec fn word_at(s: Seq<u8>, p: int) -> Result<(int, int), ParseError> {
    if 0 <= p < s.len() && s[p] == 32 {
        Ok((p + 1, space_from(s, p + 1)))
    } else {
        Err(ParseError::MissingSpace)
    }
}

/// A nick parameter after the space at `p`.
pub open spec fn nick_at(s: Seq<u8>, p: int) -> Result<(int, int), ParseError> {
    match word_at(s, p) {
        Ok((a, b)) => if valid_nick(s.subrange(a, b)) {
            Ok((a, b))
        } else {
            Err(ParseError::InvalidNick)
        },
        Err(e) => Err(e),
    }
}

/// A command with its parameters as bytes.
pub enum CommandText {
    User(Seq<u8>, Seq<u8>, Seq<u8>, Seq<u8>),
    Nick(Seq<u8>),
    Motd,
    Version,
    Help,
    Users,
    Time,
    Pong(Seq<u8>),
    Ping(Seq<u8>),
    List,
    Mode(Seq<u8>, Seq<u8>),
    Whois(Seq<u8>),
    Userhost(Seq<u8>),
    Userip(Seq<u8>),
    Join(Seq<u8>),
    /// To a user (`false`) or a channel (`true`), and the text.
    Privmsg(bool, Seq<u8>, Seq<u8>),
}

/// The parameters of a command named `n`, starting at `p`.
pub open spec fn params_spec(s: Seq<u8>, p: int, n: CommandName) -> Result<CommandText, ParseError> {
    match n {
        CommandName::User => match word_at(s, p) {
            Err(e) => Err(e),
            Ok((a1, b1)) => match word_at(s, b1) {
                Err(e) => Err(e),
                Ok((a2, b2)) => match word_at(s, b2) {
                    Err(e) => Err(e),
                    Ok((a3, b3)) => match word_at(s, b3) {
                        Err(e) => Err(e),
                        Ok((a4, b4)) => Ok(
                            CommandText::User(
                                s.subrange(a1, b1),
                                s.subrange(a2, b2),
                                s.subrange(a3, b3),
                                s.subrange(a4, b4),
                            ),
                        ),
                    },
                },
            },
        },
        CommandName::Nick => match nick_at(s, p) {
            Err(e) => Err(e),
            Ok((a, b)) => Ok(CommandText::Nick(s.subrange(a, b))),
        },
        CommandName::Motd => Ok(CommandText::Motd),
        CommandName::Version => Ok(CommandText::Version),
        CommandName::Help => Ok(CommandText::Help),
        CommandName::Users => Ok(CommandText::Users),
        CommandName::Time => Ok(CommandText::Time),
        CommandName::Pong => match word_at(s, p) {
            Err(e) => Err(e),
            Ok((a, b)) => Ok(CommandText::Pong(s.subrange(a, b))),
        },
        CommandName::Ping => match word_at(s, p) {
            Err(e) => Err(e),
            Ok((a, b)) => Ok(CommandText::Ping(s.subrange(a, b))),
        },
        CommandName::List => Ok(CommandText::List),
        CommandName::Mode => match nick_at(s, p) {
            Err(e) => Err(e),
            Ok((a1, b1)) => match word_at(s, b1) {
                Err(e) => Err(e),
                Ok((a2, b2)) => Ok(CommandText::Mode(s.subrange(a1, b1), s.subrange(a2, b2))),
            },
        },
        CommandName::Whois => match nick_at(s, p) {
            Err(e) => Err(e),
            Ok((a, b)) => Ok(CommandText::Whois(s.subrange(a, b))),
        },
        CommandName::Userhost => match nick_at(s, p) {
            Err(e) => Err(e),
            Ok((a, b)) => Ok(CommandText::Userhost(s.subrange(a, b))),
        },
        CommandName::Userip => match nick_at(s, p) {
            Err(e) => Err(e),
            Ok((a, b)) => Ok(CommandText::Userip(s.subrange(a, b))),
        },
        CommandName::Join => match word_at(s, p) {
            Err(e) => Err(e),
            Ok((a, b)) => Ok(CommandText::Join(s.subrange(a, b))),
        },
        CommandName::Privmsg => {
            let to_channel = 0 <= p + 1 < s.len() && s[p + 1] == 35;
            let receiver = if to_channel {
                word_at(s, p)
            } else {
                nick_at(s, p)
            };
            match receiver {
                Err(e) => Err(e),
                Ok((a, b)) => if !(b < s.len() && s[b] == 32) {
                    Err(ParseError::MissingSpace)
                } else if !(b + 1 < s.len() && s[b + 1] == 58) {
                    Err(ParseError::MissingColon)
                } else {
                    Ok(CommandText::Privmsg(to_channel, s.subrange(a, b), s.subrange(b + 2, s.len() as int)))
                },
            }
        },
    }
}

/// How a line reads: a known command, `None` for an unknown command name,
/// or the reason it could not be read.
pub open spec fn parse_spec(line: Seq<u8>) -> Result<Option<CommandText>, ParseError> {
    let s = without_source(line);
    let k = space_from(s, 0);
    match command_named(s.subrange(0, k).map_values(|c: u8| upper(c))) {
        None => Ok(None),
        Some(n) => match params_spec(s, k, n) {
            Ok(c) => Ok(Some(c)),
            Err(e) => Err(e),
        },
    }
}

#[derive(Debug)]
pub struct UserCommand {
    pub username: Username,
    pub host_name: HostName,
    pub server_name: ServerName,
    pub real_name: RealName,
}

#[derive(Debug)]
pub struct NickCommand {
    pub nick: Nick,
}

#[derive(Debug)]
pub struct PongCommand {
    pub server_name: ServerName,
}

#[derive(Debug)]
pub struct PingCommand {
    pub server_name: ServerName,
}

#[derive(Debug)]
pub struct ModeCommand {
    pub nick: Nick,
    pub mode: Mode,
}

#[derive(Debug)]
pub struct WhoisCommand {
    pub nick: Nick,
}

#[derive(Debug)]
pub struct UserhostCommand {
    pub nick: Nick,
}

#[derive(Debug)]
pub struct UseripCommand {
    pub nick: Nick,
}

#[derive(Debug)]
pub struct JoinCommand {
    pub channel: Channel,
}

#[derive(Debug)]
pub struct PrivmsgCommand {
    pub receiver: Receiver,
    pub free_text: FreeText,
}

/// A command from a client.
#[derive(Debug)]
pub enum Command {
    User(UserCommand),
    Nick(NickCommand),
    Motd,
    Version,
    Help,
    Users,
    Time,
    Pong(PongCommand),
    Ping(PingCommand),
    List,
    Mode(ModeCommand),
    Whois(WhoisCommand),
    Userhost(UserhostCommand),
    Userip(UseripCommand),
    Join(JoinCommand),
    Privmsg(PrivmsgCommand),
}

impl View for Command {
    type V = CommandText;

    open spec fn view(&self) -> CommandText {
        match self {
            Command::User(c) => CommandText::User(c.username.0@, c.host_name.0@, c.server_name.0@, c.real_name.0@),
            Command::Nick(c) => CommandText::Nick(c.nick.0@),
            Command::Motd => CommandText::Motd,
            Command::Version => CommandText::Version,
            Command::Help => CommandText::Help,
            Command::Users => CommandText::Users,
            Command::Time => CommandText::Time,
            Command::Pong(c) => CommandText::Pong(c.server_name.0@),
            Command::Ping(c) => CommandText::Ping(c.server_name.0@),
            Command::List => CommandText::List,
            Command::Mode(c) => CommandText::Mode(c.nick.0@, c.mode.0@),
            Command::Whois(c) => CommandText::Whois(c.nick.0@),
            Command::Userhost(c) => CommandText::Userhost(c.nick.0@),
            Command::Userip(c) => CommandText::Userip(c.nick.0@),
            Command::Join(c) => CommandText::Join(c.channel.0@),
            Command::Privmsg(c) => match c.receiver {
                Receiver::User(n) => CommandText::Privmsg(false, n.0@, c.free_text.0@),
                Receiver::Channel(ch) => CommandText::Privmsg(true, ch.0@, c.free_text.0@),
            },
        }
    }
}

/// The view of a parse outcome.
pub open spec fn parsed(r: Result<Option<Command>, ParseError>) -> Result<Option<CommandText>, ParseError> {
    match r {
        Ok(Some(c)) => Ok(Some(c@)),
        Ok(None) => Ok(None),
        Err(e) => Err(e),
    }
}

/// The first space at or after `from`, or the end.
pub(crate) fn find_space(s: &Vec<u8>, from: usize) -> (k: usize)
    requires
        from <= s.len(),
    ensures
        k == space_from(s@, from as int),
        from <= k <= s.len(),
{
    let mut k = from;
    while k < s.len() && s[k] != 32
        invariant
            from <= k <= s.len(),
            space_from(s@, from as int) == space_from(s@, k as int),
        decreases s.len() - k,
    {
        k = k + 1;
    }
    k
}

/// The bytes `v[from..to]`.
pub(crate) fn slice_bytes(v: &Vec<u8>, from: usize, to: usize) -> (r: Vec<u8>)
    requires
        from <= to <= v.len(),
    ensures
        r@ == v@.subrange(from as int, to as int),
{
    let mut r: Vec<u8> = Vec::new();
    let mut i = from;
    while i < to
        invariant
            from <= i <= to <= v.len(),
            r@ == v@.subrange(from as int, i as int),
        decreases to - i,
    {
        r.push(v[i]);
        assert(v@.subrange(from as int, i + 1) =~= v@.subrange(from as int, i as int).push(v@[i as int]));
        i = i + 1;
    }
    r
}

/// The first space at or after `from` lies between `from` and the end, and
/// is a space where it is not the end.
pub proof fn lemma_space_from_bounds(s: Seq<u8>, from: int)
    requires
        0 <= from <= s.len(),
    ensures
        from <= space_from(s, from) <= s.len(),
        space_from(s, from) < s.len() ==> s[space_from(s, from)] == 32,
    decreases s.len() - from,
{
    if from < s.len() && s[from] != 32 {
        lemma_space_from_bounds(s, from + 1);
    }
}

/// Whether a word holds no space.
pub open spec fn has_no_space(w: Seq<u8>) -> bool {
    forall|i: int| 0 <= i < w.len() ==> w[i] != 32
}

/// Past a run without spaces, the first space is the one after the run.
proof fn lemma_space_from_run(s: Seq<u8>, from: int, to: int)
    requires
        0 <= from <= to <= s.len(),
        forall|i: int| from <= i < to ==> s[i] != 32,
    ensures
        space_from(s, from) == space_from(s, to),
    decreases to - from,
{
    if from < to {
        lemma_space_from_run(s, from + 1, to);
    }
}

/// A `USER` line whose four parameters are words without spaces reads as
/// `USER` with those words in the order they were written: the user name,
/// then the host name, then the server name, then the real name.
pub proof fn lemma_user_fields_in_order(w1: Seq<u8>, w2: Seq<u8>, w3: Seq<u8>, w4: Seq<u8>)
    requires
        has_no_space(w1),
        has_no_space(w2),
        has_no_space(w3),
        has_no_space(w4),
    ensures
        parse_spec(
            name_bytes(CommandName::User) + seq![32u8] + w1 + seq![32u8] + w2 + seq![32u8] + w3 + seq![32u8] + w4,
        ) == Ok::<Option<CommandText>, ParseError>(Some(CommandText::User(w1, w2, w3, w4))),
{
    let sp = seq![32u8];
    let p1 = name_bytes(CommandName::User) + sp;
    let p2 = p1 + w1;
    let p3 = p2 + sp;
    let p4 = p3 + w2;
    let p5 = p4 + sp;
    let p6 = p5 + w3;
    let p7 = p6 + sp;
    let line = p7 + w4;
    assert(line =~= name_bytes(CommandName::User) + seq![32u8] + w1 + seq![32u8] + w2 + seq![32u8] + w3
        + seq![32u8] + w4);
    let b1 = p2.len() as int;
    let b2 = p4.len() as int;
    let b3 = p6.len() as int;
    let end = line.len() as int;
    assert(line[0] == 85u8);
    assert(without_source(line) == line);
    assert forall|i: int| 0 <= i < 4 implies line[i] != 32 by {
        assert(line[i] == name_bytes(CommandName::User)[i]);
    }
    assert(line[4] == 32);
    lemma_space_from_run(line, 0, 4);
    assert(line.subrange(0, 4).map_values(|c: u8| upper(c)) =~= name_bytes(CommandName::User));
    assert forall|i: int| 5 <= i < b1 implies line[i] != 32 by {
        assert(line[i] == w1[i - 5]);
    }
    assert(line[b1] == 32);
    lemma_space_from_run(line, 5, b1);
    assert forall|i: int| b1 + 1 <= i < b2 implies line[i] != 32 by {
        assert(line[i] == w2[i - b1 - 1]);
    }
    assert(line[b2] == 32);
    lemma_space_from_run(line, b1 + 1, b2);
    assert forall|i: int| b2 + 1 <= i < b3 implies line[i] != 32 by {
        assert(line[i] == w3[i - b2 - 1]);
    }
    assert(line[b3] == 32);
    lemma_space_from_run(line, b2 + 1, b3);
    assert forall|i: int| b3 + 1 <= i < end implies line[i] != 32 by {
        assert(line[i] == w4[i - b3 - 1]);
    }
    lemma_space_from_run(line, b3 + 1, end);
    assert(line.subrange(5, b1) =~= w1);
    assert(line.subrange(b1 + 1, b2) =~= w2);
    assert(line.subrange(b2 + 1, b3) =~= w3);
    assert(line.subrange(b3 + 1, end) =~= w4);
}

/// The parameter after the space at `p`.
fn word(s: &Vec<u8>, p: usize) -> (r: Result<(usize, usize), ParseError>)
    requires
        p <= s.len(),
    ensures
        match word_at(s@, p as int) {
            Ok((a, b)) => r matches Ok((x, y)) && x == a && y == b && x <= y <= s.len(),
            Err(e) => r == Err::<(usize, usize), ParseError>(e),
        },
{
    if p < s.len() && s[p] == 32 {
        let end = find_space(s, p + 1);
        Ok((p + 1, end))
    } else {
        Err(ParseError::MissingSpace)
    }
}

/// A nick parameter after the space at `p`.
fn nick_word(s: &Vec<u8>, p: usize) -> (r: Result<(usize, usize), ParseError>)
    requires
        p <= s.len(),
    ensures
        match nick_at(s@, p as int) {
            Ok((a, b)) => r matches Ok((x, y)) && x == a && y == b && x <= y <= s.len(),
            Err(e) => r == Err::<(usize, usize), ParseError>(e),
        },
{
    match word(s, p) {
        Ok((a, b)) => {
            let w = slice_bytes(s, a, b);
            if Nick::validate(w.as_slice()) {
                Ok((a, b))
            } else {
                Err(ParseError::InvalidNick)
            }
        },
        Err(e) => Err(e),
    }
}

/// Upper cases bytes as `to_ascii_uppercase` does.
fn upper_bytes(v: &Vec<u8>, to: usize) -> (r: Vec<u8>)
    requires
        to <= v.len(),
    ensures
        r@ == v@.subrange(0, to as int).map_values(|c: u8| upper(c)),
{
    let mut r: Vec<u8> = Vec::new();
    let mut i: usize = 0;
    while i < to
        invariant
            i <= to <= v.len(),
            r@ == v@.subrange(0, i as int).map_values(|c: u8| upper(c)),
        decreases to - i,
    {
        let c = v[i];
        let u = if 97 <= c && c <= 122 {
            c - 32
        } else {
            c
        };
        r.push(u);
        assert(v@.subrange(0, i + 1).map_values(|c: u8| upper(c)) =~= v@.subrange(0, i as int).map_values(
            |c: u8| upper(c),
        ).push(u));
        i = i + 1;
    }
    r
}

/// Whether bytes equal a fixed name.
fn same(v: &Vec<u8>, name: &[u8]) -> (b: bool)
    ensures
        b == (v@ == name@),
{
    if v.len() != name.len() {
        return false;
    }
    let mut i: usize = 0;
    while i < v.len()
        invariant
            v@.len() == name@.len(),
            i <= v.len(),
            forall|j: int| 0 <= j < i ==> v@[j] == name@[j],
        decreases v.len() - i,
    {
        if v[i] != name[i] {
            return false;
        }
        i = i + 1;
    }
    assert(v@ =~= name@);
    true
}

/// Looks an upper case command name up.
fn lookup(word: &Vec<u8>) -> (r: Option<CommandName>)
    ensures
        r == command_named(word@),
{
    let user: [u8; 4] = [85, 83, 69, 82];
    let nick: [u8; 4] = [78, 73, 67, 75];
    let motd: [u8; 4] = [77, 79, 84, 68];
    let version: [u8; 7] = [86, 69, 82, 83, 73, 79, 78];
    let help: [u8; 4] = [72, 69, 76, 80];
    let users: [u8; 5] = [85, 83, 69, 82, 83];
    let time: [u8; 4] = [84, 73, 77, 69];
    let pong: [u8; 4] = [80, 79, 78, 71];
    let ping: [u8; 4] = [80, 73, 78, 71];
    let list: [u8; 4] = [76, 73, 83, 84];
    let mode: [u8; 4] = [77, 79, 68, 69];
    let whois: [u8; 5] = [87, 72, 79, 73, 83];
    let userhost: [u8; 8] = [85, 83, 69, 82, 72, 79, 83, 84];
    let userip: [u8; 6] = [85, 83, 69, 82, 73, 80];
    let join: [u8; 4] = [74, 79, 73, 78];
    let privmsg: [u8; 7] = [80, 82, 73, 86, 77, 83, 71];
    assert(user@ =~= name_bytes(CommandName::User));
    assert(nick@ =~= name_bytes(CommandName::Nick));
    assert(motd@ =~= name_bytes(CommandName::Motd));
    assert(version@ =~= name_bytes(CommandName::Version));
    assert(help@ =~= name_bytes(CommandName::Help));
    assert(users@ =~= name_bytes(CommandName::Users));
    assert(time@ =~= name_bytes(CommandName::Time));
    assert(pong@ =~= name_bytes(CommandName::Pong));
    assert(ping@ =~= name_bytes(CommandName::Ping));
    assert(list@ =~= name_bytes(CommandName::List));
    assert(mode@ =~= name_bytes(CommandName::Mode));
    assert(whois@ =~= name_bytes(CommandName::Whois));
    assert(userhost@ =~= name_bytes(CommandName::Userhost));
    assert(userip@ =~= name_bytes(CommandName::Userip));
    assert(join@ =~= name_bytes(CommandName::Join));
    assert(privmsg@ =~= name_bytes(CommandName::Privmsg));
    if same(word, &user) {
        Some(CommandName::User)
    } else if same(word, &nick) {
        Some(CommandName::Nick)
    } else if same(word, &motd) {
        Some(CommandName::Motd)
    } else if same(word, &version) {
        Some(CommandName::Version)
    } else if same(word, &help) {
        Some(CommandName::Help)
    } else if same(word, &users) {
        Some(CommandName::Users)
    } else if same(word, &time) {
        Some(CommandName::Time)
    } else if same(word, &pong) {
        Some(CommandName::Pong)
    } else if same(word, &ping) {
        Some(CommandName::Ping)
    } else if same(word, &list) {
        Some(CommandName::List)
    } else if same(word, &mode) {
        Some(CommandName::Mode)
    } else if same(word, &whois) {
        Some(CommandName::Whois)
    } else if same(word, &userhost) {
        Some(CommandName::Userhost)
    } else if same(word, &userip) {
        Some(CommandName::Userip)
    } else if same(word, &join) {
        Some(CommandName::Join)
    } else if same(word, &privmsg) {
        Some(CommandName::Privmsg)
    } else {
        None
    }
}

/// The line without its `:source ` prefix.
fn strip_source(line: &Vec<u8>) -> (s: Vec<u8>)
    ensures
        s@ == without_source(line@),
{
    if line.len() > 0 && line[0] == 58 {
        let k = find_space(line, 1);
        if k < line.len() {
            return slice_bytes(line, k + 1, line.len());
        }
    }
    slice_bytes(line, 0, line.len())
}

/// Reads the parameters of a command named `n`, starting at `p`.
#[verifier::rlimit(40)]
fn parse_params(s: &Vec<u8>, p: usize, n: CommandName) -> (r: Result<Command, ParseError>)
    requires
        p <= s.len(),
    ensures
        match params_spec(s@, p as int, n) {
            Ok(c) => r matches Ok(x) && x@ == c,
            Err(e) => r matches Err(x) && x == e,
        },
{
    match n {
        CommandName::User => {
            let (a1, b1) = word(s, p)?;
            let (a2, b2) = word(s, b1)?;
            let (a3, b3) = word(s, b2)?;
            let (a4, b4) = word(s, b3)?;
            Ok(
                Command::User(
                    UserCommand {
                        username: Username(slice_bytes(s, a1, b1)),
                        host_name: HostName(slice_bytes(s, a2, b2)),
                        server_name: ServerName(slice_bytes(s, a3, b3)),
                        real_name: RealName(slice_bytes(s, a4, b4)),
                    },
                ),
            )
        },
        CommandName::Nick => {
            let (a, b) = nick_word(s, p)?;
            Ok(Command::Nick(NickCommand { nick: Nick(slice_bytes(s, a, b)) }))
        },
        CommandName::Motd => Ok(Command::Motd),
        CommandName::Version => Ok(Command::Version),
        CommandName::Help => Ok(Command::Help),
        CommandName::Users => Ok(Command::Users),
        CommandName::Time => Ok(Command::Time),
        CommandName::Pong => {
            let (a, b) = word(s, p)?;
            Ok(Command::Pong(PongCommand { server_name: ServerName(slice_bytes(s, a, b)) }))
        },
        CommandName::Ping => {
            let (a, b) = word(s, p)?;
            Ok(Command::Ping(PingCommand { server_name: ServerName(slice_bytes(s, a, b)) }))
        },
        CommandName::List => Ok(Command::List),
        CommandName::Mode => {
            let (a1, b1) = nick_word(s, p)?;
            let (a2, b2) = word(s, b1)?;
            Ok(Command::Mode(ModeCommand { nick: Nick(slice_bytes(s, a1, b1)), mode: Mode(slice_bytes(s, a2, b2)) }))
        },
        CommandName::Whois => {
            let (a, b) = nick_word(s, p)?;
            Ok(Command::Whois(WhoisCommand { nick: Nick(slice_bytes(s, a, b)) }))
        },
        CommandName::Userhost => {
            let (a, b) = nick_word(s, p)?;
            Ok(Command::Userhost(UserhostCommand { nick: Nick(slice_bytes(s, a, b)) }))
        },
        CommandName::Userip => {
            let (a, b) = nick_word(s, p)?;
            Ok(Command::Userip(UseripCommand { nick: Nick(slice_bytes(s, a, b)) }))
        },
        CommandName::Join => {
            let (a, b) = word(s, p)?;
            Ok(Command::Join(JoinCommand { channel: Channel(slice_bytes(s, a, b)) }))
        },
        CommandName::Privmsg => {
            let to_channel = s.len() > 1 && p < s.len() - 1 && s[p + 1] == 35;
            let (a, b) = if to_channel {
                word(s, p)?
            } else {
                nick_word(s, p)?
            };
            if !(b < s.len() && s[b] == 32) {
                return Err(ParseError::MissingSpace);
            }
            if !(b + 1 < s.len() && s[b + 1] == 58) {
                return Err(ParseError::MissingColon);
            }
            let target = slice_bytes(s, a, b);
            let receiver = if to_channel {
                Receiver::Channel(Channel(target))
            } else {
                Receiver::User(Nick(target))
            };
            Ok(
                Command::Privmsg(
                    PrivmsgCommand { receiver, free_text: FreeText(slice_bytes(s, b + 2, s.len())) },
                ),
            )
        },
    }
}

impl Command {
    /// Reads a command from a line without its CRLF: `Ok(None)` when the
    /// command name is not one the grammar knows.
    pub fn parse(line: &Vec<u8>) -> (r: Result<Option<Command>, ParseError>)
        ensures
            parsed(r) == parse_spec(line@),
    {
        let s = strip_source(line);
        let k = find_space(&s, 0);
        let name = upper_bytes(&s, k);
        match lookup(&name) {
            None => Ok(None),
            Some(n) => match parse_params(&s, k, n) {
                Ok(c) => Ok(Some(c)),
                Err(e) => Err(e),
            },
        }
    }
}

} // verus!
