//! The numeric replies of the line protocol and how a message to a client
//! is written out.

use vstd::prelude::*;
use vstd::string::StringSliceAdditionalSpecFns;

use crate::protocol::commands::{Command, CommandText};
use crate::protocol::primitives::{FreeText, Mode, Nick, Receiver, ServerName};

verus! {

/// Appends bytes.
pub fn push_bytes(dst: &mut Vec<u8>, b: &[u8])
    ensures
        final(dst)@ == old(dst)@ + b@,
{
    let mut i: usize = 0;
    while i < b.len()
        invariant
            i <= b@.len(),
            dst@ == old(dst)@ + b@.subrange(0, i as int),
        decreases b@.len() - i,
    {
        dst.push(b[i]);
        assert(b@.subrange(0, i + 1) =~= b@.subrange(0, i as int).push(b@[i as int]));
        assert(dst@ =~= old(dst)@ + b@.subrange(0, i + 1));
        i = i + 1;
    }
    assert(b@.subrange(0, b@.len() as int) =~= b@);
}

/// Appends the UTF-8 bytes of a text.
pub fn push_str(dst: &mut Vec<u8>, s: &str)
    ensures
        final(dst)@ == old(dst)@ + s.spec_bytes(),
{
    push_bytes(dst, s.as_bytes());
}

/// Who a message to a client comes from.
pub enum Source {
    User(Nick),
    Server,
}

/// A numeric reply.
pub enum Reply {
    RplWelcome,
    RplYourHost,
    RplCreated,
    RplMyInfo,
    RplISupport,
    RplUmodeIs(Mode),
    RplMotdStart(ServerName),
    RplMotd(FreeText),
    RplEndOfMotd,
    /// Version, debug level, server and comment.
    RplVersion(String, String, ServerName, FreeText),
}

/// The numeric code of a reply, as written.
pub open spec fn code_spec(r: Reply) -> Seq<u8> {
    match r {
        Reply::RplWelcome => "001".spec_bytes(),
        Reply::RplYourHost => "002".spec_bytes(),
        Reply::RplCreated => "003".spec_bytes(),
        Reply::RplMyInfo => "004".spec_bytes(),
        Reply::RplISupport => "005".spec_bytes(),
        Reply::RplUmodeIs(_) => "221".spec_bytes(),
        Reply::RplMotdStart(_) => "375".spec_bytes(),
        Reply::RplMotd(_) => "372".spec_bytes(),
        Reply::RplEndOfMotd => "376".spec_bytes(),
        Reply::RplVersion(..) => "351".spec_bytes(),
    }
}

/// The text of a reply after the client's nick.
pub open spec fn reply_text(r: Reply) -> Seq<u8> {
    match r {
        Reply::RplWelcome => ":Welcome to the network jordan!jordan@proper.sick.kid".spec_bytes(),
        Reply::RplYourHost => ":Your host is a sick kid".spec_bytes(),
        Reply::RplCreated => ":This server was created at some point".spec_bytes(),
        Reply::RplMyInfo => ":my.test.server 0.0.1 DOQRSZaghilopsuwz CFILMPQSbcefgijklmnopqrstuvz bkloveqjfI".spec_bytes(),
        Reply::RplISupport => "D :are supported by this server".spec_bytes(),
        Reply::RplUmodeIs(m) => m.0@,
        Reply::RplMotdStart(s) => ":- ".spec_bytes() + s.0@ + " Message of the day -".spec_bytes(),
        Reply::RplMotd(t) => ":- ".spec_bytes() + t.0@,
        Reply::RplEndOfMotd => ":End of /MOTD command".spec_bytes(),
        Reply::RplVersion(v, d, s, t) => utf8_of(v@) + ".".spec_bytes() + utf8_of(d@) + " ".spec_bytes() + s.0@
            + " :".spec_bytes() + t.0@,
    }
}

/// The UTF-8 bytes of a text.
pub open spec fn utf8_of(s: Seq<char>) -> Seq<u8> {
    vstd::utf8::encode_utf8(s)
}

impl Reply {
    /// The numeric code.
    pub fn code(&self) -> (s: &'static str)
        ensures
            s.spec_bytes() == code_spec(*self),
    {
        match self {
            Reply::RplWelcome => "001",
            Reply::RplYourHost => "002",
            Reply::RplCreated => "003",
            Reply::RplMyInfo => "004",
            Reply::RplISupport => "005",
            Reply::RplUmodeIs(_) => "221",
            Reply::RplMotdStart(_) => "375",
            Reply::RplMotd(_) => "372",
            Reply::RplEndOfMotd => "376",
            Reply::RplVersion(..) => "351",
        }
    }

    /// Writes the text of the reply.
    pub fn write_text(&self, dst: &mut Vec<u8>)
        ensures
            final(dst)@ == old(dst)@ + reply_text(*self),
    {
        match self {
            Reply::RplWelcome => push_str(dst, ":Welcome to the network jordan!jordan@proper.sick.kid"),
            Reply::RplYourHost => push_str(dst, ":Your host is a sick kid"),
            Reply::RplCreated => push_str(dst, ":This server was created at some point"),
            Reply::RplMyInfo => push_str(
                dst,
                ":my.test.server 0.0.1 DOQRSZaghilopsuwz CFILMPQSbcefgijklmnopqrstuvz bkloveqjfI",
            ),
            Reply::RplISupport => push_str(dst, "D :are supported by this server"),
            Reply::RplUmodeIs(m) => push_bytes(dst, m.0.as_slice()),
            Reply::RplMotdStart(s) => {
                push_str(dst, ":- ");
                push_bytes(dst, s.0.as_slice());
                push_str(dst, " Message of the day -");
                assert(dst@ =~= old(dst)@ + reply_text(*self));
            },
            Reply::RplMotd(t) => {
                push_str(dst, ":- ");
                push_bytes(dst, t.0.as_slice());
                assert(dst@ =~= old(dst)@ + reply_text(*self));
            },
            Reply::RplEndOfMotd => push_str(dst, ":End of /MOTD command"),
            Reply::RplVersion(v, d, s, t) => {
                push_str(dst, v.as_str());
                push_str(dst, ".");
                push_str(dst, d.as_str());
                push_str(dst, " ");
                push_bytes(dst, s.0.as_slice());
                push_str(dst, " :");
                push_bytes(dst, t.0.as_slice());
                assert(dst@ =~= old(dst)@ + reply_text(*self));
            },
        }
    }
}

/// A message to a client.
pub enum ServerMessage {
    /// A numeric reply.
    Reply(Reply),
    /// A command passed on from someone, such as a `PRIVMSG`.
    Command(Source, Command),
    /// A ping from the server.
    Ping,
    /// A pong from the server.
    Pong,
}

/// How a command is written: its name, then each parameter after a space.
pub open spec fn command_bytes(c: CommandText) -> Seq<u8> {
    match c {
        CommandText::User(a, b, d, e) => "USER".spec_bytes() + " ".spec_bytes() + a + " ".spec_bytes() + b
            + " ".spec_bytes() + d + " ".spec_bytes() + e,
        CommandText::Nick(n) => "NICK".spec_bytes() + " ".spec_bytes() + n,
        CommandText::Motd => "MOTD".spec_bytes(),
        CommandText::Version => "VERSION".spec_bytes(),
        CommandText::Help => "HELP".spec_bytes(),
        CommandText::Users => "USERS".spec_bytes(),
        CommandText::Time => "TIME".spec_bytes(),
        CommandText::Pong(s) => "PONG".spec_bytes() + " ".spec_bytes() + s,
        CommandText::Ping(s) => "PING".spec_bytes() + " ".spec_bytes() + s,
        CommandText::List => "LIST".spec_bytes(),
        CommandText::Mode(n, m) => "MODE".spec_bytes() + " ".spec_bytes() + n + " ".spec_bytes() + m,
        CommandText::Whois(n) => "WHOIS".spec_bytes() + " ".spec_bytes() + n,
        CommandText::Userhost(n) => "USERHOST".spec_bytes() + " ".spec_bytes() + n,
        CommandText::Userip(n) => "USERIP".spec_bytes() + " ".spec_bytes() + n,
        CommandText::Join(ch) => "JOIN".spec_bytes() + " ".spec_bytes() + ch,
        CommandText::Privmsg(_, to, text) => "PRIVMSG".spec_bytes() + " ".spec_bytes() + to + " ".spec_bytes()
            + text,
    }
}

fn push_param(dst: &mut Vec<u8>, p: &Vec<u8>)
    ensures
        final(dst)@ == old(dst)@ + " ".spec_bytes() + p@,
{
    push_str(dst, " ");
    push_bytes(dst, p.as_slice());
    assert(dst@ =~= old(dst)@ + " ".spec_bytes() + p@);
}

impl Command {
    /// Writes the command as it goes over the wire.
    #[verifier::rlimit(30)]
    pub fn write_to(&self, dst: &mut Vec<u8>)
        ensures
            final(dst)@ == old(dst)@ + command_bytes(self@),
    {
        let ghost start = dst@;
        match self {
            Command::User(c) => {
                push_str(dst, "USER");
                push_param(dst, &c.username.0);
                push_param(dst, &c.host_name.0);
                push_param(dst, &c.server_name.0);
                push_param(dst, &c.real_name.0);
            },
            Command::Nick(c) => {
                push_str(dst, "NICK");
                push_param(dst, &c.nick.0);
            },
            Command::Motd => push_str(dst, "MOTD"),
            Command::Version => push_str(dst, "VERSION"),
            Command::Help => push_str(dst, "HELP"),
            Command::Users => push_str(dst, "USERS"),
            Command::Time => push_str(dst, "TIME"),
            Command::Pong(c) => {
                push_str(dst, "PONG");
                push_param(dst, &c.server_name.0);
            },
            Command::Ping(c) => {
                push_str(dst, "PING");
                push_param(dst, &c.server_name.0);
            },
            Command::List => push_str(dst, "LIST"),
            Command::Mode(c) => {
                push_str(dst, "MODE");
                push_param(dst, &c.nick.0);
                push_param(dst, &c.mode.0);
            },
            Command::Whois(c) => {
                push_str(dst, "WHOIS");
                push_param(dst, &c.nick.0);
            },
            Command::Userhost(c) => {
                push_str(dst, "USERHOST");
                push_param(dst, &c.nick.0);
            },
            Command::Userip(c) => {
                push_str(dst, "USERIP");
                push_param(dst, &c.nick.0);
            },
            Command::Join(c) => {
                push_str(dst, "JOIN");
                push_param(dst, &c.channel.0);
            },
            Command::Privmsg(c) => {
                push_str(dst, "PRIVMSG");
                match &c.receiver {
                    Receiver::User(n) => push_param(dst, &n.0),
                    Receiver::Channel(ch) => push_param(dst, &ch.0),
                }
                push_param(dst, &c.free_text.0);
            },
        }
        assert(dst@ =~= start + command_bytes(self@));
    }
}

/// How a message to a client is written, without the CRLF that ends it,
/// from a server named `server` to a client whose nick is `nick` (or `*`
/// while it has none).
pub open spec fn message_bytes(m: ServerMessage, server: Seq<u8>, nick: Option<Seq<u8>>) -> Seq<u8> {
    match m {
        ServerMessage::Reply(r) => ":".spec_bytes() + server + " ".spec_bytes() + code_spec(r) + " ".spec_bytes()
            + match nick {
            Some(n) => n,
            None => "*".spec_bytes(),
        } + " ".spec_bytes() + reply_text(r),
        ServerMessage::Ping => "PING :".spec_bytes() + server,
        ServerMessage::Pong => "PONG :".spec_bytes() + server,
        ServerMessage::Command(source, c) => ":".spec_bytes() + match source {
            Source::User(n) => n.0@,
            Source::Server => server,
        } + " ".spec_bytes() + command_bytes(c@),
    }
}

/// Whether every parameter shown as text is valid UTF-8: the parameters of
/// a message are written out as text, which fails on anything else.
pub open spec fn message_writable(m: ServerMessage) -> bool {
    match m {
        ServerMessage::Reply(r) => match r {
            Reply::RplUmodeIs(x) => vstd::utf8::valid_utf8(x.0@),
            Reply::RplMotdStart(x) => vstd::utf8::valid_utf8(x.0@),
            Reply::RplMotd(x) => vstd::utf8::valid_utf8(x.0@),
            Reply::RplVersion(_, _, x, y) => vstd::utf8::valid_utf8(x.0@) && vstd::utf8::valid_utf8(y.0@),
            _ => true,
        },
        ServerMessage::Command(source, c) => (match source {
            Source::User(n) => vstd::utf8::valid_utf8(n.0@),
            Source::Server => true,
        }) && command_writable(c@),
        _ => true,
    }
}

/// Whether every parameter of a command is valid UTF-8.
pub open spec fn command_writable(c: CommandText) -> bool {
    match c {
        CommandText::User(a, b, d, e) => vstd::utf8::valid_utf8(a) && vstd::utf8::valid_utf8(b)
            && vstd::utf8::valid_utf8(d) && vstd::utf8::valid_utf8(e),
        CommandText::Nick(x) | CommandText::Pong(x) | CommandText::Ping(x) | CommandText::Whois(x)
        | CommandText::Userhost(x) | CommandText::Userip(x) | CommandText::Join(x) => vstd::utf8::valid_utf8(x),
        CommandText::Mode(a, b) => vstd::utf8::valid_utf8(a) && vstd::utf8::valid_utf8(b),
        CommandText::Privmsg(_, a, b) => vstd::utf8::valid_utf8(a) && vstd::utf8::valid_utf8(b),
        _ => true,
    }
}

impl ServerMessage {
    /// Writes this message to `dst`, without the CRLF that ends it.
    pub fn write(self, server_name: &str, client_nick: Option<&Vec<u8>>, dst: &mut Vec<u8>)
        requires
            message_writable(self),
        ensures
            final(dst)@ == old(dst)@ + message_bytes(
                self,
                server_name.spec_bytes(),
                match client_nick {
                    Some(n) => Some(n@),
                    None => None,
                },
            ),
    {
        let ghost start = dst@;
        let ghost me = self;
        match self {
            ServerMessage::Reply(reply) => {
                push_str(dst, ":");
                push_str(dst, server_name);
                push_str(dst, " ");
                push_str(dst, reply.code());
                push_str(dst, " ");
                match client_nick {
                    Some(n) => push_bytes(dst, n.as_slice()),
                    None => push_str(dst, "*"),
                }
                push_str(dst, " ");
                reply.write_text(dst);
            },
            ServerMessage::Ping => {
                push_str(dst, "PING :");
                push_str(dst, server_name);
            },
            ServerMessage::Pong => {
                push_str(dst, "PONG :");
                push_str(dst, server_name);
            },
            ServerMessage::Command(source, command) => {
                push_str(dst, ":");
                match &source {
                    Source::User(n) => push_bytes(dst, n.0.as_slice()),
                    Source::Server => push_str(dst, server_name),
                }
                push_str(dst, " ");
                command.write_to(dst);
            },
        }
        assert(dst@ =~= start + message_bytes(
            me,
            server_name.spec_bytes(),
            match client_nick {
                Some(n) => Some(n@),
                None => None,
            },
        ));
    }
}

} // verus!
