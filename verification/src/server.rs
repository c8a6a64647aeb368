//! What the server decides for the whole network: the welcome a new user
//! gets, the most clients seen at once, who receives wallops and how a
//! private message reaches its recipient.

pub mod response;

use std::collections::HashMap;

use vstd::prelude::*;

use crate::channel::permissions::Permission;
use crate::connection::InitiatedConnection;
use crate::message::{
    message_texts, prefix_text, push_message, raw_command, raw_message, server_message,
    server_reply, strings1, strings2, text, texts, Message, MessageText, Prefix, PrefixText,
    RPL_CREATED, RPL_ISUPPORT, RPL_MYINFO, RPL_WELCOME, RPL_YOURHOST,
};
use crate::messages::MessageKind;
use crate::server::response::{motd_replies, AdminInfo, IntoProtocol, Motd};
use crate::SERVER_NAME;

verus! {

/// The numeric replies that greet a user who has just connected, running
/// `version` of the server.
pub open spec fn greeting_replies(c: InitiatedConnection, version: Seq<char>) -> Seq<MessageText> {
    let nick = c.nick@;
    seq![
        server_reply(RPL_WELCOME, seq![nick, "Welcome to the network "@ + prefix_text(c.nick_prefix())]),
        server_reply(RPL_YOURHOST, seq![nick, "Your host is "@ + SERVER_NAME@ + ", running version "@ + version]),
        server_reply(RPL_CREATED, seq![nick, "This server was created at some point"@]),
        server_reply(
            RPL_MYINFO,
            seq![nick, SERVER_NAME@, version, "DOQRSZaghilopsuwz"@, "CFILMPQSbcefgijklmnopqrstuvz"@, "bkloveqjfI"@],
        ),
        server_reply(RPL_ISUPPORT, seq![nick, "PREFIX=(qohv)~@%+"@, "are supported by this server"@]),
    ]
}

/// `<a><b>`.
fn concat(a: &str, b: &str) -> (s: String)
    ensures
        s@ == a@ + b@,
{
    let mut s = text(a);
    s.append(b);
    s
}

/// The welcome a new user gets: the greeting, then the message of the day.
pub fn welcome_messages(c: &InitiatedConnection, version: &str, motd: Option<String>) -> (r: Vec<Message>)
    ensures
        message_texts(r@) == greeting_replies(*c, version@) + motd_replies(
            c.nick@,
            match motd {
                Some(m) => Some(m@),
                None => None,
            },
        ),
{
    let nick = &c.nick;
    let mut out: Vec<Message> = Vec::new();
    let full = c.to_nick().to_string();
    push_message(
        &mut out,
        server_message(RPL_WELCOME, strings2(nick.clone(), concat("Welcome to the network ", full.as_str()))),
    );
    let mut host_line = concat("Your host is ", SERVER_NAME);
    host_line.append(", running version ");
    host_line.append(version);
    push_message(&mut out, server_message(RPL_YOURHOST, strings2(nick.clone(), host_line)));
    push_message(
        &mut out,
        server_message(RPL_CREATED, strings2(nick.clone(), text("This server was created at some point"))),
    );
    let mut info: Vec<String> = Vec::new();
    info.push(nick.clone());
    info.push(text(SERVER_NAME));
    info.push(text(version));
    info.push(text("DOQRSZaghilopsuwz"));
    info.push(text("CFILMPQSbcefgijklmnopqrstuvz"));
    info.push(text("bkloveqjfI"));
    assert(texts(info@) =~= seq![
        nick@,
        SERVER_NAME@,
        version@,
        "DOQRSZaghilopsuwz"@,
        "CFILMPQSbcefgijklmnopqrstuvz"@,
        "bkloveqjfI"@,
    ]);
    push_message(&mut out, server_message(RPL_MYINFO, info));
    let mut support: Vec<String> = Vec::new();
    support.push(nick.clone());
    support.push(concat("PREFIX=", Permission::supported_prefixes()));
    support.push(text("are supported by this server"));
    assert(texts(support@) =~= seq![nick@, "PREFIX="@ + "(qohv)~@%+"@, "are supported by this server"@]);
    proof {
        reveal_strlit("PREFIX=");
        reveal_strlit("(qohv)~@%+");
        reveal_strlit("PREFIX=(qohv)~@%+");
        assert("PREFIX="@ + "(qohv)~@%+"@ =~= "PREFIX=(qohv)~@%+"@);
    }
    push_message(&mut out, server_message(RPL_ISUPPORT, support));
    assert(message_texts(out@) =~= greeting_replies(*c, version@));
    let ghost greeting = out@;
    let mut motd_lines = Motd { motd }.into_messages(nick.as_str());
    let ghost added = motd_lines@;
    out.append(&mut motd_lines);
    assert(message_texts(out@) =~= message_texts(greeting) + message_texts(added));
    out
}

/// The most clients seen at once, once `current_clients` are connected.
pub fn updated_max_clients(current_clients: usize, max_clients: usize) -> (m: usize)
    ensures
        m >= current_clients,
        m >= max_clients,
        m == current_clients || m == max_clients,
{
    if current_clients > max_clients {
        current_clients
    } else {
        max_clients
    }
}

/// The clients connected to the server, by client id with their
/// connections, and the most that have been connected at once.
pub struct ClientRegistry {
    pub clients: HashMap<u64, InitiatedConnection>,
    pub max_clients: usize,
}

impl ClientRegistry {
    /// The most seen at once is never below the number connected now.
    pub open spec fn well_formed(&self) -> bool {
        self.max_clients >= self.clients@.len()
    }

    /// A server that has seen no client.
    pub fn new() -> (r: ClientRegistry)
        ensures
            r.clients@ == Map::<u64, InitiatedConnection>::empty(),
            r.max_clients == 0,
            r.well_formed(),
    {
        ClientRegistry { clients: HashMap::new(), max_clients: 0 }
    }

    /// A client connects: it is registered with its connection, in place of
    /// any earlier entry of it, and the most seen at once takes in the new
    /// count, so it never falls below the count and never decreases.
    pub fn connect(&mut self, client: u64, connection: InitiatedConnection)
        requires
            old(self).well_formed(),
            old(self).clients@.len() < usize::MAX,
        ensures
            final(self).clients@ == old(self).clients@.insert(client, connection),
            final(self).max_clients == if final(self).clients@.len() > old(self).max_clients {
                final(self).clients@.len() as usize
            } else {
                old(self).max_clients
            },
            final(self).max_clients >= old(self).max_clients,
            final(self).well_formed(),
    {
        self.clients.insert(client, connection);
        let count = self.clients.len();
        self.max_clients = updated_max_clients(count, self.max_clients);
    }

    /// A client disconnects: it is no longer registered, and the most seen
    /// at once stays, still not below the count.
    pub fn disconnect(&mut self, client: u64)
        requires
            old(self).well_formed(),
        ensures
            final(self).clients@ == old(self).clients@.remove(client),
            final(self).max_clients == old(self).max_clients,
            final(self).well_formed(),
    {
        let ghost before = self.clients@;
        self.clients.remove(&client);
        proof {
            if before.contains_key(client) {
                assert(before.dom().remove(client).len() == before.dom().len() - 1);
            } else {
                assert(before.remove(client) =~= before);
            }
        }
    }

    /// A client changed nick: its entry, if it has one, takes `connection`.
    pub fn rename(&mut self, client: u64, connection: InitiatedConnection)
        requires
            old(self).well_formed(),
        ensures
            final(self).clients@ == if old(self).clients@.contains_key(client) {
                old(self).clients@.insert(client, connection)
            } else {
                old(self).clients@
            },
            final(self).max_clients == old(self).max_clients,
            final(self).well_formed(),
    {
        let ghost before = self.clients@;
        if self.clients.contains_key(&client) {
            self.clients.insert(client, connection);
            assert(self.clients@.dom() =~= before.dom());
        }
    }
}

/// Whether a user receives wallops.
pub fn receives_wallops(c: &InitiatedConnection) -> (b: bool)
    ensures
        b == c.mode.wallops,
{
    c.mode.wallops
}

/// `:<server> WALLOPS :<message>`.
pub fn wallops_message(message: String) -> (m: Message)
    ensures
        m@ == raw_command(Some(PrefixText::ServerName(SERVER_NAME@)), "WALLOPS"@, seq![message@]),
{
    raw_message(Some(Prefix::ServerName(text(SERVER_NAME))), "WALLOPS", strings1(message))
}

/// A message from `source` as delivered to `target_nick`.
pub open spec fn delivered_message(
    source: InitiatedConnection,
    target_nick: Seq<char>,
    kind: MessageKind,
    message: Seq<char>,
) -> MessageText {
    raw_command(Some(source.nick_prefix()), kind.command_spec(), seq![target_nick, message])
}

/// Builds a private message from `source` to a connected user.
pub fn private_message(source: &InitiatedConnection, target_nick: String, kind: MessageKind, message: String) -> (m:
    Message)
    ensures
        m@ == delivered_message(*source, target_nick@, kind, message@),
{
    raw_message(Some(source.to_nick()), kind.command(), strings2(target_nick, message))
}

/// Whether a connected client is a recipient of a private message to
/// `destination`: it belongs to that user and is not the sending client.
pub fn is_recipient(client_user: crate::connection::UserId, is_sender: bool, destination: crate::connection::UserId) -> (b:
    bool)
    ensures
        b == (client_user == destination && !is_sender),
{
    client_user.0 == destination.0 && !is_sender
}

/// The administrative contact the server gives out.
pub fn admin_info() -> (a: AdminInfo)
    ensures
        a.line1@ == "Name: example name"@,
        a.line2@ == "Nickname: examplenick"@,
        a.email@ == "Email: me@example.com"@,
{
    AdminInfo {
        line1: text("Name: example name"),
        line2: text("Nickname: examplenick"),
        email: text("Email: me@example.com"),
    }
}

} // verus!
