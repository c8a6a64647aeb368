//! Connection state: who a user is, what they asked for while connecting,
//! and the capabilities they negotiated.

pub mod authenticate;
pub mod sasl;

use vstd::prelude::*;

use crate::connection::authenticate::AuthenticateResult;
use crate::connection::sasl::SaslSuccess;
use crate::host_mask::HostMask;
use crate::message::{
    bare_message, bare_reply, raw_command, raw_message, strings2, strings3, text, texts, Message,
    MessageText, Prefix, PrefixText, ERR_NICKNAMEINUSE, RPL_SASLSUCCESS,
};
use crate::text::{split_on, split_string};

verus! {

/// The database id of a user.
#[derive(Copy, Clone, Debug, PartialEq, Eq, Structural, Hash)]
pub struct UserId(pub i64);

/// The optional protocol features a client asked for.
#[derive(Copy, Clone, Debug, PartialEq, Eq, Structural, Hash, Default)]
pub struct Capability {
    /// `userhost-in-names`: name lists carry `nick!user@host`.
    pub userhost_in_names: bool,
    /// `server-time`: messages carry the time they were sent.
    pub server_time: bool,
}

/// The modes of a user.
#[derive(Copy, Clone, Debug, PartialEq, Eq, Structural, Hash, Default)]
pub struct UserMode {
    /// `w`: the user receives wallops.
    pub wallops: bool,
    /// `o`: the user is an operator.
    pub oper: bool,
}

/// The name a capability is requested by, where it is one the server knows.
pub open spec fn capability_named(s: Seq<char>) -> Option<Capability> {
    if s == "userhost-in-names"@ {
        Some(Capability { userhost_in_names: true, server_time: false })
    } else if s == "server-time"@ {
        Some(Capability { userhost_in_names: false, server_time: true })
    } else {
        None
    }
}

impl Capability {
    /// No capability.
    pub fn empty() -> (c: Capability)
        ensures
            !c.userhost_in_names,
            !c.server_time,
    {
        Capability { userhost_in_names: false, server_time: false }
    }

    pub open spec fn contains_spec(self, other: Capability) -> bool {
        (other.userhost_in_names ==> self.userhost_in_names) && (other.server_time ==> self.server_time)
    }

    /// Whether every capability of `other` is in `self`.
    pub fn contains(&self, other: Capability) -> (b: bool)
        ensures
            b == self.contains_spec(other),
    {
        (!other.userhost_in_names || self.userhost_in_names) && (!other.server_time || self.server_time)
    }

    pub open spec fn union_spec(self, other: Capability) -> Capability {
        Capability {
            userhost_in_names: self.userhost_in_names || other.userhost_in_names,
            server_time: self.server_time || other.server_time,
        }
    }

    /// The capabilities of both.
    pub fn union(self, other: Capability) -> (c: Capability)
        ensures
            c == self.union_spec(other),
    {
        Capability {
            userhost_in_names: self.userhost_in_names || other.userhost_in_names,
            server_time: self.server_time || other.server_time,
        }
    }

    /// Taking the union of two sets of capabilities keeps every capability
    /// of each: a client that asks for more never loses one it had.
    pub proof fn lemma_union_keeps_both(self, other: Capability)
        ensures
            self.union_spec(other).contains_spec(self),
            self.union_spec(other).contains_spec(other),
    {
    }

    /// The capabilities the server offers, by name.
    pub fn supported() -> (v: Vec<&'static str>)
        ensures
            v@.map_values(|s: &str| s@) == seq!["userhost-in-names"@, "server-time"@, "sasl=PLAIN"@],
    {
        let v = vec!["userhost-in-names", "server-time", "sasl=PLAIN"];
        assert(v@.map_values(|s: &str| s@) =~= seq!["userhost-in-names"@, "server-time"@, "sasl=PLAIN"@]);
        v
    }

    /// Looks a capability up by the name it is requested by.
    pub fn from_str(s: &str) -> (r: Option<Capability>)
        ensures
            r == capability_named(s@),
    {
        let t = String::from_str(s);
        let a = String::from_str("userhost-in-names");
        let b = String::from_str("server-time");
        proof {
            reveal_strlit("userhost-in-names");
            reveal_strlit("server-time");
        }
        if t == a {
            Some(Capability { userhost_in_names: true, server_time: false })
        } else if t == b {
            Some(Capability { userhost_in_names: false, server_time: true })
        } else {
            None
        }
    }
}

impl UserMode {
    /// No mode.
    pub fn empty() -> (m: UserMode)
        ensures
            !m.wallops,
            !m.oper,
    {
        UserMode { wallops: false, oper: false }
    }
}

/// What a client has told the server so far while connecting.
#[derive(Clone, Debug, Default)]
pub struct ConnectionRequest {
    pub host: Option<String>,
    pub nick: Option<String>,
    pub user: Option<String>,
    pub real_name: Option<String>,
    pub user_id: Option<UserId>,
    pub capabilities: Capability,
}

/// A client that has finished connecting.
#[derive(Clone, Debug)]
pub struct InitiatedConnection {
    /// The address the client connects from.
    pub host: String,
    pub nick: String,
    pub user: String,
    pub mode: UserMode,
    pub real_name: String,
    pub user_id: UserId,
    pub capabilities: Capability,
    pub away: Option<String>,
    /// When the client connected, in seconds since the Unix epoch.
    pub at: i64,
}

/// The request, as characters.
pub struct RequestText {
    pub host: Option<Seq<char>>,
    pub nick: Option<Seq<char>>,
    pub user: Option<Seq<char>>,
    pub real_name: Option<Seq<char>>,
    pub user_id: Option<UserId>,
    pub capabilities: Capability,
}

pub open spec fn opt_chars(o: Option<String>) -> Option<Seq<char>> {
    match o {
        Some(s) => Some(s@),
        None => None,
    }
}

impl View for ConnectionRequest {
    type V = RequestText;

    open spec fn view(&self) -> RequestText {
        RequestText {
            host: opt_chars(self.host),
            nick: opt_chars(self.nick),
            user: opt_chars(self.user),
            real_name: opt_chars(self.real_name),
            user_id: self.user_id,
            capabilities: self.capabilities,
        }
    }
}

/// Whether a request holds everything a connection needs.
pub open spec fn request_complete(r: RequestText) -> bool {
    r.host is Some && r.nick is Some && r.user is Some && r.real_name is Some && r.user_id is Some
}

/// Whether a connection is the one a complete request describes, made at
/// `at`, with no mode and no away message.
pub open spec fn initiated_from(c: InitiatedConnection, r: RequestText, at: i64) -> bool {
    &&& r.host == Some(c.host@)
    &&& r.nick == Some(c.nick@)
    &&& r.user == Some(c.user@)
    &&& r.real_name == Some(c.real_name@)
    &&& r.user_id == Some(c.user_id)
    &&& c.capabilities == r.capabilities
    &&& c.mode == UserMode { wallops: false, oper: false }
    &&& c.away is None
    &&& c.at == at
}

impl ConnectionRequest {
    /// A request from a client at `host` that has sent nothing yet.
    pub fn new(host: String) -> (r: ConnectionRequest)
        ensures
            r@.host == Some(host@),
            r@.nick is None,
            r@.user is None,
            r@.real_name is None,
            r@.user_id is None,
            r@.capabilities == Capability::default_spec(),
    {
        ConnectionRequest {
            host: Some(host),
            nick: None,
            user: None,
            real_name: None,
            user_id: None,
            capabilities: Capability { userhost_in_names: false, server_time: false },
        }
    }

    /// The connection this request describes, made at `at`, once the client has
    /// given everything; the request back otherwise.
    pub fn try_complete(self, at: i64) -> (r: Result<InitiatedConnection, ConnectionRequest>)
        ensures
            request_complete(self@) <==> r is Ok,
            r matches Ok(c) ==> initiated_from(c, self@, at),
            r matches Err(back) ==> back@ == self@,
    {
        match self {
            ConnectionRequest {
                host: Some(host),
                nick: Some(nick),
                user: Some(user),
                real_name: Some(real_name),
                user_id: Some(user_id),
                capabilities,
            } => Ok(InitiatedConnection {
                host,
                nick,
                user,
                mode: UserMode::empty(),
                real_name,
                user_id,
                capabilities,
                away: None,
                at,
            }),
            other => Err(other),
        }
    }
}

impl Capability {
    pub open spec fn default_spec() -> Capability {
        Capability { userhost_in_names: false, server_time: false }
    }
}

impl InitiatedConnection {
    /// A copy of the connection, equal to it.
    pub fn clone_connection(&self) -> (c: InitiatedConnection)
        ensures
            c == *self,
    {
        InitiatedConnection {
            host: self.host.clone(),
            nick: self.nick.clone(),
            user: self.user.clone(),
            mode: self.mode,
            real_name: self.real_name.clone(),
            user_id: self.user_id,
            capabilities: self.capabilities,
            away: match &self.away {
                Some(a) => Some(a.clone()),
                None => None,
            },
            at: self.at,
        }
    }

    pub open spec fn nick_prefix(self) -> PrefixText {
        PrefixText::Nickname(self.nick@, self.user@, self.host@)
    }

    /// The prefix of messages from this user: `nick!user@host`.
    pub fn to_nick(&self) -> (p: Prefix)
        ensures
            p@ == self.nick_prefix(),
    {
        Prefix::Nickname(self.nick.clone(), self.user.clone(), self.host.clone())
    }

    /// The host mask of this user.
    pub fn to_host_mask(&self) -> (m: HostMask)
        ensures
            m@ == (self.nick@, self.user@, self.host@),
    {
        HostMask::new(self.nick.as_str(), self.user.as_str(), self.host.as_str())
    }
}

impl ConnectionRequest {
    /// Takes the outcome of a SASL step during negotiation: a login sets
    /// the user and the user id and is answered with the SASL success
    /// reply; any other reply is passed on as it is, the request unchanged.
    pub fn take_authentication(&mut self, result: AuthenticateResult) -> (reply: Message)
        ensures
            match result {
                AuthenticateResult::Done(name, id) => final(self)@ == (RequestText {
                    user: Some(name@),
                    user_id: Some(id),
                    ..old(self)@
                }) && reply@ == bare_reply(RPL_SASLSUCCESS, seq!["SASL authentication successful"@]),
                AuthenticateResult::Reply(m) => final(self)@ == old(self)@ && reply == m,
            },
    {
        match result {
            AuthenticateResult::Done(name, id) => {
                self.user = Some(name);
                self.user_id = Some(id);
                SaslSuccess::into_message()
            },
            AuthenticateResult::Reply(m) => m,
        }
    }
}

/// Why a negotiated connection was refused: the reply to send, then the
/// error to end the connection with.
pub struct NegotiationRefused {
    pub reply: Message,
    pub reason: String,
}

/// The end of a negotiation once the connection's nick has been claimed:
/// the connection where its user owns the nick; otherwise the nick-in-use
/// reply and the error `nick is already in use by another user`.
pub fn finish_negotiation(conn: InitiatedConnection, nick_reserved: bool) -> (r: Result<
    InitiatedConnection,
    NegotiationRefused,
>)
    ensures
        nick_reserved ==> r == Ok::<InitiatedConnection, NegotiationRefused>(conn),
        !nick_reserved ==> (r matches Err(e) && e.reply@ == bare_reply(
            ERR_NICKNAMEINUSE,
            seq![conn.nick@, "Nickname is already in use"@],
        ) && e.reason@ == "nick is already in use by another user"@),
{
    if nick_reserved {
        return Ok(conn);
    }
    let reply = NickNotOwnedByUser(conn.nick).into_message();
    Err(NegotiationRefused { reply, reason: text("nick is already in use by another user") })
}

/// Sent when a client takes a nick that belongs to another user.
pub struct NickNotOwnedByUser(pub String);

impl NickNotOwnedByUser {
    /// `433 <nick> :Nickname is already in use`.
    pub fn into_message(self) -> (m: Message)
        ensures
            m@ == bare_reply(ERR_NICKNAMEINUSE, seq![self.0@, "Nickname is already in use"@]),
    {
        bare_message(ERR_NICKNAMEINUSE, strings2(self.0, text("Nickname is already in use")))
    }
}

/// The answer to a capability request: the requested text, and whether all
/// of it was granted.
pub struct AcknowledgedCapabilities(pub String, pub bool);

/// `CAP * ACK :<caps>` or `CAP * NAK :<caps>`.
pub open spec fn cap_answer(caps: Seq<char>, acked: bool) -> MessageText {
    raw_command(None, "CAP"@, seq!["*"@, if acked { "ACK"@ } else { "NAK"@ }, caps])
}

impl AcknowledgedCapabilities {
    /// The `CAP ACK` or `CAP NAK` message.
    pub fn into_message(self) -> (m: Message)
        ensures
            m@ == cap_answer(self.0@, self.1),
    {
        let word = if self.1 {
            text("ACK")
        } else {
            text("NAK")
        };
        raw_message(None, "CAP", strings3(text("*"), word, self.0))
    }
}

/// Whether every requested name is `sasl` or a capability the server knows.
pub open spec fn all_known(names: Seq<Seq<char>>) -> bool {
    forall|i: int| 0 <= i < names.len() ==> (#[trigger] names[i] == "sasl"@ || capability_named(names[i]) is Some)
}

/// The capabilities among the requested names.
pub open spec fn requested_capabilities(names: Seq<Seq<char>>) -> Capability {
    Capability {
        userhost_in_names: exists|i: int| 0 <= i < names.len() && #[trigger] names[i] == "userhost-in-names"@,
        server_time: exists|i: int| 0 <= i < names.len() && #[trigger] names[i] == "server-time"@,
    }
}

/// What a client sends while connecting, as far as the server cares.
pub enum NegotiationCommand {
    Pass,
    Nick(String),
    /// `USER`, with the real name the client gave.
    User(String),
    /// `CAP LS` or `CAP LIST`.
    CapList,
    /// `CAP REQ :<names>`.
    CapRequest(String),
    Other,
}

/// `CAP * LS :<supported capabilities>`.
pub open spec fn cap_list_answer() -> MessageText {
    raw_command(None, "CAP"@, seq!["*"@, "LS"@, "userhost-in-names server-time sasl=PLAIN"@])
}

impl ConnectionRequest {
    /// Applies one command sent while connecting, and gives the answer to send
    /// back, if there is one.
    ///
    /// `NICK` sets the nick and `USER` the real name; `CAP LS` is answered with
    /// the supported capabilities; `CAP REQ` adds the known capabilities it
    /// names and is acknowledged only if it names nothing unknown (`sasl`
    /// counts as known); anything else changes nothing.
    pub fn apply(&mut self, command: NegotiationCommand) -> (reply: Option<Message>)
        ensures
            match command {
                NegotiationCommand::Nick(n) => final(self)@ == (RequestText { nick: Some(n@), ..old(self)@ })
                    && reply is None,
                NegotiationCommand::User(real_name) => final(self)@ == (RequestText {
                    real_name: Some(real_name@),
                    ..old(self)@
                }) && reply is None,
                NegotiationCommand::CapList => final(self)@ == old(self)@ && (reply matches Some(m)
                    && m@ == cap_list_answer()),
                NegotiationCommand::CapRequest(args) => {
                    let names = split_on(args@, ' ');
                    &&& final(self)@ == (RequestText {
                        capabilities: old(self)@.capabilities.union_spec(requested_capabilities(names)),
                        ..old(self)@
                    })
                    &&& (reply matches Some(m) && m@ == cap_answer(args@, all_known(names)))
                },
                _ => final(self)@ == old(self)@ && reply is None,
            },
    {
        match command {
            NegotiationCommand::Nick(n) => {
                self.nick = Some(n);
                None
            },
            NegotiationCommand::User(real_name) => {
                self.real_name = Some(real_name);
                None
            },
            NegotiationCommand::CapList => {
                let caps = text("userhost-in-names server-time sasl=PLAIN");
                Some(raw_message(None, "CAP", strings3(text("*"), text("LS"), caps)))
            },
            NegotiationCommand::CapRequest(args) => {
                let (granted, acked) = read_capability_request(args.as_str());
                self.capabilities = self.capabilities.union(granted);
                Some(AcknowledgedCapabilities(args, acked).into_message())
            },
            _ => None,
        }
    }
}

/// Reads the names of a capability request: the known capabilities among
/// them, and whether every name is known.
pub fn read_capability_request(args: &str) -> (r: (Capability, bool))
    ensures
        r.0 == requested_capabilities(split_on(args@, ' ')),
        r.1 == all_known(split_on(args@, ' ')),
{
    let names = split_string(args, ' ');
    let ghost v = texts(names@);
    let mut caps = Capability::empty();
    let mut acked = true;
    let mut i: usize = 0;
    while i < names.len()
        invariant
            i <= names.len(),
            v == texts(names@),
            caps == requested_capabilities(v.take(i as int)),
            acked == all_known(v.take(i as int)),
        decreases names.len() - i,
    {
        let name = names[i].as_str();
        assert(name@ == v[i as int]);
        let sasl = String::from_str("sasl");
        let t = String::from_str(name);
        let known = Capability::from_str(name);
        let ghost before = v.take(i as int);
        let ghost after = v.take(i + 1);
        assert(after =~= before.push(v[i as int]));
        if t == sasl {
        } else {
            match known {
                Some(c) => {
                    caps = caps.union(c);
                },
                None => {
                    acked = false;
                },
            }
        }
        proof {
            reveal_strlit("sasl");
            reveal_strlit("userhost-in-names");
            reveal_strlit("server-time");
            assert(after[i as int] == v[i as int]);
            if all_known(after) {
                assert forall|j: int| 0 <= j < before.len() implies (#[trigger] before[j] == "sasl"@
                    || capability_named(before[j]) is Some) by {
                    assert(after[j] == before[j]);
                }
            }
            if acked && !(t@ == "sasl"@ || known is Some) {
                assert(false);
            }
            if all_known(before) && (v[i as int] == "sasl"@ || capability_named(v[i as int]) is Some) {
                assert forall|j: int| 0 <= j < after.len() implies (#[trigger] after[j] == "sasl"@
                    || capability_named(after[j]) is Some) by {
                    if j < before.len() {
                        assert(after[j] == before[j]);
                    }
                }
            }
            let want = requested_capabilities(after);
            let had = requested_capabilities(before);
            if want.userhost_in_names && !had.userhost_in_names {
                let j = choose|j: int| 0 <= j < after.len() && #[trigger] after[j] == "userhost-in-names"@;
                if j < before.len() {
                    assert(before[j] == after[j]);
                }
            }
            if had.userhost_in_names {
                let j = choose|j: int| 0 <= j < before.len() && #[trigger] before[j] == "userhost-in-names"@;
                assert(after[j] == before[j]);
            }
            if want.server_time && !had.server_time {
                let j = choose|j: int| 0 <= j < after.len() && #[trigger] after[j] == "server-time"@;
                if j < before.len() {
                    assert(before[j] == after[j]);
                }
            }
            if had.server_time {
                let j = choose|j: int| 0 <= j < before.len() && #[trigger] before[j] == "server-time"@;
                assert(after[j] == before[j]);
            }
        }
        i = i + 1;
    }
    assert(v.take(names.len() as int) =~= v);
    (caps, acked)
}

} // verus!
