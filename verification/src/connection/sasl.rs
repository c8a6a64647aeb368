//! SASL mechanisms and the replies of the SASL exchange.

use vstd::prelude::*;

use crate::connection::InitiatedConnection;
use crate::message::{
    bare_message, bare_reply, prefix_text, strings1, strings2, strings4, text, Message,
    MessageText, ERR_SASLABORT, ERR_SASLALREADY, ERR_SASLFAIL, RPL_LOGGEDIN, RPL_SASLMECHS,
    RPL_SASLSUCCESS,
};

verus! {

/// A SASL mechanism the server supports.
#[derive(Copy, Clone, Debug, PartialEq, Eq, Structural)]
pub enum AuthStrategy {
    Plain,
}

/// A SASL mechanism the server does not know.
#[derive(Copy, Clone, Debug, PartialEq, Eq)]
pub struct UnknownAuthStrategy;

impl AuthStrategy {
    /// The supported mechanisms, as announced to clients.
    pub const SUPPORTED: &'static str = "PLAIN";

    /// The mechanism a client names.
    pub fn from_str(s: &str) -> (r: Result<AuthStrategy, UnknownAuthStrategy>)
        ensures
            r is Ok <==> s@ == "PLAIN"@,
            r matches Ok(a) ==> a == AuthStrategy::Plain,
    {
        let t = String::from_str(s);
        let plain = String::from_str("PLAIN");
        if t == plain {
            Ok(AuthStrategy::Plain)
        } else {
            Err(UnknownAuthStrategy)
        }
    }
}

/// Sent when a client authenticates again after connecting.
pub struct SaslAlreadyAuthenticated(pub String);

impl SaslAlreadyAuthenticated {
    /// `907 <nick> :You have already authenticated using SASL`.
    pub fn into_message(self) -> (m: Message)
        ensures
            m@ == bare_reply(ERR_SASLALREADY, seq![self.0@, "You have already authenticated using SASL"@]),
    {
        bare_message(ERR_SASLALREADY, strings2(self.0, text("You have already authenticated using SASL")))
    }
}

/// Sent when a client asks for a mechanism the server does not support.
pub struct SaslStrategyUnsupported;

impl SaslStrategyUnsupported {
    /// `908 PLAIN :are available SASL mechanisms`.
    pub fn into_message() -> (m: Message)
        ensures
            m@ == bare_reply(RPL_SASLMECHS, seq![AuthStrategy::SUPPORTED@, "are available SASL mechanisms"@]),
    {
        bare_message(RPL_SASLMECHS, strings2(text(AuthStrategy::SUPPORTED), text("are available SASL mechanisms")))
    }
}

/// Sent when SASL authentication succeeds.
pub struct SaslSuccess;

impl SaslSuccess {
    /// `903 :SASL authentication successful`.
    pub fn into_message() -> (m: Message)
        ensures
            m@ == bare_reply(RPL_SASLSUCCESS, seq!["SASL authentication successful"@]),
    {
        bare_message(RPL_SASLSUCCESS, strings1(text("SASL authentication successful")))
    }
}

/// Sent when the whole connection handshake succeeds.
pub struct ConnectionSuccess(pub InitiatedConnection);

/// `900 <nick> <nick!user@host> <user> :You are now logged in as <user>`.
pub open spec fn logged_in_reply(c: InitiatedConnection) -> MessageText {
    bare_reply(
        RPL_LOGGEDIN,
        seq![c.nick@, prefix_text(c.nick_prefix()), c.user@, "You are now logged in as "@ + c.user@],
    )
}

impl ConnectionSuccess {
    /// The logged-in reply.
    pub fn into_message(self) -> (m: Message)
        ensures
            m@ == logged_in_reply(self.0),
    {
        let c = self.0;
        let full = c.to_nick().to_string();
        let mut line = text("You are now logged in as ");
        line.append(c.user.as_str());
        bare_message(RPL_LOGGEDIN, strings4(c.nick.clone(), full, c.user.clone(), line))
    }
}

/// Sent when SASL authentication fails.
pub struct SaslFail;

impl SaslFail {
    /// `904 :SASL authentication failed`.
    pub fn into_message() -> (m: Message)
        ensures
            m@ == bare_reply(ERR_SASLFAIL, seq!["SASL authentication failed"@]),
    {
        bare_message(ERR_SASLFAIL, strings1(text("SASL authentication failed")))
    }
}

/// Sent when a client aborts SASL authentication.
pub struct SaslAborted;

impl SaslAborted {
    /// `906 :SASL authentication aborted`.
    pub fn into_message() -> (m: Message)
        ensures
            m@ == bare_reply(ERR_SASLABORT, seq!["SASL authentication aborted"@]),
    {
        bare_message(ERR_SASLABORT, strings1(text("SASL authentication aborted")))
    }
}

} // verus!
