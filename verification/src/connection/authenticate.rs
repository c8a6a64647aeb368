//! The SASL exchange a client goes through while connecting.
//!
//! Every `AUTHENTICATE` the client sends is handed to [`Authenticate::handle`],
//! which either answers it or, for `PLAIN`, reads the credentials out of it;
//! once the stored password hash of that user is known,
//! [`finish_plain_authentication`] decides whether the client is logged in.

use vstd::prelude::*;

use crate::connection::sasl::{AuthStrategy, SaslAborted, SaslFail, SaslStrategyUnsupported};
use crate::connection::UserId;
use crate::database::{argon2_verdict, verify_password, PasswordCheckError};
use crate::message::{bare_reply, raw_command, raw_message, strings1, text, Message, MessageText};

verus! {

#[verifier::external_type_specification]
#[verifier::external_body]
pub struct ExDecodeError(base64::DecodeError);

#[verifier::external_type_specification]
#[verifier::external_body]
pub struct ExUtf8Error(core::str::Utf8Error);

/// What standard base64 decoding (`BASE64_STANDARD.decode`) makes of a
/// text: its bytes, or nothing where the text is not valid base64.
pub uninterp spec fn base64_decoded(text: Seq<char>) -> Option<Seq<u8>>;

/// Decodes standard, padded base64 with `BASE64_STANDARD.decode`. Claimed:
/// it succeeds exactly where the named result is present, and then gives
/// those bytes.
#[verifier::external_body]
fn decode_base64(input: &str) -> (r: Result<Vec<u8>, base64::DecodeError>)
    ensures
        r is Ok <==> base64_decoded(input@) is Some,
        r matches Ok(bytes) ==> base64_decoded(input@) == Some(bytes@),
{
    base64::Engine::decode(&base64::prelude::BASE64_STANDARD, input)
}

/// Reads bytes as UTF-8 with `std::str::from_utf8`. Claimed, as its
/// documentation says: it succeeds exactly on valid UTF-8, and then gives
/// the decoded characters.
#[verifier::external_body]
fn utf8_text(bytes: &[u8]) -> (r: Result<String, core::str::Utf8Error>)
    ensures
        r is Ok <==> vstd::utf8::valid_utf8(bytes@),
        r matches Ok(s) ==> s@ == vstd::utf8::decode_utf8(bytes@),
{
    match std::str::from_utf8(bytes) {
        Ok(s) => Ok(s.to_string()),
        Err(e) => Err(e),
    }
}

/// The mechanism chosen so far in a client's SASL exchange.
pub struct Authenticate {
    pub selected_strategy: Option<AuthStrategy>,
}

/// One `AUTHENTICATE` argument from a client.
pub struct AuthenticateMessage(pub String);

/// The identity and password of a `PLAIN` message.
pub struct PlainCredentials {
    pub identity: String,
    pub password: Vec<u8>,
}

/// Why a `PLAIN` exchange failed.
#[derive(Debug)]
pub enum PlainError {
    /// The message is not base64.
    Encoding(base64::DecodeError),
    /// The message does not hold three NUL separated parts.
    Malformed,
    /// The authorization and authentication identities differ.
    IdentityMismatch,
    /// The identity is not UTF-8.
    NotUtf8(core::str::Utf8Error),
    /// The stored password hash could not be checked.
    Hash(PasswordCheckError),
}

/// The kind of a `PlainError`.
pub enum PlainErrorKind {
    Encoding,
    Malformed,
    IdentityMismatch,
    NotUtf8,
    Hash,
}

impl PlainError {
    pub open spec fn kind(self) -> PlainErrorKind {
        match self {
            PlainError::Encoding(_) => PlainErrorKind::Encoding,
            PlainError::Malformed => PlainErrorKind::Malformed,
            PlainError::IdentityMismatch => PlainErrorKind::IdentityMismatch,
            PlainError::NotUtf8(_) => PlainErrorKind::NotUtf8,
            PlainError::Hash(_) => PlainErrorKind::Hash,
        }
    }
}

/// What an `AUTHENTICATE` leads to.
pub enum AuthenticateStep {
    /// Send this to the client and wait for the next `AUTHENTICATE`.
    Reply(Message),
    /// The client aborted: send this and end the exchange.
    Aborted(Message),
    /// Look up the stored password hash of this identity and finish with
    /// [`finish_plain_authentication`].
    CheckPassword(PlainCredentials),
    /// The `PLAIN` message could not be read.
    Failed(PlainError),
}

/// The position of the first NUL byte.
#[verifier::opaque]
pub open spec fn first_nul(s: Seq<u8>) -> Option<int> {
    if exists|i: int| 0 <= i < s.len() && s[i] == 0 {
        Some(choose|i: int| 0 <= i < s.len() && s[i] == 0 && forall|j: int| 0 <= j < i ==> s[j] != 0)
    } else {
        None
    }
}

/// The three NUL separated parts of a `PLAIN` message: authorization
/// identity, authentication identity and the rest, the password.
pub open spec fn plain_parts(m: Seq<u8>) -> Option<(Seq<u8>, Seq<u8>, Seq<u8>)> {
    match first_nul(m) {
        None => None,
        Some(i) => {
            let rest = m.subrange(i + 1, m.len() as int);
            match first_nul(rest) {
                None => None,
                Some(j) => Some((m.subrange(0, i), rest.subrange(0, j), rest.subrange(j + 1, rest.len() as int))),
            }
        },
    }
}

/// How a `PLAIN` message reads: the identity and password, or the kind of
/// the failure.
pub open spec fn plain_reading(arguments: Seq<char>) -> Result<(Seq<char>, Seq<u8>), PlainErrorKind> {
    match base64_decoded(arguments) {
        None => Err(PlainErrorKind::Encoding),
        Some(bytes) => match plain_parts(bytes) {
            None => Err(PlainErrorKind::Malformed),
            Some((authz, authn, password)) => if authz != authn {
                Err(PlainErrorKind::IdentityMismatch)
            } else if !vstd::utf8::valid_utf8(authn) {
                Err(PlainErrorKind::NotUtf8)
            } else {
                Ok((vstd::utf8::decode_utf8(authn), password))
            },
        },
    }
}

/// The position of the first NUL byte in `v[from..]`.
fn find_nul(v: &Vec<u8>, from: usize) -> (r: Option<usize>)
    requires
        from <= v.len(),
    ensures
        match r {
            Some(i) => from <= i < v.len() && v@[i as int] == 0 && first_nul(v@.subrange(from as int, v.len() as int))
                == Some(i - from),
            None => first_nul(v@.subrange(from as int, v.len() as int)) is None,
        },
{
    reveal(first_nul);
    let ghost s = v@.subrange(from as int, v.len() as int);
    let mut i = from;
    while i < v.len()
        invariant
            from <= i <= v.len(),
            s == v@.subrange(from as int, v.len() as int),
            forall|j: int| from <= j < i ==> v@[j] != 0,
        decreases v.len() - i,
    {
        if v[i] == 0 {
            proof {
                reveal(first_nul);
                let w = i - from;
                assert(s[w] == v@[i as int]);
                assert(0 <= w < s.len() && s[w] == 0);
                assert(forall|j: int| 0 <= j < w ==> s[j] != 0) by {
                    assert forall|j: int| 0 <= j < w implies s[j] != 0 by {
                        assert(s[j] == v@[from + j]);
                    }
                }
                assert(exists|k: int| 0 <= k < s.len() && s[k] == 0 && forall|j: int| 0 <= j < k ==> s[j] != 0);
                let k = choose|k: int| 0 <= k < s.len() && s[k] == 0 && forall|j: int| 0 <= j < k ==> s[j] != 0;
                assert(0 <= k < s.len() && s[k] == 0 && forall|j: int| 0 <= j < k ==> s[j] != 0);
                if k < w {
                    assert(s[k] != 0);
                }
                if k > w {
                    assert(s[w] != 0);
                }
                assert(k == w);
            }
            return Some(i);
        }
        i = i + 1;
    }
    proof {
        if exists|k: int| 0 <= k < s.len() && s[k] == 0 {
            let k = choose|k: int| 0 <= k < s.len() && s[k] == 0;
            assert(s[k] == v@[from + k]);
        }
    }
    None
}

/// The bytes `v[from..to]`.
fn bytes_between(v: &Vec<u8>, from: usize, to: usize) -> (r: Vec<u8>)
    requires
        from <= to <= v.len(),
    ensures
        r@ == v@.subrange(from as int, to as int),
{
    let mut r: Vec<u8> = Vec::new();
    let mut i = from;
    while i < to
        invariant
            from <= i <= to <= v.len(),
            r@ == v@.subrange(from as int, i as int),
        decreases to - i,
    {
        r.push(v[i]);
        assert(v@.subrange(from as int, i + 1) =~= v@.subrange(from as int, i as int).push(v@[i as int]));
        i = i + 1;
    }
    r
}

/// Whether two byte strings are equal.
fn same_bytes(a: &Vec<u8>, b: &Vec<u8>) -> (r: bool)
    ensures
        r == (a@ == b@),
{
    if a.len() != b.len() {
        return false;
    }
    let mut i: usize = 0;
    while i < a.len()
        invariant
            a.len() == b.len(),
            i <= a.len(),
            forall|j: int| 0 <= j < i ==> a@[j] == b@[j],
        decreases a.len() - i,
    {
        if a[i] != b[i] {
            return false;
        }
        i = i + 1;
    }
    assert(a@ =~= b@);
    true
}

/// Reads a `PLAIN` message: base64 of `authorization NUL authentication NUL
/// password`, where the two identities must agree and be UTF-8.
pub fn read_plain_message(arguments: &str) -> (r: Result<PlainCredentials, PlainError>)
    ensures
        match plain_reading(arguments@) {
            Ok((identity, password)) => r matches Ok(c) && c.identity@ == identity && c.password@ == password,
            Err(kind) => r matches Err(e) && e.kind() == kind,
        },
{
    let bytes = match decode_base64(arguments) {
        Ok(b) => b,
        Err(e) => {
            return Err(PlainError::Encoding(e));
        },
    };
    let ghost m = bytes@;
    let i = match find_nul(&bytes, 0) {
        Some(i) => i,
        None => {
            assert(m.subrange(0, m.len() as int) =~= m);
            return Err(PlainError::Malformed);
        },
    };
    assert(m.subrange(0, m.len() as int) =~= m);
    assert(first_nul(m) == Some(i as int));
    let ghost rest = m.subrange(i + 1, m.len() as int);
    let j = match find_nul(&bytes, i + 1) {
        Some(j) => j,
        None => {
            return Err(PlainError::Malformed);
        },
    };
    let authz = bytes_between(&bytes, 0, i);
    let authn = bytes_between(&bytes, i + 1, j);
    let password = bytes_between(&bytes, j + 1, bytes.len());
    assert(first_nul(rest) == Some(j - (i + 1)));
    assert(authn@ =~= rest.subrange(0, j - (i + 1)));
    assert(password@ =~= rest.subrange(j - (i + 1) + 1, rest.len() as int));
    assert(plain_parts(m) == Some((authz@, authn@, password@)));
    if !same_bytes(&authz, &authn) {
        return Err(PlainError::IdentityMismatch);
    }
    match utf8_text(authn.as_slice()) {
        Ok(identity) => Ok(PlainCredentials { identity, password }),
        Err(e) => Err(PlainError::NotUtf8(e)),
    }
}

/// How an exchange ends once the password has been checked.
pub enum AuthenticateResult {
    /// Send this to the client; it is not logged in.
    Reply(Message),
    /// The client is logged in as this user.
    Done(String, UserId),
}

/// `AUTHENTICATE +`: the client may go on.
pub open spec fn go_ahead() -> MessageText {
    raw_command(None, "AUTHENTICATE"@, seq!["+"@])
}

impl Authenticate {
    /// An exchange in which no mechanism has been chosen yet.
    pub fn new() -> (a: Authenticate)
        ensures
            a.selected_strategy is None,
    {
        Authenticate { selected_strategy: None }
    }

    /// Handles one `AUTHENTICATE` from the client.
    ///
    /// The first one names the mechanism: `PLAIN` is chosen and answered with
    /// `AUTHENTICATE +`, anything else with the list of supported mechanisms.
    /// After that `*` aborts, and anything else is read as a `PLAIN` message.
    pub fn handle(&mut self, msg: AuthenticateMessage) -> (r: AuthenticateStep)
        ensures
            match old(self).selected_strategy {
                None => if msg.0@ == "PLAIN"@ {
                    final(self).selected_strategy == Some(AuthStrategy::Plain)
                        && (r matches AuthenticateStep::Reply(m) && m@ == go_ahead())
                } else {
                    final(self).selected_strategy is None
                        && (r matches AuthenticateStep::Reply(m)
                        && m@ == bare_reply(crate::message::RPL_SASLMECHS, seq!["PLAIN"@, "are available SASL mechanisms"@]))
                },
                Some(_) => final(self).selected_strategy == old(self).selected_strategy && if msg.0@ == "*"@ {
                    r matches AuthenticateStep::Aborted(m)
                        && m@ == bare_reply(crate::message::ERR_SASLABORT, seq!["SASL authentication aborted"@])
                } else {
                    match plain_reading(msg.0@) {
                        Ok((identity, password)) => r matches AuthenticateStep::CheckPassword(c)
                            && c.identity@ == identity && c.password@ == password,
                        Err(kind) => r matches AuthenticateStep::Failed(e) && e.kind() == kind,
                    }
                },
            },
    {
        match self.selected_strategy {
            None => match AuthStrategy::from_str(msg.0.as_str()) {
                Ok(strategy) => {
                    self.selected_strategy = Some(strategy);
                    AuthenticateStep::Reply(raw_message(None, "AUTHENTICATE", strings1(text("+"))))
                },
                Err(_) => AuthenticateStep::Reply(SaslStrategyUnsupported::into_message()),
            },
            Some(AuthStrategy::Plain) => {
                let star = String::from_str("*");
                if msg.0 == star {
                    return AuthenticateStep::Aborted(SaslAborted::into_message());
                }
                match read_plain_message(msg.0.as_str()) {
                    Ok(c) => AuthenticateStep::CheckPassword(c),
                    Err(e) => AuthenticateStep::Failed(e),
                }
            },
        }
    }
}

/// Finishes a `PLAIN` exchange: the user is logged in when the password
/// matches the stored hash, and told that authentication failed when it does
/// not.
pub fn finish_plain_authentication(credentials: PlainCredentials, user_id: UserId, password_hash: &str) -> (r:
    Result<AuthenticateResult, PlainError>)
    ensures
        match argon2_verdict(credentials.password@, password_hash@) {
            Some(true) => r matches Ok(AuthenticateResult::Done(name, id)) && name@ == credentials.identity@
                && id == user_id,
            Some(false) => r matches Ok(AuthenticateResult::Reply(m))
                && m@ == bare_reply(crate::message::ERR_SASLFAIL, seq!["SASL authentication failed"@]),
            None => r matches Err(e) && e.kind() == PlainErrorKind::Hash,
        },
{
    match verify_password(credentials.password.as_slice(), password_hash) {
        Ok(true) => Ok(AuthenticateResult::Done(credentials.identity, user_id)),
        Ok(false) => Ok(AuthenticateResult::Reply(SaslFail::into_message())),
        Err(e) => Err(PlainError::Hash(e)),
    }
}

} // verus!
