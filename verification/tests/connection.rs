use argon2::password_hash::SaltString;
use argon2::{Argon2, PasswordHasher};
use base64::Engine;
use titanirc::connection::authenticate::{
    finish_plain_authentication, read_plain_message, Authenticate, AuthenticateMessage,
    AuthenticateResult, AuthenticateStep, PlainError,
};
use titanirc::connection::sasl::{AuthStrategy, ConnectionSuccess, SaslSuccess};
use titanirc::connection::{
    finish_negotiation, read_capability_request, AcknowledgedCapabilities, Capability,
    ConnectionRequest, InitiatedConnection, NegotiationCommand, NickNotOwnedByUser, UserId,
    UserMode,
};
use titanirc::database::{hash_new_password, verify_password};
use titanirc::message::{Command, Message, Prefix};

fn raw(name: &str, args: &[&str]) -> Message {
    Message {
        tags: None,
        prefix: None,
        command: Command::Raw(name.to_string(), args.iter().map(|s| s.to_string()).collect()),
    }
}

fn reply(code: u16, args: &[&str]) -> Message {
    Message {
        tags: None,
        prefix: None,
        command: Command::Response(code, args.iter().map(|s| s.to_string()).collect()),
    }
}

fn plain(text: &[u8]) -> String {
    base64::prelude::BASE64_STANDARD.encode(text)
}

fn hash(password: &str) -> String {
    let salt = SaltString::from_b64("c29tZXNhbHQxMjM0").unwrap();
    Argon2::default()
        .hash_password(password.as_bytes(), &salt)
        .unwrap()
        .to_string()
}

#[test]
fn capability_names() {
    assert_eq!(
        Capability::from_str("server-time"),
        Some(Capability { userhost_in_names: false, server_time: true })
    );
    assert_eq!(
        Capability::from_str("userhost-in-names"),
        Some(Capability { userhost_in_names: true, server_time: false })
    );
    assert_eq!(Capability::from_str("sasl"), None);
    assert_eq!(
        Capability::supported(),
        vec!["userhost-in-names", "server-time", "sasl=PLAIN"]
    );
}

#[test]
fn capability_request_with_sasl_is_acked() {
    let (caps, acked) = read_capability_request("sasl server-time");
    assert!(acked);
    assert_eq!(caps, Capability { userhost_in_names: false, server_time: true });
}

#[test]
fn capability_request_with_unknown_is_nacked() {
    let (caps, acked) = read_capability_request("userhost-in-names foo");
    assert!(!acked);
    assert_eq!(caps, Capability { userhost_in_names: true, server_time: false });
}

#[test]
fn capability_request_with_double_space_is_nacked() {
    let (_, acked) = read_capability_request("sasl  server-time");
    assert!(!acked);
}

#[test]
fn negotiation_fills_the_request() {
    let mut request = ConnectionRequest::new("127.0.0.1".to_string());
    assert_eq!(request.apply(NegotiationCommand::Nick("alice".to_string())), None);
    assert_eq!(request.apply(NegotiationCommand::User("Alice A".to_string())), None);
    assert_eq!(request.apply(NegotiationCommand::Pass), None);
    assert_eq!(
        request.apply(NegotiationCommand::CapList),
        Some(raw("CAP", &["*", "LS", "userhost-in-names server-time sasl=PLAIN"]))
    );
    assert_eq!(
        request.apply(NegotiationCommand::CapRequest("sasl server-time".to_string())),
        Some(raw("CAP", &["*", "ACK", "sasl server-time"]))
    );
    assert_eq!(request.nick.as_deref(), Some("alice"));
    assert_eq!(request.real_name.as_deref(), Some("Alice A"));
    assert!(request.capabilities.server_time);

    // no user id yet: the connection is not complete
    let request = request.try_complete(5).unwrap_err();
    let mut request = request;
    request.user = Some("alice".to_string());
    request.user_id = Some(UserId(7));
    let conn = request.try_complete(1_700_000_000).unwrap();
    assert_eq!(conn.nick, "alice");
    assert_eq!(conn.user, "alice");
    assert_eq!(conn.host, "127.0.0.1");
    assert_eq!(conn.real_name, "Alice A");
    assert_eq!(conn.user_id, UserId(7));
    assert_eq!(conn.at, 1_700_000_000);
    assert_eq!(conn.mode, UserMode::empty());
    assert!(conn.away.is_none());
}

#[test]
fn nack_message() {
    assert_eq!(
        AcknowledgedCapabilities("foo".to_string(), false).into_message(),
        raw("CAP", &["*", "NAK", "foo"])
    );
}

#[test]
fn nick_in_use_message() {
    assert_eq!(
        NickNotOwnedByUser("bob".to_string()).into_message(),
        reply(433, &["bob", "Nickname is already in use"])
    );
}

#[test]
fn logged_in_message() {
    let conn = InitiatedConnection {
        host: "10.0.0.1".to_string(),
        nick: "alice".to_string(),
        user: "al".to_string(),
        mode: UserMode::empty(),
        real_name: "Alice".to_string(),
        user_id: UserId(1),
        capabilities: Capability::empty(),
        away: None,
        at: 0,
    };
    assert_eq!(
        ConnectionSuccess(conn).into_message(),
        reply(900, &["alice", "alice!al@10.0.0.1", "al", "You are now logged in as al"])
    );
    assert_eq!(SaslSuccess::into_message(), reply(903, &["SASL authentication successful"]));
}

#[test]
fn auth_strategy_names() {
    assert_eq!(AuthStrategy::from_str("PLAIN").unwrap(), AuthStrategy::Plain);
    assert!(AuthStrategy::from_str("plain").is_err());
}

#[test]
fn authenticate_exchange() {
    let mut auth = Authenticate::new();
    match auth.handle(AuthenticateMessage("SCRAM".to_string())) {
        AuthenticateStep::Reply(m) => {
            assert_eq!(m, reply(908, &["PLAIN", "are available SASL mechanisms"]))
        }
        _ => panic!("expected a reply"),
    }
    match auth.handle(AuthenticateMessage("PLAIN".to_string())) {
        AuthenticateStep::Reply(m) => assert_eq!(m, raw("AUTHENTICATE", &["+"])),
        _ => panic!("expected a reply"),
    }
    match auth.handle(AuthenticateMessage(plain(b"alice\0alice\0hunter2"))) {
        AuthenticateStep::CheckPassword(c) => {
            assert_eq!(c.identity, "alice");
            assert_eq!(c.password, b"hunter2".to_vec());
        }
        _ => panic!("expected credentials"),
    }
    match auth.handle(AuthenticateMessage("*".to_string())) {
        AuthenticateStep::Aborted(m) => assert_eq!(m, reply(906, &["SASL authentication aborted"])),
        _ => panic!("expected an abort"),
    }
}

#[test]
fn plain_message_errors() {
    assert!(matches!(read_plain_message("not base64!"), Err(PlainError::Encoding(_))));
    assert!(matches!(
        read_plain_message(&plain(b"alice\0alice")),
        Err(PlainError::Malformed)
    ));
    assert!(matches!(
        read_plain_message(&plain(b"alice\0bob\0pw")),
        Err(PlainError::IdentityMismatch)
    ));
    assert!(matches!(
        read_plain_message(&plain(b"\xff\0\xff\0pw")),
        Err(PlainError::NotUtf8(_))
    ));
    // the password is everything after the second NUL
    let c = read_plain_message(&plain(b"a\0a\0pw\0more")).unwrap();
    assert_eq!(c.password, b"pw\0more".to_vec());
}

#[test]
fn password_checks() {
    let stored = hash("hunter2");
    assert!(verify_password(b"hunter2", &stored).unwrap());
    assert!(!verify_password(b"hunter3", &stored).unwrap());
    assert!(verify_password(b"hunter2", "not a hash").is_err());
}

#[test]
fn finishing_plain_authentication() {
    let stored = hash("hunter2");
    let good = read_plain_message(&plain(b"alice\0alice\0hunter2")).unwrap();
    match finish_plain_authentication(good, UserId(3), &stored).unwrap() {
        AuthenticateResult::Done(name, id) => {
            assert_eq!(name, "alice");
            assert_eq!(id, UserId(3));
        }
        AuthenticateResult::Reply(_) => panic!("expected a login"),
    }
    let bad = read_plain_message(&plain(b"alice\0alice\0wrong")).unwrap();
    match finish_plain_authentication(bad, UserId(3), &stored).unwrap() {
        AuthenticateResult::Reply(m) => assert_eq!(m, reply(904, &["SASL authentication failed"])),
        AuthenticateResult::Done(..) => panic!("expected a failure"),
    }
    let any = read_plain_message(&plain(b"alice\0alice\0x")).unwrap();
    assert!(matches!(
        finish_plain_authentication(any, UserId(3), "garbage"),
        Err(PlainError::Hash(_))
    ));
}

#[test]
fn host_prefix_of_connection() {
    let conn = InitiatedConnection {
        host: "h".to_string(),
        nick: "n".to_string(),
        user: "u".to_string(),
        mode: UserMode::empty(),
        real_name: "r".to_string(),
        user_id: UserId(1),
        capabilities: Capability::empty(),
        away: None,
        at: 0,
    };
    assert_eq!(
        conn.to_nick(),
        Prefix::Nickname("n".to_string(), "u".to_string(), "h".to_string())
    );
    assert_eq!(conn.to_nick().to_string(), "n!u@h");
}

#[test]
fn capability_union_keeps_both() {
    let time = Capability::from_str("server-time").unwrap();
    let hosts = Capability::from_str("userhost-in-names").unwrap();
    let both = time.union(hosts);
    assert!(both.contains(time));
    assert!(both.contains(hosts));
    assert!(!time.contains(hosts));
    assert!(time.contains(Capability::empty()));
}

#[test]
fn new_users_log_in_with_their_password() {
    let hash = hash_new_password(b"hunter2").unwrap();
    assert_eq!(verify_password(b"hunter2", &hash).unwrap(), true);
    assert_eq!(verify_password(b"hunter3", &hash).unwrap(), false);
    let credentials = read_plain_message(&plain(b"alice\0alice\0hunter2")).unwrap();
    assert!(matches!(
        finish_plain_authentication(credentials, UserId(4), &hash),
        Ok(AuthenticateResult::Done(ref name, UserId(4))) if name == "alice"
    ));
}

#[test]
fn negotiation_takes_logins_and_nick_claims() {
    let mut request = ConnectionRequest::new("h".to_string());
    let passed_on = raw("AUTHENTICATE", &["+"]);
    assert_eq!(request.take_authentication(AuthenticateResult::Reply(passed_on.clone())), passed_on);
    assert!(request.user.is_none());
    let success = request.take_authentication(AuthenticateResult::Done("alice".to_string(), UserId(9)));
    assert_eq!(success, SaslSuccess::into_message());
    assert_eq!(request.user, Some("alice".to_string()));
    assert_eq!(request.user_id, Some(UserId(9)));

    let conn = InitiatedConnection {
        host: "h".to_string(),
        nick: "n".to_string(),
        user: "u".to_string(),
        mode: UserMode::empty(),
        real_name: "r".to_string(),
        user_id: UserId(1),
        capabilities: Capability::empty(),
        away: None,
        at: 0,
    };
    let refused = match finish_negotiation(conn.clone_connection(), false) {
        Err(refused) => refused,
        Ok(_) => panic!("expected a refusal"),
    };
    assert_eq!(refused.reply, NickNotOwnedByUser("n".to_string()).into_message());
    assert_eq!(refused.reason, "nick is already in use by another user");
    assert!(finish_negotiation(conn, true).is_ok());
}
