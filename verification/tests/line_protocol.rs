use titanirc::protocol::commands::{Command, ParseError};
use titanirc::protocol::primitives::{
    Channel, FreeText, Letter, Mode, Nick, Nicks, Number, Receiver, Rights, RightsPrefixedChannel,
    RightsPrefixedChannels, RightsPrefixedNick, RightsPrefixedNicks, ServerName, Special,
    ValidatingParser,
};
use titanirc::protocol::replies::{Reply, ServerMessage, Source};
use titanirc::session::{
    broadcast_targets, join_notice, may_send, CommandHandler, UserRequest, Session,
};
use titanirc::wire::{find_crlf, Decoder, Encoder, FrameError, MAX_LENGTH};

fn parse(s: &str) -> Result<Option<Command>, ParseError> {
    Command::parse(&s.as_bytes().to_vec())
}

fn written(m: ServerMessage, nick: Option<&Vec<u8>>) -> String {
    let mut out = Vec::new();
    m.write("irc.example", nick, &mut out);
    String::from_utf8(out).unwrap()
}

#[test]
fn parse_empty() {
    assert!(matches!(parse(""), Ok(None)));
}

#[test]
fn parse_privmsg() {
    match parse("PRIVMSG foo :baz") {
        Ok(Some(Command::Privmsg(p))) => {
            assert_eq!(p.receiver, Receiver::User(Nick(b"foo".to_vec())));
            assert_eq!(p.free_text, FreeText(b"baz".to_vec()));
        }
        other => panic!("unexpected {other:?}"),
    }
}

#[test]
fn parse_privmsg_opt_source() {
    match parse(":some-fake-source!dude@nice PRIVMSG foo :baz") {
        Ok(Some(Command::Privmsg(p))) => {
            assert_eq!(p.receiver, Receiver::User(Nick(b"foo".to_vec())));
            assert_eq!(p.free_text, FreeText(b"baz".to_vec()));
        }
        other => panic!("unexpected {other:?}"),
    }
}

#[test]
fn parse_privmsg_to_channel_keeps_spaces() {
    match parse("privmsg #chan :hello there") {
        Ok(Some(Command::Privmsg(p))) => {
            assert_eq!(p.receiver, Receiver::Channel(Channel(b"#chan".to_vec())));
            assert_eq!(p.free_text, FreeText(b"hello there".to_vec()));
        }
        other => panic!("unexpected {other:?}"),
    }
}

#[test]
fn parse_errors() {
    assert!(matches!(parse("NICK"), Err(ParseError::MissingSpace)));
    assert!(matches!(parse("NICK 1abc"), Err(ParseError::InvalidNick)));
    assert!(matches!(parse("PRIVMSG foo baz"), Err(ParseError::MissingColon)));
    assert!(matches!(parse("PRIVMSG foo"), Err(ParseError::MissingSpace)));
    assert!(matches!(parse("FOO bar"), Ok(None)));
}

#[test]
fn parse_parameters() {
    match parse("USER guest host server real") {
        Ok(Some(Command::User(u))) => {
            assert_eq!(u.username.0, b"guest".to_vec());
            assert_eq!(u.real_name.0, b"real".to_vec());
        }
        other => panic!("unexpected {other:?}"),
    }
    match parse("MODE jordan +i") {
        Ok(Some(Command::Mode(m))) => {
            assert_eq!(m.nick, Nick(b"jordan".to_vec()));
            assert_eq!(m.mode, Mode(b"+i".to_vec()));
        }
        other => panic!("unexpected {other:?}"),
    }
    assert!(matches!(parse("motd extra words"), Ok(Some(Command::Motd))));
    match parse("PING :token") {
        Ok(Some(Command::Ping(p))) => assert_eq!(p.server_name, ServerName(b":token".to_vec())),
        other => panic!("unexpected {other:?}"),
    }
}

#[test]
fn validators() {
    assert!(Letter::validate(b"abcXYZ"));
    assert!(!Letter::validate(b"ab1"));
    assert!(Number::validate(b"0123"));
    assert!(!Number::validate(b"12a"));
    assert!(Special::validate(b"-[]\\`^{}"));
    assert!(!Special::validate(b"_"));
    assert!(Nick::validate(b"a1-[x]"));
    assert!(!Nick::validate(b""));
    assert!(!Nick::validate(b"[a"));
    assert_eq!(Rights::Op.symbol(), b'@');
    assert_eq!(Rights::Voice.symbol(), b'+');
}

#[test]
fn crlf_search() {
    assert_eq!(find_crlf(&b"NICK a\r\nrest".to_vec()), Some(7));
    assert_eq!(find_crlf(&b"no line".to_vec()), None);
    // the reader checks bytes in pairs after a carriage return
    assert_eq!(find_crlf(&b"\r\r\n".to_vec()), None);
    assert_eq!(find_crlf(&b"a\r\n".to_vec()), Some(2));
}

#[test]
fn decoding_lines() {
    let mut d = Decoder;
    let mut buf = b"NICK jordan\r\nMOTD\r\npartial".to_vec();
    assert!(matches!(d.decode(&mut buf), Ok(Some(Command::Nick(_)))));
    assert_eq!(buf, b"MOTD\r\npartial".to_vec());
    assert!(matches!(d.decode(&mut buf), Ok(Some(Command::Motd))));
    assert!(matches!(d.decode(&mut buf), Ok(None)));
    assert_eq!(buf, b"partial".to_vec());
    let mut unknown = b"FOO\r\n".to_vec();
    assert!(matches!(d.decode(&mut unknown), Err(FrameError::UnknownCommand)));
    let mut big = vec![b'a'; MAX_LENGTH + 1];
    assert!(matches!(d.decode(&mut big), Err(FrameError::TooLarge(1025))));
}

#[test]
fn writing_messages() {
    assert_eq!(written(ServerMessage::Ping, None), "PING :irc.example");
    assert_eq!(written(ServerMessage::Pong, None), "PONG :irc.example");
    assert_eq!(
        written(ServerMessage::Reply(Reply::RplEndOfMotd), None),
        ":irc.example 376 * :End of /MOTD command"
    );
    let nick = b"jordan".to_vec();
    assert_eq!(
        written(ServerMessage::Reply(Reply::RplMotd(FreeText(b"hi".to_vec()))), Some(&nick)),
        ":irc.example 372 jordan :- hi"
    );
    assert_eq!(
        written(join_notice(b"jordan".to_vec(), b"#c".to_vec()), None),
        ":jordan JOIN #c"
    );
    assert_eq!(
        written(
            ServerMessage::Command(Source::Server, parse("WHOIS bob").unwrap().unwrap()),
            None
        ),
        ":irc.example WHOIS bob"
    );
}

#[test]
fn session_answers() {
    let mut session = Session::new("0.1.0".to_string(), 10);
    let nick = parse("NICK jordan").unwrap().unwrap();
    let greeted = session.handle(nick, 12);
    assert_eq!(greeted.replies.len(), 5);
    assert!(matches!(greeted.request, Some(UserRequest::TakeNick(ref n)) if n == b"jordan"));
    assert_eq!(session.nick, Some(b"jordan".to_vec()));
    assert_eq!(session.last_active, 12);
    assert_eq!(session.handle(Command::Motd, 13).replies.len(), 4);
    let version = session.handle(Command::Version, 14);
    let mut out = Vec::new();
    ServerMessage::Reply(version.replies.into_iter().next().unwrap()).write("s", None, &mut out);
    assert_eq!(
        String::from_utf8(out).unwrap(),
        ":s 351 * 0.1.0.release my.test.server :https://github.com/MITBorg/titanirc"
    );
    let listed = session.handle(Command::List, 15);
    assert!(listed.replies.is_empty());
    assert!(listed.request.is_none());
}

#[test]
fn session_mode_and_join() {
    let mut session = Session::new("0.1.0".to_string(), 0);
    let mode = match parse("MODE jordan +i").unwrap().unwrap() {
        Command::Mode(m) => m,
        _ => panic!("expected a mode command"),
    };
    let answered = session.handle_cmd(mode);
    assert_eq!(answered.replies.len(), 1);
    assert!(matches!(&answered.replies[0], Reply::RplUmodeIs(Mode(m)) if m == b"+i"));
    let nameless = session.handle(parse("JOIN #c").unwrap().unwrap(), 1);
    assert!(nameless.request.is_none());
    session.handle(parse("NICK jordan").unwrap().unwrap(), 1);
    let joined = session.handle(parse("JOIN #c").unwrap().unwrap(), 2);
    assert!(matches!(joined.request, Some(UserRequest::Join(ref c)) if c == b"#c"));
    assert!(session.channels.is_empty());
    session.channel_joined(b"#c".to_vec());
    session.channel_joined(b"#c".to_vec());
    assert_eq!(session.channels, vec![b"#c".to_vec()]);
}

#[test]
fn session_timeout() {
    let session = Session::new("0.1.0".to_string(), 100);
    assert!(!session.timed_out(340));
    assert!(session.timed_out(341));
    assert!(!Session::new(String::new(), i64::MIN).timed_out(i64::MIN + 5));
}

#[test]
fn user_requests() {
    let mut session = Session::new("0.1.0".to_string(), 0);
    session.channel_joined(b"#in".to_vec());
    let to_channel = parse("PRIVMSG #out :hi").unwrap().unwrap();
    assert!(!may_send(&to_channel, &session.channels));
    let to_joined = parse("PRIVMSG #in :hi").unwrap().unwrap();
    assert!(may_send(&to_joined, &session.channels));
    match session.handle(to_joined, 1).request {
        Some(UserRequest::MessageChannel(c, t)) => {
            assert_eq!(c, b"#in".to_vec());
            assert_eq!(t, b"hi".to_vec());
        }
        _ => panic!("expected a channel message"),
    }
    match session.handle(parse("PRIVMSG bob :yo").unwrap().unwrap(), 2).request {
        Some(UserRequest::MessageUser(n, t)) => {
            assert_eq!(n, b"bob".to_vec());
            assert_eq!(t, b"yo".to_vec());
        }
        _ => panic!("expected a private message"),
    }
    assert!(session.handle(Command::Motd, 3).request.is_none());
}

#[test]
fn broadcasts_skip_the_sender() {
    assert_eq!(broadcast_targets(&vec![1, 2, 3, 2], Some(2)), vec![1, 3]);
    assert_eq!(broadcast_targets(&vec![1, 2], None), vec![1, 2]);
}

#[test]
fn encoder_ends_each_message_with_crlf() {
    let mut out = b"x".to_vec();
    let anonymous = Encoder::new("irc.example", None);
    anonymous.encode(ServerMessage::Ping, &mut out);
    assert_eq!(out, b"xPING :irc.example\r\n".to_vec());
    let named = Encoder::new("irc.example", Some(b"jordan".to_vec()));
    let mut out = Vec::new();
    named.encode(ServerMessage::Reply(Reply::RplEndOfMotd), &mut out);
    let text = String::from_utf8(out).unwrap();
    assert!(text.starts_with(":irc.example 376 jordan "));
    assert!(text.ends_with("\r\n"));
}

#[test]
fn message_notices() {
    assert_eq!(
        written(
            titanirc::session::channel_message_notice(b"a".to_vec(), b"#c".to_vec(), b"hi".to_vec()),
            None
        ),
        ":a PRIVMSG #c hi"
    );
    assert_eq!(
        written(
            titanirc::session::user_message_notice(b"a".to_vec(), b"b".to_vec(), b"yo".to_vec()),
            None
        ),
        ":a PRIVMSG b yo"
    );
}

#[test]
fn nick_lists_read_space_terminated_nicks() {
    let (nicks, rest) = Nicks::parse(&b"alice bob  carol".to_vec());
    assert_eq!(nicks.0, vec![Nick(b"alice".to_vec()), Nick(b"bob".to_vec()), Nick(Vec::new())]);
    assert_eq!(rest, b"carol".to_vec());
    let (none, all) = Nicks::parse(&b"solo".to_vec());
    assert!(none.0.is_empty());
    assert_eq!(all, b"solo".to_vec());
    let mut out = Vec::new();
    nicks.write_to(&mut out);
    assert_eq!(out, b"alice bob ".to_vec());
}

#[test]
fn rights_prefixed_lists() {
    let nicks = RightsPrefixedNicks(vec![
        RightsPrefixedNick(Rights::Op, Nick(b"a".to_vec())),
        RightsPrefixedNick(Rights::Voice, Nick(b"b".to_vec())),
    ]);
    let mut out = Vec::new();
    nicks.write_to(&mut out);
    assert_eq!(out, b"@a +b".to_vec());
    let channels = RightsPrefixedChannels(vec![RightsPrefixedChannel(Rights::Op, Nick(b"#c".to_vec()))]);
    let mut out = Vec::new();
    channels.write_to(&mut out);
    assert_eq!(out, b"@#c".to_vec());
    let mut out = Vec::new();
    RightsPrefixedChannels(vec![]).write_to(&mut out);
    assert!(out.is_empty());
}
