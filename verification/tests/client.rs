use titanirc::client::{
    build_unseen_message, departure, filter_join_request, filter_member_request, first_word_of,
    handle_command, handle_item, kill_reason, maybe_build_time_tag, parse_channel_name_list,
    ping_round, set_away, ClientAction, ClientCommand, TagBuilder, UnreadableLine,
};
use titanirc::connection::{Capability, InitiatedConnection, UserId, UserMode};
use titanirc::message::{Command, Message, Prefix, Tag};
use titanirc::messages::MessageKind;

fn conn(nick: &str) -> InitiatedConnection {
    InitiatedConnection {
        host: "127.0.0.1".to_string(),
        nick: nick.to_string(),
        user: "user".to_string(),
        mode: UserMode::empty(),
        real_name: "Real".to_string(),
        user_id: UserId(1),
        capabilities: Capability::empty(),
        away: None,
        at: 0,
    }
}

fn strings(v: &[&str]) -> Vec<String> {
    v.iter().map(|s| s.to_string()).collect()
}

fn run(c: &InitiatedConnection, joined: &[&str], command: ClientCommand) -> Vec<ClientAction> {
    handle_command(c, &strings(joined), None, command, 0, "titanirc-0.1.0")
}

fn written(actions: Vec<ClientAction>) -> Vec<Message> {
    actions
        .into_iter()
        .map(|a| match a {
            ClientAction::Write(m) => m,
            _ => panic!("expected a write"),
        })
        .collect()
}

#[test]
fn channel_list_parsing_drops_empty_names() {
    assert_eq!(parse_channel_name_list("#a,,#b,"), strings(&["#a", "#b"]));
    assert_eq!(parse_channel_name_list(""), Vec::<String>::new());
    assert_eq!(parse_channel_name_list(",,,"), Vec::<String>::new());
}

#[test]
fn spoofed_messages_are_dropped() {
    let c = conn("alice");
    let source = Some(Prefix::Nickname("mallory".to_string(), String::new(), String::new()));
    let actions = handle_command(&c, &vec![], source, ClientCommand::Motd, 0, "v");
    assert!(actions.is_empty());
    let source = Some(Prefix::Nickname("alice".to_string(), String::new(), String::new()));
    let actions = handle_command(&c, &vec![], source, ClientCommand::Motd, 0, "v");
    assert!(matches!(actions[..], [ClientAction::FetchMotd]));
}

#[test]
fn join_splits_channels() {
    let actions = run(&conn("alice"), &[], ClientCommand::Join("#a,#b".to_string()));
    match &actions[..] {
        [ClientAction::JoinChannels(v)] => assert_eq!(v, &strings(&["#a", "#b"])),
        _ => panic!("unexpected actions"),
    }
}

#[test]
fn part_only_joined_channels() {
    let c = conn("alice");
    assert!(run(&c, &["#b"], ClientCommand::Part("#a".to_string(), None)).is_empty());
    match &run(&c, &["#a"], ClientCommand::Part("#a".to_string(), Some("bye".to_string())))[..] {
        [ClientAction::PartChannel(ch, Some(m))] => {
            assert_eq!(ch, "#a");
            assert_eq!(m, "bye");
        }
        _ => panic!("unexpected actions"),
    }
}

#[test]
fn messages_route_to_users_or_joined_channels() {
    let c = conn("alice");
    match &run(&c, &[], ClientCommand::Privmsg("bob".to_string(), "hi".to_string()))[..] {
        [ClientAction::SendPrivateMessage(to, m, MessageKind::Normal)] => {
            assert_eq!(to, "bob");
            assert_eq!(m, "hi");
        }
        _ => panic!("unexpected actions"),
    }
    match &run(&c, &["#x"], ClientCommand::Notice("#x".to_string(), "hi".to_string()))[..] {
        [ClientAction::SendChannelMessage(to, _, MessageKind::Notice)] => assert_eq!(to, "#x"),
        _ => panic!("unexpected actions"),
    }
    assert!(run(&c, &[], ClientCommand::Privmsg("#x".to_string(), "hi".to_string())).is_empty());
}

#[test]
fn kick_each_user() {
    let actions = run(
        &conn("op"),
        &["#c"],
        ClientCommand::Kick("#c".to_string(), "a,b".to_string(), Some("go".to_string())),
    );
    assert_eq!(actions.len(), 2);
    match &actions[1] {
        ClientAction::Kick(ch, user, Some(r)) => {
            assert_eq!(ch, "#c");
            assert_eq!(user, "b");
            assert_eq!(r, "go");
        }
        _ => panic!("unexpected action"),
    }
}

#[test]
fn names_without_channels_does_nothing() {
    assert!(run(&conn("a"), &[], ClientCommand::Names(None)).is_empty());
    assert!(run(&conn("a"), &[], ClientCommand::Names(Some(",".to_string()))).is_empty());
}

#[test]
fn ping_is_answered_with_pong() {
    let out = written(run(&conn("a"), &[], ClientCommand::Ping("token".to_string())));
    assert_eq!(
        out,
        vec![Message {
            tags: None,
            prefix: None,
            command: Command::Raw("PONG".to_string(), strings(&["token"])),
        }]
    );
}

#[test]
fn version_reply() {
    let out = written(run(&conn("a"), &[], ClientCommand::Version));
    assert_eq!(
        out[0],
        Message {
            tags: None,
            prefix: Some(Prefix::ServerName("my.cool.server".to_string())),
            command: Command::Response(351, strings(&["a", "titanirc-0.1.0", "my.cool.server"])),
        }
    );
}

#[test]
fn time_reply() {
    let c = conn("a");
    let out = written(handle_command(&c, &vec![], None, ClientCommand::Time, 86_400, "v"));
    assert_eq!(
        out[0].command,
        Command::Response(
            391,
            strings(&["a", "my.cool.server", "86400", "Fri Jan 02 1970 00:00:00"])
        )
    );
}

#[test]
fn wallops_needs_operator() {
    let mut c = conn("a");
    let out = written(run(&c, &[], ClientCommand::Wallops("hey".to_string())));
    assert_eq!(
        out[0].command,
        Command::Response(421, strings(&["WALLOPS", "Unknown command"]))
    );
    assert_eq!(
        out[0].prefix,
        Some(Prefix::Nickname("a".to_string(), String::new(), String::new()))
    );
    c.mode.oper = true;
    assert!(matches!(
        &run(&c, &[], ClientCommand::Wallops("hey".to_string()))[..],
        [ClientAction::Wallops(_)]
    ));
}

#[test]
fn unknown_commands_name_their_first_word() {
    let out = written(run(&conn("a"), &[], ClientCommand::Other("FOO bar baz".to_string())));
    assert_eq!(out[0].command, Command::Response(421, strings(&["FOO", "Unknown command"])));
    let out = written(run(&conn("a"), &[], ClientCommand::Who(None)));
    assert_eq!(out[0].command, Command::Response(421, strings(&["WHO", "Unknown command"])));
}

#[test]
fn info_lines() {
    let out = written(run(&conn("a"), &[], ClientCommand::Info));
    assert_eq!(out.len(), 3);
    assert_eq!(
        out[2].command,
        Command::Response(374, strings(&["a", "End of INFO list"]))
    );
}

#[test]
fn authenticate_after_login() {
    let out = written(run(&conn("a"), &[], ClientCommand::Authenticate));
    assert_eq!(
        out[0].command,
        Command::Response(907, strings(&["a", "You have already authenticated using SASL"]))
    );
}

#[test]
fn first_word() {
    assert_eq!(first_word_of("  USERHOST a b"), "USERHOST");
    assert_eq!(first_word_of(""), "");
    assert_eq!(first_word_of("   "), "");
}

#[test]
fn join_request_skips_joined_and_non_channels() {
    let v = filter_join_request(strings(&["#a", "b", "#c", "#a"]), &strings(&["#c"]));
    assert_eq!(v, strings(&["#a", "#a"]));
}

#[test]
fn member_request_keeps_joined_order() {
    let v = filter_member_request(&strings(&["#x", "#y", "#z"]), &strings(&["#z", "#x", "#q"]));
    assert_eq!(v, strings(&["#x", "#z"]));
}

#[test]
fn time_tags_only_with_server_time() {
    assert_eq!(maybe_build_time_tag(Capability::empty(), 0), None);
    let caps = Capability { userhost_in_names: false, server_time: true };
    assert_eq!(
        maybe_build_time_tag(caps, 1_500),
        Some(Tag { key: "time".to_string(), value: Some("1970-01-01T00:00:01.500Z".to_string()) })
    );
}

#[test]
fn tag_builder_skips_missing_tags() {
    assert_eq!(TagBuilder::new().insert(None).into_tags(), None);
    let t = Tag { key: "k".to_string(), value: None };
    assert_eq!(TagBuilder::new().insert(Some(t.clone())).into_tags(), Some(vec![t]));
}

#[test]
fn replayed_message() {
    let caps = Capability { userhost_in_names: false, server_time: true };
    let m = build_unseen_message(
        caps,
        0,
        "bob!b@host",
        "alice".to_string(),
        "hi".to_string(),
        MessageKind::Notice,
    );
    assert_eq!(
        m,
        Message {
            tags: Some(vec![Tag {
                key: "time".to_string(),
                value: Some("1970-01-01T00:00:00.000Z".to_string())
            }]),
            prefix: Some(Prefix::Nickname("bob".to_string(), "b".to_string(), "host".to_string())),
            command: Command::Raw("NOTICE".to_string(), strings(&["alice", "hi"])),
        }
    );
}

#[test]
fn departure_texts() {
    let d = departure(true, Some("bye".to_string()));
    assert_eq!(d.server_message.as_deref(), Some("Quit: bye"));
    assert_eq!(d.channel_message.as_deref(), Some("bye"));
    assert_eq!(d.error.command, Command::Raw("ERROR".to_string(), strings(&[""])));
    let d = departure(false, None);
    assert_eq!(d.server_message, None);
    assert_eq!(
        d.error.command,
        Command::Raw("ERROR".to_string(), strings(&["Closing Link: Ungraceful shutdown"]))
    );
}

#[test]
fn ping_timeouts() {
    assert!(ping_round(119).timeout_reason.is_none());
    assert_eq!(
        ping_round(120).timeout_reason.as_deref(),
        Some("Ping timeout: 120 seconds")
    );
    assert_eq!(
        ping_round(0).ping.command,
        Command::Raw("PING".to_string(), strings(&["my.cool.server"]))
    );
}

#[test]
fn kill_and_away_texts() {
    assert_eq!(kill_reason("op", "spam"), "Killed (op (spam))");
    let mut c = conn("a");
    let r = set_away(&mut c, Some(String::new()));
    assert!(c.away.is_none());
    assert_eq!(r.command, Command::Response(305, strings(&["a", "You are no longer marked as being away"])));
    let r = set_away(&mut c, Some("lunch".to_string()));
    assert_eq!(c.away.as_deref(), Some("lunch"));
    assert_eq!(r.command, Command::Response(306, strings(&["a", "You have been marked as being away"])));
}

#[test]
fn unreadable_lines_are_dropped() {
    let c = conn("alice");
    assert!(handle_item(&c, &vec![], Err(UnreadableLine), 0, "1").is_empty());
    assert_eq!(handle_item(&c, &vec![], Ok((None, ClientCommand::Motd)), 0, "1").len(), 1);
}
