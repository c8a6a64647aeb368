use titanirc::channel::permissions::{ChannelModeFlag, ModeChange, Permission};
use titanirc::channel::response::{
    invite_outcome, join_announcement_messages, kick_message, mode_message, part_message,
    quit_message, ChannelInviteResult, ChannelNamesList, ChannelTopic, ChannelWhoList,
    MissingPrivileges,
};
use titanirc::channel::{
    Channel, ChannelId, ChannelJoinRejectionReason, CurrentChannelTopic, SetUserMode,
};
use titanirc::connection::{Capability, InitiatedConnection, UserId, UserMode};
use titanirc::message::{Command, Message, Prefix};
use titanirc::proto::Error;
use titanirc::server::response::{
    AdminInfo, ChannelList, ChannelListItem, IntoProtocol, ListUsers, Motd, NoSuchNick, WhoList,
    Whois,
};
use titanirc::server::{admin_info, updated_max_clients, welcome_messages, ClientRegistry};

const SERVER: &str = "my.cool.server";

fn conn(nick: &str) -> InitiatedConnection {
    InitiatedConnection {
        host: "10.0.0.1".to_string(),
        nick: nick.to_string(),
        user: format!("{nick}_u"),
        mode: UserMode::empty(),
        real_name: format!("{nick} real"),
        user_id: UserId(1),
        capabilities: Capability::empty(),
        away: None,
        at: 1_000,
    }
}

fn params(m: &Message) -> (u16, Vec<String>) {
    match &m.command {
        Command::Response(code, p) => (*code, p.clone()),
        Command::Raw(..) => panic!("expected a numeric reply"),
    }
}

fn strings(v: &[&str]) -> Vec<String> {
    v.iter().map(|s| s.to_string()).collect()
}

fn server_prefix() -> Option<Prefix> {
    Some(Prefix::ServerName(SERVER.to_string()))
}

#[test]
fn whois_unknown_nick() {
    let out = Whois { query: "ghost".to_string(), conn: None, channels: vec![] }.into_messages("me");
    assert_eq!(out.len(), 1);
    assert_eq!(params(&out[0]), (401, strings(&["me", "ghost", "No such nick"])));
    assert_eq!(out[0].prefix, server_prefix());
}

#[test]
fn whois_connected_user() {
    let mut c = conn("bob");
    c.away = Some("gone".to_string());
    let out = Whois {
        query: "bob".to_string(),
        conn: Some(c),
        channels: vec![(Permission::Operator, "#a".to_string()), (Permission::Normal, "#b".to_string())],
    }
    .into_messages("me");
    let codes: Vec<u16> = out.iter().map(|m| params(m).0).collect();
    assert_eq!(codes, vec![311, 312, 317, 319, 301, 318]);
    assert_eq!(params(&out[0]).1, strings(&["me", "bob", "bob_u", "*", "bob real"]));
    assert_eq!(params(&out[2]).1, strings(&["me", "bob", "0", "1000", "seconds idle, signon time"]));
    assert_eq!(params(&out[3]).1, strings(&["me", "bob", "@#a #b"]));
    assert_eq!(params(&out[4]).1, strings(&["me", "bob", "gone"]));
}

#[test]
fn no_such_nick() {
    let out = NoSuchNick { nick: "x".to_string() }.into_messages("me");
    assert_eq!(params(&out[0]), (401, strings(&["me", "x", "No such nick"])));
}

#[test]
fn who_lists() {
    let mut away = conn("b");
    away.away = Some("afk".to_string());
    let list = ChannelWhoList {
        channel_name: "#c".to_string(),
        nick_list: vec![(Permission::Voice, conn("a")), (Permission::Normal, away)],
    };
    let out = WhoList { list: vec![list], query: "#c".to_string() }.into_messages("me");
    assert_eq!(out.len(), 3);
    assert_eq!(
        params(&out[0]).1,
        strings(&["me", "#c", "a_u", "10.0.0.1", SERVER, "a", "H+", "0", "a real"])
    );
    assert_eq!(params(&out[1]).1[6], "G");
    assert_eq!(params(&out[2]), (315, strings(&["me", "#c", "End of WHO list"])));
    let empty = WhoList::new("nobody".to_string()).into_messages("me");
    assert_eq!(empty.len(), 1);
}

#[test]
fn admin_replies() {
    let out = admin_info().into_messages("me");
    let codes: Vec<u16> = out.iter().map(|m| params(m).0).collect();
    assert_eq!(codes, vec![256, 257, 258, 259]);
    assert_eq!(params(&out[0]).1, strings(&["me", SERVER, "Administrative info"]));
    assert_eq!(params(&out[3]).1, strings(&["me", "Email: me@example.com"]));
    let custom = AdminInfo { line1: "a".to_string(), line2: "b".to_string(), email: "c".to_string() };
    assert_eq!(params(&custom.into_messages("x")[1]).1, strings(&["x", "a"]));
}

#[test]
fn user_counts() {
    let out = ListUsers {
        current_clients: 12,
        max_clients: 340,
        operators_online: 0,
        channels_formed: 5,
    }
    .into_messages("me");
    assert_eq!(out.len(), 6);
    assert_eq!(
        params(&out[0]).1,
        strings(&["me", "There are 12 users and 0 invisible on 1 servers"])
    );
    assert_eq!(params(&out[1]).1, strings(&["me", "0", "operator(s) online"]));
    assert_eq!(params(&out[2]).1, strings(&["me", "5", "channels formed"]));
    assert_eq!(params(&out[3]).1, strings(&["me", "I have 12 clients and 1 servers"]));
    assert_eq!(
        params(&out[4]).1,
        strings(&["me", "12", "340", "Current local users 12, max 340"])
    );
    assert_eq!(
        params(&out[5]),
        (266, strings(&["me", "12", "340", "Current global users 12, max 340"]))
    );
}

#[test]
fn motd_lines_are_trimmed_and_split() {
    let out = Motd { motd: Some("\n  hello\nworld \n".to_string()) }.into_messages("me");
    assert_eq!(out.len(), 4);
    assert_eq!(params(&out[0]), (375, strings(&["me", "- my.cool.server Message of the day -"])));
    assert_eq!(params(&out[1]), (372, strings(&["me", "hello"])));
    assert_eq!(params(&out[2]), (372, strings(&["me", "world"])));
    assert_eq!(params(&out[3]), (376, strings(&["me", "End of /MOTD command."])));
    let none = Motd { motd: None }.into_messages("me");
    assert_eq!(params(&none[0]), (422, strings(&["me", "MOTD File is missing"])));
}

#[test]
fn channel_list() {
    let out = ChannelList {
        members: vec![
            ChannelListItem { channel_name: "#a".to_string(), client_count: 3, topic: None },
            ChannelListItem {
                channel_name: "#b".to_string(),
                client_count: 10,
                topic: Some("hi".to_string()),
            },
        ],
    }
    .into_messages("me");
    assert_eq!(out.len(), 4);
    assert_eq!(params(&out[0]), (321, strings(&["me", "Channel", "Users  Name"])));
    assert_eq!(params(&out[1]), (322, strings(&["me", "#a", "3", ""])));
    assert_eq!(params(&out[2]), (322, strings(&["me", "#b", "10", "hi"])));
    assert_eq!(params(&out[3]), (323, strings(&["me", "End of /LIST"])));
    assert_eq!(ChannelList::new().into_messages("me").len(), 2);
}

#[test]
fn topics() {
    let topic = CurrentChannelTopic {
        topic: "welcome".to_string(),
        set_by: "op".to_string(),
        set_time: -5,
    };
    let mut channel = Channel::new("#c".to_string(), ChannelId(1));
    let out = ChannelTopic::new(&channel, false).into_messages("me");
    assert_eq!(params(&out[0]), (331, strings(&["me", "#c", "No topic is set"])));
    assert!(ChannelTopic::new(&channel, true).into_messages("me").is_empty());
    channel.topic = Some(topic);
    let out = ChannelTopic::new(&channel, true).into_messages("me");
    assert_eq!(params(&out[0]), (332, strings(&["me", "#c", "welcome"])));
    assert_eq!(params(&out[1]), (333, strings(&["me", "#c", "op", "-5"])));
}

#[test]
fn names_lists() {
    let list = ChannelNamesList {
        channel_name: "#c".to_string(),
        nick_list: vec![(Permission::Founder, conn("a")), (Permission::Normal, conn("b"))],
    };
    let out = list.into_messages("me".to_string(), false);
    assert_eq!(params(&out[0]), (353, strings(&["me", "=", "#c", "~a b"])));
    assert_eq!(params(&out[1]), (366, strings(&["me", "End of /NAMES list"])));
    let list = ChannelNamesList {
        channel_name: "#c".to_string(),
        nick_list: vec![(Permission::HalfOperator, conn("a"))],
    };
    let out = list.into_messages("me".to_string(), true);
    assert_eq!(params(&out[0]).1[3], "%a!a_u@10.0.0.1");
    let empty = ChannelNamesList::empty("#e".to_string()).into_messages("me".to_string(), false);
    assert_eq!(params(&empty[0]).1, strings(&["me", "=", "#e", ""]));
}

#[test]
fn invites() {
    let ok = ChannelInviteResult::Successful
        .into_message("bob".to_string(), "#c".to_string(), "me".to_string())
        .unwrap();
    assert_eq!(params(&ok), (341, strings(&["me", "bob", "#c"])));
    assert!(ChannelInviteResult::NoSuchUser
        .into_message("bob".to_string(), "#c".to_string(), "me".to_string())
        .is_none());
    let already = ChannelInviteResult::UserAlreadyOnChannel
        .into_message("bob".to_string(), "#c".to_string(), "me".to_string())
        .unwrap();
    assert_eq!(params(&already), (443, strings(&["me", "bob", "#c", "is already on channel"])));
    let not_on = ChannelInviteResult::NotOnChannel
        .into_message("bob".to_string(), "#c".to_string(), "me".to_string())
        .unwrap();
    assert_eq!(params(&not_on), (442, strings(&["me", "#c", "You're not on that channel"])));
    assert_eq!(invite_outcome(false, true, false), ChannelInviteResult::NotOnChannel);
    assert_eq!(invite_outcome(true, false, false), ChannelInviteResult::NoSuchUser);
    assert_eq!(invite_outcome(true, true, true), ChannelInviteResult::UserAlreadyOnChannel);
    assert_eq!(invite_outcome(true, true, false), ChannelInviteResult::Successful);
}

#[test]
fn banned_from_channel() {
    let out = ChannelJoinRejectionReason::Banned.into_messages("me");
    assert_eq!(params(&out[0]), (474, strings(&["me", "Cannot join channel (+b)"])));
}

#[test]
fn missing_privileges() {
    let m = MissingPrivileges(
        Prefix::Nickname("a".to_string(), "u".to_string(), String::new()),
        "#c".to_string(),
    )
    .into_message();
    assert_eq!(m.prefix, None);
    assert_eq!(params(&m), (482, strings(&["a!u", "#c", "You're not channel operator"])));
}

#[test]
fn join_announcements() {
    let c = conn("a");
    let out = join_announcement_messages(&c, &"#c".to_string(), Permission::Operator);
    assert_eq!(out.len(), 2);
    assert_eq!(out[0].command, Command::Raw("JOIN".to_string(), strings(&["#c"])));
    assert_eq!(out[1].command, Command::Raw("MODE".to_string(), strings(&["#c", "+o", "a"])));
    assert_eq!(join_announcement_messages(&c, &"#c".to_string(), Permission::Normal).len(), 1);
}

#[test]
fn channel_commands() {
    let c = conn("a");
    let change = ModeChange { add: false, mode: ChannelModeFlag::Voice, argument: Some("b".to_string()) };
    assert_eq!(
        mode_message(&c, &"#c".to_string(), &change).command,
        Command::Raw("MODE".to_string(), strings(&["#c", "-v", "b"]))
    );
    assert_eq!(
        kick_message(&c, &"#c".to_string(), &"b".to_string(), None).command,
        Command::Raw("KICK".to_string(), strings(&["#c", "b"]))
    );
    assert_eq!(
        part_message(&c, &"#c".to_string(), Some("bye".to_string())).command,
        Command::Raw("PART".to_string(), strings(&["#c", "bye"]))
    );
    let q = quit_message(&c, None);
    assert_eq!(q.command, Command::Raw("QUIT".to_string(), vec![]));
    assert_eq!(q.prefix, Some(c.to_nick()));
}

#[test]
fn welcome() {
    let c = conn("a");
    let out = welcome_messages(&c, "0.1.0", None);
    let codes: Vec<u16> = out.iter().map(|m| params(m).0).collect();
    assert_eq!(codes, vec![1, 2, 3, 4, 5, 422]);
    assert_eq!(params(&out[0]).1, strings(&["a", "Welcome to the network a!a_u@10.0.0.1"]));
    assert_eq!(
        params(&out[1]).1,
        strings(&["a", "Your host is my.cool.server, running version 0.1.0"])
    );
    assert_eq!(
        params(&out[4]).1,
        strings(&["a", "PREFIX=(qohv)~@%+", "are supported by this server"])
    );
}

#[test]
fn max_clients_never_drops() {
    assert_eq!(updated_max_clients(3, 10), 10);
    assert_eq!(updated_max_clients(11, 10), 11);
}

#[test]
fn local_command_errors_answer_unknown_command() {
    let out = Error::TooManyArguments.into_messages("me");
    assert_eq!(params(&out[0]), (421, strings(&["me", "command", "Unknown command"])));
    assert_eq!(out[0].prefix, server_prefix());
}

#[test]
fn who_list_kept_for_one_user() {
    let mut other = conn("b");
    other.user_id = UserId(2);
    let list = ChannelWhoList {
        channel_name: "#c".to_string(),
        nick_list: vec![(Permission::Voice, conn("a")), (Permission::Normal, other)],
    };
    let kept = list.retain_user(UserId(2));
    assert_eq!(kept.channel_name, "#c");
    assert_eq!(kept.nick_list.len(), 1);
    assert_eq!(kept.nick_list[0].1.nick, "b");
    assert!(kept.retain_user(UserId(1)).nick_list.is_empty());
}

#[test]
fn connection_copies_and_masks() {
    let c = conn("bob");
    let copy = c.clone_connection();
    assert_eq!(copy.nick, "bob");
    assert_eq!(copy.user, "bob_u");
    assert_eq!(copy.at, 1_000);
    let mask = c.to_host_mask();
    assert_eq!(mask.to_string(), "bob!bob_u@10.0.0.1");
}

#[test]
fn permission_levels() {
    assert_eq!(Permission::from_level(-1), Some(Permission::Ban));
    assert_eq!(Permission::from_level(0), Some(Permission::Normal));
    assert_eq!(Permission::from_level(1), Some(Permission::Voice));
    assert_eq!(Permission::from_level(7), None);
}

#[test]
fn member_lists_carry_each_level() {
    let mut channel = Channel::new("#c".to_string(), ChannelId(3));
    let mut founder = conn("a");
    founder.user_id = UserId(7);
    let mut guest = conn("b");
    guest.user_id = UserId(8);
    assert!(channel.join_client(10, founder).is_ok());
    assert!(channel.join_client(11, guest).is_ok());
    let who = ChannelWhoList::new(&channel);
    assert_eq!(who.channel_name, "#c");
    assert_eq!(who.nick_list.len(), 2);
    assert_eq!(who.nick_list[0].0, Permission::Founder);
    assert_eq!(who.nick_list[1].0, Permission::Normal);
    assert_eq!(who.nick_list[1].1.nick, "b");
    let names = ChannelNamesList::new(&channel).into_messages("me".to_string(), false);
    assert_eq!(params(&names[0]), (353, strings(&["me", "=", "#c", "~a b"])));
}

#[test]
fn channel_modes_are_decided_and_announced() {
    let mut channel = Channel::new("#c".to_string(), ChannelId(1));
    let mut op = conn("op");
    op.user_id = UserId(1);
    let mut bob = conn("bob");
    bob.user_id = UserId(2);
    let mut bob_again = conn("bob2");
    bob_again.user_id = UserId(2);
    assert!(channel.join_client(1, op.clone()).is_ok());
    assert!(channel.join_client(2, bob.clone()).is_ok());
    assert!(channel.join_client(3, bob_again).is_ok());
    assert_eq!(channel.get_user_permissions(UserId(1)), Permission::Founder);
    let modes = vec![
        ModeChange { add: true, mode: ChannelModeFlag::Voice, argument: Some("bob".to_string()) },
        ModeChange { add: true, mode: ChannelModeFlag::Other, argument: Some("bob".to_string()) },
        ModeChange { add: true, mode: ChannelModeFlag::Oper, argument: None },
        ModeChange { add: true, mode: ChannelModeFlag::Oper, argument: Some("ghost".to_string()) },
    ];
    let out = channel.set_modes(&op, &modes);
    assert_eq!(out.len(), 2);
    assert_eq!(out[0].command, Command::Raw("MODE".to_string(), strings(&["#c", "+v", "bob"])));
    assert_eq!(out[0].prefix, Some(Prefix::Nickname("bob".to_string(), "bob_u".to_string(), "10.0.0.1".to_string())));
    assert_eq!(out[1].command, Command::Raw("MODE".to_string(), strings(&["#c", "+v", "bob2"])));
    assert_eq!(channel.get_user_permissions(UserId(2)), Permission::Voice);
    let demote = SetUserMode {
        requester: bob.clone(),
        add: false,
        affected_nick: "op".to_string(),
        user_mode: Permission::Founder,
    };
    let refused = channel.set_member_mode(&demote);
    assert!(refused.is_empty());
    assert_eq!(channel.get_user_permissions(UserId(1)), Permission::Founder);
    let unvoice = SetUserMode {
        requester: op.clone(),
        add: false,
        affected_nick: "bob".to_string(),
        user_mode: Permission::Voice,
    };
    let removed = channel.set_member_mode(&unvoice);
    assert_eq!(removed[0].command, Command::Raw("MODE".to_string(), strings(&["#c", "-v", "bob"])));
    assert_eq!(channel.get_user_permissions(UserId(2)), Permission::Normal);
}

#[test]
fn kicks_and_channel_messages() {
    let mut channel = Channel::new("#c".to_string(), ChannelId(4));
    let mut op = conn("op");
    op.user_id = UserId(1);
    let mut bob = conn("bob");
    bob.user_id = UserId(2);
    let mut eve = conn("eve");
    eve.user_id = UserId(3);
    let joined = channel.join_client(1, op.clone()).ok().unwrap();
    assert_eq!(joined.recipients, vec![1]);
    assert_eq!(joined.messages[0].command, Command::Raw("JOIN".to_string(), strings(&["#c"])));
    channel.join_client(2, bob.clone()).ok().unwrap();
    let third = channel.join_client(3, eve.clone()).ok().unwrap();
    assert_eq!(third.recipients, vec![1, 2, 3]);
    assert!(channel.kick_user(2, &"eve".to_string(), None).is_none());
    assert!(channel.kick_user(1, &"ghost".to_string(), None).is_none());
    assert!(channel.kick_user(9, &"eve".to_string(), None).is_none());
    let (kicked, delivery) = channel.kick_user(1, &"eve".to_string(), Some("bye".to_string())).unwrap();
    assert_eq!(kicked, 3);
    assert_eq!(delivery.recipients, vec![1, 2, 3]);
    let notice = &delivery.messages[0];
    assert_eq!(notice.command, Command::Raw("KICK".to_string(), strings(&["#c", "eve", "bye"])));
    assert_eq!(notice.prefix, Some(Prefix::Nickname("op".to_string(), "op_u".to_string(), "10.0.0.1".to_string())));
    assert_eq!(channel.client_id_list(), vec![1, 2]);

    let said = channel.message_from(2, "hello".to_string()).unwrap();
    assert_eq!(said.recipients, vec![1]);
    assert_eq!(said.messages[0].command, Command::Raw("PRIVMSG".to_string(), strings(&["#c", "hello"])));
    assert!(channel.message_from(3, "hello".to_string()).is_none());
    let banned = vec![(UserId(2), Permission::Ban)];
    channel.load_permissions(banned);
    assert!(channel.message_from(2, "hello".to_string()).is_none());
}

#[test]
fn results_carry_the_messages_of_either_side() {
    let ok: Result<NoSuchNick, ()> = Ok(NoSuchNick { nick: "x".to_string() });
    assert_eq!(params(&ok.into_messages("me")[0]), (401, strings(&["me", "x", "No such nick"])));
    let err: Result<(), ChannelJoinRejectionReason> = Err(ChannelJoinRejectionReason::Banned);
    assert_eq!(params(&err.into_messages("me")[0]).0, 474);
    let nothing: Result<(), ()> = Ok(());
    assert!(nothing.into_messages("me").is_empty());
}

#[test]
fn members_part_quit_and_rename() {
    let mut channel = Channel::new("#c".to_string(), ChannelId(5));
    let mut a = conn("a");
    a.user_id = UserId(1);
    let mut b = conn("b");
    b.user_id = UserId(2);
    channel.join_client(1, a.clone()).ok().unwrap();
    channel.join_client(2, b.clone()).ok().unwrap();
    channel.join_client(2, b.clone()).ok().unwrap();
    assert_eq!(channel.client_id_list(), vec![1, 2]);
    channel.rename_member(2, b.clone(), "bee".to_string());
    assert_eq!(channel.member_connections()[1].nick, "bee");
    let parted = channel.part(2, Some("bye".to_string())).unwrap();
    assert_eq!(parted.recipients, vec![2, 1]);
    assert_eq!(parted.messages[0].command, Command::Raw("PART".to_string(), strings(&["#c", "bye"])));
    assert!(channel.part(2, None).is_none());
    let quit = channel.disconnect(1, None).unwrap();
    assert!(quit.recipients.is_empty());
    assert_eq!(quit.messages[0].command, Command::Raw("QUIT".to_string(), vec![]));
    assert!(channel.client_id_list().is_empty());
    let mut banned = Channel::new("#b".to_string(), ChannelId(6));
    banned.load_permissions(vec![(UserId(1), Permission::Ban)]);
    assert!(matches!(banned.join_client(1, a), Err(ChannelJoinRejectionReason::Banned)));
}

#[test]
fn registry_keeps_the_most_seen_at_once() {
    let mut registry = ClientRegistry::new();
    registry.connect(1, conn("a"));
    registry.connect(2, conn("b"));
    registry.connect(2, conn("b"));
    assert_eq!(registry.clients.len(), 2);
    assert_eq!(registry.max_clients, 2);
    registry.disconnect(1);
    assert_eq!(registry.clients.len(), 1);
    assert_eq!(registry.max_clients, 2);
    registry.rename(2, conn("bee"));
    assert_eq!(registry.clients[&2].nick, "bee");
    registry.rename(7, conn("ghost"));
    assert_eq!(registry.clients.len(), 1);
    registry.connect(3, conn("c"));
    registry.connect(4, conn("d"));
    assert_eq!(registry.max_clients, 3);
}

#[test]
fn defaults_are_empty() {
    assert!(Motd::default().motd.is_none());
    assert!(ChannelList::default().members.is_empty());
    assert_eq!(ChannelList::default().into_messages("me").len(), 2);
}
