use titanirc::channel::permissions::Permission;
use titanirc::channel::{Channel, ChannelId, ChannelJoinRejectionReason, SetModeRejection};
use titanirc::connection::UserId;
use titanirc::message::{decimal_string, signed_decimal_string, Prefix};
use titanirc::messages::MessageKind;
use titanirc::persistence::{removal_cutoff, Persistence};
use titanirc::text::{join_with_spaces, split_string, trim_string};

#[test]
fn first_joiner_founds_the_channel() {
    let mut channel = Channel::new("#c".to_string(), ChannelId(1));
    assert_eq!(channel.join(UserId(1)).unwrap(), Permission::Founder);
    assert_eq!(channel.get_user_permissions(UserId(1)), Permission::Founder);
    assert_eq!(channel.join(UserId(2)).unwrap(), Permission::Normal);
    assert_eq!(channel.get_user_permissions(UserId(2)), Permission::Normal);
}

#[test]
fn banned_users_cannot_join() {
    let mut channel = Channel::new("#c".to_string(), ChannelId(1));
    channel.load_permissions(vec![(UserId(1), Permission::Founder), (UserId(9), Permission::Ban)]);
    assert_eq!(channel.join(UserId(9)), Err(ChannelJoinRejectionReason::Banned));
}

#[test]
fn later_levels_win_when_loading() {
    let mut channel = Channel::new("#c".to_string(), ChannelId(1));
    channel.load_permissions(vec![(UserId(1), Permission::Voice), (UserId(1), Permission::Operator)]);
    assert_eq!(channel.get_user_permissions(UserId(1)), Permission::Operator);
}

#[test]
fn modes_are_set_below_the_setter() {
    let mut channel = Channel::new("#c".to_string(), ChannelId(1));
    channel.load_permissions(vec![(UserId(1), Permission::Operator)]);
    assert_eq!(
        channel.set_user_mode(UserId(1), UserId(2), true, Permission::Voice),
        Ok(Permission::Voice)
    );
    assert_eq!(
        channel.set_user_mode(UserId(1), UserId(2), true, Permission::Operator),
        Err(SetModeRejection::NotAllowed)
    );
    assert_eq!(
        channel.set_user_mode(UserId(1), UserId(2), false, Permission::HalfOperator),
        Err(SetModeRejection::NothingToRemove)
    );
    assert_eq!(
        channel.set_user_mode(UserId(1), UserId(2), false, Permission::Voice),
        Ok(Permission::Normal)
    );
    assert_eq!(
        channel.set_user_mode(UserId(2), UserId(3), true, Permission::Voice),
        Err(SetModeRejection::NotAllowed)
    );
}

#[test]
fn topic_needs_half_operator() {
    let mut channel = Channel::new("#c".to_string(), ChannelId(1));
    channel.load_permissions(vec![(UserId(1), Permission::HalfOperator)]);
    assert!(!channel.update_topic(UserId(2), "no".to_string(), "b".to_string(), 1));
    assert!(channel.topic.is_none());
    assert!(channel.update_topic(UserId(1), "yes".to_string(), "a".to_string(), 2));
    let topic = channel.topic.unwrap();
    assert_eq!(topic.topic, "yes");
    assert_eq!(topic.set_by, "a");
    assert_eq!(topic.set_time, 2);
}

#[test]
fn ids_keep_increasing() {
    let mut p = Persistence::new(100);
    assert_eq!(p.monotonically_increasing_id(50), 101);
    assert_eq!(p.monotonically_increasing_id(101), 102);
    assert_eq!(p.monotonically_increasing_id(500), 500);
    assert_eq!(p.last_seen_clock, 500);
}

#[test]
fn removal_cutoff_is_the_later_time() {
    assert_eq!(removal_cutoff(10, 20), 20);
    assert_eq!(removal_cutoff(30, 20), 30);
}

#[test]
fn decimal_numbers() {
    assert_eq!(decimal_string(0), "0");
    assert_eq!(decimal_string(1234567890), "1234567890");
    assert_eq!(decimal_string(u64::MAX), "18446744073709551615");
    assert_eq!(signed_decimal_string(-42), "-42");
    assert_eq!(signed_decimal_string(i64::MIN), "-9223372036854775808");
    assert_eq!(signed_decimal_string(7), "7");
}

#[test]
fn prefix_text() {
    let p = |n: &str, u: &str, h: &str| Prefix::Nickname(n.to_string(), u.to_string(), h.to_string());
    assert_eq!(p("n", "", "").to_string(), "n");
    assert_eq!(p("n", "u", "").to_string(), "n!u");
    assert_eq!(p("n", "", "h").to_string(), "n@h");
    assert_eq!(p("n", "u", "h").to_string(), "n!u@h");
    assert_eq!(Prefix::ServerName("irc.example".to_string()).to_string(), "irc.example");
}

#[test]
fn text_helpers() {
    assert_eq!(trim_string("\t a b \u{3000}"), "a b");
    assert_eq!(trim_string("   "), "");
    assert_eq!(split_string("a,,b", ','), vec!["a", "", "b"]);
    assert_eq!(split_string("", ','), vec![""]);
    assert_eq!(
        join_with_spaces(&vec!["a".to_string(), "b".to_string(), "c".to_string()]),
        "a b c"
    );
    assert_eq!(join_with_spaces(&vec![]), "");
}

#[test]
fn message_kinds() {
    assert_eq!(MessageKind::Normal.command(), "PRIVMSG");
    assert_eq!(MessageKind::Notice.command(), "NOTICE");
    assert_eq!(MessageKind::from_code(MessageKind::Notice.code()), Some(MessageKind::Notice));
    assert_eq!(MessageKind::from_code(7), None);
}

#[test]
fn written_masks_parse_back() {
    let m = titanirc::host_mask::HostMask::new("nick", "user*", "host.example");
    let text = m.to_string();
    assert_eq!(text, "nick!user*@host.example");
    assert_eq!(titanirc::host_mask::HostMask::parse(&text).unwrap(), m);
}

#[test]
fn split_then_join_gives_the_text_back() {
    let text = " a  b c ";
    assert_eq!(join_with_spaces(&split_string(text, ' ')), text);
}
