use titanirc::host_mask::HostMask;
use titanirc::proto::{BanDuration, Error, LocalCommand};

#[test]
fn remove_gline() {
    let command =
        LocalCommand::try_from(("GLINE".to_string(), vec!["-aaa!bbb@ccc".to_string()])).unwrap();
    assert_eq!(
        command,
        LocalCommand::RemoveGline("aaa!bbb@ccc".try_into().unwrap())
    );
}

#[test]
fn gline() {
    let command = LocalCommand::try_from((
        "GLINE".to_string(),
        vec![
            "aaa!bbb@ccc".to_string(),
            "1d".to_string(),
            "comment".to_string(),
        ],
    ))
    .unwrap();
    assert_eq!(
        command,
        LocalCommand::Gline(
            "aaa!bbb@ccc".try_into().unwrap(),
            Some(BanDuration::from_secs(86_400)),
            Some("comment".to_string())
        )
    );
}

#[test]
fn too_many_arguments() {
    let command = LocalCommand::try_from((
        "GLINE".to_string(),
        vec![
            "aaa!bbb@ccc".to_string(),
            "1d".to_string(),
            "comment".to_string(),
            "toomany".to_string(),
        ],
    ));
    assert!(
        matches!(command, Err(Error::TooManyArguments)),
        "{command:?}"
    );
}

#[test]
fn gline_without_arguments_lists_bans() {
    let command = LocalCommand::parse("GLINE".to_string(), vec![]).unwrap();
    assert_eq!(command, LocalCommand::ListGline);
}

#[test]
fn gline_with_mask_only() {
    let command = LocalCommand::parse("GLINE".to_string(), vec!["aaa!bbb@ccc".to_string()]).unwrap();
    assert_eq!(
        command,
        LocalCommand::Gline(HostMask::try_from("aaa!bbb@ccc").unwrap(), None, None)
    );
}

#[test]
fn gline_with_duration_in_minutes() {
    let command = LocalCommand::parse(
        "GLINE".to_string(),
        vec!["aaa!bbb@ccc".to_string(), "5m".to_string()],
    )
    .unwrap();
    assert_eq!(
        command,
        LocalCommand::Gline(
            HostMask::try_from("aaa!bbb@ccc").unwrap(),
            Some(BanDuration::from_secs(300)),
            None
        )
    );
}

#[test]
fn gline_invalid_duration() {
    let command = LocalCommand::parse(
        "GLINE".to_string(),
        vec!["aaa!bbb@ccc".to_string(), "soon".to_string()],
    );
    assert!(matches!(command, Err(Error::InvalidDuration(_))));
}

#[test]
fn gline_invalid_mask() {
    let command = LocalCommand::parse("GLINE".to_string(), vec!["aa*a!bbb@ccc".to_string()]);
    assert!(matches!(command, Err(Error::InvalidHostMask(_))));
}

#[test]
fn unknown_local_command() {
    let command = LocalCommand::parse("KLINE".to_string(), vec![]);
    assert!(matches!(command, Err(Error::UnknownCommand)));
}

#[test]
fn dash_mask_with_duration_is_a_ban() {
    let command = LocalCommand::parse(
        "GLINE".to_string(),
        vec!["-aaa!bbb@ccc".to_string(), "1d".to_string()],
    )
    .unwrap();
    assert_eq!(
        command,
        LocalCommand::Gline(
            HostMask::try_from("-aaa!bbb@ccc").unwrap(),
            Some(BanDuration::from_secs(86_400)),
            None
        )
    );
}

#[test]
fn bounded_parse_takes_short_durations() {
    let command = LocalCommand::parse_bounded(
        "GLINE".to_string(),
        vec!["aaa!bbb@ccc".to_string(), "1d".to_string()],
    )
    .unwrap();
    assert_eq!(
        command,
        LocalCommand::Gline("aaa!bbb@ccc".try_into().unwrap(), Some(BanDuration::from_secs(86_400)), None)
    );
}

#[test]
fn bounded_parse_refuses_long_durations() {
    let command = LocalCommand::parse_bounded(
        "GLINE".to_string(),
        vec!["aaa!bbb@ccc".to_string(), "18446744073709551615s1000000000ns".to_string()],
    );
    assert!(matches!(command, Err(Error::DurationTooLong)));
    let bad_mask = LocalCommand::parse_bounded(
        "GLINE".to_string(),
        vec!["a**!bbb@ccc".to_string(), "18446744073709551615s1000000000ns".to_string()],
    );
    assert!(matches!(bad_mask, Err(Error::InvalidHostMask(_))));
    assert_eq!(titanirc::proto::count_digits("12h 30m"), 4);
}
