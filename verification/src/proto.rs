//! Operator commands the server handles itself (`GLINE`), parsed from a
//! command name and its arguments.

use vstd::prelude::*;

use crate::host_mask::{parse_mask, HostMask, HostMaskError, MaskText};
use crate::server::response::IntoProtocol;
use crate::message::{
    message_texts, push_message, server_message, server_reply, strings3, text, Message, MessageText,
    ERR_UNKNOWNCOMMAND,
};

verus! {

#[verifier::external_type_specification]
#[verifier::external_body]
pub struct ExDurationError(humantime::DurationError);

/// A span of time, as whole seconds and the nanoseconds past them.
#[derive(Copy, Clone, Debug, PartialEq, Eq, Structural)]
pub struct BanDuration {
    pub secs: u64,
    pub nanos: u32,
}

impl BanDuration {
    /// A duration of whole seconds.
    pub fn from_secs(secs: u64) -> (d: BanDuration)
        ensures
            d.secs == secs,
            d.nanos == 0,
    {
        BanDuration { secs, nanos: 0 }
    }
}

/// What `humantime::parse_duration` does with a text.
pub enum DurationReading {
    /// It returns a duration of these seconds and nanoseconds.
    Parsed(u64, u32),
    /// It returns an error.
    Refused,
    /// It panics: its running total reaches `u64::MAX` seconds together
    /// with exactly one second of nanoseconds, which it hands to
    /// `Duration::new` without carrying it, and `Duration::new` cannot hold.
    Panics,
}

/// What `humantime::parse_duration` does with a text, as
/// `DurationReading` tells the cases apart.
pub uninterp spec fn humantime_reading(text: Seq<char>) -> DurationReading;

/// The number of ASCII digits in a text.
pub open spec fn digit_count(s: Seq<char>) -> nat
    decreases s.len(),
{
    if s.len() == 0 {
        0
    } else {
        digit_count(s.drop_last()) + if '0' <= s.last() && s.last() <= '9' {
            1nat
        } else {
            0nat
        }
    }
}

/// The most digits a duration text may have for `parse_humantime` to be
/// sure not to panic.
pub const SAFE_DURATION_DIGITS: usize = 11;

/// The number of ASCII digits in a text.
pub fn count_digits(text: &str) -> (n: usize)
    ensures
        n == digit_count(text@),
{
    let chars = crate::text::chars_of(text);
    let mut n: usize = 0;
    let mut i: usize = 0;
    while i < chars.len()
        invariant
            i <= chars.len(),
            chars@ == text@,
            n == digit_count(chars@.take(i as int)),
            n <= i,
        decreases chars.len() - i,
    {
        assert(chars@.take(i + 1).drop_last() =~= chars@.take(i as int));
        let c = chars[i];
        if '0' <= c && c <= '9' {
            n = n + 1;
        }
        i = i + 1;
    }
    assert(chars@.take(chars.len() as int) =~= chars@);
    n
}

/// The duration of a reading, or nothing where the text was refused.
pub open spec fn reading_duration(r: DurationReading) -> Option<(u64, u32)> {
    match r {
        DurationReading::Parsed(secs, nanos) => Some((secs, nanos)),
        _ => None,
    }
}

/// Calls `humantime::parse_duration` and splits the duration it returns
/// into seconds and nanoseconds. It is not called on a text it panics on.
/// Claimed: it does not panic on a text of at most `SAFE_DURATION_DIGITS`
/// ASCII digits, since each span adds less than ten to the power of its
/// digits times a year (31_557_600 s) and those texts stay far below
/// `u64::MAX` seconds, where the panic lies; and the call succeeds exactly
/// where the named reading is a duration, and then gives that duration.
#[verifier::external_body]
fn parse_humantime(text: &str) -> (r: Result<BanDuration, humantime::DurationError>)
    requires
        digit_count(text@) <= SAFE_DURATION_DIGITS || !(humantime_reading(text@) is Panics),
    ensures
        r is Ok <==> humantime_reading(text@) is Parsed,
        r matches Ok(d) ==> humantime_reading(text@) == DurationReading::Parsed(d.secs, d.nanos),
{
    match humantime::parse_duration(text) {
        Ok(d) => Ok(BanDuration { secs: d.as_secs(), nanos: d.subsec_nanos() }),
        Err(e) => Err(e),
    }
}

/// A command handled by the server itself.
#[derive(Debug, Clone, PartialEq, Eq)]
pub enum LocalCommand {
    /// Lists the network bans.
    ListGline,
    /// Lifts the ban on a host mask.
    RemoveGline(HostMask),
    /// Bans a host mask from the network, for a time if one is given, with
    /// a message if one is given.
    Gline(HostMask, Option<BanDuration>, Option<String>),
}

/// Why a local command was refused.
#[derive(Debug)]
pub enum Error {
    UnknownCommand,
    MissingArgument,
    InvalidDuration(humantime::DurationError),
    InvalidHostMask(HostMaskError),
    TooManyArguments,
    /// A duration with more digits than `LocalCommand::parse_bounded` takes.
    DurationTooLong,
}

/// A local command, with its masks and texts as characters.
pub enum CommandView {
    ListGline,
    RemoveGline(MaskText),
    Gline(MaskText, Option<BanDuration>, Option<Seq<char>>),
}

/// The kind of an `Error`.
pub enum ErrorKind {
    UnknownCommand,
    MissingArgument,
    InvalidDuration,
    InvalidHostMask(HostMaskError),
    TooManyArguments,
    DurationTooLong,
}

impl LocalCommand {
    pub open spec fn view_of(self) -> CommandView {
        match self {
            LocalCommand::ListGline => CommandView::ListGline,
            LocalCommand::RemoveGline(m) => CommandView::RemoveGline(m@),
            LocalCommand::Gline(m, d, c) => CommandView::Gline(
                m@,
                d,
                match c {
                    Some(s) => Some(s@),
                    None => None,
                },
            ),
        }
    }
}

impl Error {
    pub open spec fn kind(self) -> ErrorKind {
        match self {
            Error::UnknownCommand => ErrorKind::UnknownCommand,
            Error::MissingArgument => ErrorKind::MissingArgument,
            Error::InvalidDuration(_) => ErrorKind::InvalidDuration,
            Error::InvalidHostMask(e) => ErrorKind::InvalidHostMask(e),
            Error::TooManyArguments => ErrorKind::TooManyArguments,
            Error::DurationTooLong => ErrorKind::DurationTooLong,
        }
    }
}

impl IntoProtocol for Error {
    open spec fn messages_spec(self, for_user: Seq<char>) -> Seq<MessageText> {
        seq![
            server_reply(ERR_UNKNOWNCOMMAND, seq![for_user, "command"@, "Unknown command"@]),
        ]
    }

    /// Any refused local command is answered with
    /// `421 <user> command :Unknown command`.
    fn into_messages(self, for_user: &str) -> (r: Vec<Message>)
        ensures
            message_texts(r@) == seq![
                server_reply(ERR_UNKNOWNCOMMAND, seq![for_user@, "command"@, "Unknown command"@]),
            ],
    {
        let mut out: Vec<Message> = Vec::new();
        push_message(
            &mut out,
            server_message(ERR_UNKNOWNCOMMAND, strings3(text(for_user), text("command"), text("Unknown command"))),
        );
        assert(message_texts(out@) =~= seq![
            server_reply(ERR_UNKNOWNCOMMAND, seq![for_user@, "command"@, "Unknown command"@]),
        ]);
        out
    }
}

/// The view of a parse outcome.
pub open spec fn outcome_view(r: Result<LocalCommand, Error>) -> Result<CommandView, ErrorKind> {
    match r {
        Ok(c) => Ok(c.view_of()),
        Err(e) => Err(e.kind()),
    }
}

/// A `GLINE` with a parsed mask, a duration as parsed (if one was given)
/// and an optional comment.
pub open spec fn gline_spec(
    mask: MaskText,
    duration: Option<Option<(u64, u32)>>,
    comment: Option<Seq<char>>,
) -> Result<CommandView, ErrorKind> {
    match duration {
        Some(None) => Err(ErrorKind::InvalidDuration),
        Some(Some(d)) => Ok(
            CommandView::Gline(mask, Some(BanDuration { secs: d.0, nanos: d.1 }), comment),
        ),
        None => Ok(CommandView::Gline(mask, None, comment)),
    }
}

/// How a command name and its arguments parse.
///
/// `GLINE` without arguments lists the bans; `GLINE -mask` lifts one;
/// `GLINE mask [duration [comment]]` sets one. A fourth argument is refused
/// before anything is parsed; the mask is parsed before the duration.
pub open spec fn parse_command_spec(cmd: Seq<char>, args: Seq<Seq<char>>) -> Result<CommandView, ErrorKind> {
    if cmd != "GLINE"@ {
        Err(ErrorKind::UnknownCommand)
    } else if args.len() == 0 {
        Ok(CommandView::ListGline)
    } else if args.len() == 1 && args[0].len() > 0 && args[0][0] == '-' {
        match parse_mask(args[0].drop_first()) {
            Ok(m) => Ok(CommandView::RemoveGline(m)),
            Err(e) => Err(ErrorKind::InvalidHostMask(e)),
        }
    } else if args.len() > 3 {
        Err(ErrorKind::TooManyArguments)
    } else {
        match parse_mask(args[0]) {
            Err(e) => Err(ErrorKind::InvalidHostMask(e)),
            Ok(m) => gline_spec(
                m,
                if args.len() > 1 {
                    Some(reading_duration(humantime_reading(args[1])))
                } else {
                    None
                },
                if args.len() > 2 {
                    Some(args[2])
                } else {
                    None
                },
            ),
        }
    }
}

/// Whether parsing a command reaches the duration argument with a text
/// that `humantime::parse_duration` panics on: a `GLINE` with a duration
/// after a mask that parses.
pub open spec fn duration_panics(cmd: Seq<char>, args: Seq<Seq<char>>) -> bool {
    &&& duration_reached(cmd, args)
    &&& digit_count(args[1]) > SAFE_DURATION_DIGITS
    &&& humantime_reading(args[1]) is Panics
}

/// Whether parsing a command reaches its duration argument: a `GLINE` with
/// a duration after a mask that parses.
pub open spec fn duration_reached(cmd: Seq<char>, args: Seq<Seq<char>>) -> bool {
    &&& cmd == "GLINE"@
    &&& 2 <= args.len() <= 3
    &&& parse_mask(args[0]) is Ok
}

impl LocalCommand {
    /// Builds a `GLINE` from its parsed parts: a duration that failed to
    /// parse refuses the command.
    pub fn gline_from_parts(
        mask: HostMask,
        duration: Option<Result<BanDuration, humantime::DurationError>>,
        comment: Option<String>,
    ) -> (r: Result<LocalCommand, Error>)
        ensures
            outcome_view(r) == gline_spec(
                mask@,
                match duration {
                    Some(Ok(d)) => Some(Some((d.secs, d.nanos))),
                    Some(Err(_)) => Some(None),
                    None => None,
                },
                match comment {
                    Some(s) => Some(s@),
                    None => None,
                },
            ),
    {
        match duration {
            Some(Err(e)) => Err(Error::InvalidDuration(e)),
            Some(Ok(d)) => Ok(LocalCommand::Gline(mask, Some(d), comment)),
            None => Ok(LocalCommand::Gline(mask, None, comment)),
        }
    }

    /// Parses a command name and its arguments. A duration that
    /// `humantime::parse_duration` panics on is not handed to it.
    pub fn parse(command: String, args: Vec<String>) -> (r: Result<LocalCommand, Error>)
        requires
            !duration_panics(command@, args@.map_values(|a: String| a@)),
        ensures
            outcome_view(r) == parse_command_spec(command@, args@.map_values(|a: String| a@)),
    {
        let ghost av = args@.map_values(|a: String| a@);
        let gline = String::from_str("GLINE");
        proof {
            reveal_strlit("GLINE");
        }
        if !(command == gline) {
            return Err(Error::UnknownCommand);
        }
        if args.len() == 0 {
            return Ok(LocalCommand::ListGline);
        }
        assert(av[0] == args@[0]@);
        let first: &str = args[0].as_str();
        let first_len = first.unicode_len();
        if args.len() == 1 && first_len > 0 && first.get_char(0) == '-' {
            let rest = first.substring_char(1, first_len);
            assert(rest@ =~= av[0].drop_first());
            return match HostMask::parse(rest) {
                Ok(m) => Ok(LocalCommand::RemoveGline(m)),
                Err(e) => Err(Error::InvalidHostMask(e)),
            };
        }
        if args.len() > 3 {
            return Err(Error::TooManyArguments);
        }
        let mask = match HostMask::parse(first) {
            Ok(m) => m,
            Err(e) => {
                return Err(Error::InvalidHostMask(e));
            },
        };
        let duration = if args.len() > 1 {
            assert(av[1] == args@[1]@);
            Some(parse_humantime(args[1].as_str()))
        } else {
            None
        };
        let comment = if args.len() > 2 {
            assert(av[2] == args@[2]@);
            Some(args[2].clone())
        } else {
            None
        };
        Self::gline_from_parts(mask, duration, comment)
    }
}

impl LocalCommand {
    /// Parses a command as `parse` does, but refuses a duration of more than
    /// `SAFE_DURATION_DIGITS` digits with `DurationTooLong` in place of
    /// handing it to humantime, which panics on some such texts. It takes
    /// every command name and argument list.
    pub fn parse_bounded(command: String, args: Vec<String>) -> (r: Result<LocalCommand, Error>)
        ensures
            outcome_view(r) == if duration_reached(command@, args@.map_values(|a: String| a@)) && digit_count(
                args@[1]@,
            ) > SAFE_DURATION_DIGITS {
                Err(ErrorKind::DurationTooLong)
            } else {
                parse_command_spec(command@, args@.map_values(|a: String| a@))
            },
    {
        let ghost av = args@.map_values(|a: String| a@);
        let gline = String::from_str("GLINE");
        proof {
            reveal_strlit("GLINE");
        }
        if command == gline && args.len() >= 2 && args.len() <= 3 {
            assert(av[0] == args@[0]@);
            assert(av[1] == args@[1]@);
            let mask_ok = HostMask::parse(args[0].as_str()).is_ok();
            if mask_ok && count_digits(args[1].as_str()) > SAFE_DURATION_DIGITS {
                return Err(Error::DurationTooLong);
            }
        }
        LocalCommand::parse(command, args)
    }

    /// Parses a command given as its name and arguments, as `parse` does.
    pub fn try_from(value: (String, Vec<String>)) -> (r: Result<LocalCommand, Error>)
        requires
            !duration_panics(value.0@, value.1@.map_values(|a: String| a@)),
        ensures
            outcome_view(r) == parse_command_spec(value.0@, value.1@.map_values(|a: String| a@)),
    {
        let (command, args) = value;
        LocalCommand::parse(command, args)
    }
}

} // verus!
