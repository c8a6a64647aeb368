//! Framing of the line protocol: commands arrive as lines ended by CRLF,
//! and a buffer that grows past `MAX_LENGTH` without one is refused.

use vstd::prelude::*;
use vstd::string::StringSliceAdditionalSpecFns;

use crate::protocol::commands::{parse_spec, parsed, Command, CommandText, ParseError};
use crate::protocol::replies::{message_bytes, message_writable, ServerMessage};

verus! {

/// The longest a buffer may grow without holding a full line.
pub const MAX_LENGTH: usize = 1024;

/// Where the `\n` of the first CRLF is, scanning the bytes in pairs the way
/// the reader does: a `\r` is followed by the byte after it, and when that
/// byte is not `\n` both are passed over.
pub open spec fn crlf_from(s: Seq<u8>, i: int) -> Option<int>
    decreases s.len() - i,
{
    if i < 0 || i >= s.len() {
        None
    } else if s[i] == 13 {
        if i + 1 < s.len() && s[i + 1] == 10 {
            Some(i + 1)
        } else if i + 2 < s.len() {
            crlf_from(s, i + 2)
        } else {
            None
        }
    } else {
        crlf_from(s, i + 1)
    }
}

proof fn lemma_crlf_from_bounds(s: Seq<u8>, i: int)
    requires
        0 <= i,
    ensures
        crlf_from(s, i) matches Some(k) ==> 1 <= k < s.len() && s[k - 1] == 13 && s[k] == 10,
    decreases s.len() - i,
{
    if i < s.len() {
        if s[i] == 13 {
            if !(i + 1 < s.len() && s[i + 1] == 10) && i + 2 < s.len() {
                lemma_crlf_from_bounds(s, i + 2);
            }
        } else {
            lemma_crlf_from_bounds(s, i + 1);
        }
    }
}

/// The position of the `\n` ending the first line, if there is one.
pub fn find_crlf(src: &Vec<u8>) -> (r: Option<usize>)
    ensures
        match crlf_from(src@, 0) {
            Some(k) => r == Some(k as usize),
            None => r is None,
        },
        r matches Some(k) ==> 1 <= k < src.len() && src@[k - 1] == 13 && src@[k as int] == 10,
{
    proof {
        lemma_crlf_from_bounds(src@, 0);
    }
    let mut i: usize = 0;
    while i < src.len()
        invariant
            crlf_from(src@, 0) == crlf_from(src@, i as int),
        decreases src.len() - i,
    {
        if src[i] == 13 {
            if i + 1 < src.len() && src[i + 1] == 10 {
                return Some(i + 1);
            }
            if src.len() - i <= 2 {
                return None;
            }
            i = i + 2;
        } else {
            i = i + 1;
        }
    }
    None
}

/// Why the reader gave up on a connection.
#[derive(Debug)]
pub enum FrameError {
    /// The buffer grew past `MAX_LENGTH` without a full line; its length.
    TooLarge(usize),
    /// The line names a command the grammar does not know.
    UnknownCommand,
    /// The line could not be read.
    Invalid(ParseError),
}

/// The kind of a `FrameError`, with the length of a refused buffer.
pub enum FrameErrorKind {
    TooLarge(nat),
    UnknownCommand,
    Invalid(ParseError),
}

impl FrameError {
    pub open spec fn kind(self) -> FrameErrorKind {
        match self {
            FrameError::TooLarge(n) => FrameErrorKind::TooLarge(n as nat),
            FrameError::UnknownCommand => FrameErrorKind::UnknownCommand,
            FrameError::Invalid(e) => FrameErrorKind::Invalid(e),
        }
    }
}

/// Reads commands off a connection, one line at a time.
pub struct Decoder;

/// What reading from a buffer gives: a command, nothing yet, or an error.
pub open spec fn decoded(
    buffer: Seq<u8>,
) -> Result<Option<CommandText>, FrameErrorKind> {
    match crlf_from(buffer, 0) {
        None => if buffer.len() > MAX_LENGTH {
            Err(FrameErrorKind::TooLarge(buffer.len()))
        } else {
            Ok(None)
        },
        Some(k) => match parse_spec(buffer.subrange(0, k - 1)) {
            Ok(Some(c)) => Ok(Some(c)),
            Ok(None) => Err(FrameErrorKind::UnknownCommand),
            Err(e) => Err(FrameErrorKind::Invalid(e)),
        },
    }
}

/// What is left in the buffer after reading from it: the bytes after the
/// first line, or all of it when there is no full line.
pub open spec fn remaining(buffer: Seq<u8>) -> Seq<u8> {
    match crlf_from(buffer, 0) {
        None => buffer,
        Some(k) => buffer.subrange(k + 1, buffer.len() as int),
    }
}

/// The bytes `v[from..to]`.
fn copy_range(v: &Vec<u8>, from: usize, to: usize) -> (r: Vec<u8>)
    requires
        from <= to <= v.len(),
    ensures
        r@ == v@.subrange(from as int, to as int),
{
    let mut r: Vec<u8> = Vec::new();
    let mut i = from;
    while i < to
        invariant
            from <= i <= to <= v.len(),
            r@ == v@.subrange(from as int, i as int),
        decreases to - i,
    {
        r.push(v[i]);
        assert(v@.subrange(from as int, i + 1) =~= v@.subrange(from as int, i as int).push(v@[i as int]));
        i = i + 1;
    }
    r
}

impl Decoder {
    /// Takes the first line off `src` and reads the command in it. Without a
    /// full line nothing is taken, and a buffer longer than `MAX_LENGTH` is
    /// refused.
    pub fn decode(&mut self, src: &mut Vec<u8>) -> (r: Result<Option<Command>, FrameError>)
        ensures
            final(src)@ == remaining(old(src)@),
            match decoded(old(src)@) {
                Ok(Some(c)) => r matches Ok(Some(x)) && x@ == c,
                Ok(None) => r matches Ok(None),
                Err(kind) => r matches Err(e) && e.kind() == kind,
            },
    {
        let length = match find_crlf(src) {
            Some(len) => len,
            None => {
                if src.len() > MAX_LENGTH {
                    return Err(FrameError::TooLarge(src.len()));
                }
                return Ok(None);
            },
        };
        let ghost orig = src@;
        proof {
            lemma_crlf_from_bounds(orig, 0);
            assert(crlf_from(orig, 0) == Some(length as int));
        }
        let line = copy_range(src, 0, length - 1);
        let rest = copy_range(src, length + 1, src.len());
        *src = rest;
        assert(src@ == remaining(orig));
        assert(line@ == orig.subrange(0, length - 1));
        let parsed_line = Command::parse(&line);
        proof {
            assert(parsed(parsed_line) == parse_spec(line@));
        }
        match parsed_line {
            Ok(Some(c)) => Ok(Some(c)),
            Ok(None) => Err(FrameError::UnknownCommand),
            Err(e) => Err(FrameError::Invalid(e)),
        }
    }
}

/// Writes messages to a client, each ended by CRLF, in the name of a server
/// and addressed to the client's nick (`*` while it has none).
pub struct Encoder {
    pub server_name: &'static str,
    pub nick: Option<Vec<u8>>,
}

/// The bytes of a message as it goes out on the wire.
pub open spec fn encoded(m: ServerMessage, server: Seq<u8>, nick: Option<Seq<u8>>) -> Seq<u8> {
    message_bytes(m, server, nick) + seq![13u8, 10u8]
}

impl Encoder {
    pub open spec fn nick_text(&self) -> Option<Seq<u8>> {
        match self.nick {
            Some(n) => Some(n@),
            None => None,
        }
    }

    pub fn new(server_name: &'static str, nick: Option<Vec<u8>>) -> (e: Self)
        ensures
            e.server_name@ == server_name@,
            e.nick == nick,
    {
        Encoder { server_name, nick }
    }

    /// Appends `item` and its CRLF to `dst`.
    pub fn encode(&self, item: ServerMessage, dst: &mut Vec<u8>)
        requires
            message_writable(item),
        ensures
            final(dst)@ == old(dst)@ + encoded(item, self.server_name.spec_bytes(), self.nick_text()),
    {
        let ghost start = dst@;
        let ghost body = message_bytes(item, self.server_name.spec_bytes(), self.nick_text());
        item.write(self.server_name, self.nick.as_ref(), dst);
        assert(dst@ == start + body);
        dst.push(13u8);
        dst.push(10u8);
        assert(dst@ =~= start + (body + seq![13u8, 10u8]));
    }
}

proof fn lemma_crlf_after(b: Seq<u8>, n: int, i: int)
    requires
        0 <= i <= n,
        n + 2 <= b.len(),
        b[n] == 13,
        b[n + 1] == 10,
        forall|j: int| 0 <= j < n ==> b[j] != 13,
    ensures
        crlf_from(b, i) == Some(n + 1),
    decreases n - i,
{
    if i < n {
        lemma_crlf_after(b, n, i + 1);
    }
}

/// A line without carriage returns followed by CRLF is read as the first
/// frame: reading takes exactly the line and its CRLF off the buffer and
/// reads the command in the line.
pub proof fn lemma_line_is_framed(line: Seq<u8>, rest: Seq<u8>)
    requires
        forall|i: int| 0 <= i < line.len() ==> line[i] != 13,
    ensures
        ({
            let buffer = line + seq![13u8, 10u8] + rest;
            &&& remaining(buffer) == rest
            &&& decoded(buffer) == match parse_spec(line) {
                Ok(Some(c)) => Ok(Some(c)),
                Ok(None) => Err(FrameErrorKind::UnknownCommand),
                Err(e) => Err::<Option<CommandText>, FrameErrorKind>(FrameErrorKind::Invalid(e)),
            }
        }),
{
    let buffer = line + seq![13u8, 10u8] + rest;
    let n = line.len() as int;
    assert(buffer[n] == 13);
    assert(buffer[n + 1] == 10);
    assert forall|j: int| 0 <= j < n implies buffer[j] != 13 by {
        assert(buffer[j] == line[j]);
    }
    lemma_crlf_after(buffer, n, 0);
    assert(buffer.subrange(0, n) =~= line);
    assert(buffer.subrange(n + 2, buffer.len() as int) =~= rest);
}

} // verus!
