//! Host masks (`nick!user@host`) and a trie from host masks to values that
//! supports trailing wildcards in each of the three sections.

use vstd::prelude::*;

use crate::text::{chars_of, push_char, string_from_chars};

mod trie;

pub use self::trie::{
    is_normal, lemma_insert_then_get, lemma_section_matches_exact, lemma_section_matches_itself,
    lemma_section_matches_prefix, mask_matches, mask_path, mask_string, normalize_mask,
    normalize_section, section_matches, HostMaskMap,
};

verus! {

/// The reason a host mask was refused.
#[derive(Clone, Copy, Debug, PartialEq, Eq)]
pub enum HostMaskError {
    InvalidNick,
    InvalidUsername,
    InvalidHostname,
}

impl HostMaskError {
    /// The human readable description of the error.
    pub fn message(&self) -> (s: &'static str)
        ensures
            s@ == match *self {
                HostMaskError::InvalidNick => "invalid nick"@,
                HostMaskError::InvalidUsername => "invalid username"@,
                HostMaskError::InvalidHostname => "invalid hostname"@,
            },
    {
        match self {
            HostMaskError::InvalidNick => "invalid nick",
            HostMaskError::InvalidUsername => "invalid username",
            HostMaskError::InvalidHostname => "invalid hostname",
        }
    }
}

/// A `nick!username@host` mask. Each section may end in a `*` wildcard.
#[derive(Clone, Debug, PartialEq, Eq)]
pub struct HostMask {
    nick: String,
    username: String,
    host: String,
}

/// The three sections of a host mask, as characters.
pub type MaskText = (Seq<char>, Seq<char>, Seq<char>);

impl View for HostMask {
    type V = MaskText;

    closed spec fn view(&self) -> MaskText {
        (self.nick@, self.username@, self.host@)
    }
}

/// The index of the first occurrence of `c` in `s`, if there is one.
pub open spec fn first_pos(s: Seq<char>, c: char) -> Option<int> {
    if exists|i: int| is_first_pos(s, c, i) {
        Some(choose|i: int| is_first_pos(s, c, i))
    } else {
        None
    }
}

/// `i` is the index of the first occurrence of `c` in `s`.
pub open spec fn is_first_pos(s: Seq<char>, c: char, i: int) -> bool {
    &&& 0 <= i < s.len()
    &&& s[i] == c
    &&& forall|j: int| 0 <= j < i ==> s[j] != c
}

/// Splits `s` around the first occurrence of `c`, as `str::split_once` does.
pub open spec fn split_once(s: Seq<char>, c: char) -> Option<(Seq<char>, Seq<char>)> {
    match first_pos(s, c) {
        Some(i) => Some((s.take(i), s.skip(i + 1))),
        None => None,
    }
}

/// A section is acceptable when it is non-empty and holds no `*` except,
/// possibly, as its last character.
pub open spec fn valid_section(v: Seq<char>) -> bool {
    &&& v.len() > 0
    &&& forall|i: int| 0 <= i < v.len() - 1 ==> v[i] != '*'
}

/// The outcome of parsing `s` as a host mask.
///
/// A missing `!` leaves the whole text as the nick; a missing `@` after the
/// `!` makes both the username and the host `*`.
pub open spec fn parse_mask(s: Seq<char>) -> Result<MaskText, HostMaskError> {
    let (nick, rest) = match split_once(s, '!') {
        Some(p) => p,
        None => (s, Seq::<char>::empty()),
    };
    let (username, host) = match split_once(rest, '@') {
        Some(p) => p,
        None => (seq!['*'], seq!['*']),
    };
    if !valid_section(nick) {
        Err(HostMaskError::InvalidNick)
    } else if !valid_section(username) {
        Err(HostMaskError::InvalidUsername)
    } else if !valid_section(host) {
        Err(HostMaskError::InvalidHostname)
    } else {
        Ok((nick, username, host))
    }
}

/// `r` is the outcome `parse_mask` gives for `s`.
pub open spec fn parsed_as(s: Seq<char>, r: Result<HostMask, HostMaskError>) -> bool {
    match r {
        Ok(m) => parse_mask(s) == Ok::<MaskText, HostMaskError>(m@),
        Err(e) => parse_mask(s) == Err::<MaskText, HostMaskError>(e),
    }
}

proof fn lemma_first_pos(s: Seq<char>, c: char, i: int)
    requires
        is_first_pos(s, c, i),
    ensures
        first_pos(s, c) == Some(i),
{
    let k = choose|k: int| is_first_pos(s, c, k);
    assert(is_first_pos(s, c, k));
    if k < i {
        assert(s[k] != c);
    } else if i < k {
        assert(s[i] != c);
    }
}

proof fn lemma_no_pos(s: Seq<char>, c: char)
    requires
        forall|i: int| 0 <= i < s.len() ==> s[i] != c,
    ensures
        first_pos(s, c) is None,
{
    assert(!exists|i: int| is_first_pos(s, c, i));
}

/// A mask that names no user or host stands for every user and host: a
/// valid nick on its own, or followed by `!` and a text without `@`, parses
/// to that nick with `*` as both username and host.
pub proof fn lemma_nick_only_mask(nick: Seq<char>, rest: Seq<char>)
    requires
        valid_section(nick),
        forall|i: int| 0 <= i < nick.len() ==> nick[i] != '!',
        forall|i: int| 0 <= i < rest.len() ==> rest[i] != '@',
    ensures
        parse_mask(nick) == Ok::<MaskText, HostMaskError>((nick, seq!['*'], seq!['*'])),
        parse_mask(nick + seq!['!'] + rest) == Ok::<MaskText, HostMaskError>((nick, seq!['*'], seq!['*'])),
{
    lemma_no_pos(nick, '!');
    lemma_no_pos(Seq::<char>::empty(), '@');
    lemma_no_pos(rest, '@');
    let s = nick + seq!['!'] + rest;
    assert(is_first_pos(s, '!', nick.len() as int));
    lemma_first_pos(s, '!', nick.len() as int);
    assert(s.take(nick.len() as int) =~= nick);
    assert(s.skip(nick.len() + 1int) =~= rest);
    assert(valid_section(seq!['*']));
}

/// Finds the first `c` in `v[from..]`.
fn find_char(v: &Vec<char>, c: char, from: usize) -> (r: Option<usize>)
    requires
        from <= v.len(),
    ensures
        match r {
            Some(i) => from <= i < v.len() && v@[i as int] == c && forall|j: int|
                from <= j < i ==> v@[j] != c,
            None => forall|j: int| from <= j < v.len() ==> v@[j] != c,
        },
{
    let mut i = from;
    while i < v.len()
        invariant
            from <= i <= v.len(),
            forall|j: int| from <= j < i ==> v@[j] != c,
        decreases v.len() - i,
    {
        if v[i] == c {
            return Some(i);
        }
        i = i + 1;
    }
    None
}

/// Whether `v[from..to]` is an acceptable section.
fn section_is_valid(v: &Vec<char>, from: usize, to: usize) -> (b: bool)
    requires
        from <= to <= v.len(),
    ensures
        b == valid_section(v@.subrange(from as int, to as int)),
{
    if from == to {
        return false;
    }
    let mut i = from;
    while i < to - 1
        invariant
            from <= i <= to - 1,
            to <= v.len(),
            forall|j: int| from <= j < i ==> v@[j] != '*',
        decreases to - i,
    {
        if v[i] == '*' {
            assert(v@.subrange(from as int, to as int)[i - from] == '*');
            return false;
        }
        i = i + 1;
    }
    assert(valid_section(v@.subrange(from as int, to as int)));
    true
}

impl HostMask {
    /// Builds a host mask from its three sections, without checking them.
    pub fn new(nick: &str, username: &str, host: &str) -> (m: HostMask)
        ensures
            m@ == (nick@, username@, host@),
    {
        HostMask {
            nick: String::from_str(nick),
            username: String::from_str(username),
            host: String::from_str(host),
        }
    }

    /// A copy of this mask.
    pub fn as_borrowed(&self) -> (m: HostMask)
        ensures
            m@ == self@,
    {
        HostMask {
            nick: self.nick.clone(),
            username: self.username.clone(),
            host: self.host.clone(),
        }
    }

    /// This mask, owning its text.
    pub fn into_owned(self) -> (m: HostMask)
        ensures
            m@ == self@,
    {
        self
    }

    /// The nick section.
    pub fn nick(&self) -> (s: &str)
        ensures
            s@ == self@.0,
    {
        self.nick.as_str()
    }

    /// The username section.
    pub fn username(&self) -> (s: &str)
        ensures
            s@ == self@.1,
    {
        self.username.as_str()
    }

    /// The host section.
    pub fn host(&self) -> (s: &str)
        ensures
            s@ == self@.2,
    {
        self.host.as_str()
    }

    /// Renders the mask as `nick!username@host`.
    pub fn to_string(&self) -> (s: String)
        ensures
            s@ == self@.0 + seq!['!'] + self@.1 + seq!['@'] + self@.2,
    {
        let mut s = self.nick.clone();
        push_char(&mut s, '!');
        s.append(self.username.as_str());
        push_char(&mut s, '@');
        s.append(self.host.as_str());
        s
    }

    /// Parses `nick!username@host`, refusing sections that are empty or hold a
    /// `*` anywhere but at their end.
    pub fn parse(s: &str) -> (r: Result<HostMask, HostMaskError>)
        ensures
            parsed_as(s@, r),
    {
        let v = chars_of(s);
        let len = v.len();
        let ghost sv = v@;
        // nick: up to the first '!', or everything
        let (nick_end, rest_start) = match find_char(&v, '!', 0) {
            Some(i) => {
                proof {
                    lemma_first_pos(sv, '!', i as int);
                }
                (i, i + 1)
            },
            None => (len, len),
        };
        let ghost rest = sv.subrange(rest_start as int, len as int);
        proof {
            if first_pos(sv, '!') is Some {
                let k = first_pos(sv, '!')->0;
                assert(is_first_pos(sv, '!', k));
                assert(sv[k] == '!');
            }
        }
        assert(match split_once(sv, '!') {
            Some(p) => p.0 =~= sv.subrange(0, nick_end as int) && p.1 =~= rest,
            None => sv =~= sv.subrange(0, nick_end as int) && rest =~= Seq::<char>::empty(),
        });
        // username and host: around the first '@' of the rest
        let at = find_char(&v, '@', rest_start);
        proof {
            match at {
                Some(i) => {
                    assert(is_first_pos(rest, '@', i - rest_start));
                    lemma_first_pos(rest, '@', i - rest_start);
                },
                None => {
                    if first_pos(rest, '@') is Some {
                        let k = first_pos(rest, '@')->0;
                        assert(is_first_pos(rest, '@', k));
                        assert(rest[k] == sv[rest_start + k]);
                    }
                },
            }
        }
        if !section_is_valid(&v, 0, nick_end) {
            return Err(HostMaskError::InvalidNick);
        }
        let nick = string_from_chars(&v, 0, nick_end);
        match at {
            Some(i) => {
                assert(split_once(rest, '@') matches Some(p) && p.0 =~= sv.subrange(
                    rest_start as int,
                    i as int,
                ) && p.1 =~= sv.subrange(i + 1, len as int));
                if !section_is_valid(&v, rest_start, i) {
                    return Err(HostMaskError::InvalidUsername);
                }
                if !section_is_valid(&v, i + 1, len) {
                    return Err(HostMaskError::InvalidHostname);
                }
                let username = string_from_chars(&v, rest_start, i);
                let host = string_from_chars(&v, i + 1, len);
                Ok(HostMask { nick, username, host })
            },
            None => {
                let mut username = String::new();
                push_char(&mut username, '*');
                let mut host = String::new();
                push_char(&mut host, '*');
                assert(valid_section(seq!['*']));
                assert(username@ =~= seq!['*']);
                assert(host@ =~= seq!['*']);
                Ok(HostMask { nick, username, host })
            },
        }
    }
}

/// Writing a mask as `nick!username@host` and parsing it back gives the
/// mask again, when its sections are acceptable, the nick holds no `!` and
/// the username no `@`.
pub proof fn lemma_parse_written_mask(m: MaskText)
    requires
        valid_section(m.0),
        valid_section(m.1),
        valid_section(m.2),
        !m.0.contains('!'),
        !m.1.contains('@'),
    ensures
        parse_mask(m.0 + seq!['!'] + m.1 + seq!['@'] + m.2) == Ok::<MaskText, HostMaskError>(m),
{
    let s = m.0 + seq!['!'] + m.1 + seq!['@'] + m.2;
    let n = m.0.len() as int;
    assert(s[n] == '!');
    assert forall|j: int| 0 <= j < n implies s[j] != '!' by {
        assert(s[j] == m.0[j]);
    }
    lemma_first_pos(s, '!', n);
    assert(s.take(n) =~= m.0);
    let rest = s.skip(n + 1);
    assert(rest =~= m.1 + seq!['@'] + m.2);
    let u = m.1.len() as int;
    assert(rest[u] == '@');
    assert forall|j: int| 0 <= j < u implies rest[j] != '@' by {
        assert(rest[j] == m.1[j]);
    }
    lemma_first_pos(rest, '@', u);
    assert(rest.take(u) =~= m.1);
    assert(rest.skip(u + 1) =~= m.2);
}

impl<'a> vstd::std_specs::convert::TryFromSpecImpl<&'a str> for HostMask {
    /// A parsed mask is pinned down by its text only, which `parse` states;
    /// the `String`s inside it are not, so no exact result is promised here.
    open spec fn obeys_try_from_spec() -> bool {
        false
    }

    open spec fn try_from_spec(v: &'a str) -> Result<HostMask, HostMaskError> {
        choose|r: Result<HostMask, HostMaskError>| #[trigger] parsed_as(v@, r)
    }
}

/// Parses a mask as `HostMask::parse` does.
impl<'a> TryFrom<&'a str> for HostMask {
    type Error = HostMaskError;

    fn try_from(value: &'a str) -> (r: Result<HostMask, HostMaskError>)
        ensures
            parsed_as(value@, r),
    {
        HostMask::parse(value)
    }
}

} // verus!
