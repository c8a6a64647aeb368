//! The parameters of the line protocol: nicks, channels, free text and the
//! other words a command carries, with the checks each must pass.

use vstd::prelude::*;

use crate::protocol::commands::{find_space, lemma_space_from_bounds, slice_bytes, space_from};
use crate::protocol::replies::push_bytes;

verus! {

/// A check that the bytes of a parameter are acceptable.
pub trait ValidatingParser {
    fn validate(bytes: &[u8]) -> bool;
}

/// Whether a byte is an ASCII letter.
pub open spec fn is_letter(c: u8) -> bool {
    (97 <= c <= 122) || (65 <= c <= 90)
}

/// Whether a byte is an ASCII digit.
pub open spec fn is_digit(c: u8) -> bool {
    48 <= c <= 57
}

/// Whether a byte is one of the special nick characters ``-[]\`^{}``.
pub open spec fn is_special(c: u8) -> bool {
    c == 45 || c == 91 || c == 93 || c == 92 || c == 96 || c == 94 || c == 123 || c == 125
}

/// Whether every byte is a letter, digit or special character, from `from` on.
pub open spec fn nick_tail_ok(s: Seq<u8>, from: int) -> bool {
    forall|i: int| from <= i < s.len() ==> (is_letter(#[trigger] s[i]) || is_digit(s[i]) || is_special(s[i]))
}

/// Whether a nick is acceptable: a letter, then letters, digits and special
/// characters.
pub open spec fn valid_nick(s: Seq<u8>) -> bool {
    s.len() > 0 && is_letter(s[0]) && nick_tail_ok(s, 1)
}

fn letter(c: u8) -> (b: bool)
    ensures
        b == is_letter(c),
{
    (97 <= c && c <= 122) || (65 <= c && c <= 90)
}

fn digit(c: u8) -> (b: bool)
    ensures
        b == is_digit(c),
{
    48 <= c && c <= 57
}

fn special(c: u8) -> (b: bool)
    ensures
        b == is_special(c),
{
    c == 45 || c == 91 || c == 93 || c == 92 || c == 96 || c == 94 || c == 123 || c == 125
}

/// ASCII letters.
pub struct Letter;

impl ValidatingParser for Letter {
    fn validate(bytes: &[u8]) -> (b: bool)
        ensures
            b == forall|i: int| 0 <= i < bytes@.len() ==> is_letter(#[trigger] bytes@[i]),
    {
        let mut i: usize = 0;
        while i < bytes.len()
            invariant
                i <= bytes@.len(),
                forall|j: int| 0 <= j < i ==> is_letter(#[trigger] bytes@[j]),
            decreases bytes@.len() - i,
        {
            if !letter(bytes[i]) {
                return false;
            }
            i = i + 1;
        }
        true
    }
}

/// ASCII digits.
pub struct Number;

impl ValidatingParser for Number {
    fn validate(bytes: &[u8]) -> (b: bool)
        ensures
            b == forall|i: int| 0 <= i < bytes@.len() ==> is_digit(#[trigger] bytes@[i]),
    {
        let mut i: usize = 0;
        while i < bytes.len()
            invariant
                i <= bytes@.len(),
                forall|j: int| 0 <= j < i ==> is_digit(#[trigger] bytes@[j]),
            decreases bytes@.len() - i,
        {
            if !digit(bytes[i]) {
                return false;
            }
            i = i + 1;
        }
        true
    }
}

/// The special nick characters.
pub struct Special;

impl ValidatingParser for Special {
    fn validate(bytes: &[u8]) -> (b: bool)
        ensures
            b == forall|i: int| 0 <= i < bytes@.len() ==> is_special(#[trigger] bytes@[i]),
    {
        let mut i: usize = 0;
        while i < bytes.len()
            invariant
                i <= bytes@.len(),
                forall|j: int| 0 <= j < i ==> is_special(#[trigger] bytes@[j]),
            decreases bytes@.len() - i,
        {
            if !special(bytes[i]) {
                return false;
            }
            i = i + 1;
        }
        true
    }
}

/// A user name.
#[derive(Clone, Debug, PartialEq, Eq)]
pub struct Username(pub Vec<u8>);

/// A mode string.
#[derive(Clone, Debug, PartialEq, Eq)]
pub struct Mode(pub Vec<u8>);

/// A host name.
#[derive(Clone, Debug, PartialEq, Eq)]
pub struct HostName(pub Vec<u8>);

/// A server name.
#[derive(Clone, Debug, PartialEq, Eq)]
pub struct ServerName(pub Vec<u8>);

/// A real name.
#[derive(Clone, Debug, PartialEq, Eq)]
pub struct RealName(pub Vec<u8>);

/// A nick.
#[derive(Clone, Debug, PartialEq, Eq)]
pub struct Nick(pub Vec<u8>);

/// A channel name.
#[derive(Clone, Debug, PartialEq, Eq)]
pub struct Channel(pub Vec<u8>);

/// Text that runs to the end of the line.
#[derive(Clone, Debug, PartialEq, Eq)]
pub struct FreeText(pub Vec<u8>);

impl ValidatingParser for Nick {
    fn validate(bytes: &[u8]) -> (b: bool)
        ensures
            b == valid_nick(bytes@),
    {
        if bytes.len() == 0 {
            return false;
        }
        if !letter(bytes[0]) {
            return false;
        }
        let mut i: usize = 1;
        while i < bytes.len()
            invariant
                1 <= i <= bytes@.len(),
                forall|j: int| 1 <= j < i ==> (is_letter(#[trigger] bytes@[j]) || is_digit(bytes@[j]) || is_special(
                    bytes@[j],
                )),
            decreases bytes@.len() - i,
        {
            let c = bytes[i];
            if !(letter(c) || digit(c) || special(c)) {
                return false;
            }
            i = i + 1;
        }
        true
    }
}

/// The parameters taken as they come.
impl ValidatingParser for Username {
    fn validate(bytes: &[u8]) -> (b: bool)
        ensures
            b,
    {
        true
    }
}

impl ValidatingParser for Mode {
    fn validate(bytes: &[u8]) -> (b: bool)
        ensures
            b,
    {
        true
    }
}

impl ValidatingParser for HostName {
    fn validate(bytes: &[u8]) -> (b: bool)
        ensures
            b,
    {
        true
    }
}

impl ValidatingParser for ServerName {
    fn validate(bytes: &[u8]) -> (b: bool)
        ensures
            b,
    {
        true
    }
}

impl ValidatingParser for RealName {
    fn validate(bytes: &[u8]) -> (b: bool)
        ensures
            b,
    {
        true
    }
}

impl ValidatingParser for Channel {
    fn validate(bytes: &[u8]) -> (b: bool)
        ensures
            b,
    {
        true
    }
}

impl ValidatingParser for FreeText {
    fn validate(bytes: &[u8]) -> (b: bool)
        ensures
            b,
    {
        true
    }
}

/// The rights a user holds in a channel, as shown before their nick.
#[derive(Copy, Clone, Debug, PartialEq, Eq, Structural)]
pub enum Rights {
    Op,
    Voice,
}

impl Rights {
    pub open spec fn symbol_spec(self) -> u8 {
        match self {
            Rights::Op => 64,
            Rights::Voice => 43,
        }
    }

    /// `@` for an operator, `+` for a voiced user.
    pub fn symbol(self) -> (c: u8)
        ensures
            c == self.symbol_spec(),
    {
        match self {
            Rights::Op => 64,
            Rights::Voice => 43,
        }
    }
}

/// Who a message goes to.
#[derive(Clone, Debug, PartialEq, Eq)]
pub enum Receiver {
    User(Nick),
    Channel(Channel),
}

/// Byte strings written one after another with a space between each two.
pub open spec fn space_joined(items: Seq<Seq<u8>>) -> Seq<u8>
    decreases items.len(),
{
    if items.len() == 0 {
        Seq::empty()
    } else if items.len() == 1 {
        items[0]
    } else {
        space_joined(items.drop_last()) + seq![32u8] + items.last()
    }
}

/// Writes `items` to `dst` with a space between each two.
fn write_space_joined(items: &Vec<Vec<u8>>, dst: &mut Vec<u8>)
    ensures
        final(dst)@ == old(dst)@ + space_joined(items@.map_values(|v: Vec<u8>| v@)),
{
    let ghost all = items@.map_values(|v: Vec<u8>| v@);
    let mut i: usize = 0;
    while i < items.len()
        invariant
            i <= items.len(),
            all == items@.map_values(|v: Vec<u8>| v@),
            dst@ == old(dst)@ + space_joined(all.take(i as int)),
        decreases items.len() - i,
    {
        let ghost before = dst@;
        if i > 0 {
            dst.push(32u8);
        }
        push_bytes(dst, items[i].as_slice());
        assert(all.take(i + 1).drop_last() =~= all.take(i as int));
        assert(dst@ =~= old(dst)@ + space_joined(all.take(i + 1)));
        i = i + 1;
    }
    assert(all.take(items.len() as int) =~= all);
}

/// The nicks of a list in which each nick is followed by a space, read from
/// `from` on, and where the bytes after the last such space start.
pub open spec fn nicks_from(s: Seq<u8>, from: int) -> (Seq<Seq<u8>>, int)
    decreases s.len() - from,
{
    if from < 0 || from > s.len() {
        (Seq::empty(), from)
    } else {
        let k = space_from(s, from);
        if k >= s.len() {
            (Seq::empty(), from)
        } else {
            proof {
                lemma_space_from_bounds(s, from);
            }
            let rest = nicks_from(s, k + 1);
            (seq![s.subrange(from, k)] + rest.0, rest.1)
        }
    }
}

/// A list of nicks.
#[derive(Clone, Debug, PartialEq, Eq)]
pub struct Nicks(pub Vec<Nick>);

impl Nicks {
    pub open spec fn texts(self) -> Seq<Seq<u8>> {
        self.0@.map_values(|n: Nick| n.0@)
    }

    /// Reads every nick that is followed by a space, and gives back the
    /// bytes after the last such space.
    pub fn parse(bytes: &Vec<u8>) -> (r: (Nicks, Vec<u8>))
        ensures
            r.0.texts() == nicks_from(bytes@, 0).0,
            r.1@ == bytes@.subrange(nicks_from(bytes@, 0).1, bytes@.len() as int),
    {
        let mut nicks: Vec<Nick> = Vec::new();
        let mut pos: usize = 0;
        loop
            invariant
                pos <= bytes.len(),
                nicks_from(bytes@, 0).0 == nicks@.map_values(|n: Nick| n.0@) + nicks_from(bytes@, pos as int).0,
                nicks_from(bytes@, 0).1 == nicks_from(bytes@, pos as int).1,
            ensures
                nicks_from(bytes@, pos as int).0 == Seq::<Seq<u8>>::empty(),
                nicks_from(bytes@, pos as int).1 == pos,
            decreases bytes.len() - pos,
        {
            let k = find_space(bytes, pos);
            if k >= bytes.len() {
                break;
            }
            proof {
                lemma_space_from_bounds(bytes@, pos as int);
            }
            let ghost rest = nicks_from(bytes@, k + 1);
            assert(nicks_from(bytes@, pos as int) == (seq![bytes@.subrange(pos as int, k as int)] + rest.0, rest.1));
            let nick = Nick(slice_bytes(bytes, pos, k));
            let ghost before = nicks@.map_values(|n: Nick| n.0@);
            nicks.push(nick);
            assert(nicks@.map_values(|n: Nick| n.0@) =~= before.push(bytes@.subrange(pos as int, k as int)));
            assert(before + (seq![bytes@.subrange(pos as int, k as int)] + rest.0) =~= before.push(
                bytes@.subrange(pos as int, k as int),
            ) + rest.0);
            pos = k + 1;
        }
        assert(nicks_from(bytes@, 0).0 =~= nicks@.map_values(|n: Nick| n.0@));
        let rest = slice_bytes(bytes, pos, bytes.len());
        (Nicks(nicks), rest)
    }

    /// The nicks with a space between each two.
    pub fn write_to(&self, dst: &mut Vec<u8>)
        ensures
            final(dst)@ == old(dst)@ + space_joined(self.texts()),
    {
        let mut items: Vec<Vec<u8>> = Vec::new();
        let mut i: usize = 0;
        while i < self.0.len()
            invariant
                i <= self.0.len(),
                items@.map_values(|v: Vec<u8>| v@) == self.texts().take(i as int),
            decreases self.0.len() - i,
        {
            let ghost before = items@.map_values(|v: Vec<u8>| v@);
            let bytes = self.0[i].0.clone();
            assert(bytes@ == self.texts()[i as int]);
            items.push(bytes);
            assert(items@.map_values(|v: Vec<u8>| v@) =~= before.push(self.texts()[i as int]));
            assert(self.texts().take(i + 1) =~= self.texts().take(i as int).push(self.texts()[i as int]));
            i = i + 1;
        }
        assert(self.texts().take(self.0.len() as int) =~= self.texts());
        write_space_joined(&items, dst);
    }
}

/// A nick with the rights its user holds shown before it.
#[derive(Clone, Debug, PartialEq, Eq)]
pub struct RightsPrefixedNick(pub Rights, pub Nick);

/// A channel, with the rights the user holds in it shown before it.
#[derive(Clone, Debug, PartialEq, Eq)]
pub struct RightsPrefixedChannel(pub Rights, pub Nick);

/// The rights symbol, then the name.
pub open spec fn prefixed(r: Rights, name: Seq<u8>) -> Seq<u8> {
    seq![r.symbol_spec()] + name
}

fn prefixed_bytes(r: Rights, name: &Vec<u8>) -> (v: Vec<u8>)
    ensures
        v@ == prefixed(r, name@),
{
    let mut v: Vec<u8> = Vec::new();
    v.push(r.symbol());
    push_bytes(&mut v, name.as_slice());
    v
}

impl RightsPrefixedNick {
    pub open spec fn text(self) -> Seq<u8> {
        prefixed(self.0, self.1.0@)
    }

    /// The rights symbol, then the nick.
    pub fn write_to(&self, dst: &mut Vec<u8>)
        ensures
            final(dst)@ == old(dst)@ + self.text(),
    {
        dst.push(self.0.symbol());
        push_bytes(dst, self.1.0.as_slice());
        assert(dst@ =~= old(dst)@ + self.text());
    }
}

impl RightsPrefixedChannel {
    pub open spec fn text(self) -> Seq<u8> {
        prefixed(self.0, self.1.0@)
    }

    /// The rights symbol, then the name.
    pub fn write_to(&self, dst: &mut Vec<u8>)
        ensures
            final(dst)@ == old(dst)@ + self.text(),
    {
        dst.push(self.0.symbol());
        push_bytes(dst, self.1.0.as_slice());
        assert(dst@ =~= old(dst)@ + self.text());
    }
}

/// Nicks with their rights.
#[derive(Clone, Debug, PartialEq, Eq)]
pub struct RightsPrefixedNicks(pub Vec<RightsPrefixedNick>);

/// Channels with the user's rights in each.
#[derive(Clone, Debug, PartialEq, Eq)]
pub struct RightsPrefixedChannels(pub Vec<RightsPrefixedChannel>);

impl RightsPrefixedNicks {
    pub open spec fn texts(self) -> Seq<Seq<u8>> {
        self.0@.map_values(|n: RightsPrefixedNick| n.text())
    }

    /// Each nick with its rights, with a space between each two.
    pub fn write_to(&self, dst: &mut Vec<u8>)
        ensures
            final(dst)@ == old(dst)@ + space_joined(self.texts()),
    {
        let mut items: Vec<Vec<u8>> = Vec::new();
        let mut i: usize = 0;
        while i < self.0.len()
            invariant
                i <= self.0.len(),
                items@.map_values(|v: Vec<u8>| v@) == self.texts().take(i as int),
            decreases self.0.len() - i,
        {
            let entry = &self.0[i];
            let ghost before = items@.map_values(|v: Vec<u8>| v@);
            let bytes = prefixed_bytes(entry.0, &entry.1.0);
            assert(bytes@ == self.texts()[i as int]);
            items.push(bytes);
            assert(items@.map_values(|v: Vec<u8>| v@) =~= before.push(self.texts()[i as int]));
            assert(self.texts().take(i + 1) =~= self.texts().take(i as int).push(self.texts()[i as int]));
            i = i + 1;
        }
        assert(self.texts().take(self.0.len() as int) =~= self.texts());
        write_space_joined(&items, dst);
    }
}

impl RightsPrefixedChannels {
    pub open spec fn texts(self) -> Seq<Seq<u8>> {
        self.0@.map_values(|c: RightsPrefixedChannel| c.text())
    }

    /// Each channel with the rights held in it, with a space between each
    /// two.
    pub fn write_to(&self, dst: &mut Vec<u8>)
        ensures
            final(dst)@ == old(dst)@ + space_joined(self.texts()),
    {
        let mut items: Vec<Vec<u8>> = Vec::new();
        let mut i: usize = 0;
        while i < self.0.len()
            invariant
                i <= self.0.len(),
                items@.map_values(|v: Vec<u8>| v@) == self.texts().take(i as int),
            decreases self.0.len() - i,
        {
            let entry = &self.0[i];
            let ghost before = items@.map_values(|v: Vec<u8>| v@);
            let bytes = prefixed_bytes(entry.0, &entry.1.0);
            assert(bytes@ == self.texts()[i as int]);
            items.push(bytes);
            assert(items@.map_values(|v: Vec<u8>| v@) =~= before.push(self.texts()[i as int]));
            assert(self.texts().take(i + 1) =~= self.texts().take(i as int).push(self.texts()[i as int]));
            i = i + 1;
        }
        assert(self.texts().take(self.0.len() as int) =~= self.texts());
        write_space_joined(&items, dst);
    }
}

} // verus!
