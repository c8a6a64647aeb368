//! Small verified helpers over characters and strings.

use vstd::prelude::*;
use vstd::std_specs::iter::IteratorSpec;

use crate::message::texts;

verus! {

/// Appends one character to a string.
#[verifier::external_body]
pub(crate) fn push_char(s: &mut String, c: char)
    ensures
        final(s)@ == old(s)@.push(c),
{
    s.push(c);
}

/// Collects the characters of `s` into a vector.
pub fn chars_of(s: &str) -> (v: Vec<char>)
    ensures
        v@ == s@,
{
    let mut v: Vec<char> = Vec::new();
    for c in iter: s.chars()
        invariant
            v.len() == iter.index(),
            forall|i: int| 0 <= i < v.len() ==> v@[i] == iter.seq()[i],
    {
        v.push(c);
    }
    assert(v@ =~= s@);
    v
}

/// The string made of `v[from..to]`.
pub fn string_from_chars(v: &Vec<char>, from: usize, to: usize) -> (s: String)
    requires
        from <= to <= v.len(),
    ensures
        s@ == v@.subrange(from as int, to as int),
{
    let mut s = String::new();
    let mut i = from;
    while i < to
        invariant
            from <= i <= to <= v.len(),
            s@ == v@.subrange(from as int, i as int),
        decreases to - i,
    {
        push_char(&mut s, v[i]);
        assert(v@.subrange(from as int, i + 1) =~= v@.subrange(from as int, i as int).push(v@[i as int]));
        i = i + 1;
    }
    s
}

/// The code point of a character.
pub open spec fn code_of(c: char) -> u32 {
    c as u32
}

/// `char::from_u32`: the character whose code point is `code`, where
/// there is one.
#[verifier::external_body]
pub(crate) fn char_from_u32(code: u32) -> (r: Option<char>)
    ensures
        r matches Some(c) ==> code_of(c) == code,
        (exists|c: char| #[trigger] code_of(c) == code) ==> r is Some,
{
    char::from_u32(code)
}

/// The pieces of `s` between occurrences of `sep`, as `str::split` gives
/// them: one more piece than there are separators.
pub open spec fn split_on(s: Seq<char>, sep: char) -> Seq<Seq<char>>
    decreases s.len(),
{
    if s.len() == 0 {
        seq![Seq::<char>::empty()]
    } else if s.last() == sep {
        split_on(s.drop_last(), sep).push(Seq::<char>::empty())
    } else {
        let p = split_on(s.drop_last(), sep);
        p.update(p.len() - 1, p.last().push(s.last()))
    }
}

/// Whether a text has at least one character.
pub open spec fn non_empty(s: Seq<char>) -> bool {
    s.len() > 0
}

/// Keeping the non-empty texts of a sequence with one more text at its end
/// keeps those of the sequence, then that text if it is not empty.
pub proof fn lemma_filter_push(s: Seq<Seq<char>>, x: Seq<char>)
    ensures
        s.push(x).filter(|y: Seq<char>| non_empty(y)) == if non_empty(x) {
            s.filter(|y: Seq<char>| non_empty(y)).push(x)
        } else {
            s.filter(|y: Seq<char>| non_empty(y))
        },
{
    reveal(Seq::filter);
    assert(s.push(x).drop_last() =~= s);
}

/// Splits `s` at every `sep`, as `str::split` does.
pub fn split_string(s: &str, sep: char) -> (r: Vec<String>)
    ensures
        texts(r@) == split_on(s@, sep),
{
    let v = chars_of(s);
    let mut out: Vec<String> = Vec::new();
    let mut start: usize = 0;
    let mut i: usize = 0;
    while i < v.len()
        invariant
            v@ == s@,
            start <= i <= v.len(),
            split_on(v@.take(i as int), sep).len() >= 1,
            texts(out@) == split_on(v@.take(i as int), sep).drop_last(),
            split_on(v@.take(i as int), sep).last() == v@.subrange(start as int, i as int),
        decreases v.len() - i,
    {
        let ghost pre = v@.take(i as int);
        let ghost next = v@.take(i + 1);
        assert(next.drop_last() =~= pre);
        assert(next.last() == v@[i as int]);
        if v[i] == sep {
            let piece = string_from_chars(&v, start, i);
            proof {
                assert(split_on(next, sep) == split_on(pre, sep).push(Seq::<char>::empty()));
                assert(split_on(pre, sep).drop_last().push(split_on(pre, sep).last()) =~= split_on(pre, sep));
                assert(split_on(next, sep).drop_last() =~= split_on(pre, sep));
                assert(v@.subrange(i + 1, i + 1) =~= Seq::<char>::empty());
            }
            out.push(piece);
            assert(texts(out@) =~= split_on(next, sep).drop_last());
            start = i + 1;
        } else {
            proof {
                let p = split_on(pre, sep);
                assert(split_on(next, sep) == p.update(p.len() - 1, p.last().push(v@[i as int])));
                assert(split_on(next, sep).drop_last() =~= p.drop_last());
                assert(v@.subrange(start as int, i + 1) =~= v@.subrange(start as int, i as int).push(v@[i as int]));
            }
        }
        i = i + 1;
    }
    assert(v@.take(v.len() as int) =~= s@);
    let piece = string_from_chars(&v, start, i);
    out.push(piece);
    proof {
        let all = split_on(s@, sep);
        assert(all.drop_last().push(all.last()) =~= all);
    }
    assert(texts(out@) =~= split_on(s@, sep));
    out
}

/// The pieces, separated by single spaces.
pub open spec fn join_spaces(pieces: Seq<Seq<char>>) -> Seq<char>
    decreases pieces.len(),
{
    if pieces.len() == 0 {
        Seq::<char>::empty()
    } else if pieces.len() == 1 {
        pieces[0]
    } else {
        join_spaces(pieces.drop_last()) + seq![' '] + pieces.last()
    }
}

/// Joins strings with single spaces.
pub fn join_with_spaces(v: &Vec<String>) -> (s: String)
    ensures
        s@ == join_spaces(texts(v@)),
{
    let ghost w = texts(v@);
    let mut s = String::new();
    let mut i: usize = 0;
    while i < v.len()
        invariant
            i <= v.len(),
            w == texts(v@),
            s@ == join_spaces(w.take(i as int)),
        decreases v.len() - i,
    {
        assert(w.take(i + 1).drop_last() =~= w.take(i as int));
        if i > 0 {
            push_char(&mut s, ' ');
        } else {
            assert(s@ =~= Seq::<char>::empty());
        }
        s.append(v[i].as_str());
        assert(w.take(i + 1).last() == v@[i as int]@);
        proof {
            if i == 0 {
                assert(s@ =~= w.take(1)[0]);
            } else {
                assert(s@ =~= join_spaces(w.take(i as int)) + seq![' '] + w.take(i + 1).last());
            }
        }
        i = i + 1;
    }
    assert(w.take(v.len() as int) =~= w);
    s
}

/// Whether a character has the Unicode `White_Space` property.
pub open spec fn is_whitespace(c: char) -> bool {
    let n = c as u32;
    (0x9 <= n <= 0xd) || n == 0x20 || n == 0x85 || n == 0xa0 || n == 0x1680 || (0x2000 <= n <= 0x200a)
        || n == 0x2028 || n == 0x2029 || n == 0x202f || n == 0x205f || n == 0x3000
}

pub(crate) fn whitespace(c: char) -> (b: bool)
    ensures
        b == is_whitespace(c),
{
    let n = c as u32;
    (0x9 <= n && n <= 0xd) || n == 0x20 || n == 0x85 || n == 0xa0 || n == 0x1680 || (0x2000 <= n && n
        <= 0x200a) || n == 0x2028 || n == 0x2029 || n == 0x202f || n == 0x205f || n == 0x3000
}

/// `s` without its leading whitespace.
pub open spec fn trim_start(s: Seq<char>) -> Seq<char>
    decreases s.len(),
{
    if s.len() > 0 && is_whitespace(s[0]) {
        trim_start(s.drop_first())
    } else {
        s
    }
}

/// `s` without its trailing whitespace.
pub open spec fn trim_end(s: Seq<char>) -> Seq<char>
    decreases s.len(),
{
    if s.len() > 0 && is_whitespace(s.last()) {
        trim_end(s.drop_last())
    } else {
        s
    }
}

/// `s` without leading and trailing whitespace, as `str::trim` gives it.
pub open spec fn trim(s: Seq<char>) -> Seq<char> {
    trim_end(trim_start(s))
}

pub(crate) proof fn lemma_trim_start_skip(s: Seq<char>, i: int)
    requires
        0 <= i <= s.len(),
        forall|j: int| 0 <= j < i ==> is_whitespace(s[j]),
    ensures
        trim_start(s) == trim_start(s.subrange(i, s.len() as int)),
    decreases i,
{
    if i > 0 {
        assert(s.drop_first().subrange(i - 1, s.drop_first().len() as int) =~= s.subrange(i, s.len() as int));
        lemma_trim_start_skip(s.drop_first(), i - 1);
    } else {
        assert(s.subrange(0, s.len() as int) =~= s);
    }
}

proof fn lemma_trim_end_skip(s: Seq<char>, k: int)
    requires
        0 <= k <= s.len(),
        forall|j: int| k <= j < s.len() ==> is_whitespace(s[j]),
    ensures
        trim_end(s) == trim_end(s.subrange(0, k)),
    decreases s.len() - k,
{
    if k < s.len() {
        assert(s.drop_last().subrange(0, k) =~= s.subrange(0, k));
        lemma_trim_end_skip(s.drop_last(), k);
    } else {
        assert(s.subrange(0, k) =~= s);
    }
}

/// Removes leading and trailing whitespace.
pub fn trim_string(s: &str) -> (r: String)
    ensures
        r@ == trim(s@),
{
    let v = chars_of(s);
    let mut i: usize = 0;
    while i < v.len() && whitespace(v[i])
        invariant
            v@ == s@,
            i <= v.len(),
            forall|j: int| 0 <= j < i ==> is_whitespace(v@[j]),
        decreases v.len() - i,
    {
        i = i + 1;
    }
    proof {
        lemma_trim_start_skip(v@, i as int);
    }
    let ghost rest = v@.subrange(i as int, v.len() as int);
    assert(trim_start(rest) == rest);
    let mut k: usize = v.len();
    while k > i && whitespace(v[k - 1])
        invariant
            v@ == s@,
            i <= k <= v.len(),
            forall|j: int| k <= j < v.len() ==> is_whitespace(v@[j]),
        decreases k,
    {
        k = k - 1;
    }
    proof {
        let kk = (k - i) as int;
        assert forall|j: int| kk <= j < rest.len() implies is_whitespace(rest[j]) by {
            assert(rest[j] == v@[i + j]);
        }
        lemma_trim_end_skip(rest, kk);
        let t = rest.subrange(0, kk);
        assert(t =~= v@.subrange(i as int, k as int));
        if t.len() > 0 {
            assert(t.last() == v@[k - 1]);
        }
    }
    string_from_chars(&v, i, k)
}

/// No piece of a split holds the separator.
pub proof fn lemma_split_pieces_lack_separator(s: Seq<char>, sep: char)
    ensures
        split_on(s, sep).len() >= 1,
        forall|i: int| 0 <= i < split_on(s, sep).len() ==> !(#[trigger] split_on(s, sep)[i]).contains(sep),
    decreases s.len(),
{
    if s.len() > 0 {
        lemma_split_pieces_lack_separator(s.drop_last(), sep);
        let p = split_on(s.drop_last(), sep);
        if s.last() != sep {
            let q = split_on(s, sep);
            assert forall|i: int| 0 <= i < q.len() implies !(#[trigger] q[i]).contains(sep) by {
                if i == q.len() - 1 {
                    let x = p.last().push(s.last());
                    if x.contains(sep) {
                        let j = choose|j: int| 0 <= j < x.len() && x[j] == sep;
                        if j < p.last().len() {
                            assert(p.last()[j] == sep);
                            assert(p[p.len() - 1] == p.last());
                        }
                    }
                } else {
                    assert(q[i] == p[i]);
                }
            }
        } else {
            let q = split_on(s, sep);
            assert forall|i: int| 0 <= i < q.len() implies !(#[trigger] q[i]).contains(sep) by {
                if i < p.len() {
                    assert(q[i] == p[i]);
                }
            }
        }
    }
}

/// Joining the pieces of a split on spaces with single spaces gives the text
/// back.
pub proof fn lemma_join_split(s: Seq<char>)
    ensures
        join_spaces(split_on(s, ' ')) == s,
    decreases s.len(),
{
    if s.len() > 0 {
        lemma_join_split(s.drop_last());
        lemma_split_pieces_lack_separator(s.drop_last(), ' ');
        let p = split_on(s.drop_last(), ' ');
        if s.last() == ' ' {
            let q = split_on(s, ' ');
            assert(q.drop_last() =~= p);
            assert(join_spaces(q) == join_spaces(p) + seq![' '] + Seq::<char>::empty());
            assert(s.drop_last().push(' ') =~= s);
            assert(join_spaces(q) =~= s);
        } else {
            lemma_join_last_extended(p, s.last());
            assert(s.drop_last().push(s.last()) =~= s);
        }
    } else {
        assert(split_on(s, ' ') == seq![Seq::<char>::empty()]);
        assert(s =~= Seq::<char>::empty());
    }
}

/// Adding a character to the last piece adds it to the end of the joined
/// text.
proof fn lemma_join_last_extended(p: Seq<Seq<char>>, c: char)
    requires
        p.len() >= 1,
    ensures
        join_spaces(p.update(p.len() - 1, p.last().push(c))) == join_spaces(p).push(c),
{
    let q = p.update(p.len() - 1, p.last().push(c));
    if p.len() == 1 {
        assert(q[0] == p[0].push(c));
    } else {
        assert(q.drop_last() =~= p.drop_last());
        assert(q.last() == p.last().push(c));
        assert(join_spaces(q) =~= join_spaces(p).push(c));
    }
}

} // verus!
