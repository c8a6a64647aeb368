//! A prefix trie from host masks to values, walked one character at a time
//! through the nick, the username and the host.

use std::collections::HashMap;

use vstd::prelude::*;
use vstd::std_specs::hash::spec_hash_map_iter;
use vstd::std_specs::iter::IteratorSpec;

use crate::host_mask::{HostMask, MaskText};
use crate::text::{char_from_u32, chars_of, code_of, push_char};

verus! {

broadcast use vstd::std_specs::hash::group_hash_axioms;

/// The trie key of a `*` that closes a section.
pub const WILDCARD_KEY: u32 = 0x11_0000;

/// The trie key of the end of a section.
pub const END_KEY: u32 = 0x11_0001;

/// Keys that close a section.
pub open spec fn is_end_key(k: u32) -> bool {
    k == WILDCARD_KEY || k == END_KEY
}

/// Whether a key closes a section: a wildcard or the end of the text.
fn is_end(k: u32) -> (b: bool)
    ensures
        b == is_end_key(k),
{
    k == WILDCARD_KEY || k == END_KEY
}

/// The keys one section adds to a path: its characters up to the first `*`,
/// then a wildcard key where there was a `*`, or an end key where there was
/// none. What follows a `*` takes no part.
pub open spec fn section_keys(sec: Seq<char>) -> Seq<u32>
    decreases sec.len(),
{
    if sec.len() == 0 {
        seq![END_KEY]
    } else if sec[0] == '*' {
        seq![WILDCARD_KEY]
    } else {
        seq![sec[0] as u32] + section_keys(sec.drop_first())
    }
}

/// Section `l` of a mask (nick, username, host); empty past the host.
pub open spec fn section(q: MaskText, l: int) -> Seq<char> {
    if l == 0 {
        q.0
    } else if l == 1 {
        q.1
    } else if l == 2 {
        q.2
    } else {
        Seq::empty()
    }
}

/// The keys of sections `l..` of a mask.
pub open spec fn keys_after(q: MaskText, l: int) -> Seq<u32>
    decreases 3 - l,
{
    if l < 0 || l >= 3 {
        Seq::empty()
    } else {
        section_keys(section(q, l)) + keys_after(q, l + 1)
    }
}

/// The keys that remain of a mask from position `pos` of section `l`.
pub open spec fn keys_from(q: MaskText, l: int, pos: int) -> Seq<u32> {
    section_keys(section(q, l).skip(pos)) + keys_after(q, l + 1)
}

/// The full path of a mask in the trie.
pub open spec fn mask_path(m: MaskText) -> Seq<u32> {
    keys_after(m, 0)
}

/// A section pattern matches a text when they agree character for
/// character up to the pattern's first `*`, which matches any rest,
/// the empty rest included; without a `*` the two are equal.
pub open spec fn section_matches(pat: Seq<char>, text: Seq<char>) -> bool
    decreases pat.len(),
{
    if pat.len() == 0 {
        text.len() == 0
    } else if pat[0] == '*' {
        true
    } else {
        text.len() > 0 && text[0] == pat[0] && section_matches(pat.drop_first(), text.drop_first())
    }
}

/// A mask pattern matches a mask when each section matches.
pub open spec fn mask_matches(pat: MaskText, q: MaskText) -> bool {
    &&& section_matches(pat.0, q.0)
    &&& section_matches(pat.1, q.1)
    &&& section_matches(pat.2, q.2)
}

/// A section cut just after its first `*`.
pub open spec fn normalize_section(s: Seq<char>) -> Seq<char>
    decreases s.len(),
{
    if s.len() == 0 {
        s
    } else if s[0] == '*' {
        seq!['*']
    } else {
        seq![s[0]] + normalize_section(s.drop_first())
    }
}

/// A mask with each section cut just after its first `*`: the form in which
/// a map keeps its masks.
pub open spec fn normalize_mask(m: MaskText) -> MaskText {
    (normalize_section(m.0), normalize_section(m.1), normalize_section(m.2))
}

pub open spec fn is_normal(m: MaskText) -> bool {
    normalize_mask(m) == m
}

/// The mask a path of the trie stands for, rendered as `nick!user@host`.
pub open spec fn mask_string(m: MaskText) -> Seq<char> {
    m.0 + seq!['!'] + m.1 + seq!['@'] + m.2
}

// ---------------------------------------------------------------------
// Lemmas on paths
// ---------------------------------------------------------------------

proof fn lemma_char_code(c: char)
    ensures
        (c as u32) < WILDCARD_KEY,
        !is_end_key(c as u32),
{
}

proof fn lemma_char_code_injective(a: char, b: char)
    requires
        a as u32 == b as u32,
    ensures
        a == b,
{
    assert(a as int == b as int);
}

proof fn lemma_section_keys_normalize(s: Seq<char>)
    ensures
        section_keys(normalize_section(s)) == section_keys(s),
        normalize_section(normalize_section(s)) == normalize_section(s),
        forall|t: Seq<char>| section_matches(normalize_section(s), t) == section_matches(s, t),
    decreases s.len(),
{
    if s.len() == 0 {
    } else if s[0] == '*' {
        assert(normalize_section(s) =~= seq!['*']);
        assert(seq!['*'][0] == '*');
        assert(section_keys(seq!['*']) == seq![WILDCARD_KEY]);
        assert(normalize_section(seq!['*']) == seq!['*']);
    } else {
        let n = normalize_section(s);
        let r = s.drop_first();
        lemma_section_keys_normalize(r);
        assert(n == seq![s[0]] + normalize_section(r));
        assert(n[0] == s[0]);
        assert(n.drop_first() =~= normalize_section(r));
        assert forall|t: Seq<char>| section_matches(n, t) == section_matches(s, t) by {
            assert(section_matches(normalize_section(r), t.drop_first()) == section_matches(
                r,
                t.drop_first(),
            ));
        }
    }
}

/// Section keys never hold a closing key before their last position, and
/// always end in one.
proof fn lemma_section_keys_shape(s: Seq<char>)
    ensures
        section_keys(s).len() >= 1,
        is_end_key(section_keys(s).last()),
        forall|i: int| 0 <= i < section_keys(s).len() - 1 ==> !is_end_key(#[trigger] section_keys(s)[i]),
    decreases s.len(),
{
    if s.len() > 0 && s[0] != '*' {
        lemma_section_keys_shape(s.drop_first());
        lemma_char_code(s[0]);
        let t = section_keys(s.drop_first());
        assert forall|i: int| 0 <= i < section_keys(s).len() - 1 implies !is_end_key(
            #[trigger] section_keys(s)[i],
        ) by {
            if i > 0 {
                assert(section_keys(s)[i] == t[i - 1]);
            }
        }
    }
}

/// The keys of two normal sections followed by anything identify both
/// parts.
proof fn lemma_section_keys_injective(a: Seq<char>, b: Seq<char>, x: Seq<u32>, y: Seq<u32>)
    requires
        normalize_section(a) == a,
        normalize_section(b) == b,
        section_keys(a) + x == section_keys(b) + y,
    ensures
        a == b,
        x == y,
    decreases a.len(),
{
    let ka = section_keys(a);
    let kb = section_keys(b);
    assert((ka + x)[0] == ka[0]);
    assert((kb + y)[0] == kb[0]);
    if a.len() > 0 && a[0] != '*' {
        lemma_char_code(a[0]);
    }
    if b.len() > 0 && b[0] != '*' {
        lemma_char_code(b[0]);
    }
    if a.len() == 0 {
        assert(b.len() == 0);
        assert(x =~= (ka + x).drop_first());
        assert(y =~= (kb + y).drop_first());
    } else if a[0] == '*' {
        assert(b.len() > 0 && b[0] == '*');
        assert(a =~= seq!['*']);
        assert(b =~= seq!['*']);
        assert(x =~= (ka + x).drop_first());
        assert(y =~= (kb + y).drop_first());
    } else {
        assert(b.len() > 0 && b[0] != '*');
        assert(ka[0] == a[0] as u32);
        assert(kb[0] == b[0] as u32);
        lemma_char_code_injective(a[0], b[0]);
        let ra = a.drop_first();
        let rb = b.drop_first();
        assert(a == seq![a[0]] + normalize_section(ra));
        assert(ra =~= normalize_section(ra));
        assert(b == seq![b[0]] + normalize_section(rb));
        assert(rb =~= normalize_section(rb));
        assert(section_keys(ra) + x =~= (ka + x).drop_first());
        assert(section_keys(rb) + y =~= (kb + y).drop_first());
        lemma_section_keys_injective(ra, rb, x, y);
        assert(a =~= seq![a[0]] + ra);
        assert(b =~= seq![b[0]] + rb);
    }
}

/// The path of a mask is the path of its normal form, and two normal masks
/// with one path are equal.
proof fn lemma_mask_path(m: MaskText)
    ensures
        mask_path(normalize_mask(m)) == mask_path(m),
        is_normal(normalize_mask(m)),
        forall|n: MaskText| is_normal(n) && is_normal(m) && #[trigger] mask_path(n) == mask_path(m) ==> n == m,
{
    lemma_section_keys_normalize(m.0);
    lemma_section_keys_normalize(m.1);
    lemma_section_keys_normalize(m.2);
    let nm = normalize_mask(m);
    assert(keys_after(nm, 3) == keys_after(m, 3));
    assert(keys_after(nm, 2) == keys_after(m, 2));
    assert(keys_after(nm, 1) == keys_after(m, 1));
    assert forall|n: MaskText| is_normal(n) && is_normal(m) && #[trigger] mask_path(n) == mask_path(m) implies n == m by {
        assert(normalize_section(n.0) == n.0);
        assert(normalize_section(m.0) == m.0);
        assert(normalize_section(n.1) == n.1);
        assert(normalize_section(m.1) == m.1);
        assert(normalize_section(n.2) == n.2);
        assert(normalize_section(m.2) == m.2);
        lemma_section_keys_injective(n.0, m.0, keys_after(n, 1), keys_after(m, 1));
        lemma_section_keys_injective(n.1, m.1, keys_after(n, 2), keys_after(m, 2));
        assert(keys_after(n, 3) =~= Seq::<u32>::empty());
        assert(keys_after(m, 3) =~= Seq::<u32>::empty());
        assert(section_keys(n.2) + Seq::<u32>::empty() =~= section_keys(n.2));
        assert(section_keys(m.2) + Seq::<u32>::empty() =~= section_keys(m.2));
        lemma_section_keys_injective(n.2, m.2, keys_after(n, 3), keys_after(m, 3));
    }
}

/// One step along the keys of a mask.
proof fn lemma_keys_from_step(q: MaskText, l: int, pos: int)
    requires
        0 <= l <= 2,
        0 <= pos <= section(q, l).len(),
    ensures
        ({
            let s = section(q, l);
            if pos < s.len() && s[pos] != '*' {
                keys_from(q, l, pos) == seq![s[pos] as u32] + keys_from(q, l, pos + 1)
            } else if pos < s.len() {
                keys_from(q, l, pos) == seq![WILDCARD_KEY] + keys_after(q, l + 1)
            } else {
                keys_from(q, l, pos) == seq![END_KEY] + keys_after(q, l + 1)
            }
        }),
        l < 2 ==> keys_from(q, l + 1, 0) == keys_after(q, l + 1),
        keys_from(q, l, 0) == keys_after(q, l),
{
    let s = section(q, l);
    let t = s.skip(pos);
    if pos < s.len() {
        assert(t[0] == s[pos]);
        assert(t.drop_first() =~= s.skip(pos + 1));
    } else {
        assert(t =~= Seq::<char>::empty());
    }
    assert(section(q, l + 1).skip(0) =~= section(q, l + 1));
    assert(s.skip(0) =~= s);
}

// ---------------------------------------------------------------------
// The trie
// ---------------------------------------------------------------------

/// Which section a level of the trie walks through.
#[derive(Copy, Clone, Debug, PartialEq, Eq)]
enum Matcher {
    Nick,
    Username,
    Host,
}

impl Matcher {
    spec fn level(self) -> int {
        match self {
            Matcher::Nick => 0,
            Matcher::Username => 1,
            Matcher::Host => 2,
        }
    }

    fn at_level(l: usize) -> (m: Matcher)
        requires
            l <= 2,
        ensures
            m.level() == l,
    {
        if l == 0 {
            Matcher::Nick
        } else if l == 1 {
            Matcher::Username
        } else {
            Matcher::Host
        }
    }

    /// The matcher of the following section, if any.
    fn next(self) -> (r: Option<Matcher>)
        ensures
            match r {
                Some(m) => self.level() < 2 && m.level() == self.level() + 1,
                None => self.level() == 2,
            },
    {
        match self {
            Matcher::Nick => Some(Matcher::Username),
            Matcher::Username => Some(Matcher::Host),
            Matcher::Host => None,
        }
    }

    /// The separator written after this section.
    fn splitter(self) -> (s: &'static str)
        ensures
            s@ == splitter_text(self.level()),
    {
        match self {
            Matcher::Nick => {
                proof {
                    reveal_strlit("!");
                }
                "!"
            },
            Matcher::Username => {
                proof {
                    reveal_strlit("@");
                }
                "@"
            },
            Matcher::Host => {
                proof {
                    reveal_strlit("");
                }
                ""
            },
        }
    }
}

enum Node<T> {
    Match(T),
    Inner(HostMaskMap<T>),
}

/// A map of host masks to `T`, kept as a prefix trie over the three
/// sections, with support for a trailing wildcard in each section.
pub struct HostMaskMap<T> {
    children: HashMap<u32, Node<T>>,
    matcher: Matcher,
}

/// The node reached from `m` by following the keys of `p`.
spec fn node_at<T>(m: HostMaskMap<T>, p: Seq<u32>) -> Option<Node<T>>
    decreases p.len(),
{
    if p.len() == 0 || !m.children@.contains_key(p[0]) {
        None
    } else if p.len() == 1 {
        Some(m.children@[p[0]])
    } else {
        match m.children@[p[0]] {
            Node::Inner(c) => node_at(c, p.drop_first()),
            Node::Match(_) => None,
        }
    }
}

/// The value stored at the end of path `p`.
spec fn lookup<T>(m: HostMaskMap<T>, p: Seq<u32>) -> Option<T> {
    match node_at(m, p) {
        Some(Node::Match(v)) => Some(v),
        _ => None,
    }
}

/// The number of closing keys in `p`.
spec fn ends(p: Seq<u32>) -> int
    decreases p.len(),
{
    if p.len() == 0 {
        0
    } else {
        (if is_end_key(p[0]) {
            1int
        } else {
            0int
        }) + ends(p.drop_first())
    }
}

spec fn valid_key(k: u32) -> bool {
    is_end_key(k) || exists|c: char| c != '*' && #[trigger] code_of(c) == k
}

/// What the trie requires of the node under key `k` of a node at level `lp`.
spec fn node_ok<T>(n: Node<T>, lp: int, k: u32) -> bool {
    &&& valid_key(k)
    &&& 0 <= lp <= 2
    &&& match n {
        Node::Match(_) => is_end_key(k) && lp == 2,
        Node::Inner(c) => {
            &&& !(is_end_key(k) && lp == 2)
            &&& c.matcher.level() == lp + if is_end_key(k) {
                1int
            } else {
                0int
            }
            &&& !c.children@.is_empty()
        },
    }
}

/// The trie below `m` is consistent with `m` sitting at level `l`.
spec fn wf_at<T>(m: HostMaskMap<T>, l: int) -> bool {
    &&& m.matcher.level() == l
    &&& forall|p: Seq<u32>| #[trigger]
        node_at(m, p) is Some ==> node_ok(node_at(m, p)->0, l + ends(p.drop_last()), p.last())
}

proof fn lemma_ends_prepend(k: u32, s: Seq<u32>)
    ensures
        ends(seq![k] + s) == (if is_end_key(k) {
            1int
        } else {
            0int
        }) + ends(s),
{
    assert((seq![k] + s).drop_first() =~= s);
}

/// Following `[k] + s` from `m` is following `s` from the child under `k`.
proof fn lemma_node_at_child<T>(m: HostMaskMap<T>, k: u32, s: Seq<u32>)
    requires
        s.len() > 0,
    ensures
        node_at(m, seq![k] + s) == (if m.children@.contains_key(k) {
            match m.children@[k] {
                Node::Inner(c) => node_at(c, s),
                Node::Match(_) => None,
            }
        } else {
            None
        }),
{
    assert((seq![k] + s).drop_first() =~= s);
    assert((seq![k] + s)[0] == k);
}

/// The trie under an inner child of a well formed node is well formed.
proof fn lemma_wf_child<T>(m: HostMaskMap<T>, l: int, k: u32)
    requires
        wf_at(m, l),
        m.children@.contains_key(k),
        m.children@[k] is Inner,
    ensures
        wf_at(
            m.children@[k]->Inner_0,
            l + if is_end_key(k) {
                1int
            } else {
                0int
            },
        ),
{
    let c = m.children@[k]->Inner_0;
    let lc = l + if is_end_key(k) {
        1int
    } else {
        0int
    };
    assert(node_at(m, seq![k]) == Some(m.children@[k]));
    assert(seq![k].drop_last() =~= Seq::<u32>::empty());
    assert(node_ok(m.children@[k], l + ends(seq![k].drop_last()), seq![k].last()));
    assert forall|s: Seq<u32>| #[trigger] node_at(c, s) is Some implies node_ok(
        node_at(c, s)->0,
        lc + ends(s.drop_last()),
        s.last(),
    ) by {
        let p = seq![k] + s;
        lemma_node_at_child(m, k, s);
        assert(node_at(m, p) is Some);
        assert(p.drop_last() =~= seq![k] + s.drop_last());
        lemma_ends_prepend(k, s.drop_last());
        assert(p.last() == s.last());
    }
}

/// A trie whose children changed only under `k` reaches the same nodes
/// along paths that do not start with `k`.
proof fn lemma_node_at_other<T>(a: HostMaskMap<T>, b: HostMaskMap<T>, k: u32, p: Seq<u32>)
    requires
        b.children@ == a.children@.insert(k, b.children@[k]) || b.children@ == a.children@.remove(k),
        p.len() > 0,
        p[0] != k,
    ensures
        node_at(b, p) == node_at(a, p),
{
}

/// The node under `k` of a well formed node is as the trie requires.
proof fn lemma_child_ok<T>(m: HostMaskMap<T>, l: int, k: u32)
    requires
        wf_at(m, l),
        m.children@.contains_key(k),
    ensures
        node_ok(m.children@[k], l, k),
{
    assert(node_at(m, seq![k]) == Some(m.children@[k]));
    assert(seq![k].drop_last() =~= Seq::<u32>::empty());
    assert(node_ok(m.children@[k], l + ends(seq![k].drop_last()), seq![k].last()));
}

/// Storing a value under a closing key of the host level.
proof fn lemma_store_match<T>(a: HostMaskMap<T>, b: HostMaskMap<T>, l: int, key: u32, value: T)
    requires
        wf_at(a, l),
        l == 2,
        is_end_key(key),
        b.matcher == a.matcher,
        b.children@ == a.children@.insert(key, Node::Match(value)),
    ensures
        wf_at(b, l),
        !b.children@.is_empty(),
        forall|p: Seq<u32>| #[trigger]
            lookup(b, p) == if p == seq![key] {
                Some(value)
            } else {
                lookup(a, p)
            },
{
    assert(valid_key(key));
    assert forall|p: Seq<u32>| #[trigger] node_at(b, p) is Some implies node_ok(
        node_at(b, p)->0,
        l + ends(p.drop_last()),
        p.last(),
    ) by {
        if p[0] != key {
            lemma_node_at_other(a, b, key, p);
        } else if p.len() == 1 {
            assert(p.drop_last() =~= Seq::<u32>::empty());
        } else {
            assert(p =~= seq![key] + p.drop_first());
            lemma_node_at_child(b, key, p.drop_first());
        }
    }
    assert forall|p: Seq<u32>| #[trigger]
        lookup(b, p) == if p == seq![key] {
            Some(value)
        } else {
            lookup(a, p)
        } by {
        if p.len() == 0 {
        } else if p[0] != key {
            lemma_node_at_other(a, b, key, p);
        } else if p.len() == 1 {
            assert(p =~= seq![key]);
        } else {
            assert(p =~= seq![key] + p.drop_first());
            lemma_node_at_child(b, key, p.drop_first());
            lemma_node_at_child(a, key, p.drop_first());
            if a.children@.contains_key(key) {
                lemma_child_ok(a, l, key);
            }
            assert(p.len() != seq![key].len());
        }
    }
    assert(b.children@.contains_key(key));
}

/// Storing a grown inner child under a key.
proof fn lemma_store_inner<T>(
    a: HostMaskMap<T>,
    b: HostMaskMap<T>,
    l: int,
    key: u32,
    c_old: HostMaskMap<T>,
    c_new: HostMaskMap<T>,
    value: T,
    tail: Seq<u32>,
)
    requires
        wf_at(a, l),
        0 <= l <= 2,
        valid_key(key),
        !(is_end_key(key) && l == 2),
        wf_at(
            c_new,
            l + if is_end_key(key) {
                1int
            } else {
                0int
            },
        ),
        !c_new.children@.is_empty(),
        a.children@.contains_key(key) ==> a.children@[key] == Node::Inner(c_old),
        !a.children@.contains_key(key) ==> forall|s: Seq<u32>| #[trigger] node_at(c_old, s) is None,
        tail.len() > 0,
        forall|s: Seq<u32>| #[trigger]
            lookup(c_new, s) == if s == tail {
                Some(value)
            } else {
                lookup(c_old, s)
            },
        b.matcher == a.matcher,
        b.children@ == a.children@.insert(key, Node::Inner(c_new)),
    ensures
        wf_at(b, l),
        !b.children@.is_empty(),
        forall|p: Seq<u32>| #[trigger]
            lookup(b, p) == if p == seq![key] + tail {
                Some(value)
            } else {
                lookup(a, p)
            },
{
    let target = seq![key] + tail;
    assert(target.drop_first() =~= tail);
    assert forall|p: Seq<u32>| #[trigger] node_at(b, p) is Some implies node_ok(
        node_at(b, p)->0,
        l + ends(p.drop_last()),
        p.last(),
    ) by {
        if p[0] != key {
            lemma_node_at_other(a, b, key, p);
        } else if p.len() == 1 {
            assert(p.drop_last() =~= Seq::<u32>::empty());
            assert(p =~= seq![key]);
        } else {
            let s = p.drop_first();
            assert(p =~= seq![key] + s);
            lemma_node_at_child(b, key, s);
            assert(node_at(c_new, s) is Some);
            assert(p.drop_last() =~= seq![key] + s.drop_last());
            lemma_ends_prepend(key, s.drop_last());
            assert(p.last() == s.last());
        }
    }
    assert forall|p: Seq<u32>| #[trigger]
        lookup(b, p) == if p == target {
            Some(value)
        } else {
            lookup(a, p)
        } by {
        if p.len() == 0 {
        } else if p[0] != key {
            lemma_node_at_other(a, b, key, p);
        } else if p.len() == 1 {
            assert(p =~= seq![key]);
            assert(p.len() != target.len());
            assert(node_at(b, p) == Some(Node::Inner(c_new)));
            assert(lookup(a, p) is None);
        } else {
            let s = p.drop_first();
            assert(p =~= seq![key] + s);
            lemma_node_at_child(b, key, s);
            lemma_node_at_child(a, key, s);
            assert(lookup(b, p) == lookup(c_new, s));
            assert(lookup(a, p) == lookup(c_old, s));
            assert((p == target) == (s == tail)) by {
                if s == tail {
                    assert(p =~= target);
                }
                if p == target {
                    assert(s =~= target.drop_first());
                }
            }
        }
    }
    assert(b.children@.contains_key(key));
}

// ---------------------------------------------------------------------
// Matching along paths
// ---------------------------------------------------------------------

/// The key a query offers at position `pos` of section `l`: its character
/// there, or the end key past the section's end.
pub open spec fn query_key(q: MaskText, l: int, pos: int) -> u32 {
    let s = section(q, l);
    if 0 <= pos < s.len() {
        s[pos] as u32
    } else {
        END_KEY
    }
}

/// A stored path `p` is walked by a query standing at position `pos` of
/// section `l`: each key is the one the query offers or a wildcard, and a
/// closing key moves the query on to the start of the next section.
pub open spec fn keys_match(p: Seq<u32>, q: MaskText, l: int, pos: int) -> bool
    decreases p.len(),
{
    if p.len() == 0 {
        true
    } else {
        &&& (p[0] == query_key(q, l, pos) || p[0] == WILDCARD_KEY)
        &&& if is_end_key(p[0]) {
            keys_match(p.drop_first(), q, l + 1, 0)
        } else {
            keys_match(p.drop_first(), q, l, pos + 1)
        }
    }
}

proof fn lemma_keys_match_section(pat: Seq<char>, x: Seq<u32>, q: MaskText, l: int, pos: int)
    requires
        0 <= pos <= section(q, l).len(),
    ensures
        keys_match(section_keys(pat) + x, q, l, pos) == (section_matches(
            pat,
            section(q, l).skip(pos),
        ) && keys_match(x, q, l + 1, 0)),
    decreases pat.len(),
{
    let p = section_keys(pat) + x;
    let s = section(q, l);
    let t = s.skip(pos);
    if pos < s.len() {
        lemma_char_code(s[pos]);
        assert(t[0] == s[pos]);
    }
    if pat.len() == 0 {
        assert(p =~= seq![END_KEY] + x);
        assert(p.drop_first() =~= x);
    } else if pat[0] == '*' {
        assert(p =~= seq![WILDCARD_KEY] + x);
        assert(p.drop_first() =~= x);
    } else {
        let r = pat.drop_first();
        lemma_char_code(pat[0]);
        assert(p =~= seq![pat[0] as u32] + (section_keys(r) + x));
        assert(p.drop_first() =~= section_keys(r) + x);
        if pos < s.len() {
            lemma_keys_match_section(r, x, q, l, pos + 1);
            assert(t.drop_first() =~= s.skip(pos + 1));
            if s[pos] as u32 == pat[0] as u32 {
                lemma_char_code_injective(s[pos], pat[0]);
            }
        }
    }
}

/// Walking the path of a mask is matching the mask.
pub proof fn lemma_keys_match_mask(m: MaskText, q: MaskText)
    ensures
        keys_match(mask_path(m), q, 0, 0) == mask_matches(m, q),
{
    assert(section(q, 0).skip(0) =~= section(q, 0));
    assert(section(q, 1).skip(0) =~= section(q, 1));
    assert(section(q, 2).skip(0) =~= section(q, 2));
    assert(keys_after(m, 3) =~= Seq::<u32>::empty());
    lemma_keys_match_section(m.2, keys_after(m, 3), q, 2, 0);
    lemma_keys_match_section(m.1, keys_after(m, 2), q, 1, 0);
    lemma_keys_match_section(m.0, keys_after(m, 1), q, 0, 0);
}

/// The paths of `ps` with `k` put in front.
spec fn prefixed(k: u32, ps: Seq<Seq<u32>>) -> Seq<Seq<u32>> {
    ps.map_values(|s: Seq<u32>| seq![k] + s)
}

proof fn lemma_prefixed(k: u32, ps: Seq<Seq<u32>>)
    ensures
        prefixed(k, ps).len() == ps.len(),
        forall|i: int|
            0 <= i < ps.len() ==> #[trigger] prefixed(k, ps)[i] == seq![k] + ps[i]
                && prefixed(k, ps)[i][0] == k && prefixed(k, ps)[i].drop_first() == ps[i],
        ps.no_duplicates() ==> prefixed(k, ps).no_duplicates(),
        forall|s: Seq<u32>| ps.contains(s) ==> #[trigger] prefixed(k, ps).contains(seq![k] + s),
{
    let r = prefixed(k, ps);
    assert forall|i: int| 0 <= i < ps.len() implies #[trigger] r[i] == seq![k] + ps[i] && r[i][0]
        == k && r[i].drop_first() == ps[i] by {
        assert(r[i].drop_first() =~= ps[i]);
    }
    if ps.no_duplicates() {
        assert forall|i: int, j: int| 0 <= i < r.len() && 0 <= j < r.len() && i != j implies r[i]
            != r[j] by {
            if r[i] == r[j] {
                assert(r[i].drop_first() == r[j].drop_first());
            }
        }
    }
    assert forall|s: Seq<u32>| ps.contains(s) implies #[trigger] r.contains(seq![k] + s) by {
        let i = choose|i: int| 0 <= i < ps.len() && ps[i] == s;
        assert(r[i] == seq![k] + s);
    }
}

/// `ps` are the paths below `m` that a query at `(l, pos)` walks, and
/// `after` is `before` with the value of each of them appended, in order.
spec fn found<T>(
    m: HostMaskMap<T>,
    q: MaskText,
    l: int,
    pos: int,
    before: Seq<&T>,
    after: Seq<&T>,
    ps: Seq<Seq<u32>>,
) -> bool {
    &&& after.len() == before.len() + ps.len()
    &&& forall|i: int| 0 <= i < before.len() ==> after[i] == before[i]
    &&& forall|i: int|
        0 <= i < ps.len() ==> lookup(m, #[trigger] ps[i]) == Some(*after[before.len() + i])
            && keys_match(ps[i], q, l, pos)
    &&& ps.no_duplicates()
}

/// Every path below `m` that holds a value and that the query walks is in
/// `ps`.
spec fn complete<T>(m: HostMaskMap<T>, q: MaskText, l: int, pos: int, ps: Seq<Seq<u32>>) -> bool {
    forall|p: Seq<u32>|
        #![trigger lookup(m, p), keys_match(p, q, l, pos)]
        lookup(m, p) is Some && keys_match(p, q, l, pos) ==> ps.contains(p)
}

/// Like `found` and `complete`, for the paths that start with key `k`.
spec fn found_under<T>(
    m: HostMaskMap<T>,
    k: u32,
    q: MaskText,
    l: int,
    pos: int,
    before: Seq<&T>,
    after: Seq<&T>,
    ps: Seq<Seq<u32>>,
) -> bool {
    &&& found(m, q, l, pos, before, after, ps)
    &&& forall|i: int| 0 <= i < ps.len() ==> (#[trigger] ps[i]).len() > 0 && ps[i][0] == k
    &&& forall|p: Seq<u32>|
        #![trigger lookup(m, p), keys_match(p, q, l, pos)]
        p.len() > 0 && p[0] == k && lookup(m, p) is Some && keys_match(p, q, l, pos) ==> ps.contains(
            p,
        )
}

proof fn lemma_keys_match_step(k: u32, s: Seq<u32>, q: MaskText, l: int, pos: int)
    ensures
        keys_match(seq![k] + s, q, l, pos) == ((k == query_key(q, l, pos) || k == WILDCARD_KEY)
            && if is_end_key(k) {
            keys_match(s, q, l + 1, 0)
        } else {
            keys_match(s, q, l, pos + 1)
        }),
{
    assert((seq![k] + s).drop_first() =~= s);
    assert((seq![k] + s)[0] == k);
}

proof fn lemma_visit_absent<T>(m: HostMaskMap<T>, k: u32, q: MaskText, l: int, pos: int, before: Seq<&T>)
    requires
        !m.children@.contains_key(k),
    ensures
        found_under(m, k, q, l, pos, before, before, Seq::empty()),
{
    assert forall|p: Seq<u32>|
        #![trigger lookup(m, p), keys_match(p, q, l, pos)]
        p.len() > 0 && p[0] == k && lookup(m, p) is Some && keys_match(p, q, l, pos) implies Seq::<
        Seq<u32>,
    >::empty().contains(p) by {
        assert(node_at(m, p) is None);
    }
}

proof fn lemma_visit_match<T>(
    m: HostMaskMap<T>,
    k: u32,
    v: &T,
    q: MaskText,
    l: int,
    pos: int,
    before: Seq<&T>,
    after: Seq<&T>,
)
    requires
        m.children@.contains_key(k),
        m.children@[k] == Node::Match(*v),
        k == query_key(q, l, pos) || k == WILDCARD_KEY,
        is_end_key(k),
        after == before.push(v),
    ensures
        found_under(m, k, q, l, pos, before, after, seq![seq![k]]),
{
    let ps = seq![seq![k]];
    assert(node_at(m, seq![k]) == Some(Node::Match(*v)));
    lemma_keys_match_step(k, Seq::empty(), q, l, pos);
    assert(seq![k] + Seq::<u32>::empty() =~= seq![k]);
    assert(ps[0] == seq![k]);
    assert(after[before.len() as int] == v);
    assert forall|p: Seq<u32>|
        #![trigger lookup(m, p), keys_match(p, q, l, pos)]
        p.len() > 0 && p[0] == k && lookup(m, p) is Some && keys_match(p, q, l, pos) implies ps.contains(
            p,
        ) by {
        if p.len() > 1 {
            assert(p =~= seq![k] + p.drop_first());
            lemma_node_at_child(m, k, p.drop_first());
        }
        assert(p =~= seq![k]);
        assert(ps[0] == p);
    }
}

proof fn lemma_visit_inner<T>(
    m: HostMaskMap<T>,
    k: u32,
    c: HostMaskMap<T>,
    q: MaskText,
    l: int,
    pos: int,
    before: Seq<&T>,
    after: Seq<&T>,
    sub: Seq<Seq<u32>>,
)
    requires
        m.children@.contains_key(k),
        m.children@[k] == Node::Inner(c),
        k == query_key(q, l, pos) || k == WILDCARD_KEY,
        found(
            c,
            q,
            if is_end_key(k) {
                l + 1
            } else {
                l
            },
            if is_end_key(k) {
                0
            } else {
                pos + 1
            },
            before,
            after,
            sub,
        ),
        complete(
            c,
            q,
            if is_end_key(k) {
                l + 1
            } else {
                l
            },
            if is_end_key(k) {
                0
            } else {
                pos + 1
            },
            sub,
        ),
    ensures
        found_under(m, k, q, l, pos, before, after, prefixed(k, sub)),
{
    let lc = if is_end_key(k) {
        l + 1
    } else {
        l
    };
    let pc = if is_end_key(k) {
        0
    } else {
        pos + 1
    };
    let ps = prefixed(k, sub);
    lemma_prefixed(k, sub);
    assert forall|i: int| 0 <= i < ps.len() implies lookup(m, #[trigger] ps[i]) == Some(
        *after[before.len() + i],
    ) && keys_match(ps[i], q, l, pos) by {
        assert(ps[i] == seq![k] + sub[i]);
        if sub[i].len() == 0 {
            assert(lookup(c, sub[i]) is None);
        }
        lemma_node_at_child(m, k, sub[i]);
        lemma_keys_match_step(k, sub[i], q, l, pos);
    }
    assert forall|i: int| 0 <= i < ps.len() implies (#[trigger] ps[i]).len() > 0 && ps[i][0] == k by {
    }
    assert forall|p: Seq<u32>|
        #![trigger lookup(m, p), keys_match(p, q, l, pos)]
        p.len() > 0 && p[0] == k && lookup(m, p) is Some && keys_match(p, q, l, pos) implies ps.contains(
            p,
        ) by {
        let s = p.drop_first();
        if p.len() == 1 {
            assert(node_at(m, p) == Some(Node::Inner::<T>(c)));
        }
        assert(p =~= seq![k] + s);
        lemma_node_at_child(m, k, s);
        lemma_keys_match_step(k, s, q, l, pos);
        assert(lookup(c, s) is Some && keys_match(s, q, lc, pc));
        assert(sub.contains(s));
    }
}

proof fn lemma_visit_both<T>(
    m: HostMaskMap<T>,
    q: MaskText,
    l: int,
    pos: int,
    b0: Seq<&T>,
    b1: Seq<&T>,
    b2: Seq<&T>,
    ps1: Seq<Seq<u32>>,
    ps2: Seq<Seq<u32>>,
)
    requires
        found_under(m, query_key(q, l, pos), q, l, pos, b0, b1, ps1),
        found_under(m, WILDCARD_KEY, q, l, pos, b1, b2, ps2),
        query_key(q, l, pos) != WILDCARD_KEY,
    ensures
        found(m, q, l, pos, b0, b2, ps1 + ps2),
        complete(m, q, l, pos, ps1 + ps2),
{
    let qk = query_key(q, l, pos);
    let ps = ps1 + ps2;
    assert forall|i: int| 0 <= i < ps.len() implies lookup(m, #[trigger] ps[i]) == Some(
        *b2[b0.len() + i],
    ) && keys_match(ps[i], q, l, pos) by {
        if i < ps1.len() {
            assert(ps[i] == ps1[i]);
            assert(lookup(m, ps1[i]) == Some(*b1[b0.len() + i]));
        } else {
            assert(ps[i] == ps2[i - ps1.len()]);
            assert(lookup(m, ps2[i - ps1.len()]) == Some(*b2[b1.len() + (i - ps1.len())]));
        }
    }
    assert forall|i: int, j: int| 0 <= i < ps.len() && 0 <= j < ps.len() && i != j implies ps[i]
        != ps[j] by {
        if i < ps1.len() && j >= ps1.len() {
            assert(ps1[i][0] == qk);
            assert(ps2[j - ps1.len()][0] == WILDCARD_KEY);
        } else if j < ps1.len() && i >= ps1.len() {
            assert(ps1[j][0] == qk);
            assert(ps2[i - ps1.len()][0] == WILDCARD_KEY);
        } else if i < ps1.len() {
            assert(ps[i] == ps1[i] && ps[j] == ps1[j]);
        } else {
            assert(ps[i] == ps2[i - ps1.len()] && ps[j] == ps2[j - ps1.len()]);
        }
    }
    assert forall|p: Seq<u32>|
        #![trigger lookup(m, p), keys_match(p, q, l, pos)]
        lookup(m, p) is Some && keys_match(p, q, l, pos) implies ps.contains(p) by {
        assert(p.len() > 0);
        if p[0] == qk {
            let i = choose|i: int| 0 <= i < ps1.len() && ps1[i] == p;
            assert(ps[i] == p);
        } else {
            let i = choose|i: int| 0 <= i < ps2.len() && ps2[i] == p;
            assert(ps[ps1.len() + i] == p);
        }
    }
}

// ---------------------------------------------------------------------
// Rendering paths back into text
// ---------------------------------------------------------------------

/// The separator written after section `l`.
pub open spec fn splitter_text(l: int) -> Seq<char> {
    if l == 0 {
        seq!['!']
    } else if l == 1 {
        seq!['@']
    } else {
        Seq::empty()
    }
}

/// The character whose code is `k`.
spec fn char_of(k: u32) -> char {
    choose|c: char| #[trigger] code_of(c) == k
}

/// The text one key of level `l` stands for.
spec fn key_text(k: u32, l: int) -> Seq<char> {
    if k == WILDCARD_KEY {
        seq!['*'] + splitter_text(l)
    } else if k == END_KEY {
        splitter_text(l)
    } else {
        seq![char_of(k)]
    }
}

/// The text a path from level `l` stands for.
spec fn render(p: Seq<u32>, l: int) -> Seq<char>
    decreases p.len(),
{
    if p.len() == 0 {
        Seq::empty()
    } else {
        key_text(p[0], l) + render(
            p.drop_first(),
            if is_end_key(p[0]) {
                l + 1
            } else {
                l
            },
        )
    }
}

proof fn lemma_render_prepend(k: u32, s: Seq<u32>, l: int)
    ensures
        render(seq![k] + s, l) == key_text(k, l) + render(
            s,
            if is_end_key(k) {
                l + 1
            } else {
                l
            },
        ),
{
    assert((seq![k] + s).drop_first() =~= s);
    assert((seq![k] + s)[0] == k);
}

proof fn lemma_render_section(pat: Seq<char>, x: Seq<u32>, l: int)
    requires
        normalize_section(pat) == pat,
    ensures
        render(section_keys(pat) + x, l) == pat + splitter_text(l) + render(x, l + 1),
    decreases pat.len(),
{
    let p = section_keys(pat) + x;
    if pat.len() == 0 {
        assert(p =~= seq![END_KEY] + x);
        lemma_render_prepend(END_KEY, x, l);
        assert(pat + splitter_text(l) + render(x, l + 1) =~= splitter_text(l) + render(x, l + 1));
    } else if pat[0] == '*' {
        assert(p =~= seq![WILDCARD_KEY] + x);
        lemma_render_prepend(WILDCARD_KEY, x, l);
        assert(pat =~= seq!['*']);
        assert(pat + splitter_text(l) + render(x, l + 1) =~= seq!['*'] + splitter_text(l) + render(
            x,
            l + 1,
        ));
    } else {
        let r = pat.drop_first();
        assert(pat == seq![pat[0]] + normalize_section(r));
        assert(r =~= normalize_section(r));
        lemma_char_code(pat[0]);
        let k = pat[0] as u32;
        assert(p =~= seq![k] + (section_keys(r) + x));
        lemma_render_prepend(k, section_keys(r) + x, l);
        lemma_render_section(r, x, l);
        assert(code_of(pat[0]) == k);
        let c = char_of(k);
        assert(code_of(c) == k);
        lemma_char_code_injective(c, pat[0]);
        assert(pat =~= seq![pat[0]] + r);
        assert(render(p, l) =~= pat + splitter_text(l) + render(x, l + 1));
    }
}

/// The text of the path of a normal mask is the mask as `nick!user@host`.
proof fn lemma_render_mask(m: MaskText)
    requires
        is_normal(m),
    ensures
        render(mask_path(m), 0) == mask_string(m),
{
    assert(keys_after(m, 3) =~= Seq::<u32>::empty());
    lemma_render_section(m.2, keys_after(m, 3), 2);
    lemma_render_section(m.1, keys_after(m, 2), 1);
    lemma_render_section(m.0, keys_after(m, 1), 0);
    assert(render(Seq::<u32>::empty(), 3) =~= Seq::<char>::empty());
    assert(render(mask_path(m), 0) =~= mask_string(m));
}

/// `ps` are paths below `m`, and `after` is `before` with, for each, its
/// text after `prefix` and its value.
spec fn listed<T>(
    m: HostMaskMap<T>,
    l: int,
    prefix: Seq<char>,
    before: Seq<(String, &T)>,
    after: Seq<(String, &T)>,
    ps: Seq<Seq<u32>>,
) -> bool {
    &&& after.len() == before.len() + ps.len()
    &&& forall|i: int| 0 <= i < before.len() ==> after[i] == before[i]
    &&& forall|i: int|
        0 <= i < ps.len() ==> lookup(m, #[trigger] ps[i]) == Some(*after[before.len() + i].1)
            && after[before.len() + i].0@ == prefix + render(ps[i], l)
    &&& ps.no_duplicates()
}

// ---------------------------------------------------------------------
// Queries, as characters
// ---------------------------------------------------------------------

/// The characters of the three sections of a mask.
struct MaskChars {
    nick: Vec<char>,
    username: Vec<char>,
    host: Vec<char>,
}

impl MaskChars {
    spec fn text(&self) -> MaskText {
        (self.nick@, self.username@, self.host@)
    }

    fn of(m: &HostMask) -> (r: MaskChars)
        ensures
            r.text() == m@,
    {
        MaskChars {
            nick: chars_of(m.nick()),
            username: chars_of(m.username()),
            host: chars_of(m.host()),
        }
    }

    fn section(&self, l: usize) -> (s: &Vec<char>)
        requires
            l <= 2,
        ensures
            s@ == section(self.text(), l as int),
    {
        if l == 0 {
            &self.nick
        } else if l == 1 {
            &self.username
        } else {
            &self.host
        }
    }
}

/// The key of the character at `pos` of section `l` of a query, and the
/// position after it; the end key and the same position once the section
/// is used up.
fn take_next_char(q: &MaskChars, l: usize, pos: usize) -> (r: (u32, usize))
    requires
        l <= 2,
        pos <= section(q.text(), l as int).len(),
    ensures
        r.0 == query_key(q.text(), l as int, pos as int),
        r.1 == if pos < section(q.text(), l as int).len() {
            pos + 1
        } else {
            pos as int
        },
        r.0 != WILDCARD_KEY,
        pos < section(q.text(), l as int).len() ==> !is_end_key(r.0),
        pos == section(q.text(), l as int).len() ==> r.0 == END_KEY,
{
    let sec = q.section(l);
    if pos < sec.len() {
        proof {
            lemma_char_code(sec@[pos as int]);
        }
        (sec[pos] as u32, pos + 1)
    } else {
        (END_KEY, pos)
    }
}

impl<T> HostMaskMap<T> {
    /// The map is a consistent trie, every stored path is the path of a
    /// normal mask, and a non-empty trie stores at least one value.
    pub closed spec fn well_formed(&self) -> bool {
        &&& wf_at(*self, 0)
        &&& forall|p: Seq<u32>| #[trigger]
            lookup(*self, p) is Some ==> exists|m: MaskText| is_normal(m) && mask_path(m) == p
        &&& !self.children@.is_empty() ==> exists|p: Seq<u32>| #[trigger] lookup(*self, p) is Some
    }

    fn empty_at(l: usize) -> (m: HostMaskMap<T>)
        requires
            l <= 2,
        ensures
            wf_at(m, l as int),
            m.children@.is_empty(),
            forall|p: Seq<u32>| #[trigger] node_at(m, p) is None,
    {
        let m = HostMaskMap { children: HashMap::new(), matcher: Matcher::at_level(l) };
        assert(m.children@ =~= Map::empty());
        m
    }

    /// An empty map.
    pub fn new() -> (m: HostMaskMap<T>)
        ensures
            m.well_formed(),
            m@ == Map::<MaskText, T>::empty(),
    {
        let m = Self::empty_at(0);
        assert(m@ =~= Map::<MaskText, T>::empty());
        m
    }

    /// Whether the map holds no mask.
    pub fn is_empty(&self) -> (b: bool)
        requires
            self.well_formed(),
        ensures
            b == (self@ == Map::<MaskText, T>::empty()),
    {
        let b = self.children.is_empty();
        proof {
            if b {
                assert forall|m: MaskText| !self@.contains_key(m) by {
                    assert(node_at(*self, mask_path(m)) is None);
                }
                assert(self@ =~= Map::<MaskText, T>::empty());
            } else {
                let p = choose|p: Seq<u32>| #[trigger] lookup(*self, p) is Some;
                let m = choose|m: MaskText| is_normal(m) && mask_path(m) == p;
                assert(self@.contains_key(m));
            }
        }
        b
    }

    /// Inserts the rest of a mask below this node, which sits at level `l`
    /// with `pos` characters of section `l` consumed.
    fn insert_inner(&mut self, q: &MaskChars, l: usize, pos: usize, value: T)
        requires
            wf_at(*old(self), l as int),
            l <= 2,
            pos <= section(q.text(), l as int).len(),
        ensures
            wf_at(*final(self), l as int),
            !final(self).children@.is_empty(),
            forall|p: Seq<u32>| #[trigger]
                lookup(*final(self), p) == if p == keys_from(q.text(), l as int, pos as int) {
                    Some(value)
                } else {
                    lookup(*old(self), p)
                },
        decreases 2 - l, section(q.text(), l as int).len() - pos,
    {
        let ghost qt = q.text();
        let ghost target = keys_from(qt, l as int, pos as int);
        let sec = q.section(l);
        proof {
            lemma_keys_from_step(qt, l as int, pos as int);
        }
        let key: u32;
        let next_pos: usize;
        if pos < sec.len() {
            let c = sec[pos];
            if c == '*' {
                key = WILDCARD_KEY;
            } else {
                key = c as u32;
                proof {
                    lemma_char_code(c);
                    assert(code_of(c) == key);
                }
            }
            next_pos = pos + 1;
        } else {
            key = END_KEY;
            next_pos = pos;
        }
        let is_end = is_end(key);
        assert(valid_key(key));
        let ghost tail = if is_end {
            keys_after(qt, l + 1)
        } else {
            keys_from(qt, l as int, next_pos as int)
        };
        assert(target == seq![key] + tail);
        let ghost old_self = *self;
        if is_end && l == 2 {
            self.children.insert(key, Node::Match(value));
            proof {
                assert(tail =~= Seq::<u32>::empty());
                assert(target =~= seq![key]);
                lemma_store_match(old_self, *self, l as int, key, value);
            }
        } else {
            let child_level: usize = if is_end {
                l + 1
            } else {
                l
            };
            let child_pos: usize = if is_end {
                0
            } else {
                next_pos
            };
            let ghost old_child: HostMaskMap<T>;
            let removed = self.children.remove(&key);
            let mut child = match removed {
                Some(Node::Inner(m)) => {
                    proof {
                        old_child = m;
                        lemma_wf_child(old_self, l as int, key);
                    }
                    m
                },
                Some(Node::Match(v)) => {
                    proof {
                        lemma_child_ok(old_self, l as int, key);
                    }
                    Self::empty_at(child_level)
                },
                None => {
                    let m = Self::empty_at(child_level);
                    proof {
                        old_child = m;
                    }
                    m
                },
            };
            proof {
                if old_self.children@.contains_key(key) {
                    lemma_child_ok(old_self, l as int, key);
                }
                if is_end {
                    lemma_keys_from_step(qt, l + 1, 0);
                    lemma_section_keys_shape(section(qt, l + 1).skip(0));
                } else {
                    lemma_section_keys_shape(section(qt, l as int).skip(next_pos as int));
                }
            }
            assert(tail == keys_from(qt, child_level as int, child_pos as int));
            child.insert_inner(q, child_level, child_pos, value);
            let ghost new_child = child;
            self.children.insert(key, Node::Inner(child));
            proof {
                assert(self.children@ =~= old_self.children@.insert(key, Node::Inner(new_child)));
                lemma_store_inner(old_self, *self, l as int, key, old_child, new_child, value, tail);
            }
        }
    }

    /// Appends the values of every path below this node, which sits at level
    /// `l` with `pos` characters of section `l` consumed, that the query walks.
    fn get_inner<'a>(&'a self, q: &MaskChars, l: usize, pos: usize, out: &mut Vec<&'a T>) -> (ps:
        Ghost<Seq<Seq<u32>>>)
        requires
            wf_at(*self, l as int),
            l <= 2,
            pos <= section(q.text(), l as int).len(),
        ensures
            found(*self, q.text(), l as int, pos as int, old(out)@, final(out)@, ps@),
            complete(*self, q.text(), l as int, pos as int, ps@),
        decreases 2 - l, section(q.text(), l as int).len() - pos,
    {
        let ghost qt = q.text();
        let ghost b0 = out@;
        let (qkey, next_pos) = take_next_char(q, l, pos);
        // the exact key the query offers
        let ghost ps1: Seq<Seq<u32>>;
        match self.children.get(&qkey) {
            Some(node) => {
                proof {
                    lemma_child_ok(*self, l as int, qkey);
                }
                match node {
                    Node::Match(v) => {
                        out.push(v);
                        proof {
                            ps1 = seq![seq![qkey]];
                            lemma_visit_match(*self, qkey, v, qt, l as int, pos as int, b0, out@);
                        }
                    },
                    Node::Inner(c) => {
                        proof {
                            lemma_wf_child(*self, l as int, qkey);
                        }
                        let sub = if qkey == END_KEY {
                            c.get_inner(q, l + 1, 0, out)
                        } else {
                            c.get_inner(q, l, next_pos, out)
                        };
                        proof {
                            ps1 = prefixed(qkey, sub@);
                            lemma_visit_inner(*self, qkey, *c, qt, l as int, pos as int, b0, out@, sub@);
                        }
                    },
                }
            },
            None => {
                proof {
                    ps1 = Seq::empty();
                    lemma_visit_absent(*self, qkey, qt, l as int, pos as int, b0);
                }
            },
        }
        let ghost b1 = out@;
        // a wildcard that closes the section here
        let ghost ps2: Seq<Seq<u32>>;
        match self.children.get(&WILDCARD_KEY) {
            Some(node) => {
                proof {
                    lemma_child_ok(*self, l as int, WILDCARD_KEY);
                }
                match node {
                    Node::Match(v) => {
                        out.push(v);
                        proof {
                            ps2 = seq![seq![WILDCARD_KEY]];
                            lemma_visit_match(*self, WILDCARD_KEY, v, qt, l as int, pos as int, b1, out@);
                        }
                    },
                    Node::Inner(c) => {
                        proof {
                            lemma_wf_child(*self, l as int, WILDCARD_KEY);
                        }
                        let sub = c.get_inner(q, l + 1, 0, out);
                        proof {
                            ps2 = prefixed(WILDCARD_KEY, sub@);
                            lemma_visit_inner(
                                *self,
                                WILDCARD_KEY,
                                *c,
                                qt,
                                l as int,
                                pos as int,
                                b1,
                                out@,
                                sub@,
                            );
                        }
                    },
                }
            },
            None => {
                proof {
                    ps2 = Seq::empty();
                    lemma_visit_absent(*self, WILDCARD_KEY, qt, l as int, pos as int, b1);
                }
            },
        }
        proof {
            lemma_visit_both(*self, qt, l as int, pos as int, b0, b1, out@, ps1, ps2);
        }
        Ghost(ps1 + ps2)
    }

    /// Every value whose mask matches `mask`: exact matches and wildcard
    /// matches alike, each stored mask once, in no particular order.
    pub fn get(&self, mask: &HostMask) -> (r: Vec<&T>)
        requires
            self.well_formed(),
        ensures
            exists|ks: Seq<MaskText>|
                {
                    &&& ks.len() == r@.len()
                    &&& ks.no_duplicates()
                    &&& forall|i: int|
                        0 <= i < ks.len() ==> self@.contains_key(#[trigger] ks[i]) && mask_matches(
                            ks[i],
                            mask@,
                        ) && *r@[i] == self@[ks[i]]
                    &&& forall|m: MaskText|
                        #![trigger self@.contains_key(m)]
                        self@.contains_key(m) && mask_matches(m, mask@) ==> ks.contains(m)
                },
    {
        let q = MaskChars::of(mask);
        let mut out: Vec<&T> = Vec::new();
        let ps = self.get_inner(&q, 0, 0, &mut out);
        proof {
            let qt = q.text();
            let ks = ps@.map_values(|p: Seq<u32>| choose|m: MaskText| is_normal(m) && mask_path(m) == p);
            assert forall|i: int| 0 <= i < ks.len() implies is_normal(#[trigger] ks[i]) && mask_path(ks[i])
                == ps@[i] by {
                assert(lookup(*self, ps@[i]) is Some);
            }
            assert forall|i: int| 0 <= i < ks.len() implies self@.contains_key(#[trigger] ks[i])
                && mask_matches(ks[i], mask@) && *out@[i] == self@[ks[i]] by {
                lemma_keys_match_mask(ks[i], qt);
            }
            assert forall|i: int, j: int| 0 <= i < ks.len() && 0 <= j < ks.len() && i != j implies ks[i]
                != ks[j] by {
                assert(ps@[i] != ps@[j]);
            }
            assert forall|m: MaskText|
                #![trigger self@.contains_key(m)]
                self@.contains_key(m) && mask_matches(m, mask@) implies ks.contains(m) by {
                lemma_keys_match_mask(m, qt);
                let p = mask_path(m);
                assert(lookup(*self, p) is Some);
                let i = choose|i: int| 0 <= i < ps@.len() && ps@[i] == p;
                lemma_mask_path(m);
                assert(mask_path(ks[i]) == p);
                assert(ks[i] == m);
            }
        }
        out
    }

    /// The text a key of this node stands for.
    fn key_string(&self, k: u32) -> (s: String)
        requires
            valid_key(k),
        ensures
            s@ == key_text(k, self.matcher.level()),
    {
        let mut s = String::new();
        if k == WILDCARD_KEY {
            push_char(&mut s, '*');
            s.append(self.matcher.splitter());
        } else if k == END_KEY {
            s.append(self.matcher.splitter());
        } else {
            match char_from_u32(k) {
                Some(c) => {
                    push_char(&mut s, c);
                    proof {
                        let d = char_of(k);
                        assert(code_of(d) == k);
                        lemma_char_code_injective(c, d);
                    }
                },
                None => {
                    proof {
                        let c = choose|c: char| c != '*' && #[trigger] code_of(c) == k;
                        assert(code_of(c) == k);
                    }
                },
            }
        }
        proof {
            if self.matcher.level() == 2 {
                assert(splitter_text(2) =~= Seq::<char>::empty());
            }
        }
        assert(s@ =~= key_text(k, self.matcher.level()));
        s
    }

    /// Appends every stored path below this node, which sits at level `l`,
    /// with its text after `prefix`.
    fn iter_inner<'a>(&'a self, l: usize, prefix: &String, out: &mut Vec<(String, &'a T)>) -> (ps:
        Ghost<Seq<Seq<u32>>>)
        requires
            wf_at(*self, l as int),
            l <= 2,
        ensures
            listed(*self, l as int, prefix@, old(out)@, final(out)@, ps@),
            forall|p: Seq<u32>| #[trigger] lookup(*self, p) is Some ==> ps@.contains(p),
        decreases *self,
    {
        let ghost b0 = out@;
        let ghost mut ps: Seq<Seq<u32>> = Seq::empty();
        let ghost m = self.children@;
        let ghost mut seen: Seq<u32> = Seq::empty();
        for pair in it: self.children.iter()
            invariant
                wf_at(*self, l as int),
                l <= 2,
                m == self.children@,
                it.seq().no_duplicates(),
                forall|i: int|
                    0 <= i < it.seq().len() ==> m.contains_key(*(#[trigger] it.seq()[i]).0) && m[*it.seq()[i].0]
                        == *it.seq()[i].1,
                forall|key: u32| #[trigger] m.contains_key(key) ==> it.seq().contains((&key, &m[key])),
                seen.len() == it.index(),
                forall|i: int| 0 <= i < seen.len() ==> #[trigger] seen[i] == *it.seq()[i].0,
                it.index() == it.seq().len() ==> forall|key: u32|
                    #[trigger] m.contains_key(key) ==> seen.contains(key),
                listed(*self, l as int, prefix@, b0, out@, ps),
                forall|i: int|
                    0 <= i < ps.len() ==> (#[trigger] ps[i]).len() > 0 && seen.contains(ps[i][0]),
                forall|p: Seq<u32>|
                    #![trigger lookup(*self, p)]
                    lookup(*self, p) is Some && seen.contains(p[0]) ==> ps.contains(p),
        {
            let (k, node) = pair;
            let ghost j = it.index();
            let ghost key = *k;
            let ghost seen_before = seen;
            proof {
                seen = seen.push(key);
            }
            proof {
                assert(pair == it.seq()[j]);
                assert(m.contains_key(key) && m[key] == *node);
                lemma_child_ok(*self, l as int, key);
                // keys seen before are other keys
                assert forall|i: int| 0 <= i < j implies *it.seq()[i].0 != key by {
                    if *it.seq()[i].0 == key {
                        assert(it.seq()[i] == it.seq()[j]);
                    }
                }
                assert(!seen_before.contains(key));
                assert forall|x: u32| seen.contains(x) <==> (seen_before.contains(x) || x == key) by {
                    if seen.contains(x) {
                        let i = choose|i: int| 0 <= i < seen.len() && seen[i] == x;
                        if i < seen_before.len() {
                            assert(seen_before[i] == x);
                        }
                    }
                    if seen_before.contains(x) {
                        let i = choose|i: int| 0 <= i < seen_before.len() && seen_before[i] == x;
                        assert(seen[i] == x);
                    }
                    if x == key {
                        assert(seen[seen.len() - 1] == x);
                    }
                }
                assert forall|kk: u32| j + 1 == it.seq().len() && #[trigger] m.contains_key(kk) implies seen.contains(kk) by {
                    assert(it.seq().contains((&kk, &m[kk])));
                    let i = choose|i: int| 0 <= i < it.seq().len() && it.seq()[i] == (&kk, &m[kk]);
                    assert(seen[i] == kk);
                }
            }
            let text = self.key_string(*k);
            let mut s = prefix.clone();
            s.append(text.as_str());
            let ghost b1 = out@;
            let ghost ps_before = ps;
            let ghost sv = s@;
            match node {
                Node::Match(v) => {
                    out.push((s, v));
                    proof {
                        ps = ps.push(seq![key]);
                        assert(node_at(*self, seq![key]) == Some(Node::Match(*v)));
                        lemma_render_prepend(key, Seq::empty(), l as int);
                        assert(seq![key] + Seq::<u32>::empty() =~= seq![key]);
                        assert(out@[(b0.len() + ps_before.len()) as int].0@ == sv);
                        assert(out@[(b0.len() + ps_before.len()) as int].1 == v);
                        assert forall|i: int| 0 <= i < ps_before.len() implies ps_before[i] != seq![key] by {
                            assert(seen_before.contains(ps_before[i][0]));
                            assert(seq![key][0] == key);
                        }
                        assert forall|p: Seq<u32>|
                            #![trigger lookup(*self, p)]
                            lookup(*self, p) is Some && seen.contains(p[0]) implies ps.contains(p) by {
                            if p[0] == key {
                                if p.len() > 1 {
                                    assert(p =~= seq![key] + p.drop_first());
                                    lemma_node_at_child(*self, key, p.drop_first());
                                }
                                assert(p =~= seq![key]);
                                assert(ps[ps.len() - 1] == p);
                            } else {
                                assert(seen_before.contains(p[0]));
                                assert(ps_before.contains(p));
                                let ii = choose|ii: int| 0 <= ii < ps_before.len() && ps_before[ii] == p;
                                assert(ps[ii] == p);
                            }
                        }
                        assert forall|i: int|
                            0 <= i < ps.len() implies (#[trigger] ps[i]).len() > 0 && seen.contains(ps[i][0]) by {
                            if i < ps_before.len() {
                                assert(ps[i] == ps_before[i]);
                            } else {
                                assert(ps[i] == seq![key]);
                                assert(ps[i][0] == key);
                            }
                        }
                    }
                },
                Node::Inner(c) => {
                    proof {
                        lemma_wf_child(*self, l as int, key);
                        assert(decreases_to!(*self => self.children));
                        assert(decreases_to!(self.children => self.children@));
                        assert(decreases_to!(self.children@ => self.children@[key]));
                        assert(decreases_to!(*node => *c));
                    }
                    let child_level = if *k == WILDCARD_KEY || *k == END_KEY {
                        l + 1
                    } else {
                        l
                    };
                    let sub = c.iter_inner(child_level, &s, out);
                    proof {
                        let pre = prefixed(key, sub@);
                        lemma_prefixed(key, sub@);
                        ps = ps + pre;
                        assert forall|i: int| 0 <= i < sub@.len() implies lookup(*self, #[trigger] pre[i]) == lookup(*c, sub@[i])
                            && render(pre[i], l as int) == key_text(key, l as int) + render(sub@[i], child_level as int) by {
                            if sub@[i].len() == 0 {
                                assert(lookup(*c, sub@[i]) is None);
                            }
                            lemma_node_at_child(*self, key, sub@[i]);
                            lemma_render_prepend(key, sub@[i], l as int);
                        }
                        assert forall|i: int|
                            0 <= i < ps.len() implies lookup(*self, #[trigger] ps[i]) == Some(*out@[b0.len() + i].1)
                                && out@[b0.len() + i].0@ == prefix@ + render(ps[i], l as int) by {
                            if i < ps_before.len() {
                                assert(ps[i] == ps_before[i]);
                            } else {
                                let ii = i - ps_before.len();
                                assert(ps[i] == pre[ii]);
                                assert(b1.len() == b0.len() + ps_before.len());
                                assert(out@[b1.len() + ii].0@ == s@ + render(sub@[ii], child_level as int));
                                assert(prefix@ + render(ps[i], l as int) =~= s@ + render(sub@[ii], child_level as int));
                            }
                        }
                        assert forall|i1: int, i2: int| 0 <= i1 < ps.len() && 0 <= i2 < ps.len() && i1 != i2 implies ps[i1] != ps[i2] by {
                            if i1 < ps_before.len() && i2 >= ps_before.len() {
                                assert(seen_before.contains(ps_before[i1][0]));
                                assert(ps[i2] == pre[i2 - ps_before.len()]);
                            } else if i2 < ps_before.len() && i1 >= ps_before.len() {
                                assert(seen_before.contains(ps_before[i2][0]));
                                assert(ps[i1] == pre[i1 - ps_before.len()]);
                            } else if i1 < ps_before.len() {
                                assert(ps[i1] == ps_before[i1] && ps[i2] == ps_before[i2]);
                            } else {
                                assert(ps[i1] == pre[i1 - ps_before.len()] && ps[i2] == pre[i2 - ps_before.len()]);
                            }
                        }
                        assert forall|p: Seq<u32>|
                            #![trigger lookup(*self, p)]
                            lookup(*self, p) is Some && seen.contains(p[0]) implies ps.contains(p) by {
                            if p[0] == key {
                                if p.len() == 1 {
                                    assert(node_at(*self, p) == Some(Node::Inner::<T>(*c)));
                                }
                                let t = p.drop_first();
                                assert(p =~= seq![key] + t);
                                lemma_node_at_child(*self, key, t);
                                assert(lookup(*c, t) is Some);
                                assert(sub@.contains(t));
                                assert(pre.contains(p));
                                let ii = choose|ii: int| 0 <= ii < pre.len() && pre[ii] == p;
                                assert(ps[ps_before.len() + ii] == p);
                            } else {
                                assert(seen_before.contains(p[0]));
                                assert(ps_before.contains(p));
                                let ii = choose|ii: int| 0 <= ii < ps_before.len() && ps_before[ii] == p;
                                assert(ps[ii] == p);
                            }
                        }
                        assert forall|i: int|
                            0 <= i < ps.len() implies (#[trigger] ps[i]).len() > 0 && seen.contains(ps[i][0]) by {
                            if i < ps_before.len() {
                                assert(ps[i] == ps_before[i]);
                            } else {
                                assert(ps[i] == pre[i - ps_before.len()]);
                                assert(ps[i][0] == key);
                            }
                        }
                    }
                },
            }
        }
        proof {
            assert forall|p: Seq<u32>| #[trigger] lookup(*self, p) is Some implies ps.contains(p) by {
                assert(m.contains_key(p[0]));
                assert(seen.contains(p[0]));
            }
        }
        Ghost(ps)
    }

    /// Every stored mask, written as `nick!user@host`, with its value, in no
    /// particular order.
    pub fn iter(&self) -> (r: Vec<(String, &T)>)
        requires
            self.well_formed(),
        ensures
            exists|ks: Seq<MaskText>|
                {
                    &&& ks.len() == r@.len()
                    &&& ks.no_duplicates()
                    &&& forall|i: int|
                        0 <= i < ks.len() ==> self@.contains_key(#[trigger] ks[i]) && r@[i].0@
                            == mask_string(ks[i]) && *r@[i].1 == self@[ks[i]]
                    &&& forall|m: MaskText| #[trigger] self@.contains_key(m) ==> ks.contains(m)
                },
    {
        let mut out: Vec<(String, &T)> = Vec::new();
        let prefix = String::new();
        let ps = self.iter_inner(0, &prefix, &mut out);
        proof {
            let ks = ps@.map_values(|p: Seq<u32>| choose|m: MaskText| is_normal(m) && mask_path(m) == p);
            assert forall|i: int| 0 <= i < ks.len() implies is_normal(#[trigger] ks[i]) && mask_path(ks[i])
                == ps@[i] by {
                assert(lookup(*self, ps@[i]) is Some);
            }
            assert forall|i: int| 0 <= i < ks.len() implies self@.contains_key(#[trigger] ks[i]) && out@[i].0@
                == mask_string(ks[i]) && *out@[i].1 == self@[ks[i]] by {
                lemma_render_mask(ks[i]);
                assert(prefix@ + render(ps@[i], 0) =~= render(ps@[i], 0));
            }
            assert forall|i: int, j: int| 0 <= i < ks.len() && 0 <= j < ks.len() && i != j implies ks[i]
                != ks[j] by {
                assert(ps@[i] != ps@[j]);
            }
            assert forall|m: MaskText| #[trigger] self@.contains_key(m) implies ks.contains(m) by {
                let p = mask_path(m);
                assert(lookup(*self, p) is Some);
                let i = choose|i: int| 0 <= i < ps@.len() && ps@[i] == p;
                lemma_mask_path(m);
                assert(ks[i] == m);
            }
        }
        out
    }

    /// A map holding the given masks and values, later entries replacing
    /// earlier ones with an equal mask.
    pub fn from_entries(entries: Vec<(HostMask, T)>) -> (m: HostMaskMap<T>)
        ensures
            m.well_formed(),
            m@ == entries_map(entries@.map_values(|e: (HostMask, T)| (e.0@, e.1))),
    {
        let mut m = HostMaskMap::new();
        let mut rest = entries;
        let ghost all = rest@.map_values(|e: (HostMask, T)| (e.0@, e.1));
        let ghost n = rest@.len();
        let ghost mut i: int = 0;
        while rest.len() > 0
            invariant
                m.well_formed(),
                0 <= i <= n,
                i + rest@.len() == n,
                n == all.len(),
                forall|k: int| 0 <= k < rest@.len() ==> (rest@[k].0@, rest@[k].1) == all[i + k],
                m@ == entries_map(all.take(i)),
            decreases rest@.len(),
        {
            let ghost before = rest@;
            let (mask, value) = rest.remove(0);
            proof {
                assert((mask@, value) == all[i]);
                assert(all.take(i + 1).drop_last() =~= all.take(i));
                assert(all.take(i + 1).last() == all[i]);
            }
            m.insert(&mask, value);
            proof {
                assert forall|k: int| 0 <= k < rest@.len() implies (rest@[k].0@, rest@[k].1) == all[(i + 1) + k] by {
                    assert(rest@[k] == before[k + 1]);
                }
                i = i + 1;
            }
        }
        assert(all.take(n as int) =~= all);
        m
    }

    /// Inserts `mask` with `value`, replacing the value of an equal mask.
    /// What follows the first `*` of a section takes no part in the key.
    pub fn insert(&mut self, mask: &HostMask, value: T)
        requires
            old(self).well_formed(),
        ensures
            final(self).well_formed(),
            final(self)@ == old(self)@.insert(normalize_mask(mask@), value),
    {
        let q = MaskChars::of(mask);
        let ghost old_self = *self;
        let ghost nm = normalize_mask(mask@);
        proof {
            lemma_keys_from_step(q.text(), 0, 0);
            lemma_mask_path(mask@);
        }
        assert(keys_from(q.text(), 0, 0) == mask_path(nm));
        self.insert_inner(&q, 0, 0, value);
        proof {
            assert forall|p: Seq<u32>| #[trigger] lookup(*self, p) is Some implies exists|m: MaskText|
                is_normal(m) && mask_path(m) == p by {
                if p == mask_path(nm) {
                    assert(is_normal(nm));
                } else {
                    assert(lookup(old_self, p) is Some);
                }
            }
            assert(lookup(*self, mask_path(nm)) is Some);
            assert forall|m: MaskText| #[trigger] self@.contains_key(m) == old_self@.insert(
                nm,
                value,
            ).contains_key(m) by {
                lemma_mask_path(m);
            }
            assert forall|m: MaskText| #[trigger] self@.contains_key(m) implies self@[m]
                == old_self@.insert(nm, value)[m] by {
                lemma_mask_path(m);
            }
            assert(self@ =~= old_self@.insert(nm, value));
        }
    }
}

/// The map that inserting each mask of `es`, normalized, with its value, in
/// order, gives.
pub open spec fn entries_map<T>(es: Seq<(MaskText, T)>) -> Map<MaskText, T>
    decreases es.len(),
{
    if es.len() == 0 {
        Map::empty()
    } else {
        entries_map(es.drop_last()).insert(normalize_mask(es.last().0), es.last().1)
    }
}

impl<T> Default for HostMaskMap<T> {
    fn default() -> (m: HostMaskMap<T>)
        ensures
            m.well_formed(),
            m@ == Map::<MaskText, T>::empty(),
    {
        HostMaskMap::new()
    }
}

impl<T> View for HostMaskMap<T> {
    type V = Map<MaskText, T>;

    closed spec fn view(&self) -> Map<MaskText, T> {
        Map::new(
            |m: MaskText| is_normal(m) && lookup(*self, mask_path(m)) is Some,
            |m: MaskText| lookup(*self, mask_path(m))->0,
        )
    }
}

/// A section pattern matches its own text: each character matches itself
/// and a `*` matches whatever follows.
pub proof fn lemma_section_matches_itself(s: Seq<char>)
    ensures
        section_matches(s, s),
        section_matches(normalize_section(s), s),
    decreases s.len(),
{
    if s.len() > 0 && s[0] != '*' {
        lemma_section_matches_itself(s.drop_first());
        assert((seq![s[0]] + normalize_section(s.drop_first())).drop_first() =~= normalize_section(s.drop_first()));
    }
}

/// A section pattern without a `*` matches exactly its own text.
pub proof fn lemma_section_matches_exact(pat: Seq<char>, text: Seq<char>)
    requires
        forall|i: int| 0 <= i < pat.len() ==> pat[i] != '*',
    ensures
        section_matches(pat, text) <==> text == pat,
    decreases pat.len(),
{
    if pat.len() > 0 {
        let p1 = pat.drop_first();
        assert(pat[0] != '*');
        assert forall|i: int| 0 <= i < p1.len() implies p1[i] != '*' by {
            assert(p1[i] == pat[i + 1]);
        }
        lemma_section_matches_exact(p1, text.drop_first());
        if text.len() > 0 && text.drop_first() == p1 && text[0] == pat[0] {
            assert forall|i: int| 0 <= i < text.len() implies text[i] == pat[i] by {
                if i > 0 {
                    assert(text[i] == text.drop_first()[i - 1]);
                    assert(pat[i] == p1[i - 1]);
                }
            }
            assert(text =~= pat);
        }
        if text == pat {
            assert(text.drop_first() =~= p1);
        }
    } else {
        if text.len() == 0 {
            assert(text =~= pat);
        }
    }
}

/// A section pattern whose first `*` is at `k` matches every text that
/// starts with the `k` characters before it, and nothing else.
pub proof fn lemma_section_matches_prefix(pat: Seq<char>, text: Seq<char>, k: int)
    requires
        0 <= k < pat.len(),
        pat[k] == '*',
        forall|i: int| 0 <= i < k ==> pat[i] != '*',
    ensures
        section_matches(pat, text) <==> (text.len() >= k && text.subrange(0, k) == pat.subrange(0, k)),
    decreases k,
{
    if k == 0 {
        assert(text.subrange(0, 0) =~= pat.subrange(0, 0));
    } else {
        let p1 = pat.drop_first();
        assert(pat[0] != '*');
        assert(p1[k - 1] == '*');
        assert forall|i: int| 0 <= i < k - 1 implies p1[i] != '*' by {
            assert(p1[i] == pat[i + 1]);
        }
        if text.len() > 0 {
            let t1 = text.drop_first();
            lemma_section_matches_prefix(p1, t1, k - 1);
            if text.len() >= k && text.subrange(0, k) == pat.subrange(0, k) {
                assert(t1.subrange(0, k - 1) =~= text.subrange(0, k).drop_first());
                assert(p1.subrange(0, k - 1) =~= pat.subrange(0, k).drop_first());
                assert(text[0] == text.subrange(0, k)[0]);
            }
            if text[0] == pat[0] && t1.len() >= k - 1 && t1.subrange(0, k - 1) == p1.subrange(0, k - 1) {
                assert(text.subrange(0, k) =~= seq![text[0]] + t1.subrange(0, k - 1));
                assert(pat.subrange(0, k) =~= seq![pat[0]] + p1.subrange(0, k - 1));
            }
        }
    }
}

/// Looking a mask up right after inserting it finds the inserted value: the
/// stored form of a mask is in the map with that value, and it matches the
/// mask itself, so `get` on the mask returns it.
pub proof fn lemma_insert_then_get<T>(before: Map<MaskText, T>, mask: MaskText, value: T)
    ensures
        ({
            let after = before.insert(normalize_mask(mask), value);
            &&& after.contains_key(normalize_mask(mask))
            &&& after[normalize_mask(mask)] == value
            &&& mask_matches(normalize_mask(mask), mask)
        }),
{
    lemma_section_matches_itself(mask.0);
    lemma_section_matches_itself(mask.1);
    lemma_section_matches_itself(mask.2);
}

} // verus!
