//! Character-level helpers on names: lower-casing, code-point order, and the
//! removal of `(...)` and `[...]` groups from game names.

use vstd::prelude::*;

verus! {

/// `String::push` appends one character.
pub assume_specification[ String::push ](s: &mut String, ch: char)
    ensures
        final(s)@ == old(s)@.push(ch),
;

/// The characters of a string, in order.
pub fn chars_of(s: &str) -> (r: Vec<char>)
    ensures
        r@ == s@,
{
    let mut r: Vec<char> = Vec::new();
    for c in it: s.chars()
        invariant
            r@ == it.seq().take(it.index() as int),
            it.seq() == s@,
    {
        r.push(c);
    }
    r
}


/// The first index at or after `from` where `s` holds `c`, if any.
pub open spec fn find_from(s: Seq<char>, c: char, from: int) -> Option<int>
    decreases s.len() - from,
{
    if from < 0 || from >= s.len() {
        None
    } else if s[from] == c {
        Some(from)
    } else {
        find_from(s, c, from + 1)
    }
}

/// A found index lies in the searched range and holds the character; no index
/// before it does.
pub proof fn lemma_find_from(s: Seq<char>, c: char, from: int)
    requires
        0 <= from,
    ensures
        find_from(s, c, from) matches Some(j) ==> from <= j < s.len() && s[j] == c
            && forall|m: int| from <= m < j ==> s[m] != c,
        find_from(s, c, from) is None ==> forall|m: int| from <= m < s.len() ==> s[m] != c,
    decreases s.len() - from,
{
    if from < s.len() && s[from] != c {
        lemma_find_from(s, c, from + 1);
    }
}

/// What is left of `s[i..]` once every group is removed. A group is a `(` up to the
/// first `)` after it, or a `[` up to the first `]` after it; groups are taken from
/// left to right, and an opening character with no closing one after it is kept.
pub open spec fn strip_groups_from(s: Seq<char>, i: int) -> Seq<char>
    decreases s.len() - i,
{
    if i < 0 || i >= s.len() {
        Seq::empty()
    } else if s[i] == '(' && find_from(s, ')', i + 1) is Some {
        proof {
            lemma_find_from(s, ')', i + 1);
        }
        strip_groups_from(s, find_from(s, ')', i + 1)->0 + 1)
    } else if s[i] == '[' && find_from(s, ']', i + 1) is Some {
        proof {
            lemma_find_from(s, ']', i + 1);
        }
        strip_groups_from(s, find_from(s, ']', i + 1)->0 + 1)
    } else {
        seq![s[i]] + strip_groups_from(s, i + 1)
    }
}

/// `s` without its `(...)` and `[...]` groups.
pub open spec fn strip_groups_spec(s: Seq<char>) -> Seq<char> {
    strip_groups_from(s, 0)
}

/// No `(` is followed anywhere later by a `)`, and no `[` by a `]`.
pub open spec fn has_no_groups(t: Seq<char>) -> bool {
    forall|p: int, q: int|
        0 <= p < q < t.len() ==> !(t[p] == '(' && t[q] == ')') && !(t[p] == '[' && t[q] == ']')
}

fn find_char(cs: &Vec<char>, c: char, from: usize) -> (r: Option<usize>)
    ensures
        match r {
            Some(j) => find_from(cs@, c, from as int) == Some(j as int),
            None => find_from(cs@, c, from as int) is None,
        },
{
    let mut k = from;
    while k < cs.len()
        invariant
            from <= k,
            find_from(cs@, c, from as int) == find_from(cs@, c, k as int),
        decreases cs.len() - k,
    {
        if cs[k] == c {
            return Some(k);
        }
        k = k + 1;
    }
    None
}

/// Removes the `(...)` and `[...]` groups from a name, as the "pure name" display
/// setting asks: `"Zelda (USA) [!]"` becomes `"Zelda  "`.
pub fn strip_groups(name: &str) -> (r: String)
    ensures
        r@ == strip_groups_spec(name@),
{
    let cs = chars_of(name);
    let mut out = String::new();
    let mut i: usize = 0;
    while i < cs.len()
        invariant
            i <= cs.len(),
            cs@ == name@,
            strip_groups_spec(cs@) == out@ + strip_groups_from(cs@, i as int),
        decreases cs.len() - i,
    {
        let c = cs[i];
        if c == '(' {
            if let Some(j) = find_char(&cs, ')', i + 1) {
                proof {
                    lemma_find_from(cs@, ')', i + 1);
                }
                i = j + 1;
                continue;
            }
        } else if c == '[' {
            if let Some(j) = find_char(&cs, ']', i + 1) {
                proof {
                    lemma_find_from(cs@, ']', i + 1);
                }
                i = j + 1;
                continue;
            }
        }
        let ghost before = out@;
        out.push(c);
        assert(out@ + strip_groups_from(cs@, i + 1) =~= before + strip_groups_from(cs@, i as int));
        i = i + 1;
    }
    assert(out@ =~= out@ + strip_groups_from(cs@, i as int));
    out
}


proof fn lemma_strip_keeps_out(s: Seq<char>, i: int, c: char)
    requires
        0 <= i,
        forall|m: int| i <= m < s.len() ==> s[m] != c,
    ensures
        !strip_groups_from(s, i).contains(c),
    decreases s.len() - i,
{
    if i < s.len() {
        if s[i] == '(' && find_from(s, ')', i + 1) is Some {
            lemma_find_from(s, ')', i + 1);
            lemma_strip_keeps_out(s, find_from(s, ')', i + 1)->0 + 1, c);
        } else if s[i] == '[' && find_from(s, ']', i + 1) is Some {
            lemma_find_from(s, ']', i + 1);
            lemma_strip_keeps_out(s, find_from(s, ']', i + 1)->0 + 1, c);
        } else {
            lemma_strip_keeps_out(s, i + 1, c);
            let rest = strip_groups_from(s, i + 1);
            assert(strip_groups_from(s, i) == seq![s[i]] + rest);
            if strip_groups_from(s, i).contains(c) {
                let k = choose|k: int|
                    0 <= k < strip_groups_from(s, i).len() && strip_groups_from(s, i)[k] == c;
                if k > 0 {
                    assert(rest[k - 1] == c);
                }
            }
        }
    }
}

proof fn lemma_strip_from_has_no_groups(s: Seq<char>, i: int)
    requires
        0 <= i,
    ensures
        has_no_groups(strip_groups_from(s, i)),
    decreases s.len() - i,
{
    if i < s.len() {
        if s[i] == '(' && find_from(s, ')', i + 1) is Some {
            lemma_find_from(s, ')', i + 1);
            lemma_strip_from_has_no_groups(s, find_from(s, ')', i + 1)->0 + 1);
        } else if s[i] == '[' && find_from(s, ']', i + 1) is Some {
            lemma_find_from(s, ']', i + 1);
            lemma_strip_from_has_no_groups(s, find_from(s, ']', i + 1)->0 + 1);
        } else {
            let rest = strip_groups_from(s, i + 1);
            let t = strip_groups_from(s, i);
            lemma_strip_from_has_no_groups(s, i + 1);
            assert(t == seq![s[i]] + rest);
            if s[i] == '(' {
                lemma_find_from(s, ')', i + 1);
                lemma_strip_keeps_out(s, i + 1, ')');
            }
            if s[i] == '[' {
                lemma_find_from(s, ']', i + 1);
                lemma_strip_keeps_out(s, i + 1, ']');
            }
            assert forall|p: int, q: int| 0 <= p < q < t.len() implies !(t[p] == '(' && t[q]
                == ')') && !(t[p] == '[' && t[q] == ']') by {
                if p == 0 {
                    assert(t[q] == rest[q - 1]);
                    assert(rest.contains(rest[q - 1]));
                } else {
                    assert(t[p] == rest[p - 1] && t[q] == rest[q - 1]);
                }
            }
        }
    }
}

proof fn lemma_strip_from_clean(t: Seq<char>, i: int)
    requires
        0 <= i <= t.len(),
        has_no_groups(t),
    ensures
        strip_groups_from(t, i) == t.subrange(i, t.len() as int),
    decreases t.len() - i,
{
    if i < t.len() {
        lemma_find_from(t, ')', i + 1);
        lemma_find_from(t, ']', i + 1);
        lemma_strip_from_clean(t, i + 1);
        assert(strip_groups_from(t, i) =~= t.subrange(i, t.len() as int));
    }
}

/// Removing groups leaves no group behind: no `(` of the result is followed by a
/// `)`, and no `[` by a `]`.
pub proof fn law_strip_leaves_no_group(s: Seq<char>)
    ensures
        has_no_groups(strip_groups_spec(s)),
{
    lemma_strip_from_has_no_groups(s, 0);
}

/// A name without groups is shown as it is.
pub proof fn law_strip_keeps_clean_name(t: Seq<char>)
    requires
        has_no_groups(t),
    ensures
        strip_groups_spec(t) == t,
{
    lemma_strip_from_clean(t, 0);
    assert(t.subrange(0, t.len() as int) =~= t);
}

/// Removing groups twice gives what removing them once gives.
pub proof fn law_strip_idempotent(s: Seq<char>)
    ensures
        strip_groups_spec(strip_groups_spec(s)) == strip_groups_spec(s),
{
    law_strip_leaves_no_group(s);
    law_strip_keeps_clean_name(strip_groups_spec(s));
}


/// The lower-case form of a text, as `str::to_lowercase` gives it (Unicode
/// lower-casing, which may change the length).
pub uninterp spec fn lowercase_of(s: Seq<char>) -> Seq<char>;

/// Calls `str::to_lowercase`. Trusted: the result is a function of the text, named
/// `lowercase_of`.
#[verifier::external_body]
pub(crate) fn to_lowercase(s: &str) -> (r: String)
    ensures
        r@ == lowercase_of(s@),
{
    s.to_lowercase()
}

/// Whether `a` comes no later than `b` in the order of texts: compared character
/// by character by code point, a text before any longer text it begins. This is the
/// order of `str`'s comparison (UTF-8 keeps code point order).
pub open spec fn lex_le(a: Seq<char>, b: Seq<char>) -> bool
    decreases a.len(),
{
    if a.len() == 0 {
        true
    } else if b.len() == 0 {
        false
    } else if a[0] != b[0] {
        a[0] < b[0]
    } else {
        lex_le(a.drop_first(), b.drop_first())
    }
}

pub proof fn lemma_lex_le_reflexive(a: Seq<char>)
    ensures
        lex_le(a, a),
    decreases a.len(),
{
    if a.len() > 0 {
        lemma_lex_le_reflexive(a.drop_first());
    }
}

pub proof fn lemma_lex_le_total(a: Seq<char>, b: Seq<char>)
    ensures
        lex_le(a, b) || lex_le(b, a),
    decreases a.len(),
{
    if a.len() > 0 && b.len() > 0 && a[0] == b[0] {
        lemma_lex_le_total(a.drop_first(), b.drop_first());
    } else if a.len() > 0 && b.len() > 0 {
    }
}

pub proof fn lemma_lex_le_transitive(a: Seq<char>, b: Seq<char>, c: Seq<char>)
    requires
        lex_le(a, b),
        lex_le(b, c),
    ensures
        lex_le(a, c),
    decreases a.len(),
{
    if a.len() > 0 && b.len() > 0 && c.len() > 0 && a[0] == b[0] && b[0] == c[0] {
        lemma_lex_le_transitive(a.drop_first(), b.drop_first(), c.drop_first());
    }
}

pub proof fn lemma_lex_le_antisymmetric(a: Seq<char>, b: Seq<char>)
    requires
        lex_le(a, b),
        lex_le(b, a),
    ensures
        a == b,
    decreases a.len(),
{
    if a.len() > 0 && b.len() > 0 {
        lemma_lex_le_antisymmetric(a.drop_first(), b.drop_first());
        assert(a =~= seq![a[0]] + a.drop_first());
        assert(b =~= seq![b[0]] + b.drop_first());
    }
}

/// Whether `a` comes no later than `b` (see `lex_le`).
pub fn text_le(a: &Vec<char>, b: &Vec<char>) -> (r: bool)
    ensures
        r == lex_le(a@, b@),
{
    let mut k: usize = 0;
    assert(a@.skip(0) =~= a@ && b@.skip(0) =~= b@);
    while k < a.len() && k < b.len() && a[k] == b[k]
        invariant
            k <= a.len(),
            k <= b.len(),
            lex_le(a@, b@) == lex_le(a@.skip(k as int), b@.skip(k as int)),
        decreases a.len() - k,
    {
        proof {
            assert(a@.skip(k as int).drop_first() =~= a@.skip(k + 1));
            assert(b@.skip(k as int).drop_first() =~= b@.skip(k + 1));
        }
        k = k + 1;
    }
    if k == a.len() {
        true
    } else if k == b.len() {
        false
    } else {
        a[k] < b[k]
    }
}


/// Between single characters the order is that of their code points.
pub proof fn law_lex_le_on_characters(x: char, y: char)
    ensures
        lex_le(seq![x], seq![y]) <==> x <= y,
{
    assert(seq![x].drop_first() =~= Seq::<char>::empty());
    assert(seq![y].drop_first() =~= Seq::<char>::empty());
    assert(lex_le(Seq::<char>::empty(), Seq::<char>::empty()));
}

/// A text comes before every text that extends it, and not after a text it
/// extends by at least one character.
pub proof fn law_lex_le_prefix(a: Seq<char>, b: Seq<char>)
    ensures
        lex_le(a, a + b),
        b.len() > 0 ==> !lex_le(a + b, a),
    decreases a.len(),
{
    if a.len() > 0 {
        assert((a + b).drop_first() =~= a.drop_first() + b);
        law_lex_le_prefix(a.drop_first(), b);
    }
}

/// Texts that agree on a first character are ordered by what follows it; texts
/// that differ on it are ordered by it.
pub proof fn law_lex_le_first_character(x: char, a: Seq<char>, y: char, b: Seq<char>)
    ensures
        x == y ==> (lex_le(seq![x] + a, seq![y] + b) <==> lex_le(a, b)),
        x != y ==> (lex_le(seq![x] + a, seq![y] + b) <==> x < y),
{
    assert((seq![x] + a).drop_first() =~= a);
    assert((seq![y] + b).drop_first() =~= b);
}


proof fn lemma_find_from_first(s: Seq<char>, c: char, from: int, j: int)
    requires
        0 <= from <= j < s.len(),
        s[j] == c,
        forall|m: int| from <= m < j ==> s[m] != c,
    ensures
        find_from(s, c, from) == Some(j),
    decreases j - from,
{
    if from < j {
        lemma_find_from_first(s, c, from + 1, j);
    }
}

proof fn lemma_find_from_absent(s: Seq<char>, c: char, from: int)
    requires
        0 <= from,
        forall|m: int| from <= m < s.len() ==> s[m] != c,
    ensures
        find_from(s, c, from) is None,
    decreases s.len() - from,
{
    if from < s.len() {
        lemma_find_from_absent(s, c, from + 1);
    }
}

proof fn lemma_find_from_shift(p: Seq<char>, t: Seq<char>, c: char, i: int)
    requires
        0 <= i,
    ensures
        find_from(p + t, c, p.len() + i) == (match find_from(t, c, i) {
            Some(j) => Some(j + p.len()),
            None => None::<int>,
        }),
    decreases t.len() - i,
{
    if i < t.len() {
        assert((p + t)[p.len() + i] == t[i]);
        lemma_find_from_shift(p, t, c, i + 1);
        assert(p.len() + i + 1 == p.len() + (i + 1));
    }
}

proof fn lemma_strip_shift(p: Seq<char>, t: Seq<char>, i: int)
    requires
        0 <= i,
    ensures
        strip_groups_from(p + t, p.len() + i) == strip_groups_from(t, i),
    decreases t.len() - i,
{
    let s = p + t;
    let k = p.len() + i;
    if i < t.len() {
        assert(s[k] == t[i]);
        lemma_find_from_shift(p, t, ')', i + 1);
        lemma_find_from_shift(p, t, ']', i + 1);
        assert(p.len() + (i + 1) == k + 1);
        lemma_find_from(t, ')', i + 1);
        lemma_find_from(t, ']', i + 1);
        if t[i] == '(' && find_from(t, ')', i + 1) is Some {
            let j = find_from(t, ')', i + 1)->0;
            lemma_strip_shift(p, t, j + 1);
            assert(p.len() + (j + 1) == j + p.len() + 1);
        } else if t[i] == '[' && find_from(t, ']', i + 1) is Some {
            let j = find_from(t, ']', i + 1)->0;
            lemma_strip_shift(p, t, j + 1);
            assert(p.len() + (j + 1) == j + p.len() + 1);
        } else {
            lemma_strip_shift(p, t, i + 1);
        }
    }
}

/// A first character that opens no group is kept, and the rest is stripped on its
/// own.
pub proof fn law_strip_keeps_plain_character(c: char, t: Seq<char>)
    requires
        c != '(',
        c != '[',
    ensures
        strip_groups_spec(seq![c] + t) == seq![c] + strip_groups_spec(t),
{
    lemma_strip_shift(seq![c], t, 0);
    assert((seq![c] + t)[0] == c);
}

/// A leading `(...)` group, up to the first `)`, is removed whole, and so is a
/// leading `[...]` group up to the first `]`; the rest is stripped on its own.
pub proof fn law_strip_removes_leading_group(x: Seq<char>, t: Seq<char>)
    ensures
        !x.contains(')') ==> strip_groups_spec(seq!['('] + x + seq![')'] + t) == strip_groups_spec(t),
        !x.contains(']') ==> strip_groups_spec(seq!['['] + x + seq![']'] + t) == strip_groups_spec(t),
{
    if !x.contains(')') {
        let p = seq!['('] + x + seq![')'];
        let s = p + t;
        assert forall|m: int| 1 <= m < x.len() + 1 implies s[m] != ')' by {
            assert(s[m] == x[m - 1]);
        }
        assert(s[x.len() as int + 1] == ')');
        lemma_find_from_first(s, ')', 1, x.len() as int + 1);
        lemma_strip_shift(p, t, 0);
        assert(s[0] == '(');
    }
    if !x.contains(']') {
        let p = seq!['['] + x + seq![']'];
        let s = p + t;
        assert forall|m: int| 1 <= m < x.len() + 1 implies s[m] != ']' by {
            assert(s[m] == x[m - 1]);
        }
        assert(s[x.len() as int + 1] == ']');
        lemma_find_from_first(s, ']', 1, x.len() as int + 1);
        lemma_strip_shift(p, t, 0);
        assert(s[0] == '[');
    }
}

/// An opening `(` with no `)` after it is kept, and so is a `[` with no `]` after
/// it.
pub proof fn law_strip_keeps_unclosed_opener(t: Seq<char>)
    ensures
        !t.contains(')') ==> strip_groups_spec(seq!['('] + t) == seq!['('] + strip_groups_spec(t),
        !t.contains(']') ==> strip_groups_spec(seq!['['] + t) == seq!['['] + strip_groups_spec(t),
{
    if !t.contains(')') {
        let s = seq!['('] + t;
        assert forall|m: int| 1 <= m < s.len() implies s[m] != ')' by {
            assert(s[m] == t[m - 1]);
        }
        lemma_find_from_absent(s, ')', 1);
        lemma_strip_shift(seq!['('], t, 0);
        assert(s[0] == '(');
    }
    if !t.contains(']') {
        let s = seq!['['] + t;
        assert forall|m: int| 1 <= m < s.len() implies s[m] != ']' by {
            assert(s[m] == t[m - 1]);
        }
        lemma_find_from_absent(s, ']', 1);
        lemma_strip_shift(seq!['['], t, 0);
        assert(s[0] == '[');
    }
}

} // verus!
