//! Whitespace handling over the characters of a string.

use vstd::prelude::*;

verus! {

/// The characters with the Unicode `White_Space` property, which is what
/// `char::is_whitespace` and `str::trim` go by.
pub open spec fn is_space(c: char) -> bool {
    ('\u{9}' <= c && c <= '\u{d}') || c == ' ' || c == '\u{85}' || c == '\u{a0}'
        || c == '\u{1680}' || ('\u{2000}' <= c && c <= '\u{200a}') || c == '\u{2028}'
        || c == '\u{2029}' || c == '\u{202f}' || c == '\u{205f}' || c == '\u{3000}'
}

/// `s` without its leading whitespace.
pub open spec fn trim_front(s: Seq<char>) -> Seq<char>
    decreases s.len(),
{
    if s.len() > 0 && is_space(s[0]) {
        trim_front(s.drop_first())
    } else {
        s
    }
}

/// `s` without its trailing whitespace.
pub open spec fn trim_back(s: Seq<char>) -> Seq<char>
    decreases s.len(),
{
    if s.len() > 0 && is_space(s.last()) {
        trim_back(s.drop_last())
    } else {
        s
    }
}

/// `s` without leading or trailing whitespace.
pub open spec fn trimmed(s: Seq<char>) -> Seq<char> {
    trim_back(trim_front(s))
}

/// Executable test for `is_space`.
pub fn is_space_char(c: char) -> (r: bool)
    ensures
        r == is_space(c),
{
    ('\u{9}' <= c && c <= '\u{d}') || c == ' ' || c == '\u{85}' || c == '\u{a0}'
        || c == '\u{1680}' || ('\u{2000}' <= c && c <= '\u{200a}') || c == '\u{2028}'
        || c == '\u{2029}' || c == '\u{202f}' || c == '\u{205f}' || c == '\u{3000}'
}

/// The part of `s` between its leading and its trailing whitespace.
pub fn trim(s: &str) -> (r: &str)
    ensures
        r@ == trimmed(s@),
{
    let n = s.unicode_len();
    let mut i: usize = 0;
    assert(s@.subrange(0, n as int) =~= s@);
    while i < n && is_space_char(s.get_char(i))
        invariant
            n == s@.len(),
            i <= n,
            trim_front(s@) == trim_front(s@.subrange(i as int, n as int)),
        decreases n - i,
    {
        assert(s@.subrange(i as int, n as int).drop_first() =~= s@.subrange(i + 1, n as int));
        i = i + 1;
    }
    assert(trim_front(s@) == s@.subrange(i as int, n as int));
    let ghost front = s@.subrange(i as int, n as int);
    let mut j: usize = n;
    while j > i && is_space_char(s.get_char(j - 1))
        invariant
            n == s@.len(),
            i <= j <= n,
            front == s@.subrange(i as int, n as int),
            trim_back(front) == trim_back(s@.subrange(i as int, j as int)),
        decreases j,
    {
        assert(s@.subrange(i as int, j as int).drop_last() =~= s@.subrange(i as int, j - 1));
        j = j - 1;
    }
    s.substring_char(i, j)
}

pub open spec fn all_space(s: Seq<char>) -> bool {
    forall|i: int| 0 <= i < s.len() ==> is_space(#[trigger] s[i])
}

/// Whitespace put before and after `t` is trimmed away with the rest.
pub proof fn lemma_padding_trimmed(p: Seq<char>, t: Seq<char>, q: Seq<char>)
    requires
        all_space(p),
        all_space(q),
    ensures
        trimmed(p + t + q) == trimmed(t),
{
    assert(p + t + q =~= p + (t + q));
    lemma_trim_front_skips(p, t + q);
    lemma_trim_front_keeps_tail(t, q);
    if trim_front(t + q) == trim_front(t) + q {
        lemma_trim_back_skips(trim_front(t), q);
    }
}

proof fn lemma_trim_front_skips(p: Seq<char>, x: Seq<char>)
    requires
        all_space(p),
    ensures
        trim_front(p + x) == trim_front(x),
    decreases p.len(),
{
    if p.len() > 0 {
        let p1 = p.drop_first();
        assert((p + x)[0] == p[0]);
        assert((p + x).drop_first() =~= p1 + x);
        assert forall|i: int| 0 <= i < p1.len() implies is_space(#[trigger] p1[i]) by {
            assert(p1[i] == p[i + 1]);
        }
        lemma_trim_front_skips(p1, x);
    } else {
        assert(p + x =~= x);
    }
}

proof fn lemma_trim_back_skips(x: Seq<char>, q: Seq<char>)
    requires
        all_space(q),
    ensures
        trim_back(x + q) == trim_back(x),
    decreases q.len(),
{
    if q.len() > 0 {
        let q1 = q.drop_last();
        assert((x + q).last() == q.last());
        assert((x + q).drop_last() =~= x + q1);
        assert forall|i: int| 0 <= i < q1.len() implies is_space(#[trigger] q1[i]) by {
            assert(q1[i] == q[i]);
        }
        lemma_trim_back_skips(x, q1);
    } else {
        assert(x + q =~= x);
    }
}

proof fn lemma_trim_front_keeps_tail(t: Seq<char>, q: Seq<char>)
    requires
        all_space(q),
    ensures
        trim_front(t + q) == trim_front(t) + q || (trim_front(t).len() == 0 && trim_front(
            t + q,
        ).len() == 0),
    decreases t.len(),
{
    if t.len() == 0 {
        assert(t + q =~= q);
        lemma_trim_front_skips(q, Seq::<char>::empty());
        assert(q + Seq::<char>::empty() =~= q);
    } else if is_space(t[0]) {
        assert((t + q)[0] == t[0]);
        assert((t + q).drop_first() =~= t.drop_first() + q);
        lemma_trim_front_keeps_tail(t.drop_first(), q);
    } else {
        assert((t + q)[0] == t[0]);
    }
}

/// Trimming leaves no whitespace at either end, and trimming again changes nothing.
pub proof fn lemma_trimmed_is_bare(s: Seq<char>)
    ensures
        trimmed(s).len() > 0 ==> !is_space(trimmed(s)[0]) && !is_space(trimmed(s).last()),
        trimmed(trimmed(s)) == trimmed(s),
{
    lemma_trim_front_bare(s);
    lemma_trim_back_keeps_front(trim_front(s));
    lemma_trim_back_bare(trim_front(s));
    lemma_trim_front_of_bare(trimmed(s));
    lemma_trim_back_bare(trimmed(s));
}

proof fn lemma_trim_front_bare(s: Seq<char>)
    ensures
        trim_front(s).len() > 0 ==> !is_space(trim_front(s)[0]),
    decreases s.len(),
{
    if s.len() > 0 && is_space(s[0]) {
        lemma_trim_front_bare(s.drop_first());
    }
}

proof fn lemma_trim_back_bare(s: Seq<char>)
    ensures
        trim_back(s).len() > 0 ==> !is_space(trim_back(s).last()),
        trim_back(s).len() > 0 && !is_space(trim_back(s).last()) ==> trim_back(trim_back(s))
            == trim_back(s),
    decreases s.len(),
{
    if s.len() > 0 && is_space(s.last()) {
        lemma_trim_back_bare(s.drop_last());
    }
}

/// Trimming the back of a string whose first character is not whitespace keeps
/// that first character.
proof fn lemma_trim_back_keeps_front(s: Seq<char>)
    ensures
        s.len() > 0 && !is_space(s[0]) ==> trim_back(s).len() > 0 && trim_back(s)[0] == s[0],
        trim_back(s).len() <= s.len(),
        forall|k: int| 0 <= k < trim_back(s).len() ==> trim_back(s)[k] == s[k],
    decreases s.len(),
{
    if s.len() > 0 && is_space(s.last()) {
        lemma_trim_back_keeps_front(s.drop_last());
        assert forall|k: int| 0 <= k < trim_back(s).len() implies trim_back(s)[k] == s[k] by {
            assert(s.drop_last()[k] == s[k]);
        }
    }
}

proof fn lemma_trim_front_of_bare(s: Seq<char>)
    ensures
        s.len() == 0 || !is_space(s[0]) ==> trim_front(s) == s,
{
}

} // verus!
