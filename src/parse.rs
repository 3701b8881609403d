//! Comma-separated fields and unsigned decimal numbers.

use vstd::prelude::*;

verus! {

/// Index of the first comma of `s` at or after `i`, or the length of `s`
/// where there is none.
pub open spec fn comma_from(s: Seq<char>, i: int) -> int
    decreases s.len() - i,
{
    if 0 <= i < s.len() {
        if s[i] == ',' {
            i
        } else {
            comma_from(s, i + 1)
        }
    } else {
        s.len() as int
    }
}

/// Index where field `k` begins, counting fields from the one that begins at
/// `from`; `None` where the fields run out first.
pub open spec fn field_start(s: Seq<char>, from: int, k: nat) -> Option<int>
    decreases k,
{
    if k == 0 {
        Some(from)
    } else if comma_from(s, from) < s.len() {
        field_start(s, comma_from(s, from) + 1, (k - 1) as nat)
    } else {
        None
    }
}

/// Field `k` (from zero) of `s` split at every comma, as `str::split(",")`
/// yields them.
pub open spec fn nth_field(s: Seq<char>, k: nat) -> Option<Seq<char>> {
    match field_start(s, 0, k) {
        Some(a) => Some(s.subrange(a, comma_from(s, a))),
        None => None,
    }
}

pub open spec fn is_digit(c: char) -> bool {
    '0' <= c && c <= '9'
}

pub open spec fn digit_value(c: char) -> int {
    (c as u32) as int - ('0' as u32) as int
}

/// Value of a string of decimal digits, most significant first.
pub open spec fn decimal_value(d: Seq<char>) -> int
    decreases d.len(),
{
    if d.len() == 0 {
        0
    } else {
        decimal_value(d.drop_last()) * 10 + digit_value(d.last())
    }
}

/// `t` without one leading `+`, if it has one.
pub open spec fn unsigned_digits(t: Seq<char>) -> Seq<char> {
    if t.len() > 0 && t[0] == '+' {
        t.drop_first()
    } else {
        t
    }
}

pub open spec fn all_digits(d: Seq<char>) -> bool {
    forall|i: int| 0 <= i < d.len() ==> is_digit(#[trigger] d[i])
}

/// What `u16::from_str` accepts and returns: an optional `+`, then one or
/// more ASCII digits whose value fits in 16 bits.
pub open spec fn decimal_u16(t: Seq<char>) -> Option<u16> {
    let d = unsigned_digits(t);
    if d.len() > 0 && all_digits(d) && decimal_value(d) <= u16::MAX {
        Some(decimal_value(d) as u16)
    } else {
        None
    }
}

/// The decimal digits of `n`, most significant first, with no leading zero.
pub open spec fn decimal_digits(n: nat) -> Seq<char>
    decreases n,
{
    let digits = seq!['0', '1', '2', '3', '4', '5', '6', '7', '8', '9'];
    if n < 10 {
        seq![digits[n as int]]
    } else {
        decimal_digits(n / 10).push(digits[(n % 10) as int])
    }
}

proof fn lemma_digit_char(k: int)
    requires
        0 <= k < 10,
    ensures
        is_digit(seq!['0', '1', '2', '3', '4', '5', '6', '7', '8', '9'][k]),
        digit_value(seq!['0', '1', '2', '3', '4', '5', '6', '7', '8', '9'][k]) == k,
{
    let digits = seq!['0', '1', '2', '3', '4', '5', '6', '7', '8', '9'];
    if k == 0 {
        assert(digits[k] == '0');
    } else if k == 1 {
        assert(digits[k] == '1');
    } else if k == 2 {
        assert(digits[k] == '2');
    } else if k == 3 {
        assert(digits[k] == '3');
    } else if k == 4 {
        assert(digits[k] == '4');
    } else if k == 5 {
        assert(digits[k] == '5');
    } else if k == 6 {
        assert(digits[k] == '6');
    } else if k == 7 {
        assert(digits[k] == '7');
    } else if k == 8 {
        assert(digits[k] == '8');
    } else {
        assert(digits[k] == '9');
    }
}

/// The digits of `n` are one or more decimal digits whose value is `n`.
pub proof fn lemma_decimal_digits(n: nat)
    ensures
        decimal_digits(n).len() > 0,
        all_digits(decimal_digits(n)),
        decimal_value(decimal_digits(n)) == n,
    decreases n,
{
    let d = decimal_digits(n);
    lemma_digit_char((n % 10) as int);
    if n >= 10 {
        lemma_decimal_digits(n / 10);
        let p = decimal_digits(n / 10);
        assert(d.drop_last() =~= p);
        assert(d.last() == seq!['0', '1', '2', '3', '4', '5', '6', '7', '8', '9'][(n % 10) as int]);
        assert(n == (n / 10) * 10 + n % 10);
        assert(decimal_value(d) == decimal_value(p) * 10 + digit_value(d.last()));
        assert forall|i: int| 0 <= i < d.len() implies is_digit(#[trigger] d[i]) by {
            if i < p.len() {
                assert(d[i] == p[i]);
            }
        }
    } else {
        assert(n % 10 == n);
        assert(d.drop_last() =~= Seq::<char>::empty());
        assert(decimal_value(d) == decimal_value(d.drop_last()) * 10 + digit_value(d.last()));
    }
}

/// A number written in decimal reads back as itself.
pub proof fn lemma_decimal_round_trip(n: u16)
    ensures
        decimal_u16(decimal_digits(n as nat)) == Some(n),
{
    lemma_decimal_digits(n as nat);
    let d = decimal_digits(n as nat);
    assert(is_digit(d[0]));
    assert(unsigned_digits(d) == d);
}

/// A string with no line feed keeps all its characters.
pub proof fn lemma_no_line_feeds(s: Seq<char>)
    requires
        forall|i: int| 0 <= i < s.len() ==> #[trigger] s[i] != '\n',
    ensures
        without_line_feeds(s) == s,
    decreases s.len(),
{
    if s.len() > 0 {
        let p = s.drop_last();
        assert forall|i: int| 0 <= i < p.len() implies #[trigger] p[i] != '\n' by {
            assert(p[i] == s[i]);
        }
        lemma_no_line_feeds(p);
        assert(p.push(s.last()) =~= s);
    }
}

pub open spec fn has_no_comma(s: Seq<char>) -> bool {
    forall|i: int| 0 <= i < s.len() ==> #[trigger] s[i] != ','
}

/// Where no comma stands in `s[i..j]` and `j` is a comma or the end, the
/// first comma from `i` is at `j`.
proof fn lemma_comma_at(s: Seq<char>, i: int, j: int)
    requires
        0 <= i <= j <= s.len(),
        forall|k: int| i <= k < j ==> #[trigger] s[k] != ',',
        j == s.len() || s[j] == ',',
    ensures
        comma_from(s, i) == j,
    decreases j - i,
{
    if i < j {
        lemma_comma_at(s, i + 1, j);
    }
}

/// In `a,b,c,d` with no comma inside the four parts, fields two and three are
/// `c` and `d`.
pub proof fn lemma_third_and_fourth_fields(a: Seq<char>, b: Seq<char>, c: Seq<char>, d: Seq<char>)
    requires
        has_no_comma(a),
        has_no_comma(b),
        has_no_comma(c),
        has_no_comma(d),
    ensures
        nth_field(a + seq![','] + b + seq![','] + c + seq![','] + d, 2) == Some(c),
        nth_field(a + seq![','] + b + seq![','] + c + seq![','] + d, 3) == Some(d),
{
    let s = a + seq![','] + b + seq![','] + c + seq![','] + d;
    let c0 = a.len() as int;
    let c1 = c0 + 1 + b.len();
    let c2 = c1 + 1 + c.len();
    assert(s[c0] == ',' && s[c1] == ',' && s[c2] == ',');
    assert forall|k: int| 0 <= k < c0 implies #[trigger] s[k] != ',' by {
        assert(s[k] == a[k]);
    }
    assert forall|k: int| c0 + 1 <= k < c1 implies #[trigger] s[k] != ',' by {
        assert(s[k] == b[k - c0 - 1]);
    }
    assert forall|k: int| c1 + 1 <= k < c2 implies #[trigger] s[k] != ',' by {
        assert(s[k] == c[k - c1 - 1]);
    }
    assert forall|k: int| c2 + 1 <= k < s.len() implies #[trigger] s[k] != ',' by {
        assert(s[k] == d[k - c2 - 1]);
    }
    lemma_comma_at(s, 0, c0);
    lemma_comma_at(s, c0 + 1, c1);
    lemma_comma_at(s, c1 + 1, c2);
    lemma_comma_at(s, c2 + 1, s.len() as int);
    assert(field_start(s, c2 + 1, 0) == Some(c2 + 1));
    assert(field_start(s, c1 + 1, 0) == Some(c1 + 1));
    assert(field_start(s, c1 + 1, 1) == Some(c2 + 1));
    assert(field_start(s, c0 + 1, 1) == Some(c1 + 1));
    assert(field_start(s, c0 + 1, 2) == Some(c2 + 1));
    assert(field_start(s, 0, 2) == Some(c1 + 1));
    assert(field_start(s, 0, 3) == Some(c2 + 1));
    assert(s.subrange(c1 + 1, c2) =~= c);
    assert(s.subrange(c2 + 1, s.len() as int) =~= d);
}

/// Index of the first comma of `s` at or after `i`, or `n`, the length of `s`.
fn comma_at_or_after(s: &str, i: usize, n: usize) -> (r: usize)
    requires
        n == s@.len(),
        i <= n,
    ensures
        r == comma_from(s@, i as int),
        i <= r <= n,
{
    let mut j: usize = i;
    while j < n && s.get_char(j) != ','
        invariant
            n == s@.len(),
            i <= j <= n,
            comma_from(s@, i as int) == comma_from(s@, j as int),
        decreases n - j,
    {
        j = j + 1;
    }
    j
}

/// Field `k` (from zero) of `s` split at every comma, or `None` where `s`
/// has no more than `k` fields.
pub fn field(s: &str, k: usize) -> (r: Option<&str>)
    ensures
        match r {
            Some(f) => nth_field(s@, k as nat) == Some(f@),
            None => nth_field(s@, k as nat) is None,
        },
{
    let n = s.unicode_len();
    let mut start: usize = 0;
    let mut left: usize = k;
    while left > 0
        invariant
            n == s@.len(),
            start <= n,
            left <= k,
            field_start(s@, 0, k as nat) == field_start(s@, start as int, left as nat),
        decreases left,
    {
        let c = comma_at_or_after(s, start, n);
        if c == n {
            return None;
        }
        start = c + 1;
        left = left - 1;
    }
    let end = comma_at_or_after(s, start, n);
    Some(s.substring_char(start, end))
}

/// Removes every line feed from `s`, keeping the other characters in order.
pub open spec fn without_line_feeds(s: Seq<char>) -> Seq<char>
    decreases s.len(),
{
    if s.len() == 0 {
        s
    } else if s.last() == '\n' {
        without_line_feeds(s.drop_last())
    } else {
        without_line_feeds(s.drop_last()).push(s.last())
    }
}

/// The characters of `s` other than line feeds, in order.
pub fn strip_line_feeds(s: &str) -> (r: Vec<char>)
    ensures
        r@ == without_line_feeds(s@),
{
    let n = s.unicode_len();
    let mut out: Vec<char> = Vec::new();
    let mut i: usize = 0;
    while i < n
        invariant
            n == s@.len(),
            i <= n,
            out@ == without_line_feeds(s@.subrange(0, i as int)),
        decreases n - i,
    {
        let c = s.get_char(i);
        assert(s@.subrange(0, i + 1).drop_last() =~= s@.subrange(0, i as int));
        if c != '\n' {
            out.push(c);
        }
        i = i + 1;
    }
    assert(s@.subrange(0, n as int) =~= s@);
    out
}

proof fn lemma_prefix_value_le(d: Seq<char>, j: int)
    requires
        0 <= j <= d.len(),
        forall|i: int| 0 <= i < d.len() ==> is_digit(#[trigger] d[i]),
    ensures
        0 <= decimal_value(d.subrange(0, j)) <= decimal_value(d),
    decreases d.len(),
{
    if j == d.len() {
        assert(d.subrange(0, j) =~= d);
        lemma_value_nonneg(d);
    } else {
        let p = d.drop_last();
        assert forall|i: int| 0 <= i < p.len() implies is_digit(#[trigger] p[i]) by {
            assert(p[i] == d[i]);
        }
        lemma_prefix_value_le(p, j);
        assert(p.subrange(0, j) =~= d.subrange(0, j));
        lemma_value_nonneg(p);
        assert(is_digit(d[d.len() - 1]));
    }
}

proof fn lemma_value_nonneg(d: Seq<char>)
    requires
        forall|i: int| 0 <= i < d.len() ==> is_digit(#[trigger] d[i]),
    ensures
        decimal_value(d) >= 0,
    decreases d.len(),
{
    if d.len() > 0 {
        let p = d.drop_last();
        assert forall|i: int| 0 <= i < p.len() implies is_digit(#[trigger] p[i]) by {
            assert(p[i] == d[i]);
        }
        lemma_value_nonneg(p);
        assert(is_digit(d[d.len() - 1]));
    }
}

/// Parses `t` as `u16::from_str` does.
pub fn parse_u16(t: &Vec<char>) -> (r: Option<u16>)
    ensures
        r == decimal_u16(t@),
{
    let n = t.len();
    let start: usize = if n > 0 && t[0] == '+' {
        1
    } else {
        0
    };
    let ghost d = unsigned_digits(t@);
    assert(d =~= t@.subrange(start as int, n as int));
    if start == n {
        return None;
    }
    let mut acc: u32 = 0;
    let mut i: usize = start;
    while i < n
        invariant
            n == t@.len(),
            start <= i <= n,
            d == t@.subrange(start as int, n as int),
            d == unsigned_digits(t@),
            acc as int == decimal_value(t@.subrange(start as int, i as int)),
            acc <= 65535,
            forall|k: int| start <= k < i ==> is_digit(#[trigger] t@[k]),
        decreases n - i,
    {
        let c = t[i];
        if !('0' <= c && c <= '9') {
            assert(d[i - start] == t@[i as int]);
            assert(!is_digit(d[i - start]));
            return None;
        }
        assert(t@.subrange(start as int, i + 1).drop_last() =~= t@.subrange(
            start as int,
            i as int,
        ));
        let v: u32 = acc * 10 + (c as u32 - '0' as u32);
        if v > 65535 {
            proof {
                if all_digits(d) {
                    assert(d.subrange(0, i + 1 - start) =~= t@.subrange(start as int, i + 1));
                    lemma_prefix_value_le(d, i + 1 - start);
                }
            }
            return None;
        }
        acc = v;
        i = i + 1;
    }
    assert forall|k: int| 0 <= k < d.len() implies is_digit(#[trigger] d[k]) by {
        assert(d[k] == t@[k + start]);
    }
    assert(t@.subrange(start as int, n as int) == d);
    Some(acc as u16)
}

} // verus!
