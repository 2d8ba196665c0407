//! Character-level helpers: decimal numbers and ASCII case.

use vstd::prelude::*;
use vstd::string::StrSliceExecFns;

verus! {

pub open spec fn is_digit(c: char) -> bool {
    '0' <= c && c <= '9'
}

pub open spec fn all_digits(s: Seq<char>) -> bool {
    forall|i: int| 0 <= i < s.len() ==> is_digit(#[trigger] s[i])
}

/// The number that a string of decimal digits spells.
pub open spec fn digits_value(s: Seq<char>) -> int
    decreases s.len(),
{
    if s.len() == 0 {
        0
    } else {
        digits_value(s.drop_last()) * 10 + (s.last() as int - '0' as int)
    }
}

/// The integer that `s` spells: an optional `+` or `-`, then one or more
/// decimal digits.
pub open spec fn int_value(s: Seq<char>) -> Option<int> {
    if s.len() > 0 && (s[0] == '+' || s[0] == '-') {
        let body = s.drop_first();
        if body.len() > 0 && all_digits(body) {
            Some(if s[0] == '-' { -digits_value(body) } else { digits_value(body) })
        } else {
            None
        }
    } else if s.len() > 0 && all_digits(s) {
        Some(digits_value(s))
    } else {
        None
    }
}

/// What parsing `s` as a signed 64-bit integer gives.
pub open spec fn i64_value(s: Seq<char>) -> Option<i64> {
    match int_value(s) {
        Some(v) => if i64::MIN <= v <= i64::MAX {
            Some(v as i64)
        } else {
            None
        },
        None => None,
    }
}

/// What parsing `s` as a signed 32-bit integer gives.
pub open spec fn i32_value(s: Seq<char>) -> Option<i32> {
    match int_value(s) {
        Some(v) => if i32::MIN <= v <= i32::MAX {
            Some(v as i32)
        } else {
            None
        },
        None => None,
    }
}

/// The characters of `s`.
pub fn chars_of(s: &str) -> (r: Vec<char>)
    ensures
        r@ == s@,
{
    let n = s.unicode_len();
    let mut v: Vec<char> = Vec::new();
    let mut i: usize = 0;
    while i < n
        invariant
            n == s@.len(),
            i <= n,
            v@ == s@.subrange(0, i as int),
        decreases n - i,
    {
        v.push(s.get_char(i));
        i += 1;
    }
    assert(v@ == s@);
    v
}

proof fn lemma_digits_monotone(s: Seq<char>, k: int)
    requires
        all_digits(s),
        0 <= k <= s.len(),
    ensures
        digits_value(s.subrange(0, k)) <= digits_value(s),
        0 <= digits_value(s.subrange(0, k)),
    decreases s.len() - k,
{
    if k < s.len() {
        lemma_digits_monotone(s, k + 1);
        assert(s.subrange(0, k + 1).drop_last() == s.subrange(0, k));
        assert(is_digit(s[k]));
    } else {
        assert(s.subrange(0, k) == s);
        lemma_digits_nonneg_pub(s);
    }
}

pub proof fn lemma_digits_nonneg_pub(s: Seq<char>)
    requires
        all_digits(s),
    ensures
        0 <= digits_value(s),
    decreases s.len(),
{
    if s.len() > 0 {
        assert(is_digit(s.last()));
        assert(all_digits(s.drop_last()));
        lemma_digits_nonneg_pub(s.drop_last());
    }
}

/// The value of the decimal digits `s[from..to]`, or `None` when one of them
/// is not a digit or the value exceeds `limit`.
pub fn digits_upto(s: &Vec<char>, from: usize, to: usize, limit: u64) -> (r: Option<u64>)
    requires
        from <= to <= s@.len(),
    ensures
        r matches Some(v) ==> all_digits(s@.subrange(from as int, to as int)) && v
            == digits_value(s@.subrange(from as int, to as int)) && v <= limit,
        r is None ==> !all_digits(s@.subrange(from as int, to as int)) || digits_value(
            s@.subrange(from as int, to as int),
        ) > limit,
{
    let ghost t = s@.subrange(from as int, to as int);
    let mut acc: u64 = 0;
    let mut i: usize = from;
    while i < to
        invariant
            from <= i <= to <= s@.len(),
            t == s@.subrange(from as int, to as int),
            all_digits(t.subrange(0, i - from)),
            acc == digits_value(t.subrange(0, i - from)),
            acc <= limit,
        decreases to - i,
    {
        let c = s[i];
        assert(t.subrange(0, i - from + 1).drop_last() == t.subrange(0, i - from));
        if !('0' <= c && c <= '9') {
            assert(t[i - from] == c);
            assert(!all_digits(t));
            return None;
        }
        let d = (c as u32 - '0' as u32) as u64;
        let next: u128 = acc as u128 * 10 + d as u128;
        if next > limit as u128 {
            proof {
                assert(all_digits(t.subrange(0, i - from + 1)));
                assert(digits_value(t.subrange(0, i - from + 1)) == acc * 10 + d);
                if all_digits(t) {
                    lemma_digits_monotone(t, i - from + 1);
                }
            }
            return None;
        }
        acc = next as u64;
        i += 1;
    }
    assert(t.subrange(0, to - from) == t);
    Some(acc)
}

/// Parses a signed 64-bit decimal integer: an optional sign and at least one
/// digit, nothing else.
pub fn parse_i64(s: &Vec<char>, from: usize, to: usize) -> (r: Option<i64>)
    requires
        from <= to <= s@.len(),
    ensures
        r == i64_value(s@.subrange(from as int, to as int)),
{
    let ghost t = s@.subrange(from as int, to as int);
    if from == to {
        return None;
    }
    let c = s[from];
    if c == '+' || c == '-' {
        assert(t.drop_first() == s@.subrange(from + 1, to as int));
        if from + 1 == to {
            return None;
        }
        let limit: u64 = if c == '-' { 0x8000_0000_0000_0000 } else { 0x7fff_ffff_ffff_ffff };
        match digits_upto(s, from + 1, to, limit) {
            Some(v) => {
                if c == '-' {
                    if v == 0x8000_0000_0000_0000 {
                        Some(i64::MIN)
                    } else {
                        Some(-(v as i64))
                    }
                } else {
                    Some(v as i64)
                }
            },
            None => None,
        }
    } else {
        match digits_upto(s, from, to, 0x7fff_ffff_ffff_ffff) {
            Some(v) => Some(v as i64),
            None => None,
        }
    }
}

pub open spec fn pow10(k: nat) -> int
    decreases k,
{
    if k == 0 {
        1
    } else {
        10 * pow10((k - 1) as nat)
    }
}

/// The index of the first `.` in `s` at or after `i`, or `s.len()`.
pub open spec fn dot_from(s: Seq<char>, i: int) -> int
    decreases s.len() - i,
{
    if i >= s.len() {
        s.len() as int
    } else if s[i] == '.' {
        i
    } else {
        dot_from(s, i + 1)
    }
}

/// A non-negative decimal `digits[.digits]` with at least one digit, as its
/// digits read as one integer and the number of digits after the point.
pub open spec fn unsigned_decimal(s: Seq<char>) -> Option<(int, nat)> {
    let k = dot_from(s, 0);
    let int_part = s.subrange(0, k);
    let frac = if k < s.len() { s.subrange(k + 1, s.len() as int) } else { Seq::empty() };
    if all_digits(int_part) && all_digits(frac) && int_part.len() + frac.len() > 0 {
        Some((digits_value(int_part) * pow10(frac.len()) + digits_value(frac), frac.len()))
    } else {
        None
    }
}

pub proof fn lemma_dot_from_pub(s: Seq<char>, i: int)
    requires
        0 <= i <= s.len(),
    ensures
        i <= dot_from(s, i) <= s.len(),
        dot_from(s, i) < s.len() ==> s[dot_from(s, i)] == '.',
        forall|j: int| i <= j < dot_from(s, i) ==> s[j] != '.',
    decreases s.len() - i,
{
    if i < s.len() && s[i] != '.' {
        lemma_dot_from_pub(s, i + 1);
    }
}

pub proof fn lemma_digits_below_pow10_pub(s: Seq<char>)
    requires
        all_digits(s),
    ensures
        0 <= digits_value(s) < pow10(s.len()),
    decreases s.len(),
{
    if s.len() > 0 {
        assert(all_digits(s.drop_last()));
        assert(is_digit(s.last()));
        lemma_digits_below_pow10_pub(s.drop_last());
    }
}

/// Whether every character of `s[from..to]` is a decimal digit.
pub fn all_digits_in(s: &Vec<char>, from: usize, to: usize) -> (r: bool)
    requires
        from <= to <= s@.len(),
    ensures
        r == all_digits(s@.subrange(from as int, to as int)),
{
    let mut i = from;
    while i < to
        invariant
            from <= i <= to <= s@.len(),
            all_digits(s@.subrange(from as int, i as int)),
        decreases to - i,
    {
        if !('0' <= s[i] && s[i] <= '9') {
            assert(s@.subrange(from as int, to as int)[i - from] == s[i as int]);
            return false;
        }
        assert(s@.subrange(from as int, i + 1) == s@.subrange(from as int, i as int).push(s[i as int]));
        i += 1;
    }
    true
}

/// Finds the first `.` in `s[from..to]`.
pub fn find_dot(s: &Vec<char>, from: usize, to: usize) -> (r: usize)
    requires
        from <= to <= s@.len(),
    ensures
        r as int == from + dot_from(s@.subrange(from as int, to as int), 0),
{
    let ghost t = s@.subrange(from as int, to as int);
    let mut i = from;
    while i < to
        invariant
            from <= i <= to <= s@.len(),
            t == s@.subrange(from as int, to as int),
            dot_from(t, 0) == dot_from(t, i - from),
        decreases to - i,
    {
        if s[i] == '.' {
            return i;
        }
        i += 1;
    }
    i
}

/// Relies on `String::push`: appends one character.
#[verifier::external_body]
pub(crate) fn push_char(s: &mut String, c: char)
    ensures
        final(s)@ == old(s)@.push(c),
{
    s.push(c)
}

/// The string made of `c[from..to]`.
pub fn string_of(c: &Vec<char>, from: usize, to: usize) -> (r: String)
    requires
        from <= to <= c@.len(),
    ensures
        r@ == c@.subrange(from as int, to as int),
{
    let mut r = String::new();
    let mut i = from;
    while i < to
        invariant
            from <= i <= to <= c@.len(),
            r@ == c@.subrange(from as int, i as int),
        decreases to - i,
    {
        push_char(&mut r, c[i]);
        i += 1;
        assert(r@ =~= c@.subrange(from as int, i as int));
    }
    r
}

/// Whether `c[from..to]` is exactly `word`.
pub fn slice_is(c: &Vec<char>, from: usize, to: usize, word: &str) -> (r: bool)
    requires
        from <= to <= c@.len(),
    ensures
        r == (c@.subrange(from as int, to as int) == word@),
{
    let n = word.unicode_len();
    if to - from != n {
        return false;
    }
    let mut i: usize = 0;
    while i < n
        invariant
            n == word@.len() == to - from,
            from <= to <= c@.len(),
            i <= n,
            forall|j: int| 0 <= j < i ==> c@[from + j] == word@[j],
        decreases n - i,
    {
        if c[from + i] != word.get_char(i) {
            assert(c@.subrange(from as int, to as int)[i as int] != word@[i as int]);
            return false;
        }
        i += 1;
    }
    assert(c@.subrange(from as int, to as int) =~= word@);
    true
}

/// The index of the first `x` in `c[from..to]`, or `to`.
pub open spec fn find_from(c: Seq<char>, x: char, i: int, to: int) -> int
    decreases to - i,
{
    if i >= to {
        to
    } else if c[i] == x {
        i
    } else {
        find_from(c, x, i + 1, to)
    }
}

pub fn find_char(c: &Vec<char>, x: char, from: usize, to: usize) -> (r: usize)
    requires
        from <= to <= c@.len(),
    ensures
        r == find_from(c@, x, from as int, to as int),
        from <= r <= to,
        r < to ==> c@[r as int] == x,
        forall|j: int| from <= j < r ==> c@[j] != x,
{
    let mut i = from;
    while i < to
        invariant
            from <= i <= to <= c@.len(),
            find_from(c@, x, from as int, to as int) == find_from(c@, x, i as int, to as int),
            forall|j: int| from <= j < i ==> c@[j] != x,
        decreases to - i,
    {
        if c[i] == x {
            return i;
        }
        i += 1;
    }
    i
}

} // verus!
