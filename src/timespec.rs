//! Positions and durations in a stream, in the units a caller may give them.

use vstd::prelude::*;
use crate::text::{
    chars_of, parse_i64, i64_value, all_digits_in, find_dot, digits_upto, pow10, unsigned_decimal,
    dot_from, all_digits, digits_value,
};

verus! {

/// `num / den` of the whole, with `num <= den`.
#[derive(Debug, Clone, Copy, PartialEq, Eq, Structural)]
pub struct Fraction {
    pub num: u64,
    pub den: u64,
}

impl Fraction {
    pub open spec fn valid(self) -> bool {
        0 < self.den && self.num <= self.den
    }

    /// Whether two fractions stand for the same number.
    pub fn same_value(&self, other: &Fraction) -> (r: bool)
        ensures
            r == (self.num * other.den == other.num * self.den),
    {
        let (a, b, c, d) = (self.num as u128, other.den as u128, other.num as u128, self.den as u128);
        assert(a * b <= 0xffff_ffff_ffff_ffff * 0xffff_ffff_ffff_ffff) by (nonlinear_arith)
            requires
                a <= 0xffff_ffff_ffff_ffff,
                b <= 0xffff_ffff_ffff_ffff,
        ;
        assert(c * d <= 0xffff_ffff_ffff_ffff * 0xffff_ffff_ffff_ffff) by (nonlinear_arith)
            requires
                c <= 0xffff_ffff_ffff_ffff,
                d <= 0xffff_ffff_ffff_ffff,
        ;
        a * b == c * d
    }
}

/// A position or a length in a stream.
#[derive(Debug, Clone, Copy, PartialEq, Eq, Structural)]
pub enum SeekPosition {
    Seconds(i64),
    Milliseconds(i64),
    /// A share of the stream's duration, between 0 and 1.
    Percentage(Fraction),
    /// Native ticks of the stream's time base.
    TimeBase(i64),
}

#[derive(Debug, Clone, Copy, PartialEq, Eq, Structural)]
pub enum SeekParseError {
    /// The number part is not a number.
    InvalidNumber,
    /// A percentage below 0 or above 100.
    PercentageOutOfRange,
}

/// The longest fractional part accepted in a percentage.
pub const MAX_PERCENT_DECIMALS: usize = 16;

/// A percentage body: an optional sign and a decimal number from 0 to 100.
pub open spec fn percentage_of(s: Seq<char>) -> Result<Fraction, SeekParseError> {
    let signed = s.len() > 0 && (s[0] == '+' || s[0] == '-');
    let negative = s.len() > 0 && s[0] == '-';
    let body = if signed { s.drop_first() } else { s };
    match unsigned_decimal(body) {
        None => Err(SeekParseError::InvalidNumber),
        Some((m, k)) => if k > MAX_PERCENT_DECIMALS {
            Err(SeekParseError::InvalidNumber)
        } else if m > 100 * pow10(k) || (negative && m != 0) {
            Err(SeekParseError::PercentageOutOfRange)
        } else {
            Ok(Fraction { num: m as u64, den: (100 * pow10(k)) as u64 })
        },
    }
}

pub open spec fn int_position(s: Seq<char>, unit: spec_fn(i64) -> SeekPosition) -> Result<
    SeekPosition,
    SeekParseError,
> {
    match i64_value(s) {
        Some(v) => Ok(unit(v)),
        None => Err(SeekParseError::InvalidNumber),
    }
}

/// The grammar of positions: a number followed by `ms` (milliseconds), `%`
/// (a percentage of the duration), `ts` (native ticks), `s` or nothing
/// (seconds).
pub open spec fn seek_position_of(s: Seq<char>) -> Result<SeekPosition, SeekParseError> {
    let n = s.len();
    if n >= 2 && s[n - 2] == 'm' && s[n - 1] == 's' {
        int_position(s.subrange(0, n - 2), |v: i64| SeekPosition::Milliseconds(v))
    } else if n >= 1 && s[n - 1] == '%' {
        match percentage_of(s.subrange(0, n - 1)) {
            Ok(f) => Ok(SeekPosition::Percentage(f)),
            Err(e) => Err(e),
        }
    } else if n >= 2 && s[n - 2] == 't' && s[n - 1] == 's' {
        int_position(s.subrange(0, n - 2), |v: i64| SeekPosition::TimeBase(v))
    } else if n >= 1 && s[n - 1] == 's' {
        int_position(s.subrange(0, n - 1), |v: i64| SeekPosition::Seconds(v))
    } else {
        int_position(s, |v: i64| SeekPosition::Seconds(v))
    }
}

proof fn lemma_split_digits(a: Seq<char>, b: Seq<char>)
    requires
        all_digits(a),
        all_digits(b),
    ensures
        digits_value(a + b) == digits_value(a) * pow10(b.len()) + digits_value(b),
    decreases b.len(),
{
    if b.len() == 0 {
        assert(a + b == a);
    } else {
        assert((a + b).drop_last() == a + b.drop_last());
        assert(all_digits(b.drop_last()));
        lemma_split_digits(a, b.drop_last());
        assert((a + b).last() == b.last());
        assert(digits_value(a) * pow10(b.len()) == digits_value(a) * pow10(
            (b.len() - 1) as nat,
        ) * 10) by (nonlinear_arith)
            requires
                pow10(b.len()) == 10 * pow10((b.len() - 1) as nat),
        ;
    }
}

proof fn lemma_pow10_le(i: nat, k: nat)
    requires
        i <= k,
    ensures
        1 <= pow10(i) <= pow10(k),
    decreases k,
{
    if k > i {
        lemma_pow10_le(i, (k - 1) as nat);
    } else if i > 0 {
        lemma_pow10_le((i - 1) as nat, (i - 1) as nat);
    }
}

fn pow10_exec(k: usize) -> (r: u64)
    requires
        k <= MAX_PERCENT_DECIMALS,
    ensures
        r == pow10(k as nat),
        r <= 10_000_000_000_000_000,
{
    proof {
        lemma_pow10_le(k as nat, 16);
        reveal_with_fuel(pow10, 17);
    }
    let mut r: u64 = 1;
    let mut i: usize = 0;
    while i < k
        invariant
            i <= k <= MAX_PERCENT_DECIMALS,
            r == pow10(i as nat),
        decreases k - i,
    {
        proof {
            lemma_pow10_le((i + 1) as nat, 16);
            reveal_with_fuel(pow10, 17);
        }
        r = r * 10;
        i += 1;
    }
    r
}

fn parse_percentage(s: &Vec<char>, from: usize, to: usize) -> (r: Result<Fraction, SeekParseError>)
    requires
        from <= to <= s@.len(),
    ensures
        r == percentage_of(s@.subrange(from as int, to as int)),
        r matches Ok(f) ==> f.valid(),
{
    let ghost t = s@.subrange(from as int, to as int);
    let signed = from < to && (s[from] == '+' || s[from] == '-');
    let negative = from < to && s[from] == '-';
    let start = if signed { from + 1 } else { from };
    let ghost body = s@.subrange(start as int, to as int);
    assert(body == if signed { t.drop_first() } else { t });
    let k = find_dot(s, start, to);
    proof {
        crate::text::lemma_dot_from_pub(body, 0);
    }
    let frac_from = if k < to { k + 1 } else { to };
    let ghost int_part = s@.subrange(start as int, k as int);
    let ghost frac = s@.subrange(frac_from as int, to as int);
    assert(int_part == body.subrange(0, dot_from(body, 0)));
    assert(frac == if dot_from(body, 0) < body.len() {
        body.subrange(dot_from(body, 0) + 1, body.len() as int)
    } else {
        Seq::<char>::empty()
    });
    if !all_digits_in(s, start, k) || !all_digits_in(s, frac_from, to) || (k - start) + (to
        - frac_from) == 0 {
        return Err(SeekParseError::InvalidNumber);
    }
    let scale = to - frac_from;
    if scale > MAX_PERCENT_DECIMALS {
        return Err(SeekParseError::InvalidNumber);
    }
    let p = pow10_exec(scale);
    proof {
        crate::text::lemma_digits_below_pow10_pub(frac);
        crate::text::lemma_digits_nonneg_pub(int_part);
        lemma_split_digits(int_part, frac);
    }
    let ip = match digits_upto(s, start, k, 100) {
        Some(v) => v,
        None => {
            proof {
                assert(digits_value(int_part) * pow10(frac.len()) + digits_value(frac) > 100
                    * pow10(frac.len())) by (nonlinear_arith)
                    requires
                        digits_value(int_part) > 100,
                        pow10(frac.len()) >= 1,
                        digits_value(frac) >= 0,
                ;
            }
            return Err(SeekParseError::PercentageOutOfRange);
        },
    };
    let fp = match digits_upto(s, frac_from, to, 10_000_000_000_000_000) {
        Some(v) => v,
        None => return Err(SeekParseError::InvalidNumber),
    };
    assert(ip * p <= 100 * p) by (nonlinear_arith)
        requires
            ip <= 100,
    ;
    let mantissa: u64 = ip * p + fp;
    let den: u64 = 100 * p;
    if mantissa > den || (negative && mantissa != 0) {
        return Err(SeekParseError::PercentageOutOfRange);
    }
    Ok(Fraction { num: mantissa, den })
}

impl SeekPosition {
    /// Parses a position: a number followed by `ms` (milliseconds), `%` (a
    /// percentage of the duration, from 0 to 100), `ts` (native ticks), `s`
    /// or nothing (seconds).
    pub fn parse(s: &str) -> (r: Result<SeekPosition, SeekParseError>)
        ensures
            r == seek_position_of(s@),
            r matches Ok(SeekPosition::Percentage(f)) ==> f.valid(),
    {
        let c = chars_of(s);
        let n = c.len();
        if n >= 2 && c[n - 2] == 'm' && c[n - 1] == 's' {
            match parse_i64(&c, 0, n - 2) {
                Some(v) => Ok(SeekPosition::Milliseconds(v)),
                None => Err(SeekParseError::InvalidNumber),
            }
        } else if n >= 1 && c[n - 1] == '%' {
            match parse_percentage(&c, 0, n - 1) {
                Ok(f) => Ok(SeekPosition::Percentage(f)),
                Err(e) => Err(e),
            }
        } else if n >= 2 && c[n - 2] == 't' && c[n - 1] == 's' {
            match parse_i64(&c, 0, n - 2) {
                Some(v) => Ok(SeekPosition::TimeBase(v)),
                None => Err(SeekParseError::InvalidNumber),
            }
        } else if n >= 1 && c[n - 1] == 's' {
            match parse_i64(&c, 0, n - 1) {
                Some(v) => Ok(SeekPosition::Seconds(v)),
                None => Err(SeekParseError::InvalidNumber),
            }
        } else {
            assert(c@.subrange(0, n as int) == c@);
            match parse_i64(&c, 0, n) {
                Some(v) => Ok(SeekPosition::Seconds(v)),
                None => Err(SeekParseError::InvalidNumber),
            }
        }
    }
}

impl Default for SeekPosition {
    /// The start of the stream: zero native ticks.
    fn default() -> (r: SeekPosition)
        ensures
            r == SeekPosition::TimeBase(0),
    {
        SeekPosition::TimeBase(0)
    }
}

} // verus!
