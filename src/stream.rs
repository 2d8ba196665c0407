//! The selected video stream: its time base, duration, frame rate and
//! metadata, and the conversion of positions into native ticks.

use vstd::prelude::*;
use crate::matrix::{Matrix3x3, MathError, DISPLAY_MATRIX_SIZE, word_at};
use crate::timespec::{Fraction, SeekPosition};

verus! {

/// A rational number `num / den`.
#[derive(Debug, Clone, Copy, PartialEq, Eq, Structural)]
pub struct Rational {
    pub num: i32,
    pub den: i32,
}

impl Rational {
    pub open spec fn positive(self) -> bool {
        0 < self.num && 0 < self.den
    }
}

/// One item of a stream's metadata: whether it is the display matrix, and its bytes.
#[derive(Debug, Clone)]
pub struct SideData {
    pub display_matrix: bool,
    pub data: Vec<u8>,
}

/// The video stream of an opened container.
#[derive(Debug, Clone)]
pub struct AVStream {
    /// The stream's index in the container.
    pub index: i32,
    /// Seconds per tick.
    pub time_base: Rational,
    /// The stream's length in ticks.
    pub duration: i64,
    /// The base frame rate, frames per second; zero where unknown.
    pub r_frame_rate: Rational,
    pub side_data: Vec<SideData>,
}

/// `a * b / c` rounded to the nearest integer, halves away from zero.
pub open spec fn rescale(a: int, b: int, c: int) -> int {
    if a >= 0 {
        (a * b + c / 2) / c
    } else {
        -((-a * b + c / 2) / c)
    }
}

pub open spec fn clamp_i64(v: int) -> i64 {
    if v < i64::MIN {
        i64::MIN
    } else if v > i64::MAX {
        i64::MAX
    } else {
        v as i64
    }
}

/// `d * f` rounded toward zero.
pub open spec fn share_of(d: int, f: Fraction) -> int {
    if d >= 0 {
        d * f.num / (f.den as int)
    } else {
        -((-d) * f.num / (f.den as int))
    }
}

/// The index of the frame that holds tick `n >= 0`.
pub open spec fn frame_index(n: int, tb: Rational, fr: Rational) -> int {
    n * tb.num * fr.num / (tb.den * fr.den)
}

/// The first tick of frame `k`, rounded down.
pub open spec fn frame_start(k: int, tb: Rational, fr: Rational) -> int {
    k * (tb.den * fr.den) / (tb.num * fr.num)
}

/// Tick `n` moved toward zero to the start of its frame; unchanged where the
/// frame rate is unknown.
pub open spec fn frame_aligned(n: int, tb: Rational, fr: Rational) -> int {
    if !fr.positive() {
        n
    } else if n >= 0 {
        frame_start(frame_index(n, tb, fr), tb, fr)
    } else {
        -frame_start(frame_index(-n, tb, fr), tb, fr)
    }
}

/// The index of the first display-matrix item at or after `i`, or the length.
pub open spec fn first_matrix_from(s: Seq<SideData>, i: int) -> int
    decreases s.len() - i,
{
    if i >= s.len() {
        s.len() as int
    } else if s[i].display_matrix {
        i
    } else {
        first_matrix_from(s, i + 1)
    }
}

/// Whether a position can be converted: a percentage must lie between 0 and 1.
pub open spec fn position_ok(p: SeekPosition) -> bool {
    p matches SeekPosition::Percentage(f) ==> f.valid()
}

/// Whether `r` is the display matrix that the metadata `s` gives: read from
/// the first item marked as one, if that item holds exactly 36 bytes; none
/// otherwise.
pub open spec fn is_display_matrix_of(s: Seq<SideData>, r: Option<Matrix3x3>) -> bool {
    let i = first_matrix_from(s, 0);
    if i < s.len() && s[i].data@.len() == DISPLAY_MATRIX_SIZE {
        r is Some && forall|k: int|
            0 <= k < 9 ==> #[trigger] r->Some_0.data@[k] as int == word_at(s[i].data@, k)
    } else {
        r is None
    }
}

impl AVStream {
    pub open spec fn wf(&self) -> bool {
        self.time_base.positive()
    }

    /// Where `position` falls, in native ticks.
    pub open spec fn ticks(&self, position: SeekPosition) -> i64 {
        let tb = self.time_base;
        match position {
            SeekPosition::Seconds(n) => clamp_i64(rescale(n as int, tb.den as int, tb.num as int)),
            SeekPosition::Milliseconds(n) => clamp_i64(
                rescale(n as int, tb.den as int, 1000 * tb.num),
            ),
            SeekPosition::Percentage(f) => frame_aligned(
                share_of(self.duration as int, f),
                tb,
                self.r_frame_rate,
            ) as i64,
            SeekPosition::TimeBase(n) => n,
        }
    }

    /// Converts a position to native ticks: seconds and milliseconds are
    /// rescaled by the time base (to the nearest tick, saturating at the
    /// ends of the 64-bit range); a percentage is taken of the duration and
    /// moved toward zero to the first tick of its frame; ticks pass unchanged.
    pub fn as_time_base(&self, position: SeekPosition) -> (r: i64)
        requires
            self.wf(),
            position_ok(position),
        ensures
            r == self.ticks(position),
    {
        match position {
            SeekPosition::Seconds(n) => rescale_exec(n, self.time_base.den as u64, self.time_base.num as u64),
            SeekPosition::Milliseconds(n) => rescale_exec(
                n,
                self.time_base.den as u64,
                1000 * (self.time_base.num as u64),
            ),
            SeekPosition::Percentage(f) => {
                let raw = share_exec(self.duration, f);
                align_exec(raw, self.time_base, self.r_frame_rate)
            },
            SeekPosition::TimeBase(n) => n,
        }
    }

    /// The stream's duration in milliseconds, to the nearest millisecond.
    pub open spec fn duration_millis_spec(&self) -> i64 {
        clamp_i64(rescale(self.duration as int, 1000 * self.time_base.num, self.time_base.den as int))
    }

    pub fn duration_millis(&self) -> (r: i64)
        requires
            self.wf(),
        ensures
            r == self.duration_millis_spec(),
    {
        rescale_exec(self.duration, 1000 * (self.time_base.num as u64), self.time_base.den as u64)
    }

    /// The stream's display matrix: the first metadata item marked as one,
    /// read with `Matrix3x3::from_side_data`. A missing or malformed matrix
    /// gives `None`.
    pub fn display_matrix(&self) -> (r: Option<Matrix3x3>)
        ensures
            is_display_matrix_of(self.side_data@, r),
    {
        let n = self.side_data.len();
        let mut i: usize = 0;
        while i < n
            invariant
                i <= n == self.side_data@.len(),
                first_matrix_from(self.side_data@, 0) == first_matrix_from(self.side_data@, i as int),
            decreases n - i,
        {
            if self.side_data[i].display_matrix {
                return match Matrix3x3::from_side_data(self.side_data[i].data.as_slice()) {
                    Ok(m) => Some(m),
                    Err(MathError::InvalidSideDataSize(_)) => None,
                };
            }
            i += 1;
        }
        None
    }
}

pub(crate) fn rescale_exec(a: i64, b: u64, c: u64) -> (r: i64)
    requires
        0 < b <= 1000 * (i32::MAX as int),
        0 < c <= 1000 * (i32::MAX as int),
    ensures
        r == clamp_i64(rescale(a as int, b as int, c as int)),
{
    let neg = a < 0;
    let m: u128 = if neg { (-(a as i128)) as u128 } else { a as u128 };
    assert(m * b <= 0x8000_0000_0000_0000 * (1000 * 0x7fff_ffff)) by (nonlinear_arith)
        requires
            m <= 0x8000_0000_0000_0000,
            b <= 1000 * 0x7fff_ffff,
    ;
    let q: u128 = (m * (b as u128) + (c as u128) / 2) / (c as u128);
    if neg {
        if q > 0x8000_0000_0000_0000 {
            i64::MIN
        } else {
            (-(q as i128)) as i64
        }
    } else {
        if q > 0x7fff_ffff_ffff_ffff {
            i64::MAX
        } else {
            q as i64
        }
    }
}

fn share_exec(d: i64, f: Fraction) -> (r: i64)
    requires
        f.valid(),
    ensures
        r as int == share_of(d as int, f),
{
    let neg = d < 0;
    let m: u128 = if neg { (-(d as i128)) as u128 } else { d as u128 };
    assert(m * f.num <= m * f.den) by (nonlinear_arith)
        requires
            f.num <= f.den,
    ;
    assert(m * f.den <= 0x8000_0000_0000_0000 * 0xffff_ffff_ffff_ffff) by (nonlinear_arith)
        requires
            m <= 0x8000_0000_0000_0000,
            f.den <= 0xffff_ffff_ffff_ffff,
    ;
    let q: u128 = m * (f.num as u128) / (f.den as u128);
    assert(q <= m) by (nonlinear_arith)
        requires
            q == m * f.num / (f.den as int),
            f.num <= f.den,
            0 < f.den,
    ;
    if neg {
        (-(q as i128)) as i64
    } else {
        q as i64
    }
}

proof fn lemma_floor_mul_le(x: int, y: int)
    requires
        0 <= x,
        0 < y,
    ensures
        (x / y) * y <= x,
        0 <= x / y,
{
    assert((x / y) * y <= x) by (nonlinear_arith)
        requires
            0 <= x,
            0 < y,
    ;
    assert(0 <= x / y) by (nonlinear_arith)
        requires
            0 <= x,
            0 < y,
    ;
}

fn align_magnitude(n: u128, tb: Rational, fr: Rational) -> (r: u128)
    requires
        n <= 0x8000_0000_0000_0000,
        tb.positive(),
        fr.positive(),
    ensures
        r == frame_start(frame_index(n as int, tb, fr), tb, fr),
        r <= n,
{
    let tn = tb.num as u128;
    let td = tb.den as u128;
    let fnum = fr.num as u128;
    let fden = fr.den as u128;
    assert(tn * fnum <= 0x7fff_ffff * 0x7fff_ffff && td * fden <= 0x7fff_ffff * 0x7fff_ffff
        && 0 < tn * fnum && 0 < td * fden) by (nonlinear_arith)
        requires
            0 < tn <= 0x7fff_ffff,
            0 < fnum <= 0x7fff_ffff,
            0 < td <= 0x7fff_ffff,
            0 < fden <= 0x7fff_ffff,
    ;
    let up = tn * fnum;
    let down = td * fden;
    assert(n * up <= 0x8000_0000_0000_0000 * (0x7fff_ffff * 0x7fff_ffff)) by (nonlinear_arith)
        requires
            n <= 0x8000_0000_0000_0000,
            up <= 0x7fff_ffff * 0x7fff_ffff,
    ;
    let k = n * up / down;
    proof {
        lemma_floor_mul_le((n * up) as int, down as int);
    }
    let t = k * down / up;
    proof {
        lemma_floor_mul_le((k * down) as int, up as int);
        assert((k * down) / (up as int) <= n) by (nonlinear_arith)
            requires
                k * down <= n * up,
                0 < up,
                0 <= n,
        ;
        assert(n * tb.num * fr.num == n * up) by (nonlinear_arith)
            requires
                up == tn * fnum,
                tn == tb.num,
                fnum == fr.num,
        ;
        assert(k * (tb.den * fr.den) == k * down) by (nonlinear_arith)
            requires
                down == td * fden,
                td == tb.den,
                fden == fr.den,
        ;
    }
    t
}

fn align_exec(n: i64, tb: Rational, fr: Rational) -> (r: i64)
    requires
        tb.positive(),
    ensures
        r as int == frame_aligned(n as int, tb, fr),
{
    if fr.num <= 0 || fr.den <= 0 {
        return n;
    }
    if n >= 0 {
        align_magnitude(n as u128, tb, fr) as i64
    } else {
        let m = align_magnitude((-(n as i128)) as u128, tb, fr);
        (-(m as i128)) as i64
    }
}

/// A share of a stream's duration never lies beyond the duration, and it is
/// the first tick of some frame: for a stream with a known, non-negative
/// duration and a known frame rate, converting a percentage between 0 and 100
/// gives a tick between 0 and the duration that starts frame `k` for some `k`.
pub proof fn lemma_percentage_within_duration(s: &AVStream, f: Fraction)
    requires
        s.wf(),
        s.duration >= 0,
        s.r_frame_rate.positive(),
        f.valid(),
    ensures
        0 <= s.ticks(SeekPosition::Percentage(f)) <= s.duration,
        exists|k: int|
            0 <= k && #[trigger] frame_start(k, s.time_base, s.r_frame_rate) == s.ticks(
                SeekPosition::Percentage(f),
            ),
{
    let d = s.duration as int;
    let tb = s.time_base;
    let fr = s.r_frame_rate;
    let n = share_of(d, f);
    assert(0 <= d * f.num <= d * f.den) by (nonlinear_arith)
        requires
            0 <= d,
            f.num <= f.den,
    ;
    assert(0 <= n <= d) by (nonlinear_arith)
        requires
            n == d * f.num / (f.den as int),
            0 <= d * f.num <= d * f.den,
            0 < f.den,
    ;
    let up = tb.num * fr.num;
    let down = tb.den * fr.den;
    assert(0 < up && 0 < down) by (nonlinear_arith)
        requires
            0 < tb.num,
            0 < tb.den,
            0 < fr.num,
            0 < fr.den,
            up == tb.num * fr.num,
            down == tb.den * fr.den,
    ;
    let k = frame_index(n, tb, fr);
    assert(k == (n * up) / down) by (nonlinear_arith)
        requires
            k == n * tb.num * fr.num / (tb.den * fr.den),
            up == tb.num * fr.num,
            down == tb.den * fr.den,
    ;
    assert(0 <= n * up) by (nonlinear_arith)
        requires
            0 <= n,
            0 < up,
    ;
    lemma_floor_mul_le(n * up, down);
    lemma_floor_mul_le(k * down, up);
    assert(0 <= k * down) by (nonlinear_arith)
        requires
            0 <= k,
            0 < down,
    ;
    assert((k * down) / up <= n) by (nonlinear_arith)
        requires
            k * down <= n * up,
            0 < up,
            0 <= n,
    ;
    assert(0 <= (k * down) / up) by (nonlinear_arith)
        requires
            0 <= k * down,
            0 < up,
    ;
    assert(frame_start(k, tb, fr) == (k * down) / up);
    assert(frame_aligned(n, tb, fr) == frame_start(k, tb, fr));
}

} // verus!
