//! The display matrix: nine fixed-point numbers embedded in a stream that
//! say how its frames should be turned for display.

use vstd::prelude::*;
use crate::averror::{tag_value, tag_as_signed};

verus! {

/// Length in bytes of an embedded display matrix.
pub const DISPLAY_MATRIX_SIZE: usize = 36;

#[derive(Debug, Clone, Copy, PartialEq, Eq, Structural)]
pub enum MathError {
    /// The metadata blob did not hold exactly nine 32-bit numbers.
    InvalidSideDataSize(usize),
}

/// Which way a display matrix turns the picture. The angles are those of the
/// rotation component, in degrees, positive clockwise.
#[derive(Debug, Clone, Copy, PartialEq, Eq, Structural)]
pub enum Orientation {
    /// 0 degrees; also the answer for a singular matrix.
    Upright,
    /// 90 degrees.
    Quarter,
    /// -90 degrees.
    MinusQuarter,
    /// 180 degrees.
    Half,
    /// Any angle that is not a multiple of a right angle.
    Oblique,
}

impl Orientation {
    pub open spec fn degrees_spec(self) -> Option<i32> {
        match self {
            Orientation::Upright => Some(0i32),
            Orientation::Quarter => Some(90i32),
            Orientation::MinusQuarter => Some(-90i32),
            Orientation::Half => Some(180i32),
            Orientation::Oblique => None,
        }
    }

    /// The angle in degrees, for the right-angle orientations.
    pub fn degrees(&self) -> (r: Option<i32>)
        ensures
            r == self.degrees_spec(),
    {
        match self {
            Orientation::Upright => Some(0),
            Orientation::Quarter => Some(90),
            Orientation::MinusQuarter => Some(-90),
            Orientation::Half => Some(180),
            Orientation::Oblique => None,
        }
    }

    /// Whether the picture's width and height trade places.
    pub open spec fn swaps_axes(self) -> bool {
        self == Orientation::Quarter || self == Orientation::MinusQuarter
    }
}

/// A 3x3 transformation matrix, row-major:
/// ```text
/// | a b u |
/// | c d v |
/// | x y w |
/// ```
/// `a b c d x y` are 16.16 fixed-point numbers, `u v w` are 2.30.
#[derive(Debug, Clone, Copy, PartialEq, Eq)]
pub struct Matrix3x3 {
    pub data: [i32; 9],
}

/// The signed 32-bit little-endian number at word `k` of `bytes`.
pub open spec fn word_at(bytes: Seq<u8>, k: int) -> int {
    tag_as_signed(tag_value(bytes[4 * k], bytes[4 * k + 1], bytes[4 * k + 2], bytes[4 * k + 3]))
}

/// The angle of the rotation component of the matrix whose first two rows
/// begin `a b` and `c d`: `atan2(b / hypot(b, d), a / hypot(a, c))`,
/// classified. A singular matrix (a zero column) counts as upright.
pub open spec fn orientation_of(a: int, b: int, c: int, d: int) -> Orientation {
    if (a == 0 && c == 0) || (b == 0 && d == 0) {
        Orientation::Upright
    } else if b == 0 {
        if a < 0 {
            Orientation::Half
        } else {
            Orientation::Upright
        }
    } else if a == 0 {
        if b > 0 {
            Orientation::Quarter
        } else {
            Orientation::MinusQuarter
        }
    } else {
        Orientation::Oblique
    }
}

fn read_word(bytes: &[u8], k: usize) -> (r: i32)
    requires
        k < 9,
        4 * k + 3 < bytes@.len(),
    ensures
        r as int == word_at(bytes@, k as int),
{
    let i: usize = 4 * k;
    let t: u32 = bytes[i] as u32 + 256 * (bytes[i + 1] as u32) + 65536 * (bytes[i + 2] as u32)
        + 16777216 * (bytes[i + 3] as u32);
    if t < 0x8000_0000 {
        t as i32
    } else {
        (t as i64 - 0x1_0000_0000i64) as i32
    }
}

impl Matrix3x3 {
    pub open spec fn a(self) -> int {
        self.data@[0] as int
    }

    pub open spec fn b(self) -> int {
        self.data@[1] as int
    }

    pub open spec fn c(self) -> int {
        self.data@[3] as int
    }

    pub open spec fn d(self) -> int {
        self.data@[4] as int
    }

    pub open spec fn orientation(self) -> Orientation {
        orientation_of(self.a(), self.b(), self.c(), self.d())
    }

    /// Reads the matrix from its embedded form: nine signed 32-bit numbers,
    /// little-endian, row by row.
    pub fn from_side_data(side_data: &[u8]) -> (r: Result<Matrix3x3, MathError>)
        ensures
            side_data@.len() != DISPLAY_MATRIX_SIZE ==> r == Err::<Matrix3x3, MathError>(
                MathError::InvalidSideDataSize(side_data@.len() as usize),
            ),
            side_data@.len() == DISPLAY_MATRIX_SIZE ==> r is Ok && forall|k: int|
                0 <= k < 9 ==> #[trigger] r->Ok_0.data@[k] as int == word_at(side_data@, k),
    {
        if side_data.len() != DISPLAY_MATRIX_SIZE {
            return Err(MathError::InvalidSideDataSize(side_data.len()));
        }
        let data = [
            read_word(side_data, 0),
            read_word(side_data, 1),
            read_word(side_data, 2),
            read_word(side_data, 3),
            read_word(side_data, 4),
            read_word(side_data, 5),
            read_word(side_data, 6),
            read_word(side_data, 7),
            read_word(side_data, 8),
        ];
        Ok(Matrix3x3 { data })
    }

    /// The rotation by which the matrix turns the picture clockwise; upright
    /// for a singular matrix.
    pub fn rotation(&self) -> (r: Orientation)
        ensures
            r == self.orientation(),
    {
        let a = self.data[0];
        let b = self.data[1];
        let c = self.data[3];
        let d = self.data[4];
        if (a == 0 && c == 0) || (b == 0 && d == 0) {
            Orientation::Upright
        } else if b == 0 {
            if a < 0 {
                Orientation::Half
            } else {
                Orientation::Upright
            }
        } else if a == 0 {
            if b > 0 {
                Orientation::Quarter
            } else {
                Orientation::MinusQuarter
            }
        } else {
            Orientation::Oblique
        }
    }
}

} // verus!
