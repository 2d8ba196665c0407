//! Applying a display matrix to a frame: every pixel of every plane is moved
//! to where the projective transform sends it.
//!
//! The arithmetic is exact. With the matrix entries read as fixed-point
//! numbers (`a b c d` 16.16, `u v w` 2.30) and coordinates doubled so that the
//! centre of a plane falls on an integer, the destination column of a pixel is
//! `(a*p + c*q + x) / z` rounded toward zero, which becomes
//! `(A*P + C*Q + 2^16 * X) * 2^14 / (U*P + V*Q + 2*W)` in the raw entries.

use vstd::prelude::*;
use crate::error::RumpegError;
use crate::frame::{AVFrame, alloc_linesize, picture_size_ok, MAX_LINESIZE};
use crate::matrix::{Matrix3x3, Orientation};
use crate::pixel::layout_of;

verus! {

/// Division rounding toward zero.
pub open spec fn trunc_div(n: int, d: int) -> int {
    let q = abs(n) / abs(d);
    if (n < 0) == (d < 0) {
        q
    } else {
        -q
    }
}

pub open spec fn abs(n: int) -> int {
    if n < 0 {
        -n
    } else {
        n
    }
}

/// Where the pixel at offset `i` of a source plane (`src_stride` bytes per row,
/// `src_rows` rows) lands in a destination plane of the given shape, as a
/// linear offset `column + dst_stride * row`; `None` where the projective
/// divisor is zero.
pub open spec fn target_offset(
    m: Matrix3x3,
    src_stride: int,
    src_rows: int,
    dst_stride: int,
    dst_rows: int,
    i: int,
) -> Option<int> {
    let p = 2 * (i % src_stride) - (src_stride - 1);
    let q = 2 * (i / src_stride) - (src_rows - 1);
    let den = m.data@[2] * p + m.data@[5] * q + 2 * m.data@[8];
    if den == 0 {
        None
    } else {
        let dp = trunc_div(
            (m.data@[0] * p + m.data@[3] * q + 65536 * (dst_stride - 1)) * 16384,
            den,
        );
        let dq = trunc_div((m.data@[1] * p + m.data@[4] * q + 65536 * (dst_rows - 1)) * 16384, den);
        Some(dp + dst_stride * dq)
    }
}

/// The destination plane after the first `n` source pixels have been moved,
/// in order, into `init`; a pixel whose offset falls outside the plane is
/// dropped, and a later pixel overwrites an earlier one.
pub open spec fn remapped(
    m: Matrix3x3,
    src: Seq<u8>,
    src_stride: int,
    src_rows: int,
    init: Seq<u8>,
    dst_stride: int,
    dst_rows: int,
    n: nat,
) -> Seq<u8>
    decreases n,
{
    if n == 0 {
        init
    } else {
        let prev = remapped(m, src, src_stride, src_rows, init, dst_stride, dst_rows, (n - 1) as nat);
        match target_offset(m, src_stride, src_rows, dst_stride, dst_rows, n - 1) {
            Some(d) => if 0 <= d < prev.len() {
                prev.update(d, src[n - 1])
            } else {
                prev
            },
            None => prev,
        }
    }
}

/// A plane that the transform fills from `src`, starting from zeros.
pub open spec fn transformed_plane(
    m: Matrix3x3,
    src: Seq<u8>,
    src_stride: int,
    src_rows: int,
    dst_len: int,
    dst_stride: int,
    dst_rows: int,
) -> Seq<u8> {
    remapped(
        m,
        src,
        src_stride,
        src_rows,
        Seq::new(dst_len as nat, |k: int| 0u8),
        dst_stride,
        dst_rows,
        src.len(),
    )
}

proof fn lemma_remapped_len(
    m: Matrix3x3,
    src: Seq<u8>,
    src_stride: int,
    src_rows: int,
    init: Seq<u8>,
    dst_stride: int,
    dst_rows: int,
    n: nat,
)
    ensures
        remapped(m, src, src_stride, src_rows, init, dst_stride, dst_rows, n).len() == init.len(),
    decreases n,
{
    if n > 0 {
        lemma_remapped_len(m, src, src_stride, src_rows, init, dst_stride, dst_rows, (n - 1) as nat);
    }
}

pub(crate) proof fn lemma_mul_bound(x: int, y: int, bx: int, by: int)
    requires
        -bx <= x <= bx,
        -by <= y <= by,
    ensures
        -(bx * by) <= x * y <= bx * by,
{
    assert(-(bx * by) <= x * y <= bx * by) by (nonlinear_arith)
        requires
            -bx <= x <= bx,
            -by <= y <= by,
    ;
}

pub(crate) proof fn lemma_trunc_div_bound_pub(n: int, d: int)
    requires
        d != 0,
    ensures
        abs(trunc_div(n, d)) <= abs(n),
{
    assert(abs(n) / abs(d) <= abs(n)) by (nonlinear_arith)
        requires
            abs(d) >= 1,
            abs(n) >= 0,
    ;
    assert(abs(n) / abs(d) >= 0) by (nonlinear_arith)
        requires
            abs(d) >= 1,
            abs(n) >= 0,
    ;
}

pub(crate) fn trunc_div_exec(n: i128, d: i128) -> (r: i128)
    requires
        d != 0,
        -0x0100_0000_0000_0000_0000_0000_0000_0000 < n < 0x0100_0000_0000_0000_0000_0000_0000_0000,
        -0x0100_0000_0000_0000_0000_0000_0000_0000 < d < 0x0100_0000_0000_0000_0000_0000_0000_0000,
    ensures
        r == trunc_div(n as int, d as int),
{
    let nn: u128 = if n < 0 { (-n) as u128 } else { n as u128 };
    let dd: u128 = if d < 0 { (-d) as u128 } else { d as u128 };
    let q = nn / dd;
    proof {
        lemma_trunc_div_bound_pub(n as int, d as int);
    }
    if (n < 0) == (d < 0) {
        q as i128
    } else {
        -(q as i128)
    }
}

/// The executable counterpart of `target_offset`.
fn target_index(
    m: &Matrix3x3,
    src_stride: usize,
    src_rows: usize,
    dst_stride: usize,
    dst_rows: usize,
    i: usize,
) -> (r: Option<i128>)
    requires
        0 < src_stride < MAX_LINESIZE,
        src_rows < 0x1000_0000,
        i < src_stride * src_rows,
        dst_stride < MAX_LINESIZE,
        dst_rows < 0x1000_0000,
    ensures
        r matches Some(d) ==> target_offset(
            *m,
            src_stride as int,
            src_rows as int,
            dst_stride as int,
            dst_rows as int,
            i as int,
        ) == Some(d as int),
        r is None ==> target_offset(
            *m,
            src_stride as int,
            src_rows as int,
            dst_stride as int,
            dst_rows as int,
            i as int,
        ) is None,
{
    let col = i % src_stride;
    let row = i / src_stride;
    proof {
        assert(row < src_rows) by (nonlinear_arith)
            requires
                i < src_stride * src_rows,
                row == i / src_stride,
                src_stride > 0,
        ;
    }
    let p: i128 = 2 * (col as i128) - (src_stride as i128 - 1);
    let q: i128 = 2 * (row as i128) - (src_rows as i128 - 1);
    let a = m.data[0] as i128;
    let b = m.data[1] as i128;
    let u = m.data[2] as i128;
    let c = m.data[3] as i128;
    let d = m.data[4] as i128;
    let v = m.data[5] as i128;
    let w = m.data[8] as i128;
    let ghost lim: int = 0x8000_0000;
    proof {
        lemma_mul_bound(a as int, p as int, lim, 0x4000_0000);
        lemma_mul_bound(b as int, p as int, lim, 0x4000_0000);
        lemma_mul_bound(u as int, p as int, lim, 0x4000_0000);
        lemma_mul_bound(c as int, q as int, lim, 0x1000_0000);
        lemma_mul_bound(d as int, q as int, lim, 0x1000_0000);
        lemma_mul_bound(v as int, q as int, lim, 0x1000_0000);
    }
    let den = u * p + v * q + 2 * w;
    if den == 0 {
        return None;
    }
    let nx = (a * p + c * q + 65536 * (dst_stride as i128 - 1)) * 16384;
    let ny = (b * p + d * q + 65536 * (dst_rows as i128 - 1)) * 16384;
    let dp = trunc_div_exec(nx, den);
    let dq = trunc_div_exec(ny, den);
    proof {
        lemma_trunc_div_bound_pub(nx as int, den as int);
        lemma_trunc_div_bound_pub(ny as int, den as int);
        lemma_mul_bound(
            dst_stride as int,
            dq as int,
            0x4000_0000,
            0x1000_0000_0000_0000_0000,
        );
    }
    Some(dp + (dst_stride as i128) * dq)
}

/// Moves the pixels of `src` into `dst` as the matrix says.
fn remap_plane(
    m: &Matrix3x3,
    src: &Vec<u8>,
    src_stride: usize,
    src_rows: usize,
    dst: &mut Vec<u8>,
    dst_stride: usize,
    dst_rows: usize,
)
    requires
        src@.len() == src_stride * src_rows,
        src_stride < MAX_LINESIZE,
        src_rows < 0x1000_0000,
        dst_stride < MAX_LINESIZE,
        dst_rows < 0x1000_0000,
    ensures
        final(dst)@ == remapped(
            *m,
            src@,
            src_stride as int,
            src_rows as int,
            old(dst)@,
            dst_stride as int,
            dst_rows as int,
            src@.len(),
        ),
{
    let ghost init = dst@;
    let n = src.len();
    let mut i: usize = 0;
    while i < n
        invariant
            i <= n,
            n == src@.len(),
            src@.len() == src_stride * src_rows,
            src_stride < MAX_LINESIZE,
            src_rows < 0x1000_0000,
            dst_stride < MAX_LINESIZE,
            dst_rows < 0x1000_0000,
            dst@.len() == init.len(),
            dst@ == remapped(
                *m,
                src@,
                src_stride as int,
                src_rows as int,
                init,
                dst_stride as int,
                dst_rows as int,
                i as nat,
            ),
        decreases n - i,
    {
        proof {
            if src_stride == 0 {
                assert(src_stride * src_rows == 0);
            }
        }
        let t = target_index(m, src_stride, src_rows, dst_stride, dst_rows, i);
        match t {
            Some(d) => {
                if 0 <= d && d < dst.len() as i128 {
                    dst.set(d as usize, src[i]);
                }
            },
            None => {},
        }
        i += 1;
    }
}

/// How a non-upright matrix `m` turns `before` into `after`: same format and
/// presentation time, width and height swapped for a quarter turn, fresh row
/// lengths, and each plane filled by `transformed_plane`.
pub open spec fn transform_result(before: AVFrame, m: Matrix3x3, after: AVFrame) -> bool {
    let (w, h) = if m.orientation().swaps_axes() {
        (before.height, before.width)
    } else {
        (before.width, before.height)
    };
    &&& after.wf()
    &&& after.format == before.format
    &&& after.width == w
    &&& after.height == h
    &&& after.pts == before.pts
    &&& forall|p: int|
        0 <= p < 3 ==> #[trigger] after.linesize@[p] as int == alloc_linesize(
            layout_of(before.format).unwrap(),
            w as int,
        )[p]
    &&& forall|p: int|
        0 <= p < 3 ==> #[trigger] after.plane(p) == transformed_plane(
            m,
            before.plane(p),
            before.linesize@[p] as int,
            before.plane_rows(p),
            after.plane(p).len() as int,
            after.linesize@[p] as int,
            after.plane_rows(p),
        )
}

impl AVFrame {
    /// Applies a display matrix. An upright matrix leaves the frame as it is.
    /// Otherwise the frame is replaced by a fresh one of the same format, with
    /// width and height swapped for a quarter turn, into which every pixel of
    /// every plane is moved (see `transformed_plane`); pixels that land outside
    /// a plane are dropped and places that no pixel reaches stay zero. Fails
    /// where the fresh frame cannot be allocated.
    pub fn transform(&mut self, transform: &Matrix3x3) -> (r: Result<(), RumpegError>)
        requires
            old(self).wf(),
        ensures
            transform.orientation() == Orientation::Upright ==> r is Ok && *final(self) == *old(
                self,
            ),
            transform.orientation() != Orientation::Upright ==> {
                let (w, h) = if transform.orientation().swaps_axes() {
                    (old(self).height, old(self).width)
                } else {
                    (old(self).width, old(self).height)
                };
                &&& (r is Ok) <==> (picture_size_ok(w as int, h as int) && layout_of(
                    old(self).format,
                ) is Some)
                &&& r is Err ==> r == Err::<(), RumpegError>(RumpegError::AVFrameCreation)
                    && *final(self) == *old(self)
                &&& r is Ok ==> transform_result(*old(self), *transform, *final(self))
            },
    {
        let rotation = transform.rotation();
        if let Orientation::Upright = rotation {
            return Ok(());
        }
        let (dst_width, dst_height) = match rotation {
            Orientation::Quarter | Orientation::MinusQuarter => (self.height, self.width),
            _ => (self.width, self.height),
        };
        let mut dest = match AVFrame::new(self.format, dst_width, dst_height) {
            Ok(f) => f,
            Err(e) => return Err(e),
        };
        let mut planes: Vec<Vec<u8>> = Vec::new();
        let mut plane: usize = 0;
        while plane < 3
            invariant
                self.wf(),
                dest.wf(),
                plane <= 3,
                planes@.len() == plane,
                forall|p: int|
                    0 <= p < plane ==> #[trigger] planes@[p]@ == transformed_plane(
                        *transform,
                        self.plane(p),
                        self.linesize@[p] as int,
                        self.plane_rows(p),
                        dest.plane(p).len() as int,
                        dest.linesize@[p] as int,
                        dest.plane_rows(p),
                    ),
            decreases 3 - plane,
        {
            proof {
                crate::frame::lemma_wf_plane(self, plane as int);
                crate::frame::lemma_wf_plane(&dest, plane as int);
            }
            let src_rows = self.plane_height(plane) as usize;
            let dst_rows = dest.plane_height(plane) as usize;
            let src_stride = self.linesize[plane];
            let dst_stride = dest.linesize[plane];
            let src = self.data(plane);
            let mut out = crate::frame::zeroed(dest.size(plane));
            assert(out@ == Seq::new(dest.plane(plane as int).len(), |k: int| 0u8));
            remap_plane(transform, src, src_stride, src_rows, &mut out, dst_stride, dst_rows);
            proof {
                lemma_remapped_len(
                    *transform,
                    src@,
                    src_stride as int,
                    src_rows as int,
                    Seq::new(dest.plane(plane as int).len(), |k: int| 0u8),
                    dst_stride as int,
                    dst_rows as int,
                    src@.len(),
                );
            }
            planes.push(out);
            plane += 1;
        }
        let ghost fresh = dest;
        dest.planes = planes;
        dest.pts = self.pts;
        assert(dest.linesize == fresh.linesize);
        assert forall|p: int| 0 <= p < 3 implies #[trigger] dest.linesize@[p] < MAX_LINESIZE by {
            crate::frame::lemma_wf_plane(&fresh, p);
        }
        assert forall|p: int| 0 <= p < 3 implies #[trigger] dest.plane(p).len() == dest.linesize@[p]
            * dest.plane_rows(p) && dest.linesize@[p] < MAX_LINESIZE by {
            crate::frame::lemma_wf_plane(&fresh, p);
            assert(fresh.plane_rows(p) == dest.plane_rows(p));
            lemma_remapped_len(
                *transform,
                self.plane(p),
                self.linesize@[p] as int,
                self.plane_rows(p),
                Seq::new(fresh.plane(p).len(), |k: int| 0u8),
                fresh.linesize@[p] as int,
                fresh.plane_rows(p),
                self.plane(p).len(),
            );
        }
        assert(dest.wf());
        assert(forall|p: int|
            0 <= p < 3 ==> #[trigger] dest.plane(p) == transformed_plane(
                *transform,
                self.plane(p),
                self.linesize@[p] as int,
                self.plane_rows(p),
                dest.plane(p).len() as int,
                dest.linesize@[p] as int,
                dest.plane_rows(p),
            ));
        *self = dest;
        Ok(())
    }
}

} // verus!
