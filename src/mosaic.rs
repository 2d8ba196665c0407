//! Mosaics: many sampled frames tiled into one picture, eight tiles to a row,
//! laid out so that the picture reads left to right and top to bottom once
//! its display matrix is applied.

use vstd::prelude::*;
use crate::display::{trunc_div, transform_result};
use crate::error::{RumpegError, VideoError};
use crate::frame::{AVFrame, picture_size_ok, MAX_LINESIZE};
use crate::matrix::{Matrix3x3, Orientation};
use crate::pixel::{PixelFormat, layout_of};

verus! {

/// The most tiles in one row of a mosaic.
pub const MAX_FILM_WIDTH: i64 = 8;

/// The value that chroma planes of an empty cell hold: neutral grey.
pub const NEUTRAL_CHROMA: u8 = 128;

/// `ceil(n / d)` for `d > 0`.
pub open spec fn ceil_div(n: int, d: int) -> int {
    if n >= 0 {
        (n + d - 1) / d
    } else {
        -((-n) / d)
    }
}

/// The shape of a mosaic: how many tiles, the size of one tile, the grid
/// (before any swap) and how the finished picture will be turned.
#[derive(Debug, Clone, Copy, PartialEq, Eq, Structural)]
pub struct MosaicLayout {
    pub tile_count: i64,
    pub tile_width: i32,
    pub tile_height: i32,
    /// Tiles per row, before a quarter turn swaps rows and columns.
    pub columns: i64,
    /// Rows of tiles, before a quarter turn swaps rows and columns.
    pub rows: i64,
    pub orientation: Orientation,
}

impl MosaicLayout {
    pub open spec fn wf(self) -> bool {
        &&& 1 <= self.tile_count
        &&& self.columns == if self.tile_count < MAX_FILM_WIDTH {
            self.tile_count
        } else {
            MAX_FILM_WIDTH
        }
        &&& self.rows == ceil_div(self.tile_count as int, MAX_FILM_WIDTH as int)
    }

    /// Tiles across the picture, after the swap for a quarter turn.
    pub open spec fn grid_columns(self) -> int {
        if self.orientation.swaps_axes() {
            self.rows as int
        } else {
            self.columns as int
        }
    }

    /// Tiles down the picture, after the swap for a quarter turn.
    pub open spec fn grid_rows(self) -> int {
        if self.orientation.swaps_axes() {
            self.columns as int
        } else {
            self.rows as int
        }
    }

    /// The grid cell `(x, y)` of tile `k`: in reading order, transposed for a
    /// quarter turn.
    pub open spec fn cell(self, k: int) -> (int, int) {
        let c = k % (self.columns as int);
        let r = k / (self.columns as int);
        if self.orientation.swaps_axes() {
            (r, c)
        } else {
            (c, r)
        }
    }

    /// Where row 0 of a tile's plane starts in the mosaic's plane. `fs` is the
    /// tile plane's row length, `fh2` twice its height in rows (chroma planes
    /// count half the luma height), `film_stride` and `film_rows` the shape of
    /// the mosaic's plane. Cells are counted from the right for a half turn or
    /// a minus-quarter turn and from the bottom for a half turn or a quarter turn.
    pub open spec fn tile_start(self, k: int, fs: int, fh2: int, film_stride: int, film_rows: int) -> int {
        let (tx, ty) = self.cell(k);
        let x = if self.orientation == Orientation::Half || self.orientation
            == Orientation::MinusQuarter {
            film_stride - tx * fs - fs
        } else {
            tx * fs
        };
        let y = if self.orientation == Orientation::Half || self.orientation
            == Orientation::Quarter {
            trunc_div(2 * film_rows - (ty + 1) * fh2, 2)
        } else {
            trunc_div(ty * fh2, 2)
        };
        x + film_stride * y
    }
}

/// `s` with `t` written over it from `at`.
pub open spec fn splice(s: Seq<u8>, at: int, t: Seq<u8>) -> Seq<u8> {
    s.subrange(0, at) + t + s.subrange(at + t.len(), s.len() as int)
}

/// `film` after the first `n` rows of `src` (rows of `fs` bytes) have been
/// copied to `start`, `start + film_stride`, ...; a row that would not lie
/// wholly inside `film`, or that `src` does not hold, is skipped.
pub open spec fn paste_rows(
    film: Seq<u8>,
    src: Seq<u8>,
    start: int,
    fs: int,
    film_stride: int,
    n: nat,
) -> Seq<u8>
    decreases n,
{
    if n == 0 {
        film
    } else {
        let prev = paste_rows(film, src, start, fs, film_stride, (n - 1) as nat);
        let y = n - 1;
        let at = start + film_stride * y;
        if 0 <= fs && 0 <= at && at + fs <= prev.len() && (y + 1) * fs <= src.len() {
            splice(prev, at, src.subrange(y * fs, y * fs + fs))
        } else {
            prev
        }
    }
}

/// Twice the number of rows that plane `p` of a tile contributes.
pub open spec fn doubled_rows(tile: AVFrame, p: int) -> int {
    if p == 0 {
        2 * tile.height
    } else {
        tile.height as int
    }
}

/// Plane `p` of the mosaic after the first `n` tiles have been pasted into `film`.
pub open spec fn tiled_plane(
    l: MosaicLayout,
    film: Seq<u8>,
    film_stride: int,
    film_rows: int,
    tiles: Seq<AVFrame>,
    p: int,
    n: nat,
) -> Seq<u8>
    decreases n,
{
    if n == 0 {
        film
    } else {
        let prev = tiled_plane(l, film, film_stride, film_rows, tiles, p, (n - 1) as nat);
        let t = tiles[n - 1];
        let fs = t.linesize@[p] as int;
        let fh2 = doubled_rows(t, p);
        paste_rows(
            prev,
            t.plane(p),
            l.tile_start(n - 1, fs, fh2, film_stride, film_rows),
            fs,
            film_stride,
            (fh2 / 2) as nat,
        )
    }
}

proof fn lemma_paste_rows_len(film: Seq<u8>, src: Seq<u8>, start: int, fs: int, film_stride: int, n: nat)
    ensures
        paste_rows(film, src, start, fs, film_stride, n).len() == film.len(),
    decreases n,
{
    if n > 0 {
        lemma_paste_rows_len(film, src, start, fs, film_stride, (n - 1) as nat);
        let y = n - 1;
        if 0 <= fs {
            assert(0 <= y * fs && (y + 1) * fs == y * fs + fs) by (nonlinear_arith)
                requires
                    0 <= fs,
                    0 <= y,
            ;
        }
    }
}

proof fn lemma_tiled_plane_len(
    l: MosaicLayout,
    film: Seq<u8>,
    film_stride: int,
    film_rows: int,
    tiles: Seq<AVFrame>,
    p: int,
    n: nat,
)
    ensures
        tiled_plane(l, film, film_stride, film_rows, tiles, p, n).len() == film.len(),
    decreases n,
{
    if n > 0 {
        lemma_tiled_plane_len(l, film, film_stride, film_rows, tiles, p, (n - 1) as nat);
        let prev = tiled_plane(l, film, film_stride, film_rows, tiles, p, (n - 1) as nat);
        let t = tiles[n - 1];
        let fs = t.linesize@[p] as int;
        let fh2 = doubled_rows(t, p);
        lemma_paste_rows_len(
            prev,
            t.plane(p),
            l.tile_start(n - 1, fs, fh2, film_stride, film_rows),
            fs,
            film_stride,
            (fh2 / 2) as nat,
        );
    }
}

/// Copies `len` bytes of `src` from `from` into `film` at `at`.
fn copy_row(film: &mut Vec<u8>, at: usize, src: &Vec<u8>, from: usize, len: usize)
    requires
        at + len <= old(film)@.len(),
        from + len <= src@.len(),
    ensures
        final(film)@ == splice(old(film)@, at as int, src@.subrange(from as int, from + len)),
{
    let ghost init = film@;
    let n = film.len();
    let m = src.len();
    let mut i: usize = 0;
    while i < len
        invariant
            i <= len,
            at + len <= init.len(),
            from + len <= src@.len(),
            n == init.len(),
            m == src@.len(),
            film@.len() == init.len(),
            forall|j: int| 0 <= j < at || at + len <= j < init.len() ==> #[trigger] film@[j] == init[j],
            forall|j: int| at <= j < at + i ==> #[trigger] film@[j] == src@[from + j - at],
            forall|j: int| at + i <= j < at + len ==> #[trigger] film@[j] == init[j],
        decreases len - i,
    {
        film.set(at + i, src[from + i]);
        i += 1;
    }
    assert(film@ =~= splice(init, at as int, src@.subrange(from as int, from + len)));
}

/// A vector of `n` bytes, each `value`.
fn filled(n: usize, value: u8) -> (r: Vec<u8>)
    ensures
        r@ == Seq::new(n as nat, |k: int| value),
{
    let mut v: Vec<u8> = Vec::with_capacity(n);
    let mut i: usize = 0;
    while i < n
        invariant
            i <= n,
            v@ == Seq::new(i as nat, |k: int| value),
        decreases n - i,
    {
        v.push(value);
        i += 1;
        assert(v@ =~= Seq::new(i as nat, |k: int| value));
    }
    v
}

/// Bytes of one cell of a tile: `tx * fs`, within the bounds a well-formed
/// frame and a vector's index allow.
proof fn lemma_start_bounds(tx: int, ty: int, fs: int, fh2: int, film_stride: int, film_rows: int)
    requires
        0 <= tx < 0x1_0000_0000_0000_0000,
        0 <= ty < 0x1_0000_0000_0000_0000,
        0 <= fs < 0x4000_0000,
        0 <= fh2 < 0x4000_0000,
        0 <= film_stride < 0x4000_0000,
        0 <= film_rows < 0x1000_0000,
    ensures
        0 <= tx * fs <= 0x1_0000_0000_0000_0000 * 0x4000_0000,
        0 <= ty * fh2 <= 0x1_0000_0000_0000_0000 * 0x4000_0000,
        0 <= (ty + 1) * fh2 <= 0x1_0000_0000_0000_0001 * 0x4000_0000,
{
    crate::display::lemma_mul_bound(tx, fs, 0x1_0000_0000_0000_0000, 0x4000_0000);
    crate::display::lemma_mul_bound(ty, fh2, 0x1_0000_0000_0000_0000, 0x4000_0000);
    crate::display::lemma_mul_bound(ty + 1, fh2, 0x1_0000_0000_0000_0001, 0x4000_0000);
    assert(0 <= tx * fs && 0 <= ty * fh2 && 0 <= (ty + 1) * fh2) by (nonlinear_arith)
        requires
            0 <= tx,
            0 <= ty,
            0 <= fs,
            0 <= fh2,
    ;
}

impl MosaicLayout {
    /// The executable counterpart of `tile_start`.
    fn tile_start_exec(&self, k: usize, fs: usize, fh2: usize, film_stride: usize, film_rows: usize) -> (r: i128)
        requires
            self.columns >= 1,
            fs < MAX_LINESIZE,
            fh2 < 0x4000_0000,
            film_stride < MAX_LINESIZE,
            film_rows < 0x1000_0000,
        ensures
            r == self.tile_start(k as int, fs as int, fh2 as int, film_stride as int, film_rows as int),
            -0x4000_0000_0000_0000_0000_0000_0000_0000 < r < 0x4000_0000_0000_0000_0000_0000_0000_0000,
    {
        let c = ((k as u128) % (self.columns as u128)) as i128;
        let rr = ((k as u128) / (self.columns as u128)) as i128;
        let (tx, ty) = match self.orientation {
            Orientation::Quarter | Orientation::MinusQuarter => (rr, c),
            _ => (c, rr),
        };
        proof {
            assert(c <= k && rr <= k) by (nonlinear_arith)
                requires
                    c == (k as int) % (self.columns as int),
                    rr == (k as int) / (self.columns as int),
                    self.columns >= 1,
                    0 <= k,
            ;
            lemma_start_bounds(tx as int, ty as int, fs as int, fh2 as int, film_stride as int, film_rows as int);
        }
        let fs = fs as i128;
        let fh2 = fh2 as i128;
        let film_stride = film_stride as i128;
        let film_rows = film_rows as i128;
        let x = match self.orientation {
            Orientation::Half | Orientation::MinusQuarter => film_stride - tx * fs - fs,
            _ => tx * fs,
        };
        let y = match self.orientation {
            Orientation::Half | Orientation::Quarter => crate::display::trunc_div_exec(
                2 * film_rows - (ty + 1) * fh2,
                2,
            ),
            _ => crate::display::trunc_div_exec(ty * fh2, 2),
        };
        proof {
            crate::display::lemma_trunc_div_bound_pub(2 * film_rows - (ty + 1) * fh2, 2);
            crate::display::lemma_trunc_div_bound_pub(ty * fh2, 2);
            crate::display::lemma_mul_bound(
                film_stride as int,
                y as int,
                0x4000_0000,
                0x8000_0000_0000_0000_0000_0000,
            );
        }
        x + film_stride * y
    }
}

/// Copies the rows of one tile plane into the mosaic plane: see `paste_rows`.
fn paste_plane(film: &mut Vec<u8>, src: &Vec<u8>, start: i128, fs: usize, film_stride: usize, nrows: usize)
    requires
        fs < MAX_LINESIZE,
        film_stride < MAX_LINESIZE,
        nrows < 0x1000_0000,
        -0x4000_0000_0000_0000_0000_0000_0000_0000 < start < 0x4000_0000_0000_0000_0000_0000_0000_0000,
    ensures
        final(film)@ == paste_rows(old(film)@, src@, start as int, fs as int, film_stride as int, nrows as nat),
{
    let ghost init = film@;
    let mut y: usize = 0;
    while y < nrows
        invariant
            y <= nrows < 0x1000_0000,
            fs < MAX_LINESIZE,
            film_stride < MAX_LINESIZE,
            -0x4000_0000_0000_0000_0000_0000_0000_0000 < start < 0x4000_0000_0000_0000_0000_0000_0000_0000,
            film@ == paste_rows(init, src@, start as int, fs as int, film_stride as int, y as nat),
        decreases nrows - y,
    {
        proof {
            crate::display::lemma_mul_bound(film_stride as int, y as int, 0x4000_0000, 0x1000_0000);
            crate::display::lemma_mul_bound(fs as int, (y + 1) as int, 0x4000_0000, 0x1000_0000);
            lemma_paste_rows_len(init, src@, start as int, fs as int, film_stride as int, y as nat);
        }
        let at: i128 = start + (film_stride as i128) * (y as i128);
        let src_end: u128 = (fs as u128) * (y as u128 + 1);
        assert(fs * (y + 1) == (y + 1) * fs) by (nonlinear_arith);
        if 0 <= at && at + (fs as i128) <= film.len() as i128 && src_end <= src.len() as u128 {
            assert((y + 1) * fs == y * fs + fs) by (nonlinear_arith);
            assert(y * fs <= src@.len());
            copy_row(film, at as usize, src, y * fs, fs);
        }
        y += 1;
    }
}

/// Whether `f` is the mosaic of `tiles` under layout `l`: a planar YUV 4:2:0
/// picture of the grid's size whose planes, black luma and neutral chroma to
/// begin with, hold the tiles pasted in order (see `tiled_plane`).
pub open spec fn is_composition(l: MosaicLayout, tiles: Seq<AVFrame>, f: AVFrame) -> bool {
    &&& f.wf()
    &&& f.format == PixelFormat::Yuv420p
    &&& f.width == l.tile_width * l.grid_columns()
    &&& f.height == l.tile_height * l.grid_rows()
    &&& forall|p: int|
        0 <= p < 3 ==> #[trigger] f.plane(p) == tiled_plane(
            l,
            Seq::new(f.plane(p).len(), |j: int| if p == 0 { 0u8 } else { NEUTRAL_CHROMA }),
            f.linesize@[p] as int,
            f.plane_rows(p),
            tiles,
            p,
            tiles.len(),
        )
}

impl MosaicLayout {
    /// Tiles `tiles` into one planar YUV 4:2:0 picture of `grid_columns`
    /// by `grid_rows` tiles: luma starts black and chroma neutral, then each
    /// tile's planes are pasted row by row at `tile_start` (see `tiled_plane`).
    /// Fails where the picture is too large to allocate.
    pub fn compose(&self, tiles: &Vec<AVFrame>) -> (r: Result<AVFrame, RumpegError>)
        requires
            self.wf(),
            forall|i: int| 0 <= i < tiles@.len() ==> #[trigger] tiles@[i].wf(),
        ensures
            ({
                let w = self.tile_width * self.grid_columns();
                let h = self.tile_height * self.grid_rows();
                &&& (r is Ok) <==> picture_size_ok(w, h)
                &&& r is Err ==> r == Err::<AVFrame, RumpegError>(RumpegError::AVFrameCreation)
                &&& r matches Ok(f) ==> is_composition(*self, tiles@, f)
            }),
    {
        let (gc, gr) = match self.orientation {
            Orientation::Quarter | Orientation::MinusQuarter => (self.rows, self.columns),
            _ => (self.columns, self.rows),
        };
        proof {
            crate::display::lemma_mul_bound(self.tile_width as int, gc as int, 0x8000_0000, 0x8000_0000_0000_0000);
            crate::display::lemma_mul_bound(self.tile_height as int, gr as int, 0x8000_0000, 0x8000_0000_0000_0000);
        }
        let w: i128 = self.tile_width as i128 * gc as i128;
        let h: i128 = self.tile_height as i128 * gr as i128;
        if !(0 < w && w < 0x1000_0000 && 0 < h && h < 0x1000_0000) {
            proof {
                if picture_size_ok(w as int, h as int) {
                    assert(w < 0x1000_0000 && h < 0x1000_0000) by (nonlinear_arith)
                        requires
                            0 < w,
                            0 < h,
                            (w + 128) * (h + 128) < 268435455,
                    ;
                }
            }
            return Err(RumpegError::AVFrameCreation);
        }
        let mut film = match AVFrame::new(PixelFormat::Yuv420p, w as i32, h as i32) {
            Ok(f) => f,
            Err(e) => return Err(e),
        };
        proof {
            crate::frame::lemma_wf_plane(&film, 0);
            crate::frame::lemma_wf_plane(&film, 1);
            crate::frame::lemma_wf_plane(&film, 2);
        }
        let stride0 = film.linesize[0];
        let stride1 = film.linesize[1];
        let rows0 = film.plane_height(0) as usize;
        let rows1 = film.plane_height(1) as usize;
        let mut luma = filled(film.size(0), 0);
        let mut cb = filled(film.size(1), NEUTRAL_CHROMA);
        let mut cr = filled(film.size(2), NEUTRAL_CHROMA);
        let ghost l0 = luma@;
        let ghost l1 = cb@;
        let ghost l2 = cr@;
        let n = tiles.len();
        let mut k: usize = 0;
        while k < n
            invariant
                k <= n == tiles@.len(),
                self.wf(),
                forall|i: int| 0 <= i < tiles@.len() ==> #[trigger] tiles@[i].wf(),
                stride0 < MAX_LINESIZE,
                stride1 < MAX_LINESIZE,
                rows0 < 0x1000_0000,
                rows1 < 0x1000_0000,
                luma@ == tiled_plane(*self, l0, stride0 as int, rows0 as int, tiles@, 0, k as nat),
                cb@ == tiled_plane(*self, l1, stride1 as int, rows1 as int, tiles@, 1, k as nat),
                cr@ == tiled_plane(*self, l2, stride1 as int, rows1 as int, tiles@, 2, k as nat),
            decreases n - k,
        {
            let t = &tiles[k];
            proof {
                crate::frame::lemma_wf_plane(t, 0);
                crate::frame::lemma_wf_plane(t, 1);
                crate::frame::lemma_wf_plane(t, 2);
            }
            let th = t.height as usize;
            let s0 = self.tile_start_exec(k, t.linesize[0], 2 * th, stride0, rows0);
            paste_plane(&mut luma, t.data(0), s0, t.linesize[0], stride0, th);
            let s1 = self.tile_start_exec(k, t.linesize[1], th, stride1, rows1);
            paste_plane(&mut cb, t.data(1), s1, t.linesize[1], stride1, th / 2);
            let s2 = self.tile_start_exec(k, t.linesize[2], th, stride1, rows1);
            paste_plane(&mut cr, t.data(2), s2, t.linesize[2], stride1, th / 2);
            k += 1;
        }
        proof {
            lemma_tiled_plane_len(*self, l0, stride0 as int, rows0 as int, tiles@, 0, n as nat);
            lemma_tiled_plane_len(*self, l1, stride1 as int, rows1 as int, tiles@, 1, n as nat);
            lemma_tiled_plane_len(*self, l2, stride1 as int, rows1 as int, tiles@, 2, n as nat);
        }
        let ghost fresh = film;
        let mut planes: Vec<Vec<u8>> = Vec::new();
        planes.push(luma);
        planes.push(cb);
        planes.push(cr);
        film.planes = planes;
        assert forall|p: int| 0 <= p < 3 implies #[trigger] film.plane(p).len() == film.linesize@[p]
            * film.plane_rows(p) && film.linesize@[p] < MAX_LINESIZE by {
            crate::frame::lemma_wf_plane(&fresh, p);
            assert(fresh.plane_rows(p) == film.plane_rows(p));
        }
        assert(film.wf());
        Ok(film)
    }
}

} // verus!
