//! Raw frames: pixel planes held as plain byte vectors.

use vstd::prelude::*;
use crate::error::RumpegError;
use crate::pixel::{PixelFormat, PlaneLayout, layout_of, plane_layout};

verus! {

/// The native library refuses a picture unless `(w + 128) * (h + 128)` stays
/// below this bound (`i32::MAX / 8`).
pub const PICTURE_SIZE_BOUND: i64 = 268435455;

/// No plane row of a frame is longer than this many bytes.
pub const MAX_LINESIZE: usize = 0x4000_0000;

/// `ceil(h / 2^s)` for the subsampling shifts in use.
pub open spec fn shifted_up(h: int, s: u32) -> int {
    if s == 0 {
        h
    } else if s == 1 {
        (h + 1) / 2
    } else {
        (h + 3) / 4
    }
}

fn shift_up(h: i32, s: u32) -> (r: i32)
    requires
        0 <= h,
    ensures
        r as int == shifted_up(h as int, s),
{
    if s == 0 {
        h
    } else if s == 1 {
        h / 2 + h % 2
    } else {
        h / 4 + if h % 4 != 0 { 1i32 } else { 0i32 }
    }
}

/// The number of rows of plane `p` of a picture `height` rows high in
/// `format`: chroma planes are subsampled vertically as the format says.
pub open spec fn rows_of(format: PixelFormat, height: int, p: int) -> int {
    if p != 1 && p != 2 {
        height
    } else {
        match layout_of(format) {
            Some(l) => shifted_up(height, l.log2_chroma_h),
            None => height,
        }
    }
}

/// Whether a picture of this size may be allocated.
pub open spec fn picture_size_ok(width: int, height: int) -> bool {
    0 < width && 0 < height && (width + 128) * (height + 128) < PICTURE_SIZE_BOUND
}

/// The row lengths that a freshly allocated, unpadded frame gets.
pub open spec fn alloc_linesize(l: PlaneLayout, width: int) -> Seq<int> {
    let luma = width * l.bytes_per_pixel;
    let chroma = if l.planes == 3 { shifted_up(width, l.log2_chroma_w) } else { 0 };
    seq![luma, chroma, chroma]
}

/// A decoded or composed picture: format, size, presentation time in native
/// ticks, and three planes (unused planes are empty), each `linesize[p]` bytes
/// per row.
#[derive(Debug, Clone)]
pub struct AVFrame {
    pub format: PixelFormat,
    pub width: i32,
    pub height: i32,
    pub pts: i64,
    pub linesize: [usize; 3],
    pub planes: Vec<Vec<u8>>,
}

impl AVFrame {
    /// The number of rows of plane `p`: chroma planes are subsampled
    /// vertically as the format says.
    pub open spec fn plane_rows(&self, p: int) -> int {
        rows_of(self.format, self.height as int, p)
    }

    /// The bytes of plane `p`.
    pub open spec fn plane(&self, p: int) -> Seq<u8> {
        self.planes@[p]@
    }

    pub open spec fn wf(&self) -> bool {
        &&& 0 <= self.width
        &&& 0 <= self.height
        &&& (self.width + 128) * (self.height + 128) < PICTURE_SIZE_BOUND
        &&& self.planes@.len() == 3
        &&& forall|p: int|
            0 <= p < 3 ==> {
                &&& self.linesize@[p] < MAX_LINESIZE
                &&& #[trigger] self.plane(p).len() == self.linesize@[p] * self.plane_rows(p)
            }
    }

    /// Allocates a zero-filled frame without row padding. Fails unless the
    /// size is positive and within the native picture bound and the format's
    /// plane layout is known.
    pub fn new(format: PixelFormat, width: i32, height: i32) -> (r: Result<AVFrame, RumpegError>)
        ensures
            (r is Ok) <==> (picture_size_ok(width as int, height as int) && layout_of(
                format,
            ) is Some),
            r is Err ==> r == Err::<AVFrame, RumpegError>(RumpegError::AVFrameCreation),
            r matches Ok(f) ==> {
                &&& f.wf()
                &&& f.format == format
                &&& f.width == width
                &&& f.height == height
                &&& f.pts == 0
                &&& forall|p: int|
                    0 <= p < 3 ==> #[trigger] f.linesize@[p] as int == alloc_linesize(
                        layout_of(format).unwrap(),
                        width as int,
                    )[p]
                &&& forall|p: int, i: int|
                    0 <= p < 3 && 0 <= i < f.plane(p).len() ==> #[trigger] f.plane(p)[i] == 0
            },
    {
        if width <= 0 || height <= 0 {
            return Err(RumpegError::AVFrameCreation);
        }
        let (wl, hl) = (width as i64 + 128, height as i64 + 128);
        assert(wl * hl < 0x7fff_ffff_ffff_ffff) by (nonlinear_arith)
            requires
                0 < wl <= 0x8000_0080,
                0 < hl <= 0x8000_0080,
        ;
        if wl * hl >= PICTURE_SIZE_BOUND {
            return Err(RumpegError::AVFrameCreation);
        }
        let layout = match plane_layout(format) {
            Some(l) => l,
            None => return Err(RumpegError::AVFrameCreation),
        };
        assert(1 <= layout.bytes_per_pixel <= 3 && layout.log2_chroma_w <= 2 && layout.log2_chroma_h
            <= 2);
        assert(width < PICTURE_SIZE_BOUND && height < PICTURE_SIZE_BOUND) by (nonlinear_arith)
            requires
                0 < width,
                0 < height,
                (width + 128) * (height + 128) < PICTURE_SIZE_BOUND,
        ;
        assert(width <= width * layout.bytes_per_pixel <= 3 * width) by (nonlinear_arith)
            requires
                1 <= layout.bytes_per_pixel <= 3,
                0 < width,
        ;
        let luma = width as usize * layout.bytes_per_pixel;
        let chroma: usize = if layout.planes == 3 {
            shift_up(width, layout.log2_chroma_w) as usize
        } else {
            0
        };
        let chroma_rows = shift_up(height, layout.log2_chroma_h) as usize;
        let mut frame = AVFrame {
            format,
            width,
            height,
            pts: 0,
            linesize: [luma, chroma, chroma],
            planes: Vec::new(),
        };
        assert(frame.plane_rows(1) == chroma_rows && frame.plane_rows(2) == chroma_rows);
        assert(luma * (height as usize) < 0x1_0000_0000) by (nonlinear_arith)
            requires
                luma <= 3 * width,
                0 < width,
                0 < height,
                (width + 128) * (height + 128) < PICTURE_SIZE_BOUND,
        ;
        assert(chroma <= width && chroma_rows <= height);
        assert(chroma * chroma_rows <= luma * (height as usize)) by (nonlinear_arith)
            requires
                chroma <= luma,
                chroma_rows <= height,
        ;
        let p0: Vec<u8> = zeroed(luma * height as usize);
        let p1: Vec<u8> = zeroed(chroma * chroma_rows);
        let p2: Vec<u8> = zeroed(chroma * chroma_rows);
        frame.planes.push(p0);
        frame.planes.push(p1);
        frame.planes.push(p2);
        assert(frame.plane(0) == p0@ && frame.plane(1) == p1@ && frame.plane(2) == p2@);
        Ok(frame)
    }

    /// The number of rows of plane `plane`.
    pub fn plane_height(&self, plane: usize) -> (r: i32)
        requires
            self.wf(),
        ensures
            r as int == self.plane_rows(plane as int),
    {
        plane_rows_for(self.format, self.height, plane)
    }

    /// The number of bytes in plane `plane`.
    pub fn size(&self, plane: usize) -> (r: usize)
        requires
            self.wf(),
            plane < 3,
        ensures
            r as int == self.linesize@[plane as int] * self.plane_rows(plane as int),
            r as int == self.plane(plane as int).len(),
    {
        assert(self.plane(plane as int).len() == self.linesize@[plane as int] * self.plane_rows(
            plane as int,
        ));
        self.planes[plane].len()
    }

    /// The bytes of plane `plane`.
    pub fn data(&self, plane: usize) -> (r: &Vec<u8>)
        requires
            self.wf(),
            plane < 3,
        ensures
            r@ == self.plane(plane as int),
    {
        &self.planes[plane]
    }
}

/// The size bound does not care which side is which.
pub proof fn lemma_picture_size_symmetric(w: int, h: int)
    ensures
        picture_size_ok(w, h) == picture_size_ok(h, w),
{
    assert((w + 128) * (h + 128) == (h + 128) * (w + 128)) by (nonlinear_arith);
}

/// The bounds that a well-formed frame gives each of its planes.
pub proof fn lemma_wf_plane(f: &AVFrame, p: int)
    requires
        f.wf(),
        0 <= p < 3,
    ensures
        f.linesize@[p] < MAX_LINESIZE,
        0 <= f.plane_rows(p) <= f.height < 0x1000_0000,
        f.width < 0x1000_0000,
        f.plane(p).len() == f.linesize@[p] * f.plane_rows(p),
{
    assert(f.plane(p).len() == f.linesize@[p] * f.plane_rows(p));
    assert(f.height < PICTURE_SIZE_BOUND && f.width < PICTURE_SIZE_BOUND) by (nonlinear_arith)
        requires
            0 <= f.width,
            0 <= f.height,
            (f.width + 128) * (f.height + 128) < PICTURE_SIZE_BOUND,
    ;
}

/// The number of rows of plane `plane` of a picture `height` rows high in
/// `format`: chroma planes are subsampled vertically as the format says.
pub fn plane_rows_for(format: PixelFormat, height: i32, plane: usize) -> (r: i32)
    requires
        0 <= height,
    ensures
        r as int == rows_of(format, height as int, plane as int),
{
    if plane != 1 && plane != 2 {
        return height;
    }
    match plane_layout(format) {
        Some(l) => shift_up(height, l.log2_chroma_h),
        None => height,
    }
}

/// A vector of `n` zero bytes.
pub(crate) fn zeroed(n: usize) -> (r: Vec<u8>)
    ensures
        r@.len() == n,
        forall|i: int| 0 <= i < n ==> #[trigger] r@[i] == 0,
{
    let mut v: Vec<u8> = Vec::with_capacity(n);
    let mut i: usize = 0;
    while i < n
        invariant
            i <= n,
            v@.len() == i,
            forall|j: int| 0 <= j < i ==> #[trigger] v@[j] == 0,
        decreases n - i,
    {
        v.push(0);
        i += 1;
    }
    v
}

} // verus!
