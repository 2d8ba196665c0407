//! Pixel formats, codec identifiers and the plane layout of each format.

use vstd::prelude::*;

verus! {

/// The pixel formats that the library lays out itself; any other native
/// format is carried by its native number.
#[derive(Debug, Clone, Copy, PartialEq, Eq, Structural)]
pub enum PixelFormat {
    /// No format was reported.
    Unset,
    Yuv420p,
    Yuv422p,
    Yuv444p,
    Yuv440p,
    Yuv411p,
    /// Full-range ("JPEG") variants, deprecated in favour of the plain ones.
    Yuvj420p,
    Yuvj422p,
    Yuvj444p,
    Yuvj440p,
    Yuvj411p,
    /// Packed 8-bit RGB in one plane.
    Rgb24,
    Other(i32),
}

/// The codecs whose pixel format may be inferred when a container omits it.
#[derive(Debug, Clone, Copy, PartialEq, Eq, Structural)]
pub enum CodecId {
    H264,
    Hevc,
    Mpeg2Video,
    Vp8,
    Vp9,
    Av1,
    Other(i32),
}

/// How a format stores its pixels: number of planes, the log2 horizontal and
/// vertical chroma subsampling, and bytes per pixel in the first plane.
#[derive(Debug, Clone, Copy, PartialEq, Eq, Structural)]
pub struct PlaneLayout {
    pub planes: usize,
    pub log2_chroma_w: u32,
    pub log2_chroma_h: u32,
    pub bytes_per_pixel: usize,
}

pub open spec fn layout_of(f: PixelFormat) -> Option<PlaneLayout> {
    match f {
        PixelFormat::Yuv420p | PixelFormat::Yuvj420p => Some(
            PlaneLayout { planes: 3, log2_chroma_w: 1, log2_chroma_h: 1, bytes_per_pixel: 1 },
        ),
        PixelFormat::Yuv422p | PixelFormat::Yuvj422p => Some(
            PlaneLayout { planes: 3, log2_chroma_w: 1, log2_chroma_h: 0, bytes_per_pixel: 1 },
        ),
        PixelFormat::Yuv444p | PixelFormat::Yuvj444p => Some(
            PlaneLayout { planes: 3, log2_chroma_w: 0, log2_chroma_h: 0, bytes_per_pixel: 1 },
        ),
        PixelFormat::Yuv440p | PixelFormat::Yuvj440p => Some(
            PlaneLayout { planes: 3, log2_chroma_w: 0, log2_chroma_h: 1, bytes_per_pixel: 1 },
        ),
        PixelFormat::Yuv411p | PixelFormat::Yuvj411p => Some(
            PlaneLayout { planes: 3, log2_chroma_w: 2, log2_chroma_h: 0, bytes_per_pixel: 1 },
        ),
        PixelFormat::Rgb24 => Some(
            PlaneLayout { planes: 1, log2_chroma_w: 0, log2_chroma_h: 0, bytes_per_pixel: 3 },
        ),
        _ => None,
    }
}

/// The plane layout of a format, or `None` for a format this library does
/// not lay out.
pub fn plane_layout(f: PixelFormat) -> (r: Option<PlaneLayout>)
    ensures
        r == layout_of(f),
{
    match f {
        PixelFormat::Yuv420p | PixelFormat::Yuvj420p => Some(
            PlaneLayout { planes: 3, log2_chroma_w: 1, log2_chroma_h: 1, bytes_per_pixel: 1 },
        ),
        PixelFormat::Yuv422p | PixelFormat::Yuvj422p => Some(
            PlaneLayout { planes: 3, log2_chroma_w: 1, log2_chroma_h: 0, bytes_per_pixel: 1 },
        ),
        PixelFormat::Yuv444p | PixelFormat::Yuvj444p => Some(
            PlaneLayout { planes: 3, log2_chroma_w: 0, log2_chroma_h: 0, bytes_per_pixel: 1 },
        ),
        PixelFormat::Yuv440p | PixelFormat::Yuvj440p => Some(
            PlaneLayout { planes: 3, log2_chroma_w: 0, log2_chroma_h: 1, bytes_per_pixel: 1 },
        ),
        PixelFormat::Yuv411p | PixelFormat::Yuvj411p => Some(
            PlaneLayout { planes: 3, log2_chroma_w: 2, log2_chroma_h: 0, bytes_per_pixel: 1 },
        ),
        PixelFormat::Rgb24 => Some(
            PlaneLayout { planes: 1, log2_chroma_w: 0, log2_chroma_h: 0, bytes_per_pixel: 3 },
        ),
        _ => None,
    }
}

/// The standard format that stands for a deprecated full-range one.
pub open spec fn normalized_spec(f: PixelFormat) -> PixelFormat {
    match f {
        PixelFormat::Yuvj420p => PixelFormat::Yuv420p,
        PixelFormat::Yuvj422p => PixelFormat::Yuv422p,
        PixelFormat::Yuvj444p => PixelFormat::Yuv444p,
        PixelFormat::Yuvj440p => PixelFormat::Yuv440p,
        PixelFormat::Yuvj411p => PixelFormat::Yuv411p,
        _ => f,
    }
}

/// Replaces a deprecated full-range format by its standard counterpart.
pub fn normalized(f: PixelFormat) -> (r: PixelFormat)
    ensures
        r == normalized_spec(f),
{
    match f {
        PixelFormat::Yuvj420p => PixelFormat::Yuv420p,
        PixelFormat::Yuvj422p => PixelFormat::Yuv422p,
        PixelFormat::Yuvj444p => PixelFormat::Yuv444p,
        PixelFormat::Yuvj440p => PixelFormat::Yuv440p,
        PixelFormat::Yuvj411p => PixelFormat::Yuv411p,
        _ => f,
    }
}

/// Whether a missing pixel format may be taken to be planar YUV 4:2:0.
pub open spec fn infers_yuv420(c: CodecId) -> bool {
    match c {
        CodecId::Other(_) => false,
        _ => true,
    }
}

} // verus!
