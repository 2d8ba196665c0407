//! The scaler's configuration: input and output picture properties.

use vstd::prelude::*;
use crate::codec::AVCodecContext;
use crate::pixel::PixelFormat;

verus! {

/// Sinc interpolation.
pub const SWS_SINC: i32 = 0x100;

/// Exact rounding, needed where a side is not a multiple of 8.
pub const SWS_ACCURATE_RND: i32 = 0x40000;

#[derive(Debug, Clone, Copy, PartialEq, Eq, Structural)]
pub struct SwsFrameProperties {
    pub width: i32,
    pub height: i32,
    pub pixel_format: PixelFormat,
}

pub open spec fn min_i32(v: int) -> int {
    if v > i32::MAX {
        i32::MAX as int
    } else {
        v
    }
}

/// The size that `p` gets from `other`: a side below 1 is derived from the
/// other side in `other`'s aspect ratio (rounded down, at most `i32::MAX`), or
/// copied from `other` where both sides are below 1.
pub open spec fn with_aspect_of(p: SwsFrameProperties, other: SwsFrameProperties) -> SwsFrameProperties {
    let w = if p.width < 1 {
        if p.height > 0 {
            min_i32(p.height * other.width / (other.height as int))
        } else {
            other.width as int
        }
    } else {
        p.width as int
    };
    let h = if p.height < 1 {
        if w > 0 {
            min_i32(w * other.height / (other.width as int))
        } else {
            other.height as int
        }
    } else {
        p.height as int
    };
    SwsFrameProperties { width: w as i32, height: h as i32, ..p }
}

fn scaled_side(a: i32, num: i32, den: i32) -> (r: i32)
    requires
        a > 0,
        num > 0,
        den > 0,
    ensures
        r as int == min_i32(a * num / (den as int)),
{
    assert(0 <= (a as i64) * (num as i64) <= 0x7fff_ffff * 0x7fff_ffff) by (nonlinear_arith)
        requires
            0 < a <= 0x7fff_ffff,
            0 < num <= 0x7fff_ffff,
    ;
    let v = (a as i64) * (num as i64) / (den as i64);
    if v > i32::MAX as i64 {
        i32::MAX
    } else {
        v as i32
    }
}

impl SwsFrameProperties {
    /// Fills in a side below 1 from the other side, keeping `other`'s aspect
    /// ratio; where both are below 1 the sides of `other` are taken.
    pub fn copy_aspect_ratio(&mut self, other: SwsFrameProperties)
        requires
            other.width > 0,
            other.height > 0,
        ensures
            *final(self) == with_aspect_of(*old(self), other),
    {
        if self.width < 1 {
            self.width = if self.height > 0 {
                scaled_side(self.height, other.width, other.height)
            } else {
                other.width
            };
        }
        if self.height < 1 {
            self.height = if self.width > 0 {
                scaled_side(self.width, other.height, other.width)
            } else {
                other.height
            };
        }
    }
}

/// The scaler flags for an input picture: sinc interpolation, with exact
/// rounding where a side is not a multiple of 8.
pub open spec fn scaler_flags(input: SwsFrameProperties) -> i32 {
    if input.width % 8 != 0 || input.height % 8 != 0 {
        SWS_SINC | SWS_ACCURATE_RND
    } else {
        SWS_SINC
    }
}

/// A scaling configuration: from the decoder's pictures to the output size
/// and format.
#[derive(Debug, Clone, Copy, PartialEq, Eq, Structural)]
pub struct SwsContext {
    pub input: SwsFrameProperties,
    pub output: SwsFrameProperties,
}

impl SwsContext {
    /// Changes the output size; a side below 1 is derived as in `copy_aspect_ratio`.
    pub fn resize_output(&mut self, width: i32, height: i32)
        requires
            old(self).input.width > 0,
            old(self).input.height > 0,
        ensures
            final(self).input == old(self).input,
            final(self).output == with_aspect_of(
                SwsFrameProperties { width, height, ..old(self).output },
                old(self).input,
            ),
    {
        self.output.width = width;
        self.output.height = height;
        let input = self.input;
        self.output.copy_aspect_ratio(input);
    }

    pub fn width(&self) -> (r: i32)
        ensures
            r == self.output.width,
    {
        self.output.width
    }

    pub fn height(&self) -> (r: i32)
        ensures
            r == self.output.height,
    {
        self.output.height
    }

    /// The flags the native scaler is created with.
    pub fn flags(&self) -> (r: i32)
        ensures
            r == scaler_flags(self.input),
    {
        if self.input.width % 8 != 0 || self.input.height % 8 != 0 {
            SWS_SINC | SWS_ACCURATE_RND
        } else {
            SWS_SINC
        }
    }
}

/// Collects the output properties of a scaler before it is built.
#[derive(Debug, Clone, Copy, PartialEq, Eq, Structural)]
pub struct SwsContextBuilder {
    pub input: SwsFrameProperties,
    pub output: SwsFrameProperties,
}

impl SwsContextBuilder {
    /// Starts from the decoder's picture size and format; the output is
    /// planar YUV 4:2:0 with both sides still to be derived.
    pub fn from_codec_context(codec_context: &AVCodecContext) -> (r: SwsContextBuilder)
        ensures
            r.input == (SwsFrameProperties {
                width: codec_context.width,
                height: codec_context.height,
                pixel_format: codec_context.format,
            }),
            r.output == (SwsFrameProperties {
                width: 0,
                height: 0,
                pixel_format: PixelFormat::Yuv420p,
            }),
    {
        SwsContextBuilder {
            input: SwsFrameProperties {
                width: codec_context.width,
                height: codec_context.height,
                pixel_format: codec_context.format,
            },
            output: SwsFrameProperties { width: 0, height: 0, pixel_format: PixelFormat::Yuv420p },
        }
    }

    /// Completes the output size from the input's aspect ratio.
    pub fn build(&mut self) -> (r: SwsContext)
        requires
            old(self).input.width > 0,
            old(self).input.height > 0,
        ensures
            final(self).input == old(self).input,
            final(self).output == with_aspect_of(old(self).output, old(self).input),
            r == (SwsContext { input: final(self).input, output: final(self).output }),
    {
        let input = self.input;
        self.output.copy_aspect_ratio(input);
        SwsContext { input: self.input, output: self.output }
    }

    pub fn width(&mut self, w: i32)
        ensures
            *final(self) == (SwsContextBuilder {
                output: SwsFrameProperties { width: w, ..old(self).output },
                ..*old(self)
            }),
    {
        self.output.width = w;
    }

    pub fn height(&mut self, h: i32)
        ensures
            *final(self) == (SwsContextBuilder {
                output: SwsFrameProperties { height: h, ..old(self).output },
                ..*old(self)
            }),
    {
        self.output.height = h;
    }

    pub fn pixel_format(&mut self, f: PixelFormat)
        ensures
            *final(self) == (SwsContextBuilder {
                output: SwsFrameProperties { pixel_format: f, ..old(self).output },
                ..*old(self)
            }),
    {
        self.output.pixel_format = f;
    }
}

} // verus!
