//! The decoder's view of a stream: codec, picture size and pixel format.

use vstd::prelude::*;
use crate::error::RumpegError;
use crate::pixel::{CodecId, PixelFormat, infers_yuv420, normalized, normalized_spec};

verus! {

#[derive(Debug, Clone, Copy, PartialEq, Eq, Structural)]
pub struct AVCodecContext {
    pub codec_id: CodecId,
    pub width: i32,
    pub height: i32,
    /// The pixel format of decoded frames, with deprecated full-range
    /// variants replaced by the standard ones.
    pub format: PixelFormat,
}

/// The pixel format a decoder works in, given what the container reported:
/// a missing format is taken to be planar YUV 4:2:0 for the codecs known to
/// use it, and is an error for any other codec.
pub open spec fn resolved_format(reported: PixelFormat, codec_id: CodecId) -> Result<PixelFormat, RumpegError> {
    if reported == PixelFormat::Unset {
        match codec_id {
            CodecId::Other(id) => Err(RumpegError::PixelFormatMissing(id)),
            _ => Ok(PixelFormat::Yuv420p),
        }
    } else {
        Ok(normalized_spec(reported))
    }
}

impl AVCodecContext {
    /// The decoder context for a stream of codec `codec_id` with pictures of
    /// `width` by `height` in the `reported` pixel format.
    pub fn new(codec_id: CodecId, width: i32, height: i32, reported: PixelFormat) -> (r: Result<AVCodecContext, RumpegError>)
        ensures
            match resolved_format(reported, codec_id) {
                Ok(f) => r == Ok::<AVCodecContext, RumpegError>(AVCodecContext { codec_id, width, height, format: f }),
                Err(e) => r == Err::<AVCodecContext, RumpegError>(e),
            },
    {
        let format = if let PixelFormat::Unset = reported {
            match codec_id {
                CodecId::Other(id) => return Err(RumpegError::PixelFormatMissing(id)),
                _ => PixelFormat::Yuv420p,
            }
        } else {
            normalized(reported)
        };
        Ok(AVCodecContext { codec_id, width, height, format })
    }
}

} // verus!
