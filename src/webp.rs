//! Image encoding: the error codes of the image-compression library and the
//! choice of how a frame is handed to it.

use vstd::prelude::*;
use crate::frame::AVFrame;
use crate::pixel::PixelFormat;

verus! {

/// Encoding succeeded.
pub const VP8_ENC_OK: i32 = 0;
pub const VP8_ENC_ERROR_OUT_OF_MEMORY: i32 = 1;
pub const VP8_ENC_ERROR_BITSTREAM_OUT_OF_MEMORY: i32 = 2;
pub const VP8_ENC_ERROR_NULL_PARAMETER: i32 = 3;
pub const VP8_ENC_ERROR_INVALID_CONFIGURATION: i32 = 4;
pub const VP8_ENC_ERROR_BAD_DIMENSION: i32 = 5;
pub const VP8_ENC_ERROR_PARTITION0_OVERFLOW: i32 = 6;
pub const VP8_ENC_ERROR_PARTITION_OVERFLOW: i32 = 7;
pub const VP8_ENC_ERROR_BAD_WRITE: i32 = 8;
pub const VP8_ENC_ERROR_FILE_TOO_BIG: i32 = 9;
pub const VP8_ENC_ERROR_USER_ABORT: i32 = 10;
pub const VP8_ENC_ERROR_LAST: i32 = 11;

/// The highest quality factor the encoder accepts.
pub const MAX_QUALITY: u8 = 100;

#[derive(Debug, Clone, PartialEq, Eq)]
pub enum WebPError {
    /// The encoder failed: its code and the code's description.
    Encoding(i32, String),
    /// The encoder configuration could not be initialised.
    WebPConfigInit,
    /// Frames of this pixel format cannot be encoded.
    FormatNotSupported(PixelFormat),
}

/// The description of each encoder error code.
pub open spec fn webp_message(code: i32) -> &'static str {
    if code == VP8_ENC_OK {
        "Everything ok [VP8_ENC_OK]"
    } else if code == VP8_ENC_ERROR_OUT_OF_MEMORY {
        "Memory error allocating objects [VP8_ENC_ERROR_OUT_OF_MEMORY]"
    } else if code == VP8_ENC_ERROR_BITSTREAM_OUT_OF_MEMORY {
        "Memory error while flushing bits [VP8_ENC_ERROR_BITSTREAM_OUT_OF_MEMORY]"
    } else if code == VP8_ENC_ERROR_NULL_PARAMETER {
        "A pointer parameter is NULL [VP8_ENC_ERROR_NULL_PARAMETER]"
    } else if code == VP8_ENC_ERROR_INVALID_CONFIGURATION {
        "Configuration is invalid [VP8_ENC_ERROR_INVALID_CONFIGURATION]"
    } else if code == VP8_ENC_ERROR_BAD_DIMENSION {
        "Picture has invalid width/height [VP8_ENC_ERROR_BAD_DIMENSION]"
    } else if code == VP8_ENC_ERROR_PARTITION0_OVERFLOW {
        "Partition is bigger than 512k [VP8_ENC_ERROR_PARTITION0_OVERFLOW]"
    } else if code == VP8_ENC_ERROR_PARTITION_OVERFLOW {
        "Partition is bigger than 16M [VP8_ENC_ERROR_PARTITION_OVERFLOW]"
    } else if code == VP8_ENC_ERROR_BAD_WRITE {
        "Error while flushing bytes [VP8_ENC_ERROR_BAD_WRITE]"
    } else if code == VP8_ENC_ERROR_FILE_TOO_BIG {
        "File is bigger than 4G [VP8_ENC_ERROR_FILE_TOO_BIG]"
    } else if code == VP8_ENC_ERROR_USER_ABORT {
        "Abort request by user [VP8_ENC_ERROR_USER_ABORT]"
    } else if code == VP8_ENC_ERROR_LAST {
        "List terminator. always last. [VP8_ENC_ERROR_LAST]"
    } else {
        "Unknown error code"
    }
}

/// Describes an encoder error code.
pub fn webp_error(error_code: i32) -> (r: &'static str)
    ensures
        r@ == webp_message(error_code)@,
{
    if error_code == VP8_ENC_OK {
        "Everything ok [VP8_ENC_OK]"
    } else if error_code == VP8_ENC_ERROR_OUT_OF_MEMORY {
        "Memory error allocating objects [VP8_ENC_ERROR_OUT_OF_MEMORY]"
    } else if error_code == VP8_ENC_ERROR_BITSTREAM_OUT_OF_MEMORY {
        "Memory error while flushing bits [VP8_ENC_ERROR_BITSTREAM_OUT_OF_MEMORY]"
    } else if error_code == VP8_ENC_ERROR_NULL_PARAMETER {
        "A pointer parameter is NULL [VP8_ENC_ERROR_NULL_PARAMETER]"
    } else if error_code == VP8_ENC_ERROR_INVALID_CONFIGURATION {
        "Configuration is invalid [VP8_ENC_ERROR_INVALID_CONFIGURATION]"
    } else if error_code == VP8_ENC_ERROR_BAD_DIMENSION {
        "Picture has invalid width/height [VP8_ENC_ERROR_BAD_DIMENSION]"
    } else if error_code == VP8_ENC_ERROR_PARTITION0_OVERFLOW {
        "Partition is bigger than 512k [VP8_ENC_ERROR_PARTITION0_OVERFLOW]"
    } else if error_code == VP8_ENC_ERROR_PARTITION_OVERFLOW {
        "Partition is bigger than 16M [VP8_ENC_ERROR_PARTITION_OVERFLOW]"
    } else if error_code == VP8_ENC_ERROR_BAD_WRITE {
        "Error while flushing bytes [VP8_ENC_ERROR_BAD_WRITE]"
    } else if error_code == VP8_ENC_ERROR_FILE_TOO_BIG {
        "File is bigger than 4G [VP8_ENC_ERROR_FILE_TOO_BIG]"
    } else if error_code == VP8_ENC_ERROR_USER_ABORT {
        "Abort request by user [VP8_ENC_ERROR_USER_ABORT]"
    } else if error_code == VP8_ENC_ERROR_LAST {
        "List terminator. always last. [VP8_ENC_ERROR_LAST]"
    } else {
        "Unknown error code"
    }
}

impl WebPError {
    /// The error for an encoder error code, with its description.
    pub fn from_code(error_code: i32) -> (r: WebPError)
        ensures
            r matches WebPError::Encoding(c, m) && c == error_code && m@ == webp_message(
                error_code,
            )@,
    {
        WebPError::Encoding(error_code, webp_error(error_code).to_owned())
    }

    /// The error for a frame whose pixel format cannot be encoded.
    pub fn from_format(format: PixelFormat) -> (r: WebPError)
        ensures
            r == WebPError::FormatNotSupported(format),
    {
        WebPError::FormatNotSupported(format)
    }
}

/// How a frame's pixels are imported into the encoder's picture.
#[derive(Debug, Clone, Copy, PartialEq, Eq, Structural)]
pub enum WebPSource {
    /// Planar YUV 4:2:0: the luma plane and the two chroma planes, imported
    /// directly with their strides.
    PlanarYuv { y_stride: usize, uv_stride: usize },
    /// Packed RGB, imported through the RGB path with this stride.
    PackedRgb { stride: usize },
}

/// What the encoder is given: the picture size, the quality factor and how
/// the pixels are imported.
#[derive(Debug, Clone, Copy, PartialEq, Eq, Structural)]
pub struct WebPEncoder {
    pub width: i32,
    pub height: i32,
    pub quality: u8,
    pub source: WebPSource,
}

/// What the encoder is given for `frame` at `quality`: planar YUV 4:2:0
/// frames hand over their three planes with their strides, packed RGB frames
/// go through the RGB import, and any other format is refused.
pub open spec fn encoder_for(frame: AVFrame, quality: u8) -> Result<WebPEncoder, WebPError> {
    if frame.format == PixelFormat::Yuv420p {
        Ok(WebPEncoder {
            width: frame.width,
            height: frame.height,
            quality,
            source: WebPSource::PlanarYuv { y_stride: frame.linesize@[0], uv_stride: frame.linesize@[1] },
        })
    } else if frame.format == PixelFormat::Rgb24 {
        Ok(WebPEncoder {
            width: frame.width,
            height: frame.height,
            quality,
            source: WebPSource::PackedRgb { stride: frame.linesize@[0] },
        })
    } else {
        Err(WebPError::FormatNotSupported(frame.format))
    }
}

impl WebPEncoder {
    /// Prepares the encoding of `frame` at `quality` (0 to 100): see `encoder_for`.
    pub fn new(frame: &AVFrame, quality: u8) -> (r: Result<WebPEncoder, WebPError>)
        requires
            quality <= MAX_QUALITY,
        ensures
            r == encoder_for(*frame, quality),
    {
        match frame.format {
            PixelFormat::Yuv420p => Ok(
                WebPEncoder {
                    width: frame.width,
                    height: frame.height,
                    quality,
                    source: WebPSource::PlanarYuv {
                        y_stride: frame.linesize[0],
                        uv_stride: frame.linesize[1],
                    },
                },
            ),
            PixelFormat::Rgb24 => Ok(
                WebPEncoder {
                    width: frame.width,
                    height: frame.height,
                    quality,
                    source: WebPSource::PackedRgb { stride: frame.linesize[0] },
                },
            ),
            format => Err(WebPError::from_format(format)),
        }
    }
}

} // verus!
