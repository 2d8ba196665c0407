//! The error type of the media layer.

use vstd::prelude::*;
use crate::matrix::MathError;
use crate::webp::WebPError;

verus! {

#[derive(Debug, Clone, PartialEq, Eq)]
pub enum RumpegError {
    /// The decoder context could not be allocated.
    AVCodecContextAllocFail,
    /// A native call failed: the operation, the native code and its translated message.
    AVError(String, i32, String),
    /// The container context could not be allocated.
    AVFormatContextAllocFail,
    /// A frame buffer could not be allocated.
    AVFrameCreation,
    /// The path held a NUL byte, at this position.
    CStringCreation(usize),
    /// No decoder is registered for the stream's codec.
    DecoderMissing,
    Math(MathError),
    /// The stream reported no pixel format and none can be inferred for the codec.
    PixelFormatMissing(i32),
    /// The scaling context could not be created.
    SwsContextCreation,
    UnknownLogLevel,
    /// The container's format could not be identified.
    VideoFormatMissing,
    WebPError(WebPError),
}

#[derive(Debug, Clone, PartialEq, Eq)]
pub enum VideoError {
    Rumpeg(RumpegError),
    /// A mosaic needs at least one tile; this many were asked for.
    NoFramesInFilmStrip(i64),
}

} // verus!
