//! Still-frame and mosaic extraction from video: time positions, the
//! frame-sampling state machine, display-matrix orientation, pixel-plane
//! remapping, mosaic layout and the decisions around image encoding.
//!
//! Everything in this crate works on plain values. The native multimedia
//! and image-compression libraries are driven by the surrounding program,
//! which hands their results to the functions here.

// Media: positions, streams, frames, orientation, sampling, mosaics, encoding.
pub mod averror;
pub mod error;
pub mod pixel;
pub mod timespec;
pub mod stream;
pub mod matrix;
pub mod frame;
pub mod display;
pub mod iter;
pub mod codec;
pub mod sws;
pub mod format;
pub mod mosaic;
pub mod webp;
pub mod video;
pub mod loglevel;

// Text, requests and arguments of the command line and the frame server.
pub mod text;
pub mod uri;
pub mod mime;
pub mod request;
pub mod query;
pub mod response;
pub mod cli;
