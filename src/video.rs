//! The facade over one opened video: its metadata, frame sampling, mosaics
//! and the preparation of frames for encoding.

use vstd::prelude::*;
use crate::codec::AVCodecContext;
use crate::display::transform_result;
use crate::error::{RumpegError, VideoError};
use crate::format::{AVFormatContext, sampling};
use crate::frame::{AVFrame, picture_size_ok};
use crate::iter::AVFrameIter;
use crate::matrix::{Matrix3x3, Orientation};
use crate::mosaic::{MosaicLayout, MAX_FILM_WIDTH, ceil_div, is_composition};
use crate::stream::{clamp_i64, position_ok, is_display_matrix_of};
use crate::sws::{SwsContext, SwsContextBuilder, with_aspect_of, SwsFrameProperties};
use crate::timespec::SeekPosition;
use crate::webp::{WebPEncoder, WebPError, MAX_QUALITY, encoder_for};
use crate::pixel::layout_of;

verus! {

#[derive(Debug, Clone)]
pub struct Video {
    pub duration_ms: i64,
    pub extensions: String,
    pub format_name: String,
    /// The decoded picture height.
    pub height: i32,
    pub mime_type: String,
    /// The decoded picture width.
    pub width: i32,
    pub codec_context: AVCodecContext,
    pub display_matrix: Option<Matrix3x3>,
    pub format_context: AVFormatContext,
    pub sws_context: SwsContext,
}

/// How the stream's display matrix turns its pictures; upright without one.
pub open spec fn orientation_of_matrix(m: Option<Matrix3x3>) -> Orientation {
    match m {
        Some(m) => m.orientation(),
        None => Orientation::Upright,
    }
}

impl Video {
    pub open spec fn wf(&self) -> bool {
        &&& self.format_context.stream.wf()
        &&& self.sws_context.input.width > 0
        &&& self.sws_context.input.height > 0
    }

    /// The mosaic layout for sampling from `start` to `end` every `step`.
    pub open spec fn layout_spec(&self, start: SeekPosition, end: SeekPosition, step: SeekPosition) -> Result<MosaicLayout, VideoError> {
        let it = sampling(self.format_context.stream, start, end, step);
        let count = ceil_div(it.end - it.next_timestamp, it.step as int);
        if count < 1 {
            Err(VideoError::NoFramesInFilmStrip(clamp_i64(count)))
        } else {
            let n = clamp_i64(count);
            Ok(MosaicLayout {
                tile_count: n,
                tile_width: self.sws_context.output.width,
                tile_height: self.sws_context.output.height,
                columns: if n < MAX_FILM_WIDTH { n } else { MAX_FILM_WIDTH },
                rows: ceil_div(n as int, MAX_FILM_WIDTH as int) as i64,
                orientation: orientation_of_matrix(self.display_matrix),
            })
        }
    }

    /// Assembles the facade from an opened container and decoder; frames are
    /// scaled to `w` by `h`, a side below 1 following the picture's aspect ratio.
    pub fn new(format_context: AVFormatContext, codec_context: AVCodecContext, w: i32, h: i32) -> (r: Video)
        requires
            format_context.stream.wf(),
            codec_context.width > 0,
            codec_context.height > 0,
        ensures
            r.wf(),
            r.duration_ms == format_context.stream.duration_millis_spec(),
            r.extensions == format_context.input.extensions,
            r.format_name == format_context.input.format_name,
            r.mime_type == format_context.input.mime_type,
            r.width == codec_context.width,
            r.height == codec_context.height,
            r.codec_context == codec_context,
            r.format_context == format_context,
            is_display_matrix_of(format_context.stream.side_data@, r.display_matrix),
            r.sws_context.input == (SwsFrameProperties {
                width: codec_context.width,
                height: codec_context.height,
                pixel_format: codec_context.format,
            }),
            r.sws_context.output == with_aspect_of(
                SwsFrameProperties { width: w, height: h, pixel_format: crate::pixel::PixelFormat::Yuv420p },
                r.sws_context.input,
            ),
    {
        let mut builder = SwsContextBuilder::from_codec_context(&codec_context);
        builder.width(w);
        builder.height(h);
        let sws_context = builder.build();
        let display_matrix = format_context.stream.display_matrix();
        Video {
            duration_ms: format_context.stream.duration_millis(),
            extensions: format_context.input.extensions.clone(),
            format_name: format_context.input.format_name.clone(),
            height: codec_context.height,
            mime_type: format_context.input.mime_type.clone(),
            width: codec_context.width,
            codec_context,
            display_matrix,
            format_context,
            sws_context,
        }
    }

    /// The tick to seek to before sampling from `position`; the decoder is
    /// flushed and the container moved back to the keyframe at or before it.
    pub fn seek(&self, position: SeekPosition) -> (r: i64)
        requires
            self.wf(),
            position_ok(position),
        ensures
            r == self.format_context.stream.ticks(position),
    {
        self.format_context.seek(position)
    }

    /// The sampling of frames from `start` up to `end`, one every `step`.
    pub fn frames(&self, start: SeekPosition, end: SeekPosition, step: SeekPosition) -> (r: AVFrameIter)
        requires
            self.wf(),
            position_ok(start),
            position_ok(end),
            position_ok(step),
        ensures
            r == sampling(self.format_context.stream, start, end, step),
    {
        self.format_context.frames(start, end, step)
    }

    /// The layout of the mosaic of frames from `start` to `end` every `step`:
    /// `ceil((end - start) / step)` tiles in ticks, at most eight to a row,
    /// rows and columns swapped for a quarter turn. Fails with
    /// `NoFramesInFilmStrip` when that count is below 1.
    pub fn mosaic_layout(&self, start: SeekPosition, end: SeekPosition, step: SeekPosition) -> (r: Result<MosaicLayout, VideoError>)
        requires
            self.wf(),
            position_ok(start),
            position_ok(end),
            position_ok(step),
        ensures
            r == self.layout_spec(start, end, step),
            r matches Ok(l) ==> l.wf(),
    {
        let it = self.frames(start, end, step);
        let diff: i128 = it.end as i128 - it.next_timestamp as i128;
        let st = it.step as i128;
        let count: i128 = if diff >= 0 { (diff + st - 1) / st } else { -((-diff) / st) };
        if count < 1 {
            let c: i64 = if count < i64::MIN as i128 { i64::MIN } else { count as i64 };
            return Err(VideoError::NoFramesInFilmStrip(c));
        }
        let n: i64 = if count > i64::MAX as i128 { i64::MAX } else { count as i64 };
        let orientation = match self.display_matrix {
            Some(m) => m.rotation(),
            None => Orientation::Upright,
        };
        Ok(MosaicLayout {
            tile_count: n,
            tile_width: self.sws_context.width(),
            tile_height: self.sws_context.height(),
            columns: if n < MAX_FILM_WIDTH { n } else { MAX_FILM_WIDTH },
            rows: n / MAX_FILM_WIDTH + if n % MAX_FILM_WIDTH != 0 { 1 } else { 0 },
            orientation,
        })
    }

    /// The mosaic of `tiles`, the frames sampled from `start` to `end` every
    /// `step` and scaled: laid out by `mosaic_layout`, composed, then turned
    /// once by the display matrix.
    pub fn film_strip(&self, start: SeekPosition, end: SeekPosition, step: SeekPosition, tiles: &Vec<AVFrame>) -> (r: Result<AVFrame, VideoError>)
        requires
            self.wf(),
            position_ok(start),
            position_ok(end),
            position_ok(step),
            forall|i: int| 0 <= i < tiles@.len() ==> #[trigger] tiles@[i].wf(),
        ensures
            match self.layout_spec(start, end, step) {
                Err(e) => r == Err::<AVFrame, VideoError>(e),
                Ok(l) => {
                    &&& (r is Ok) <==> picture_size_ok(
                        l.tile_width * l.grid_columns(),
                        l.tile_height * l.grid_rows(),
                    )
                    &&& r is Err ==> r == Err::<AVFrame, VideoError>(VideoError::Rumpeg(RumpegError::AVFrameCreation))
                    &&& r matches Ok(f) ==> (l.orientation == Orientation::Upright ==> is_composition(l, tiles@, f))
                    &&& r matches Ok(f) ==> (l.orientation != Orientation::Upright ==> exists|pre: AVFrame|
                        is_composition(l, tiles@, pre) && transform_result(pre, self.display_matrix.unwrap(), f))
                },
            },
    {
        let layout = match self.mosaic_layout(start, end, step) {
            Ok(l) => l,
            Err(e) => return Err(e),
        };
        let mut film = match layout.compose(tiles) {
            Ok(f) => f,
            Err(e) => return Err(VideoError::Rumpeg(e)),
        };
        let ghost pre = film;
        if let Some(m) = self.display_matrix {
            match film.transform(&m) {
                Ok(()) => {},
                Err(e) => {
                    proof {
                        crate::frame::lemma_picture_size_symmetric(pre.width as int, pre.height as int);
                    }
                    return Err(VideoError::Rumpeg(e));
                },
            }
        }
        Ok(film)
    }

    /// Prepares a scaled frame for encoding at `quality` (0 to 100): the
    /// display matrix is applied to it, then the encoder's input is chosen
    /// (see `encoder_for`).
    pub fn frame_to_webp(&self, frame: &mut AVFrame, quality: u8) -> (r: Result<WebPEncoder, VideoError>)
        requires
            old(frame).wf(),
            quality <= MAX_QUALITY,
        ensures
            orientation_of_matrix(self.display_matrix) == Orientation::Upright ==> *final(frame)
                == *old(frame),
            orientation_of_matrix(self.display_matrix) != Orientation::Upright ==> {
                let turned = picture_size_ok(old(frame).width as int, old(frame).height as int)
                    && layout_of(old(frame).format) is Some;
                &&& turned ==> transform_result(*old(frame), self.display_matrix.unwrap(), *final(frame))
                &&& !turned ==> r == Err::<WebPEncoder, VideoError>(VideoError::Rumpeg(RumpegError::AVFrameCreation))
            },
            r matches Ok(enc) ==> encoder_for(*final(frame), quality) == Ok::<WebPEncoder, WebPError>(enc),
            r matches Err(VideoError::Rumpeg(RumpegError::WebPError(e))) ==> encoder_for(*final(frame), quality)
                == Err::<WebPEncoder, WebPError>(e),
            encoder_for(*final(frame), quality) is Ok && (orientation_of_matrix(self.display_matrix)
                == Orientation::Upright || (picture_size_ok(old(frame).width as int, old(frame).height as int)
                && layout_of(old(frame).format) is Some)) ==> r is Ok,
    {
        if let Some(m) = self.display_matrix {
            match frame.transform(&m) {
                Ok(()) => {},
                Err(e) => {
                    proof {
                        crate::frame::lemma_picture_size_symmetric(
                            old(frame).width as int,
                            old(frame).height as int,
                        );
                    }
                    return Err(VideoError::Rumpeg(e));
                },
            }
        }
        match WebPEncoder::new(frame, quality) {
            Ok(enc) => Ok(enc),
            Err(e) => Err(VideoError::Rumpeg(RumpegError::WebPError(e))),
        }
    }
}

} // verus!
