use vidthumb::averror::{
    AVERROR, AVERROR_DECODER_NOT_FOUND, AVERROR_EOF, AVERROR_INVALIDDATA, AVERROR_STREAM_NOT_FOUND,
    AVERROR_UNKNOWN, AVUNERROR, EAGAIN, FFERRTAG, MKTAG,
};
use vidthumb::codec::AVCodecContext;
use vidthumb::error::{RumpegError, VideoError};
use vidthumb::format::{AVFormatContext, AVInputFormat};
use vidthumb::frame::AVFrame;
use vidthumb::iter::{AVFrameIter, FrameAction, FrameEvent, IterState};
use vidthumb::matrix::{MathError, Matrix3x3, Orientation};
use vidthumb::pixel::{CodecId, PixelFormat};
use vidthumb::stream::{AVStream, Rational, SideData};
use vidthumb::sws::{SwsContextBuilder, SwsFrameProperties, SWS_ACCURATE_RND, SWS_SINC};
use vidthumb::timespec::{Fraction, SeekPosition};
use vidthumb::video::Video;
use vidthumb::webp::{webp_error, WebPEncoder, WebPError, WebPSource};

const QUARTER: [i32; 9] = [0, 65536, 0, -65536, 0, 0, 0, 0, 1 << 30];
const IDENTITY: [i32; 9] = [65536, 0, 0, 0, 65536, 0, 0, 0, 1 << 30];

fn blob(m: [i32; 9]) -> Vec<u8> {
    let mut b = Vec::new();
    for v in m {
        b.extend_from_slice(&v.to_le_bytes());
    }
    b
}

fn stream(side_data: Vec<SideData>) -> AVStream {
    AVStream {
        index: 0,
        time_base: Rational { num: 1, den: 15360 },
        duration: 153600,
        r_frame_rate: Rational { num: 30, den: 1 },
        side_data,
    }
}

fn video(w: i32, h: i32, side_data: Vec<SideData>) -> Video {
    let fc = AVFormatContext {
        stream: stream(side_data),
        input: AVInputFormat::new(Some("mp4".to_string()), None, None),
    };
    let cc = AVCodecContext::new(CodecId::H264, 1920, 1080, PixelFormat::Yuv420p).unwrap();
    Video::new(fc, cc, w, h)
}

fn small_frame(luma: [u8; 8], cb: [u8; 2], cr: [u8; 2]) -> AVFrame {
    let mut f = AVFrame::new(PixelFormat::Yuv420p, 4, 2).unwrap();
    f.planes[0] = luma.to_vec();
    f.planes[1] = cb.to_vec();
    f.planes[2] = cr.to_vec();
    f
}

#[test]
fn error_tags() {
    assert_eq!(MKTAG(b'E', b'O', b'F', b' '), 0x2046_4F45);
    assert_eq!(FFERRTAG(b'E', b'O', b'F', b' '), AVERROR_EOF);
    assert_eq!(FFERRTAG(0xF8, b'D', b'E', b'C'), AVERROR_DECODER_NOT_FOUND);
    assert_eq!(FFERRTAG(0xF8, b'S', b'T', b'R'), AVERROR_STREAM_NOT_FOUND);
    assert_eq!(FFERRTAG(b'I', b'N', b'D', b'A'), AVERROR_INVALIDDATA);
    assert_eq!(FFERRTAG(b'U', b'N', b'K', b'N'), AVERROR_UNKNOWN);
    assert_eq!(AVERROR(EAGAIN), -11);
    assert_eq!(AVUNERROR(-11), 11);
}

#[test]
fn matrix_parsing_and_rotation() {
    let m = Matrix3x3::from_side_data(&blob(IDENTITY)).unwrap();
    assert_eq!(m.rotation(), Orientation::Upright);
    assert_eq!(m.rotation().degrees(), Some(0));
    let q = Matrix3x3::from_side_data(&blob(QUARTER)).unwrap();
    assert_eq!(q.rotation(), Orientation::Quarter);
    assert_eq!(q.rotation().degrees(), Some(90));
    let mq = Matrix3x3 { data: [0, -65536, 0, 65536, 0, 0, 0, 0, 1 << 30] };
    assert_eq!(mq.rotation().degrees(), Some(-90));
    let half = Matrix3x3 { data: [-65536, 0, 0, 0, -65536, 0, 0, 0, 1 << 30] };
    assert_eq!(half.rotation().degrees(), Some(180));
    let oblique = Matrix3x3 { data: [46341, 46341, 0, -46341, 46341, 0, 0, 0, 1 << 30] };
    assert_eq!(oblique.rotation(), Orientation::Oblique);
    let singular = Matrix3x3 { data: [0; 9] };
    assert_eq!(singular.rotation(), Orientation::Upright);
    assert_eq!(
        Matrix3x3::from_side_data(&[0u8; 35]).unwrap_err(),
        MathError::InvalidSideDataSize(35)
    );
}

#[test]
fn frame_allocation() {
    let f = AVFrame::new(PixelFormat::Yuv420p, 5, 3).unwrap();
    assert_eq!(f.linesize, [5, 3, 3]);
    assert_eq!(f.plane_height(0), 3);
    assert_eq!(f.plane_height(1), 2);
    assert_eq!(f.size(0), 15);
    assert_eq!(f.size(1), 6);
    assert!(f.data(2).iter().all(|b| *b == 0));
    let rgb = AVFrame::new(PixelFormat::Rgb24, 4, 2).unwrap();
    assert_eq!(rgb.linesize, [12, 0, 0]);
    assert_eq!(rgb.size(1), 0);
    assert_eq!(AVFrame::new(PixelFormat::Yuv420p, 0, 2).unwrap_err(), RumpegError::AVFrameCreation);
    assert_eq!(AVFrame::new(PixelFormat::Other(77), 4, 2).unwrap_err(), RumpegError::AVFrameCreation);
    assert_eq!(AVFrame::new(PixelFormat::Yuv420p, 100000, 100000).unwrap_err(), RumpegError::AVFrameCreation);
}

#[test]
fn upright_matrix_leaves_frame() {
    let mut f = small_frame([1, 2, 3, 4, 5, 6, 7, 8], [9, 10], [11, 12]);
    let before = f.clone();
    f.transform(&Matrix3x3 { data: IDENTITY }).unwrap();
    assert_eq!(f.planes, before.planes);
    assert_eq!((f.width, f.height), (4, 2));
}

#[test]
fn quarter_turn_swaps_dimensions_and_rotates() {
    let mut f = small_frame([1, 2, 3, 4, 5, 6, 7, 8], [9, 10], [11, 12]);
    f.pts = 42;
    f.transform(&Matrix3x3 { data: QUARTER }).unwrap();
    assert_eq!((f.width, f.height), (2, 4));
    assert_eq!(f.pts, 42);
    assert_eq!(f.linesize, [2, 1, 1]);
    assert_eq!(f.planes[0], vec![5, 1, 6, 2, 7, 3, 8, 4]);
    assert_eq!(f.planes[1], vec![9, 10]);
    assert_eq!(f.planes[2], vec![11, 12]);
}

#[test]
fn codec_pixel_format_resolution() {
    let c = AVCodecContext::new(CodecId::Hevc, 640, 480, PixelFormat::Unset).unwrap();
    assert_eq!(c.format, PixelFormat::Yuv420p);
    let j = AVCodecContext::new(CodecId::Other(5), 640, 480, PixelFormat::Yuvj422p).unwrap();
    assert_eq!(j.format, PixelFormat::Yuv422p);
    assert_eq!(
        AVCodecContext::new(CodecId::Other(99), 640, 480, PixelFormat::Unset).unwrap_err(),
        RumpegError::PixelFormatMissing(99)
    );
}

#[test]
fn scaler_aspect_ratio_and_flags() {
    let cc = AVCodecContext::new(CodecId::H264, 1920, 1080, PixelFormat::Yuv420p).unwrap();
    let mut b = SwsContextBuilder::from_codec_context(&cc);
    b.width(320);
    let s = b.build();
    assert_eq!((s.width(), s.height()), (320, 180));
    assert_eq!(s.flags(), SWS_SINC);
    let mut p = SwsFrameProperties { width: 0, height: 240, pixel_format: PixelFormat::Yuv420p };
    p.copy_aspect_ratio(SwsFrameProperties { width: 1920, height: 1080, pixel_format: PixelFormat::Yuv420p });
    assert_eq!((p.width, p.height), (426, 240));
    let mut both = SwsFrameProperties { width: 0, height: 0, pixel_format: PixelFormat::Yuv420p };
    both.copy_aspect_ratio(SwsFrameProperties { width: 1918, height: 1080, pixel_format: PixelFormat::Yuv420p });
    assert_eq!((both.width, both.height), (1918, 1080));
    let mut odd = SwsContextBuilder::from_codec_context(
        &AVCodecContext::new(CodecId::H264, 1918, 1080, PixelFormat::Yuv420p).unwrap(),
    );
    odd.pixel_format(PixelFormat::Rgb24);
    let mut s2 = odd.build();
    assert_eq!(s2.flags(), SWS_SINC | SWS_ACCURATE_RND);
    assert_eq!(s2.output.pixel_format, PixelFormat::Rgb24);
    s2.resize_output(0, 540);
    assert_eq!((s2.width(), s2.height()), (959, 540));
}

#[test]
fn encoder_choices() {
    assert_eq!(webp_error(5), "Picture has invalid width/height [VP8_ENC_ERROR_BAD_DIMENSION]");
    assert_eq!(webp_error(0), "Everything ok [VP8_ENC_OK]");
    assert_eq!(webp_error(-3), "Unknown error code");
    assert_eq!(WebPError::from_code(99), WebPError::Encoding(99, "Unknown error code".to_string()));
    let f = small_frame([0; 8], [0; 2], [0; 2]);
    assert_eq!(
        WebPEncoder::new(&f, 50).unwrap(),
        WebPEncoder {
            width: 4,
            height: 2,
            quality: 50,
            source: WebPSource::PlanarYuv { y_stride: 4, uv_stride: 2 },
        }
    );
    let rgb = AVFrame::new(PixelFormat::Rgb24, 4, 2).unwrap();
    assert_eq!(WebPEncoder::new(&rgb, 75).unwrap().source, WebPSource::PackedRgb { stride: 12 });
    let other = AVFrame::new(PixelFormat::Yuv422p, 4, 2).unwrap();
    assert_eq!(
        WebPEncoder::new(&other, 50).unwrap_err(),
        WebPError::FormatNotSupported(PixelFormat::Yuv422p)
    );
}

#[test]
fn mosaic_tile_count() {
    let v = video(320, 0, Vec::new());
    let l = v
        .mosaic_layout(SeekPosition::Seconds(0), SeekPosition::Seconds(10), SeekPosition::Seconds(2))
        .unwrap();
    assert_eq!(l.tile_count, 5);
    assert_eq!((l.columns, l.rows), (5, 1));
    assert_eq!((l.tile_width, l.tile_height), (320, 180));
    assert_eq!(
        v.mosaic_layout(SeekPosition::Seconds(5), SeekPosition::Seconds(5), SeekPosition::Seconds(1)),
        Err(VideoError::NoFramesInFilmStrip(0))
    );
    let many = v
        .mosaic_layout(SeekPosition::Seconds(0), SeekPosition::Seconds(10), SeekPosition::Seconds(1))
        .unwrap();
    assert_eq!((many.tile_count, many.columns, many.rows), (10, 8, 2));
}

#[test]
fn mosaic_turned_layout_swaps_grid() {
    let v = video(4, 2, vec![SideData { display_matrix: true, data: blob(QUARTER) }]);
    let l = v
        .mosaic_layout(SeekPosition::Seconds(0), SeekPosition::Seconds(10), SeekPosition::Seconds(1))
        .unwrap();
    assert_eq!(l.orientation, Orientation::Quarter);
    assert_eq!((l.columns, l.rows), (8, 2));
    let tiles = vec![small_frame([1; 8], [2; 2], [3; 2])];
    let film = v
        .film_strip(SeekPosition::Seconds(0), SeekPosition::Seconds(10), SeekPosition::Seconds(1), &tiles)
        .unwrap();
    // The grid is 2 tiles across and 8 down before the turn, 16 by 8 pixels;
    // the quarter turn makes it 16 wide and 8 high.
    assert_eq!((film.width, film.height), (16, 8));
}

#[test]
fn mosaic_places_tiles_and_fills_gaps() {
    let v = video(4, 2, Vec::new());
    let tiles = vec![
        small_frame([1, 2, 3, 4, 5, 6, 7, 8], [21, 22], [41, 42]),
        small_frame([11, 12, 13, 14, 15, 16, 17, 18], [31, 32], [51, 52]),
    ];
    let film = v
        .film_strip(SeekPosition::Seconds(0), SeekPosition::Seconds(3), SeekPosition::Seconds(1), &tiles)
        .unwrap();
    assert_eq!((film.width, film.height), (12, 2));
    assert_eq!(film.format, PixelFormat::Yuv420p);
    assert_eq!(
        film.planes[0],
        vec![1, 2, 3, 4, 11, 12, 13, 14, 0, 0, 0, 0, 5, 6, 7, 8, 15, 16, 17, 18, 0, 0, 0, 0]
    );
    assert_eq!(film.planes[1], vec![21, 22, 31, 32, 128, 128]);
    assert_eq!(film.planes[2], vec![41, 42, 51, 52, 128, 128]);
}

#[test]
fn mosaic_too_large_fails() {
    let v = video(4000, 0, Vec::new());
    let r = v.film_strip(SeekPosition::Seconds(0), SeekPosition::Seconds(10), SeekPosition::TimeBase(1), &Vec::new());
    assert_eq!(r.unwrap_err(), VideoError::Rumpeg(RumpegError::AVFrameCreation));
}

#[test]
fn frame_to_webp_turns_then_plans() {
    let v = video(4, 2, vec![SideData { display_matrix: true, data: blob(QUARTER) }]);
    let mut f = small_frame([1, 2, 3, 4, 5, 6, 7, 8], [9, 10], [11, 12]);
    let enc = v.frame_to_webp(&mut f, 50).unwrap();
    assert_eq!((enc.width, enc.height), (2, 4));
    assert_eq!(enc.source, WebPSource::PlanarYuv { y_stride: 2, uv_stride: 1 });
    let plain = video(4, 2, Vec::new());
    let mut g = small_frame([1; 8], [2; 2], [3; 2]);
    let enc = plain.frame_to_webp(&mut g, 100).unwrap();
    assert_eq!((enc.width, enc.height, enc.quality), (4, 2, 100));
}

#[test]
fn video_metadata() {
    let v = video(320, 0, Vec::new());
    assert_eq!(v.duration_ms, 10000);
    assert_eq!(v.extensions, "mp4");
    assert_eq!(v.format_name, "N/A");
    assert_eq!((v.width, v.height), (1920, 1080));
    assert_eq!(v.seek(SeekPosition::Seconds(1)), 15360);
}

/// Drives the sampling over a simulated stream of frames at the given
/// presentation times, returning what was handed out and the seek targets.
fn simulate(mut it: AVFrameIter, frames: &[i64]) -> (Vec<i64>, Vec<i64>) {
    let mut out = Vec::new();
    let mut seeks = Vec::new();
    let mut next = 0usize;
    loop {
        let mut action = it.step(FrameEvent::Resume);
        let mut last_pts = 0;
        loop {
            match action {
                FrameAction::ReadPacket => {
                    action = if next < frames.len() {
                        it.step(FrameEvent::Packet { stream_index: 0 })
                    } else {
                        it.step(FrameEvent::ReadFailed { code: AVERROR_EOF })
                    };
                }
                FrameAction::Decode => {
                    last_pts = frames[next];
                    next += 1;
                    action = it.step(FrameEvent::Received { pts: last_pts });
                }
                FrameAction::Emit => {
                    out.push(last_pts);
                    break;
                }
                FrameAction::SeekThenEmit { target } => {
                    out.push(last_pts);
                    seeks.push(target);
                    while next < frames.len() && frames[next] < target {
                        next += 1;
                    }
                    break;
                }
                FrameAction::Finish => return (out, seeks),
            }
        }
    }
}

#[test]
fn ten_second_sample_gives_ten_frames() {
    let v = video(320, 0, Vec::new());
    let it = v.frames(
        SeekPosition::Seconds(0),
        SeekPosition::Percentage(Fraction { num: 1, den: 1 }),
        SeekPosition::Seconds(1),
    );
    assert!(!it.seek_to_step);
    let frames: Vec<i64> = (0..300).map(|k| k * 512).collect();
    let (out, seeks) = simulate(it, &frames);
    assert_eq!(out.len(), 10);
    assert!(seeks.is_empty());
    for w in out.windows(2) {
        assert!(w[1] >= w[0] + 15360);
    }
    assert_eq!(out[9], 9 * 15360);
}

#[test]
fn sparse_sampling_seeks_ahead() {
    let v = video(320, 0, Vec::new());
    let it = v.frames(SeekPosition::Seconds(0), SeekPosition::Seconds(10), SeekPosition::Seconds(3));
    assert!(it.seek_to_step);
    let frames: Vec<i64> = (0..300).map(|k| k * 512).collect();
    let (out, seeks) = simulate(it, &frames);
    assert_eq!(out, vec![0, 46080, 92160, 138240]);
    assert_eq!(seeks, vec![46080, 92160, 138240, 184320]);
}

#[test]
fn iterator_transitions() {
    let mut it = AVFrameIter::new(3, 100, 200, 50, false);
    assert_eq!(it.step(FrameEvent::NoFrame), FrameAction::Finish);
    assert_eq!(it.state, IterState::Idle);
    assert_eq!(it.step(FrameEvent::Resume), FrameAction::ReadPacket);
    assert_eq!(it.step(FrameEvent::Packet { stream_index: 1 }), FrameAction::ReadPacket);
    assert_eq!(it.step(FrameEvent::Packet { stream_index: 3 }), FrameAction::Decode);
    assert_eq!(it.step(FrameEvent::NoFrame), FrameAction::ReadPacket);
    assert_eq!(it.step(FrameEvent::ReadFailed { code: -5 }), FrameAction::ReadPacket);
    assert_eq!(it.step(FrameEvent::ReceiveFailed { code: -22 }), FrameAction::ReadPacket);
    assert_eq!(it.step(FrameEvent::Received { pts: 90 }), FrameAction::ReadPacket);
    assert_eq!(it.step(FrameEvent::Received { pts: 120 }), FrameAction::Emit);
    assert_eq!(it.next_timestamp, 170);
    assert_eq!(it.step(FrameEvent::Resume), FrameAction::ReadPacket);
    assert_eq!(it.step(FrameEvent::Received { pts: i64::MAX - 1 }), FrameAction::Emit);
    assert_eq!(it.next_timestamp, i64::MAX);
    assert_eq!(it.step(FrameEvent::Resume), FrameAction::Finish);
    assert_eq!(it.state, IterState::Done);
    assert_eq!(it.step(FrameEvent::Resume), FrameAction::Finish);
    let mut eof = AVFrameIter::new(0, 0, 10, 1, false);
    eof.step(FrameEvent::Resume);
    assert_eq!(eof.step(FrameEvent::ReadFailed { code: AVERROR_EOF }), FrameAction::Finish);
    assert_eq!(eof.state, IterState::Done);
}

#[test]
fn sampling_depends_only_on_timing() {
    let plain = video(320, 0, Vec::new());
    let turned = video(320, 0, vec![SideData { display_matrix: true, data: blob(QUARTER) }]);
    let frames: Vec<i64> = (0..300).map(|k| k * 512).collect();
    let a = simulate(
        plain.frames(SeekPosition::Seconds(1), SeekPosition::Seconds(8), SeekPosition::Milliseconds(2500)),
        &frames,
    );
    let b = simulate(
        turned.frames(SeekPosition::Seconds(1), SeekPosition::Seconds(8), SeekPosition::Milliseconds(2500)),
        &frames,
    );
    assert_eq!(a, b);
    assert_eq!(a.0, vec![15360, 53760, 92160]);
}
