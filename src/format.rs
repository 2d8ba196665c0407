//! The opened container: its input format and its selected video stream.

use vstd::prelude::*;
use crate::iter::{AVFrameIter, FrameEvent, run};
use crate::stream::{AVStream, position_ok};
use crate::timespec::SeekPosition;

verus! {

/// The step, in seconds, above which sampling seeks ahead instead of
/// decoding every frame.
pub const SEEK_STEP_SECONDS: i64 = 2;

/// The names a container format goes by.
#[derive(Debug, Clone, PartialEq, Eq)]
pub struct AVInputFormat {
    pub extensions: String,
    pub format_name: String,
    pub mime_type: String,
}

impl AVInputFormat {
    /// The format's names, `N/A` for each that the format does not give.
    pub fn new(extensions: Option<String>, format_name: Option<String>, mime_type: Option<String>) -> (r: AVInputFormat)
        ensures
            r.extensions@ == (match extensions {
                Some(s) => s@,
                None => "N/A"@,
            }),
            r.format_name@ == (match format_name {
                Some(s) => s@,
                None => "N/A"@,
            }),
            r.mime_type@ == (match mime_type {
                Some(s) => s@,
                None => "N/A"@,
            }),
    {
        AVInputFormat {
            extensions: or_not_available(extensions),
            format_name: or_not_available(format_name),
            mime_type: or_not_available(mime_type),
        }
    }
}

fn or_not_available(s: Option<String>) -> (r: String)
    ensures
        r@ == (match s {
            Some(t) => t@,
            None => "N/A"@,
        }),
{
    match s {
        Some(t) => t,
        None => "N/A".to_owned(),
    }
}

#[derive(Debug, Clone)]
pub struct AVFormatContext {
    pub stream: AVStream,
    pub input: AVInputFormat,
}

/// The sampling of `stream` from `start` to `end` every `step` (at least one tick).
pub open spec fn sampling(stream: AVStream, start: SeekPosition, end: SeekPosition, step: SeekPosition) -> AVFrameIter {
    let st = if stream.ticks(step) < 1 { 1i64 } else { stream.ticks(step) };
    AVFrameIter {
        stream_index: stream.index,
        step: st,
        next_timestamp: stream.ticks(start),
        end: stream.ticks(end),
        seek_to_step: st > stream.ticks(SeekPosition::Seconds(SEEK_STEP_SECONDS)),
        state: crate::iter::IterState::Idle,
    }
}

impl AVFormatContext {
    /// The tick that a seek to `position` aims at; the container is then
    /// moved back to the keyframe at or before it.
    pub fn seek(&self, position: SeekPosition) -> (r: i64)
        requires
            self.stream.wf(),
            position_ok(position),
        ensures
            r == self.stream.ticks(position),
    {
        self.stream.as_time_base(position)
    }

    /// The frames of the stream from `start` up to `end`, one every `step`
    /// (at least one tick); a step longer than two seconds seeks ahead after
    /// each frame.
    pub fn frames(&self, start: SeekPosition, end: SeekPosition, step: SeekPosition) -> (r: AVFrameIter)
        requires
            self.stream.wf(),
            position_ok(start),
            position_ok(end),
            position_ok(step),
        ensures
            r == sampling(self.stream, start, end, step),
    {
        let ticks = self.stream.as_time_base(step);
        let step = if ticks < 1 { 1 } else { ticks };
        let threshold = self.stream.as_time_base(SeekPosition::Seconds(SEEK_STEP_SECONDS));
        AVFrameIter::new(
            self.stream.index,
            self.stream.as_time_base(start),
            self.stream.as_time_base(end),
            step,
            step > threshold,
        )
    }
}

/// Sampling depends on nothing but the stream's timing and what the decoder
/// reports: two streams with the same index, time base, duration and frame
/// rate (whatever their other metadata), sampled with the same arguments and
/// fed the same events, hand out the same frames and end in the same state.
pub proof fn lemma_sampling_deterministic(
    s1: AVStream,
    s2: AVStream,
    start: SeekPosition,
    end: SeekPosition,
    step: SeekPosition,
    events: Seq<FrameEvent>,
)
    requires
        s1.index == s2.index,
        s1.time_base == s2.time_base,
        s1.duration == s2.duration,
        s1.r_frame_rate == s2.r_frame_rate,
    ensures
        run(sampling(s1, start, end, step), events) == run(sampling(s2, start, end, step), events),
{
    assert(s1.ticks(start) == s2.ticks(start));
    assert(s1.ticks(end) == s2.ticks(end));
    assert(s1.ticks(step) == s2.ticks(step));
    assert(s1.ticks(SeekPosition::Seconds(SEEK_STEP_SECONDS)) == s2.ticks(
        SeekPosition::Seconds(SEEK_STEP_SECONDS),
    ));
    assert(sampling(s1, start, end, step) == sampling(s2, start, end, step));
}

} // verus!
