//! Frame sampling as a state machine. The caller performs each action (read a
//! packet, decode it, hand a frame out, seek) and reports what happened as the
//! next event; the machine decides what comes next.

use vstd::prelude::*;
use crate::averror::AVERROR_EOF;

verus! {

/// What happened since the last action.
#[derive(Debug, Clone, Copy, PartialEq, Eq, Structural)]
pub enum FrameEvent {
    /// The caller asks for the next frame.
    Resume,
    /// A packet of stream `stream_index` was read.
    Packet { stream_index: i32 },
    /// Reading a packet failed with this native code.
    ReadFailed { code: i32 },
    /// The decoder produced a frame with this presentation time.
    Received { pts: i64 },
    /// The decoder needs more input before it can produce a frame.
    NoFrame,
    /// Receiving a frame failed with this native code.
    ReceiveFailed { code: i32 },
}

/// What the caller does next.
#[derive(Debug, Clone, Copy, PartialEq, Eq, Structural)]
pub enum FrameAction {
    /// Read the next packet of the container.
    ReadPacket,
    /// Send the packet to the decoder and try to receive a frame.
    Decode,
    /// Hand the frame just received to the caller.
    Emit,
    /// Flush the decoder, seek the container back to the keyframe at or
    /// before `target`, then hand the frame just received to the caller.
    SeekThenEmit { target: i64 },
    /// The sequence is over.
    Finish,
}

#[derive(Debug, Clone, Copy, PartialEq, Eq, Structural)]
pub enum IterState {
    /// Between two frames: waiting for the caller to ask.
    Idle,
    /// Looking for the next frame.
    Pulling,
    /// Finished: at the end position, or at the end of the container.
    Done,
}

/// Samples the frames of one stream from a start tick up to an end tick,
/// one frame every `step` ticks at least.
#[derive(Debug, Clone, Copy, PartialEq, Eq, Structural)]
pub struct AVFrameIter {
    pub stream_index: i32,
    pub step: i64,
    /// The earliest presentation time that the next frame may have.
    pub next_timestamp: i64,
    pub end: i64,
    /// Whether to seek ahead after each frame instead of decoding every frame
    /// in between.
    pub seek_to_step: bool,
    pub state: IterState,
}

/// `a + b`, saturating at the top of the 64-bit range.
pub open spec fn saturating_sum(a: i64, b: i64) -> i64 {
    if a + b > i64::MAX {
        i64::MAX
    } else {
        (a + b) as i64
    }
}

/// The machine's rule: the state and action that follow `s` on event `e`.
pub open spec fn transition(s: AVFrameIter, e: FrameEvent) -> (AVFrameIter, FrameAction) {
    match s.state {
        IterState::Done => (s, FrameAction::Finish),
        IterState::Idle => match e {
            FrameEvent::Resume => if s.next_timestamp >= s.end {
                (AVFrameIter { state: IterState::Done, ..s }, FrameAction::Finish)
            } else {
                (AVFrameIter { state: IterState::Pulling, ..s }, FrameAction::ReadPacket)
            },
            _ => (s, FrameAction::Finish),
        },
        IterState::Pulling => match e {
            FrameEvent::Resume => (s, FrameAction::ReadPacket),
            FrameEvent::Packet { stream_index } => if stream_index == s.stream_index {
                (s, FrameAction::Decode)
            } else {
                (s, FrameAction::ReadPacket)
            },
            FrameEvent::ReadFailed { code } => if code == AVERROR_EOF {
                (AVFrameIter { state: IterState::Done, ..s }, FrameAction::Finish)
            } else {
                (s, FrameAction::ReadPacket)
            },
            FrameEvent::NoFrame => (s, FrameAction::ReadPacket),
            FrameEvent::ReceiveFailed { code } => if code == AVERROR_EOF {
                (AVFrameIter { state: IterState::Done, ..s }, FrameAction::Finish)
            } else {
                (s, FrameAction::ReadPacket)
            },
            FrameEvent::Received { pts } => if pts >= s.next_timestamp {
                let next = saturating_sum(pts, s.step);
                (
                    AVFrameIter { state: IterState::Idle, next_timestamp: next, ..s },
                    if s.seek_to_step {
                        FrameAction::SeekThenEmit { target: next }
                    } else {
                        FrameAction::Emit
                    },
                )
            } else {
                (s, FrameAction::ReadPacket)
            },
        },
    }
}

pub open spec fn emits(a: FrameAction) -> bool {
    a == FrameAction::Emit || a is SeekThenEmit
}

/// The state after `events`, and the presentation times of the frames handed
/// out on the way.
pub open spec fn run(s: AVFrameIter, events: Seq<FrameEvent>) -> (AVFrameIter, Seq<i64>)
    decreases events.len(),
{
    if events.len() == 0 {
        (s, Seq::empty())
    } else {
        let (mid, out) = run(s, events.drop_last());
        let e = events.last();
        let (next, a) = transition(mid, e);
        if emits(a) {
            (next, out.push(e->Received_pts))
        } else {
            (next, out)
        }
    }
}

impl AVFrameIter {
    /// A machine that starts at `start`, stops at `end` and takes one frame
    /// every `step` ticks at least.
    pub fn new(
        stream_index: i32,
        start: i64,
        end: i64,
        step: i64,
        seek_to_step: bool,
    ) -> (r: AVFrameIter)
        requires
            step >= 1,
        ensures
            r == (AVFrameIter {
                stream_index,
                step,
                next_timestamp: start,
                end,
                seek_to_step,
                state: IterState::Idle,
            }),
    {
        AVFrameIter { stream_index, step, next_timestamp: start, end, seek_to_step, state: IterState::Idle }
    }

    /// Takes one event and returns the action that follows it: see `transition`.
    /// A frame is handed out only while the machine is looking for one and only
    /// when its presentation time is at or after `next_timestamp`, which then
    /// moves to that time plus `step`. The end of the container ends the
    /// sequence; other read and decode failures are passed over.
    pub fn step(&mut self, event: FrameEvent) -> (r: FrameAction)
        requires
            old(self).step >= 1,
        ensures
            (*final(self), r) == transition(*old(self), event),
    {
        match self.state {
            IterState::Done => FrameAction::Finish,
            IterState::Idle => match event {
                FrameEvent::Resume => {
                    if self.next_timestamp >= self.end {
                        self.state = IterState::Done;
                        FrameAction::Finish
                    } else {
                        self.state = IterState::Pulling;
                        FrameAction::ReadPacket
                    }
                },
                _ => FrameAction::Finish,
            },
            IterState::Pulling => match event {
                FrameEvent::Resume => FrameAction::ReadPacket,
                FrameEvent::Packet { stream_index } => {
                    if stream_index == self.stream_index {
                        FrameAction::Decode
                    } else {
                        FrameAction::ReadPacket
                    }
                },
                FrameEvent::ReadFailed { code } | FrameEvent::ReceiveFailed { code } => {
                    if code == AVERROR_EOF {
                        self.state = IterState::Done;
                        FrameAction::Finish
                    } else {
                        FrameAction::ReadPacket
                    }
                },
                FrameEvent::NoFrame => FrameAction::ReadPacket,
                FrameEvent::Received { pts } => {
                    if pts >= self.next_timestamp {
                        let sum = pts as i128 + self.step as i128;
                        let next = if sum > i64::MAX as i128 {
                            i64::MAX
                        } else {
                            sum as i64
                        };
                        self.next_timestamp = next;
                        self.state = IterState::Idle;
                        if self.seek_to_step {
                            FrameAction::SeekThenEmit { target: next }
                        } else {
                            FrameAction::Emit
                        }
                    } else {
                        FrameAction::ReadPacket
                    }
                },
            },
        }
    }
}

/// How many frames a sampling from `start` to `end` every `step` ticks may
/// hold: `ceil((end - start) / step)`, and none for an empty range.
pub open spec fn frames_between(start: int, end: int, step: int) -> int {
    if end <= start {
        0
    } else {
        (end - start + step - 1) / step
    }
}

/// What holds after any run of events from an idle machine.
proof fn lemma_run_invariant(s0: AVFrameIter, events: Seq<FrameEvent>)
    requires
        s0.state == IterState::Idle,
        s0.step >= 1,
    ensures
        ({
            let (s, out) = run(s0, events);
            &&& s.step == s0.step && s.end == s0.end && s.stream_index == s0.stream_index
                && s.seek_to_step == s0.seek_to_step
            &&& s.next_timestamp >= s0.next_timestamp
            &&& out.len() == 0 ==> s.next_timestamp == s0.next_timestamp
            &&& out.len() > 0 ==> s.next_timestamp == saturating_sum(out.last(), s0.step)
            &&& out.len() > 0 ==> out[0] >= s0.next_timestamp
            &&& forall|i: int|
                0 <= i < out.len() - 1 ==> #[trigger] out[i + 1] >= saturating_sum(
                    out[i],
                    s0.step,
                )
            &&& s.next_timestamp == i64::MAX || s.next_timestamp >= s0.next_timestamp
                + out.len() * s0.step
            &&& out.len() > 0 ==> s0.next_timestamp + (out.len() - 1) * s0.step < s0.end
            &&& s.state == IterState::Pulling ==> s.next_timestamp < s.end
        }),
    decreases events.len(),
{
    if events.len() > 0 {
        lemma_run_invariant(s0, events.drop_last());
        let (mid, out) = run(s0, events.drop_last());
        let e = events.last();
        let (next, a) = transition(mid, e);
        let k = out.len();
        if emits(a) {
            let pts = e->Received_pts;
            assert(mid.state == IterState::Pulling);
            assert(pts >= mid.next_timestamp);
            assert(mid.next_timestamp != i64::MAX);
            assert(mid.next_timestamp >= s0.next_timestamp + k * s0.step);
            assert(saturating_sum(pts, s0.step) == i64::MAX || saturating_sum(pts, s0.step)
                >= s0.next_timestamp + (k + 1) * s0.step) by (nonlinear_arith)
                requires
                    pts >= s0.next_timestamp + k * s0.step,
                    saturating_sum(pts, s0.step) == i64::MAX || saturating_sum(pts, s0.step)
                        == pts + s0.step,
            ;
            let out2 = out.push(pts);
            assert forall|i: int| 0 <= i < out2.len() - 1 implies #[trigger] out2[i + 1]
                >= saturating_sum(out2[i], s0.step) by {
                if i + 1 < k {
                    assert(out2[i + 1] == out[i + 1] && out2[i] == out[i]);
                } else {
                    assert(out2[i + 1] == pts && out2[i] == out.last());
                }
            }
        }
    }
}

/// Frames come out in order and spaced: each one handed out is at least
/// `step` ticks after the one before it (or at the top of the tick range),
/// and the first is no earlier than the start.
pub proof fn lemma_frames_spaced(s0: AVFrameIter, events: Seq<FrameEvent>)
    requires
        s0.state == IterState::Idle,
        s0.step >= 1,
    ensures
        ({
            let out = run(s0, events).1;
            &&& out.len() > 0 ==> out[0] >= s0.next_timestamp
            &&& forall|i: int|
                0 <= i < out.len() - 1 ==> #[trigger] out[i + 1] >= saturating_sum(
                    out[i],
                    s0.step,
                )
        }),
{
    lemma_run_invariant(s0, events);
}

/// A sampling never hands out more frames than fit between its start and
/// end: at most `ceil((end - start) / step)`, whatever the events.
pub proof fn lemma_frame_count_bound(s0: AVFrameIter, events: Seq<FrameEvent>)
    requires
        s0.state == IterState::Idle,
        s0.step >= 1,
    ensures
        run(s0, events).1.len() <= frames_between(
            s0.next_timestamp as int,
            s0.end as int,
            s0.step as int,
        ),
{
    lemma_run_invariant(s0, events);
    let n = run(s0, events).1.len() as int;
    if n > 0 {
        let d = s0.end - s0.next_timestamp;
        let st = s0.step as int;
        assert(n <= (d + st - 1) / st) by (nonlinear_arith)
            requires
                (n - 1) * st < d,
                st >= 1,
                n >= 1,
        ;
    }
}

} // verus!
