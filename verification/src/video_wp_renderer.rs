//! The playback clock: once per presentation tick it decides whether the
//! next frame is taken from the queue or the last one is shown again.

use vstd::prelude::*;
use crate::frame_pool::FramePoolHandle;
use crate::frames::{OrderedFramesContainer, TimedVideoFrame};
use crate::utils::Rational;
use crate::video_backend_consts::MIN_QUEUED_FRAMES;

verus! {

pub const NANOS_PER_SECOND: u64 = 1_000_000_000;

/// Time from `since` to `now` on a clock that does not run backwards; zero if
/// `now` is the earlier one.
pub open spec fn elapsed(since: u64, now: u64) -> int {
    if now >= since {
        now - since
    } else {
        0
    }
}

/// Whether the frame interval of a stream with the frame rate `rate` has
/// passed after `elapsed_ns` nanoseconds. The interval is the reciprocal of
/// the rate. At a rate of zero it never passes; at a rate that is negative or
/// undefined it has always passed.
pub open spec fn frame_due(elapsed_ns: int, rate: Rational) -> bool {
    let n = rate.numerator as int;
    let d = rate.denominator as int;
    if (n > 0 && d > 0) || (n < 0 && d < 0) {
        elapsed_ns * crate::utils::magnitude(n) >= crate::utils::magnitude(d) * NANOS_PER_SECOND
    } else {
        !(n == 0 && d > 0)
    }
}

/// What a tick did.
pub enum TickOutcome {
    /// No frame has been displayed yet and none was taken: there is nothing to
    /// show.
    NotReady,
    /// The frame displayed last is shown again.
    Repeated,
    /// The next frame was taken from the queue and is now displayed; the
    /// decode thread is to be woken. The frame displayed before, if there was
    /// one, is handed over to go back to its pool.
    Advanced(Option<FramePoolHandle>),
}

/// The consumer's side of playback.
pub struct PlaybackState {
    last_displayed: Option<FramePoolHandle>,
    last_display_time: u64,
    framerate: Rational,
    min_queued: usize,
}

impl PlaybackState {
    pub closed spec fn spec_last_displayed(&self) -> Option<FramePoolHandle> {
        self.last_displayed
    }

    /// When a tick last found a frame due, in nanoseconds.
    pub closed spec fn spec_last_display_time(&self) -> u64 {
        self.last_display_time
    }

    pub closed spec fn spec_framerate(&self) -> Rational {
        self.framerate
    }

    /// The fewest queued frames from which one is taken.
    pub closed spec fn spec_min_queued(&self) -> int {
        self.min_queued as int
    }

    /// Whether a tick at `now` finds a frame due.
    pub open spec fn due(&self, now: u64) -> bool {
        frame_due(elapsed(self.spec_last_display_time(), now), self.spec_framerate())
    }

    /// Whether a tick at `now` takes a frame from a queue of `queued` frames.
    pub open spec fn takes(&self, now: u64, queued: int) -> bool {
        &&& self.due(now)
        &&& queued > 0
        &&& queued >= self.spec_min_queued()
    }

    /// Playback that starts at `now` with nothing displayed and the usual
    /// low-water mark.
    pub fn new(framerate: Rational, now: u64) -> (p: Self)
        ensures
            p.spec_last_displayed() is None,
            p.spec_last_display_time() == now,
            p.spec_framerate() == framerate,
            p.spec_min_queued() == MIN_QUEUED_FRAMES,
    {
        PlaybackState {
            last_displayed: None,
            last_display_time: now,
            framerate,
            min_queued: MIN_QUEUED_FRAMES,
        }
    }

    /// Playback with a low-water mark of its own.
    pub fn with_min_queued(framerate: Rational, now: u64, min_queued: usize) -> (p: Self)
        ensures
            p.spec_last_displayed() is None,
            p.spec_last_display_time() == now,
            p.spec_framerate() == framerate,
            p.spec_min_queued() == min_queued,
    {
        PlaybackState { last_displayed: None, last_display_time: now, framerate, min_queued }
    }

    /// The frame to show.
    pub fn current(&self) -> (f: Option<&FramePoolHandle>)
        ensures
            self.spec_last_displayed() is None ==> f is None,
            self.spec_last_displayed() matches Some(h) ==> f == Some(&h),
    {
        self.last_displayed.as_ref()
    }

    /// Whether a tick at `now` would look at the queue at all.
    pub fn is_due(&self, now: u64) -> (b: bool)
        ensures
            b == self.due(now),
    {
        let passed: u64 = if now >= self.last_display_time {
            now - self.last_display_time
        } else {
            0
        };
        let n: i32 = self.framerate.numerator;
        let d: i32 = self.framerate.denominator;
        if (n > 0 && d > 0) || (n < 0 && d < 0) {
            let rate: u128 = if n < 0 {
                (-(n as i64)) as u128
            } else {
                n as u128
            };
            let period: u128 = if d < 0 {
                (-(d as i64)) as u128
            } else {
                d as u128
            };
            assert(passed * rate <= 0xffff_ffff_ffff_ffff * 0x8000_0000) by (nonlinear_arith)
                requires
                    0 <= passed <= 0xffff_ffff_ffff_ffff,
                    0 <= rate <= 0x8000_0000,
            ;
            assert(period * NANOS_PER_SECOND <= 0x8000_0000 * 1_000_000_000) by (nonlinear_arith)
                requires
                    0 <= period <= 0x8000_0000,
                    NANOS_PER_SECOND == 1_000_000_000,
            ;
            passed as u128 * rate >= period * NANOS_PER_SECOND as u128
        } else {
            !(n == 0 && d > 0)
        }
    }

    /// One presentation tick at the time `now`. While the frame interval has
    /// not passed, the queue is left alone. Once it has passed, the time of
    /// the tick is kept, and the frame with the least key is taken from the
    /// queue if the queue holds any and at least the low-water mark.
    /// Otherwise the frame displayed last stays.
    pub fn tick(&mut self, now: u64, queue: &mut OrderedFramesContainer) -> (outcome: TickOutcome)
        requires
            old(queue).wf(),
        ensures
            final(queue).wf(),
            final(queue).spec_capacity() == old(queue).spec_capacity(),
            final(self).spec_framerate() == old(self).spec_framerate(),
            final(self).spec_min_queued() == old(self).spec_min_queued(),
            final(self).spec_last_display_time() == if old(self).due(now) {
                now
            } else {
                old(self).spec_last_display_time()
            },
            old(self).takes(now, old(queue)@.len() as int) ==> {
                &&& outcome == TickOutcome::Advanced(old(self).spec_last_displayed())
                &&& final(self).spec_last_displayed() == Some(old(queue)@[0].frame)
                &&& final(queue)@ == old(queue)@.drop_first()
            },
            !old(self).takes(now, old(queue)@.len() as int) ==> {
                &&& outcome == if old(self).spec_last_displayed() is Some {
                    TickOutcome::Repeated
                } else {
                    TickOutcome::NotReady
                }
                &&& final(self).spec_last_displayed() == old(self).spec_last_displayed()
                &&& final(queue)@ == old(queue)@
            },
    {
        if self.is_due(now) {
            self.last_display_time = now;
            if !queue.is_empty() && queue.len() >= self.min_queued {
                match queue.pop() {
                    Some(next) => {
                        let TimedVideoFrame { frame, rewind_count: _, timestamp: _ } = next;
                        let before: Option<FramePoolHandle> = self.last_displayed.take();
                        self.last_displayed = Some(frame);
                        return TickOutcome::Advanced(before);
                    },
                    None => {},
                }
            }
        }
        if self.last_displayed.is_some() {
            TickOutcome::Repeated
        } else {
            TickOutcome::NotReady
        }
    }
}

} // verus!
