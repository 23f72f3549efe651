//! Amplitude-threshold tone detection.
//!
//! A frame of filtered samples is reduced to its peak magnitude, the peak is
//! mapped to a bounded integer level, and level-versus-threshold transitions
//! are timed to produce signal-change and idle-timeout events.

use vstd::prelude::*;
use crate::filter::{abs_i, ints_of_i64, STATE_BOUND};

verus! {

/// The level scale: a full-scale Q15 peak maps to this level.
pub const LEVEL_SCALE: u64 = 30;

/// Levels are clamped to `0 ..= MAX_LEVEL`.
pub const MAX_LEVEL: u64 = 39;

/// Idle timeout, as a multiple of the reference dot duration.
pub const IDLE_FACTOR: u64 = 20;

/// Peak magnitude of a sequence of samples; zero for an empty sequence.
pub open spec fn peak_spec(s: Seq<int>) -> int
    decreases s.len(),
{
    if s.len() == 0 {
        0
    } else {
        let rest = peak_spec(s.drop_last());
        let a = abs_i(s.last());
        if a > rest {
            a
        } else {
            rest
        }
    }
}

/// Half of the Q15 unit, added before the division so the level map
/// rounds to the nearest integer instead of truncating.
pub const Q15_HALF: u64 = 16384;

/// The bounded detection level a peak maps to:
/// `clamp(round((peak * 30) / 32768), 0, 39)`, rounding to nearest.
pub open spec fn level_spec(peak: int) -> int {
    let l = (peak * LEVEL_SCALE + Q15_HALF) / 32768;
    if l > MAX_LEVEL {
        MAX_LEVEL as int
    } else {
        l
    }
}

/// Computes the peak magnitude of a frame of filtered samples.
pub fn peak_level(samples: &Vec<i64>) -> (r: i64)
    requires
        forall|j: int|
            0 <= j < samples@.len() ==> -STATE_BOUND <= #[trigger] samples@[j] <= STATE_BOUND,
    ensures
        r == peak_spec(ints_of_i64(samples@)),
        0 <= r <= STATE_BOUND,
{
    let ghost xs = ints_of_i64(samples@);
    let n = samples.len();
    let mut cur: i64 = 0;
    let mut i: usize = 0;
    proof {
        assert(xs.take(0) =~= Seq::<int>::empty());
    }
    while i < n
        invariant
            i <= n,
            n == samples@.len(),
            xs == ints_of_i64(samples@),
            forall|j: int|
                0 <= j < samples@.len() ==> -STATE_BOUND <= #[trigger] samples@[j] <= STATE_BOUND,
            cur == peak_spec(xs.take(i as int)),
            0 <= cur <= STATE_BOUND,
        decreases n - i,
    {
        let s = samples[i];
        let a: i64 = if s < 0 {
            -s
        } else {
            s
        };
        if a > cur {
            cur = a;
        }
        proof {
            assert(xs.take(i as int + 1).drop_last() =~= xs.take(i as int));
            assert(xs.take(i as int + 1).last() == s as int);
        }
        i = i + 1;
    }
    proof {
        assert(xs.take(n as int) =~= xs);
    }
    cur
}

/// Maps a peak magnitude to its bounded detection level.
pub fn level_of(peak: i64) -> (r: u8)
    requires
        0 <= peak <= STATE_BOUND,
    ensures
        r as int == level_spec(peak as int),
        r <= MAX_LEVEL,
{
    let v: u64 = ((peak as u64) * LEVEL_SCALE + Q15_HALF) / 32768;
    if v > MAX_LEVEL {
        MAX_LEVEL as u8
    } else {
        v as u8
    }
}

/// A tone state transition: the interval that just ended lasted
/// `duration_ms` and had tone state `was_tone`.
#[derive(Clone, Copy, PartialEq, Eq, Structural, Debug)]
pub struct SignalEvent {
    /// Length of the interval that just ended, in milliseconds.
    pub duration_ms: u64,
    /// Whether the tone was present during that interval.
    pub was_tone: bool,
}

/// What one processed frame asks of the decoder.
#[derive(Clone, Copy, PartialEq, Eq, Structural, Debug)]
pub struct FrameEvents {
    /// A state transition, if the tone boolean flipped this frame.
    pub change: Option<SignalEvent>,
    /// Whether the idle timeout fired this frame.
    pub idle: bool,
}

/// Tone presence state with the timestamp of its last transition.
pub struct ToneDetector {
    /// A tone is present exactly when the level is strictly above this.
    pub threshold: u8,
    /// The reference dot duration, in milliseconds.
    pub dot_ms: u32,
    /// Whether a tone is currently considered present.
    pub tone_present: bool,
    /// When the tone boolean last flipped, or the idle timeout last fired.
    pub last_change_ms: u64,
}

impl ToneDetector {
    /// A fresh detector: no tone, transition clock started at `start_ms`.
    pub fn new(threshold: u8, dot_ms: u32, start_ms: u64) -> (d: ToneDetector)
        ensures
            d.threshold == threshold,
            d.dot_ms == dot_ms,
            d.tone_present == false,
            d.last_change_ms == start_ms,
    {
        ToneDetector { threshold, dot_ms, tone_present: false, last_change_ms: start_ms }
    }

    /// Applies one frame's detection level at time `now_ms`.
    ///
    /// A signal-change event carries the duration and tone state of the
    /// interval that just ended; independently, the idle timeout fires when
    /// more than `20 * dot_ms` milliseconds passed without a transition and
    /// no tone is present afterwards.  Both checks use the duration measured
    /// from the last recorded transition.
    pub fn on_frame(&mut self, level: u8, now_ms: u64) -> (ev: FrameEvents)
        requires
            old(self).last_change_ms <= now_ms,
        ensures
            final(self).threshold == old(self).threshold,
            final(self).dot_ms == old(self).dot_ms,
            final(self).tone_present == (level > old(self).threshold),
            ev.change == (if (level > old(self).threshold) != old(self).tone_present {
                Some(
                    SignalEvent {
                        duration_ms: (now_ms - old(self).last_change_ms) as u64,
                        was_tone: old(self).tone_present,
                    },
                )
            } else {
                None
            }),
            ev.idle == (now_ms - old(self).last_change_ms > IDLE_FACTOR * old(self).dot_ms && level
                <= old(self).threshold),
            final(self).last_change_ms == (if ev.change is Some || ev.idle {
                now_ms
            } else {
                old(self).last_change_ms
            }),
    {
        let tone = level > self.threshold;
        let duration: u64 = now_ms - self.last_change_ms;
        let change: Option<SignalEvent> = if tone != self.tone_present {
            Some(SignalEvent { duration_ms: duration, was_tone: self.tone_present })
        } else {
            None
        };
        let idle = duration > IDLE_FACTOR * (self.dot_ms as u64) && !tone;
        if change.is_some() || idle {
            self.last_change_ms = now_ms;
        }
        self.tone_present = tone;
        FrameEvents { change, idle }
    }
}

} // verus!
