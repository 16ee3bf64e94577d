//! The beat clock: wall-clock milliseconds and a tempo in beats per minute
//! give a monotonic whole-beat index. Times are integer milliseconds; a beat
//! at tempo `bpm` lasts `60000 / bpm` milliseconds (truncated), so every
//! quantity here is exact.

use vstd::prelude::*;

verus! {

/// Milliseconds per minute, the numerator of the beat-duration formula.
pub const MS_PER_MINUTE: i64 = 60_000;

/// Largest accepted tempo. At most one beat per millisecond, so a beat
/// always lasts at least one millisecond.
pub const BPM_LIMIT: u32 = 60_000;

/// Largest accepted timestamp, in milliseconds. Hosts feed timestamps from a
/// monotonic millisecond clock; this bound (over two hundred million years)
/// keeps every derived quantity well inside `i64`.
pub const TIME_LIMIT_MS: i64 = 0x2000_0000_0000_0000;

/// Tracks timing relative to a tempo for scheduling beat-driven events.
#[derive(Clone, Copy, Debug, PartialEq, Eq, Structural)]
pub struct BeatClock {
    /// Tempo in beats per minute.
    pub bpm: u32,
    /// Timestamp at which beat zero begins.
    pub start_ms: i64,
    /// Index of the last whole beat already processed; `-1` before any.
    pub last_beat_idx: i64,
}

impl BeatClock {
    pub open spec fn wf(self) -> bool {
        &&& 1 <= self.bpm <= BPM_LIMIT
        &&& 0 <= self.start_ms <= TIME_LIMIT_MS
        &&& -1 <= self.last_beat_idx <= TIME_LIMIT_MS
    }

    /// Duration of one whole beat in milliseconds, `60000 / bpm` truncated.
    pub open spec fn spec_beat_duration_ms(self) -> int {
        MS_PER_MINUTE as int / self.bpm as int
    }

    /// The whole beats that have fully elapsed at `now`; `-1` for timestamps
    /// before the clock started.
    pub open spec fn spec_whole_beat(self, now: int) -> int {
        if now < self.start_ms {
            -1
        } else {
            (now - self.start_ms) / self.spec_beat_duration_ms()
        }
    }

    /// A fresh clock: beat zero starts at `now` and no beat has fired yet.
    pub fn new(bpm: u32, now: i64) -> (r: BeatClock)
        requires
            1 <= bpm <= BPM_LIMIT,
            0 <= now <= TIME_LIMIT_MS,
        ensures
            r == (BeatClock { bpm, start_ms: now, last_beat_idx: -1int as i64 }),
            r.wf(),
    {
        BeatClock { bpm, start_ms: now, last_beat_idx: -1 }
    }

    /// Milliseconds per beat: `60000 / bpm`, at least one for any accepted
    /// tempo.
    pub fn beat_duration_ms(&self) -> (r: i64)
        requires
            1 <= self.bpm,
        ensures
            r == self.spec_beat_duration_ms(),
            self.bpm <= BPM_LIMIT ==> 1 <= r <= MS_PER_MINUTE,
    {
        proof {
            if self.bpm <= BPM_LIMIT {
                assert(1 <= (MS_PER_MINUTE as int) / (self.bpm as int) <= MS_PER_MINUTE as int)
                    by (nonlinear_arith)
                    requires
                        1 <= (self.bpm as int) <= (MS_PER_MINUTE as int),
                ;
            }
        }
        MS_PER_MINUTE / self.bpm as i64
    }

    /// Index of the current whole beat at time `now`: zero for the first
    /// beat-duration after the start, one for the next, and so on; `-1`
    /// before the start.
    pub fn current_beat(&self, now: i64) -> (r: i64)
        requires
            self.wf(),
            0 <= now <= TIME_LIMIT_MS,
        ensures
            r == self.spec_whole_beat(now as int),
            -1 <= r <= TIME_LIMIT_MS,
    {
        if now < self.start_ms {
            -1
        } else {
            let dur = self.beat_duration_ms();
            (now - self.start_ms) / dur
        }
    }

    /// How far the current beat has progressed, in thousandths of a beat.
    pub fn beat_phase_permille(&self, now: i64) -> (r: i64)
        requires
            self.wf(),
            0 <= now <= TIME_LIMIT_MS,
        ensures
            0 <= r < 1000,
            now >= self.start_ms ==> r == (now - self.start_ms)
                % self.spec_beat_duration_ms() * 1000 / self.spec_beat_duration_ms(),
    {
        if now < self.start_ms {
            0
        } else {
            let dur = self.beat_duration_ms();
            let rem = (now - self.start_ms) % dur;
            assert((rem as int) * 1000 / (dur as int) < 1000) by (nonlinear_arith)
                requires
                    1 <= (dur as int),
                    0 <= (rem as int) < (dur as int),
            ;
            rem * 1000 / dur
        }
    }
}

} // verus!
