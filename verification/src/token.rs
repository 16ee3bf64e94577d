//! The moving token: position, in-flight hop interpolation, momentum vector
//! and arrival detection. A hop is a timed move whose progress at time `now`
//! is `(now - hop_start_ms) / hop_duration_ms`, clamped to `[0, 1]`; arrival
//! is progress reaching one.

use vstd::prelude::*;

use crate::beat::TIME_LIMIT_MS;
use crate::ratio::RATIO_LIMIT;

verus! {

/// Base duration of a player hop in milliseconds, before hop-time scaling.
pub const HOP_BASE_MS: i64 = 220;

/// Largest hop duration any factor scaling can produce:
/// [`HOP_BASE_MS`] times [`RATIO_LIMIT`].
pub const HOP_MS_LIMIT: i64 = 220_000_000_000;

/// The sign of `to - from`, the normalized direction of one hop axis.
pub open spec fn spec_sign(to: int, from: int) -> i8 {
    if to > from {
        1i8
    } else if to < from {
        -1i8
    } else {
        0i8
    }
}

/// The kinematic state of a token: where it stands, where it is headed, the
/// timing of the hop in flight, and its short-lived momentum.
#[derive(Clone, Copy, Debug, PartialEq, Eq, Structural)]
pub struct Flight {
    /// Current cell (the departure cell while a hop is in flight).
    pub x: u8,
    pub y: u8,
    /// Destination cell of the current or last hop.
    pub target_x: u8,
    pub target_y: u8,
    /// When the current hop started.
    pub hop_start_ms: i64,
    /// How long the current hop lasts; always at least one millisecond.
    pub hop_duration_ms: i64,
    /// True when no hop is in flight.
    pub arrived: bool,
    /// Normalized direction of the last hop, `-1`, `0` or `1` per axis.
    pub dir_dx: i8,
    pub dir_dy: i8,
    /// Short-lived momentum in tiles, causing automatic continued sliding;
    /// zero means none.
    pub momentum: u8,
}

/// The flight state right after a hop to `(to_x, to_y)` begins at `now`:
/// direction is the sign of the displacement per axis, momentum is one (so
/// ice can pick it up), and the position stays at the departure cell until
/// arrival.
pub open spec fn begin_hop_spec(f: Flight, to_x: u8, to_y: u8, now: i64, duration_ms: i64) -> Flight {
    Flight {
        target_x: to_x,
        target_y: to_y,
        hop_start_ms: now,
        hop_duration_ms: duration_ms,
        arrived: false,
        dir_dx: spec_sign(to_x as int, f.x as int),
        dir_dy: spec_sign(to_y as int, f.y as int),
        momentum: 1,
        ..f
    }
}

impl Flight {
    /// Coordinates on a `w`-by-`h` board and timing fields inside the ranges
    /// every scaled duration and accepted timestamp respects.
    pub open spec fn wf(self, w: int, h: int) -> bool {
        &&& self.x < w
        &&& self.y < h
        &&& self.target_x < w
        &&& self.target_y < h
        &&& 1 <= self.hop_duration_ms <= HOP_MS_LIMIT
        &&& 0 <= self.hop_start_ms <= TIME_LIMIT_MS
    }

    /// Whether the hop in flight completes at time `now`.
    pub open spec fn spec_hop_done(self, now: int) -> bool {
        now - self.hop_start_ms >= self.hop_duration_ms
    }
}

/// An active piece on the board: a displayed symbol, its pronunciation, and
/// the kinematic state of its hops.
#[derive(Debug)]
pub struct Piece {
    pub hanzi: String,
    pub pinyin: Vec<char>,
    pub flight: Flight,
}

impl Piece {
    /// A freshly placed piece standing at `(x, y)`: arrived, no direction,
    /// no momentum.
    pub fn new(hanzi: String, pinyin: Vec<char>, x: u8, y: u8, now: i64, hop_dur: i64) -> (r: Piece)
        ensures
            r.hanzi@ == hanzi@,
            r.pinyin@ == pinyin@,
            r.flight == (Flight {
                x,
                y,
                target_x: x,
                target_y: y,
                hop_start_ms: now,
                hop_duration_ms: hop_dur,
                arrived: true,
                dir_dx: 0i8,
                dir_dy: 0i8,
                momentum: 0u8,
            }),
    {
        Piece {
            hanzi,
            pinyin,
            flight: Flight {
                x,
                y,
                target_x: x,
                target_y: y,
                hop_start_ms: now,
                hop_duration_ms: hop_dur,
                arrived: true,
                dir_dx: 0,
                dir_dy: 0,
                momentum: 0,
            },
        }
    }

    /// Starts a hop toward `(to_x, to_y)`: records the normalized direction
    /// so tile effects (ice, conveyors) can continue movement along the same
    /// axis, and grants the default momentum of one.
    pub fn begin_hop(&mut self, to_x: u8, to_y: u8, now: i64, duration_ms: i64)
        ensures
            final(self).flight == begin_hop_spec(old(self).flight, to_x, to_y, now, duration_ms),
            final(self).hanzi == old(self).hanzi,
            final(self).pinyin == old(self).pinyin,
    {
        self.flight.dir_dx = sign_step(to_x, self.flight.x);
        self.flight.dir_dy = sign_step(to_y, self.flight.y);
        self.flight.momentum = 1;
        self.flight.target_x = to_x;
        self.flight.target_y = to_y;
        self.flight.hop_start_ms = now;
        self.flight.hop_duration_ms = duration_ms;
        self.flight.arrived = false;
    }

    /// How far the current hop has progressed at `now`, in thousandths,
    /// clamped to `[0, 1000]`. An arrived piece reports a finished hop.
    pub fn progress_permille(&self, now: i64) -> (r: i64)
        requires
            1 <= self.flight.hop_duration_ms <= HOP_MS_LIMIT,
            0 <= self.flight.hop_start_ms,
            0 <= now <= TIME_LIMIT_MS,
        ensures
            0 <= r <= 1000,
            self.flight.arrived ==> r == 1000,
            !self.flight.arrived && now <= self.flight.hop_start_ms ==> r == 0,
            !self.flight.arrived && self.flight.spec_hop_done(now as int) ==> r == 1000,
            !self.flight.arrived && self.flight.hop_start_ms < now && !self.flight.spec_hop_done(
                now as int,
            ) ==> r == (now - self.flight.hop_start_ms) * 1000 / (
            self.flight.hop_duration_ms as int),
    {
        if self.flight.arrived {
            return 1000;
        }
        if now <= self.flight.hop_start_ms {
            return 0;
        }
        let elapsed = now - self.flight.hop_start_ms;
        if elapsed >= self.flight.hop_duration_ms {
            return 1000;
        }
        assert((elapsed as int) * 1000 / (self.flight.hop_duration_ms as int) < 1000
            && 0 <= (elapsed as int) * 1000 / (self.flight.hop_duration_ms as int))
            by (nonlinear_arith)
            requires
                0 <= (elapsed as int) < (self.flight.hop_duration_ms as int),
        ;
        elapsed * 1000 / self.flight.hop_duration_ms
    }
}

/// The sign of `to - from` without leaving `u8` arithmetic.
pub fn sign_step(to: u8, from: u8) -> (r: i8)
    ensures
        r == spec_sign(to as int, from as int),
{
    if to > from {
        1
    } else if to < from {
        -1
    } else {
        0
    }
}

} // verus!
