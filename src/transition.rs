//! Transition timing: progress, cubic easing and frame-rate throttling.
//!
//! Time is measured in milliseconds on a monotonic clock that the caller reads.
use vstd::prelude::*;

verus! {

/// Kinds of transition the renderer understands.
#[derive(Clone, Copy, Debug, PartialEq, Eq, Structural)]
pub enum TransitionTypeEnum {
    Crossfade,
    Sweep,
}

pub open spec fn kind_code(t: TransitionTypeEnum) -> u32 {
    match t {
        TransitionTypeEnum::Crossfade => 0,
        TransitionTypeEnum::Sweep => 1,
    }
}

impl TransitionTypeEnum {
    /// The code the fragment stage receives for this kind.
    pub fn to_u32(&self) -> (r: u32)
        ensures
            r == kind_code(*self),
    {
        match self {
            TransitionTypeEnum::Crossfade => 0,
            TransitionTypeEnum::Sweep => 1,
        }
    }
}

/// Sweep directions.
#[derive(Clone, Copy, Debug, PartialEq, Eq, Structural)]
pub enum Direction {
    LeftToRight,
    RightToLeft,
    TopToBottom,
    BottomToTop,
    TopLeftToBottomRight,
    TopRightToBottomLeft,
    BottomLeftToTopRight,
    BottomRightToTopLeft,
}

pub open spec fn direction_vec(d: Direction) -> (int, int) {
    match d {
        Direction::LeftToRight => (1, 0),
        Direction::RightToLeft => (-1, 0),
        Direction::TopToBottom => (0, 1),
        Direction::BottomToTop => (0, -1),
        Direction::TopLeftToBottomRight => (1, 1),
        Direction::TopRightToBottomLeft => (-1, 1),
        Direction::BottomLeftToTopRight => (1, -1),
        Direction::BottomRightToTopLeft => (-1, -1),
    }
}

impl Direction {
    /// The unit direction of the sweep, x to the right and y downwards.
    pub fn as_vec2(&self) -> (r: (i32, i32))
        ensures
            (r.0 as int, r.1 as int) == direction_vec(*self),
    {
        match self {
            Direction::LeftToRight => (1, 0),
            Direction::RightToLeft => (-1, 0),
            Direction::TopToBottom => (0, 1),
            Direction::BottomToTop => (0, -1),
            Direction::TopLeftToBottomRight => (1, 1),
            Direction::TopRightToBottomLeft => (-1, 1),
            Direction::BottomLeftToTopRight => (1, -1),
            Direction::BottomRightToTopLeft => (-1, -1),
        }
    }
}

/// An exact non-negative ratio `num / den` with `den > 0`.
#[derive(Clone, Copy, Debug, PartialEq, Eq, Structural)]
pub struct Fraction {
    pub num: u128,
    pub den: u128,
}

impl Fraction {
    pub open spec fn wf(self) -> bool {
        self.den > 0 && self.num <= self.den
    }

    /// `self <= other` as rationals.
    pub open spec fn le(self, other: Fraction) -> bool {
        self.num * other.den <= other.num * self.den
    }

    /// The ratio is exactly one.
    pub open spec fn is_one(self) -> bool {
        self.num == self.den
    }
}

/// Milliseconds from `start` to `now`, zero when `now` is earlier.
pub open spec fn elapsed_ms(start: u64, now: u64) -> nat {
    if now >= start {
        (now - start) as nat
    } else {
        0
    }
}

/// Elapsed time clamped to the duration.
pub open spec fn clamped_elapsed(start: u64, now: u64, duration: nat) -> nat {
    if elapsed_ms(start, now) < duration {
        elapsed_ms(start, now)
    } else {
        duration
    }
}

pub open spec fn cube(x: int) -> int {
    x * x * x
}

/// Numerator of the cubic ease-in-out of `p / d`, over the denominator `d^3`:
/// `4 t^3` below one half and `1 - (2 - 2t)^3 / 2` from one half on.
pub open spec fn eased_num(p: int, d: int) -> int {
    if 2 * p < d {
        4 * cube(p)
    } else {
        cube(d) - 4 * cube(d - p)
    }
}

/// Linear progress of a transition that started at `start` (`None`: not yet started).
pub open spec fn progress_spec(start: Option<u64>, duration: u32, now: u64) -> Fraction {
    match start {
        None => Fraction { num: 0, den: 1 },
        Some(s) => if duration == 0 {
            Fraction { num: 1, den: 1 }
        } else {
            Fraction { num: clamped_elapsed(s, now, duration as nat) as u128, den: duration as u128 }
        },
    }
}

/// Eased progress of a transition that started at `start` (`None`: not yet started).
pub open spec fn eased_spec(start: Option<u64>, duration: u32, now: u64) -> Fraction {
    match start {
        None => Fraction { num: 0, den: 1 },
        Some(s) => if duration == 0 {
            Fraction { num: 1, den: 1 }
        } else {
            Fraction {
                num: eased_num(clamped_elapsed(s, now, duration as nat) as int, duration as int) as u128,
                den: cube(duration as int) as u128,
            }
        },
    }
}

/// A frame is due once at least `1000 / fps` milliseconds passed since `last`.
pub open spec fn frame_due(last: u64, fps: u16, now: u64) -> bool {
    elapsed_ms(last, now) * fps >= 1000
}

proof fn lemma_cube_monotone(a: int, b: int)
    requires
        0 <= a <= b,
    ensures
        cube(a) <= cube(b),
        0 <= cube(a),
{
    assert(a * a <= b * b) by (nonlinear_arith)
        requires
            0 <= a <= b,
    ;
    assert(a * a * a <= b * b * b) by (nonlinear_arith)
        requires
            0 <= a <= b,
            a * a <= b * b,
    ;
    assert(0 <= a * a * a) by (nonlinear_arith)
        requires
            0 <= a,
    ;
}

proof fn lemma_eased_bounds(p: int, d: int)
    requires
        0 <= p <= d,
        d > 0,
    ensures
        0 <= eased_num(p, d) <= cube(d),
        p == d ==> eased_num(p, d) == cube(d),
{
    if 2 * p < d {
        lemma_cube_monotone(2 * p, d);
        assert(cube(2 * p) == 8 * cube(p)) by (nonlinear_arith);
        lemma_cube_monotone(0, p);
    } else {
        lemma_cube_monotone(2 * (d - p), d);
        assert(cube(2 * (d - p)) == 8 * cube(d - p)) by (nonlinear_arith);
        lemma_cube_monotone(0, d - p);
        lemma_cube_monotone(0, d);
    }
}

proof fn lemma_eased_monotone(p_early: int, p_late: int, d: int)
    requires
        0 <= p_early <= p_late <= d,
        d > 0,
    ensures
        eased_num(p_early, d) <= eased_num(p_late, d),
{
    if 2 * p_late < d {
        lemma_cube_monotone(p_early, p_late);
    } else if 2 * p_early >= d {
        lemma_cube_monotone(d - p_late, d - p_early);
    } else {
        lemma_cube_monotone(2 * p_early, d);
        assert(cube(2 * p_early) == 8 * cube(p_early)) by (nonlinear_arith);
        lemma_cube_monotone(2 * (d - p_late), d);
        assert(cube(2 * (d - p_late)) == 8 * cube(d - p_late)) by (nonlinear_arith);
    }
}

proof fn lemma_cube_fits(d: u32)
    ensures
        0 < cube(d as int) || d == 0,
        cube(d as int) < 0x1_0000_0000_0000_0000_0000_0000,
{
    lemma_cube_monotone(d as int, 0xffff_ffff);
    lemma_cube_monotone(0, d as int);
    assert(cube(0xffff_ffff) < 0x1_0000_0000_0000_0000_0000_0000) by (nonlinear_arith);
    if d > 0 {
        assert(cube(d as int) > 0) by (nonlinear_arith)
            requires
                d > 0,
        ;
    }
}

/// Eased progress never decreases as time passes, stays within `[0, 1]`, and is
/// exactly one once the whole duration has elapsed.
pub proof fn lemma_transition_monotonic(start: Option<u64>, duration: u32, now1: u64, now2: u64)
    requires
        now1 <= now2,
    ensures
        eased_spec(start, duration, now1).wf(),
        eased_spec(start, duration, now2).wf(),
        eased_spec(start, duration, now1).le(eased_spec(start, duration, now2)),
        start is Some && elapsed_ms(start->0, now2) >= duration ==> eased_spec(
            start,
            duration,
            now2,
        ).is_one(),
{
    match start {
        None => {},
        Some(s) => {
            if duration > 0 {
                let d = duration as int;
                let p_early = clamped_elapsed(s, now1, duration as nat) as int;
                let p_late = clamped_elapsed(s, now2, duration as nat) as int;
                assert(p_early <= p_late);
                lemma_eased_bounds(p_early, d);
                lemma_eased_bounds(p_late, d);
                lemma_eased_monotone(p_early, p_late, d);
                lemma_cube_fits(duration);
                let f1 = eased_spec(start, duration, now1);
                let f2 = eased_spec(start, duration, now2);
                assert(f1.num == eased_num(p_early, d));
                assert(f2.num == eased_num(p_late, d));
                assert(f1.den == cube(d));
                assert(f2.den == cube(d));
                assert(f1.num * f2.den <= f2.num * f1.den) by (nonlinear_arith)
                    requires
                        f1.num <= f2.num,
                        f1.den == f2.den,
                        f1.den > 0,
                ;
            }
        },
    }
}

/// After a frame is rendered at `now1`, a second request at `now2` renders again
/// exactly when at least `1000 / fps` milliseconds separate the two.
pub proof fn lemma_fps_throttle(last: u64, fps: u16, now1: u64, now2: u64)
    requires
        now1 <= now2,
    ensures
        frame_due(now1, fps, now2) == ((now2 - now1) * fps >= 1000),
{
}

/// The animation state of one output.
#[derive(Debug)]
pub struct TransitionData {
    pub transition_type: TransitionTypeEnum,
    /// Set on the first rendered frame, not at creation.
    pub start_time: Option<u64>,
    pub duration_ms: u32,
    pub target_fps: u16,
    pub last_frame_time: u64,
    pub direction: (i32, i32),
}

impl TransitionData {
    /// A pending transition; its clock starts with `start`.
    pub fn new(
        transition_type: TransitionTypeEnum,
        duration_ms: u32,
        target_fps: u16,
        direction: (i32, i32),
        now_ms: u64,
    ) -> (r: Self)
        ensures
            r.transition_type == transition_type,
            r.start_time is None,
            r.duration_ms == duration_ms,
            r.target_fps == target_fps,
            r.last_frame_time == now_ms,
            r.direction == direction,
    {
        TransitionData {
            transition_type,
            start_time: None,
            duration_ms,
            target_fps,
            last_frame_time: now_ms,
            direction,
        }
    }

    /// Latch the start time on the first call; later calls change nothing.
    pub fn start(&mut self, now_ms: u64)
        ensures
            final(self).start_time == (match old(self).start_time {
                Some(s) => Some(s),
                None => Some(now_ms),
            }),
            final(self).transition_type == old(self).transition_type,
            final(self).duration_ms == old(self).duration_ms,
            final(self).target_fps == old(self).target_fps,
            final(self).last_frame_time == old(self).last_frame_time,
            final(self).direction == old(self).direction,
    {
        if self.start_time.is_none() {
            self.start_time = Some(now_ms);
        }
    }

    fn elapsed(start: u64, now_ms: u64) -> (r: u64)
        ensures
            r == elapsed_ms(start, now_ms),
    {
        if now_ms >= start {
            now_ms - start
        } else {
            0
        }
    }

    /// Linear progress in `[0, 1]`.
    pub fn progress(&self, now_ms: u64) -> (r: Fraction)
        ensures
            r == progress_spec(self.start_time, self.duration_ms, now_ms),
            r.wf(),
    {
        match self.start_time {
            None => Fraction { num: 0, den: 1 },
            Some(s) => {
                if self.duration_ms == 0 {
                    Fraction { num: 1, den: 1 }
                } else {
                    let e = Self::elapsed(s, now_ms);
                    let d = self.duration_ms as u64;
                    let p = if e < d {
                        e
                    } else {
                        d
                    };
                    Fraction { num: p as u128, den: d as u128 }
                }
            },
        }
    }

    /// Progress after the cubic ease-in-out.
    pub fn eased_progress(&self, now_ms: u64) -> (r: Fraction)
        ensures
            r == eased_spec(self.start_time, self.duration_ms, now_ms),
            r.wf(),
    {
        match self.start_time {
            None => Fraction { num: 0, den: 1 },
            Some(s) => {
                if self.duration_ms == 0 {
                    Fraction { num: 1, den: 1 }
                } else {
                    let e = Self::elapsed(s, now_ms);
                    let d = self.duration_ms as u64;
                    let p = if e < d {
                        e
                    } else {
                        d
                    };
                    proof {
                        lemma_cube_fits(self.duration_ms);
                        lemma_eased_bounds(p as int, d as int);
                        lemma_cube_monotone(p as int, d as int);
                        lemma_cube_monotone((d - p) as int, d as int);
                        lemma_cube_monotone(0, p as int);
                        lemma_cube_monotone(0, (d - p) as int);
                    }
                    let dd = d as u128;
                    let pp = p as u128;
                    assert(dd * dd <= 0xffff_ffff * 0xffff_ffff && pp * pp <= dd * dd
                        && pp * pp * pp <= dd * dd * dd) by (nonlinear_arith)
                        requires
                            pp <= dd <= 0xffff_ffff,
                    ;
                    assert(dd * dd * dd == cube(d as int));
                    let d3 = dd * dd * dd;
                    let num = if 2 * pp < dd {
                        assert(pp * pp * pp == cube(p as int));
                        4 * (pp * pp * pp)
                    } else {
                        let q = dd - pp;
                        assert(q * q <= dd * dd && q * q * q <= dd * dd * dd) by (nonlinear_arith)
                            requires
                                q <= dd,
                        ;
                        assert(q * q * q == cube(q as int));
                        d3 - 4 * (q * q * q)
                    };
                    Fraction { num, den: d3 }
                }
            },
        }
    }

    /// The whole duration has elapsed since the start.
    pub fn is_complete(&self, now_ms: u64) -> (r: bool)
        ensures
            r == (self.start_time is Some && elapsed_ms(self.start_time->0, now_ms)
                >= self.duration_ms),
    {
        match self.start_time {
            None => false,
            Some(s) => Self::elapsed(s, now_ms) >= self.duration_ms as u64,
        }
    }

    /// Frame-rate throttle: when a frame is due, record `now_ms` as the last
    /// frame and answer `true`; otherwise change nothing and answer `false`.
    pub fn should_render_frame(&mut self, now_ms: u64) -> (r: bool)
        ensures
            r == frame_due(old(self).last_frame_time, old(self).target_fps, now_ms),
            final(self).last_frame_time == (if r {
                now_ms
            } else {
                old(self).last_frame_time
            }),
            final(self).transition_type == old(self).transition_type,
            final(self).start_time == old(self).start_time,
            final(self).duration_ms == old(self).duration_ms,
            final(self).target_fps == old(self).target_fps,
            final(self).direction == old(self).direction,
    {
        let e = Self::elapsed(self.last_frame_time, now_ms) as u128;
        let f = self.target_fps as u128;
        assert(e * f <= 0xffff_ffff_ffff_ffff * 0xffff) by (nonlinear_arith)
            requires
                e <= 0xffff_ffff_ffff_ffff,
                f <= 0xffff,
        ;
        if e * f >= 1000 {
            self.last_frame_time = now_ms;
            true
        } else {
            false
        }
    }
}

} // verus!
