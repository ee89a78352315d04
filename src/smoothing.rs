use vstd::prelude::*;
use vstd::arithmetic::div_mod::{lemma_div_is_ordered, lemma_div_by_multiple, lemma_div_pos_is_pos};
use crate::geometry::{
    Vec3, dist2, distance, distance_spec, is_root, root, sq, abs_diff, lemma_sq_monotone, lemma_sq_nonneg,
    lemma_root_unique, lemma_root_lt, lemma_dist2_nonneg,
};

verus! {

/// Microseconds in one second: durations are given in microseconds.
pub const MICROS_PER_SECOND: u64 = 1_000_000;

/// Proportional rates are given in thousandths per second.
pub const RATE_SCALE: u64 = 1000;

/// Near-zone modifier used unless configured (1.0 per second).
pub const DEFAULT_NEAR_MODIFIER: u32 = 1000;

/// Far-zone modifier used unless configured (1.0 per second).
pub const DEFAULT_FAR_MODIFIER: u32 = 1000;

/// Fixed speed used unless configured (128 units per second).
pub const DEFAULT_SMOOTHING_SPEED: u32 = 128_000;

/// Snap distance used unless configured (2.5 units).
pub const DEFAULT_END_THRESHOLD: u32 = 2500;

/// Smaller of two integers.
pub open spec fn min_int(a: int, b: int) -> int {
    if a <= b { a } else { b }
}

/// One coordinate moved from `c` toward `t` by the share `step / err` of the
/// way, rounded toward `c`. A zero `err` means the point has arrived.
pub open spec fn toward(c: int, t: int, step: int, err: int) -> int {
    if err == 0 {
        c
    } else if c <= t {
        c + (t - c) * step / err
    } else {
        c - (c - t) * step / err
    }
}

/// `c` moved by `step` along the direction to `t`, whose distance from `c` is `err`.
pub open spec fn move_toward(c: Vec3, t: Vec3, step: int, err: int) -> Vec3 {
    Vec3 {
        x: toward(c.x as int, t.x as int, step, err) as i32,
        y: toward(c.y as int, t.y as int, step, err) as i32,
        z: toward(c.z as int, t.z as int, step, err) as i32,
    }
}

/// Every natural number has an integer square root.
pub proof fn lemma_root_exists(n: int)
    requires
        n >= 0,
    ensures
        is_root(root(n), n),
    decreases n,
{
    if n == 0 {
        assert(is_root(0, 0));
    } else {
        lemma_root_exists(n - 1);
        let r = root(n - 1);
        if n < (r + 1) * (r + 1) {
            assert(is_root(r, n));
        } else {
            assert(n == (r + 1) * (r + 1));
            assert((r + 1) * (r + 1) < (r + 2) * (r + 2)) by (nonlinear_arith)
                requires r >= 0;
            assert(is_root(r + 1, n));
        }
    }
}

/// The rounded distance is a square root of the squared distance.
pub proof fn lemma_distance_is_root(a: Vec3, b: Vec3)
    ensures
        is_root(distance_spec(a, b), dist2(a, b)),
        distance_spec(a, b) == distance_spec(b, a),
{
    lemma_dist2_nonneg(a, b);
    lemma_root_exists(dist2(a, b));
}

/// A coordinate difference never exceeds the rounded distance.
proof fn lemma_axis_within(d: int, n: int, err: int)
    requires
        is_root(err, n),
        0 <= d,
        d * d <= n,
    ensures
        d <= err,
{
    if d > err {
        lemma_sq_monotone(err + 1, d);
    }
}

/// One coordinate moved toward its target stays between the two, and lands
/// on the target when the whole distance is covered.
pub proof fn lemma_toward_between(c: int, t: int, step: int, err: int)
    requires
        0 <= step <= err,
        c <= t ==> t - c <= err,
        t < c ==> c - t <= err,
    ensures
        c <= t ==> c <= toward(c, t, step, err) <= t,
        t < c ==> t <= toward(c, t, step, err) <= c,
        step == err && err > 0 ==> toward(c, t, step, err) == t,
{
    if err > 0 {
        let a = if c <= t { t - c } else { c - t };
        assert(a * step <= a * err) by (nonlinear_arith)
            requires 0 <= a, step <= err;
        lemma_div_is_ordered(a * step, a * err, err);
        lemma_div_by_multiple(a, err);
        assert(a * step >= 0) by (nonlinear_arith)
            requires 0 <= a, 0 <= step;
        if a * step > 0 {
            lemma_div_pos_is_pos(a * step, err);
        } else {
            assert((a * step) / err == 0);
        }
    }
}

/// Moving toward the target never goes farther than the target is.
pub proof fn lemma_move_toward_within(c: Vec3, t: Vec3, step: int, err: int)
    requires
        0 <= step <= err,
        is_root(err, dist2(c, t)),
    ensures
        dist2(c, move_toward(c, t, step, err)) <= dist2(c, t),
        step == err && err > 0 ==> move_toward(c, t, step, err) == t,
{
    lemma_axes_within(c, t, err);
    lemma_toward_between(c.x as int, t.x as int, step, err);
    lemma_toward_between(c.y as int, t.y as int, step, err);
    lemma_toward_between(c.z as int, t.z as int, step, err);
    lemma_sq_between(c.x as int, t.x as int, toward(c.x as int, t.x as int, step, err));
    lemma_sq_between(c.y as int, t.y as int, toward(c.y as int, t.y as int, step, err));
    lemma_sq_between(c.z as int, t.z as int, toward(c.z as int, t.z as int, step, err));
}

/// No coordinate differs between two points by more than their rounded distance.
proof fn lemma_axes_within(c: Vec3, t: Vec3, err: int)
    requires
        is_root(err, dist2(c, t)),
    ensures
        c.x <= t.x ==> t.x - c.x <= err,
        t.x < c.x ==> c.x - t.x <= err,
        c.y <= t.y ==> t.y - c.y <= err,
        t.y < c.y ==> c.y - t.y <= err,
        c.z <= t.z ==> t.z - c.z <= err,
        t.z < c.z ==> c.z - t.z <= err,
{
    let (dx, dy, dz) = (t.x - c.x, t.y - c.y, t.z - c.z);
    lemma_sq_nonneg(dx);
    lemma_sq_nonneg(dy);
    lemma_sq_nonneg(dz);
    assert(sq(dx) == sq(-dx)) by (nonlinear_arith);
    assert(sq(dy) == sq(-dy)) by (nonlinear_arith);
    assert(sq(dz) == sq(-dz)) by (nonlinear_arith);
    if c.x <= t.x { lemma_axis_within(dx, dist2(c, t), err); } else { lemma_axis_within(-dx, dist2(c, t), err); }
    if c.y <= t.y { lemma_axis_within(dy, dist2(c, t), err); } else { lemma_axis_within(-dy, dist2(c, t), err); }
    if c.z <= t.z { lemma_axis_within(dz, dist2(c, t), err); } else { lemma_axis_within(-dz, dist2(c, t), err); }
}

/// A point between `c` and `t` is no farther from `c` than `t` is.
proof fn lemma_sq_between(c: int, t: int, m: int)
    requires
        c <= t ==> c <= m <= t,
        t < c ==> t <= m <= c,
    ensures
        sq(m - c) <= sq(t - c),
{
    if c <= t {
        lemma_sq_monotone(m - c, t - c);
    } else {
        lemma_sq_monotone(c - m, c - t);
        assert(sq(m - c) == (c - m) * (c - m)) by (nonlinear_arith);
        assert(sq(t - c) == (c - t) * (c - t)) by (nonlinear_arith);
    }
}

/// One coordinate moved toward its target, as `toward` states.
fn toward_exec(c: i32, t: i32, step: u64, err: u64) -> (r: i32)
    requires
        step <= err,
        err < 0x2_0000_0000,
        c <= t ==> t - c <= err,
        t < c ==> c - t <= err,
    ensures
        r as int == toward(c as int, t as int, step as int, err as int),
{
    if err == 0 {
        return c;
    }
    proof {
        lemma_toward_between(c as int, t as int, step as int, err as int);
    }
    let d: u128 = abs_diff(c, t);
    assert(d * (step as u128) <= 0xffff_ffff * 0x2_0000_0000) by (nonlinear_arith)
        requires d <= 0xffff_ffff, step < 0x2_0000_0000;
    let m: u128 = d * (step as u128) / (err as u128);
    if c <= t {
        ((c as i64) + (m as i64)) as i32
    } else {
        ((c as i64) - (m as i64)) as i32
    }
}

/// `c` moved by `step` toward `t`, as `move_toward` states.
fn move_toward_exec(c: Vec3, t: Vec3, step: u64, err: u64) -> (r: Vec3)
    requires
        step <= err,
        err < 0x2_0000_0000,
        is_root(err as int, dist2(c, t)),
    ensures
        r == move_toward(c, t, step as int, err as int),
{
    proof {
        lemma_axes_within(c, t, err as int);
    }
    Vec3 {
        x: toward_exec(c.x, t.x, step, err),
        y: toward_exec(c.y, t.y, step, err),
        z: toward_exec(c.z, t.z, step, err),
    }
}

/// Proportional smoothing: the speed is proportional to the remaining distance.
#[derive(Clone, Copy, Debug, PartialEq, Eq, Structural)]
pub struct PSmoothing {
    /// Share of the remaining distance covered per second, in thousandths.
    pub modifier: u32,
    /// Below this distance the position is left where it is.
    pub end_threshold: u32,
}

/// Three-zone smoothing: proportional near the target, fixed speed in the
/// middle, optionally faster in proportion to the excess distance far away.
#[derive(Clone, Copy, Debug, PartialEq, Eq, Structural)]
pub struct PFPSmoothing {
    /// Fixed movement speed, in thousandths of a unit per second.
    pub smoothing_speed: u32,
    /// Whether the far zone speeds the movement up.
    pub far_speedup: bool,
    /// Start of the far zone; ten times the smoothing speed when absent.
    pub far_threshold: Option<u32>,
    /// Extra speed per unit of distance beyond the far threshold, in
    /// thousandths per second.
    pub far_modifier: u32,
    /// Whether the near zone slows the movement down.
    pub near_slowdown: bool,
    /// End of the near zone; the smoothing speed when absent.
    pub near_threshold: Option<u32>,
    /// Share of the remaining distance covered per second in the near zone,
    /// in thousandths.
    pub near_modifier: u32,
    /// Below this distance the position snaps to the target.
    pub end_threshold: u32,
}

/// Where a smoothed entity is heading.
#[derive(Clone, Copy, Debug, PartialEq, Eq, Structural)]
pub struct TargetPosition(pub Vec3);

impl Default for TargetPosition {
    fn default() -> (r: TargetPosition)
        ensures
            r.0 == (Vec3 { x: 0, y: 0, z: 0 }),
    {
        TargetPosition(Vec3 { x: 0, y: 0, z: 0 })
    }
}

impl Default for PFPSmoothing {
    fn default() -> (r: PFPSmoothing)
        ensures
            r.smoothing_speed == DEFAULT_SMOOTHING_SPEED,
            !r.far_speedup,
            r.far_threshold is None,
            r.far_modifier == DEFAULT_FAR_MODIFIER,
            r.near_slowdown,
            r.near_threshold is None,
            r.near_modifier == DEFAULT_NEAR_MODIFIER,
            r.end_threshold == DEFAULT_END_THRESHOLD,
    {
        PFPSmoothing {
            smoothing_speed: DEFAULT_SMOOTHING_SPEED,
            far_speedup: false,
            far_threshold: None,
            far_modifier: DEFAULT_FAR_MODIFIER,
            near_slowdown: true,
            near_threshold: None,
            near_modifier: DEFAULT_NEAR_MODIFIER,
            end_threshold: DEFAULT_END_THRESHOLD,
        }
    }
}

/// Divisor that turns (thousandths per second) times microseconds into a plain factor.
pub const RATE_DIVISOR: u128 = 1_000_000_000;

pub open spec fn rate_divisor() -> int {
    RATE_DIVISOR as int
}

impl PSmoothing {
    /// Distance covered in one step of `dt` microseconds at remaining distance `err`.
    pub open spec fn step(self, err: int, dt: int) -> int {
        min_int(err, self.modifier * err * dt / rate_divisor())
    }

    /// The position after one step of `dt` microseconds from `c` toward `t`.
    pub open spec fn next_position(self, c: Vec3, t: Vec3, dt: int) -> Vec3 {
        let err = distance_spec(c, t);
        if err < self.end_threshold {
            c
        } else {
            move_toward(c, t, self.step(err, dt), err)
        }
    }

    /// Moves `position` toward `target` for `delta_time` microseconds.
    pub fn smooth_position(&self, position: Vec3, target: Vec3, delta_time: u32) -> (r: Vec3)
        ensures
            r == self.next_position(position, target, delta_time as int),
    {
        let err = distance(position, target);
        if err < self.end_threshold as u64 {
            position
        } else {
            let e = err as u128;
            assert((self.modifier as u128) * e <= 0xffff_ffff * 0x2_0000_0000)
                by (nonlinear_arith)
                requires self.modifier <= 0xffff_ffff, e < 0x2_0000_0000;
            assert(((self.modifier as u128) * e) * (delta_time as u128) <= 0xffff_ffff * 0x2_0000_0000 * 0xffff_ffff)
                by (nonlinear_arith)
                requires (self.modifier as u128) * e <= 0xffff_ffff * 0x2_0000_0000, delta_time <= 0xffff_ffff;
            let p1: u128 = (self.modifier as u128) * e;
            let raw: u128 = p1 * (delta_time as u128) / RATE_DIVISOR;
            let step: u64 = if raw < e { raw as u64 } else { err };
            move_toward_exec(position, target, step, err)
        }
    }
}

impl PFPSmoothing {
    /// End of the near zone.
    pub open spec fn near_limit(self) -> int {
        match self.near_threshold {
            Some(n) => n as int,
            None => self.smoothing_speed as int,
        }
    }

    /// Start of the far zone.
    pub open spec fn far_limit(self) -> int {
        match self.far_threshold {
            Some(f) => f as int,
            None => 10 * self.smoothing_speed,
        }
    }

    /// Distance covered in one step of `dt` microseconds at remaining
    /// distance `err`, before clamping to `err`.
    pub open spec fn raw_step(self, err: int, dt: int) -> int {
        if self.near_slowdown && err < self.near_limit() {
            dt * self.near_modifier * err / rate_divisor()
        } else if self.far_speedup && err > self.far_limit() {
            dt * (self.smoothing_speed * RATE_SCALE + self.far_modifier * (err - self.far_limit()))
                / rate_divisor()
        } else {
            dt * self.smoothing_speed / (MICROS_PER_SECOND as int)
        }
    }

    /// The position after one step of `dt` microseconds from `c` toward `t`.
    pub open spec fn next_position(self, c: Vec3, t: Vec3, dt: int) -> Vec3 {
        let err = distance_spec(c, t);
        if err < self.end_threshold {
            t
        } else {
            move_toward(c, t, min_int(err, self.raw_step(err, dt)), err)
        }
    }

    fn raw_step_exec(&self, err: u64, delta_time: u32) -> (r: u128)
        requires
            err < 0x2_0000_0000,
        ensures
            r == self.raw_step(err as int, delta_time as int),
    {
        let e = err as u128;
        let dt = delta_time as u128;
        let near: u128 = match self.near_threshold {
            Some(n) => n as u128,
            None => self.smoothing_speed as u128,
        };
        let far: u128 = match self.far_threshold {
            Some(f) => f as u128,
            None => 10 * (self.smoothing_speed as u128),
        };
        if self.near_slowdown && e < near {
            assert(dt * (self.near_modifier as u128) <= 0xffff_ffff * 0xffff_ffff)
                by (nonlinear_arith)
                requires self.near_modifier <= 0xffff_ffff, dt <= 0xffff_ffff;
            let p1: u128 = dt * (self.near_modifier as u128);
            assert(p1 * e <= 0xffff_ffff * 0xffff_ffff * 0x2_0000_0000)
                by (nonlinear_arith)
                requires p1 <= 0xffff_ffff * 0xffff_ffff, e < 0x2_0000_0000;
            p1 * e / RATE_DIVISOR
        } else if self.far_speedup && e > far {
            let excess: u128 = e - far;
            assert((self.far_modifier as u128) * excess <= 0xffff_ffff * 0x2_0000_0000)
                by (nonlinear_arith)
                requires self.far_modifier <= 0xffff_ffff, excess < 0x2_0000_0000;
            let speed: u128 = (self.smoothing_speed as u128) * 1000 + (self.far_modifier as u128) * excess;
            assert(dt * speed <= 0xffff_ffff * 0x3_0000_0000_0000_0000)
                by (nonlinear_arith)
                requires speed <= 0x3_0000_0000_0000_0000, dt <= 0xffff_ffff;
            dt * speed / RATE_DIVISOR
        } else {
            assert(dt * (self.smoothing_speed as u128) <= 0xffff_ffff * 0xffff_ffff)
                by (nonlinear_arith)
                requires self.smoothing_speed <= 0xffff_ffff, dt <= 0xffff_ffff;
            dt * (self.smoothing_speed as u128) / (MICROS_PER_SECOND as u128)
        }
    }

    /// Moves `position` toward `target` for `delta_time` microseconds.
    pub fn smooth_position(&self, position: Vec3, target: Vec3, delta_time: u32) -> (r: Vec3)
        ensures
            r == self.next_position(position, target, delta_time as int),
    {
        let err = distance(position, target);
        if err < self.end_threshold as u64 {
            target
        } else {
            let raw = self.raw_step_exec(err, delta_time);
            let step: u64 = if raw < err as u128 { raw as u64 } else { err };
            move_toward_exec(position, target, step, err)
        }
    }
}

/// How an entity's position chases its target.
#[derive(Clone, Copy, Debug, PartialEq, Eq, Structural)]
pub enum PositionSmoothing {
    /// Jump to the target at once.
    Instant,
    /// Proportional smoothing.
    P(PSmoothing),
    /// Three-zone smoothing.
    PFP(PFPSmoothing),
}

impl Default for PositionSmoothing {
    fn default() -> (r: PositionSmoothing)
        ensures
            r is Instant,
    {
        PositionSmoothing::Instant
    }
}

impl PositionSmoothing {
    /// The position after one step of `dt` microseconds from `c` toward `t`.
    pub open spec fn next_position(self, c: Vec3, t: Vec3, dt: int) -> Vec3 {
        match self {
            PositionSmoothing::Instant => t,
            PositionSmoothing::P(p) => p.next_position(c, t, dt),
            PositionSmoothing::PFP(pfp) => pfp.next_position(c, t, dt),
        }
    }

    /// Moves `position` toward `target` for `delta_time` microseconds.
    pub fn smooth_position(&self, position: Vec3, target: Vec3, delta_time: u32) -> (r: Vec3)
        ensures
            r == self.next_position(position, target, delta_time as int),
    {
        match self {
            PositionSmoothing::Instant => target,
            PositionSmoothing::P(p) => p.smooth_position(position, target, delta_time),
            PositionSmoothing::PFP(pfp) => pfp.smooth_position(position, target, delta_time),
        }
    }
}

/// Below the end threshold the three-zone smoother snaps exactly onto the
/// target, while the proportional smoother holds the current position. The
/// error is below a threshold exactly when the squared distance is below the
/// threshold's square.
pub proof fn lemma_end_threshold(p: PSmoothing, pfp: PFPSmoothing, c: Vec3, t: Vec3, dt: int)
    ensures
        distance_spec(c, t) < pfp.end_threshold <==> dist2(c, t) < pfp.end_threshold * pfp.end_threshold,
        distance_spec(c, t) < p.end_threshold <==> dist2(c, t) < p.end_threshold * p.end_threshold,
        distance_spec(c, t) < pfp.end_threshold ==> pfp.next_position(c, t, dt) == t,
        distance_spec(c, t) < p.end_threshold ==> p.next_position(c, t, dt) == c,
{
    lemma_distance_is_root(c, t);
    lemma_dist2_nonneg(c, t);
    lemma_root_lt(dist2(c, t), pfp.end_threshold as int);
    lemma_root_lt(dist2(c, t), p.end_threshold as int);
}

proof fn lemma_nonneg_quotient(a: int, b: int, c: int, d: int)
    requires
        a >= 0,
        b >= 0,
        c >= 0,
        d > 0,
    ensures
        a * b * c / d >= 0,
{
    assert(a * b * c >= 0) by (nonlinear_arith)
        requires a >= 0, b >= 0, c >= 0;
    if a * b * c > 0 {
        lemma_div_pos_is_pos(a * b * c, d);
    }
}

/// A step never has negative length.
proof fn lemma_raw_step_nonneg(pfp: PFPSmoothing, err: int, dt: int)
    requires
        err >= 0,
        dt >= 0,
    ensures
        pfp.raw_step(err, dt) >= 0,
{
    if pfp.near_slowdown && err < pfp.near_limit() {
        lemma_nonneg_quotient(dt, pfp.near_modifier as int, err, rate_divisor());
    } else if pfp.far_speedup && err > pfp.far_limit() {
        let speed = pfp.smoothing_speed * RATE_SCALE + pfp.far_modifier * (err - pfp.far_limit());
        assert(pfp.far_modifier * (err - pfp.far_limit()) >= 0) by (nonlinear_arith)
            requires pfp.far_modifier >= 0, err - pfp.far_limit() > 0;
        lemma_nonneg_quotient(dt, speed, 1, rate_divisor());
    } else {
        lemma_nonneg_quotient(dt, pfp.smoothing_speed as int, 1, MICROS_PER_SECOND as int);
    }
}

/// No policy ever moves a position farther than its target is:
/// `|next - current| <= |target - current|`, stated on squared distances.
pub proof fn lemma_never_overshoots(policy: PositionSmoothing, c: Vec3, t: Vec3, dt: int)
    requires
        dt >= 0,
    ensures
        dist2(c, policy.next_position(c, t, dt)) <= dist2(c, t),
{
    lemma_distance_is_root(c, t);
    lemma_dist2_nonneg(c, c);
    let err = distance_spec(c, t);
    match policy {
        PositionSmoothing::Instant => {},
        PositionSmoothing::P(p) => {
            if err >= p.end_threshold {
                lemma_nonneg_quotient(p.modifier as int, err, dt, rate_divisor());
                lemma_move_toward_within(c, t, p.step(err, dt), err);
            }
        },
        PositionSmoothing::PFP(pfp) => {
            if err >= pfp.end_threshold {
                lemma_raw_step_nonneg(pfp, err, dt);
                lemma_move_toward_within(c, t, min_int(err, pfp.raw_step(err, dt)), err);
            }
        },
    }
}

/// A position already at its target stays there, whatever the policy and the
/// elapsed time.
pub proof fn lemma_at_target_stays(policy: PositionSmoothing, t: Vec3, dt: int)
    ensures
        policy.next_position(t, t, dt) == t,
{
    assert(dist2(t, t) == 0);
    assert(is_root(0, 0));
    lemma_root_unique(0, 0);
}

/// `n` proportional steps of `dt` microseconds each, from `c` toward `t`.
pub open spec fn repeat_steps(p: PSmoothing, c: Vec3, t: Vec3, dt: int, n: nat) -> Vec3
    decreases n,
{
    if n == 0 {
        c
    } else {
        repeat_steps(p, p.next_position(c, t, dt), t, dt, (n - 1) as nat)
    }
}

/// A proportional step of no time, or one from a settled position, leaves
/// the position where it is.
proof fn lemma_p_still(p: PSmoothing, c: Vec3, t: Vec3, dt: int)
    requires
        dt == 0 || distance_spec(c, t) < p.end_threshold,
    ensures
        p.next_position(c, t, dt) == c,
{
    let err = distance_spec(c, t);
    if err >= p.end_threshold {
        assert(p.modifier * err * 0 == 0) by (nonlinear_arith);
        lemma_distance_is_root(c, t);
        assert(p.step(err, dt) == 0);
        if err > 0 {
            assert(0int / err == 0);
        }
    }
}

/// Splitting a frame into `n` shorter frames gives the same position as the
/// single frame, for the proportional smoother, in the cases where it does not
/// move at all: a zero elapsed time, or a position already within the end
/// threshold. This says nothing of frames in which the position moves: there
/// splitting changes the result, since each step is proportional to the error
/// that remains and is rounded down.
pub proof fn lemma_split_frames_when_still(p: PSmoothing, c: Vec3, t: Vec3, dt: int, n: nat)
    requires
        n > 0,
        dt == 0 || distance_spec(c, t) < p.end_threshold,
    ensures
        repeat_steps(p, c, t, dt / (n as int), n) == p.next_position(c, t, dt),
{
    lemma_p_still(p, c, t, dt);
    if dt == 0 {
        assert(0int / (n as int) == 0);
    }
    lemma_repeat_still(p, c, t, dt / (n as int), n);
}

proof fn lemma_repeat_still(p: PSmoothing, c: Vec3, t: Vec3, dt: int, n: nat)
    requires
        dt == 0 || distance_spec(c, t) < p.end_threshold,
    ensures
        repeat_steps(p, c, t, dt, n) == c,
    decreases n,
{
    if n > 0 {
        lemma_p_still(p, c, t, dt);
        lemma_repeat_still(p, c, t, dt, (n - 1) as nat);
    }
}

} // verus!
