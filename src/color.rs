use vstd::prelude::*;
use crate::smoothing::{RATE_DIVISOR, rate_divisor};
use crate::geometry::floor_div;

verus! {

/// A colour as red, green, blue and alpha channels, each in thousandths
/// (1000 is full intensity; larger values are brighter than full).
#[derive(Clone, Copy, Debug, PartialEq, Eq, Structural)]
pub struct Color {
    pub red: i32,
    pub green: i32,
    pub blue: i32,
    pub alpha: i32,
}

impl Color {
    pub fn rgba(red: i32, green: i32, blue: i32, alpha: i32) -> (r: Color)
        ensures
            r == (Color { red, green, blue, alpha }),
    {
        Color { red, green, blue, alpha }
    }
}

/// The colour a text is easing toward.
#[derive(Clone, Copy, Debug, PartialEq, Eq, Structural)]
pub struct TargetTextColor(pub Color);

/// How fast a text colour chases its target: each channel moves by
/// `(flat + |error| * proportional) * dt` per step.
#[derive(Clone, Copy, Debug, PartialEq, Eq, Structural)]
pub struct TextColorSmoothing {
    /// Speed independent of the error, in channel thousandths per second.
    pub flat: u32,
    /// Extra speed per unit of error, in thousandths per second.
    pub proportional: u32,
}

impl Default for TextColorSmoothing {
    fn default() -> (r: TextColorSmoothing)
        ensures
            r.flat == 1000,
            r.proportional == 8000,
    {
        TextColorSmoothing { flat: 1000, proportional: 8000 }
    }
}

/// `a` moved toward `b` by at most `stepmax`, never past `b`.
pub open spec fn smoothto_spec(a: int, b: int, stepmax: int) -> int {
    if a > b {
        if a - stepmax >= b { a - stepmax } else { b }
    } else {
        if a + stepmax <= b { a + stepmax } else { b }
    }
}

/// Moves `a` toward `b` by at most `stepmax`, stopping at `b`.
pub fn smoothto(a: i32, b: i32, stepmax: u128) -> (r: i32)
    ensures
        r == smoothto_spec(a as int, b as int, stepmax as int),
{
    let gap: i64 = (a as i64) - (b as i64);
    if a > b {
        if (gap as u128) <= stepmax {
            b
        } else {
            ((a as i64) - (stepmax as i64)) as i32
        }
    } else {
        if ((-gap) as u128) <= stepmax {
            b
        } else {
            ((a as i64) + (stepmax as i64)) as i32
        }
    }
}

/// Absolute difference of two integers.
pub open spec fn gap(a: int, b: int) -> int {
    if a <= b { b - a } else { a - b }
}

impl TextColorSmoothing {
    /// Largest move of one channel from `c` toward `t` in `dt` microseconds.
    pub open spec fn channel_step(self, c: int, t: int, dt: int) -> int {
        (self.flat * 1000 + gap(c, t) * self.proportional) * dt / rate_divisor()
    }

    /// One channel after a step of `dt` microseconds.
    pub open spec fn next_channel(self, c: int, t: int, dt: int) -> int {
        smoothto_spec(c, t, self.channel_step(c, t, dt))
    }

    /// The colour after a step of `dt` microseconds from `c` toward `t`.
    pub open spec fn next_color(self, c: Color, t: Color, dt: int) -> Color {
        Color {
            red: self.next_channel(c.red as int, t.red as int, dt) as i32,
            green: self.next_channel(c.green as int, t.green as int, dt) as i32,
            blue: self.next_channel(c.blue as int, t.blue as int, dt) as i32,
            alpha: self.next_channel(c.alpha as int, t.alpha as int, dt) as i32,
        }
    }

    fn channel_step_exec(&self, c: i32, t: i32, delta_time: u32) -> (r: u128)
        ensures
            r == self.channel_step(c as int, t as int, delta_time as int),
    {
        let g: u128 = if c <= t { ((t as i64) - (c as i64)) as u128 } else { ((c as i64) - (t as i64)) as u128 };
        assert(g * (self.proportional as u128) <= 0xffff_ffff * 0xffff_ffff) by (nonlinear_arith)
            requires g <= 0xffff_ffff, self.proportional <= 0xffff_ffff;
        let speed: u128 = (self.flat as u128) * 1000 + g * (self.proportional as u128);
        assert(speed * (delta_time as u128) <= 0x2_0000_0000_0000_0000 * 0xffff_ffff) by (nonlinear_arith)
            requires speed <= 0x2_0000_0000_0000_0000, delta_time <= 0xffff_ffff;
        speed * (delta_time as u128) / RATE_DIVISOR
    }

    /// Moves each channel of `current` toward `target` for `delta_time`
    /// microseconds, never past the target.
    pub fn smooth_color(&self, current: Color, target: Color, delta_time: u32) -> (r: Color)
        ensures
            r == self.next_color(current, target, delta_time as int),
    {
        Color {
            red: smoothto(current.red, target.red, self.channel_step_exec(current.red, target.red, delta_time)),
            green: smoothto(current.green, target.green, self.channel_step_exec(current.green, target.green, delta_time)),
            blue: smoothto(current.blue, target.blue, self.channel_step_exec(current.blue, target.blue, delta_time)),
            alpha: smoothto(current.alpha, target.alpha, self.channel_step_exec(current.alpha, target.alpha, delta_time)),
        }
    }
}

/// One channel of a colour scaled by `fact` thousandths, rounded down.
pub open spec fn scaled(channel: int, fact: int) -> int {
    channel * fact / 1000
}

/// `v` limited to the range of a colour channel.
pub open spec fn clamp_channel(v: int) -> int {
    if v < i32::MIN { i32::MIN as int } else if v > i32::MAX { i32::MAX as int } else { v }
}

fn scale_channel(channel: i32, fact: u32) -> (r: i32)
    ensures
        r == clamp_channel(scaled(channel as int, fact as int)),
{
    assert(-0x8000_0000 * 0xffff_ffff <= (channel as int) * (fact as int) <= 0x7fff_ffff * 0xffff_ffff)
        by (nonlinear_arith)
        requires -0x8000_0000 <= channel <= 0x7fff_ffff, 0 <= fact <= 0xffff_ffff;
    let q: i128 = floor_div((channel as i128) * (fact as i128), 1000);
    if q < i32::MIN as i128 {
        i32::MIN
    } else if q > i32::MAX as i128 {
        i32::MAX
    } else {
        q as i32
    }
}

/// `col` with red, green and blue scaled by `fact` thousandths (rounded
/// down, limited to the channel range); alpha kept.
pub open spec fn brightened(col: Color, fact: int) -> Color {
    Color {
        red: clamp_channel(scaled(col.red as int, fact)) as i32,
        green: clamp_channel(scaled(col.green as int, fact)) as i32,
        blue: clamp_channel(scaled(col.blue as int, fact)) as i32,
        alpha: col.alpha,
    }
}

/// `col` with red, green and blue scaled by `fact` thousandths; alpha kept.
pub fn brighten(col: Color, fact: u32) -> (r: Color)
    ensures
        r == brightened(col, fact as int),
{
    Color {
        red: scale_channel(col.red, fact),
        green: scale_channel(col.green, fact),
        blue: scale_channel(col.blue, fact),
        alpha: col.alpha,
    }
}

/// A channel eased toward its target stays between where it was and the
/// target, and lands exactly on the target once a step covers the gap.
pub proof fn lemma_channel_clamped(s: TextColorSmoothing, c: int, t: int, dt: int)
    requires
        dt >= 0,
    ensures
        c <= t ==> c <= s.next_channel(c, t, dt) <= t,
        t < c ==> t <= s.next_channel(c, t, dt) <= c,
        s.channel_step(c, t, dt) >= gap(c, t) ==> s.next_channel(c, t, dt) == t,
{
    let speed = s.flat * 1000 + gap(c, t) * s.proportional;
    assert(speed * dt >= 0) by (nonlinear_arith)
        requires speed == s.flat * 1000 + gap(c, t) * s.proportional, gap(c, t) >= 0, s.flat >= 0,
            s.proportional >= 0, dt >= 0;
    if speed * dt > 0 {
        vstd::arithmetic::div_mod::lemma_div_pos_is_pos(speed * dt, rate_divisor());
    }
}

/// A colour eased toward its target never passes it on any channel.
pub proof fn lemma_color_never_passes(s: TextColorSmoothing, c: Color, t: Color, dt: int)
    requires
        dt >= 0,
    ensures
        gap(s.next_color(c, t, dt).red as int, t.red as int) <= gap(c.red as int, t.red as int),
        gap(s.next_color(c, t, dt).green as int, t.green as int) <= gap(c.green as int, t.green as int),
        gap(s.next_color(c, t, dt).blue as int, t.blue as int) <= gap(c.blue as int, t.blue as int),
        gap(s.next_color(c, t, dt).alpha as int, t.alpha as int) <= gap(c.alpha as int, t.alpha as int),
        c.red <= t.red ==> s.next_color(c, t, dt).red <= t.red,
        t.red <= c.red ==> t.red <= s.next_color(c, t, dt).red,
        c.green <= t.green ==> s.next_color(c, t, dt).green <= t.green,
        t.green <= c.green ==> t.green <= s.next_color(c, t, dt).green,
        c.blue <= t.blue ==> s.next_color(c, t, dt).blue <= t.blue,
        t.blue <= c.blue ==> t.blue <= s.next_color(c, t, dt).blue,
        c.alpha <= t.alpha ==> s.next_color(c, t, dt).alpha <= t.alpha,
        t.alpha <= c.alpha ==> t.alpha <= s.next_color(c, t, dt).alpha,
{
    lemma_channel_clamped(s, c.red as int, t.red as int, dt);
    lemma_channel_clamped(s, c.green as int, t.green as int, dt);
    lemma_channel_clamped(s, c.blue as int, t.blue as int, dt);
    lemma_channel_clamped(s, c.alpha as int, t.alpha as int, dt);
}

} // verus!
