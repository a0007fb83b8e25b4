//! Time-driven animation: bobbing, pulsing, colour cycling, swaying and
//! morphing, each a closed formula of the elapsed time and of what the agent
//! was created with.

use vstd::prelude::*;
use crate::fixed::{Fixed, ONE, LIMIT, RATE_LIMIT, abs, in_range, in_rate, trunc_div, product, times,
    lemma_product_bound, lemma_product_range, lemma_trunc_div_bound};
use crate::trig::{sine, cosine, sin, cos, lemma_sine_range};
use crate::vector::{Int3, Vec3, lemma_fraction};

verus! {

/// What an oscillator moves, with the parameters of the motion.
#[derive(Clone, Copy, Debug, PartialEq, Eq, Structural)]
pub enum OscillatorKind {
    /// Floating up and down around the height `base_y`.
    Bob { base_y: Fixed, amplitude: Fixed },
    /// Breathing between the scales `low` and `high`.
    Pulse { low: Fixed, high: Fixed },
    /// Running through the hues, starting at `hue_offset` degrees.
    ColorCycle { hue_offset: Fixed },
    /// Leaning to and fro by up to `amplitude` radians.
    Sway { amplitude: Fixed },
    /// Swelling unevenly along the three axes, by about `amplitude`.
    Morph { amplitude: Fixed },
}

/// One animated entity.
#[derive(Clone, Copy, Debug, PartialEq, Eq, Structural)]
pub struct OscillatorAgent {
    /// Where in its cycle the agent starts, in radians.
    pub phase: Fixed,
    /// How fast the cycle runs, in radians per second.
    pub speed: Fixed,
    pub kind: OscillatorKind,
}

/// What an oscillator prescribes at one moment, as unbounded integers.
pub ghost enum Motion {
    Height(int),
    Scale(Int3),
    Hue(int),
    Tilt { about_z: int, about_x: int },
}

/// What an oscillator prescribes at one moment.
#[derive(Clone, Copy, Debug, PartialEq, Eq, Structural)]
pub enum TransformDelta {
    /// The height to be at.
    Height(Fixed),
    /// The scale along each axis.
    Scale(Vec3),
    /// The hue, in degrees from 0 up to 360.
    Hue(Fixed),
    /// The rotation about the z axis and, after it, about the x axis, in radians.
    Tilt { about_z: Fixed, about_x: Fixed },
}

impl View for TransformDelta {
    type V = Motion;

    open spec fn view(&self) -> Motion {
        match *self {
            TransformDelta::Height(h) => Motion::Height(h as int),
            TransformDelta::Scale(s) => Motion::Scale(s@),
            TransformDelta::Hue(h) => Motion::Hue(h as int),
            TransformDelta::Tilt { about_z, about_x } => Motion::Tilt {
                about_z: about_z as int,
                about_x: about_x as int,
            },
        }
    }
}

/// A full circle of hues, in degrees.
pub const HUE_TURN: i64 = 360_000_000;

/// The number of degrees of hue that a colour cycle of speed one passes in a
/// second.
pub const HUE_RATE: i64 = 60;

impl OscillatorKind {
    /// The parameters are within the limits of the arithmetic: heights and
    /// hues within [`LIMIT`], the rest within [`RATE_LIMIT`].
    pub open spec fn wf(&self) -> bool {
        match *self {
            OscillatorKind::Bob { base_y, amplitude } => in_range(base_y as int) && in_rate(
                amplitude as int,
            ),
            OscillatorKind::Pulse { low, high } => in_rate(low as int) && in_rate(high as int),
            OscillatorKind::ColorCycle { hue_offset } => in_range(hue_offset as int),
            OscillatorKind::Sway { amplitude } => in_rate(amplitude as int),
            OscillatorKind::Morph { amplitude } => in_rate(amplitude as int),
        }
    }

    fn is_wf(&self) -> (b: bool)
        ensures
            b == self.wf(),
    {
        match *self {
            OscillatorKind::Bob { base_y, amplitude } => -LIMIT <= base_y && base_y <= LIMIT
                && -RATE_LIMIT <= amplitude && amplitude <= RATE_LIMIT,
            OscillatorKind::Pulse { low, high } => -RATE_LIMIT <= low && low <= RATE_LIMIT
                && -RATE_LIMIT <= high && high <= RATE_LIMIT,
            OscillatorKind::ColorCycle { hue_offset } => -LIMIT <= hue_offset && hue_offset
                <= LIMIT,
            OscillatorKind::Sway { amplitude } => -RATE_LIMIT <= amplitude && amplitude
                <= RATE_LIMIT,
            OscillatorKind::Morph { amplitude } => -RATE_LIMIT <= amplitude && amplitude
                <= RATE_LIMIT,
        }
    }
}

/// The angle that an oscillator of the given speed and phase has reached after
/// `elapsed` seconds.
pub open spec fn cycle_angle(phase: int, speed: int, elapsed: int) -> int {
    product(elapsed, speed) + phase
}

/// The height of a bobbing agent at the angle `t`.
pub open spec fn bob_height(base_y: int, amplitude: int, t: int) -> int {
    base_y + product(sine(t), amplitude)
}

/// The scale of a pulsing agent at the angle `t`.
pub open spec fn pulse_scale(low: int, high: int, t: int) -> int {
    low + product(high - low, abs(sine(t)))
}

/// The hue of a colour cycle of the given speed after `elapsed` seconds.
pub open spec fn cycle_hue(hue_offset: int, speed: int, elapsed: int) -> int {
    (hue_offset + trunc_div(elapsed * speed * HUE_RATE, ONE as int)) % (HUE_TURN as int)
}

/// The lean of a swaying agent at the angle `t`.
pub open spec fn sway_angle(amplitude: int, t: int) -> int {
    product(sine(t), amplitude)
}

/// The common factor of a morphing agent's scale at the angle `t`: one plus
/// the amplitude times a sum of three waves of different frequencies.
pub open spec fn morph_factor(amplitude: int, t: int) -> int {
    ONE + product(
        product(sine(t), 300_000) + product(sine(product(t, 1_700_000)), 200_000) + product(
            cosine(product(t, 2_300_000)),
            150_000,
        ),
        amplitude,
    )
}

/// The scale of a morphing agent at the angle `t`: the common factor, varied
/// by a tenth along each axis at a frequency of its own.
pub open spec fn morph_scale(amplitude: int, t: int) -> Int3 {
    let f = morph_factor(amplitude, t);
    Int3 {
        x: product(f, ONE + product(sine(product(t, 700_000)), 100_000)),
        y: product(f, ONE + product(cosine(product(t, 900_000)), 100_000)),
        z: product(f, ONE + product(sine(product(t, 1_100_000)), 100_000)),
    }
}

impl OscillatorAgent {
    /// The speed is positive and, like the phase and the parameters of the
    /// motion, within the limits of the arithmetic.
    pub open spec fn wf(&self) -> bool {
        &&& in_range(self.phase as int)
        &&& 0 < self.speed <= RATE_LIMIT
        &&& self.kind.wf()
    }

    /// An agent, if its numbers are within the limits and its speed positive.
    pub fn new(phase: Fixed, speed: Fixed, kind: OscillatorKind) -> (a: Option<OscillatorAgent>)
        ensures
            a.is_some() == (OscillatorAgent { phase, speed, kind }).wf(),
            a.is_some() ==> a.unwrap() == (OscillatorAgent { phase, speed, kind }),
    {
        if -LIMIT <= phase && phase <= LIMIT && 0 < speed && speed <= RATE_LIMIT && kind.is_wf() {
            Some(OscillatorAgent { phase, speed, kind })
        } else {
            None
        }
    }

    /// What the agent prescribes after `elapsed` seconds.
    pub open spec fn at(&self, elapsed: int) -> Motion {
        let t = cycle_angle(self.phase as int, self.speed as int, elapsed);
        match self.kind {
            OscillatorKind::Bob { base_y, amplitude } => Motion::Height(
                bob_height(base_y as int, amplitude as int, t),
            ),
            OscillatorKind::Pulse { low, high } => {
                let s = pulse_scale(low as int, high as int, t);
                Motion::Scale(Int3 { x: s, y: s, z: s })
            },
            OscillatorKind::ColorCycle { hue_offset } => Motion::Hue(
                cycle_hue(hue_offset as int, self.speed as int, elapsed),
            ),
            OscillatorKind::Sway { amplitude } => {
                let a = sway_angle(amplitude as int, t);
                Motion::Tilt { about_z: a, about_x: trunc_div(a, 2) }
            },
            OscillatorKind::Morph { amplitude } => Motion::Scale(morph_scale(amplitude as int, t)),
        }
    }

    /// Evaluates the agent after `elapsed` seconds.
    pub fn evaluate(&self, elapsed: Fixed) -> (d: TransformDelta)
        requires
            self.wf(),
            in_range(elapsed as int),
        ensures
            d@ == self.at(elapsed as int),
    {
        proof {
            lemma_product_range(elapsed as int, self.speed as int, LIMIT as int, RATE_LIMIT as int);
        }
        let t: Fixed = times(elapsed, self.speed) + self.phase;
        match self.kind {
            OscillatorKind::Bob { base_y, amplitude } => TransformDelta::Height(
                base_y + swing(sin(t), amplitude),
            ),
            OscillatorKind::Pulse { low, high } => {
                let w = sin(t);
                let s = low + swing(if w >= 0 { w } else { -w }, high - low);
                TransformDelta::Scale(Vec3 { x: s, y: s, z: s })
            },
            OscillatorKind::ColorCycle { hue_offset } => TransformDelta::Hue(
                hue_after(hue_offset, self.speed, elapsed),
            ),
            OscillatorKind::Sway { amplitude } => {
                let a = swing(sin(t), amplitude);
                TransformDelta::Tilt { about_z: a, about_x: a / 2 }
            },
            OscillatorKind::Morph { amplitude } => {
                let wave = swing(sin(t), 300_000) + swing(sin(faster(t, 1_700_000)), 200_000)
                    + swing(cos(faster(t, 2_300_000)), 150_000);
                let f = ONE + swing_small(wave, amplitude);
                TransformDelta::Scale(
                    Vec3 {
                        x: swell(f, ONE + swing(sin(faster(t, 700_000)), 100_000)),
                        y: swell(f, ONE + swing(cos(faster(t, 900_000)), 100_000)),
                        z: swell(f, ONE + swing(sin(faster(t, 1_100_000)), 100_000)),
                    },
                )
            },
        }
    }
}

/// A wave `w` in `[-1, 1]` times `k`, which is at most `|k|` in magnitude.
fn swing(w: Fixed, k: Fixed) -> (r: Fixed)
    requires
        -ONE <= w <= ONE,
        -2 * RATE_LIMIT <= k <= 2 * RATE_LIMIT,
    ensures
        r == product(w as int, k as int),
        r == product(k as int, w as int),
        -abs(k as int) <= r <= abs(k as int),
{
    proof {
        lemma_wave_range(w as int, k as int);
        assert(w * k == k * w) by (nonlinear_arith);
    }
    times(w, k)
}

/// A sum of waves `w` in `[-1, 1]` times `k`.
fn swing_small(w: Fixed, k: Fixed) -> (r: Fixed)
    requires
        -ONE <= w <= ONE,
        in_rate(k as int),
    ensures
        r == product(w as int, k as int),
        in_rate(r as int),
{
    swing(w, k)
}

/// The factor `f` of a morph times a variation `v` between 0.9 and 1.1.
fn swell(f: Fixed, v: Fixed) -> (r: Fixed)
    requires
        -RATE_LIMIT - ONE <= f <= RATE_LIMIT + ONE,
        0 <= v <= 2 * ONE,
    ensures
        r == product(f as int, v as int),
{
    proof {
        lemma_product_range(f as int, v as int, 2_148_483_648, 2_000_000);
    }
    times(f, v)
}

/// The angle `t` run `k` times as fast, for `k` up to four.
fn faster(t: Fixed, k: Fixed) -> (r: Fixed)
    requires
        -0x10_0000_0000_0000 <= t <= 0x10_0000_0000_0000,
        0 <= k <= 4 * ONE,
    ensures
        r == product(t as int, k as int),
{
    proof {
        lemma_product_range(t as int, k as int, 0x10_0000_0000_0000, 4 * ONE);
    }
    times(t, k)
}

/// The hue of a colour cycle.
fn hue_after(hue_offset: Fixed, speed: Fixed, elapsed: Fixed) -> (h: Fixed)
    requires
        in_range(hue_offset as int),
        in_rate(speed as int),
        in_range(elapsed as int),
    ensures
        h == cycle_hue(hue_offset as int, speed as int, elapsed as int),
        0 <= h < HUE_TURN,
{
    proof {
        lemma_product_bound(elapsed as int, speed as int, LIMIT as int, RATE_LIMIT as int);
        lemma_trunc_div_bound(elapsed * speed * HUE_RATE, ONE as int);
    }
    let run: i128 = (elapsed as i128) * (speed as i128) * (HUE_RATE as i128) / (ONE as i128);
    let r: i128 = (hue_offset as i128 + run) % (HUE_TURN as i128);
    if r < 0 {
        (r + HUE_TURN as i128) as i64
    } else {
        r as i64
    }
}

/// A bobbing agent never strays from its base height by more than its
/// amplitude.
pub proof fn lemma_bob_within(base_y: int, amplitude: int, t: int)
    ensures
        base_y - abs(amplitude) <= bob_height(base_y, amplitude, t) <= base_y + abs(amplitude),
{
    lemma_sine_range(t);
    lemma_wave_range(sine(t), amplitude);
}

/// A pulsing agent stays between its two scales.
pub proof fn lemma_pulse_within(low: int, high: int, t: int)
    ensures
        low <= high ==> low <= pulse_scale(low, high, t) <= high,
        high <= low ==> high <= pulse_scale(low, high, t) <= low,
{
    lemma_sine_range(t);
    lemma_fraction(high - low, abs(sine(t)));
}

/// A hue is at least 0 and below 360 degrees.
pub proof fn lemma_hue_range(hue_offset: int, speed: int, elapsed: int)
    ensures
        0 <= cycle_hue(hue_offset, speed, elapsed) < HUE_TURN,
{
}

/// A scale that an entity grows or shrinks toward, and how fast.
#[derive(Clone, Copy, Debug, PartialEq, Eq, Structural)]
pub struct ScaleTarget {
    /// The scale to reach.
    pub target_scale: Vec3,
    /// The fraction of the remaining way covered per second.
    pub speed: Fixed,
}

/// The scale that a click turns `target` into: one if it was large, two if
/// it was not.
pub open spec fn toggled_scale(target: Int3) -> Int3 {
    if target.x > 1_500_000 {
        Int3 { x: ONE as int, y: ONE as int, z: ONE as int }
    } else {
        Int3 { x: 2 * ONE, y: 2 * ONE, z: 2 * ONE }
    }
}

/// The fraction of the way to the target that `dt` seconds at `speed` cover,
/// kept within `[0, 1]`.
pub open spec fn approach_fraction(speed: int, dt: int) -> int {
    let f = product(dt, speed);
    if f < 0 { 0 } else if f > ONE { ONE as int } else { f }
}

impl ScaleTarget {
    /// The target and the speed are within [`RATE_LIMIT`].
    pub open spec fn wf(&self) -> bool {
        self.target_scale.is_rate() && in_rate(self.speed as int)
    }

    /// Switches the target between the scales one and two.
    pub fn toggle(&mut self)
        ensures
            final(self).target_scale@ == toggled_scale(old(self).target_scale@),
            final(self).speed == old(self).speed,
            final(self).wf() == in_rate(old(self).speed as int),
    {
        if self.target_scale.x > 1_500_000 {
            self.target_scale = Vec3 { x: ONE, y: ONE, z: ONE };
        } else {
            self.target_scale = Vec3 { x: 2 * ONE, y: 2 * ONE, z: 2 * ONE };
        }
    }

    /// The scale after growing or shrinking from `scale` toward the target
    /// for `dt` seconds.
    pub fn approach(&self, scale: &Vec3, dt: Fixed) -> (next: Vec3)
        requires
            self.wf(),
            scale.is_rate(),
            in_range(dt as int),
        ensures
            next@ == scale@.lerp(
                self.target_scale@,
                approach_fraction(self.speed as int, dt as int),
            ),
            next.is_rate(),
    {
        proof {
            lemma_product_range(dt as int, self.speed as int, LIMIT as int, RATE_LIMIT as int);
        }
        let f: Fixed = times(dt, self.speed);
        let f: Fixed = if f < 0 { 0 } else if f > ONE { ONE } else { f };
        scale.lerp(&self.target_scale, f)
    }
}

/// A wave in `[-1, 1]` times `k` is at most `|k|` in magnitude.
pub proof fn lemma_wave_range(w: int, k: int)
    by (nonlinear_arith)
    requires
        -ONE <= w <= ONE,
    ensures
        -abs(k) <= product(w, k) <= abs(k),
        w >= 0 && k >= 0 ==> product(w, k) >= 0,
{
}

} // verus!
