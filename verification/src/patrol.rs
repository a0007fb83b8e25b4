//! Patrolling: an agent that circles a center, chased by whoever follows it.
//!
//! The angle of a [`PatrolAgent`] is the only state in this crate that a step
//! accumulates. Each step moves it by the speed times the time of the step,
//! forward for a positive speed and time, and keeps it in `[0, TAU)`.

use vstd::prelude::*;
use vstd::arithmetic::div_mod::{lemma_add_mod_noop, lemma_mod_twice};
use crate::fixed::{Fixed, LIMIT, RATE_LIMIT, in_range, product, times, lemma_product_range};
use crate::trig::{TAU, sine, cosine, sin, cos, wrap, wrap_angle};
use crate::vector::{Int3, Vec3, Wide3};
use crate::oscillator::lemma_wave_range;

verus! {

/// How many times its own speed a follower moves at.
pub const FOLLOW_GAIN: i64 = 5_000_000;

/// An agent on a circular path.
#[derive(Clone, Copy, Debug, PartialEq, Eq, Structural)]
pub struct PatrolAgent {
    /// The middle of the circle.
    pub center: Vec3,
    /// The radius of the circle.
    pub radius: Fixed,
    /// Where on the circle the agent is, in radians from the x axis.
    pub angle: Fixed,
    /// How fast the angle grows, in radians per second.
    pub speed: Fixed,
}

/// The angle `angle` after one step of `dt` seconds at `speed`.
pub open spec fn next_angle(angle: int, speed: int, dt: int) -> int {
    wrap_angle(angle + product(speed, dt))
}

/// The angle `angle` after `n` equal steps.
pub open spec fn angle_after(angle: int, speed: int, dt: int, n: nat) -> int
    decreases n,
{
    if n == 0 {
        angle
    } else {
        next_angle(angle_after(angle, speed, dt, (n - 1) as nat), speed, dt)
    }
}

/// The point of the circle at `angle`, level with the center.
pub open spec fn point_on_circle(center: Int3, radius: int, angle: int) -> Int3 {
    Int3 {
        x: center.x + product(cosine(angle), radius),
        y: center.y,
        z: center.z + product(sine(angle), radius),
    }
}

/// How far a follower of the given speed moves in `dt` seconds.
pub open spec fn stride(speed: int, dt: int) -> int {
    product(product(speed, FOLLOW_GAIN as int), dt)
}

/// Where a follower at `from` stands after moving `length` toward `target`,
/// or away from it where `length` is negative.
pub open spec fn moved_toward(from: Int3, target: Int3, length: int) -> Int3 {
    let way = target.minus(from).shrunk();
    if length >= 0 {
        from.plus(way.with_length(length))
    } else {
        from.minus(way.with_length(-length))
    }
}

impl PatrolAgent {
    /// The center is a position, the radius positive, the angle in
    /// `[0, TAU)`, and radius and speed within [`RATE_LIMIT`].
    pub open spec fn wf(&self) -> bool {
        &&& self.center.is_position()
        &&& 0 < self.radius <= RATE_LIMIT
        &&& 0 <= self.angle < TAU
        &&& -RATE_LIMIT <= self.speed <= RATE_LIMIT
    }

    /// An agent at the given angle, reduced to `[0, TAU)`, if the radius is
    /// positive and the numbers are within the limits.
    pub fn new(center: Vec3, radius: Fixed, angle: Fixed, speed: Fixed) -> (a: Option<PatrolAgent>)
        ensures
            a.is_some() == (center.is_position() && 0 < radius <= RATE_LIMIT && -RATE_LIMIT
                <= speed <= RATE_LIMIT),
            a.is_some() ==> a.unwrap() == (PatrolAgent {
                center,
                radius,
                angle: wrap_angle(angle as int) as i64,
                speed,
            }) && a.unwrap().wf(),
    {
        if center.fits(LIMIT) && 0 < radius && radius <= RATE_LIMIT && -RATE_LIMIT <= speed
            && speed <= RATE_LIMIT {
            Some(PatrolAgent { center, radius, angle: wrap(angle), speed })
        } else {
            None
        }
    }

    /// The point of the circle that the agent is at.
    pub open spec fn target(&self) -> Int3 {
        point_on_circle(self.center@, self.radius as int, self.angle as int)
    }

    /// The point of the circle that the agent is at. Reading it changes nothing.
    pub fn target_point(&self) -> (target: Vec3)
        requires
            self.wf(),
        ensures
            target@ == self.target(),
    {
        let c = cos(self.angle);
        let s = sin(self.angle);
        proof {
            lemma_wave_range(c as int, self.radius as int);
            lemma_wave_range(s as int, self.radius as int);
        }
        Vec3 {
            x: self.center.x + times(c, self.radius),
            y: self.center.y,
            z: self.center.z + times(s, self.radius),
        }
    }

    /// How far a follower of this agent moves in `dt` seconds.
    pub fn stride_of(&self, dt: Fixed) -> (length: Fixed)
        requires
            self.wf(),
            in_range(dt as int),
        ensures
            length == stride(self.speed as int, dt as int),
    {
        proof {
            lemma_product_range(self.speed as int, FOLLOW_GAIN as int, RATE_LIMIT as int, 5_000_000);
            lemma_product_range(
                product(self.speed as int, FOLLOW_GAIN as int),
                dt as int,
                10_737_418_240,
                LIMIT as int,
            );
        }
        times(times(self.speed, FOLLOW_GAIN), dt)
    }

    /// Where a follower at `from` stands after chasing `target` for `dt`
    /// seconds: one stride nearer, without regard to how near it was.
    pub fn follow(&self, from: &Vec3, target: &Vec3, dt: Fixed) -> (to: Vec3)
        requires
            self.wf(),
            from.is_position(),
            target.is_position(),
            in_range(dt as int),
            -RATE_LIMIT <= stride(self.speed as int, dt as int) <= RATE_LIMIT,
        ensures
            to@ == moved_toward(from@, target@, stride(self.speed as int, dt as int)),
    {
        let length = self.stride_of(dt);
        let way = Wide3::from_vec(*target).minus(Wide3::from_vec(*from)).shrink();
        if length >= 0 {
            let hop = way.with_length(length);
            Vec3 { x: from.x + hop.x, y: from.y + hop.y, z: from.z + hop.z }
        } else {
            let hop = way.with_length(-length);
            Vec3 { x: from.x - hop.x, y: from.y - hop.y, z: from.z - hop.z }
        }
    }

    /// Advances the angle by `dt` seconds and returns the point of the circle
    /// that the agent has reached. Nothing but the angle changes.
    pub fn step(&mut self, dt: Fixed) -> (target: Vec3)
        requires
            old(self).wf(),
            in_range(dt as int),
        ensures
            final(self).angle == next_angle(old(self).angle as int, old(self).speed as int, dt as int),
            final(self).center == old(self).center,
            final(self).radius == old(self).radius,
            final(self).speed == old(self).speed,
            final(self).wf(),
            target@ == final(self).target(),
    {
        proof {
            lemma_product_range(self.speed as int, dt as int, RATE_LIMIT as int, LIMIT as int);
        }
        self.angle = wrap(self.angle + times(self.speed, dt));
        self.target_point()
    }
}

/// After `n` equal steps the angle is the first angle plus `n` times the
/// advance of one step, up to whole turns.
pub proof fn lemma_angle_after(angle: int, speed: int, dt: int, n: nat)
    ensures
        wrap_angle(angle_after(angle, speed, dt, n)) == wrap_angle(angle + n * product(speed, dt)),
        n > 0 ==> angle_after(angle, speed, dt, n) == wrap_angle(angle + n * product(speed, dt)),
    decreases n,
{
    let d = product(speed, dt);
    let t = TAU as int;
    if n == 0 {
    } else {
        let before = angle_after(angle, speed, dt, (n - 1) as nat);
        lemma_angle_after(angle, speed, dt, (n - 1) as nat);
        assert(angle + (n - 1) * d + d == angle + n * d) by (nonlinear_arith);
        lemma_add_mod_noop(before, d, t);
        lemma_add_mod_noop(angle + (n - 1) * d, d, t);
        lemma_mod_twice(before + d, t);
    }
}

} // verus!
