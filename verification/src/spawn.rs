//! Scattering the members of a flock and the phases of oscillators at random.
//!
//! The random numbers come from the `rand` crate. Everything that is made of
//! them is computed by functions that take the drawn numbers as arguments, so
//! that what they return is known for every draw.

use vstd::prelude::*;
use crate::fixed::{Fixed, ONE, LIMIT, RATE_LIMIT, in_range, product, lemma_product_bound};
use crate::trig::TAU;
use crate::vector::{Int3, Vec3, lemma_with_length_bounds};
use crate::flock::{Bounds, FlockMember, flock_wf};

verus! {

/// One half.
pub const HALF: i64 = 500_000;

/// The random numbers that one member is made of: three for where it is and
/// three for where it is heading.
#[derive(Clone, Copy, Debug)]
pub struct Draw {
    pub place: (u32, u32, u32),
    pub heading: (u32, u32, u32),
}

/// The number in `[0, 1)` that the 32 random bits `bits` stand for.
pub open spec fn unit(bits: u32) -> int {
    (bits * ONE) / 0x1_0000_0000
}

/// The number at the fraction `s` of the way from `lo` to `hi`.
pub open spec fn between(lo: int, hi: int, s: int) -> int {
    lo + product(hi - lo, s)
}

/// The point of `region` that the three draws `d` pick.
pub open spec fn placed(region: Bounds, d: (u32, u32, u32)) -> Int3 {
    Int3 {
        x: between(region.min.x as int, region.max.x as int, unit(d.0)),
        y: between(region.min.y as int, region.max.y as int, unit(d.1)),
        z: between(region.min.z as int, region.max.z as int, unit(d.2)),
    }
}

/// The direction that the three draws `d` pick: each component in
/// `[-1/2, 1/2)`.
pub open spec fn headed(d: (u32, u32, u32)) -> Int3 {
    Int3 { x: unit(d.0) - HALF, y: unit(d.1) - HALF, z: unit(d.2) - HALF }
}

/// `m` is the member of the given species that the draws `d` make in
/// `region` at `speed`.
pub open spec fn is_draw_of(
    m: FlockMember,
    region: Bounds,
    speed: int,
    species_id: Option<u32>,
    d: Draw,
) -> bool {
    &&& m.position@ == placed(region, d.place)
    &&& m.velocity@ == headed(d.heading).with_length(speed)
    &&& m.species_id == species_id
}

/// `m` is a member that some draws make in `region` at `speed`.
pub open spec fn is_spawn_of(
    m: FlockMember,
    region: Bounds,
    speed: int,
    species_id: Option<u32>,
) -> bool {
    exists|d: Draw| is_draw_of(m, region, speed, species_id, d)
}

/// `at` lies in `region`.
pub open spec fn inside(region: Bounds, at: Int3) -> bool {
    &&& region.min.x <= at.x <= region.max.x
    &&& region.min.y <= at.y <= region.max.y
    &&& region.min.z <= at.z <= region.max.z
}

/// The number in `[0, 1)` that `bits` stand for.
pub fn unit_of(bits: u32) -> (s: Fixed)
    ensures
        s == unit(bits),
        0 <= s < ONE,
{
    (((bits as u64) * (ONE as u64)) / 0x1_0000_0000) as i64
}

/// The number at the fraction `s` of the way from `lo` to `hi`.
pub fn between_of(lo: Fixed, hi: Fixed, s: Fixed) -> (r: Fixed)
    requires
        in_range(lo as int),
        in_range(hi as int),
        lo <= hi,
        0 <= s < ONE,
    ensures
        r == between(lo as int, hi as int, s as int),
        lo <= r <= hi,
        lo < hi ==> r < hi,
{
    let d: i128 = (hi - lo) as i128;
    proof {
        lemma_product_bound(d as int, s as int, 2 * LIMIT, ONE as int);
        assert(0 <= (d * s) / (ONE as int) <= d && (d > 0 ==> (d * s) / (ONE as int) < d))
            by (nonlinear_arith)
            requires
                d >= 0,
                0 <= s < ONE,
        ;
    }
    (lo as i128 + d * (s as i128) / (ONE as i128)) as i64
}

/// The member that the draws `d` make: placed in `region`, heading the drawn
/// way at `speed`. Draws that pick no direction leave the member at rest.
pub fn member_from(region: &Bounds, speed: Fixed, species_id: Option<u32>, d: &Draw) -> (m:
    FlockMember)
    requires
        region.wf(),
        0 <= speed <= RATE_LIMIT,
    ensures
        m.position@ == placed(*region, d.place),
        m.velocity@ == headed(d.heading).with_length(speed as int),
        m.species_id == species_id,
        m.wf(),
        inside(*region, m.position@),
        m.velocity@.len_sq() <= speed * speed,
{
    let position = Vec3 {
        x: between_of(region.min.x, region.max.x, unit_of(d.place.0)),
        y: between_of(region.min.y, region.max.y, unit_of(d.place.1)),
        z: between_of(region.min.z, region.max.z, unit_of(d.place.2)),
    };
    let heading = Vec3 {
        x: unit_of(d.heading.0) - HALF,
        y: unit_of(d.heading.1) - HALF,
        z: unit_of(d.heading.2) - HALF,
    };
    proof {
        if heading@.len_sq() > 0 {
            lemma_with_length_bounds(heading@, speed as int);
        } else {
            assert(0 <= speed * speed) by (nonlinear_arith);
        }
        assert(heading@.len_sq() >= 0) by (nonlinear_arith);
    }
    FlockMember { position, velocity: heading.with_length(speed), species_id }
}

/// `rand::random::<u32>()`: 32 bits from the generator of the current thread.
/// Nothing is claimed of them.
#[verifier::external_body]
fn random_bits() -> (bits: u32) {
    rand::random::<u32>()
}

/// Draws the random numbers for one member.
fn draw() -> Draw {
    Draw {
        place: (random_bits(), random_bits(), random_bits()),
        heading: (random_bits(), random_bits(), random_bits()),
    }
}

/// A member placed at random in `region`, heading a random way at `speed`
/// or, where the draws pick no direction, at rest.
pub fn spawn_member(region: &Bounds, speed: Fixed, species_id: Option<u32>) -> (m: FlockMember)
    requires
        region.wf(),
        0 <= speed <= RATE_LIMIT,
    ensures
        m.wf(),
        m.species_id == species_id,
        inside(*region, m.position@),
        m.velocity@.len_sq() <= speed * speed,
        is_spawn_of(m, *region, speed as int, species_id),
{
    let d = draw();
    let m = member_from(region, speed, species_id, &d);
    assert(is_draw_of(m, *region, speed as int, species_id, d));
    m
}

/// A flock of `count` members of one species, each placed at random in
/// `region` and heading a random way at `speed`.
pub fn spawn_flock(region: &Bounds, speed: Fixed, species_id: Option<u32>, count: usize) -> (flock:
    Vec<FlockMember>)
    requires
        region.wf(),
        0 <= speed <= RATE_LIMIT,
    ensures
        flock.len() == count,
        flock_wf(flock@),
        forall|i: int|
            0 <= i < count ==> (#[trigger] flock[i]).species_id == species_id && inside(
                *region,
                flock[i].position@,
            ) && flock[i].velocity@.len_sq() <= speed * speed,
        forall|i: int|
            0 <= i < count ==> is_spawn_of(#[trigger] flock[i], *region, speed as int, species_id),
{
    let mut flock: Vec<FlockMember> = Vec::new();
    let mut i: usize = 0;
    while i < count
        invariant
            0 <= i <= count,
            region.wf(),
            0 <= speed <= RATE_LIMIT,
            flock.len() == i,
            forall|k: int|
                0 <= k < i ==> (#[trigger] flock[k]).wf() && flock[k].species_id == species_id
                    && inside(*region, flock[k].position@) && flock[k].velocity@.len_sq() <= speed
                    * speed && is_spawn_of(flock[k], *region, speed as int, species_id),
        decreases count - i,
    {
        let m = spawn_member(region, speed, species_id);
        flock.push(m);
        i = i + 1;
    }
    flock
}

/// The phase in `[0, TAU)` that `bits` stand for.
pub fn phase_from(bits: u32) -> (phase: Fixed)
    ensures
        phase == between(0, TAU as int, unit(bits)),
        0 <= phase < TAU,
{
    between_of(0, TAU, unit_of(bits))
}

/// A phase drawn at random from `[0, TAU)`.
pub fn spawn_phase() -> (phase: Fixed)
    ensures
        0 <= phase < TAU,
        exists|bits: u32| phase == between(0, TAU as int, #[trigger] unit(bits)),
{
    phase_from(random_bits())
}

/// A number drawn at random between `lo` and `hi`.
pub fn spawn_between(lo: Fixed, hi: Fixed) -> (r: Fixed)
    requires
        in_range(lo as int),
        in_range(hi as int),
        lo <= hi,
    ensures
        lo <= r <= hi,
        exists|bits: u32| r == between(lo as int, hi as int, #[trigger] unit(bits)),
{
    between_of(lo, hi, unit_of(random_bits()))
}

} // verus!
