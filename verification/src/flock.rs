//! Flocking: separation, alignment and cohesion among the members of a flock,
//! with a pull toward the middle of the world and a limit on how fast a member
//! can turn.
//!
//! One call of [`step`] reads the whole flock as it stands and returns the next
//! position and velocity of every member; no member ever sees another's
//! updated state within the same step.

use vstd::prelude::*;
use crate::fixed::{Fixed, ONE, LIMIT, RATE_LIMIT, abs, in_range, in_rate, trunc_div, product, times,
    lemma_product_bound, lemma_product_range, lemma_product_zero, lemma_trunc_div_bound};
use crate::vector::{Int3, Vec3, Wide3, lemma_ratio_within, lemma_with_length_bounds,
    lemma_lerp_between, lemma_lerp_keeps_heading, lemma_shrunk_along, lemma_with_length_along,
    lemma_along_dot, lemma_fraction};

verus! {

/// The largest flock that [`step`] accepts.
pub const MAX_FLOCK: usize = 0xffff_ffff;

/// One member of a flock.
#[derive(Clone, Copy, Debug, PartialEq, Eq, Structural)]
pub struct FlockMember {
    /// Where the member is.
    pub position: Vec3,
    /// Heading times speed.
    pub velocity: Vec3,
    /// The species. A member with a species aligns and coheres only with its
    /// own kind; a member without one does so with everybody.
    pub species_id: Option<u32>,
}

impl FlockMember {
    /// The position is within [`LIMIT`] and the velocity within [`RATE_LIMIT`].
    pub open spec fn wf(&self) -> bool {
        self.position.is_position() && self.velocity.is_rate()
    }

    /// A member, if its position and velocity are within the limits.
    pub fn new(position: Vec3, velocity: Vec3, species_id: Option<u32>) -> (m: Option<FlockMember>)
        ensures
            m.is_some() == (position.is_position() && velocity.is_rate()),
            m.is_some() ==> m.unwrap() == (FlockMember { position, velocity, species_id }),
    {
        if position.fits(LIMIT) && velocity.fits(RATE_LIMIT) {
            Some(FlockMember { position, velocity, species_id })
        } else {
            None
        }
    }
}

/// An axis-aligned box that the flock is kept in.
#[derive(Clone, Copy, Debug, PartialEq, Eq, Structural)]
pub struct Bounds {
    pub min: Vec3,
    pub max: Vec3,
}

impl Bounds {
    /// Both corners are positions and `min` is nowhere above `max`.
    pub open spec fn wf(&self) -> bool {
        &&& self.min.is_position()
        &&& self.max.is_position()
        &&& self.min.x <= self.max.x
        &&& self.min.y <= self.max.y
        &&& self.min.z <= self.max.z
    }

    /// The middle of the box.
    pub open spec fn center(&self) -> Int3 {
        self.min@.plus(self.max@).halved()
    }
}

/// Why a set of parameters was refused.
#[derive(Clone, Copy, Debug, PartialEq, Eq, Structural)]
pub enum ConfigError {
    /// A radius, speed, weight or corner is beyond what the arithmetic holds,
    /// or a radius or speed is negative.
    OutOfRange,
    /// The avoidance radius exceeds the perception radius.
    RadiusOrder,
    /// The minimum speed exceeds the maximum speed.
    SpeedOrder,
    /// A weight or the center pull is negative.
    NegativeWeight,
    /// The box has a `min` above its `max`.
    BoundsOrder,
}

/// The configuration of one flock.
#[derive(Clone, Copy, Debug, PartialEq, Eq, Structural)]
pub struct FlockParameters {
    /// How far a member sees its own kind; others it sees half as far.
    pub perception_radius: Fixed,
    /// Within this distance a member steers away.
    pub avoidance_radius: Fixed,
    pub max_speed: Fixed,
    pub min_speed: Fixed,
    /// The fraction of the way toward the desired velocity covered per second.
    pub turn_speed: Fixed,
    pub separation_weight: Fixed,
    pub alignment_weight: Fixed,
    pub cohesion_weight: Fixed,
    pub center_pull_strength: Fixed,
    /// The box to stay in; without one the flock is pulled toward the origin.
    pub bounds: Option<Bounds>,
}

impl FlockParameters {
    /// Every number is representable: radii in `[0, LIMIT]`, speeds in
    /// `[0, RATE_LIMIT]`, the rest within `RATE_LIMIT`, corners within `LIMIT`.
    pub open spec fn representable(&self) -> bool {
        &&& 0 <= self.perception_radius <= LIMIT
        &&& 0 <= self.avoidance_radius <= LIMIT
        &&& 0 <= self.max_speed <= RATE_LIMIT
        &&& 0 <= self.min_speed <= RATE_LIMIT
        &&& in_rate(self.turn_speed as int)
        &&& in_rate(self.separation_weight as int)
        &&& in_rate(self.alignment_weight as int)
        &&& in_rate(self.cohesion_weight as int)
        &&& in_rate(self.center_pull_strength as int)
        &&& (self.bounds matches Some(b) ==> b.min.is_position() && b.max.is_position())
    }

    /// No weight is negative.
    pub open spec fn weights_nonnegative(&self) -> bool {
        &&& self.separation_weight >= 0
        &&& self.alignment_weight >= 0
        &&& self.cohesion_weight >= 0
        &&& self.center_pull_strength >= 0
    }

    /// The box, if there is one, has `min` nowhere above `max`.
    pub open spec fn bounds_ordered(&self) -> bool {
        self.bounds matches Some(b) ==> b.min.x <= b.max.x && b.min.y <= b.max.y && b.min.z
            <= b.max.z
    }

    /// The parameters are fit for [`step`].
    pub open spec fn wf(&self) -> bool {
        &&& self.representable()
        &&& self.avoidance_radius <= self.perception_radius
        &&& self.min_speed <= self.max_speed
        &&& self.weights_nonnegative()
        &&& self.bounds_ordered()
    }

    /// What [`FlockParameters::validate`] answers: the first complaint in the
    /// order of [`ConfigError`], or none.
    pub open spec fn verdict(&self) -> Result<(), ConfigError> {
        if !self.representable() {
            Err(ConfigError::OutOfRange)
        } else if self.avoidance_radius > self.perception_radius {
            Err(ConfigError::RadiusOrder)
        } else if self.min_speed > self.max_speed {
            Err(ConfigError::SpeedOrder)
        } else if !self.weights_nonnegative() {
            Err(ConfigError::NegativeWeight)
        } else if !self.bounds_ordered() {
            Err(ConfigError::BoundsOrder)
        } else {
            Ok(())
        }
    }

    /// The parameters with the given values, if they pass
    /// [`FlockParameters::validate`].
    pub fn new(
        perception_radius: Fixed,
        avoidance_radius: Fixed,
        max_speed: Fixed,
        min_speed: Fixed,
        turn_speed: Fixed,
        separation_weight: Fixed,
        alignment_weight: Fixed,
        cohesion_weight: Fixed,
        center_pull_strength: Fixed,
        bounds: Option<Bounds>,
    ) -> (r: Result<FlockParameters, ConfigError>)
        ensures
            ({
                let p = FlockParameters {
                    perception_radius,
                    avoidance_radius,
                    max_speed,
                    min_speed,
                    turn_speed,
                    separation_weight,
                    alignment_weight,
                    cohesion_weight,
                    center_pull_strength,
                    bounds,
                };
                match r {
                    Ok(q) => q == p && p.wf(),
                    Err(e) => p.verdict() == Err::<(), ConfigError>(e),
                }
            }),
    {
        let p = FlockParameters {
            perception_radius,
            avoidance_radius,
            max_speed,
            min_speed,
            turn_speed,
            separation_weight,
            alignment_weight,
            cohesion_weight,
            center_pull_strength,
            bounds,
        };
        match p.validate() {
            Ok(()) => Ok(p),
            Err(e) => Err(e),
        }
    }

    /// Checks the parameters.
    pub fn validate(&self) -> (r: Result<(), ConfigError>)
        ensures
            r == self.verdict(),
            r.is_ok() == self.wf(),
    {
        let corners_fit = match self.bounds {
            Some(b) => b.min.fits(LIMIT) && b.max.fits(LIMIT),
            None => true,
        };
        if !(0 <= self.perception_radius && self.perception_radius <= LIMIT
            && 0 <= self.avoidance_radius && self.avoidance_radius <= LIMIT
            && 0 <= self.max_speed && self.max_speed <= RATE_LIMIT
            && 0 <= self.min_speed && self.min_speed <= RATE_LIMIT
            && rate_fits(self.turn_speed) && rate_fits(self.separation_weight)
            && rate_fits(self.alignment_weight) && rate_fits(self.cohesion_weight)
            && rate_fits(self.center_pull_strength) && corners_fit) {
            return Err(ConfigError::OutOfRange);
        }
        if self.avoidance_radius > self.perception_radius {
            return Err(ConfigError::RadiusOrder);
        }
        if self.min_speed > self.max_speed {
            return Err(ConfigError::SpeedOrder);
        }
        if self.separation_weight < 0 || self.alignment_weight < 0 || self.cohesion_weight < 0
            || self.center_pull_strength < 0 {
            return Err(ConfigError::NegativeWeight);
        }
        let ordered = match self.bounds {
            Some(b) => b.min.x <= b.max.x && b.min.y <= b.max.y && b.min.z <= b.max.z,
            None => true,
        };
        if !ordered {
            return Err(ConfigError::BoundsOrder);
        }
        Ok(())
    }
}

/// What a member gathers from the others: the sums over the neighbors that it
/// perceives.
pub ghost struct Tally {
    /// The sum of the positions of the perceived members of its own kind.
    pub cohesion: Int3,
    /// The sum of their velocities.
    pub alignment: Int3,
    /// The sum of the pushes away from every perceived member that is too close.
    pub separation: Int3,
    /// How many perceived members are of its own kind.
    pub count: int,
}

impl Tally {
    /// Nothing gathered.
    pub open spec fn empty() -> Tally {
        Tally { cohesion: Int3::zero(), alignment: Int3::zero(), separation: Int3::zero(), count: 0 }
    }

    /// Two tallies together.
    pub open spec fn plus(self, o: Tally) -> Tally {
        Tally {
            cohesion: self.cohesion.plus(o.cohesion),
            alignment: self.alignment.plus(o.alignment),
            separation: self.separation.plus(o.separation),
            count: self.count + o.count,
        }
    }
}

/// `me` counts `other` as one of its own kind: it has no species, or the same.
pub open spec fn same_kind(me: FlockMember, other: FlockMember) -> bool {
    match me.species_id {
        None => true,
        Some(s) => other.species_id == Some(s),
    }
}

/// How far `me` sees `other`: the perception radius for its own kind, half of
/// it for the rest.
pub open spec fn reach(me: FlockMember, other: FlockMember, p: FlockParameters) -> int {
    if same_kind(me, other) {
        p.perception_radius as int
    } else {
        trunc_div(p.perception_radius as int, 2)
    }
}

/// The squared distance between two members.
pub open spec fn gap_sq(me: FlockMember, other: FlockMember) -> int {
    me.position@.minus(other.position@).len_sq()
}

/// `me` perceives `other`: they are apart, and closer than `me` sees.
/// A member at the very same place, `me` itself included, is not perceived.
pub open spec fn perceives(me: FlockMember, other: FlockMember, p: FlockParameters) -> bool {
    let r = reach(me, other, p);
    0 < gap_sq(me, other) < r * r
}

/// The push on `me` away from `other`: the unit vector from `other` to `me`,
/// divided by their distance.
pub open spec fn push_away(me: FlockMember, other: FlockMember) -> Int3 {
    me.position@.minus(other.position@).ratio(ONE * ONE, gap_sq(me, other))
}

/// What `other` adds to the tally of `me`.
pub open spec fn influence(me: FlockMember, other: FlockMember, p: FlockParameters) -> Tally {
    if !perceives(me, other, p) {
        Tally::empty()
    } else {
        let own = same_kind(me, other);
        Tally {
            cohesion: if own { other.position@ } else { Int3::zero() },
            alignment: if own { other.velocity@ } else { Int3::zero() },
            separation: if gap_sq(me, other) < p.avoidance_radius * p.avoidance_radius {
                push_away(me, other)
            } else {
                Int3::zero()
            },
            count: if own { 1 } else { 0 },
        }
    }
}

/// The tally of `me` over the first `n` members of the flock.
pub open spec fn tally(flock: Seq<FlockMember>, me: FlockMember, p: FlockParameters, n: int) -> Tally
    decreases n,
{
    if n <= 0 {
        Tally::empty()
    } else {
        tally(flock, me, p, n - 1).plus(influence(me, flock[n - 1], p))
    }
}

/// The point that the flock is pulled toward: the middle of the box, or the
/// origin where there is no box.
pub open spec fn home(p: FlockParameters) -> Int3 {
    match p.bounds {
        Some(b) => b.center(),
        None => Int3::zero(),
    }
}

/// The push of one unit back into the range `[lo, hi]` along one axis.
pub open spec fn axis_push(x: int, lo: int, hi: int) -> int {
    if x < lo { ONE as int } else if x > hi { -ONE } else { 0 }
}

/// The push back into the box on every axis along which `at` has left it.
pub open spec fn bounds_push(at: Int3, p: FlockParameters) -> Int3 {
    match p.bounds {
        Some(b) => Int3 {
            x: axis_push(at.x, b.min.x as int, b.max.x as int),
            y: axis_push(at.y, b.min.y as int, b.max.y as int),
            z: axis_push(at.z, b.min.z as int, b.max.z as int),
        },
        None => Int3::zero(),
    }
}

/// The velocity that `me` would like to have, given what it gathered: its own
/// velocity plus the weighted separation, alignment and cohesion, the pull
/// toward home and the push back into the box.
pub open spec fn target_velocity(me: FlockMember, t: Tally, p: FlockParameters) -> Int3 {
    let cohesion = if t.count > 0 {
        t.cohesion.ratio(1, t.count).minus(me.position@)
    } else {
        Int3::zero()
    };
    let alignment = if t.count > 0 { t.alignment.ratio(1, t.count) } else { Int3::zero() };
    let pull = home(p).minus(me.position@).scaled(p.center_pull_strength as int);
    me.velocity@.plus(t.separation.scaled(p.separation_weight as int)).plus(
        alignment.scaled(p.alignment_weight as int),
    ).plus(cohesion.scaled(p.cohesion_weight as int)).plus(pull).plus(
        bounds_push(me.position@, p),
    )
}

/// The fraction of the way toward the desired velocity that one step of `dt`
/// seconds covers: `dt` times the turn speed, kept within `[0, 1]`.
pub open spec fn turn_fraction(p: FlockParameters, dt: int) -> int {
    let f = product(dt, p.turn_speed as int);
    if f < 0 { 0 } else if f > ONE { ONE as int } else { f }
}

/// The velocity of `me` after turning toward `target` for `dt` seconds, before
/// its speed is clamped. A zero target has no direction: the member then keeps
/// the velocity it has.
pub open spec fn turned(me: FlockMember, target: Int3, p: FlockParameters, dt: int) -> Int3 {
    let aim = target.shrunk();
    if aim.len_sq() == 0 {
        me.velocity@
    } else {
        me.velocity@.lerp(aim.with_length(p.max_speed as int), turn_fraction(p, dt))
    }
}

/// The velocity `v` brought to the minimum speed if slower and to the maximum
/// speed if faster. The zero velocity has no direction and stays zero.
pub open spec fn clamp_speed(v: Int3, p: FlockParameters) -> Int3 {
    let n = v.len_sq();
    if n < p.min_speed * p.min_speed {
        v.with_length(p.min_speed as int)
    } else if n > p.max_speed * p.max_speed {
        v.with_length(p.max_speed as int)
    } else {
        v
    }
}

/// The velocity of member `i` before its speed is clamped.
pub open spec fn unclamped_velocity(flock: Seq<FlockMember>, i: int, p: FlockParameters, dt: int) -> Int3 {
    let me = flock[i];
    turned(me, target_velocity(me, tally(flock, me, p, flock.len() as int), p), p, dt)
}

/// The velocity of member `i` after one step.
pub open spec fn next_velocity(flock: Seq<FlockMember>, i: int, p: FlockParameters, dt: int) -> Int3 {
    clamp_speed(unclamped_velocity(flock, i, p, dt), p)
}

/// The position of member `i` after one step: where it was, moved by its new
/// velocity for `dt` seconds.
pub open spec fn next_position(flock: Seq<FlockMember>, i: int, p: FlockParameters, dt: int) -> Int3 {
    flock[i].position@.plus(next_velocity(flock, i, p, dt).scaled(dt))
}

/// Every member of the flock is well formed.
pub open spec fn flock_wf(flock: Seq<FlockMember>) -> bool {
    forall|i: int| 0 <= i < flock.len() ==> (#[trigger] flock[i]).wf()
}

/// One squared: the scale of a squared length.
const ONE_SQ: i128 = 1_000_000_000_000;

/// What a member has gathered so far, as the program holds it.
struct Survey {
    cohesion: Wide3,
    alignment: Wide3,
    separation: Wide3,
    count: u32,
}

impl View for Survey {
    type V = Tally;

    closed spec fn view(&self) -> Tally {
        Tally {
            cohesion: self.cohesion@,
            alignment: self.alignment@,
            separation: self.separation@,
            count: self.count as int,
        }
    }
}

impl Survey {
    /// The sums of at most `n` influences.
    spec fn covers(&self, n: int) -> bool {
        &&& self.cohesion@.within(n * LIMIT)
        &&& self.alignment@.within(n * RATE_LIMIT)
        &&& self.separation@.within(n * ONE_SQ)
        &&& 0 <= self.count <= n
    }
}

/// A component `a` of a vector of squared length `n`, times `k` over `n`, is
/// at most `k` in magnitude.
proof fn lemma_push_bound(a: int, k: int, n: int)
    requires
        n > 0,
        a * a <= n,
        k >= 0,
    ensures
        -k <= trunc_div(a * k, n) <= k,
{
    let m = if a >= 0 { a } else { -a };
    assert(m * m == a * a) by (nonlinear_arith)
        requires
            m == a || m == -a,
    ;
    assert(m <= n) by (nonlinear_arith)
        requires
            m >= 0,
            m * m <= n,
    {
        if m >= 1 {
            assert(m * m >= m);
        }
    }
    assert(0 <= (m * k) / n <= k) by (nonlinear_arith)
        requires
            0 <= m <= n,
            k >= 0,
            n > 0,
    {
        assert(m * k <= n * k);
        assert(m * k >= 0);
    }
    assert(a * k == m * k || -(a * k) == m * k) by (nonlinear_arith)
        requires
            m == a || m == -a,
    ;
    assert(a >= 0 ==> a * k >= 0) by (nonlinear_arith)
        requires
            k >= 0,
    ;
    assert(a < 0 ==> a * k <= 0) by (nonlinear_arith)
        requires
            k >= 0,
    ;
}

/// Tells whether `me` counts `other` as one of its own kind.
fn is_same_kind(me: &FlockMember, other: &FlockMember) -> (b: bool)
    ensures
        b == same_kind(*me, *other),
{
    match me.species_id {
        None => true,
        Some(s) => match other.species_id {
            Some(t) => s == t,
            None => false,
        },
    }
}

/// The square of a distance.
fn square(r: Fixed) -> (n: u128)
    requires
        0 <= r <= LIMIT,
    ensures
        n == r * r,
{
    proof {
        lemma_product_bound(r as int, r as int, LIMIT as int, LIMIT as int);
        assert(r * r >= 0) by (nonlinear_arith)
            requires
                r >= 0,
        ;
    }
    (r as u128) * (r as u128)
}

/// What `other` adds to the tally of `me`.
fn glance(me: &FlockMember, other: &FlockMember, p: &FlockParameters) -> (s: Survey)
    requires
        me.wf(),
        other.wf(),
        p.wf(),
    ensures
        s@ == influence(*me, *other, *p),
        s.covers(1),
{
    let nothing = Survey {
        cohesion: Wide3::zero(),
        alignment: Wide3::zero(),
        separation: Wide3::zero(),
        count: 0,
    };
    let away = Wide3::from_vec(me.position).minus(Wide3::from_vec(other.position));
    let gap: u128 = away.len_sq();
    proof {
        lemma_product_bound(away.x as int, away.x as int, 2 * LIMIT, 2 * LIMIT);
        lemma_product_bound(away.y as int, away.y as int, 2 * LIMIT, 2 * LIMIT);
        lemma_product_bound(away.z as int, away.z as int, 2 * LIMIT, 2 * LIMIT);
    }
    let own = is_same_kind(me, other);
    let r: Fixed = if own { p.perception_radius } else { p.perception_radius / 2 };
    if gap == 0 || gap >= square(r) {
        return nothing;
    }
    let separation = if gap < square(p.avoidance_radius) {
        proof {
            assert(ONE * ONE == ONE_SQ);
            lemma_ratio_within(away@, ONE_SQ as int, gap as int, 2 * LIMIT, ONE_SQ as int);
            assert(away.x * away.x >= 0 && away.y * away.y >= 0 && away.z * away.z >= 0)
                by (nonlinear_arith);
            lemma_push_bound(away.x as int, ONE_SQ as int, gap as int);
            lemma_push_bound(away.y as int, ONE_SQ as int, gap as int);
            lemma_push_bound(away.z as int, ONE_SQ as int, gap as int);
        }
        away.ratio(ONE_SQ, gap as i128)
    } else {
        Wide3::zero()
    };
    Survey {
        cohesion: if own { Wide3::from_vec(other.position) } else { Wide3::zero() },
        alignment: if own { Wide3::from_vec(other.velocity) } else { Wide3::zero() },
        separation,
        count: if own { 1 } else { 0 },
    }
}

/// The tally of `me` over the whole flock.
fn survey(flock: &Vec<FlockMember>, me: &FlockMember, p: &FlockParameters) -> (s: Survey)
    requires
        flock_wf(flock@),
        flock.len() <= MAX_FLOCK,
        me.wf(),
        p.wf(),
    ensures
        s@ == tally(flock@, *me, *p, flock.len() as int),
        s.covers(flock.len() as int),
{
    let mut s = Survey {
        cohesion: Wide3::zero(),
        alignment: Wide3::zero(),
        separation: Wide3::zero(),
        count: 0,
    };
    let mut j: usize = 0;
    while j < flock.len()
        invariant
            0 <= j <= flock.len() <= MAX_FLOCK,
            flock_wf(flock@),
            me.wf(),
            p.wf(),
            s@ == tally(flock@, *me, *p, j as int),
            s.covers(j as int),
        decreases flock.len() - j,
    {
        let g = glance(me, &flock[j], p);
        s = Survey {
            cohesion: s.cohesion.plus(g.cohesion),
            alignment: s.alignment.plus(g.alignment),
            separation: s.separation.plus(g.separation),
            count: s.count + g.count,
        };
        j = j + 1;
    }
    s
}

/// The point that the flock is pulled toward.
fn home_of(p: &FlockParameters) -> (h: Wide3)
    requires
        p.wf(),
    ensures
        h@ == home(*p),
        h@.within(LIMIT as int),
{
    match p.bounds {
        Some(b) => {
            let sum = Wide3::from_vec(b.min).plus(Wide3::from_vec(b.max));
            proof {
                lemma_trunc_div_bound(sum.x as int, 2);
                lemma_trunc_div_bound(sum.y as int, 2);
                lemma_trunc_div_bound(sum.z as int, 2);
            }
            sum.ratio(1, 2)
        },
        None => Wide3::zero(),
    }
}

fn push_on_axis(x: Fixed, lo: Fixed, hi: Fixed) -> (f: i128)
    ensures
        f == axis_push(x as int, lo as int, hi as int),
{
    if x < lo {
        ONE as i128
    } else if x > hi {
        -(ONE as i128)
    } else {
        0
    }
}

/// The push back into the box.
fn push_of(at: &Vec3, p: &FlockParameters) -> (f: Wide3)
    ensures
        f@ == bounds_push(at@, *p),
        f@.within(ONE as int),
{
    match p.bounds {
        Some(b) => Wide3 {
            x: push_on_axis(at.x, b.min.x, b.max.x),
            y: push_on_axis(at.y, b.min.y, b.max.y),
            z: push_on_axis(at.z, b.min.z, b.max.z),
        },
        None => Wide3::zero(),
    }
}

/// A vector within `b` times a fixed-point number within [`RATE_LIMIT`].
fn weigh(v: Wide3, k: Fixed, Ghost(b): Ghost<int>) -> (w: Wide3)
    requires
        v@.within(b),
        0 <= b <= 0x200_0000_0000_0000_0000,
        in_rate(k as int),
    ensures
        w@ == v@.scaled(k as int),
        w@.within(b * RATE_LIMIT),
{
    proof {
        lemma_ratio_within(v@, k as int, ONE as int, b, RATE_LIMIT as int);
        assert(b * RATE_LIMIT <= 0x200_0000_0000_0000_0000 * 0x8000_0000) by (nonlinear_arith)
            requires
                0 <= b <= 0x200_0000_0000_0000_0000,
                RATE_LIMIT == 0x8000_0000,
        ;
    }
    v.ratio(k as i128, ONE as i128)
}

/// The velocity that `me` would like to have.
fn target_of(me: &FlockMember, t: &Survey, p: &FlockParameters, Ghost(n): Ghost<int>) -> (w: Wide3)
    requires
        me.wf(),
        p.wf(),
        t.covers(n),
        n <= MAX_FLOCK,
    ensures
        w@ == target_velocity(*me, t@, *p),
{
    let ghost big: int = 0x200_0000_0000_0000_0000;
    let at = Wide3::from_vec(me.position);
    let (cohesion, alignment) = if t.count > 0 {
        proof {
            lemma_ratio_within(t.cohesion@, 1, t.count as int, n * LIMIT, 1);
            lemma_ratio_within(t.alignment@, 1, t.count as int, n * RATE_LIMIT, 1);
        }
        (t.cohesion.ratio(1, t.count as i128).minus(at), t.alignment.ratio(1, t.count as i128))
    } else {
        (Wide3::zero(), Wide3::zero())
    };
    let pull = weigh(home_of(p).minus(at), p.center_pull_strength, Ghost(big));
    let separation = weigh(t.separation, p.separation_weight, Ghost(big));
    let alignment = weigh(alignment, p.alignment_weight, Ghost(big));
    let cohesion = weigh(cohesion, p.cohesion_weight, Ghost(big));
    Wide3::from_vec(me.velocity).plus(separation).plus(alignment).plus(cohesion).plus(pull).plus(
        push_of(&me.position, p),
    )
}

/// The fraction of the way toward the desired velocity that one step covers.
fn fraction_of(p: &FlockParameters, dt: Fixed) -> (f: Fixed)
    requires
        p.wf(),
        in_range(dt as int),
    ensures
        f == turn_fraction(*p, dt as int),
        0 <= f <= ONE,
{
    proof {
        lemma_product_range(dt as int, p.turn_speed as int, LIMIT as int, RATE_LIMIT as int);
    }
    let f = times(dt, p.turn_speed);
    if f < 0 {
        0
    } else if f > ONE {
        ONE
    } else {
        f
    }
}

/// The velocity `v` with its speed brought into the range of `p`.
fn clamp_of(v: &Vec3, p: &FlockParameters) -> (r: Vec3)
    requires
        v.is_rate(),
        p.wf(),
    ensures
        r@ == clamp_speed(v@, *p),
        r.is_rate(),
{
    let n: u128 = v.len_sq();
    proof {
        lemma_product_bound(p.min_speed as int, p.min_speed as int, RATE_LIMIT as int, RATE_LIMIT as int);
        lemma_product_bound(p.max_speed as int, p.max_speed as int, RATE_LIMIT as int, RATE_LIMIT as int);
    }
    if n < square(p.min_speed) {
        v.with_length(p.min_speed)
    } else if n > square(p.max_speed) {
        v.with_length(p.max_speed)
    } else {
        *v
    }
}

/// The next position and velocity of member `i`.
pub fn advance(flock: &Vec<FlockMember>, i: usize, p: &FlockParameters, dt: Fixed) -> (r: (Vec3, Vec3))
    requires
        flock_wf(flock@),
        flock.len() <= MAX_FLOCK,
        i < flock.len(),
        p.wf(),
        in_range(dt as int),
    ensures
        r.0@ == next_position(flock@, i as int, *p, dt as int),
        r.1@ == next_velocity(flock@, i as int, *p, dt as int),
{
    let me = &flock[i];
    let t = survey(flock, me, p);
    let aim = target_of(me, &t, p, Ghost(flock.len() as int)).shrink();
    let loose = if aim.len_sq() == 0 {
        me.velocity
    } else {
        me.velocity.lerp(&aim.with_length(p.max_speed), fraction_of(p, dt))
    };
    let velocity = clamp_of(&loose, p);
    proof {
        lemma_product_bound(velocity.x as int, dt as int, RATE_LIMIT as int, LIMIT as int);
        lemma_product_bound(velocity.y as int, dt as int, RATE_LIMIT as int, LIMIT as int);
        lemma_product_bound(velocity.z as int, dt as int, RATE_LIMIT as int, LIMIT as int);
        lemma_trunc_div_bound(velocity.x * dt, ONE as int);
        lemma_trunc_div_bound(velocity.y * dt, ONE as int);
        lemma_trunc_div_bound(velocity.z * dt, ONE as int);
    }
    let moved = Wide3::from_vec(velocity).ratio(dt as i128, ONE as i128);
    let position = Wide3::from_vec(me.position).plus(moved).narrow();
    (position, velocity)
}

/// The speed after clamping is never above the maximum speed, and falls short
/// of the minimum speed by less than two millionths, unless the velocity was
/// zero, which has no direction to be stretched along.
pub proof fn lemma_clamp_speed_bounds(v: Int3, p: FlockParameters)
    requires
        p.wf(),
    ensures
        clamp_speed(v, p).len_sq() <= p.max_speed * p.max_speed,
        v.len_sq() > 0 && p.min_speed >= 2 ==> clamp_speed(v, p).len_sq() >= (p.min_speed - 2) * (
        p.min_speed - 2),
        v.len_sq() == 0 ==> clamp_speed(v, p) == Int3::zero(),
{
    let n = v.len_sq();
    let lo = p.min_speed as int;
    let hi = p.max_speed as int;
    assert(n >= 0) by (nonlinear_arith)
        requires
            n == v.x * v.x + v.y * v.y + v.z * v.z,
    ;
    assert(lo * lo <= hi * hi) by (nonlinear_arith)
        requires
            0 <= lo <= hi,
    ;
    assert(lo >= 2 ==> (lo - 2) * (lo - 2) <= (hi - 2) * (hi - 2) && (lo - 2) * (lo - 2) <= lo * lo)
        by (nonlinear_arith)
        requires
            0 <= lo <= hi,
    ;
    if n > 0 {
        lemma_with_length_bounds(v, lo);
        lemma_with_length_bounds(v, hi);
    } else {
        assert(0 <= hi * hi) by (nonlinear_arith);
        assert(v.x == 0 && v.y == 0 && v.z == 0) by (nonlinear_arith)
            requires
                v.x * v.x + v.y * v.y + v.z * v.z == 0,
        ;
    }
}

/// The turn limiter: one step takes a member's velocity no further than the
/// desired velocity, component by component; not at all where the fraction of
/// the turn is zero; and a member at full speed, in a step that covers at most
/// half of the turn, is never turned by more than a right angle, even where
/// its target points straight back.
pub proof fn lemma_turn_limited(me: FlockMember, target: Int3, p: FlockParameters, dt: int)
    requires
        p.wf(),
    ensures
        ({
            let v = me.velocity@;
            let d = target.shrunk().with_length(p.max_speed as int);
            let r = turned(me, target, p, dt);
            &&& target.shrunk().len_sq() > 0 ==> {
                &&& (v.x <= d.x ==> v.x <= r.x <= d.x) && (d.x <= v.x ==> d.x <= r.x <= v.x)
                &&& (v.y <= d.y ==> v.y <= r.y <= d.y) && (d.y <= v.y ==> d.y <= r.y <= v.y)
                &&& (v.z <= d.z ==> v.z <= r.z <= d.z) && (d.z <= v.z ==> d.z <= r.z <= v.z)
            }
            &&& turn_fraction(p, dt) == 0 ==> r == v
            &&& 2 * turn_fraction(p, dt) <= ONE && v.len_sq() >= p.max_speed * p.max_speed ==> r.dot(
                v,
            ) >= 0
        }),
{
    let v = me.velocity@;
    let aim = target.shrunk();
    let f = turn_fraction(p, dt);
    assert(v.len_sq() >= 0) by (nonlinear_arith)
        requires
            v.len_sq() == v.x * v.x + v.y * v.y + v.z * v.z,
    ;
    if aim.len_sq() != 0 {
        assert(aim.len_sq() >= 0) by (nonlinear_arith)
            requires
                aim.len_sq() == aim.x * aim.x + aim.y * aim.y + aim.z * aim.z,
        ;
        let d = aim.with_length(p.max_speed as int);
        lemma_with_length_bounds(aim, p.max_speed as int);
        lemma_lerp_between(v, d, f);
        if 2 * f <= ONE && v.len_sq() >= p.max_speed * p.max_speed {
            lemma_lerp_keeps_heading(v, d, f);
        }
    }
}

/// A member alone in its flock gathers nothing: its target is its own velocity
/// with the pull toward home and the push back into the box. Without a box
/// the pull is the position times the strength of the pull, toward the origin.
pub proof fn lemma_lone_member(me: FlockMember, p: FlockParameters)
    ensures
        tally(seq![me], me, p, 1) == Tally::empty(),
        target_velocity(me, tally(seq![me], me, p, 1), p) == me.velocity@.plus(
            home(p).minus(me.position@).scaled(p.center_pull_strength as int),
        ).plus(bounds_push(me.position@, p)),
        p.bounds is None ==> target_velocity(me, tally(seq![me], me, p, 1), p) == me.velocity@.minus(
            me.position@.scaled(p.center_pull_strength as int),
        ),
{
    let flock = seq![me];
    reveal_with_fuel(tally, 2);
    assert(flock[0] == me);
    assert(gap_sq(me, me) == 0) by (nonlinear_arith)
        requires
            gap_sq(me, me) == (me.position.x - me.position.x) * (me.position.x - me.position.x) + (
            me.position.y - me.position.y) * (me.position.y - me.position.y) + (me.position.z
                - me.position.z) * (me.position.z - me.position.z),
    ;
    assert(influence(me, me, p) == Tally::empty());
    let t = tally(flock, me, p, 1);
    assert(t == Tally::empty());
    lemma_product_zero(p.separation_weight as int);
    lemma_product_zero(p.alignment_weight as int);
    lemma_product_zero(p.cohesion_weight as int);
    let k = p.center_pull_strength as int;
    lemma_trunc_div_bound(me.position.x * k, ONE as int);
    lemma_trunc_div_bound(me.position.y * k, ONE as int);
    lemma_trunc_div_bound(me.position.z * k, ONE as int);
    assert((-me.position.x) * k == -(me.position.x * k) && (-me.position.y) * k == -(me.position.y
        * k) && (-me.position.z) * k == -(me.position.z * k)) by (nonlinear_arith);
}

/// Two members alone and at rest, closer than the avoidance radius and no
/// more than one unit apart, with nothing pulling them home and a separation
/// weight that is no less than the cohesion weight: neither moves toward the
/// other, and whichever moves at all moves away.
pub proof fn lemma_pair_at_rest_steers_apart(
    flock: Seq<FlockMember>,
    i: int,
    p: FlockParameters,
    dt: int,
)
    requires
        flock.len() == 2,
        0 <= i < 2,
        p.wf(),
        flock[0].velocity@ == Int3::zero(),
        flock[1].velocity@ == Int3::zero(),
        perceives(flock[i], flock[1 - i], p),
        gap_sq(flock[i], flock[1 - i]) < p.avoidance_radius * p.avoidance_radius,
        gap_sq(flock[i], flock[1 - i]) <= ONE * ONE,
        p.separation_weight >= p.cohesion_weight,
        p.center_pull_strength == 0,
        p.bounds is None,
    ensures
        ({
            let away = flock[i].position@.minus(flock[1 - i].position@);
            let v = next_velocity(flock, i, p, dt);
            &&& v.along(away)
            &&& v.dot(away) >= 0
            &&& v != Int3::zero() ==> v.dot(away) > 0
        }),
{
    let me = flock[i];
    let other = flock[1 - i];
    let away = me.position@.minus(other.position@);
    let gap = gap_sq(me, other);
    reveal_with_fuel(tally, 3);
    assert(gap_sq(me, me) == 0) by (nonlinear_arith)
        requires
            gap_sq(me, me) == (me.position.x - me.position.x) * (me.position.x - me.position.x) + (
            me.position.y - me.position.y) * (me.position.y - me.position.y) + (me.position.z
                - me.position.z) * (me.position.z - me.position.z),
    ;
    assert(influence(me, me, p) == Tally::empty());
    let t = tally(flock, me, p, 2);
    assert(t == Tally::empty().plus(influence(me, flock[0], p)).plus(influence(me, flock[1], p)));
    let g = influence(me, other, p);
    assert(t.separation == g.separation && t.cohesion == g.cohesion && t.alignment == g.alignment
        && t.count == g.count);
    let own = same_kind(me, other);
    let target = target_velocity(me, t, p);
    let ws = p.separation_weight as int;
    let wc = p.cohesion_weight as int;
    assert(target.along(away)) by {
        lemma_pushed_apart(away.x, gap, ws, wc);
        lemma_pushed_apart(away.y, gap, ws, wc);
        lemma_pushed_apart(away.z, gap, ws, wc);
        lemma_pushed_apart_alone(away.x, gap, ws);
        lemma_pushed_apart_alone(away.y, gap, ws);
        lemma_pushed_apart_alone(away.z, gap, ws);
        lemma_product_zero(ws);
        lemma_product_zero(wc);
        lemma_product_zero(p.alignment_weight as int);
        lemma_product_zero(0 - me.position.x);
        lemma_product_zero(0 - me.position.y);
        lemma_product_zero(0 - me.position.z);
    }
    let aim = target.shrunk();
    lemma_shrunk_along(target);
    let loose = turned(me, target, p, dt);
    assert(loose.along(aim)) by {
        if aim.len_sq() != 0 {
            let d = aim.with_length(p.max_speed as int);
            lemma_with_length_along(aim, p.max_speed as int);
            let f = turn_fraction(p, dt);
            lemma_fraction(d.x, f);
            lemma_fraction(d.y, f);
            lemma_fraction(d.z, f);
        }
    }
    let v = clamp_speed(loose, p);
    lemma_with_length_along(loose, p.min_speed as int);
    lemma_with_length_along(loose, p.max_speed as int);
    assert(v.along(away));
    lemma_along_dot(v, away);
}

/// One component of [`lemma_pair_at_rest_steers_apart`], between members of
/// one kind: the push away, weighted, is no weaker than the pull together.
proof fn lemma_pushed_apart(a: int, gap: int, ws: int, wc: int)
    requires
        0 < gap <= ONE * ONE,
        0 <= wc <= ws,
    ensures
        a >= 0 ==> product(trunc_div(a * (ONE * ONE), gap), ws) + product(-a, wc) >= 0,
        a <= 0 ==> product(trunc_div(a * (ONE * ONE), gap), ws) + product(-a, wc) <= 0,
{
    let k = ONE * ONE;
    let push = trunc_div(a * k, gap);
    let m = abs(a);
    assert(abs(push) >= m && (a >= 0 ==> push >= 0) && (a <= 0 ==> push <= 0)) by (nonlinear_arith)
        requires
            0 < gap <= k,
            m == abs(a),
            push == trunc_div(a * k, gap),
    {
        assert(m * k >= m * gap);
        assert((m * k) / gap >= m);
    }
    assert(abs(push) * ws >= m * wc) by (nonlinear_arith)
        requires
            abs(push) >= m >= 0,
            0 <= wc <= ws,
    ;
    assert((a >= 0 ==> product(push, ws) + product(-a, wc) >= 0) && (a <= 0 ==> product(push, ws)
        + product(-a, wc) <= 0)) by (nonlinear_arith)
        requires
            abs(push) * ws >= m * wc,
            m == abs(a),
            (a >= 0 ==> push >= 0) && (a <= 0 ==> push <= 0),
            0 <= wc <= ws,
    ;
}

/// One component of [`lemma_pair_at_rest_steers_apart`], between members of
/// different kinds: the push away keeps the sign of the way apart.
proof fn lemma_pushed_apart_alone(a: int, gap: int, ws: int)
    by (nonlinear_arith)
    requires
        0 < gap,
        0 <= ws,
    ensures
        a >= 0 ==> product(trunc_div(a * (ONE * ONE), gap), ws) >= 0,
        a <= 0 ==> product(trunc_div(a * (ONE * ONE), gap), ws) <= 0,
{
}

/// The point that a member at `position` with the given velocity faces: one
/// velocity ahead of it. A member at rest faces nowhere.
pub fn look_target(position: &Vec3, velocity: &Vec3) -> (target: Option<Vec3>)
    requires
        position.is_position(),
        velocity.is_rate(),
    ensures
        target.is_some() == (velocity@ != Int3::zero()),
        target.is_some() ==> target.unwrap()@ == position@.plus(velocity@),
{
    if velocity.x == 0 && velocity.y == 0 && velocity.z == 0 {
        None
    } else {
        Some(
            Vec3 {
                x: position.x + velocity.x,
                y: position.y + velocity.y,
                z: position.z + velocity.z,
            },
        )
    }
}

/// Advances the whole flock by `dt` seconds: the next position and velocity of
/// every member, in the order of `flock`, each computed from the flock as it
/// stands.
pub fn step(flock: &Vec<FlockMember>, p: &FlockParameters, dt: Fixed) -> (out: Vec<(Vec3, Vec3)>)
    requires
        flock_wf(flock@),
        flock.len() <= MAX_FLOCK,
        p.wf(),
        in_range(dt as int),
    ensures
        out.len() == flock.len(),
        forall|i: int|
            0 <= i < flock.len() ==> (#[trigger] out[i]).0@ == next_position(
                flock@,
                i,
                *p,
                dt as int,
            ) && out[i].1@ == next_velocity(flock@, i, *p, dt as int),
        forall|i: int|
            0 <= i < flock.len() ==> (#[trigger] out[i]).1@.len_sq() <= p.max_speed * p.max_speed,
        forall|i: int|
            0 <= i < flock.len() && p.min_speed >= 2 && unclamped_velocity(
                flock@,
                i,
                *p,
                dt as int,
            ).len_sq() > 0 ==> (#[trigger] out[i]).1@.len_sq() >= (p.min_speed - 2) * (p.min_speed
                - 2),
{
    let mut out: Vec<(Vec3, Vec3)> = Vec::new();
    let mut i: usize = 0;
    while i < flock.len()
        invariant
            0 <= i <= flock.len() <= MAX_FLOCK,
            flock_wf(flock@),
            p.wf(),
            in_range(dt as int),
            out.len() == i,
            forall|k: int|
                0 <= k < i ==> (#[trigger] out[k]).0@ == next_position(flock@, k, *p, dt as int)
                    && out[k].1@ == next_velocity(flock@, k, *p, dt as int),
        decreases flock.len() - i,
    {
        let r = advance(flock, i, p, dt);
        out.push(r);
        i = i + 1;
    }
    proof {
        assert forall|k: int| 0 <= k < flock.len() implies (#[trigger] out[k]).1@.len_sq()
            <= p.max_speed * p.max_speed && (p.min_speed >= 2 && unclamped_velocity(
            flock@,
            k,
            *p,
            dt as int,
        ).len_sq() > 0 ==> out[k].1@.len_sq() >= (p.min_speed - 2) * (p.min_speed - 2)) by {
            lemma_clamp_speed_bounds(unclamped_velocity(flock@, k, *p, dt as int), *p);
        }
    }
    out
}

fn rate_fits(x: Fixed) -> (b: bool)
    ensures
        b == in_rate(x as int),
{
    -RATE_LIMIT <= x && x <= RATE_LIMIT
}

} // verus!
