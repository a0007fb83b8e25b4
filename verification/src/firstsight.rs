//! The first-person player: where the keys move it and where the mouse turns
//! its camera.

use vstd::prelude::*;
use crate::fixed::{Fixed, ONE, abs, in_range, product, times, lemma_product_range};
use crate::vector::{Int3, Vec3, lemma_with_length_bounds};

verus! {

/// The height of the player's eyes above its feet, unless told otherwise.
pub const DEFAULT_PLAYER_HEIGHT: Fixed = 1_000_000;

/// The radius of the player's body, unless told otherwise.
pub const DEFAULT_PLAYER_RADIUS: Fixed = 500_000;

/// Radians of turn per unit of mouse motion.
pub const LOOK_SENSITIVITY: Fixed = 2_000;

/// How high the player jumps.
pub const JUMP_HEIGHT: Fixed = 4_000_000;

/// The walking speed.
pub const SPEED: Fixed = 10_000_000;

/// How many times faster than walking the player sprints.
pub const SPRINT_MULTIPLIER: Fixed = 1_500_000;

/// How far up or down the camera can look, in radians.
pub const PITCH_LIMIT: Fixed = 1_500_000;

/// How far the body floats above the height of the camera.
pub const FLOAT_MARGIN: Fixed = 500_000;

/// By how much the ground sensor is narrower than the body.
pub const SENSOR_INSET: Fixed = 10_000;

/// The widest yaw that [`PlayerCamera::look`] turns from: 2^62 millionths of
/// a radian to either side.
pub const YAW_LIMIT: Fixed = 0x4000_0000_0000_0000;

/// Where the camera of the player looks.
#[derive(Clone, Copy, Debug, PartialEq, Eq, Structural)]
pub struct PlayerCamera {
    /// The turn about the vertical axis, summed up over all the turns made.
    pub yaw: Fixed,
    /// The turn up or down.
    pub pitch: Fixed,
}

/// The yaw after the mouse moved by `dx`: moving the mouse to the right
/// lowers it.
pub open spec fn turned_yaw(yaw: int, dx: int) -> int {
    yaw - product(dx, LOOK_SENSITIVITY as int)
}

/// The yaw after the mouse moved by `dx` in each of `n` turns.
pub open spec fn yaw_after(yaw: int, dx: int, n: nat) -> int
    decreases n,
{
    if n == 0 {
        yaw
    } else {
        turned_yaw(yaw_after(yaw, dx, (n - 1) as nat), dx)
    }
}

/// The pitch after the mouse moved by `dy`: never beyond [`PITCH_LIMIT`].
pub open spec fn turned_pitch(pitch: int, dy: int) -> int {
    let p = pitch - product(dy, LOOK_SENSITIVITY as int);
    if p < -PITCH_LIMIT { -PITCH_LIMIT } else if p > PITCH_LIMIT { PITCH_LIMIT as int } else { p }
}

impl Default for PlayerCamera {
    /// A camera that looks straight ahead.
    fn default() -> (c: PlayerCamera)
        ensures
            c.yaw == 0,
            c.pitch == 0,
    {
        PlayerCamera { yaw: 0, pitch: 0 }
    }
}

impl PlayerCamera {
    /// Turns the camera by the mouse motion `(dx, dy)`, from whatever pitch
    /// it has: the yaw moves by the whole of the turn, the pitch stops at
    /// [`PITCH_LIMIT`].
    pub fn look(&mut self, dx: Fixed, dy: Fixed)
        requires
            -YAW_LIMIT <= old(self).yaw <= YAW_LIMIT,
        ensures
            final(self).yaw == turned_yaw(old(self).yaw as int, dx as int),
            final(self).pitch == turned_pitch(old(self).pitch as int, dy as int),
            -PITCH_LIMIT <= final(self).pitch <= PITCH_LIMIT,
    {
        proof {
            lemma_product_range(dx as int, LOOK_SENSITIVITY as int, 0x8000_0000_0000_0000, 2_000);
            lemma_product_range(dy as int, LOOK_SENSITIVITY as int, 0x8000_0000_0000_0000, 2_000);
        }
        self.yaw = self.yaw - times(dx, LOOK_SENSITIVITY);
        let p: i128 = self.pitch as i128 - times(dy, LOOK_SENSITIVITY) as i128;
        self.pitch = if p < -(PITCH_LIMIT as i128) {
            -PITCH_LIMIT
        } else if p > PITCH_LIMIT as i128 {
            PITCH_LIMIT
        } else {
            p as i64
        };
    }
}

/// One turn of the camera is bounded by the motion of the mouse: the yaw
/// moves by exactly the sensitivity times the motion, and a pitch within
/// [`PITCH_LIMIT`] by no more than that and never beyond the limit.
pub proof fn lemma_look_bounded(yaw: int, pitch: int, dx: int, dy: int)
    ensures
        abs(turned_yaw(yaw, dx) - yaw) == product(abs(dx), LOOK_SENSITIVITY as int),
        -PITCH_LIMIT <= turned_pitch(pitch, dy) <= PITCH_LIMIT,
        -PITCH_LIMIT <= pitch <= PITCH_LIMIT ==> abs(turned_pitch(pitch, dy) - pitch) <= product(
            abs(dy),
            LOOK_SENSITIVITY as int,
        ),
{
    lemma_product_abs(dx, LOOK_SENSITIVITY as int);
    lemma_product_abs(dy, LOOK_SENSITIVITY as int);
}

/// The fixed-point product of a magnitude with a number that is not negative
/// is the magnitude of the product.
proof fn lemma_product_abs(a: int, k: int)
    by (nonlinear_arith)
    requires
        k >= 0,
    ensures
        product(abs(a), k) == abs(product(a, k)),
{
}

/// After `n` turns by the same motion the yaw is the first yaw less `n`
/// times the turn of one.
pub proof fn lemma_yaw_after(yaw: int, dx: int, n: nat)
    ensures
        yaw_after(yaw, dx, n) == yaw - n * product(dx, LOOK_SENSITIVITY as int),
    decreases n,
{
    let d = product(dx, LOOK_SENSITIVITY as int);
    if n == 0 {
        assert(0 * d == 0);
    } else {
        let m = (n - 1) as nat;
        lemma_yaw_after(yaw, dx, m);
        assert(m * d + d == n * d) by (nonlinear_arith)
            requires
                m == n - 1,
        ;
    }
}

/// The measures of the player's body.
#[derive(Clone, Copy, Debug, PartialEq, Eq, Structural)]
pub struct PlayerControllerBundle {
    /// The radius of the capsule that collides.
    pub radius: Fixed,
    /// The height of the capsule that collides.
    pub height: Fixed,
    /// The radius of the flat cylinder that feels for the ground.
    pub sensor_radius: Fixed,
    /// The height of the camera above the body.
    pub camera_height: Fixed,
}

impl PlayerControllerBundle {
    /// The body of the given radius and height: its ground sensor is a
    /// hundredth narrower than the body, and the camera sits at its height.
    pub fn new(radius: Fixed, height: Fixed) -> (b: PlayerControllerBundle)
        requires
            in_range(radius as int),
            in_range(height as int),
        ensures
            b == (PlayerControllerBundle {
                radius,
                height,
                sensor_radius: (radius - SENSOR_INSET) as i64,
                camera_height: height,
            }),
    {
        PlayerControllerBundle {
            radius,
            height,
            sensor_radius: radius - SENSOR_INSET,
            camera_height: height,
        }
    }
}

impl Default for PlayerControllerBundle {
    /// The body of the default radius and height.
    fn default() -> (b: PlayerControllerBundle)
        ensures
            b.radius == DEFAULT_PLAYER_RADIUS,
            b.height == DEFAULT_PLAYER_HEIGHT,
            b.sensor_radius == DEFAULT_PLAYER_RADIUS - SENSOR_INSET,
            b.camera_height == DEFAULT_PLAYER_HEIGHT,
    {
        PlayerControllerBundle::new(DEFAULT_PLAYER_RADIUS, DEFAULT_PLAYER_HEIGHT)
    }
}

/// The keys that are held down.
#[derive(Clone, Copy, Debug, PartialEq, Eq, Structural)]
pub struct MoveKeys {
    pub forward: bool,
    pub back: bool,
    pub left: bool,
    pub right: bool,
    pub sprint: bool,
    pub jump: bool,
}

/// What the player's body is asked to do.
#[derive(Clone, Copy, Debug, PartialEq, Eq, Structural)]
pub struct Walk {
    /// The velocity to reach.
    pub desired_velocity: Vec3,
    /// The height to float at.
    pub float_height: Fixed,
    /// The height to jump to, if the jump key is held.
    pub jump: Option<Fixed>,
}

/// The direction `v` laid flat on the ground and brought to length one.
pub open spec fn flat(v: Int3) -> Int3 {
    (Int3 { x: v.x, y: 0, z: v.z }).with_length(ONE as int)
}

/// `v` if `held`, zero otherwise.
pub open spec fn when(held: bool, v: Int3) -> Int3 {
    if held { v } else { Int3::zero() }
}

/// The direction that the keys ask for, given where the camera looks
/// (`forward`) and what is to its right (`right`).
pub open spec fn facing(keys: MoveKeys, forward: Int3, right: Int3) -> Int3 {
    when(keys.forward, flat(forward)).minus(when(keys.back, flat(forward))).minus(
        when(keys.left, flat(right)),
    ).plus(when(keys.right, flat(right)))
}

/// The speed to move at: walking, or sprinting while the sprint key is held.
pub open spec fn pace(sprint: bool) -> int {
    if sprint { product(SPEED as int, SPRINT_MULTIPLIER as int) } else { SPEED as int }
}

/// The velocity that the keys ask for.
pub open spec fn walk_velocity(keys: MoveKeys, forward: Int3, right: Int3) -> Int3 {
    facing(keys, forward, right).with_length(pace(keys.sprint))
}

fn flat_of(v: &Vec3) -> (f: Vec3)
    requires
        v.is_rate(),
    ensures
        f@ == flat(v@),
        f@.within(ONE as int),
{
    (Vec3 { x: v.x, y: 0, z: v.z }).with_length(ONE)
}

fn when_of(held: bool, v: Vec3) -> (r: Vec3)
    ensures
        r@ == when(held, v@),
{
    if held { v } else { Vec3 { x: 0, y: 0, z: 0 } }
}

/// What the keys ask of the player's body, given where the camera looks and
/// how high it sits.
pub fn handle_movement(keys: MoveKeys, forward: &Vec3, right: &Vec3, camera_height: Fixed) -> (w:
    Walk)
    requires
        forward.is_rate(),
        right.is_rate(),
        in_range(camera_height as int),
    ensures
        w.desired_velocity@ == walk_velocity(keys, forward@, right@),
        w.float_height == camera_height + FLOAT_MARGIN,
        w.jump == (if keys.jump { Some(JUMP_HEIGHT) } else { None::<Fixed> }),
        w.desired_velocity@.len_sq() <= pace(keys.sprint) * pace(keys.sprint),
{
    let f = flat_of(forward);
    let r = flat_of(right);
    let a = when_of(keys.forward, f);
    let b = when_of(keys.back, f);
    let c = when_of(keys.left, r);
    let d = when_of(keys.right, r);
    let ahead = Vec3 {
        x: a.x - b.x - c.x + d.x,
        y: a.y - b.y - c.y + d.y,
        z: a.z - b.z - c.z + d.z,
    };
    let speed: Fixed = if keys.sprint { times(SPEED, SPRINT_MULTIPLIER) } else { SPEED };
    proof {
        if ahead@.len_sq() > 0 {
            lemma_with_length_bounds(ahead@, speed as int);
        } else {
            assert(0 <= speed * speed) by (nonlinear_arith);
        }
        assert(ahead@.len_sq() >= 0) by (nonlinear_arith);
    }
    Walk {
        desired_velocity: ahead.with_length(speed),
        float_height: camera_height + FLOAT_MARGIN,
        jump: if keys.jump { Some(JUMP_HEIGHT) } else { None },
    }
}

/// Where the camera is: above the player by the height of the camera.
pub fn update_camera_position(player: &Vec3, camera_height: Fixed) -> (camera: Vec3)
    requires
        player.is_position(),
        in_range(camera_height as int),
    ensures
        camera@ == player@.plus(Int3 { x: 0, y: camera_height as int, z: 0 }),
{
    Vec3 { x: player.x, y: player.y + camera_height, z: player.z }
}

} // verus!
