use diorama::fixed::ONE;
use diorama::flock::{step, Bounds, FlockParameters};
use diorama::spawn::{between_of, member_from, phase_from, spawn_between, spawn_flock, spawn_member,
    spawn_phase, unit_of, Draw};
use diorama::trig::TAU;
use diorama::vector::Vec3;

fn region() -> Bounds {
    Bounds { min: Vec3::new(-25 * ONE, 10 * ONE, -25 * ONE), max: Vec3::new(25 * ONE, 30 * ONE, 25 * ONE) }
}

fn inside(b: &Bounds, p: &Vec3) -> bool {
    b.min.x <= p.x && p.x <= b.max.x && b.min.y <= p.y && p.y <= b.max.y && b.min.z <= p.z
        && p.z <= b.max.z
}

#[test]
fn bits_stand_for_a_number_below_one() {
    assert_eq!(unit_of(0), 0);
    assert_eq!(unit_of(u32::MAX), 999_999);
    assert_eq!(unit_of(1 << 31), 500_000);
    assert_eq!(unit_of(123_456_789), 28_744);
}

#[test]
fn a_fraction_of_the_way_between_two_numbers() {
    assert_eq!(between_of(-25 * ONE, 25 * ONE, 28_744), -23_562_800);
    assert_eq!(between_of(0, TAU, 500_000), 3_141_592);
    assert_eq!(between_of(0, TAU, 999_999), 6_283_177);
    assert_eq!(between_of(5, 5, 999_999), 5);
    assert_eq!(between_of(800_000, 1_200_000, 0), 800_000);
    assert_eq!(phase_from(1 << 31), 3_141_592);
    assert_eq!(phase_from(0), 0);
    assert_eq!(phase_from(u32::MAX), 6_283_177);
}

#[test]
fn a_member_is_made_of_its_draws() {
    let d = Draw { place: (0, 1 << 31, u32::MAX), heading: (1 << 30, 1 << 31, 3 << 30) };
    let m = member_from(&region(), 5 * ONE, Some(2), &d);
    assert_eq!(m.position, Vec3::new(-25 * ONE, 20 * ONE, 24_999_950));
    assert_eq!(m.velocity, Vec3::new(-3_535_533, 0, 3_535_533));
    assert_eq!(m.species_id, Some(2));
}

#[test]
fn draws_without_a_direction_leave_the_member_at_rest() {
    let d = Draw { place: (7, 8, 9), heading: (1 << 31, 1 << 31, 1 << 31) };
    let m = member_from(&region(), 5 * ONE, None, &d);
    assert_eq!(m.velocity, Vec3::new(0, 0, 0));
    assert_eq!(m.species_id, None);
}

#[test]
fn spawned_members_are_in_the_region_and_no_faster_than_asked() {
    let r = region();
    let mut distinct = false;
    let first = spawn_member(&r, 5 * ONE, None);
    for _ in 0..500 {
        let m = spawn_member(&r, 5 * ONE, Some(3));
        assert!(inside(&r, &m.position));
        assert_eq!(m.species_id, Some(3));
        let n = (m.velocity.x as i128).pow(2) + (m.velocity.y as i128).pow(2)
            + (m.velocity.z as i128).pow(2);
        assert!(n <= (5 * ONE as i128).pow(2));
        assert!(n >= ((5 * ONE - 2) as i128).pow(2) || n == 0);
        if m.position != first.position {
            distinct = true;
        }
    }
    assert!(distinct);
}

#[test]
fn a_spawned_flock_can_be_stepped() {
    let r = region();
    let flock = spawn_flock(&r, 5 * ONE, None, 50);
    assert_eq!(flock.len(), 50);
    assert!(spawn_flock(&r, 5 * ONE, None, 0).is_empty());
    let p = FlockParameters {
        perception_radius: 10 * ONE,
        avoidance_radius: 2 * ONE,
        max_speed: 8 * ONE,
        min_speed: 3 * ONE,
        turn_speed: 2 * ONE,
        separation_weight: 1_500_000,
        alignment_weight: ONE,
        cohesion_weight: ONE,
        center_pull_strength: 50_000,
        bounds: None,
    };
    let out = step(&flock, &p, 16_000);
    assert_eq!(out.len(), 50);
    for (_, velocity) in out {
        let n = (velocity.x as i128).pow(2) + (velocity.y as i128).pow(2) + (velocity.z as i128).pow(2);
        assert!(n <= (8 * ONE as i128).pow(2));
    }
}

#[test]
fn spawned_phases_and_speeds_are_in_their_ranges() {
    let mut distinct = false;
    let first = spawn_phase();
    for _ in 0..500 {
        let phase = spawn_phase();
        assert!(0 <= phase && phase < TAU);
        if phase != first {
            distinct = true;
        }
        let speed = spawn_between(800_000, 1_200_000);
        assert!(800_000 <= speed && speed < 1_200_000);
    }
    assert!(distinct);
    assert_eq!(spawn_between(7, 7), 7);
}
