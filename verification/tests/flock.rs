use diorama::fixed::ONE;
use diorama::flock::{advance, look_target, step, Bounds, ConfigError, FlockMember, FlockParameters};
use diorama::vector::Vec3;

fn params() -> FlockParameters {
    FlockParameters {
        perception_radius: 10 * ONE,
        avoidance_radius: 2 * ONE,
        max_speed: 8 * ONE,
        min_speed: 3 * ONE,
        turn_speed: 2 * ONE,
        separation_weight: 1_500_000,
        alignment_weight: ONE,
        cohesion_weight: ONE,
        center_pull_strength: 50_000,
        bounds: None,
    }
}

fn member(p: (i64, i64, i64), v: (i64, i64, i64), species: Option<u32>) -> FlockMember {
    FlockMember::new(Vec3::new(p.0, p.1, p.2), Vec3::new(v.0, v.1, v.2), species).unwrap()
}

fn v(x: i64, y: i64, z: i64) -> Vec3 {
    Vec3::new(x, y, z)
}

fn dot(a: Vec3, b: Vec3) -> i128 {
    a.x as i128 * b.x as i128 + a.y as i128 * b.y as i128 + a.z as i128 * b.z as i128
}

fn len_sq(a: Vec3) -> i128 {
    dot(a, a)
}

#[test]
fn empty_flock_steps_to_nothing() {
    let flock: Vec<FlockMember> = Vec::new();
    assert_eq!(params().validate(), Ok(()));
    let out = step(&flock, &params(), 16_000);
    assert!(out.is_empty());
}

#[test]
fn step_keeps_the_order_and_the_count() {
    let flock = vec![
        member((ONE, 10 * ONE, 0), (3 * ONE, 0, 0), None),
        member((2 * ONE, 10 * ONE, ONE), (0, 0, 4 * ONE), None),
        member((-3 * ONE, 12 * ONE, 2 * ONE), (-2 * ONE, ONE, 2 * ONE), None),
    ];
    let out = step(&flock, &params(), 16_000);
    assert_eq!(
        out,
        vec![
            (v(1047813, 10001090, 4088), v(2988322, 68137, 255516)),
            (v(1998753, 10000674, 1065794), v(-77951, 42135, 4112175)),
            (v(-3029290, 12015053, 2034921), v(-1830633, 940838, 2182568)),
        ]
    );
}

#[test]
fn advance_is_one_member_of_step() {
    let flock = vec![
        member((ONE, 10 * ONE, 0), (3 * ONE, 0, 0), None),
        member((2 * ONE, 10 * ONE, ONE), (0, 0, 4 * ONE), None),
        member((-3 * ONE, 12 * ONE, 2 * ONE), (-2 * ONE, ONE, 2 * ONE), None),
    ];
    let out = step(&flock, &params(), 16_000);
    for i in 0..flock.len() {
        assert_eq!(advance(&flock, i, &params(), 16_000), out[i]);
    }
}

#[test]
fn step_reads_only_the_flock_as_it_was() {
    let flock = vec![
        member((ONE, 10 * ONE, 0), (3 * ONE, 0, 0), None),
        member((2 * ONE, 10 * ONE, ONE), (0, 0, 4 * ONE), None),
    ];
    let swapped = vec![flock[1], flock[0]];
    let a = step(&flock, &params(), 16_000);
    let b = step(&swapped, &params(), 16_000);
    assert_eq!(a[0], b[1]);
    assert_eq!(a[1], b[0]);
}

#[test]
fn speed_stays_within_bounds_over_many_ticks() {
    let p = params();
    let mut flock = Vec::new();
    let mut seed: i64 = 12345;
    for i in 0..20 {
        let mut next = || {
            seed = (seed * 1_103_515_245 + 12_345) % 2_147_483_648;
            seed % (20 * ONE) - 10 * ONE
        };
        let position = (next(), next(), next());
        let velocity = (next() / 2, next() / 2, next() / 2);
        flock.push(member(position, velocity, if i % 2 == 0 { Some(1) } else { None }));
    }
    let max_sq = (p.max_speed as i128) * (p.max_speed as i128);
    let min_sq = ((p.min_speed - 2) as i128) * ((p.min_speed - 2) as i128);
    for _ in 0..50 {
        let out = step(&flock, &p, 16_000);
        assert_eq!(out.len(), flock.len());
        for (i, (position, velocity)) in out.iter().enumerate() {
            assert!(len_sq(*velocity) <= max_sq);
            assert!(len_sq(*velocity) >= min_sq);
            flock[i] = FlockMember::new(*position, *velocity, flock[i].species_id).unwrap();
        }
    }
}

#[test]
fn member_at_rest_without_any_force_stays_at_rest() {
    let flock = vec![member((0, 0, 0), (0, 0, 0), None)];
    let out = step(&flock, &params(), 16_000);
    assert_eq!(out, vec![(v(0, 0, 0), v(0, 0, 0))]);
}

#[test]
fn turning_is_limited_when_the_target_is_opposite() {
    let mut p = params();
    p.center_pull_strength = ONE;
    let flock = vec![member((20 * ONE, 0, 0), (8 * ONE, 0, 0), None)];
    let out = step(&flock, &p, 16_000);
    assert_eq!(out[0].1, v(7_488_000, 0, 0));
    assert_eq!(out[0].0, v(20_119_808, 0, 0));
    assert!(dot(out[0].1, flock[0].velocity) > 0);
}

#[test]
fn turn_fraction_never_exceeds_one() {
    let mut p = params();
    p.center_pull_strength = ONE;
    let flock = vec![member((20 * ONE, 0, 0), (8 * ONE, 0, 0), None)];
    let out = step(&flock, &p, 10 * ONE);
    assert_eq!(out[0].1, v(-8 * ONE, 0, 0));
    let back = step(&flock, &p, -ONE);
    assert_eq!(back[0].1, v(8 * ONE, 0, 0));
    assert_eq!(back[0].0, v(12 * ONE, 0, 0));
}

#[test]
fn members_too_close_steer_apart() {
    let mut p = params();
    p.center_pull_strength = 0;
    let flock = vec![member((0, 0, 0), (0, 0, 0), None), member((ONE, 0, 0), (0, 0, 0), None)];
    let out = step(&flock, &p, 16_000);
    assert_eq!(out[0], (v(-48_000, 0, 0), v(-3 * ONE, 0, 0)));
    assert_eq!(out[1], (v(1_048_000, 0, 0), v(3 * ONE, 0, 0)));
    let apart = v(ONE, 0, 0);
    assert!(dot(out[1].1, apart) > 0);
    assert!(dot(out[0].1, apart) < 0);
}

#[test]
fn coincident_members_do_not_influence_each_other() {
    let mut p = params();
    p.perception_radius = 100 * ONE;
    p.center_pull_strength = 0;
    p.min_speed = 0;
    let flock = vec![
        member((0, 0, 0), (ONE, 0, 0), None),
        member((0, 0, 0), (0, 0, ONE), None),
        member((0, 0, 0), (-ONE, 0, 0), None),
    ];
    let out = step(&flock, &p, 16_000);
    assert_eq!(out[0], (v(19_584, 0, 0), v(1_224_000, 0, 0)));
    assert_eq!(out[1], (v(0, 0, 19_584), v(0, 0, 1_224_000)));
    assert_eq!(out[2], (v(-19_584, 0, 0), v(-1_224_000, 0, 0)));
}

#[test]
fn alignment_pulls_toward_the_mean_velocity() {
    let mut p = params();
    p.perception_radius = 100 * ONE;
    p.center_pull_strength = 0;
    p.cohesion_weight = 0;
    p.min_speed = 0;
    let flock = vec![
        member((0, 0, 0), (ONE, 0, 0), None),
        member((3 * ONE, 0, 0), (0, 0, ONE), None),
        member((0, 3 * ONE, 0), (-ONE, 0, 0), None),
    ];
    let out = step(&flock, &p, 16_000);
    assert_eq!(out[0].1, v(1_149_019, 0, 181_019));
    assert_eq!(out[1].1, v(0, 0, 1_224_000));
    assert_eq!(out[2].1, v(-1_149_019, 0, 181_019));
    assert!(out[0].1.z - flock[0].velocity.z > 0);
    assert!(out[2].1.z - flock[2].velocity.z > 0);
    assert!(out[1].1.x - flock[1].velocity.x == 0);
}

#[test]
fn center_pull_turns_a_lone_member_toward_the_origin() {
    let flock = vec![member((50 * ONE, 0, 0), (0, 0, 5 * ONE), None)];
    let out = step(&flock, &params(), 16_000);
    assert_eq!(out, vec![(v(49_998_169, 0, 81_103), v(-114_486, 0, 5_068_973))]);
}

#[test]
fn influence_between_species_is_not_symmetric() {
    let mut p = params();
    p.center_pull_strength = 0;
    let a = member((0, 0, 0), (4 * ONE, 0, 0), None);
    let b = member((7 * ONE, 0, 0), (0, 0, 4 * ONE), Some(1));
    let both = step(&vec![a, b], &p, 16_000);
    let alone_a = step(&vec![a], &p, 16_000);
    let alone_b = step(&vec![b], &p, 16_000);
    assert_eq!(both[0], (v(65_801, 0, 1_399), v(4_112_587, 0, 87_486)));
    assert_ne!(both[0], alone_a[0]);
    assert_eq!(both[1], alone_b[0]);
}

#[test]
fn other_species_are_avoided_but_not_followed() {
    let mut p = params();
    p.center_pull_strength = 0;
    let a = member((0, 0, 0), (4 * ONE, 0, 0), Some(0));
    let b = member((ONE, 0, 0), (0, 0, 4 * ONE), Some(1));
    let out = step(&vec![a, b], &p, 16_000);
    assert_eq!(out[0], (v(66_048, 0, 0), v(4_128_000, 0, 0)));
    assert_eq!(out[1], (v(1_001_438, 0, 65_787), v(89_887, 0, 4_111_700)));
}

#[test]
fn members_outside_the_box_are_pushed_back() {
    let mut p = params();
    p.center_pull_strength = 20_000;
    p.bounds = Some(Bounds { min: v(-50 * ONE, -2 * ONE, -50 * ONE), max: v(50 * ONE, 12 * ONE, 50 * ONE) });
    assert_eq!(p.validate(), Ok(()));
    let flock = vec![
        member((0, -3 * ONE, 0), (2 * ONE, 0, 0), None),
        member((0, 13 * ONE, 30 * ONE), (2 * ONE, 0, 0), None),
    ];
    let out = step(&flock, &p, 16_000);
    assert_eq!(out[0], (v(47_915, -2_997_148, 0), v(2_994_697, 178_282, 0)));
    assert_eq!(out[1], (v(47_898, 12_997_231, 29_998_568), v(2_993_664, -173_076, -89_522)));
}

#[test]
fn huge_forces_still_give_a_bounded_speed() {
    let mut p = params();
    p.separation_weight = 2_147_483_648;
    let flock = vec![member((0, 0, 0), (0, 0, 0), None), member((1, 0, 0), (0, 0, 0), None)];
    let out = step(&flock, &p, 16_000);
    assert_eq!(out[0], (v(-48_000, 0, 0), v(-3 * ONE, 0, 0)));
    assert_eq!(out[1], (v(48_001, 0, 0), v(3 * ONE, 0, 0)));
}

#[test]
fn member_beyond_the_limits_is_refused() {
    let far = 1_099_511_627_776;
    assert!(FlockMember::new(v(far, 0, 0), v(0, 0, 0), None).is_some());
    assert!(FlockMember::new(v(far + 1, 0, 0), v(0, 0, 0), None).is_none());
    assert!(FlockMember::new(v(0, 0, 0), v(0, -2_147_483_648, 0), None).is_some());
    assert!(FlockMember::new(v(0, 0, 0), v(0, -2_147_483_649, 0), None).is_none());
}

#[test]
fn parameters_are_checked_in_order() {
    assert_eq!(params().validate(), Ok(()));
    let mut p = params();
    p.avoidance_radius = p.perception_radius + 1;
    assert_eq!(p.validate(), Err(ConfigError::RadiusOrder));
    p.min_speed = p.max_speed + 1;
    assert_eq!(p.validate(), Err(ConfigError::RadiusOrder));
    p.avoidance_radius = p.perception_radius;
    assert_eq!(p.validate(), Err(ConfigError::SpeedOrder));
    p.cohesion_weight = -1;
    assert_eq!(p.validate(), Err(ConfigError::SpeedOrder));
    p.min_speed = p.max_speed;
    assert_eq!(p.validate(), Err(ConfigError::NegativeWeight));
    p.cohesion_weight = 0;
    p.bounds = Some(Bounds { min: v(0, 1, 0), max: v(0, 0, 0) });
    assert_eq!(p.validate(), Err(ConfigError::BoundsOrder));
    p.max_speed = 2_147_483_649;
    assert_eq!(p.validate(), Err(ConfigError::OutOfRange));
}

#[test]
fn each_weight_must_not_be_negative() {
    for i in 0..4 {
        let mut p = params();
        match i {
            0 => p.separation_weight = -1,
            1 => p.alignment_weight = -1,
            2 => p.cohesion_weight = -1,
            _ => p.center_pull_strength = -1,
        }
        assert_eq!(p.validate(), Err(ConfigError::NegativeWeight));
    }
}

#[test]
fn numbers_beyond_the_limits_are_out_of_range() {
    let mut p = params();
    p.perception_radius = -1;
    assert_eq!(p.validate(), Err(ConfigError::OutOfRange));
    let mut p = params();
    p.min_speed = -1;
    assert_eq!(p.validate(), Err(ConfigError::OutOfRange));
    let mut p = params();
    p.turn_speed = -2_147_483_649;
    assert_eq!(p.validate(), Err(ConfigError::OutOfRange));
    let mut p = params();
    p.bounds = Some(Bounds { min: v(0, 0, 0), max: v(0, 0, 1_099_511_627_777) });
    assert_eq!(p.validate(), Err(ConfigError::OutOfRange));
}

#[test]
fn a_member_at_full_speed_is_never_turned_around_in_a_short_step() {
    let p = params();
    let mut seed: i64 = 777;
    let mut next = || {
        seed = (seed * 1_103_515_245 + 12_345) % 2_147_483_648;
        seed % (60 * ONE) - 30 * ONE
    };
    for _ in 0..200 {
        let mut flock = Vec::new();
        for _ in 0..6 {
            let heading = Vec3::new(next(), next(), next());
            let velocity = heading.with_length(p.max_speed + 2);
            flock.push(FlockMember::new(v(next(), next(), next()), velocity, None).unwrap());
        }
        for dt in [0, 16_000, 100_000, 250_000] {
            let out = step(&flock, &p, dt);
            for (i, (_, velocity)) in out.iter().enumerate() {
                if len_sq(flock[i].velocity) >= (p.max_speed as i128).pow(2) {
                    assert!(dot(*velocity, flock[i].velocity) >= 0);
                }
                if dt == 0 && len_sq(flock[i].velocity) <= (p.max_speed as i128).pow(2) {
                    assert_eq!(*velocity, flock[i].velocity);
                }
            }
        }
    }
}

#[test]
fn a_member_faces_where_it_is_heading() {
    assert_eq!(look_target(&v(ONE, 2 * ONE, 3 * ONE), &v(-ONE, 0, 5)), Some(v(0, 2 * ONE, 3 * ONE + 5)));
    assert_eq!(look_target(&v(ONE, 2 * ONE, 3 * ONE), &v(0, 0, 0)), None);
    assert_eq!(look_target(&v(0, 0, 0), &v(0, 0, -1)), Some(v(0, 0, -1)));
}

#[test]
fn parameters_are_made_only_in_order() {
    let p = params();
    let made = FlockParameters::new(
        p.perception_radius,
        p.avoidance_radius,
        p.max_speed,
        p.min_speed,
        p.turn_speed,
        p.separation_weight,
        p.alignment_weight,
        p.cohesion_weight,
        p.center_pull_strength,
        p.bounds,
    );
    assert_eq!(made, Ok(p));
    let refused = FlockParameters::new(ONE, 2 * ONE, 8 * ONE, 3 * ONE, 2 * ONE, ONE, ONE, ONE, 0, None);
    assert_eq!(refused, Err(ConfigError::RadiusOrder));
    let refused = FlockParameters::new(2 * ONE, ONE, 3 * ONE, 8 * ONE, 2 * ONE, ONE, ONE, ONE, 0, None);
    assert_eq!(refused, Err(ConfigError::SpeedOrder));
}

#[test]
fn a_pair_at_rest_never_moves_together() {
    let mut p = params();
    p.center_pull_strength = 0;
    let mut seed: i64 = 4242;
    let mut next = || {
        seed = (seed * 1_103_515_245 + 12_345) % 2_147_483_648;
        seed % 1_000_001 - 500_000
    };
    for round in 0..500 {
        let a = v(next(), next(), next());
        let b = v(a.x + next() / 2, a.y + next() / 2, a.z + next() / 2);
        if a == b {
            continue;
        }
        let kinds = if round % 2 == 0 { (None, None) } else { (Some(1), Some(2)) };
        let flock = vec![member((a.x, a.y, a.z), (0, 0, 0), kinds.0), member((b.x, b.y, b.z), (0, 0, 0), kinds.1)];
        let out = step(&flock, &p, 16_000);
        let away = v(a.x - b.x, a.y - b.y, a.z - b.z);
        assert!(len_sq(away) <= (ONE as i128).pow(2));
        assert!(dot(out[0].1, away) > 0);
        assert!(dot(out[1].1, away) < 0);
    }
}
