use diorama::fixed::ONE;
use diorama::oscillator::{OscillatorAgent, OscillatorKind, ScaleTarget, TransformDelta};
use diorama::trig::{HALF_PI, PI};
use diorama::vector::Vec3;

fn agent(phase: i64, speed: i64, kind: OscillatorKind) -> OscillatorAgent {
    OscillatorAgent::new(phase, speed, kind).unwrap()
}

fn splat(s: i64) -> TransformDelta {
    TransformDelta::Scale(Vec3::new(s, s, s))
}

#[test]
fn pulse_reaches_the_top_of_its_range_at_a_quarter_turn() {
    let a = agent(0, 2 * ONE, OscillatorKind::Pulse { low: 900_000, high: 1_100_000 });
    assert_eq!(a.evaluate(785_398), splat(1_100_000));
    assert_eq!(a.evaluate(-785_398), splat(1_100_000));
    assert_eq!(a.evaluate(0), splat(900_000));
}

#[test]
fn pulse_between_its_peaks() {
    let a = agent(500_000, 1_300_000, OscillatorKind::Pulse { low: 900_000, high: 1_100_000 });
    assert_eq!(a.evaluate(3_700_000), splat(1_065_077));
}

#[test]
fn pulse_stays_within_its_range() {
    let a = agent(123_456, 1_700_000, OscillatorKind::Pulse { low: 900_000, high: 1_100_000 });
    for i in 0..2000 {
        match a.evaluate(i * 7_919) {
            TransformDelta::Scale(s) => {
                assert!(900_000 <= s.x && s.x <= 1_100_000);
                assert_eq!(s.x, s.y);
                assert_eq!(s.x, s.z);
            }
            other => panic!("{:?}", other),
        }
    }
}

#[test]
fn bob_floats_around_its_base_height() {
    let kind = OscillatorKind::Bob { base_y: 8 * ONE, amplitude: 500_000 };
    assert_eq!(agent(ONE, 1_500_000, kind).evaluate(2 * ONE), TransformDelta::Height(7_622_264));
    assert_eq!(agent(0, ONE, kind).evaluate(HALF_PI), TransformDelta::Height(8_500_000));
    assert_eq!(agent(0, ONE, kind).evaluate(PI + HALF_PI), TransformDelta::Height(7_500_000));
    assert_eq!(agent(0, ONE, kind).evaluate(0), TransformDelta::Height(8 * ONE));
}

#[test]
fn color_cycle_runs_through_the_hues() {
    let at = |offset: i64, speed: i64, elapsed: i64| {
        agent(0, speed, OscillatorKind::ColorCycle { hue_offset: offset }).evaluate(elapsed)
    };
    assert_eq!(at(240 * ONE, 500_000, 10 * ONE), TransformDelta::Hue(180 * ONE));
    assert_eq!(at(0, ONE, 0), TransformDelta::Hue(0));
    assert_eq!(at(-30 * ONE, ONE, 0), TransformDelta::Hue(330 * ONE));
    assert_eq!(at(120 * ONE, 200_000, 12_345_678), TransformDelta::Hue(268_148_136));
    assert_eq!(at(350 * ONE, ONE, ONE / 6), TransformDelta::Hue(359_999_960));
}

#[test]
fn sway_leans_about_two_axes() {
    let kind = OscillatorKind::Sway { amplitude: 50_000 };
    assert_eq!(
        agent(300_000, ONE, kind).evaluate(ONE),
        TransformDelta::Tilt { about_z: 48_156, about_x: 24_078 }
    );
    assert_eq!(
        agent(0, ONE, kind).evaluate(-HALF_PI),
        TransformDelta::Tilt { about_z: -50_000, about_x: -25_000 }
    );
}

#[test]
fn morph_swells_unevenly() {
    let kind = OscillatorKind::Morph { amplitude: 500_000 };
    assert_eq!(
        agent(0, 800_000, kind).evaluate(12_500_000),
        TransformDelta::Scale(Vec3::new(833_731, 711_191, 704_168))
    );
    assert_eq!(
        agent(0, 800_000, kind).evaluate(0),
        TransformDelta::Scale(Vec3::new(1_075_000, 1_182_500, 1_075_000))
    );
    assert_eq!(
        agent(250_000, 2 * ONE, OscillatorKind::Morph { amplitude: ONE }).evaluate(100 * ONE),
        TransformDelta::Scale(Vec3::new(999_684, 877_547, 947_239))
    );
}

#[test]
fn evaluating_twice_gives_the_same() {
    let kinds = [
        OscillatorKind::Bob { base_y: 8 * ONE, amplitude: 500_000 },
        OscillatorKind::Pulse { low: 900_000, high: 1_100_000 },
        OscillatorKind::ColorCycle { hue_offset: 120 * ONE },
        OscillatorKind::Sway { amplitude: 50_000 },
        OscillatorKind::Morph { amplitude: 500_000 },
    ];
    for kind in kinds {
        let a = agent(777_777, 1_234_567, kind);
        for i in 0..100 {
            let elapsed = i * 333_333;
            let first = a.evaluate(elapsed);
            let between = a.evaluate(elapsed + 1);
            assert_eq!(a.evaluate(elapsed), first);
            assert_eq!(a.evaluate(elapsed + 1), between);
        }
        assert_eq!(a, agent(777_777, 1_234_567, kind));
    }
}

#[test]
fn agents_need_a_positive_speed_and_numbers_within_the_limits() {
    let kind = OscillatorKind::Sway { amplitude: 50_000 };
    assert!(OscillatorAgent::new(0, 0, kind).is_none());
    assert!(OscillatorAgent::new(0, -ONE, kind).is_none());
    assert!(OscillatorAgent::new(0, 1, kind).is_some());
    assert!(OscillatorAgent::new(0, 2_147_483_648, kind).is_some());
    assert!(OscillatorAgent::new(0, 2_147_483_649, kind).is_none());
    assert!(OscillatorAgent::new(1_099_511_627_777, ONE, kind).is_none());
    assert!(OscillatorAgent::new(0, ONE, OscillatorKind::Sway { amplitude: 2_147_483_649 }).is_none());
    assert!(OscillatorAgent::new(0, ONE, OscillatorKind::Morph { amplitude: -2_147_483_649 }).is_none());
    assert!(OscillatorAgent::new(0, ONE, OscillatorKind::Pulse { low: 0, high: 2_147_483_649 }).is_none());
    assert!(OscillatorAgent::new(0, ONE, OscillatorKind::Bob { base_y: 1_099_511_627_777, amplitude: 0 }).is_none());
    assert!(OscillatorAgent::new(0, ONE, OscillatorKind::Bob { base_y: 1_099_511_627_776, amplitude: 0 }).is_some());
    assert!(OscillatorAgent::new(0, ONE, OscillatorKind::ColorCycle { hue_offset: -1_099_511_627_777 }).is_none());
}

#[test]
fn a_click_switches_the_target_scale() {
    let mut t = ScaleTarget { target_scale: Vec3::new(ONE, ONE, ONE), speed: 2 * ONE };
    t.toggle();
    assert_eq!(t.target_scale, Vec3::new(2 * ONE, 2 * ONE, 2 * ONE));
    assert_eq!(t.speed, 2 * ONE);
    t.toggle();
    assert_eq!(t.target_scale, Vec3::new(ONE, ONE, ONE));
    let mut edge = ScaleTarget { target_scale: Vec3::new(1_500_000, 0, 0), speed: ONE };
    edge.toggle();
    assert_eq!(edge.target_scale, Vec3::new(2 * ONE, 2 * ONE, 2 * ONE));
}

#[test]
fn the_scale_approaches_its_target() {
    let t = ScaleTarget { target_scale: Vec3::new(2 * ONE, 2 * ONE, 2 * ONE), speed: 2 * ONE };
    let start = Vec3::new(ONE, ONE, 3 * ONE);
    assert_eq!(t.approach(&start, 16_000), Vec3::new(1_032_000, 1_032_000, 2_968_000));
    assert_eq!(t.approach(&start, 0), start);
    assert_eq!(t.approach(&start, -ONE), start);
    assert_eq!(t.approach(&start, 500_000), t.target_scale);
    assert_eq!(t.approach(&start, 10 * ONE), t.target_scale);
}
