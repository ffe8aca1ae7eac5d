use space_shooter::fixed::{distance, isqrt, FIELD_LIMIT, ONE};
use space_shooter::formation::Formation;
use space_shooter::trig::{cos, cos_fine, sin, sin_fine, FINE_ONE, HALF_PI, PI};

const TICK: u32 = 16_667;

fn approach_formation() -> Formation {
    Formation {
        start: (-100 * ONE, 0),
        pivot: (0, 0),
        radius: (50 * ONE, 50 * ONE),
        angle: 0,
        speed: 100 * ONE,
    }
}

fn squared_gap(a: (i64, i64), b: (i64, i64)) -> i128 {
    let dx = (a.0 - b.0) as i128;
    let dy = (a.1 - b.1) as i128;
    dx * dx + dy * dy
}

#[test]
fn isqrt_rounds_down() {
    assert_eq!(isqrt(0), 0);
    assert_eq!(isqrt(1), 1);
    assert_eq!(isqrt(3), 1);
    assert_eq!(isqrt(4), 2);
    assert_eq!(isqrt(99), 9);
    assert_eq!(isqrt(100), 10);
    assert_eq!(isqrt(1_000_000_000_000), 1_000_000);
    assert_eq!(isqrt(u128::MAX), u64::MAX);
}

#[test]
fn distance_of_a_three_four_five_triangle() {
    assert_eq!(distance((0, 0), (3 * ONE, 4 * ONE)), 5_000_000);
    assert_eq!(distance((3 * ONE, 4 * ONE), (0, 0)), 5_000_000);
    assert_eq!(distance((-3, 0), (0, -4)), 5);
}

#[test]
fn distance_rounds_up() {
    assert_eq!(distance((7, -9), (7, -9)), 0);
    assert_eq!(distance((0, 0), (1, 0)), 1);
    assert_eq!(distance((0, 0), (1, 1)), 2);
    assert_eq!(distance((0, 0), (3, 4 * ONE)), 4 * ONE as u64 + 1);
    assert_eq!(
        distance((-FIELD_LIMIT, -FIELD_LIMIT), (FIELD_LIMIT, FIELD_LIMIT)),
        2_828_427_124_747
    );
}

#[test]
fn sine_at_known_angles() {
    assert_eq!(sin(0), 0);
    assert_eq!(sin(HALF_PI), ONE);
    assert_eq!(sin(PI), 1);
    assert_eq!(sin(PI + HALF_PI), -ONE);
    assert_eq!(sin(-HALF_PI), -ONE);
    assert_eq!(sin(523_599), 500_000);
    assert_eq!(sin(-523_599), -500_000);
    assert_eq!(sin(1_000_000), 841_471);
    assert_eq!(sin(21_221), 21_219);
}

#[test]
fn cosine_at_known_angles() {
    assert_eq!(cos(0), ONE);
    assert_eq!(cos(HALF_PI), 0);
    assert_eq!(cos(PI), -ONE);
    assert_eq!(cos(1_000_000), 540_302);
    assert_eq!(cos(21_221), 999_775);
    assert_eq!(cos(-21_221), 999_775);
}

#[test]
fn fine_sine_and_cosine_at_known_angles() {
    assert_eq!(sin_fine(0), 0);
    assert_eq!(cos_fine(0), FINE_ONE);
    assert_eq!(sin_fine(HALF_PI), FINE_ONE);
    assert_eq!(cos_fine(HALF_PI), 326_795);
    assert_eq!(sin_fine(PI), 653_590);
    assert_eq!(cos_fine(PI), -FINE_ONE);
    assert_eq!(sin_fine(PI + HALF_PI), -FINE_ONE);
    assert_eq!(cos_fine(PI + HALF_PI), -980_385);
    assert_eq!(cos_fine(21_221), 999_774_843_030);
    assert_eq!(sin_fine(21_221), 21_219_407_290);
    assert_eq!(cos_fine(-21_221), 999_774_843_030);
    assert_eq!(sin_fine(-21_221), -21_219_407_290);
}

#[test]
fn sine_and_cosine_are_the_nearest_millionths() {
    let mut angle: i64 = -13_000_000;
    while angle <= 13_000_000 {
        let exact = (angle as f64 / 1e6).sin();
        assert!((sin(angle) as f64 - exact * 1e6).abs() < 0.51, "angle {}", angle);
        assert!((sin_fine(angle) as f64 - exact * 1e12).abs() < 2.5e3, "angle {}", angle);
        let exact = (angle as f64 / 1e6).cos();
        assert!((cos(angle) as f64 - exact * 1e6).abs() < 0.51, "angle {}", angle);
        assert!((cos_fine(angle) as f64 - exact * 1e12).abs() < 2.5e3, "angle {}", angle);
        assert!(sin(angle).abs() <= ONE && cos(angle).abs() <= ONE);
        angle += 997;
    }
}

#[test]
fn sine_and_cosine_of_large_angles() {
    for angle in [1_000_000_000i64, -1_000_000_000, 123_456_789_012, -987_654_321_098] {
        let exact = (angle as f64 / 1e6).sin();
        assert!((sin_fine(angle) as f64 - exact * 1e12).abs() < 1e6, "angle {}", angle);
        let exact = (angle as f64 / 1e6).cos();
        assert!((cos_fine(angle) as f64 - exact * 1e12).abs() < 1e6, "angle {}", angle);
    }
    for angle in [i64::MAX, i64::MIN, i64::MAX - 1, i64::MIN + 1] {
        assert!(sin_fine(angle).abs() <= FINE_ONE && cos_fine(angle).abs() <= FINE_ONE);
        assert!(sin(angle).abs() <= ONE && cos(angle).abs() <= ONE);
    }
}

#[test]
fn validity_follows_the_invariant() {
    assert!(approach_formation().is_valid());
    let mut flat = approach_formation();
    flat.radius = (50 * ONE, 0);
    assert!(!flat.is_valid());
    let mut inverted = approach_formation();
    inverted.radius = (-ONE, 50 * ONE);
    assert!(!inverted.is_valid());
    let mut backwards = approach_formation();
    backwards.speed = -1;
    assert!(!backwards.is_valid());
    let mut outside = approach_formation();
    outside.pivot = (FIELD_LIMIT, 0);
    assert!(!outside.is_valid());
}

#[test]
fn new_checks_the_invariant() {
    let made = Formation::new((-100 * ONE, 0), (0, 0), (50 * ONE, 50 * ONE), 0, 100 * ONE);
    assert_eq!(made, Some(approach_formation()));
    assert_eq!(Formation::new((0, 0), (0, 0), (0, 50 * ONE), 0, ONE), None);
    assert_eq!(Formation::new((0, 0), (0, 0), (ONE, ONE), 0, -ONE), None);
    assert_eq!(Formation::new((0, 0), (0, FIELD_LIMIT), (ONE, ONE), 0, ONE), None);
    assert_eq!(Formation::new((0, 0), (0, 0), (ONE, ONE), 0, FIELD_LIMIT + 1), None);
    assert!(Formation::new((0, 0), (0, FIELD_LIMIT - ONE), (ONE, ONE), i64::MIN, 0).is_some());
    assert!(Formation::new((0, 0), (i64::MIN, i64::MAX), (i64::MAX, i64::MAX), 0, 0).is_none());
}

#[test]
fn travel_is_speed_times_time() {
    let formation = approach_formation();
    assert_eq!(formation.travel(TICK), 1_666_700);
    assert_eq!(formation.travel(0), 0);
    assert_eq!(formation.travel(1_000_000), 100 * ONE as u64);
}

#[test]
fn candidate_angle_turns_with_the_side_of_entry() {
    let from_left = approach_formation();
    assert_eq!(from_left.candidate(TICK), 21_221);
    let mut from_right = approach_formation();
    from_right.start = (100 * ONE, 0);
    assert_eq!(from_right.candidate(TICK), -21_221);
    from_right.angle = 7 * ONE;
    assert_eq!(from_right.candidate(TICK), 7 * ONE - 21_221);
    let mut many_turns = approach_formation();
    many_turns.angle = 1_000 * ONE;
    assert_eq!(many_turns.candidate(TICK), 1_000 * ONE + 21_221);
    let mut wide = approach_formation();
    wide.radius = (50 * ONE, 200 * ONE);
    assert_eq!(wide.candidate(TICK), 21_221);
    let mut narrow = approach_formation();
    narrow.radius = (25 * ONE, 200 * ONE);
    assert_eq!(narrow.candidate(TICK), 42_442);
}

#[test]
fn target_lies_on_the_ellipse() {
    let mut formation = approach_formation();
    formation.pivot = (10 * ONE, -20 * ONE);
    formation.radius = (50 * ONE, 80 * ONE);
    assert_eq!(formation.target_point(0), (60 * ONE, -20 * ONE));
    assert_eq!(formation.target_point(HALF_PI), (10_000_016, 60 * ONE));
    assert_eq!(formation.target_point(PI), (-40 * ONE, -19_999_948));
    assert_eq!(formation.target_point(PI + HALF_PI), (9_999_951, -100 * ONE));
    for angle in (-70..70).map(|k| k * 100_003) {
        let (x, y) = formation.target_point(angle);
        let u = (x - 10 * ONE) as f64 / 50e6;
        let v = (y + 20 * ONE) as f64 / 80e6;
        assert!((u * u + v * v - 1.).abs() < 1e-7, "angle {}", angle);
        assert!((x as f64 / 1e6 - (10. + 50. * (angle as f64 / 1e6).cos())).abs() < 2e-6);
        assert!((y as f64 / 1e6 - (-20. + 80. * (angle as f64 / 1e6).sin())).abs() < 2e-6);
    }
}

#[test]
fn one_tick_on_the_approach_path() {
    let mut formation = approach_formation();
    let origin = (-100 * ONE, 0);
    let goal = formation.target_point(formation.candidate(TICK));
    assert_eq!(goal, (49_988_742, 1_060_970));
    let next = formation.advance(origin, TICK);
    assert_eq!(next, (-98_333_342, 11_789));
    assert!(squared_gap(next, goal) < squared_gap(origin, goal));
    assert!(origin.0 <= next.0 && next.0 <= goal.0);
    assert!(origin.1 <= next.1 && next.1 <= goal.1);
    assert!(squared_gap(origin, next) <= (formation.travel(TICK) as i128).pow(2));
    assert!(formation.travel(TICK) - distance(origin, next) <= 2);
    let x = next.0 as f64 / 1e6;
    let y = next.1 as f64 / 1e6;
    let x_dst = 50.0 * (0.021221f64).cos();
    let y_dst = 50.0 * (0.021221f64).sin();
    let before = ((-100.0 - x_dst).powi(2) + y_dst.powi(2)).sqrt();
    let after = ((x - x_dst).powi(2) + (y - y_dst).powi(2)).sqrt();
    assert!(after < before - 1e-4);
    assert!((before - after - 100.0 / 60.0).abs() < 1e-4);
}

#[test]
fn angle_is_frozen_while_the_enemy_is_far() {
    let mut formation = approach_formation();
    let before = formation;
    formation.advance((-100 * ONE, 0), TICK);
    assert_eq!(formation.angle, 0);
    assert_eq!(formation, before);
}

#[test]
fn angle_is_frozen_at_the_threshold_itself() {
    let mut formation = approach_formation();
    let goal = formation.target_point(formation.candidate(TICK));
    let threshold: i64 = 8_333_500;
    let at = (goal.0 - threshold, goal.1);
    assert_eq!(distance(at, goal), threshold as u64);
    formation.advance(at, TICK);
    assert_eq!(formation.angle, 0);
    let mut formation = approach_formation();
    let inside = (goal.0 - threshold + 1, goal.1);
    formation.advance(inside, TICK);
    assert_eq!(formation.angle, 21_221);
}

#[test]
fn angle_advances_once_the_enemy_has_caught_up() {
    let mut formation = approach_formation();
    let next = formation.advance((50 * ONE, 0), TICK);
    assert_eq!(formation.angle, 21_221);
    assert_eq!(next, (49_988_742, 1_060_970));

    let mut clockwise = approach_formation();
    clockwise.start = (100 * ONE, 0);
    let next = clockwise.advance((50 * ONE, 0), TICK);
    assert_eq!(clockwise.angle, -21_221);
    assert_eq!(next, (49_988_742, -1_060_970));
}

#[test]
fn an_enemy_close_by_lands_on_the_target() {
    let mut formation = approach_formation();
    let next = formation.advance((49 * ONE, ONE), TICK);
    assert_eq!(next, (49_988_742, 1_060_970));
    assert!((next.0 as f64 / 1e6 - 49.98874).abs() < 1e-4);
    assert!((next.1 as f64 / 1e6 - 1.06095).abs() < 1e-4);
    assert_eq!(formation.angle, 21_221);
    assert!((formation.angle as f64 / 1e6 - 0.0212207).abs() < 1e-6);
}

#[test]
fn a_clockwise_step_from_phase_zero_gives_a_negative_phase() {
    let mut formation = approach_formation();
    formation.start = (100 * ONE, 0);
    let next = formation.advance((49 * ONE, -ONE), TICK);
    assert_eq!(formation.angle, -21_221);
    assert!((formation.angle as f64 / 1e6 + 0.0212207).abs() < 1e-6);
    assert_eq!(next, (49_988_742, -1_060_970));
    assert!((next.0 as f64 / 1e6 - 49.98874).abs() < 1e-4);
    assert!((next.1 as f64 / 1e6 + 1.06095).abs() < 1e-4);
}

#[test]
fn the_phase_is_the_sum_however_many_turns_it_holds() {
    let mut formation = approach_formation();
    formation.angle = 100 * ONE;
    let goal = formation.target_point(formation.candidate(TICK));
    formation.advance(goal, TICK);
    assert_eq!(formation.angle, 100 * ONE + 21_221);
    let mut clockwise = approach_formation();
    clockwise.start = (100 * ONE, 0);
    clockwise.angle = -100 * ONE;
    let goal = clockwise.target_point(clockwise.candidate(TICK));
    clockwise.advance(goal, TICK);
    assert_eq!(clockwise.angle, -100 * ONE - 21_221);
}

#[test]
fn a_phase_that_would_not_fit_is_told_apart() {
    let mut formation = approach_formation();
    assert!(formation.can_turn(TICK));
    assert!(formation.can_turn(u32::MAX));
    formation.angle = i64::MAX - 21_221;
    assert!(formation.can_turn(TICK));
    formation.angle = i64::MAX - 21_220;
    assert!(!formation.can_turn(TICK));
    assert!(formation.can_turn(0));
    formation.start = (100 * ONE, 0);
    assert!(formation.can_turn(TICK));
    formation.angle = i64::MIN + 21_220;
    assert!(!formation.can_turn(TICK));
    formation.angle = i64::MIN + 21_221;
    assert!(formation.can_turn(TICK));
    let mut fast = approach_formation();
    fast.radius = (1, 1);
    fast.speed = FIELD_LIMIT;
    assert!(!fast.can_turn(u32::MAX));
    assert!(fast.can_turn(1));
}

#[test]
fn advance_keeps_everything_but_the_angle() {
    let mut formation = approach_formation();
    formation.advance((50 * ONE, 0), TICK);
    let before = approach_formation();
    assert_eq!(formation.start, before.start);
    assert_eq!(formation.pivot, before.pivot);
    assert_eq!(formation.radius, before.radius);
    assert_eq!(formation.speed, before.speed);
    assert!(formation.is_valid());
}

#[test]
fn no_displacement_at_zero_distance() {
    let mut formation = Formation {
        start: (-100 * ONE, 0),
        pivot: (10 * ONE, -20 * ONE),
        radius: (50 * ONE, 80 * ONE),
        angle: PI,
        speed: 0,
    };
    let on_target = formation.target_point(formation.candidate(TICK));
    assert_eq!(on_target, (-40 * ONE, -19_999_948));
    assert_eq!(formation.advance(on_target, TICK), on_target);
    assert_eq!(formation.angle, PI);
}

#[test]
fn at_zero_distance_a_moving_formation_turns() {
    let mut moving = approach_formation();
    let goal = moving.target_point(moving.candidate(TICK));
    assert_eq!(moving.advance(goal, TICK), goal);
    assert_eq!(moving.angle, 21_221);

    let mut slow = approach_formation();
    slow.speed = 1;
    let goal = slow.target_point(slow.candidate(1));
    assert_eq!(slow.advance(goal, 1), goal);
    assert_eq!(slow.angle, slow.candidate(0));
    assert_eq!(slow.angle, 0);
    let mut clockwise = approach_formation();
    clockwise.start = (100 * ONE, 0);
    clockwise.speed = 1_000;
    let goal = clockwise.target_point(clockwise.candidate(1_000));
    assert_eq!(goal, (50 * ONE, 0));
    assert_eq!(clockwise.advance(goal, 1_000), goal);
    assert_eq!(clockwise.angle, 0);
}

#[test]
fn a_tick_of_no_time_moves_nothing() {
    let mut formation = approach_formation();
    let origin = (-100 * ONE, 3 * ONE);
    assert_eq!(formation.advance(origin, 0), origin);
    assert_eq!(formation.angle, 0);
}

#[test]
fn a_long_tick_does_not_overshoot() {
    let mut formation = approach_formation();
    let dt = u32::MAX;
    let goal = formation.target_point(formation.candidate(dt));
    assert_eq!(formation.advance((-100 * ONE, 0), dt), goal);
}

#[test]
fn repeated_ticks_never_diverge() {
    let mut formation = Formation {
        start: (-100 * ONE, 0),
        pivot: (0, 0),
        radius: (50 * ONE, 80 * ONE),
        angle: PI,
        speed: 100 * ONE,
    };
    let mut position = (-400 * ONE, 30 * ONE);
    let mut farthest = (400 * ONE, 80 * ONE);
    for tick in 0..20_000u32 {
        let dt = if tick % 3 == 0 { 33_333 } else { TICK };
        let next = formation.advance(position, dt);
        assert!(squared_gap(position, next) <= (formation.travel(dt) as i128).pow(2));
        position = next;
        let gap = ((position.0 - formation.pivot.0).abs(), (position.1 - formation.pivot.1).abs());
        assert!(gap.0 <= farthest.0.max(formation.radius.0));
        assert!(gap.1 <= farthest.1.max(formation.radius.1));
        farthest = (gap.0.max(formation.radius.0), gap.1.max(formation.radius.1));
    }
    assert!((position.0 - formation.pivot.0).abs() <= formation.radius.0);
    assert!((position.1 - formation.pivot.1).abs() <= formation.radius.1);
}

#[test]
fn an_enemy_inside_the_radii_stays_inside() {
    let mut formation = Formation {
        start: (100 * ONE, 0),
        pivot: (10 * ONE, -20 * ONE),
        radius: (50 * ONE, 80 * ONE),
        angle: 1_234_567,
        speed: 400 * ONE,
    };
    let mut position = (60 * ONE, 60 * ONE);
    let mut turned = false;
    for tick in 0..5_000u32 {
        let before = formation.angle;
        position = formation.advance(position, 1_000 + 37 * (tick % 900));
        assert!((position.0 - 10 * ONE).abs() <= 50 * ONE);
        assert!((position.1 + 20 * ONE).abs() <= 80 * ONE);
        turned = turned || formation.angle != before;
    }
    assert!(turned);
}

#[test]
fn exact_values_after_many_ticks() {
    let mut formation = Formation {
        start: (-100 * ONE, 0),
        pivot: (0, 0),
        radius: (50 * ONE, 80 * ONE),
        angle: PI,
        speed: 100 * ONE,
    };
    let mut position = (-400 * ONE, 30 * ONE);
    position = formation.advance(position, TICK);
    assert_eq!(position, (-398_340_093, 29_849_677));
    position = formation.advance(position, TICK);
    assert_eq!(position, (-396_680_186, 29_699_354));
    for _ in 2..=500 {
        position = formation.advance(position, TICK);
    }
    assert_eq!(position, (-49_982_211, 2_043_739));
    assert_eq!(formation.angle, 9_401_787);
    for _ in 501..=19_999 {
        position = formation.advance(position, TICK);
    }
    assert_eq!(position, (-30_094_036, 63_886_879));
    assert_eq!(formation.angle, 423_190_066);
}

/// The same tick in floating point, for comparison.
fn float_advance(formation: &mut (f64, f64, f64, f64, f64, f64, f64), position: (f64, f64), dt: f64) -> (f64, f64) {
    let (start_x, pivot_x, pivot_y, radius_x, radius_y, angle, speed) = *formation;
    let max_distance = dt * speed;
    let dir = if start_x < 0. { 1. } else { -1. };
    let next_angle = angle + dir * speed * dt / (radius_x.min(radius_y) * std::f64::consts::PI / 2.);
    let x_dst = radius_x * next_angle.cos() + pivot_x;
    let y_dst = radius_y * next_angle.sin() + pivot_y;
    let dx = position.0 - x_dst;
    let dy = position.1 - y_dst;
    let distance = (dx * dx + dy * dy).sqrt();
    let ratio = if distance != 0. { max_distance / distance } else { 0. };
    let x = position.0 - dx * ratio;
    let x = if dx > 0. { x.max(x_dst) } else { x.min(x_dst) };
    let y = position.1 - dy * ratio;
    let y = if dy > 0. { y.max(y_dst) } else { y.min(y_dst) };
    if distance < max_distance * speed / 20. {
        formation.5 = next_angle;
    }
    (x, y)
}

#[test]
fn fixed_point_ticks_follow_the_floating_point_path() {
    let cases = [
        ((-100, 0), (0, 0), (50, 50), false),
        ((399, -7), (40, 120), (90, 112), false),
        ((-399, 200), (-100, 50), (140, 100), true),
    ];
    for (start, pivot, radius, half_turn) in cases {
        let mut formation = Formation {
            start: (start.0 * ONE, start.1 * ONE),
            pivot: (pivot.0 * ONE, pivot.1 * ONE),
            radius: (radius.0 * ONE, radius.1 * ONE),
            angle: if half_turn { PI } else { 0 },
            speed: 100 * ONE,
        };
        let mut float = (
            start.0 as f64,
            pivot.0 as f64,
            pivot.1 as f64,
            radius.0 as f64,
            radius.1 as f64,
            if half_turn { std::f64::consts::PI } else { 0. },
            100.,
        );
        let mut position = formation.start;
        let mut float_position = (start.0 as f64, start.1 as f64);
        for _ in 0..600 {
            position = formation.advance(position, 20_000);
            float_position = float_advance(&mut float, float_position, 0.02);
            let gap_x = position.0 as f64 / 1e6 - float_position.0;
            let gap_y = position.1 as f64 / 1e6 - float_position.1;
            assert!(gap_x.hypot(gap_y) < 0.05, "{:?} {:?}", position, float_position);
            assert!((formation.angle as f64 / 1e6 - float.5).abs() < 0.001);
        }
    }
}
