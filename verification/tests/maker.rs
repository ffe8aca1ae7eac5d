use space_shooter::fixed::ONE;
use space_shooter::formation::Formation;
use space_shooter::maker::{
    entering, spawn_allowed, Draws, FormationMaker, BASE_SPEED, MAX_ENEMIES, MAX_WINDOW,
    MIN_WINDOW, SPAWN_MARGIN,
};
use space_shooter::trig::PI;

const W: i64 = 598 * ONE;
const H: i64 = 676 * ONE;

fn check_entry(formation: &Formation, w: i64, h: i64, from_left: bool) {
    assert!(formation.is_valid());
    let entry = w / 2 + SPAWN_MARGIN;
    assert_eq!(formation.start.0, if from_left { -entry } else { entry });
    assert!(formation.start.1 >= -(h / 2 + SPAWN_MARGIN));
    assert!(formation.start.1 < h / 2 + SPAWN_MARGIN);
    assert!(formation.pivot.0.abs() <= w / 4);
    assert!(formation.pivot.1 >= 0 && formation.pivot.1 <= h / 3);
    assert!(formation.radius.0 >= w / 8 && formation.radius.0 <= w / 4);
    assert_eq!(formation.radius.1, h / 6);
    assert!(2 * (formation.pivot.0 - formation.radius.0) >= -w);
    assert!(2 * (formation.pivot.0 + formation.radius.0) <= w);
    assert!(2 * (formation.pivot.1 - formation.radius.1) >= -h);
    assert!(2 * (formation.pivot.1 + formation.radius.1) <= h);
    assert_eq!(formation.angle, if from_left { PI } else { 0 });
    assert_eq!(formation.speed, BASE_SPEED);
}

#[test]
fn constants_of_the_maker() {
    assert_eq!(SPAWN_MARGIN, 100 * ONE);
    assert_eq!(BASE_SPEED, 100 * ONE);
    assert_eq!(MAX_ENEMIES, 2);
}

#[test]
fn draws_in_range_are_taken_as_they_are() {
    let draws = Draws { start_y: -7 * ONE, pivot_x: 40 * ONE, pivot_y: 120 * ONE, radius_x: 90 * ONE };
    assert_eq!(
        entering((W, H), true, draws),
        Formation {
            start: (-399 * ONE, -7 * ONE),
            pivot: (40 * ONE, 120 * ONE),
            radius: (90 * ONE, 112_666_666),
            angle: PI,
            speed: 100 * ONE,
        }
    );
    assert_eq!(
        entering((W, H), false, draws),
        Formation {
            start: (399 * ONE, -7 * ONE),
            pivot: (40 * ONE, 120 * ONE),
            radius: (90 * ONE, 112_666_666),
            angle: 0,
            speed: 100 * ONE,
        }
    );
}

#[test]
fn draws_out_of_range_count_as_the_nearest_value() {
    let low = Draws { start_y: i64::MIN, pivot_x: i64::MIN, pivot_y: i64::MIN, radius_x: i64::MIN };
    assert_eq!(
        entering((W, H), true, low),
        Formation {
            start: (-399 * ONE, -438 * ONE),
            pivot: (-149_500_000, 0),
            radius: (74_750_000, 112_666_666),
            angle: PI,
            speed: 100 * ONE,
        }
    );
    let high = Draws { start_y: i64::MAX, pivot_x: i64::MAX, pivot_y: i64::MAX, radius_x: i64::MAX };
    assert_eq!(
        entering((W, H), false, high),
        Formation {
            start: (399 * ONE, 438 * ONE - 1),
            pivot: (149_500_000, 225_333_333),
            radius: (149_500_000, 112_666_666),
            angle: 0,
            speed: 100 * ONE,
        }
    );
}

#[test]
fn windows_out_of_range_count_as_the_nearest_size() {
    let draws = Draws { start_y: 0, pivot_x: 0, pivot_y: 0, radius_x: 0 };
    let tiny = entering((0, -5), true, draws);
    assert_eq!(tiny, entering((MIN_WINDOW, MIN_WINDOW), true, draws));
    check_entry(&tiny, MIN_WINDOW, MIN_WINDOW, true);
    let huge = entering((i64::MAX, i64::MAX), false, draws);
    assert_eq!(huge, entering((MAX_WINDOW, MAX_WINDOW), false, draws));
    check_entry(&huge, MAX_WINDOW, MAX_WINDOW, false);
}

#[test]
fn made_formations_fit_the_window() {
    let mut maker = FormationMaker::seeded(7);
    let mut from_left = true;
    for _ in 0..200 {
        assert_eq!(maker.next_from_left(), from_left);
        let formation = maker.make(W, H);
        check_entry(&formation, W, H, from_left);
        from_left = !from_left;
    }
}

#[test]
fn made_formations_alternate_sides() {
    let mut maker = FormationMaker::seeded(1);
    assert!(maker.next_from_left());
    let first = maker.make(W, H);
    let second = maker.make(W, H);
    let third = maker.make(W, H);
    assert!(first.start.0 < 0);
    assert!(second.start.0 > 0);
    assert!(third.start.0 < 0);
}

#[test]
fn made_formations_fit_windows_of_any_size() {
    let mut maker = FormationMaker::seeded(99);
    for (w, h) in [(0, 0), (-1, 5), (MIN_WINDOW, MIN_WINDOW), (8, 3), (MAX_WINDOW, 1), (i64::MAX, i64::MIN)] {
        let from_left = maker.next_from_left();
        let formation = maker.make(w, h);
        let w = w.clamp(MIN_WINDOW, MAX_WINDOW);
        let h = h.clamp(MIN_WINDOW, MAX_WINDOW);
        check_entry(&formation, w, h, from_left);
    }
}

#[test]
fn draws_vary_from_make_to_make() {
    let mut maker = FormationMaker::seeded(3);
    let mut heights = std::collections::HashSet::new();
    let mut pivots = std::collections::HashSet::new();
    let mut radii = std::collections::HashSet::new();
    for _ in 0..64 {
        let formation = maker.make(W, H);
        heights.insert(formation.start.1);
        pivots.insert(formation.pivot);
        radii.insert(formation.radius.0);
    }
    assert!(heights.len() > 32);
    assert!(pivots.len() > 32);
    assert!(radii.len() > 32);
}

#[test]
fn the_same_seed_gives_the_same_formations() {
    let mut a = FormationMaker::seeded(42);
    let mut b = FormationMaker::seeded(42);
    let mut c = FormationMaker::seeded(43);
    let mut differs = false;
    for _ in 0..32 {
        let fa = a.make(W, H);
        assert_eq!(fa, b.make(W, H));
        differs = differs || fa != c.make(W, H);
    }
    assert!(differs);
}

#[test]
fn a_made_formation_can_be_flown() {
    let mut maker = FormationMaker::seeded(5);
    for _ in 0..8 {
        let mut formation = maker.make(W, H);
        let mut position = formation.start;
        for _ in 0..3_000 {
            position = formation.advance(position, 16_667);
        }
        assert!((position.0 - formation.pivot.0).abs() <= formation.radius.0);
        assert!((position.1 - formation.pivot.1).abs() <= formation.radius.1);
        assert!(position.0.abs() <= W / 2 && position.1.abs() <= H / 2);
    }
}

#[test]
fn at_most_two_enemies_at_once() {
    assert!(spawn_allowed(0));
    assert!(spawn_allowed(1));
    assert!(!spawn_allowed(2));
    assert!(!spawn_allowed(3));
    assert!(!spawn_allowed(usize::MAX));
}
