use rope_sim::config::Config;
use rope_sim::fixed::{ONE, WORLD_LIMIT};
use rope_sim::rope::{Rope, RopeError};
use rope_sim::vec2::Vec2;

fn straight_rope() -> Rope {
    Rope::new(Vec2::new(0, 0), Vec2::new(50 * ONE, 0), 5).unwrap()
}

fn positions(rope: &Rope) -> Vec<(i64, i64)> {
    rope.points().iter().map(|p| (p.x, p.y)).collect()
}

fn previous(rope: &Rope) -> Vec<(i64, i64)> {
    (0..rope.len()).map(|i| (rope.prev_point(i).x, rope.prev_point(i).y)).collect()
}

#[test]
fn five_points_between_zero_and_fifty_are_spaced_twelve_and_a_half() {
    let rope = straight_rope();
    assert_eq!(rope.len(), 5);
    assert_eq!(rope.segment_length(), 12_500_000);
    for i in 0..5 {
        assert_eq!(rope.point(i), Vec2::new(12_500_000 * i as i64, 0));
        assert_eq!(rope.prev_point(i), rope.point(i));
    }
    for i in 0..4 {
        assert_eq!(rope.point(i + 1).distance(rope.point(i)), 12_500_000);
    }
    assert_eq!(rope.anchor(), Vec2::new(0, 0));
    assert_eq!(rope.thickness(), 6 * ONE);
    assert_eq!(rope.elasticity(), 5 * ONE);
}

#[test]
fn a_slanted_rope_is_spread_evenly() {
    let rope = Rope::new(Vec2::new(10 * ONE, -20 * ONE), Vec2::new(40 * ONE, 20 * ONE), 3).unwrap();
    assert_eq!(rope.segment_length(), 25 * ONE);
    assert_eq!(positions(&rope), vec![(10 * ONE, -20 * ONE), (25 * ONE, 0), (40 * ONE, 20 * ONE)]);
}

#[test]
fn a_rope_of_fewer_than_two_points_is_rejected() {
    let (a, b) = (Vec2::new(0, 0), Vec2::new(50 * ONE, 0));
    assert_eq!(Rope::new(a, b, 1).err(), Some(RopeError::TooFewPoints));
    assert_eq!(Rope::new(a, b, 0).err(), Some(RopeError::TooFewPoints));
    assert!(Rope::new(a, b, 2).is_ok());
    assert_eq!(Rope::with_tuning(a, b, 1, -1, 0).err(), Some(RopeError::TooFewPoints));
}

#[test]
fn tuning_out_of_range_is_rejected() {
    let (a, b) = (Vec2::new(0, 0), Vec2::new(50 * ONE, 0));
    assert_eq!(Rope::with_tuning(a, b, 5, -1, 5 * ONE).err(), Some(RopeError::Thickness));
    assert_eq!(Rope::with_tuning(a, b, 5, WORLD_LIMIT + 1, 0).err(), Some(RopeError::Thickness));
    assert_eq!(Rope::with_tuning(a, b, 5, 6 * ONE, 0).err(), Some(RopeError::Elasticity));
    assert_eq!(Rope::with_tuning(a, b, 5, 6 * ONE, -ONE).err(), Some(RopeError::Elasticity));
    assert_eq!(Rope::with_tuning(a, b, 5, 6 * ONE, WORLD_LIMIT + 1).err(), Some(RopeError::Elasticity));
    let rope = Rope::with_tuning(a, b, 5, 0, WORLD_LIMIT).unwrap();
    assert_eq!(rope.thickness(), 0);
    assert_eq!(rope.elasticity(), WORLD_LIMIT);
}

#[test]
fn a_rope_between_two_equal_points_lies_on_one_point() {
    let rope = Rope::new(Vec2::new(7 * ONE, 7 * ONE), Vec2::new(7 * ONE, 7 * ONE), 4).unwrap();
    assert_eq!(rope.segment_length(), 0);
    assert_eq!(positions(&rope), vec![(7 * ONE, 7 * ONE); 4]);
}

#[test]
fn ends_outside_the_world_are_moved_into_it() {
    let rope = Rope::new(Vec2::new(i64::MIN, 0), Vec2::new(i64::MAX, 0), 3).unwrap();
    assert_eq!(positions(&rope), vec![(-WORLD_LIMIT, 0), (0, 0), (WORLD_LIMIT, 0)]);
    assert_eq!(rope.segment_length(), WORLD_LIMIT);
}

#[test]
fn a_pass_over_a_rope_at_rest_moves_nothing() {
    let mut rope = straight_rope();
    let before = positions(&rope);
    rope.relax_pass();
    assert_eq!(positions(&rope), before);
    rope.constrain_points(15);
    assert_eq!(positions(&rope), before);

    let mut slanted = Rope::new(Vec2::new(0, 0), Vec2::new(30 * ONE, 40 * ONE), 5).unwrap();
    let before = positions(&slanted);
    slanted.relax_pass();
    assert_eq!(positions(&slanted), before);
}

#[test]
fn points_on_one_place_are_not_corrected() {
    let mut rope = Rope::new(Vec2::new(7 * ONE, 7 * ONE), Vec2::new(7 * ONE, 7 * ONE), 4).unwrap();
    rope.relax_pass();
    assert_eq!(positions(&rope), vec![(7 * ONE, 7 * ONE); 4]);
    // a rope whose points coincide while its rest length is not zero
    let mut rope = straight_rope();
    for _ in 0..3 {
        rope.pin(Vec2::new(12_500_000, 0));
    }
    assert_eq!(rope.point(0), rope.point(1));
    rope.relax_pass();
    // the first pair has no direction and is left alone; the others are at rest
    assert_eq!(positions(&rope), vec![(12_500_000, 0), (12_500_000, 0), (25_000_000, 0), (37_500_000, 0), (50_000_000, 0)]);
}

#[test]
fn a_pass_pulls_the_points_toward_a_moved_anchor() {
    let mut rope = straight_rope();
    rope.pin(Vec2::new(0, 10 * ONE));
    rope.relax_pass();
    assert_eq!(
        positions(&rope),
        vec![(0, 10_000_000), (12_063_147, 434_535), (24_911_220, 3_721), (37_482_244, 6), (49_995_562, 0)]
    );
}

#[test]
fn the_anchor_is_pinned_after_the_relaxation() {
    let mut rope = straight_rope();
    let config = Config::default();
    rope.update(Vec2::new(0, 10 * ONE), &config);
    // the rope was at rest, so only the anchor has moved
    assert_eq!(
        positions(&rope),
        vec![(0, 10_000_000), (12_500_000, 0), (25_000_000, 0), (37_500_000, 0), (50_000_000, 0)]
    );
    rope.update(Vec2::new(0, 10 * ONE), &config);
    assert_eq!(
        positions(&rope),
        vec![(0, 10_000_000), (11_076_532, 2_623_833), (23_879_885, 308_594), (36_725_507, 16_803), (49_379_843, 341)]
    );
    assert_eq!(
        previous(&rope),
        vec![(0, 0), (12_500_000, 0), (25_000_000, 0), (37_500_000, 0), (50_000_000, 0)]
    );
}

#[test]
fn integration_carries_each_point_on_by_its_damped_velocity() {
    let mut rope = straight_rope();
    let config = Config::default();
    rope.update(Vec2::new(0, 10 * ONE), &config);
    rope.update(Vec2::new(0, 10 * ONE), &config);
    rope.integrate(config.damping);
    assert_eq!(
        positions(&rope),
        vec![(0, 10_000_000), (9_664_362, 5_226_841), (22_768_660, 614_738), (35_957_161, 33_472), (48_764_608, 679)]
    );
    assert_eq!(
        previous(&rope),
        vec![(0, 0), (11_076_532, 2_623_833), (23_879_885, 308_594), (36_725_507, 16_803), (49_379_843, 341)]
    );
}

#[test]
fn a_tick_is_integration_then_rounds_of_passes_then_the_pin() {
    let config = Config::default();
    let mut whole = straight_rope();
    let mut parts = straight_rope();
    for t in 0..20i64 {
        let target = Vec2::new(3 * t * ONE, -2 * t * ONE);
        whole.update(target, &config);
        parts.integrate(config.damping);
        for _ in 0..config.substeps {
            parts.constrain_points(config.inner_iterations);
        }
        parts.pin(target);
        assert_eq!(positions(&whole), positions(&parts));
        assert_eq!(previous(&whole), previous(&parts));
    }
}

#[test]
fn rounds_of_passes_are_as_many_single_passes() {
    let mut by_rounds = straight_rope();
    let mut by_passes = straight_rope();
    by_rounds.pin(Vec2::new(-20 * ONE, 35 * ONE));
    by_passes.pin(Vec2::new(-20 * ONE, 35 * ONE));
    for _ in 0..5 {
        by_rounds.constrain_points(3);
    }
    for _ in 0..15 {
        by_passes.relax_pass();
    }
    assert_eq!(positions(&by_rounds), positions(&by_passes));
}

#[test]
fn a_rope_at_rest_on_its_target_stays_as_it_is() {
    let mut rope = straight_rope();
    let config = Config::default();
    let before = positions(&rope);
    for _ in 0..100 {
        rope.update(Vec2::new(0, 0), &config);
    }
    assert_eq!(positions(&rope), before);
    assert_eq!(previous(&rope), before);
}

#[test]
fn a_held_rope_settles_at_its_rest_length() {
    let mut rope = straight_rope();
    let config = Config::default();
    for _ in 0..3000 {
        rope.update(Vec2::new(30 * ONE, 40 * ONE), &config);
    }
    assert_eq!(rope.anchor(), Vec2::new(30 * ONE, 40 * ONE));
    for i in 0..4 {
        let spacing = rope.point(i + 1).distance(rope.point(i));
        assert!((spacing - rope.segment_length()).abs() <= 10, "segment {} is {} long", i, spacing);
    }
    // it has come to rest as well
    let settled = positions(&rope);
    rope.update(Vec2::new(30 * ONE, 40 * ONE), &config);
    for (now, then) in positions(&rope).iter().zip(settled.iter()) {
        assert!((now.0 - then.0).abs() <= 10 && (now.1 - then.1).abs() <= 10);
    }
}

#[test]
fn a_softer_rope_is_corrected_less() {
    let (a, b) = (Vec2::new(0, 0), Vec2::new(50 * ONE, 0));
    let mut stiff = Rope::with_tuning(a, b, 5, 6 * ONE, ONE).unwrap();
    let mut soft = Rope::with_tuning(a, b, 5, 6 * ONE, 50 * ONE).unwrap();
    stiff.pin(Vec2::new(0, 10 * ONE));
    soft.pin(Vec2::new(0, 10 * ONE));
    stiff.relax_pass();
    soft.relax_pass();
    assert_eq!(
        positions(&stiff),
        vec![(0, 10_000_000), (12_627_260, 1_779_138), (25_004_493, 335_168), (37_500_156, 62_622), (47_128_952, 14_383)]
    );
    assert_eq!(
        positions(&soft),
        vec![(0, 10_000_000), (12_446_315, 43_823), (24_998_924, 3), (37_499_979, 0), (50_000_000, 0)]
    );
}

#[test]
fn an_elasticity_of_one_brings_a_pair_to_rest_at_once() {
    let mut rope = Rope::with_tuning(Vec2::new(0, 0), Vec2::new(50 * ONE, 0), 2, 6 * ONE, ONE).unwrap();
    rope.pin(Vec2::new(0, 10 * ONE));
    rope.relax_pass();
    assert_eq!(positions(&rope), vec![(0, 10_000_000), (49_029_034, 194_193)]);
    assert_eq!(rope.point(1).distance(rope.point(0)), 50 * ONE);
}

#[test]
fn the_number_of_points_and_the_tuning_never_change() {
    let mut rope = Rope::with_tuning(Vec2::new(0, 0), Vec2::new(90 * ONE, 0), 10, 4 * ONE, 3 * ONE).unwrap();
    let config = Config::default();
    for t in 0..50i64 {
        rope.update(Vec2::new(t * 7 * ONE, t * t * ONE), &config);
        assert_eq!(rope.len(), 10);
        assert_eq!(rope.points().len(), 10);
        assert_eq!(rope.segment_length(), 10 * ONE);
        assert_eq!(rope.thickness(), 4 * ONE);
        assert_eq!(rope.elasticity(), 3 * ONE);
        assert_eq!(rope.anchor(), Vec2::new(t * 7 * ONE, t * t * ONE));
    }
}

#[test]
fn a_target_outside_the_world_pins_the_anchor_to_the_border() {
    let mut rope = straight_rope();
    rope.update(Vec2::new(i64::MAX, i64::MIN), &Config::default());
    assert_eq!(rope.anchor(), Vec2::new(WORLD_LIMIT, -WORLD_LIMIT));
    for _ in 0..50 {
        rope.update(Vec2::new(i64::MAX, i64::MIN), &Config::default());
    }
    for p in rope.points() {
        assert!(p.x.abs() <= WORLD_LIMIT && p.y.abs() <= WORLD_LIMIT);
    }
}

#[test]
fn no_substeps_leave_the_rope_unrelaxed() {
    let mut rope = straight_rope();
    let mut config = Config::default();
    config.substeps = 0;
    rope.update(Vec2::new(0, 10 * ONE), &config);
    rope.update(Vec2::new(0, 10 * ONE), &config);
    assert_eq!(
        positions(&rope),
        vec![(0, 10_000_000), (12_500_000, 0), (25_000_000, 0), (37_500_000, 0), (50_000_000, 0)]
    );
}

#[test]
fn the_ends_are_drawn_thicker() {
    let rope = straight_rope();
    assert_eq!(rope.point_radius(0), 6 * ONE);
    assert_eq!(rope.point_radius(1), 3 * ONE);
    assert_eq!(rope.point_radius(3), 3 * ONE);
    assert_eq!(rope.point_radius(4), 6 * ONE);
    let heap = Rope::new(Vec2::new(0, 0), Vec2::new(0, 0), 3).unwrap();
    assert_eq!(heap.point_radius(1), 6 * ONE);
}
