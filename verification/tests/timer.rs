use rope_sim::timer::SpawnTimer;

#[test]
fn a_period_of_two_seconds_in_half_second_steps_fires_every_fourth_tick() {
    let mut timer = SpawnTimer::new(2_000_000).unwrap();
    let mut fired_at = Vec::new();
    for tick in 1..=40u32 {
        if timer.tick(500_000) {
            fired_at.push(tick);
            assert_eq!(timer.elapsed(), 0);
        }
    }
    assert_eq!(fired_at, vec![4, 8, 12, 16, 20, 24, 28, 32, 36, 40]);
}

#[test]
fn a_timer_gathers_what_passes_until_it_fires() {
    let mut timer = SpawnTimer::new(2_000_000).unwrap();
    assert_eq!(timer.period(), 2_000_000);
    assert_eq!(timer.elapsed(), 0);
    assert!(!timer.tick(500_000));
    assert_eq!(timer.elapsed(), 500_000);
    assert!(!timer.tick(1_499_999));
    assert_eq!(timer.elapsed(), 1_999_999);
    assert!(timer.tick(1));
    assert_eq!(timer.elapsed(), 0);
    assert_eq!(timer.period(), 2_000_000);
}

#[test]
fn a_firing_keeps_no_remainder() {
    let mut timer = SpawnTimer::new(2_000_000).unwrap();
    // steps of 0.7 s: the period takes three of them, and the 0.1 s by which
    // the third overshoots is dropped
    let mut fired_at = Vec::new();
    for tick in 1..=12u32 {
        if timer.tick(700_000) {
            fired_at.push(tick);
        }
    }
    assert_eq!(fired_at, vec![3, 6, 9, 12]);
    assert_eq!(timer.elapsed(), 0);
}

#[test]
fn a_long_step_fires_once() {
    let mut timer = SpawnTimer::new(1_000_000).unwrap();
    assert!(timer.tick(10_000_000));
    assert_eq!(timer.elapsed(), 0);
    assert!(!timer.tick(999_999));
    assert!(timer.tick(u64::MAX));
    assert_eq!(timer.elapsed(), 0);
}

#[test]
fn a_step_of_nothing_never_fires() {
    let mut timer = SpawnTimer::new(1).unwrap();
    for _ in 0..10 {
        assert!(!timer.tick(0));
    }
    assert!(timer.tick(1));
}

#[test]
fn a_period_of_zero_is_no_timer() {
    assert!(SpawnTimer::new(0).is_none());
    assert!(SpawnTimer::new(1).is_some());
}
