use frame_core::timing::{FrameTiming, Tick, TICK_PERIOD};

#[test]
fn new_timing() {
    let timing = FrameTiming::new(1_000);
    assert_eq!(timing.start(), 1_000);
    assert_eq!(timing.last_tick(), 1_000);
    assert_eq!(timing.elapsed(), 0);
    assert_eq!(timing.tick(), 0);
}

#[test]
fn advance_reports_delta_and_elapsed() {
    let mut timing = FrameTiming::new(1_000);
    assert_eq!(timing.advance(1_500), Tick { delta: 500, elapsed: 500, diagnostic: true });
    assert_eq!(timing.advance(4_000), Tick { delta: 2_500, elapsed: 3_000, diagnostic: false });
    assert_eq!(timing.last_tick(), 4_000);
    assert_eq!(timing.elapsed(), 3_000);
    assert_eq!(timing.start(), 1_000);
}

#[test]
fn one_second() {
    let mut timing = FrameTiming::new(0);
    let tick = timing.advance(1_000_000_000);
    assert_eq!(tick.delta, 1_000_000_000);
    assert_eq!(std::time::Duration::from_nanos(tick.delta).as_secs_f32(), 1.0);
}

#[test]
fn a_clock_that_runs_backwards_gives_zero() {
    let mut timing = FrameTiming::new(1_000);
    timing.advance(2_000);
    let tick = timing.advance(1_200);
    assert_eq!(tick.delta, 0);
    assert_eq!(tick.elapsed, 200);
    assert_eq!(timing.last_tick(), 1_200);
    let tick = timing.advance(500);
    assert_eq!(tick.delta, 0);
    assert_eq!(tick.elapsed, 0);
    assert_eq!(timing.elapsed(), 0);
}

#[test]
fn timestamps_at_the_limits() {
    let mut timing = FrameTiming::new(0);
    let tick = timing.advance(u64::MAX);
    assert_eq!(tick.delta, u64::MAX);
    assert_eq!(tick.elapsed, u64::MAX);
    let tick = timing.advance(0);
    assert_eq!(tick.delta, 0);
}

#[test]
fn counter_cycle() {
    let mut timing = FrameTiming::new(0);
    assert!(timing.advance(1).diagnostic);
    assert_eq!(timing.tick(), 2);
    for expected in 3..=TICK_PERIOD {
        assert!(!timing.advance(1).diagnostic);
        assert_eq!(timing.tick(), expected);
    }
    assert_eq!(timing.tick(), 100);
    assert!(timing.advance(1).diagnostic);
    assert_eq!(timing.tick(), 2);
}

#[test]
fn diagnostics_come_once_in_ninety_nine_ticks() {
    let mut timing = FrameTiming::new(0);
    let mut due = Vec::new();
    for i in 0u64..400 {
        if timing.advance(i).diagnostic {
            due.push(i);
        }
        assert!(timing.tick() >= 2 && timing.tick() <= TICK_PERIOD);
    }
    assert_eq!(due, vec![0, 99, 198, 297, 396]);
}

#[test]
fn elapsed_in_whole_microseconds() {
    let mut timing = FrameTiming::new(500);
    assert_eq!(timing.advance(500).elapsed_micros(), 0);
    assert_eq!(timing.advance(1_499).elapsed_micros(), 0);
    assert_eq!(timing.advance(1_500).elapsed_micros(), 1);
    assert_eq!(timing.advance(2_000_000_500).elapsed_micros(), 2_000_000);
    let tick = Tick { delta: 0, elapsed: u64::MAX, diagnostic: false };
    assert_eq!(tick.elapsed_micros(), 18_446_744_073_709_551);
}
