use pi_series::driver::{Driver, StopPolicy, BATCH_SIZE, DEADLINE_NANOS, FIXED_COUNT};
use pi_series::series::LeibnizPiCalc;

#[test]
fn deadline_run_is_a_positive_multiple_of_the_batch() {
    let mut d = Driver::new(StopPolicy::Deadline(DEADLINE_NANOS));
    // A simulated clock that advances 300 ms per batch.
    let mut elapsed: u128 = 0;
    loop {
        let k = d.next_batch();
        assert_eq!(k, BATCH_SIZE);
        assert!(d.record_batch());
        elapsed += 300_000_000;
        if d.should_stop(elapsed) {
            break;
        }
    }
    assert!(d.updates > 0);
    assert_eq!(d.updates % BATCH_SIZE, 0);
    assert!(elapsed > DEADLINE_NANOS as u128);
    // Four batches of 300 ms pass the one-second deadline.
    assert_eq!(d.updates, 40_000);
}

#[test]
fn deadline_run_never_stops_before_its_first_batch() {
    let d = Driver::new(StopPolicy::Deadline(DEADLINE_NANOS));
    // Even a clock far past the deadline does not stop a run that has
    // not completed a batch yet.
    assert!(!d.should_stop(2_000_000_000));
}

#[test]
fn fixed_count_run_performs_exactly_the_configured_updates() {
    let mut d = Driver::new(StopPolicy::FixedCount(FIXED_COUNT));
    assert_eq!(d.next_batch(), FIXED_COUNT);
    assert!(d.record_batch());
    // The clock plays no part under this policy.
    assert!(d.should_stop(0));
    assert_eq!(d.updates, FIXED_COUNT);
    // Once the target is reached no further batch is handed out.
    assert_eq!(d.next_batch(), 0);
}

#[test]
fn fixed_count_run_count_matches_the_derivation_formula() {
    // A small fixed-count run driving a real accumulator: the reported
    // iteration count at the end is derived from the position alone and
    // matches the number of update calls.
    let mut d = Driver::new(StopPolicy::FixedCount(5));
    let mut l = LeibnizPiCalc::new();
    loop {
        let k = d.next_batch();
        for _ in 0..k {
            assert!(l.update());
        }
        assert!(d.record_batch());
        if d.should_stop(0) {
            break;
        }
    }
    assert_eq!(d.updates, 5);
    assert_eq!(l.iterations(), 5);
}
