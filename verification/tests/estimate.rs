use proxy_balance::estimate::Estimate;

#[test]
fn fresh_estimator_uses_default_rtt() {
    let e = Estimate::new(100, 10, 0);
    assert_eq!(e.pending, 0);
    assert_eq!(e.settled_rtt(0), 100);
    assert_eq!(e.settled_rtt(1_000_000), 100);
}

#[test]
fn decay_halves_gap_per_span() {
    let mut e = Estimate::new(100, 10, 0);
    // A low sample becomes the decay target; the figure sinks toward it by
    // halves of the remaining gap, one half per ten nanoseconds.
    e.observe(20, 0);
    assert_eq!(e.settled_rtt(0), 100);
    assert_eq!(e.settled_rtt(9), 100);
    assert_eq!(e.settled_rtt(10), 60); // 20 + 80/2
    assert_eq!(e.settled_rtt(20), 40); // 20 + 80/4
    assert_eq!(e.settled_rtt(30), 30); // 20 + 80/8
    assert_eq!(e.settled_rtt(10_000), 20);
}

#[test]
fn high_sample_jumps_estimate() {
    let mut e = Estimate::new(100, 10, 0);
    e.observe(500, 0);
    assert_eq!(e.settled_rtt(0), 500);
    // And decays toward the peak's own sample value, which became the target.
    assert_eq!(e.settled_rtt(10_000), 500);
}

#[test]
fn settle_preserves_decay_phase() {
    let mut e = Estimate::new(100, 7, 0);
    e.observe(0, 0);
    e.settle(10);
    // One whole span of seven consumed; the mark advances to 7, not 10.
    assert_eq!(e.last_update, 7);
}

#[test]
fn cost_multiplies_pending_and_divides_weight() {
    let mut e = Estimate::new(100, 10, 0);
    assert_eq!(e.cost(1, 0), 100); // (pending 0 + 1) * 100
    e.start();
    e.start();
    assert_eq!(e.pending, 2);
    assert_eq!(e.cost(1, 0), 300); // (2 + 1) * 100
    assert_eq!(e.cost(2, 0), 150);
    assert_eq!(e.cost(7, 0), 42); // 300 / 7, integer division
}

#[test]
fn pending_conservation_over_a_session() {
    // Dispatch, completion and cancellation each move the pending count by
    // exactly one; a balanced session returns it to zero.
    let mut e = Estimate::new(100, 10, 0);
    e.start();
    e.start();
    e.start();
    assert_eq!(e.pending, 3);
    e.end(40, 5);
    assert_eq!(e.pending, 2);
    e.cancel();
    assert_eq!(e.pending, 1);
    e.end(90, 6);
    assert_eq!(e.pending, 0);
}

#[test]
fn lazy_decay_matches_eager() {
    // Settling twice along the way leaves exactly the state of settling once
    // at the end.
    let mut lazy = Estimate::new(100, 10, 0);
    lazy.observe(20, 0);
    lazy.settle(15);
    lazy.settle(37);

    let mut eager = Estimate::new(100, 10, 0);
    eager.observe(20, 0);
    eager.settle(37);

    assert_eq!(lazy, eager);
    assert_eq!(lazy.settled_rtt(37), 30); // 20 + 80/8
    assert_eq!(lazy.last_update, 30);
}

#[test]
fn cancel_takes_no_sample() {
    let mut e = Estimate::new(100, 10, 0);
    e.start();
    e.cancel();
    assert_eq!(e.settled_rtt(0), 100);
    assert_eq!(e.target, 100);
}
