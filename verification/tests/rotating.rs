use proxy_balance::rotating::{Clear, Rotating, Tally};
use proxy_balance::Duration;

const SEC: u64 = 1_000_000_000;

fn window(period_secs: u64) -> Rotating<Tally> {
    Rotating::new(Duration::from_secs(period_secs), Tally::new(), Tally::new())
}

#[test]
fn duration_as_nanos_exact() {
    assert_eq!(
        Rotating::<Tally>::duration_as_nanos(&Duration::from_secs(10)),
        10 * SEC
    );
    assert_eq!(
        Rotating::<Tally>::duration_as_nanos(&Duration::from_millis(1500)),
        1_500_000_000
    );
    assert_eq!(
        Rotating::<Tally>::duration_as_nanos(&Duration::from_nanos(1_234_567_891)),
        1_234_567_891
    );
    assert_eq!(Duration::from_nanos(1_234_567_891).as_nanos(), 1_234_567_891);
}

#[test]
fn no_rotation_before_one_period() {
    let mut r = window(10);
    r.write.count = 5;
    r.read.count = 3;
    r.maybe_rotate_at(10 * SEC - 1);
    assert_eq!(r.read.count, 3);
    assert_eq!(r.write.count, 5);
    assert_eq!(r.last_rotation, 0);
}

#[test]
fn one_period_swaps_and_clears_write() {
    let mut r = window(10);
    r.write.count = 5;
    r.read.count = 3;
    r.maybe_rotate_at(15 * SEC);
    assert_eq!(r.read.count, 5);
    assert_eq!(r.write.count, 0);
    assert_eq!(r.last_rotation, 10 * SEC);
}

#[test]
fn two_periods_clear_both_slots() {
    let mut r = window(10);
    r.write.count = 5;
    r.read.count = 3;
    r.maybe_rotate_at(25 * SEC);
    assert_eq!(r.read.count, 0);
    assert_eq!(r.write.count, 0);
    assert_eq!(r.last_rotation, 20 * SEC);
}

#[test]
fn lazy_rotation_matches_eager() {
    // Settling at 15 s and then at 25 s leaves the same observable window as
    // settling once at 25 s: the write slot's data is by then older than one
    // full period, so both slots end empty either way.
    let mut lazy = window(10);
    lazy.write.count = 5;
    lazy.maybe_rotate_at(15 * SEC);
    lazy.maybe_rotate_at(25 * SEC);

    let mut eager = window(10);
    eager.write.count = 5;
    eager.maybe_rotate_at(25 * SEC);

    assert_eq!(lazy.last_rotation, eager.last_rotation);
    assert_eq!(lazy.read.count, eager.read.count);
    assert_eq!(lazy.write.count, eager.write.count);
}

#[test]
fn phase_never_drifts() {
    let mut r = window(10);
    let offsets = [3 * SEC, 10 * SEC + 7, 19 * SEC, 20 * SEC + 123, 55 * SEC + 1];
    for now in offsets {
        r.maybe_rotate_at(now);
        assert_eq!(r.last_rotation % (10 * SEC), 0);
    }
    assert_eq!(r.last_rotation, 50 * SEC);
}

#[test]
fn handles_accumulate_and_read() {
    let mut r = window(600);
    r.write().record();
    r.write().record();
    assert_eq!(r.write.count, 2);
    assert_eq!(r.read().count, 0);
}

#[test]
fn tally_clears() {
    let mut t = Tally::new();
    t.record();
    assert_eq!(t.count, 1);
    t.clear();
    assert_eq!(t.count, 0);
}
