use proxy_balance::balance::{layer, Balancer, Change, NoEndpoints, Service};
use proxy_balance::weight::Weight;
use proxy_balance::Duration;

fn service() -> Service {
    layer(Duration::from_secs(1), Duration::from_secs(666)).layer().make()
}

fn w1() -> Weight {
    Weight::default()
}

#[test]
fn insert_and_remove_track_membership() {
    let mut b = Balancer::new(100, 10);
    b.update(Change::Insert(7, w1()), 0);
    b.update(Change::Insert(9, w1()), 0);
    assert_eq!(b.endpoints.len(), 2);
    assert_eq!(b.endpoints[0].key, 7);
    assert_eq!(b.endpoints[1].key, 9);

    // Re-inserting a live key replaces the endpoint in place.
    b.dispatch(7);
    assert_eq!(b.endpoints[0].load.pending, 1);
    b.update(Change::Insert(7, w1()), 0);
    assert_eq!(b.endpoints.len(), 2);
    assert_eq!(b.endpoints[0].load.pending, 0);

    b.update(Change::Remove(7), 0);
    assert_eq!(b.endpoints.len(), 1);
    assert_eq!(b.endpoints[0].key, 9);

    // Removing an unknown key is a no-op.
    b.update(Change::Remove(42), 0);
    assert_eq!(b.endpoints.len(), 1);
}

#[test]
fn single_endpoint_is_selected_directly() {
    let mut b = Balancer::new(100, 10);
    b.update(Change::Insert(7, w1()), 0);
    for _ in 0..32 {
        assert_eq!(b.select(0), Some(7));
    }
}

#[test]
fn selection_declines_without_ready_endpoints() {
    let mut b = Balancer::new(100, 10);
    assert_eq!(b.select(0), None);
    assert!(!b.poll_ready());

    b.update(Change::Insert(7, w1()), 0);
    assert!(b.poll_ready());
    b.set_ready(7, false);
    assert!(!b.poll_ready());
    assert_eq!(b.select(0), None);
    b.set_ready(7, true);
    assert_eq!(b.select(0), Some(7));
}

#[test]
fn skewed_draw_always_picks_lighter_endpoint() {
    let mut b = Balancer::new(100, 10);
    b.update(Change::Insert(1, w1()), 0);
    b.update(Change::Insert(2, w1()), 0);
    // Load endpoint 2 with pending work; with two endpoints every draw
    // includes both, so selection must always pick endpoint 1.
    b.dispatch(2);
    b.dispatch(2);
    for _ in 0..64 {
        assert_eq!(b.select(0), Some(1));
    }
}

#[test]
fn equal_load_selection_is_roughly_fair() {
    let mut b = Balancer::new(100, 10);
    b.update(Change::Insert(1, w1()), 0);
    b.update(Change::Insert(2, w1()), 0);
    let mut first: u32 = 0;
    let mut second: u32 = 0;
    for _ in 0..2000 {
        match b.select(0) {
            Some(1) => first += 1,
            Some(2) => second += 1,
            other => panic!("unexpected selection {:?}", other),
        }
    }
    // Each endpoint should win roughly half of 2000 draws; 600 is a very
    // generous statistical floor.
    assert!(first >= 600, "endpoint 1 chosen only {} times", first);
    assert!(second >= 600, "endpoint 2 chosen only {} times", second);
}

#[test]
fn weight_divides_effective_load() {
    let mut b = Balancer::new(100, 10);
    b.update(Change::Insert(1, Weight::new(1)), 0);
    b.update(Change::Insert(2, Weight::new(1000)), 0);
    // Equal raw loads, but endpoint 2's weight divides its figure down, so
    // it must win every draw.
    for _ in 0..64 {
        assert_eq!(b.select(0), Some(2));
    }
    assert_eq!(Weight::new(4).apply(100), 25);
    assert_eq!(Weight::default().units, 1);
}

#[test]
fn empty_set_fails_fast_with_no_endpoints() {
    let mut s = service();
    assert!(s.endpoint_status());
    let r = s.call(0);
    assert_eq!(r, Err(NoEndpoints {}));
    // No dispatch was attempted and no state was touched.
    assert_eq!(s.balancer.endpoints.len(), 0);
    assert!(s.status_empty);
    assert_eq!(
        NoEndpoints {}.message(),
        "load balancer has no endpoints"
    );
}

#[test]
fn dispatch_bumps_pending_exactly_once() {
    let mut s = service();
    s.update(Change::Insert(5, w1()), 0);
    assert!(!s.endpoint_status());
    let r = s.call(0);
    assert_eq!(r, Ok(5));
    assert_eq!(s.balancer.endpoints[0].load.pending, 1);
    s.balancer.first_byte(5, 1_000, 10);
    assert_eq!(s.balancer.endpoints[0].load.pending, 0);
    assert_eq!(s.balancer.endpoints[0].load.target, 1_000);
}

#[test]
fn cancellation_resolves_pending() {
    let mut s = service();
    s.update(Change::Insert(5, w1()), 0);
    let _ = s.call(0);
    let _ = s.call(0);
    assert_eq!(s.balancer.endpoints[0].load.pending, 2);
    s.balancer.cancel(5);
    s.balancer.cancel(5);
    assert_eq!(s.balancer.endpoints[0].load.pending, 0);
}

#[test]
fn layer_carries_configuration() {
    let l = layer(Duration::from_millis(300), Duration::from_secs(10));
    assert_eq!(l.default_rtt, 300_000_000);
    assert_eq!(l.decay, 10_000_000_000);
    let m = l.layer();
    let s = m.make();
    assert_eq!(s.balancer.default_rtt, 300_000_000);
    assert_eq!(s.balancer.decay, 10_000_000_000);
    assert!(s.balancer.endpoints.is_empty());
}

#[test]
fn terminal_discovery_failure_stops_the_service() {
    let mut s = service();
    s.update(Change::Insert(5, w1()), 0);
    assert!(s.poll_ready());
    s.note_discovery_failure();
    assert!(!s.poll_ready());
    assert!(s.failed);
    // Membership bookkeeping is untouched by the failure mark.
    assert_eq!(s.balancer.endpoints.len(), 1);
}
