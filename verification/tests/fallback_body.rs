use proxy_balance::balance::{self, Change};
use proxy_balance::body::{Body, Buf, ByteCursor, ChunkBody, Payload, Response};
use proxy_balance::fallback::{layer, Config, Target};
use proxy_balance::weight::Weight;
use proxy_balance::Duration;

fn composer() -> proxy_balance::fallback::Composer {
    let bal = balance::layer(Duration::from_secs(1), Duration::from_secs(666));
    layer(Config::new(666, 60_000_000_000), bal).layer().make()
}

#[test]
fn fallback_layer_carries_configuration() {
    let c = composer();
    assert_eq!(c.config.capacity, 666);
    assert_eq!(c.config.max_idle_nanos, 60_000_000_000);
    assert_eq!(c.service.balancer.decay, 666_000_000_000);
}

#[test]
fn routing_transitions_with_membership() {
    let mut c = composer();

    // Zero endpoints: requests go to the fallback path.
    assert!(c.routes_to_fallback());
    assert!(!c.poll_ready());
    assert_eq!(c.call(0), Target::Fallback);

    // An insert arrives: subsequent requests route to the balancer.
    c.update(Change::Insert(7, Weight::default()), 0);
    assert!(!c.routes_to_fallback());
    assert!(c.poll_ready());
    assert_eq!(c.call(0), Target::Balanced(7));

    // Removing the last endpoint reverts routing to the fallback.
    c.update(Change::Remove(7), 0);
    assert!(c.routes_to_fallback());
    assert_eq!(c.call(0), Target::Fallback);
}

#[test]
fn scripted_sequence_end_to_end() {
    let mut c = composer();
    c.update(Change::Insert(3, Weight::default()), 0);

    // A balanced request produces an A-tagged unified response.
    let t = c.call(0);
    assert_eq!(t, Target::Balanced(3));
    let balanced_rsp = Response { status: 200, body: ChunkBody { chunks: vec![b"hi".to_vec()], trailer: None } };
    let unified: Response<Body<ChunkBody, ChunkBody>> = Body::rsp_a(balanced_rsp);
    assert!(matches!(unified.body, Body::A(_)));
    assert_eq!(unified.status, 200);

    // Remove to empty: the next request takes the fallback and produces a
    // B-tagged unified response.
    c.update(Change::Remove(3), 1);
    assert_eq!(c.call(1), Target::Fallback);
    let fb_rsp = Response { status: 200, body: ChunkBody { chunks: vec![b"fb".to_vec()], trailer: None } };
    let unified: Response<Body<ChunkBody, ChunkBody>> = Body::rsp_b(fb_rsp);
    let mut body = unified.body;
    assert!(matches!(body, Body::B(_)));
    assert_eq!(body.poll_data(), Some(b"fb".to_vec()));

    // Insert again: requests route back to the balancer.
    c.update(Change::Insert(4, Weight::default()), 2);
    assert_eq!(c.call(2), Target::Balanced(4));
}

#[test]
fn chunk_body_streams_in_order() {
    let mut b = ChunkBody {
        chunks: vec![b"one".to_vec(), b"two".to_vec()],
        trailer: Some(b"t".to_vec()),
    };
    assert!(!b.is_end_stream());
    assert_eq!(b.poll_data(), Some(b"one".to_vec()));
    assert_eq!(b.poll_data(), Some(b"two".to_vec()));
    assert_eq!(b.poll_data(), None);
    assert!(!b.is_end_stream());
    assert_eq!(b.poll_trailers(), Some(b"t".to_vec()));
    let mut empty = ChunkBody { chunks: vec![], trailer: None };
    assert!(empty.is_end_stream());
    assert_eq!(empty.poll_trailers(), None);
}

#[test]
fn unified_body_forwards_streaming_operations() {
    let mut a: Body<ChunkBody, ChunkBody> =
        Body::A(ChunkBody { chunks: vec![b"left".to_vec()], trailer: None });
    assert_eq!(a.poll_data(), Some(b"left".to_vec()));
    assert_eq!(a.poll_data(), None);
    assert!(a.is_end_stream());

    let mut b: Body<ChunkBody, ChunkBody> =
        Body::B(ChunkBody { chunks: vec![], trailer: Some(b"tr".to_vec()) });
    assert_eq!(b.poll_data(), None);
    assert!(!b.is_end_stream());
    assert_eq!(b.poll_trailers(), Some(b"tr".to_vec()));
}

#[test]
fn unified_body_forwards_byte_operations() {
    let cursor = ByteCursor { data: b"abcdef".to_vec(), pos: 0 };
    let mut u: Body<ByteCursor, ByteCursor> = Body::A(cursor);
    assert_eq!(u.remaining(), 6);
    assert_eq!(u.bytes(), b"abcdef");
    u.advance(2);
    assert_eq!(u.remaining(), 4);
    assert_eq!(u.bytes(), b"cdef");
    u.advance(4);
    assert_eq!(u.remaining(), 0);
    assert_eq!(u.bytes(), b"");

    let mut v: Body<ByteCursor, ByteCursor> =
        Body::B(ByteCursor { data: b"xy".to_vec(), pos: 1 });
    assert_eq!(v.remaining(), 1);
    assert_eq!(v.bytes(), b"y");
    v.advance(1);
    assert_eq!(v.remaining(), 0);
}

#[test]
fn terminal_discovery_failure_stops_the_composer() {
    let mut c = composer();
    c.update(Change::Insert(7, Weight::default()), 0);
    assert!(c.poll_ready());
    c.note_discovery_failure();
    assert!(!c.poll_ready());
}
