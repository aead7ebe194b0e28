//! Dynamic load balancing with fallback routing for a proxy data plane.
//!
//! The crate provides a time-windowed dual-buffer accumulator (`rotating`),
//! a peak-decay latency estimator (`estimate`), a power-of-two-choices
//! balancer over a live endpoint set (`balance`), a fallback composer that
//! routes requests to a static path while the endpoint set is empty
//! (`fallback`), a unified response-body type (`body`), and a selection
//! weight (`weight`).

mod clock;
pub mod balance;
pub mod body;
pub mod estimate;
pub mod fallback;
pub mod rotating;
pub mod weight;

pub use clock::Duration;
