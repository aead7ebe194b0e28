//! Selection weights.
//!
//! A weight biases selection toward an endpoint by dividing its measured
//! load: an endpoint of weight `w` looks `w` times less loaded than its raw
//! figure. Weights travel with the discovery feed's insert events, so the
//! weighting adapter is a pure pass-through: it captures the weight from the
//! target and attaches it to the constructed endpoint.

use vstd::prelude::*;

verus! {

/// A positive selection weight. The unweighted default is one.
#[derive(Clone, Copy, PartialEq, Eq, Structural, Debug)]
pub struct Weight {
    pub units: u64,
}

impl Weight {
    pub open spec fn wf(&self) -> bool {
        self.units >= 1
    }

    pub fn new(units: u64) -> (r: Weight)
        requires
            units >= 1,
        ensures
            r.units == units,
            r.wf(),
    {
        Weight { units }
    }

    /// The effective load of a raw load figure under this weight.
    pub fn apply(&self, load: u64) -> (r: u64)
        requires
            self.wf(),
        ensures
            r == load as int / self.units as int,
    {
        load / self.units
    }
}

impl Default for Weight {
    /// The neutral weight: selection bias of exactly one.
    fn default() -> (r: Weight)
        ensures
            r.units == 1,
            r.wf(),
    {
        Weight { units: 1 }
    }
}

} // verus!
