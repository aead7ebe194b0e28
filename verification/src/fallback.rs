//! The fallback composer.
//!
//! A `Composer` presents one request-handling interface over two paths: the
//! dynamic balancer and a statically-keyed fallback router. The router — a
//! collaborator outside this crate, keyed by a caller-supplied recognition
//! function — is configured here with a capacity and an idle-eviction age.
//! Per request, the endpoint-status gate decides the path: an empty endpoint
//! set routes to the fallback, anything else to the balancer, so routing
//! transitions automatically as endpoints come and go. Responses of the two
//! paths are unified by wrapping their bodies as `body::Body::A` (balanced)
//! and `body::Body::B` (fallback).

use vstd::prelude::*;

use crate::balance;
use crate::balance::{Balancer, Change};

verus! {

/// Configuration of the fallback router collaborator: how many distinct
/// routes it may cache at once, and how long an idle route entry may live.
#[derive(Clone, Copy, PartialEq, Eq, Structural, Debug)]
pub struct Config {
    pub capacity: usize,
    pub max_idle_nanos: u64,
}

impl Config {
    pub fn new(capacity: usize, max_idle_nanos: u64) -> (r: Config)
        ensures
            r.capacity == capacity,
            r.max_idle_nanos == max_idle_nanos,
    {
        Config { capacity, max_idle_nanos }
    }
}

/// The balancing configuration together with the fallback router's.
#[derive(Clone, Copy, PartialEq, Eq, Structural, Debug)]
pub struct Layer {
    pub config: Config,
    pub balance: balance::Layer,
}

/// Composes a balancing layer with a fallback router configuration.
pub fn layer(config: Config, balance_layer: balance::Layer) -> (l: Layer)
    ensures
        l.config == config,
        l.balance == balance_layer,
{
    Layer { config, balance: balance_layer }
}

impl Layer {
    /// Wraps the configurations into a per-target factory.
    pub fn layer(&self) -> (m: MakeSvc)
        ensures
            m.config == self.config,
            m.balance.default_rtt == self.balance.default_rtt,
            m.balance.decay == self.balance.decay,
    {
        MakeSvc { config: self.config, balance: self.balance.layer() }
    }
}

/// The per-target factory: constructs the fallback router configuration
/// alongside the balancer, mirroring the balancer factory's two-phase shape.
#[derive(Clone, Copy, PartialEq, Eq, Structural, Debug)]
pub struct MakeSvc {
    pub config: Config,
    pub balance: balance::MakeSvc,
}

impl MakeSvc {
    /// Second construction phase: the balancer is built over the now-ready
    /// discovery feed, its status gate snapshotted, and the router
    /// configuration attached.
    pub fn make(&self) -> (c: Composer)
        requires
            self.balance.decay > 0,
        ensures
            c.wf(),
            c.service.balancer.is_empty(),
            !c.service.failed,
            c.config == self.config,
            c.service.balancer.default_rtt == self.balance.default_rtt,
            c.service.balancer.decay == self.balance.decay,
    {
        Composer { service: self.balance.make(), config: self.config }
    }
}

/// Where the composer sent one request: to the balancer's selected endpoint,
/// or to the fallback router.
#[derive(Clone, Copy, PartialEq, Eq, Structural, Debug)]
pub enum Target {
    Balanced(u64),
    Fallback,
}

/// The composed service: the gated balancer plus the fallback router's
/// configuration. The router itself is driven by the surrounding loop.
pub struct Composer {
    pub service: balance::Service,
    pub config: Config,
}

impl Composer {
    pub open spec fn wf(&self) -> bool {
        self.service.wf()
    }

    /// Whether the next request would take the fallback path.
    pub fn routes_to_fallback(&self) -> (r: bool)
        requires
            self.wf(),
        ensures
            r == self.service.balancer.is_empty(),
    {
        self.service.endpoint_status()
    }

    /// Drives readiness each poll: the fallback router is polled by the
    /// surrounding loop too, but the composer reports ready only when the
    /// balancer does.
    pub fn poll_ready(&self) -> (r: bool)
        ensures
            r == (!self.service.failed && self.service.balancer.is_ready()),
    {
        self.service.poll_ready()
    }

    /// Applies one discovery change and refreshes the status gate.
    pub fn update(&mut self, change: Change, now: u64)
        requires
            old(self).wf(),
            match change {
                Change::Insert(_, weight) => weight.wf(),
                Change::Remove(_) => true,
            },
        ensures
            final(self).wf(),
            final(self).config == old(self).config,
            Balancer::update_rel(old(self).service.balancer, change, now, final(self).service.balancer),
    {
        self.service.update(change, now);
    }

    /// Marks one endpoint ready or not ready.
    pub fn set_ready(&mut self, key: u64, ready: bool)
        requires
            old(self).wf(),
        ensures
            final(self).wf(),
            final(self).config == old(self).config,
    {
        self.service.set_ready(key, ready);
    }

    /// Records a terminal failure of the discovery feed. Fatal to the whole
    /// composed service: it reports itself not ready from here on and
    /// accepts no further request, on either path.
    pub fn note_discovery_failure(&mut self)
        requires
            old(self).wf(),
        ensures
            final(self).wf(),
            final(self).service.failed,
            final(self).config == old(self).config,
    {
        self.service.note_discovery_failure();
    }

    /// Routes one request at `now`. The status flag decides per request: an empty
    /// endpoint set sends the request to the fallback router and touches no
    /// endpoint state; otherwise an endpoint is selected by two random
    /// choices, the request is dispatched to it, and its key is returned.
    pub fn call(&mut self, now: u64) -> (t: Target)
        requires
            old(self).wf(),
            !old(self).service.failed,
            old(self).service.balancer.is_empty() || old(self).service.balancer.is_ready(),
            old(self).service.balancer.pending_in_bounds(),
        ensures
            final(self).wf(),
            final(self).config == old(self).config,
            old(self).service.balancer.is_empty() ==> t == Target::Fallback && *final(self)
                == *old(self),
            !old(self).service.balancer.is_empty() ==> t is Balanced && Balancer::dispatched(
                old(self).service.balancer,
                now,
                final(self).service.balancer,
                t->Balanced_0,
            ),
    {
        if self.service.endpoint_status() {
            Target::Fallback
        } else {
            match self.service.call(now) {
                Ok(k) => Target::Balanced(k),
                Err(_) => {
                    proof {
                        assert(false);
                    }
                    Target::Fallback
                },
            }
        }
    }
}

} // verus!
