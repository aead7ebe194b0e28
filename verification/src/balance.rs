//! Power-of-two-choices balancing over a live endpoint set.
//!
//! A `Balancer` keeps the endpoints a discovery feed has inserted and not yet
//! removed, each wrapped in a load estimator. Selection draws two distinct
//! ready endpoints at random and dispatches to the less loaded one; with one
//! ready endpoint it is returned directly, and with none selection declines.
//! A `Service` pairs a balancer with its endpoint-status gate: a request
//! against an empty endpoint set fails fast with `NoEndpoints` and touches no
//! endpoint state.
//!
//! Membership changes and dispatches go through `&mut self` on one value, so
//! they are strictly serialized: a request is never dispatched to an endpoint
//! whose removal has already been applied, and an insert is visible to every
//! later selection.

use vstd::prelude::*;

use crate::clock;
use crate::clock::Duration;
use crate::estimate::Estimate;
use crate::weight::Weight;

verus! {

/// Relies on `rand::random`: a sample of a value whose distribution is the
/// crate's `Standard`. The result depends on the generator's entropy, so
/// nothing is promised of it.
pub assume_specification<T>[ rand::random::<T> ]() -> (r: T)
    where
        rand::distributions::Standard: rand::distributions::Distribution<T>,
;

/// One event from the discovery feed: a key gains (or replaces) an endpoint
/// carrying a selection weight, or a previously inserted key is removed.
#[derive(Clone, Copy, PartialEq, Eq, Structural, Debug)]
pub enum Change {
    Insert(u64, Weight),
    Remove(u64),
}

/// One load-instrumented endpoint of the balancer's table.
#[derive(Clone, Copy, Debug)]
pub struct Endpoint {
    /// The discovery key; unique within the table.
    pub key: u64,
    /// The selection weight the endpoint was inserted with.
    pub weight: Weight,
    /// The endpoint's load estimator.
    pub load: Estimate,
    /// Whether the endpoint can currently accept work.
    pub ready: bool,
}

/// The comparable load of an endpoint at `now`.
pub open spec fn ep_cost(e: Endpoint, now: u64) -> int {
    e.load.cost_at(e.weight.units, now)
}

/// The balancer core: the current endpoint table plus the estimator
/// configuration applied to newly inserted endpoints.
pub struct Balancer {
    pub endpoints: Vec<Endpoint>,
    /// The latency figure a fresh endpoint starts from, in nanoseconds.
    pub default_rtt: u64,
    /// The decay half-span handed to each estimator, in nanoseconds.
    pub decay: u64,
    /// The clock origin for all nanosecond counts handed to this balancer.
    pub base: std::time::Instant,
}

impl Balancer {
    pub open spec fn wf(&self) -> bool {
        &&& self.decay > 0
        &&& forall|i: int|
            0 <= i < self.endpoints@.len() ==> (#[trigger] self.endpoints@[i]).load.wf()
                && self.endpoints@[i].weight.wf()
        &&& forall|i: int, j: int|
            0 <= i < j < self.endpoints@.len() ==> self.endpoints@[i].key
                != self.endpoints@[j].key
    }

    pub open spec fn is_empty(&self) -> bool {
        self.endpoints@.len() == 0
    }

    pub open spec fn has_key(&self, key: u64) -> bool {
        exists|i: int| 0 <= i < self.endpoints@.len() && (#[trigger] self.endpoints@[i]).key == key
    }

    /// Whether the endpoint at table index `i` exists and can accept work.
    pub open spec fn ready_at(&self, i: int) -> bool {
        0 <= i < self.endpoints@.len() && self.endpoints@[i].ready
    }

    /// The balancer accepts work only while some endpoint does.
    pub open spec fn is_ready(&self) -> bool {
        exists|i: int| self.ready_at(i)
    }

    /// Exactly one endpoint is ready.
    pub open spec fn sole_ready(&self) -> bool {
        self.is_ready() && forall|i: int, j: int|
            self.ready_at(i) && self.ready_at(j) ==> i == j
    }

    /// At least two endpoints are ready.
    pub open spec fn multi_ready(&self) -> bool {
        exists|i: int, j: int| self.ready_at(i) && self.ready_at(j) && i != j
    }

    /// The key a two-choice draw of indices `(i, j)` dispatches to: the
    /// endpoint with strictly lower load wins, and a tie keeps the first
    /// draw. Fairness under ties comes from the random order of the draw.
    pub open spec fn p2c_winner(&self, i: int, j: int, now: u64) -> u64 {
        if ep_cost(self.endpoints@[j], now) < ep_cost(self.endpoints@[i], now) {
            self.endpoints@[j].key
        } else {
            self.endpoints@[i].key
        }
    }

    /// The endpoint a fresh insert of `(key, weight)` at `now` constructs.
    pub open spec fn fresh_endpoint(&self, key: u64, weight: Weight, now: u64) -> Endpoint {
        Endpoint {
            key,
            weight,
            load: Estimate {
                pending: 0,
                estimate: self.default_rtt,
                target: self.default_rtt,
                last_update: now,
                decay: self.decay,
            },
            ready: true,
        }
    }

    /// `e` with one more pending request.
    pub open spec fn bumped(e: Endpoint) -> Endpoint {
        Endpoint { load: Estimate { pending: (e.load.pending + 1) as u64, ..e.load }, ..e }
    }

    /// The whole effect of applying one discovery change at `now`: an insert
    /// of a live key replaces that endpoint in place with a fresh one, an
    /// insert of a new key appends a fresh one, a removal of a live key
    /// deletes exactly that endpoint, and a removal of an unknown key does
    /// nothing. Configuration never changes.
    pub open spec fn update_rel(pre: Self, change: Change, now: u64, post: Self) -> bool {
        &&& post.default_rtt == pre.default_rtt
        &&& post.decay == pre.decay
        &&& post.base == pre.base
        &&& match change {
            Change::Insert(key, weight) => {
                if pre.has_key(key) {
                    exists|i: int|
                        0 <= i < pre.endpoints@.len() && (#[trigger] pre.endpoints@[i]).key == key
                            && post.endpoints@ == pre.endpoints@.update(
                            i,
                            pre.fresh_endpoint(key, weight, now),
                        )
                } else {
                    post.endpoints@ == pre.endpoints@.push(pre.fresh_endpoint(key, weight, now))
                }
            },
            Change::Remove(key) => {
                if pre.has_key(key) {
                    exists|i: int|
                        0 <= i < pre.endpoints@.len() && (#[trigger] pre.endpoints@[i]).key == key
                            && post.endpoints@ == pre.endpoints@.remove(i)
                } else {
                    post.endpoints@ == pre.endpoints@
                }
            },
        }
    }

    /// What one successful request at `now` did to a balancer: the returned
    /// key was selected among the ready endpoints by two random choices (the
    /// sole ready endpoint directly; with unequal loads the draw's less
    /// loaded endpoint), and exactly that endpoint's pending count rose by
    /// one. Configuration never changes.
    pub open spec fn dispatched(pre: Self, now: u64, post: Self, k: u64) -> bool {
        &&& pre.has_key(k)
        &&& exists|i: int|
            0 <= i < pre.endpoints@.len() && (#[trigger] pre.endpoints@[i]).key == k
                && post.endpoints@ == pre.endpoints@.update(i, Self::bumped(pre.endpoints@[i]))
        &&& (pre.sole_ready() ==> exists|i: int|
            pre.ready_at(i) && k == (#[trigger] pre.endpoints@[i]).key)
        &&& (pre.multi_ready() ==> exists|i: int, j: int|
            pre.ready_at(i) && pre.ready_at(j) && i != j && k == #[trigger] pre.p2c_winner(
                i,
                j,
                now,
            ))
        &&& post.default_rtt == pre.default_rtt
        &&& post.decay == pre.decay
        &&& post.base == pre.base
    }

    /// An empty balancer with the given estimator configuration.
    pub fn new(default_rtt: u64, decay: u64) -> (r: Self)
        requires
            decay > 0,
        ensures
            r.wf(),
            r.is_empty(),
            r.default_rtt == default_rtt,
            r.decay == decay,
    {
        let base = clock::clock_now();
        Balancer { endpoints: Vec::new(), default_rtt, decay, base }
    }

    /// The current clock, as nanoseconds since this balancer's origin. The
    /// reading depends on the time of the call, so nothing is promised of it.
    pub fn clock_nanos(&self) -> u64 {
        let t = clock::clock_now();
        clock::nanos_between(&self.base, &t)
    }

    /// The table index holding `key`, if the key is live.
    fn find(&self, key: u64) -> (r: Option<usize>)
        ensures
            match r {
                Option::Some(i) => i < self.endpoints@.len() && self.endpoints@[i as int].key
                    == key,
                Option::None => !self.has_key(key),
            },
    {
        let mut i: usize = 0;
        while i < self.endpoints.len()
            invariant
                i <= self.endpoints@.len(),
                forall|j: int| 0 <= j < i ==> (#[trigger] self.endpoints@[j]).key != key,
            decreases self.endpoints@.len() - i,
        {
            if self.endpoints[i].key == key {
                return Some(i);
            }
            i = i + 1;
        }
        None
    }

    /// Applies one discovery change. Consuming changes is legal at any time,
    /// ready or not, so membership stays current even under backpressure.
    pub fn update(&mut self, change: Change, now: u64)
        requires
            old(self).wf(),
            match change {
                Change::Insert(_, weight) => weight.wf(),
                Change::Remove(_) => true,
            },
        ensures
            final(self).wf(),
            Self::update_rel(*old(self), change, now, *final(self)),
    {
        match change {
            Change::Insert(key, weight) => {
                let fresh = Endpoint {
                    key,
                    weight,
                    load: Estimate::new(self.default_rtt, self.decay, now),
                    ready: true,
                };
                match self.find(key) {
                    Some(i) => {
                        self.endpoints[i] = fresh;
                        proof {
                            assert(old(self).endpoints@[i as int].key == key);
                        }
                    },
                    None => {
                        self.endpoints.push(fresh);
                    },
                }
            },
            Change::Remove(key) => {
                match self.find(key) {
                    Some(i) => {
                        self.endpoints.remove(i);
                        proof {
                            assert(old(self).endpoints@[i as int].key == key);
                        }
                    },
                    None => {},
                }
            },
        }
    }

    /// Marks the endpoint holding `key` ready or not ready, as its own poll
    /// reported. An unknown key changes nothing.
    pub fn set_ready(&mut self, key: u64, ready: bool)
        requires
            old(self).wf(),
        ensures
            final(self).wf(),
            final(self).default_rtt == old(self).default_rtt,
            final(self).decay == old(self).decay,
            final(self).base == old(self).base,
            old(self).has_key(key) ==> exists|i: int|
                0 <= i < old(self).endpoints@.len() && (#[trigger] old(
                    self,
                ).endpoints@[i]).key == key && final(self).endpoints@ == old(
                    self,
                ).endpoints@.update(i, (Endpoint { ready, ..old(self).endpoints@[i] })),
            !old(self).has_key(key) ==> final(self).endpoints@ == old(self).endpoints@,
    {
        match self.find(key) {
            Some(i) => {
                let e = &mut self.endpoints[i];
                e.ready = ready;
                proof {
                    assert(old(self).endpoints@[i as int].key == key);
                }
            },
            None => {},
        }
    }

    /// Whether the balancer can accept a request: true exactly when some
    /// endpoint is ready.
    pub fn poll_ready(&self) -> (r: bool)
        ensures
            r == self.is_ready(),
    {
        let mut i: usize = 0;
        while i < self.endpoints.len()
            invariant
                i <= self.endpoints@.len(),
                forall|j: int| 0 <= j < i ==> !(#[trigger] self.endpoints@[j]).ready,
            decreases self.endpoints@.len() - i,
        {
            if self.endpoints[i].ready {
                proof {
                    assert(self.ready_at(i as int));
                }
                return true;
            }
            i = i + 1;
        }
        false
    }

    /// The table indices of the ready endpoints, in increasing order.
    fn ready_indices(&self) -> (v: Vec<usize>)
        ensures
            forall|a: int|
                0 <= a < v@.len() ==> (#[trigger] v@[a]) < self.endpoints@.len()
                    && self.endpoints@[v@[a] as int].ready,
            forall|i: int|
                0 <= i < self.endpoints@.len() && (#[trigger] self.endpoints@[i]).ready
                    ==> v@.contains(i as usize),
            forall|a: int, b: int| 0 <= a < b < v@.len() ==> v@[a] < v@[b],
    {
        let mut v: Vec<usize> = Vec::new();
        let mut i: usize = 0;
        while i < self.endpoints.len()
            invariant
                i <= self.endpoints@.len(),
                forall|a: int|
                    0 <= a < v@.len() ==> (#[trigger] v@[a]) < i
                        && self.endpoints@[v@[a] as int].ready,
                forall|j: int|
                    0 <= j < i && (#[trigger] self.endpoints@[j]).ready ==> v@.contains(
                        j as usize,
                    ),
                forall|a: int, b: int| 0 <= a < b < v@.len() ==> v@[a] < v@[b],
            decreases self.endpoints@.len() - i,
        {
            if self.endpoints[i].ready {
                let ghost vold = v@;
                v.push(i);
                proof {
                    assert forall|j: int|
                        0 <= j <= i && (#[trigger] self.endpoints@[j]).ready implies v@.contains(
                        j as usize,
                    ) by {
                        if j < i {
                            assert(vold.contains(j as usize));
                            let p = choose|p: int| 0 <= p < vold.len() && vold[p] == j as usize;
                            assert(v@[p] == j as usize);
                        } else {
                            assert(v@[vold.len() as int] == i);
                        }
                    }
                }
            }
            i = i + 1;
        }
        v
    }

    /// Compares the loads of the endpoints at table indices `i` and `j` at
    /// `now` and picks the index of the less loaded one; an exact tie keeps
    /// `i`. With unequal loads this always selects the lower-load endpoint.
    pub fn choose_between(&self, i: usize, j: usize, now: u64) -> (r: usize)
        requires
            self.wf(),
            i < self.endpoints@.len(),
            j < self.endpoints@.len(),
        ensures
            r == i || r == j,
            self.endpoints@[r as int].key == self.p2c_winner(i as int, j as int, now),
            ep_cost(self.endpoints@[r as int], now) <= ep_cost(self.endpoints@[i as int], now),
            ep_cost(self.endpoints@[r as int], now) <= ep_cost(self.endpoints@[j as int], now),
    {
        let ei = &self.endpoints[i];
        let ci = ei.load.cost(ei.weight.units, now);
        let ej = &self.endpoints[j];
        let cj = ej.load.cost(ej.weight.units, now);
        if cj < ci {
            j
        } else {
            i
        }
    }

    /// Selects an endpoint for one request. Declines exactly when no
    /// endpoint is ready; returns the sole ready endpoint directly without
    /// consulting the random draw; and otherwise draws two distinct ready
    /// endpoints at random and yields the two-choice winner.
    pub fn select(&self, now: u64) -> (r: Option<u64>)
        requires
            self.wf(),
        ensures
            r is None <==> !self.is_ready(),
            self.sole_ready() ==> exists|i: int|
                self.ready_at(i) && r == Some((#[trigger] self.endpoints@[i]).key),
            self.multi_ready() ==> exists|i: int, j: int|
                self.ready_at(i) && self.ready_at(j) && i != j && r == Some(
                    #[trigger] self.p2c_winner(i, j, now),
                ),
            r is Some ==> self.has_key(r.unwrap()),
    {
        let idx = self.ready_indices();
        if idx.len() == 0 {
            proof {
                assert forall|i: int| !self.ready_at(i) by {
                    if self.ready_at(i) {
                        assert(idx@.contains(i as usize));
                    }
                }
            }
            None
        } else if idx.len() == 1 {
            let i = idx[0];
            let nlen = self.endpoints.len();
            proof {
                assert(self.ready_at(i as int));
                assert(!self.multi_ready()) by {
                    if self.multi_ready() {
                        let (a, b) = choose|a: int, b: int|
                            self.ready_at(a) && self.ready_at(b) && a != b;
                        assert(0 <= a < nlen && 0 <= b < nlen);
                        assert(idx@.contains(a as usize));
                        assert(idx@.contains(b as usize));
                        let pa = choose|p: int| 0 <= p < idx@.len() && idx@[p] == a as usize;
                        let pb = choose|p: int| 0 <= p < idx@.len() && idx@[p] == b as usize;
                        assert(pa == 0 && pb == 0);
                        assert(a as usize == b as usize);
                        assert(false);
                    }
                }
            }
            Some(self.endpoints[i].key)
        } else {
            let n: u64 = idx.len() as u64;
            let r1: u64 = rand::random::<u64>();
            let r2: u64 = rand::random::<u64>();
            proof {
                vstd::arithmetic::div_mod::lemma_mod_bound(r1 as int, n as int);
                vstd::arithmetic::div_mod::lemma_mod_bound(r2 as int, n as int - 1);
            }
            let a: usize = (r1 % n) as usize;
            let b0: usize = (r2 % (n - 1)) as usize;
            let b: usize = if b0 >= a {
                b0 + 1
            } else {
                b0
            };
            let i = idx[a];
            let j = idx[b];
            proof {
                assert(a != b);
                if a < b {
                    assert(idx@[a as int] < idx@[b as int]);
                } else {
                    assert(idx@[b as int] < idx@[a as int]);
                }
                assert(self.ready_at(i as int));
                assert(self.ready_at(j as int));
                assert(idx@[0] < idx@[1]);
                assert(self.ready_at(idx@[0] as int));
                assert(self.ready_at(idx@[1] as int));
                assert(!self.sole_ready());
                assert(self.multi_ready());
            }
            let w = self.choose_between(i, j, now);
            proof {
                assert(self.p2c_winner(i as int, j as int, now) == self.endpoints@[w as int].key);
                assert(self.ready_at(i as int) && self.ready_at(j as int) && i as int != j as int);
            }
            Some(self.endpoints[w].key)
        }
    }

    /// Accounts a request dispatched to the endpoint holding `key`: its
    /// pending count rises by one and nothing else changes.
    pub fn dispatch(&mut self, key: u64)
        requires
            old(self).wf(),
            old(self).has_key(key),
            forall|i: int|
                0 <= i < old(self).endpoints@.len() && (#[trigger] old(
                    self,
                ).endpoints@[i]).key == key ==> old(self).endpoints@[i].load.pending < u64::MAX,
        ensures
            final(self).wf(),
            final(self).default_rtt == old(self).default_rtt,
            final(self).decay == old(self).decay,
            final(self).base == old(self).base,
            exists|i: int|
                0 <= i < old(self).endpoints@.len() && (#[trigger] old(
                    self,
                ).endpoints@[i]).key == key && final(self).endpoints@ == old(
                    self,
                ).endpoints@.update(i, Self::bumped(old(self).endpoints@[i])),
    {
        match self.find(key) {
            Some(i) => {
                let e = &mut self.endpoints[i];
                e.load.start();
                proof {
                    assert(old(self).endpoints@[i as int].key == key);
                }
            },
            None => {
                proof {
                    assert(false);
                }
            },
        }
    }

    /// Accounts the first response byte from the endpoint holding `key`,
    /// observed at `now` with dispatch-to-first-byte latency `rtt`: one
    /// pending request resolves and the sample feeds its estimator.
    pub fn first_byte(&mut self, key: u64, rtt: u64, now: u64)
        requires
            old(self).wf(),
            old(self).has_key(key),
            forall|i: int|
                0 <= i < old(self).endpoints@.len() && (#[trigger] old(
                    self,
                ).endpoints@[i]).key == key ==> old(self).endpoints@[i].load.pending > 0,
        ensures
            final(self).wf(),
            final(self).default_rtt == old(self).default_rtt,
            final(self).decay == old(self).decay,
            final(self).base == old(self).base,
            exists|i: int|
                0 <= i < old(self).endpoints@.len() && (#[trigger] old(
                    self,
                ).endpoints@[i]).key == key && final(self).endpoints@[i].load.pending == old(
                    self,
                ).endpoints@[i].load.pending - 1 && final(self).endpoints@[i].load.target == rtt
                    && final(self).endpoints@ == old(self).endpoints@.update(
                    i,
                    final(self).endpoints@[i],
                ),
    {
        match self.find(key) {
            Some(i) => {
                let e = &mut self.endpoints[i];
                e.load.end(rtt, now);
                proof {
                    assert(old(self).endpoints@[i as int].key == key);
                }
            },
            None => {
                proof {
                    assert(false);
                }
            },
        }
    }

    /// No endpoint of the table has `u64::MAX` requests pending.
    pub open spec fn pending_in_bounds(&self) -> bool {
        forall|i: int|
            0 <= i < self.endpoints@.len() ==> (#[trigger] self.endpoints@[i]).load.pending
                < u64::MAX
    }

    /// Accounts a request to the endpoint holding `key` abandoned before any
    /// response byte: its pending count still resolves, exactly once, and no
    /// latency sample is taken.
    pub fn cancel(&mut self, key: u64)
        requires
            old(self).wf(),
            old(self).has_key(key),
            forall|i: int|
                0 <= i < old(self).endpoints@.len() && (#[trigger] old(
                    self,
                ).endpoints@[i]).key == key ==> old(self).endpoints@[i].load.pending > 0,
        ensures
            final(self).wf(),
            final(self).default_rtt == old(self).default_rtt,
            final(self).decay == old(self).decay,
            final(self).base == old(self).base,
            exists|i: int|
                0 <= i < old(self).endpoints@.len() && (#[trigger] old(
                    self,
                ).endpoints@[i]).key == key && final(self).endpoints@ == old(
                    self,
                ).endpoints@.update(
                    i,
                    (Endpoint {
                        load: Estimate {
                            pending: (old(self).endpoints@[i].load.pending - 1) as u64,
                            ..old(self).endpoints@[i].load
                        },
                        ..old(self).endpoints@[i]
                    }),
                ),
    {
        match self.find(key) {
            Some(i) => {
                let e = &mut self.endpoints[i];
                e.load.cancel();
                proof {
                    assert(old(self).endpoints@[i as int].key == key);
                }
            },
            None => {
                proof {
                    assert(false);
                }
            },
        }
    }
}

/// Removal is final: once a key's removal has been applied, no later request
/// can be dispatched to it until the key is inserted again — membership
/// changes and dispatches are serialized through one balancer value.
pub proof fn lemma_no_dispatch_after_remove(
    pre: Balancer,
    now: u64,
    mid: Balancer,
    key: u64,
    now2: u64,
    post: Balancer,
    k2: u64,
)
    requires
        pre.wf(),
        Balancer::update_rel(pre, Change::Remove(key), now, mid),
        Balancer::dispatched(mid, now2, post, k2),
    ensures
        k2 != key,
{
    if pre.has_key(key) {
        let i = choose|i: int|
            0 <= i < pre.endpoints@.len() && (#[trigger] pre.endpoints@[i]).key == key
                && mid.endpoints@ == pre.endpoints@.remove(i);
        assert forall|j: int| 0 <= j < mid.endpoints@.len() implies (#[trigger] mid.endpoints@[j]).key
            != key by {
            if j < i {
                assert(mid.endpoints@[j] == pre.endpoints@[j]);
            } else {
                assert(mid.endpoints@[j] == pre.endpoints@[j + 1]);
            }
        }
        assert(!mid.has_key(key));
    } else {
        assert(mid.endpoints@ == pre.endpoints@);
        assert(!mid.has_key(key));
    }
}

/// An applied insert is visible to every later selection: the key is live in
/// the table the next request selects from.
pub proof fn lemma_insert_visible(pre: Balancer, key: u64, w: Weight, now: u64, post: Balancer)
    requires
        Balancer::update_rel(pre, Change::Insert(key, w), now, post),
    ensures
        post.has_key(key),
{
    if pre.has_key(key) {
        let i = choose|i: int|
            0 <= i < pre.endpoints@.len() && (#[trigger] pre.endpoints@[i]).key == key
                && post.endpoints@ == pre.endpoints@.update(i, pre.fresh_endpoint(key, w, now));
        assert(post.endpoints@[i].key == key);
    } else {
        assert(post.endpoints@[pre.endpoints@.len() as int].key == key);
    }
}

/// A selection draw that includes two endpoints with strictly unequal loads
/// always dispatches to the less loaded one, whichever order the draw came
/// in.
pub proof fn lemma_skewed_draw_picks_lighter(b: Balancer, i: int, j: int, now: u64)
    requires
        0 <= i < b.endpoints@.len(),
        0 <= j < b.endpoints@.len(),
        ep_cost(b.endpoints@[i], now) < ep_cost(b.endpoints@[j], now),
    ensures
        b.p2c_winner(i, j, now) == b.endpoints@[i].key,
        b.p2c_winner(j, i, now) == b.endpoints@[i].key,
{
}

/// Under exactly equal loads a draw dispatches to its first endpoint, in
/// either order, so neither endpoint is preferred by the comparison itself:
/// selection under equal load follows the uniformly random draw order alone.
pub proof fn lemma_equal_load_follows_draw_order(b: Balancer, i: int, j: int, now: u64)
    requires
        0 <= i < b.endpoints@.len(),
        0 <= j < b.endpoints@.len(),
        ep_cost(b.endpoints@[i], now) == ep_cost(b.endpoints@[j], now),
    ensures
        b.p2c_winner(i, j, now) == b.endpoints@[i].key,
        b.p2c_winner(j, i, now) == b.endpoints@[j].key,
{
}

/// The failure of a request against an empty endpoint set when no fallback
/// path is configured. Surfaced to the caller at once; never retried here.
#[derive(Clone, Copy, PartialEq, Eq, Structural, Debug)]
pub struct NoEndpoints {}

impl NoEndpoints {
    /// The displayable description of the failure.
    pub fn message(&self) -> (r: &'static str)
        ensures
            r@ == "load balancer has no endpoints"@,
    {
        "load balancer has no endpoints"
    }
}

/// The balancing configuration applied to every target: the latency figure a
/// cold endpoint starts from and the decay half-span of the estimator.
#[derive(Clone, Copy, PartialEq, Eq, Structural, Debug)]
pub struct Layer {
    pub default_rtt: u64,
    pub decay: u64,
}

/// Configures balancers that resolve targets into balanced endpoint sets.
pub fn layer(default_rtt: Duration, decay: Duration) -> (l: Layer)
    requires
        0 < clock::dur_nanos(decay) <= u64::MAX,
        clock::dur_nanos(default_rtt) <= u64::MAX,
    ensures
        l.default_rtt == clock::dur_nanos(default_rtt),
        l.decay == clock::dur_nanos(decay),
        l.decay > 0,
{
    Layer { default_rtt: default_rtt.as_nanos(), decay: decay.as_nanos() }
}

impl Layer {
    /// Wraps the configuration into a per-target factory. The discovery
    /// collaborator that feeds the factory lives outside this crate.
    pub fn layer(&self) -> (m: MakeSvc)
        ensures
            m.default_rtt == self.default_rtt,
            m.decay == self.decay,
    {
        MakeSvc { default_rtt: self.default_rtt, decay: self.decay }
    }
}

/// The per-target factory. Resolving a target is two-phase: the discovery
/// collaborator is asked for the target's endpoint feed, and once that feed
/// is available `make` builds the balancer and snapshots its status gate.
/// The waiting between the phases is the caller's polling loop.
#[derive(Clone, Copy, PartialEq, Eq, Structural, Debug)]
pub struct MakeSvc {
    pub default_rtt: u64,
    pub decay: u64,
}

impl MakeSvc {
    /// Second construction phase: the discovery feed is available, so build
    /// the balancer over it and snapshot the endpoint status. Errors of the
    /// discovery step itself propagate in the caller's loop, unchanged; this
    /// step has no failure of its own.
    pub fn make(&self) -> (s: Service)
        requires
            self.decay > 0,
        ensures
            s.wf(),
            s.balancer.is_empty(),
            s.status_empty,
            !s.failed,
            s.balancer.default_rtt == self.default_rtt,
            s.balancer.decay == self.decay,
    {
        let balancer = Balancer::new(self.default_rtt, self.decay);
        Service { balancer, status_empty: true, failed: false }
    }
}

/// A balancer behind its endpoint-status flag. The flag is a snapshot kept
/// exactly in sync with the table's emptiness by `update`, and consulted on
/// every request without touching the discovery feed. `failed` records a
/// terminal failure of the discovery feed, which is fatal to this instance:
/// once observed, the service stops accepting new requests.
pub struct Service {
    pub balancer: Balancer,
    pub status_empty: bool,
    pub failed: bool,
}

impl Service {
    pub open spec fn wf(&self) -> bool {
        self.balancer.wf() && self.status_empty == self.balancer.is_empty()
    }

    /// Whether the endpoint set is currently empty, from the status flag.
    pub fn endpoint_status(&self) -> (r: bool)
        requires
            self.wf(),
        ensures
            r == self.balancer.is_empty(),
    {
        self.status_empty
    }

    /// Applies one discovery change and refreshes the status flag. Changes are
    /// consumed whether or not the balancer is ready, so membership stays
    /// current under backpressure.
    pub fn update(&mut self, change: Change, now: u64)
        requires
            old(self).wf(),
            match change {
                Change::Insert(_, weight) => weight.wf(),
                Change::Remove(_) => true,
            },
        ensures
            final(self).wf(),
            Balancer::update_rel(old(self).balancer, change, now, final(self).balancer),
    {
        self.balancer.update(change, now);
        self.status_empty = self.balancer.endpoints.len() == 0;
    }

    /// Marks one endpoint ready or not ready.
    pub fn set_ready(&mut self, key: u64, ready: bool)
        requires
            old(self).wf(),
        ensures
            final(self).wf(),
            final(self).balancer.endpoints@.len() == old(self).balancer.endpoints@.len(),
            final(self).failed == old(self).failed,
    {
        self.balancer.set_ready(key, ready);
    }

    /// Records a terminal failure of the discovery feed. Fatal: the service
    /// reports itself not ready from here on and accepts no further request.
    pub fn note_discovery_failure(&mut self)
        requires
            old(self).wf(),
        ensures
            final(self).wf(),
            final(self).failed,
            final(self).balancer == old(self).balancer,
            final(self).status_empty == old(self).status_empty,
    {
        self.failed = true;
    }

    /// Whether a request may be submitted: true exactly when the discovery
    /// feed has not terminally failed and some endpoint is ready.
    pub fn poll_ready(&self) -> (r: bool)
        ensures
            r == (!self.failed && self.balancer.is_ready()),
    {
        if self.failed {
            return false;
        }
        self.balancer.poll_ready()
    }

    /// Handles one request at `now`. Against an empty endpoint set the
    /// request fails at once with `NoEndpoints`, before any dispatch and
    /// without touching any endpoint state. Otherwise an endpoint is
    /// selected by two random choices — the sole ready endpoint directly —
    /// and the request is dispatched to it: its key is returned and its
    /// pending count rises by exactly one. Readiness must have been checked
    /// before the call, as every caller of a balancer must, and a service
    /// whose discovery feed has terminally failed takes no request at all.
    pub fn call(&mut self, now: u64) -> (r: Result<u64, NoEndpoints>)
        requires
            old(self).wf(),
            !old(self).failed,
            old(self).balancer.is_empty() || old(self).balancer.is_ready(),
            old(self).balancer.pending_in_bounds(),
        ensures
            final(self).wf(),
            old(self).balancer.is_empty() ==> r is Err && *final(self) == *old(self),
            !old(self).balancer.is_empty() ==> r is Ok && Balancer::dispatched(
                old(self).balancer,
                now,
                final(self).balancer,
                r->Ok_0,
            ),
    {
        if self.status_empty {
            return Err(NoEndpoints {  });
        }
        let sel = self.balancer.select(now);
        match sel {
            Some(k) => {
                self.balancer.dispatch(k);
                Ok(k)
            },
            None => {
                proof {
                    assert(false);
                }
                Err(NoEndpoints {  })
            },
        }
    }
}

} // verus!
