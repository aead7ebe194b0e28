//! Per-endpoint load estimation.
//!
//! An `Estimate` tracks how loaded one endpoint looks: the number of requests
//! dispatched to it that have not yet produced a first byte of response, and
//! a latency figure that jumps to any sample above it and otherwise sinks
//! toward the most recent sample, halving the gap once per configured decay
//! span. Decay is applied lazily from the elapsed clock at access time, so an
//! idle estimator does no per-period work. The combined cost of an endpoint
//! multiplies the latency figure by the in-flight count, so a fast but busy
//! endpoint can lose to a slower idle one, and divides by the endpoint's
//! selection weight.

use vstd::prelude::*;
use vstd::arithmetic::div_mod::{
    lemma_basic_div, lemma_div_denominator, lemma_div_nonincreasing, lemma_div_of0,
    lemma_div_pos_is_pos, lemma_fundamental_div_mod, lemma_fundamental_div_mod_converse,
    lemma_mod_bound,
};
use vstd::arithmetic::mul::{lemma_mul_basics, lemma_mul_is_commutative};
use vstd::arithmetic::power2::{
    lemma2_to64, lemma2_to64_rest, lemma_pow2_adds, lemma_pow2_pos,
    lemma_pow2_strictly_increases, pow2,
};
use vstd::bits::lemma_u64_shr_is_div;

verus! {

/// The state an endpoint's load estimator keeps between accesses. All time
/// fields are nanosecond counts on the owner's clock.
#[derive(Clone, Copy, PartialEq, Eq, Structural, Debug)]
pub struct Estimate {
    /// Requests dispatched but not yet resolved by a first byte or a
    /// cancellation.
    pub pending: u64,
    /// The current latency figure; decays toward `target`.
    pub estimate: u64,
    /// The most recent latency sample (the configured default before any
    /// sample exists). `estimate` never falls below it between samples.
    pub target: u64,
    /// When decay was last applied.
    pub last_update: u64,
    /// The decay half-span: the gap between `estimate` and `target` halves
    /// once per this many nanoseconds.
    pub decay: u64,
}

impl Estimate {
    pub open spec fn wf(&self) -> bool {
        self.decay > 0 && self.target <= self.estimate
    }

    /// How many whole decay spans have elapsed at `now` since the last
    /// update. A clock reading before the last update counts as none.
    pub open spec fn halvings_at(&self, now: u64) -> int {
        if now >= self.last_update {
            (now - self.last_update) / (self.decay as int)
        } else {
            0
        }
    }

    /// The latency figure after `k` halvings of its gap above `target`.
    pub open spec fn decayed(est: int, tgt: int, k: nat) -> int {
        tgt + (est - tgt) / (pow2(k) as int)
    }

    /// The latency figure as seen at `now`, with lazy decay applied.
    pub open spec fn rtt_at(&self, now: u64) -> int {
        Self::decayed(self.estimate as int, self.target as int, self.halvings_at(now) as nat)
    }

    /// The comparable load of the endpoint at `now`: the decayed latency
    /// figure multiplied by one more than the in-flight count, divided by
    /// the selection weight, saturating at the machine-word maximum.
    pub open spec fn cost_at(&self, weight: u64, now: u64) -> int {
        let raw = self.rtt_at(now) * (self.pending + 1) / (weight as int);
        if raw > u64::MAX {
            u64::MAX as int
        } else {
            raw
        }
    }

    /// A fresh estimator: nothing pending, the latency figure pinned at the
    /// configured default until a real sample arrives.
    pub fn new(default_rtt: u64, decay: u64, now: u64) -> (r: Self)
        requires
            decay > 0,
        ensures
            r.wf(),
            r.pending == 0,
            r.estimate == default_rtt,
            r.target == default_rtt,
            r.last_update == now,
            r.decay == decay,
    {
        Estimate { pending: 0, estimate: default_rtt, target: default_rtt, last_update: now, decay }
    }

    /// Reads the latency figure at `now` without touching the state.
    pub fn settled_rtt(&self, now: u64) -> (r: u64)
        requires
            self.wf(),
        ensures
            r == self.rtt_at(now),
            self.target <= r <= self.estimate,
    {
        let k: u64 = if now >= self.last_update {
            (now - self.last_update) / self.decay
        } else {
            proof {
                lemma_div_of0(self.decay as int);
            }
            0
        };
        proof {
            if now >= self.last_update {
                lemma_div_pos_is_pos((now - self.last_update) as int, self.decay as int);
            }
        }
        let diff: u64 = self.estimate - self.target;
        let dec: u64 = if k >= 64 {
            proof {
                lemma2_to64();
                lemma2_to64_rest();
                if k > 64 {
                    lemma_pow2_strictly_increases(64, k as nat);
                }
                lemma_basic_div(diff as int, pow2(k as nat) as int);
            }
            0
        } else {
            proof {
                lemma_u64_shr_is_div(diff, k);
                lemma_pow2_pos(k as nat);
                lemma_div_nonincreasing(diff as int, pow2(k as nat) as int);
            }
            diff >> k
        };
        self.target + dec
    }

    /// The whole state after lazy decay is applied as of `now`.
    pub open spec fn settled_at(&self, now: u64) -> Estimate {
        Estimate {
            estimate: self.rtt_at(now) as u64,
            last_update: (self.last_update + self.halvings_at(now) * self.decay) as u64,
            ..*self
        }
    }

    /// Applies lazy decay: the latency figure moves to its value at `now`,
    /// and the update mark advances by the whole decay spans consumed — a
    /// whole multiple, so decay phase never drifts.
    pub fn settle(&mut self, now: u64)
        requires
            old(self).wf(),
        ensures
            final(self).wf(),
            *final(self) == old(self).settled_at(now),
            final(self).estimate == old(self).rtt_at(now),
            final(self).target == old(self).target,
            final(self).pending == old(self).pending,
            final(self).decay == old(self).decay,
            final(self).last_update == old(self).last_update + old(self).halvings_at(now) * (
            old(self).decay as int),
    {
        let k: u64 = if now >= self.last_update {
            (now - self.last_update) / self.decay
        } else {
            proof {
                lemma_div_of0(self.decay as int);
            }
            0
        };
        proof {
            let delta: int = if now >= self.last_update {
                now - self.last_update
            } else {
                0
            };
            lemma_fundamental_div_mod(delta, self.decay as int);
            lemma_mod_bound(delta, self.decay as int);
            lemma_mul_is_commutative(k as int, self.decay as int);
            lemma_mul_basics(self.decay as int);
            assert(k * self.decay <= delta);
        }
        self.estimate = self.settled_rtt(now);
        self.last_update = self.last_update + k * self.decay;
    }

    /// Feeds one latency sample, observed at `now`: the figure first decays
    /// to its value at `now`, then jumps up to the sample if the sample
    /// exceeds it, and the sample becomes the new decay target.
    pub fn observe(&mut self, rtt: u64, now: u64)
        requires
            old(self).wf(),
        ensures
            final(self).wf(),
            final(self).target == rtt,
            final(self).estimate == if rtt >= old(self).rtt_at(now) {
                rtt as int
            } else {
                old(self).rtt_at(now)
            },
            final(self).pending == old(self).pending,
            final(self).decay == old(self).decay,
            final(self).last_update == old(self).last_update + old(self).halvings_at(now) * (
            old(self).decay as int),
    {
        self.settle(now);
        if rtt >= self.estimate {
            self.estimate = rtt;
        }
        self.target = rtt;
    }

    /// Accounts one dispatched request.
    pub fn start(&mut self)
        requires
            old(self).wf(),
            old(self).pending < u64::MAX,
        ensures
            final(self).wf(),
            final(self).pending == old(self).pending + 1,
            final(self).estimate == old(self).estimate,
            final(self).target == old(self).target,
            final(self).last_update == old(self).last_update,
            final(self).decay == old(self).decay,
    {
        self.pending = self.pending + 1;
    }

    /// Accounts the first byte of a response at `now`, with the measured
    /// dispatch-to-first-byte latency `rtt`. Resolves one pending request
    /// and feeds the sample.
    pub fn end(&mut self, rtt: u64, now: u64)
        requires
            old(self).wf(),
            old(self).pending > 0,
        ensures
            final(self).wf(),
            final(self).pending == old(self).pending - 1,
            final(self).target == rtt,
            final(self).estimate == if rtt >= old(self).rtt_at(now) {
                rtt as int
            } else {
                old(self).rtt_at(now)
            },
            final(self).decay == old(self).decay,
            final(self).last_update == old(self).last_update + old(self).halvings_at(now) * (
            old(self).decay as int),
    {
        self.pending = self.pending - 1;
        self.observe(rtt, now);
    }

    /// Accounts a request abandoned after dispatch and before any response
    /// byte: the pending count still resolves, exactly once, and no latency
    /// sample is taken.
    pub fn cancel(&mut self)
        requires
            old(self).wf(),
            old(self).pending > 0,
        ensures
            final(self).wf(),
            final(self).pending == old(self).pending - 1,
            final(self).estimate == old(self).estimate,
            final(self).target == old(self).target,
            final(self).last_update == old(self).last_update,
            final(self).decay == old(self).decay,
    {
        self.pending = self.pending - 1;
    }

    /// Computes the endpoint's comparable load at `now` under a selection
    /// weight, without touching the state.
    pub fn cost(&self, weight: u64, now: u64) -> (r: u64)
        requires
            self.wf(),
            weight >= 1,
        ensures
            r == self.cost_at(weight, now),
    {
        let rtt = self.settled_rtt(now);
        proof {
            assert((rtt as int) * (self.pending as int + 1) < 0x100000000000000000000000000000000)
                by (nonlinear_arith)
                requires
                    rtt <= 0xffffffffffffffffu64,
                    self.pending <= 0xffffffffffffffffu64,
            ;
            assert((rtt as int) * (self.pending as int + 1) >= 0) by (nonlinear_arith)
                requires
                    rtt >= 0,
                    self.pending >= 0,
            ;
        }
        let prod: u128 = (rtt as u128) * (self.pending as u128 + 1);
        let c: u128 = prod / (weight as u128);
        proof {
            lemma_div_nonincreasing(prod as int, weight as int);
        }
        if c > u64::MAX as u128 {
            u64::MAX
        } else {
            c as u64
        }
    }
}

/// Decay spans compose: the spans consumed up to `n1` plus those consumed
/// from the advanced mark up to `n2` equal the spans counted once at `n2`.
proof fn lemma_halvings_add(e0: Estimate, n1: u64, n2: u64)
    requires
        e0.wf(),
        n1 <= n2,
    ensures
        e0.halvings_at(n1) + e0.settled_at(n1).halvings_at(n2) == e0.halvings_at(n2),
        e0.settled_at(n1).last_update == e0.last_update + e0.halvings_at(n1) * e0.decay,
        e0.halvings_at(n1) >= 0,
        e0.settled_at(n1).halvings_at(n2) >= 0,
{
    let d = e0.decay as int;
    let l0 = e0.last_update as int;
    let k1 = e0.halvings_at(n1);
    lemma_mul_basics(d);
    if n1 < e0.last_update {
        assert(k1 == 0);
        assert(e0.settled_at(n1).last_update == l0);
        if n2 >= e0.last_update {
            lemma_div_pos_is_pos(n2 - l0, d);
        }
    } else {
        let d1 = n1 - l0;
        lemma_fundamental_div_mod(d1, d);
        lemma_mod_bound(d1, d);
        lemma_div_pos_is_pos(d1, d);
        lemma_mul_is_commutative(k1, d);
        assert(k1 * d <= d1);
        let l1 = l0 + k1 * d;
        assert(e0.settled_at(n1).last_update == l1);
        assert(l1 <= n1);
        let d2 = n2 - l0;
        let q = d2 / d;
        let r = d2 % d;
        lemma_fundamental_div_mod(d2, d);
        lemma_mod_bound(d2, d);
        lemma_mul_is_commutative(q, d);
        assert(q >= k1) by (nonlinear_arith)
            requires
                q * d + r >= k1 * d,
                0 <= r < d,
                d > 0,
        ;
        assert(n2 - l1 == (q - k1) * d + r) by (nonlinear_arith)
            requires
                l1 == l0 + k1 * d,
                d2 == n2 - l0,
                d2 == q * d + r,
        ;
        lemma_fundamental_div_mod_converse(n2 - l1, d, q - k1, r);
        assert(e0.settled_at(n1).halvings_at(n2) == q - k1);
    }
}

/// Lazy decay is observationally eager: settling at `n1` and then at `n2`
/// leaves exactly the state that settling once at `n2` leaves, so access
/// frequency cannot change what a reader of the estimator observes.
pub proof fn lemma_lazy_decay_matches_eager(e0: Estimate, n1: u64, n2: u64)
    requires
        e0.wf(),
        n1 <= n2,
    ensures
        e0.settled_at(n1).settled_at(n2) == e0.settled_at(n2),
{
    let d = e0.decay as int;
    let tgt = e0.target as int;
    let est = e0.estimate as int;
    let e1 = e0.settled_at(n1);
    lemma_halvings_add(e0, n1, n2);
    let k1 = e0.halvings_at(n1) as nat;
    let k2 = e1.halvings_at(n2) as nat;
    let kt = e0.halvings_at(n2) as nat;
    assert(k1 + k2 == kt);
    // The advanced marks agree.
    vstd::arithmetic::mul::lemma_mul_is_distributive_add_other_way(d, k1 as int, k2 as int);
    assert((k1 + k2) * d == k1 * d + k2 * d);
    assert(e1.settled_at(n2).last_update == e0.settled_at(n2).last_update);
    // The decayed figures agree: halving the gap k1 times and then k2 times
    // is halving it k1 + k2 times.
    lemma_pow2_pos(k1);
    lemma_pow2_pos(k2);
    let p1 = pow2(k1) as int;
    let p2 = pow2(k2) as int;
    lemma_div_pos_is_pos(est - tgt, p1);
    lemma_div_nonincreasing(est - tgt, p1);
    assert(e1.estimate == tgt + (est - tgt) / p1);
    assert(e1.target == e0.target);
    assert(e1.settled_at(n2).estimate as int == tgt + ((est - tgt) / p1) / p2);
    lemma_div_denominator(est - tgt, p1, p2);
    lemma_pow2_adds(k1, k2);
    assert(((est - tgt) / p1) / p2 == (est - tgt) / (pow2(kt) as int));
    assert(e1.settled_at(n2).estimate == e0.settled_at(n2).estimate);
}

/// One bookkeeping event in the life of an endpoint's pending count.
#[derive(Clone, Copy, PartialEq, Eq, Structural, Debug)]
pub enum PendingEvent {
    /// A request was dispatched to the endpoint.
    Dispatch,
    /// A dispatched request produced its first response byte.
    FirstByte,
    /// A dispatched request was abandoned before any response byte.
    Cancel,
}

/// How many events of a history dispatched a request.
pub open spec fn count_dispatch(s: Seq<PendingEvent>) -> int
    decreases s.len(),
{
    if s.len() == 0 {
        0
    } else {
        count_dispatch(s.drop_last()) + if s.last() is Dispatch {
            1int
        } else {
            0int
        }
    }
}

/// How many events of a history resolved a request, by first byte or by
/// cancellation.
pub open spec fn count_resolution(s: Seq<PendingEvent>) -> int
    decreases s.len(),
{
    if s.len() == 0 {
        0
    } else {
        count_resolution(s.drop_last()) + if s.last() is Dispatch {
            0int
        } else {
            1int
        }
    }
}

/// The pending count after replaying a history over a starting count,
/// moving exactly one per event, as `start`, `end` and `cancel` do.
pub open spec fn replay_pending(p: int, s: Seq<PendingEvent>) -> int
    decreases s.len(),
{
    if s.len() == 0 {
        p
    } else {
        replay_pending(p, s.drop_last()) + if s.last() is Dispatch {
            1int
        } else {
            -1int
        }
    }
}

/// A history is well formed when no prefix resolves more requests than it
/// has dispatched: every first byte and every cancellation answers an
/// earlier, still-outstanding dispatch.
pub open spec fn well_formed_history(s: Seq<PendingEvent>) -> bool {
    forall|i: int|
        0 <= i <= s.len() ==> count_resolution(#[trigger] s.take(i)) <= count_dispatch(s.take(i))
}

/// Pending-count conservation: replaying any history moves the pending count
/// by exactly the dispatches minus the resolutions — no event is lost or
/// double-counted.
pub proof fn lemma_pending_conservation(p: int, s: Seq<PendingEvent>)
    ensures
        replay_pending(p, s) == p + count_dispatch(s) - count_resolution(s),
    decreases s.len(),
{
    if s.len() > 0 {
        lemma_pending_conservation(p, s.drop_last());
    }
}

/// Over a well-formed history the pending count, replayed from zero, never
/// goes negative, and it returns to zero exactly when every dispatched
/// request has resolved or been cancelled.
pub proof fn lemma_pending_never_negative(s: Seq<PendingEvent>)
    requires
        well_formed_history(s),
    ensures
        forall|i: int| 0 <= i <= s.len() ==> replay_pending(0, #[trigger] s.take(i)) >= 0,
        replay_pending(0, s) == 0 <==> count_dispatch(s) == count_resolution(s),
{
    assert forall|i: int| 0 <= i <= s.len() implies replay_pending(0, #[trigger] s.take(i))
        >= 0 by {
        lemma_pending_conservation(0, s.take(i));
    }
    lemma_pending_conservation(0, s);
    assert(s.take(s.len() as int) == s);
}

} // verus!

