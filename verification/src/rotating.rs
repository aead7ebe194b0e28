//! A two-slot time-bucketed accumulator.
//!
//! A `Rotating<T>` keeps a `read` slot holding the data accumulated during
//! the previous full period and a `write` slot accumulating the current,
//! incomplete period. Rotation is lazy: every access first settles the
//! window against the clock, so an idle window costs one comparison on its
//! next access rather than per-period work.

use vstd::prelude::*;
use vstd::arithmetic::div_mod::{
    lemma_div_of0, lemma_div_pos_is_pos, lemma_fundamental_div_mod,
    lemma_fundamental_div_mod_converse, lemma_mod_bound,
};
use vstd::arithmetic::mul::{lemma_mul_basics, lemma_mul_is_commutative};

use crate::clock;
use crate::clock::Duration;

verus! {

/// An accumulator that can be reset to an empty state.
pub trait Clear {
    /// Whether the accumulator currently holds no data.
    spec fn is_clear(&self) -> bool;

    fn clear(&mut self)
        ensures
            final(self).is_clear(),
    ;
}

/// A count of accumulated samples; the simplest clearable accumulator.
#[derive(Clone, Copy, PartialEq, Eq, Structural, Debug)]
pub struct Tally {
    pub count: u64,
}

impl Tally {
    pub fn new() -> (r: Tally)
        ensures
            r.is_clear(),
    {
        Tally { count: 0 }
    }

    pub fn record(&mut self)
        requires
            old(self).count < u64::MAX,
        ensures
            final(self).count == old(self).count + 1,
    {
        self.count = self.count + 1;
    }
}

impl Clear for Tally {
    open spec fn is_clear(&self) -> bool {
        self.count == 0
    }

    fn clear(&mut self)
        ensures
            final(self).is_clear(),
    {
        self.count = 0;
    }
}

/// The dual-buffer window. `last_rotation` and `period` are nanosecond
/// counts relative to `base`, the instant the window was created.
pub struct Rotating<T> {
    pub read: T,
    pub write: T,
    pub base: std::time::Instant,
    pub last_rotation: u64,
    pub period: u64,
}

impl<T: Clear> Rotating<T> {
    /// A window is well formed when its period is a positive span.
    pub open spec fn wf(&self) -> bool {
        self.period > 0
    }

    /// How many whole periods have elapsed since the last rotation, as seen
    /// at `now` (nanoseconds since `base`). A clock reading that precedes
    /// the last rotation counts as no elapsed period.
    pub open spec fn rotations_at(&self, now: u64) -> int {
        if now >= self.last_rotation {
            (now - self.last_rotation) / (self.period as int)
        } else {
            0
        }
    }

    /// The whole effect of settling a window `pre` at time `now`, yielding
    /// `post`: no whole period elapsed leaves both slots untouched; exactly
    /// one promotes the write slot to the read slot and clears the new write
    /// slot; two or more clear both slots, since even the write slot's data
    /// is older than one full window. `last_rotation` always advances by
    /// exactly the number of whole periods elapsed, preserving phase.
    pub open spec fn rotate_rel(pre: Self, now: u64, post: Self) -> bool {
        let k = pre.rotations_at(now);
        &&& post.period == pre.period
        &&& post.base == pre.base
        &&& post.last_rotation == pre.last_rotation + k * pre.period
        &&& (k == 0 ==> post.read == pre.read && post.write == pre.write)
        &&& (k == 1 ==> post.read == pre.write && post.write.is_clear())
        &&& (k >= 2 ==> post.read.is_clear() && post.write.is_clear())
    }

    /// The length of a `Duration` in nanoseconds.
    pub fn duration_as_nanos(d: &Duration) -> (r: u64)
        requires
            clock::dur_nanos(*d) <= u64::MAX,
        ensures
            r == clock::dur_nanos(*d),
    {
        d.secs * 1_000_000_000 + d.nanos as u64
    }

    /// Builds a window over two empty slots. The period must be a positive
    /// span whose nanosecond count fits in a machine word.
    pub fn new(period: Duration, read: T, write: T) -> (r: Self)
        requires
            0 < clock::dur_nanos(period) <= u64::MAX,
            read.is_clear(),
            write.is_clear(),
        ensures
            r.wf(),
            r.read == read,
            r.write == write,
            r.last_rotation == 0,
            r.period == clock::dur_nanos(period),
    {
        let base = clock::clock_now();
        let period = Self::duration_as_nanos(&period);
        Rotating { read, write, base, last_rotation: 0, period }
    }

    /// Promotes the write slot to the read slot and clears the new write
    /// slot. The previous read contents are discarded.
    pub fn rotate(&mut self)
        ensures
            final(self).read == old(self).write,
            final(self).write.is_clear(),
            final(self).base == old(self).base,
            final(self).last_rotation == old(self).last_rotation,
            final(self).period == old(self).period,
    {
        core::mem::swap(&mut self.read, &mut self.write);
        self.write.clear();
    }

    /// Empties both slots.
    pub fn clear(&mut self)
        ensures
            final(self).read.is_clear(),
            final(self).write.is_clear(),
            final(self).base == old(self).base,
            final(self).last_rotation == old(self).last_rotation,
            final(self).period == old(self).period,
    {
        self.read.clear();
        self.write.clear();
    }

    /// Settles the window against a clock reading of `now` nanoseconds since
    /// `base`. `last_rotation` advances by a whole multiple of the period,
    /// never by a fraction of one, so the window's phase never drifts.
    pub fn maybe_rotate_at(&mut self, now: u64)
        requires
            old(self).wf(),
        ensures
            final(self).wf(),
            Self::rotate_rel(*old(self), now, *final(self)),
            (final(self).last_rotation - old(self).last_rotation) % (old(self).period as int)
                == 0,
    {
        let delta: u64 = if now >= self.last_rotation {
            now - self.last_rotation
        } else {
            0
        };
        let rotations: u64 = delta / self.period;
        proof {
            lemma_fundamental_div_mod(delta as int, self.period as int);
            lemma_mod_bound(delta as int, self.period as int);
            lemma_mul_is_commutative(rotations as int, self.period as int);
            assert(rotations * self.period <= delta);
            vstd::arithmetic::div_mod::lemma_mod_multiples_basic(
                rotations as int,
                self.period as int,
            );
            if now < self.last_rotation {
                lemma_div_of0(self.period as int);
                lemma_mul_basics(self.period as int);
            }
        }
        if rotations >= 2 {
            self.clear();
        } else if rotations == 1 {
            self.rotate();
        }
        self.last_rotation = self.last_rotation + rotations * self.period;
    }

    /// Settles the window against the clock now. The reading itself is not
    /// observable, so the contract only says that the state moved by a
    /// rotation at some instant, and that phase was preserved.
    fn maybe_rotate(&mut self)
        requires
            old(self).wf(),
        ensures
            final(self).wf(),
            exists|now: u64| Self::rotate_rel(*old(self), now, *final(self)),
            (final(self).last_rotation - old(self).last_rotation) % (old(self).period as int)
                == 0,
    {
        let t = clock::clock_now();
        let now = clock::nanos_between(&self.base, &t);
        self.maybe_rotate_at(now);
        proof {
            assert(Self::rotate_rel(*old(self), now, *self));
        }
    }

    /// Settles the window, then hands out the slot holding the previous full
    /// period's data.
    pub fn read(&mut self) -> (r: &mut T)
        requires
            old(self).wf(),
        ensures
            final(self).wf(),
            exists|now: u64, mid: Self|
                #[trigger] Self::rotate_rel(*old(self), now, mid) && *r == mid.read
                    && final(self).read == *final(r) && final(self).write == mid.write
                    && final(self).base == mid.base
                    && final(self).last_rotation == mid.last_rotation
                    && final(self).period == mid.period,
            (final(self).last_rotation - old(self).last_rotation) % (old(self).period as int)
                == 0,
    {
        self.maybe_rotate();
        proof {
            let now = choose|now: u64| Self::rotate_rel(*old(self), now, *self);
            let mid = *self;
            assert(Self::rotate_rel(*old(self), now, mid));
        }
        &mut self.read
    }

    /// Settles the window, then hands out the slot accumulating the current
    /// period's data.
    pub fn write(&mut self) -> (w: &mut T)
        requires
            old(self).wf(),
        ensures
            final(self).wf(),
            exists|now: u64, mid: Self|
                #[trigger] Self::rotate_rel(*old(self), now, mid) && *w == mid.write
                    && final(self).write == *final(w) && final(self).read == mid.read
                    && final(self).base == mid.base
                    && final(self).last_rotation == mid.last_rotation
                    && final(self).period == mid.period,
            (final(self).last_rotation - old(self).last_rotation) % (old(self).period as int)
                == 0,
    {
        self.maybe_rotate();
        proof {
            let now = choose|now: u64| Self::rotate_rel(*old(self), now, *self);
            let mid = *self;
            assert(Self::rotate_rel(*old(self), now, mid));
        }
        &mut self.write
    }
}

/// Lazy settling gives the same observable window as eager settling: settling
/// at `n1` and then at `n2` leaves the window in a state that agrees with
/// settling once at `n2` — the same `last_rotation` and period, equal slot
/// contents when at most one whole period elapsed in all, and empty slots in
/// exactly the same circumstances. Rotation frequency therefore cannot change
/// what a reader observes.
pub proof fn lemma_lazy_rotation_matches_eager<T: Clear>(
    s0: Rotating<T>,
    n1: u64,
    s1: Rotating<T>,
    n2: u64,
    s2: Rotating<T>,
    e: Rotating<T>,
)
    requires
        s0.wf(),
        n1 <= n2,
        Rotating::rotate_rel(s0, n1, s1),
        Rotating::rotate_rel(s1, n2, s2),
        Rotating::rotate_rel(s0, n2, e),
    ensures
        s2.last_rotation == e.last_rotation,
        s2.period == e.period,
        s0.rotations_at(n2) == 0 ==> s2.read == e.read && s2.write == e.write,
        s0.rotations_at(n2) == 1 ==> s2.read == e.read && s2.write.is_clear()
            && e.write.is_clear(),
        s0.rotations_at(n2) >= 2 ==> s2.read.is_clear() && s2.write.is_clear()
            && e.read.is_clear() && e.write.is_clear(),
{
    let p = s0.period as int;
    let k1 = s0.rotations_at(n1);
    let k2 = s1.rotations_at(n2);
    let kt = s0.rotations_at(n2);
    lemma_rotation_counts_add(s0, n1, s1, n2);
    assert(k1 + k2 == kt);
    if n1 >= s0.last_rotation {
        lemma_div_pos_is_pos(n1 - s0.last_rotation, p);
    }
    if n2 >= s1.last_rotation {
        lemma_div_pos_is_pos(n2 - s1.last_rotation, p);
    }
    assert(k1 >= 0 && k2 >= 0);
    assert(s2.last_rotation == s0.last_rotation + k1 * p + k2 * p);
    assert((k1 + k2) * p == k1 * p + k2 * p) by (nonlinear_arith);
    assert(s2.last_rotation == e.last_rotation);
}

/// Rotation counts compose: the periods counted up to `n1` plus those counted
/// from the advanced mark up to `n2` equal the periods counted once at `n2`.
proof fn lemma_rotation_counts_add<T: Clear>(
    s0: Rotating<T>,
    n1: u64,
    s1: Rotating<T>,
    n2: u64,
)
    requires
        s0.wf(),
        n1 <= n2,
        Rotating::rotate_rel(s0, n1, s1),
    ensures
        s0.rotations_at(n1) + s1.rotations_at(n2) == s0.rotations_at(n2),
{
    let p = s0.period as int;
    let l0 = s0.last_rotation as int;
    let k1 = s0.rotations_at(n1);
    lemma_mul_basics(p);
    if n1 < s0.last_rotation {
        assert(k1 == 0);
        assert(s1.last_rotation == l0);
    } else {
        let d1 = n1 - l0;
        lemma_fundamental_div_mod(d1, p);
        lemma_mod_bound(d1, p);
        lemma_mul_is_commutative(k1, p);
        assert(k1 * p <= d1);
        assert(s1.last_rotation == l0 + k1 * p);
        assert(s1.last_rotation <= n1);
        let d2 = n2 - l0;
        let q = d2 / p;
        let r = d2 % p;
        lemma_fundamental_div_mod(d2, p);
        lemma_mod_bound(d2, p);
        // n2 - s1.last_rotation == (q - k1) * p + r, with q - k1 >= 0.
        assert(q * p + r >= k1 * p);
        assert(q >= k1) by (nonlinear_arith)
            requires
                q * p + r >= k1 * p,
                0 <= r < p,
                p > 0,
        ;
        assert(n2 - s1.last_rotation == (q - k1) * p + r) by (nonlinear_arith)
            requires
                s1.last_rotation == l0 + k1 * p,
                d2 == n2 - l0,
                d2 == q * p + r,
        ;
        lemma_fundamental_div_mod_converse(n2 - s1.last_rotation, p, q - k1, r);
        assert(s1.rotations_at(n2) == q - k1);
    }
}

} // verus!

