use vstd::arithmetic::power2::{lemma2_to64, lemma_pow2_unfold, pow2};
use vstd::prelude::*;

verus! {

/// Default first reconnect delay, in milliseconds.
pub const BASE_DELAY_MS: u64 = 1000;

/// Default largest reconnect delay, in milliseconds.
pub const MAX_DELAY_MS: u64 = 60000;

/// The ceiling that follows `c`: twice `c`, but never above `cap`.
pub open spec fn grown(c: u64, cap: u64) -> u64 {
    if c as int * 2 >= cap as int {
        cap
    } else {
        (c * 2) as u64
    }
}

/// The ceiling after `n` failed attempts since the last reset.
pub open spec fn ceiling_after(base: u64, cap: u64, n: nat) -> u64
    decreases n,
{
    if n == 0 {
        base
    } else {
        grown(ceiling_after(base, cap, (n - 1) as nat), cap)
    }
}

/// Exponential reconnect backoff with a cap. Each failed attempt uses the
/// current ceiling and doubles it up to the cap; a successful activation
/// resets it to the base.
pub struct Backoff {
    base: u64,
    cap: u64,
    current: u64,
    failures: Ghost<nat>,
}

impl Backoff {
    pub closed spec fn base(&self) -> u64 {
        self.base
    }

    pub closed spec fn cap(&self) -> u64 {
        self.cap
    }

    /// The ceiling that the next failed attempt will use.
    pub closed spec fn ceiling(&self) -> u64 {
        self.current
    }

    /// Failed attempts since the last reset.
    pub closed spec fn failures(&self) -> nat {
        self.failures@
    }

    pub closed spec fn wf(&self) -> bool {
        &&& 1 <= self.base <= self.cap
        &&& self.current == ceiling_after(self.base, self.cap, self.failures@)
    }

    pub fn new(base: u64, cap: u64) -> (r: Backoff)
        requires
            1 <= base <= cap,
        ensures
            r.wf(),
            r.base() == base,
            r.cap() == cap,
            r.failures() == 0,
            r.ceiling() == base,
    {
        Backoff { base, cap, current: base, failures: Ghost(0) }
    }

    /// Records a failed attempt and returns the ceiling it uses.
    pub fn next_ceiling(&mut self) -> (r: u64)
        requires
            old(self).wf(),
        ensures
            final(self).wf(),
            r == old(self).ceiling(),
            final(self).ceiling() == grown(old(self).ceiling(), old(self).cap()),
            final(self).failures() == old(self).failures() + 1,
            final(self).base() == old(self).base(),
            final(self).cap() == old(self).cap(),
    {
        let r = self.current;
        if self.current >= self.cap - self.current {
            self.current = self.cap;
        } else {
            self.current = self.current * 2;
        }
        self.failures = Ghost(self.failures@ + 1);
        r
    }

    /// Back to the base ceiling, after the session became active.
    pub fn reset(&mut self)
        requires
            old(self).wf(),
        ensures
            final(self).wf(),
            final(self).ceiling() == old(self).base(),
            final(self).failures() == 0,
            final(self).base() == old(self).base(),
            final(self).cap() == old(self).cap(),
    {
        self.current = self.base;
        self.failures = Ghost(0);
    }

    /// The current ceiling.
    pub fn current(&self) -> (r: u64)
        ensures
            r == self.ceiling(),
    {
        self.current
    }
}

/// Full jitter: a delay drawn uniformly from `0..=ceiling` by the caller's
/// random number.
pub fn full_jitter(ceiling: u64, random: u64) -> (r: u64)
    ensures
        r <= ceiling,
        r as int == random as int % (ceiling as int + 1),
{
    if ceiling == u64::MAX {
        random
    } else {
        random % (ceiling + 1)
    }
}

proof fn lemma_ceiling_bounds(base: u64, cap: u64, n: nat)
    requires
        1 <= base <= cap,
    ensures
        base <= ceiling_after(base, cap, n) <= cap,
        ceiling_after(base, cap, n) <= ceiling_after(base, cap, n + 1),
    decreases n,
{
    if n > 0 {
        lemma_ceiling_bounds(base, cap, (n - 1) as nat);
    }
}

/// Ceilings never decrease from one failed attempt to the next, never pass
/// the cap, and stay at the cap once they reach it.
pub proof fn law_backoff_monotone_until_cap(base: u64, cap: u64, n: nat, m: nat)
    requires
        1 <= base <= cap,
        n <= m,
    ensures
        ceiling_after(base, cap, n) <= ceiling_after(base, cap, m) <= cap,
        ceiling_after(base, cap, n) == cap ==> ceiling_after(base, cap, m) == cap,
    decreases m - n,
{
    lemma_ceiling_bounds(base, cap, n);
    lemma_ceiling_bounds(base, cap, m);
    if n < m {
        law_backoff_monotone_until_cap(base, cap, n + 1, m);
    }
}

/// Below the cap, the ceiling after `n` failed attempts is `base * 2^n`.
pub proof fn law_backoff_doubles(base: u64, cap: u64, n: nat)
    requires
        1 <= base <= cap,
        ceiling_after(base, cap, n) < cap,
    ensures
        ceiling_after(base, cap, n) as int == base as int * pow2(n) as int,
    decreases n,
{
    if n == 0 {
        lemma2_to64();
    } else {
        let prev = ceiling_after(base, cap, (n - 1) as nat);
        assert(prev as int * 2 < cap);
        law_backoff_doubles(base, cap, (n - 1) as nat);
        lemma_pow2_unfold(n);
        let q = pow2((n - 1) as nat) as int;
        assert(base as int * (2 * q) == 2 * (base as int * q)) by (nonlinear_arith);
    }
}

} // verus!
