//! Exponential backoff with a fixed retry budget.
//!
//! A resolution stage retries a failed network call after a delay of
//! `2^k` seconds on the `k`-th failure, up to a fixed number of calls.
//! The machine accounts for every second it has asked callers to wait, so
//! terminal failure provably comes only after the full cumulative backoff.

use vstd::prelude::*;

verus! {

/// How many calls a resolution stage may make before giving up.
pub const RESOLVE_ATTEMPT_LIMIT: u32 = 3;

pub open spec fn pow2(k: nat) -> nat
    decreases k,
{
    if k == 0 {
        1
    } else {
        2 * pow2((k - 1) as nat)
    }
}

/// The cumulative wait after `n` retries: `2^1 + 2^2 + ... + 2^n`.
pub open spec fn backoff_total(n: nat) -> nat
    decreases n,
{
    if n == 0 {
        0
    } else {
        backoff_total((n - 1) as nat) + pow2(n)
    }
}

proof fn lemma_pow2_shift(k: nat)
    requires
        k <= 63,
    ensures
        pow2(k) == 1u64 << (k as u64),
    decreases k,
{
    if k == 0 {
        assert(1u64 << 0u64 == 1u64) by (bit_vector);
    } else {
        lemma_pow2_shift((k - 1) as nat);
        let a = (k - 1) as u64;
        assert(a <= 62 ==> 1u64 << ((a + 1) as u64) == (1u64 << a) * 2) by (bit_vector);
        assert(k as u64 == a + 1);
    }
}

proof fn lemma_pow2_bound(k: nat)
    requires
        k <= 32,
    ensures
        pow2(k) <= 0x1_0000_0000,
{
    lemma_pow2_shift(k);
    let a = k as u64;
    assert(a <= 32 ==> 1u64 << a <= 0x1_0000_0000u64) by (bit_vector);
}

/// The closed form of the cumulative wait: `2^(n+1) - 2`.
pub proof fn lemma_backoff_total_closed(n: nat)
    ensures
        backoff_total(n) + 2 == 2 * pow2(n),
    decreases n,
{
    if n > 0 {
        lemma_backoff_total_closed((n - 1) as nat);
    }
}

/// Terminal failure comes only after the full cumulative backoff: when a
/// stage's budget is spent after `n` retries, the delays it handed out
/// sum to exactly `2^1 + 2^2 + ... + 2^n`, that is `2^(n+1) - 2` seconds.
pub proof fn lemma_terminal_failure_full_backoff(b: Backoff)
    requires
        b.wf(),
        b.is_exhausted(),
    ensures
        b.waited() == backoff_total(b.attempts() as nat),
        b.waited() + 2 == 2 * pow2(b.attempts() as nat),
        b.attempts() == b.limit() - 1,
{
    lemma_backoff_total_closed(b.attempts() as nat);
}

/// Retry accounting for one resolution stage.  `attempts` failures have
/// happened so far; a retry was scheduled after each, waiting `2^k`
/// seconds after the `k`-th, until the budget of calls is spent.
pub struct Backoff {
    attempts: u32,
    limit: u32,
    waited: u64,
    exhausted: bool,
}

impl Backoff {
    /// Failed calls so far that were answered with a retry.
    pub closed spec fn attempts(&self) -> u32 {
        self.attempts
    }

    /// The budget: how many calls may be made in all.
    pub closed spec fn limit(&self) -> u32 {
        self.limit
    }

    /// Seconds of delay handed out so far.
    pub closed spec fn waited(&self) -> u64 {
        self.waited
    }

    /// Whether the budget is spent and failure is terminal.
    pub closed spec fn is_exhausted(&self) -> bool {
        self.exhausted
    }

    /// Every second of delay is accounted for: what was waited is exactly
    /// the cumulative backoff of the retries so far.
    pub closed spec fn wf(&self) -> bool {
        &&& 1 <= self.limit <= 32
        &&& self.attempts < self.limit
        &&& self.waited == backoff_total(self.attempts as nat)
        &&& self.exhausted ==> self.attempts == self.limit - 1
    }

    pub fn new(limit: u32) -> (r: Backoff)
        requires
            1 <= limit <= 32,
        ensures
            r.wf(),
            r.attempts() == 0,
            r.limit() == limit,
            r.waited() == 0,
            !r.is_exhausted(),
    {
        Backoff { attempts: 0, limit, waited: 0, exhausted: false }
    }

    /// A transient failure.  Answers the delay in seconds before the next
    /// call, or `None` where the budget is spent: then the failure is
    /// terminal, after a cumulative wait of `2^1 + ... + 2^n` seconds for
    /// the `n` retries that were made.
    pub fn on_failure(&mut self) -> (r: Option<u64>)
        requires
            old(self).wf(),
        ensures
            final(self).wf(),
            final(self).limit() == old(self).limit(),
            old(self).attempts() + 1 < old(self).limit() ==> (r matches Some(d) && d == pow2(
                (old(self).attempts() + 1) as nat,
            ) && final(self).attempts() == old(self).attempts() + 1 && final(self).waited()
                == old(self).waited() + d && !final(self).is_exhausted()),
            old(self).attempts() + 1 >= old(self).limit() ==> r is None && final(self).is_exhausted() && final(self).attempts() == old(self).attempts() && final(self).waited() == old(self).waited(),
    {
        if self.attempts + 1 < self.limit {
            self.attempts = self.attempts + 1;
            let delay = pow2_u64(self.attempts);
            proof {
                lemma_pow2_bound(self.attempts as nat);
                lemma_backoff_total_closed(self.attempts as nat);
                lemma_pow2_bound((self.attempts + 1) as nat);
            }
            self.waited = self.waited + delay;
            Some(delay)
        } else {
            self.exhausted = true;
            None
        }
    }
}

/// `2^k`, exactly.
fn pow2_u64(k: u32) -> (r: u64)
    requires
        k <= 32,
    ensures
        r == pow2(k as nat),
{
    let mut r: u64 = 1;
    let mut i: u32 = 0;
    while i < k
        invariant
            i <= k <= 32,
            r == pow2(i as nat),
        decreases k - i,
    {
        proof {
            lemma_pow2_bound(i as nat);
        }
        r = r * 2;
        i = i + 1;
    }
    r
}

} // verus!
