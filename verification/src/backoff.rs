//! The finite exponential backoff generator used between reconnect attempts.

use vstd::prelude::*;

verus! {

/// A finite generator of reconnect delays in seconds: the first delay is
/// `min_secs`, each later delay is the previous one times `factor`, capped
/// at `max_secs`; after `retries` delays (when `retries > 0`) it is exhausted.
#[derive(Debug, Clone)]
pub struct Backoff {
    /// Maximum number of delays handed out; 0 means no limit.
    pub retries: u32,
    /// First and smallest delay in seconds.
    pub min_secs: u32,
    /// Largest delay in seconds.
    pub max_secs: u32,
    /// Multiplier applied between delays.
    pub factor: u32,
    /// How many delays have been handed out since the last reset.
    pub counter: u32,
    /// The delay the next call hands out.
    pub value_secs: u32,
}

/// The smaller of two integers.
pub open spec fn min_int(a: int, b: int) -> int {
    if a <= b {
        a
    } else {
        b
    }
}

/// A generator whose configuration the delay laws hold of: the range is
/// ordered, the factor does not shrink delays, the capped product stays
/// within the machine word, and an untouched generator sits at its first delay.
pub open spec fn backoff_wf(b: Backoff) -> bool {
    &&& b.min_secs <= b.max_secs
    &&& b.factor >= 1
    &&& b.max_secs as int * b.factor as int <= u32::MAX as int
    &&& b.min_secs <= b.value_secs <= b.max_secs
    &&& (b.counter == 0 ==> b.value_secs == b.min_secs)
}

/// Whether a call of `next` on state `b` hands out a delay.
pub open spec fn spec_yields(b: Backoff) -> bool {
    !(b.retries > 0 && b.counter >= b.retries)
}

/// The delay the call after the next one will hand out: the current delay
/// grown by the factor, capped at the maximum.
pub open spec fn spec_next_value(b: Backoff) -> int {
    min_int(b.value_secs as int * b.factor as int, b.max_secs as int)
}

/// The generator state after one call of `next`.
pub open spec fn spec_step(b: Backoff) -> Backoff {
    if spec_yields(b) {
        Backoff {
            counter: (b.counter + 1) as u32,
            value_secs: spec_next_value(b) as u32,
            ..b
        }
    } else {
        b
    }
}

/// The generator state after `n` calls of `next`.
pub open spec fn spec_run(b: Backoff, n: nat) -> Backoff
    decreases n,
{
    if n == 0 {
        b
    } else {
        spec_step(spec_run(b, (n - 1) as nat))
    }
}

impl Default for Backoff {
    /// The generator the sessions start from: 10 attempts, 1 s to 20 s, doubling.
    fn default() -> (r: Backoff)
        ensures
            r == (Backoff {
                retries: 10,
                min_secs: 1,
                max_secs: 20,
                factor: 2,
                counter: 0,
                value_secs: 1,
            }),
            backoff_wf(r),
    {
        Backoff::new(10, 1, 20, 2)
    }
}

impl Backoff {
    pub fn new(retries: u32, min_secs: u32, max_secs: u32, factor: u32) -> (r: Backoff)
        ensures
            r == (Backoff { retries, min_secs, max_secs, factor, counter: 0, value_secs: min_secs }),
    {
        Backoff { retries, min_secs, max_secs, factor, counter: 0, value_secs: min_secs }
    }

    /// Returns the generator to its first delay.
    pub fn reset(&mut self)
        ensures
            *final(self) == (Backoff { counter: 0, value_secs: old(self).min_secs, ..*old(self) }),
    {
        self.counter = 0;
        self.value_secs = self.min_secs;
    }

    /// How many delays have been handed out since the last reset.
    pub fn get_iteration_count(&self) -> (r: u32)
        ensures
            r == self.counter,
    {
        self.counter
    }

    /// The next delay in seconds, or None once the attempts are exhausted.
    pub fn next(&mut self) -> (r: Option<u32>)
        requires
            old(self).retries > 0 || old(self).counter < u32::MAX,
            old(self).value_secs as int * old(self).factor as int <= u32::MAX as int,
        ensures
            !spec_yields(*old(self)) ==> r is None && *final(self) == *old(self),
            spec_yields(*old(self)) ==> r == Some(old(self).value_secs) && *final(self)
                == spec_step(*old(self)),
    {
        if self.retries > 0 && self.counter >= self.retries {
            return None;
        }
        let value = self.value_secs;
        self.counter = self.counter + 1;
        let grown = self.value_secs * self.factor;
        self.value_secs = if grown <= self.max_secs {
            grown
        } else {
            self.max_secs
        };
        Some(value)
    }
}

/// One step keeps the generator well formed.
pub proof fn lemma_backoff_step_wf(b: Backoff)
    requires
        backoff_wf(b),
        b.retries > 0 || b.counter < u32::MAX,
    ensures
        backoff_wf(spec_step(b)),
{
    if spec_yields(b) {
        assert(b.value_secs as int * b.factor as int >= b.value_secs as int) by (nonlinear_arith)
            requires
                b.factor as int >= 1 && b.value_secs as int >= 0,
        ;
    }
}

/// Delays never shrink: the delay handed out after the next one is at least
/// the next one, and once the cap is reached every later delay equals the cap.
pub proof fn lemma_backoff_delays_monotone(b: Backoff)
    requires
        backoff_wf(b),
        spec_yields(b),
    ensures
        b.value_secs as int <= spec_next_value(b),
        spec_next_value(b) <= b.max_secs as int,
        b.value_secs == b.max_secs ==> spec_next_value(b) == b.max_secs as int,
{
    assert(b.value_secs as int * b.factor as int >= b.value_secs as int) by (nonlinear_arith)
        requires
            b.factor as int >= 1 && b.value_secs as int >= 0,
    ;
}

/// After `n` calls on a fresh generator, exactly `min(n, retries)` delays
/// have been handed out; in particular a generator with a limit hands out
/// no delay beyond it.
pub proof fn lemma_backoff_at_most_retries(b: Backoff, n: nat)
    requires
        b.counter == 0,
        b.retries > 0,
    ensures
        spec_run(b, n).retries == b.retries,
        spec_run(b, n).counter as int == min_int(n as int, b.retries as int),
        n >= b.retries ==> !spec_yields(spec_run(b, n)),
    decreases n,
{
    if n > 0 {
        lemma_backoff_at_most_retries(b, (n - 1) as nat);
        let prev = spec_run(b, (n - 1) as nat);
        assert(spec_run(b, n) == spec_step(prev));
        if spec_yields(prev) {
            assert(prev.counter < b.retries);
            assert(spec_step(prev).counter == prev.counter + 1);
        }
    }
}

/// A reset generator hands out its smallest delay first.
pub proof fn lemma_backoff_reset_restarts(b: Backoff)
    requires
        backoff_wf(b),
        b.counter == 0,
    ensures
        b.retries > 0 || b.counter < u32::MAX ==> spec_yields(b) && b.value_secs == b.min_secs,
{
}

} // verus!
