//! Nonce bookkeeping: one monotonically increasing counter per wallet,
//! seeded once from the chain and advanced exactly once per dispatched
//! transaction, strictly before that transaction is sent.

use vstd::prelude::*;

verus! {

/// Per-wallet counters of the next unused nonce.
pub struct NonceTracker {
    counters: Vec<u64>,
}

impl View for NonceTracker {
    type V = Seq<u64>;

    closed spec fn view(&self) -> Seq<u64> {
        self.counters@
    }
}

impl NonceTracker {
    /// Start tracking from the given per-wallet starting nonces, in
    /// wallet order.
    pub fn seed(initial: Vec<u64>) -> (r: NonceTracker)
        ensures
            r@ =~= initial@,
    {
        NonceTracker { counters: initial }
    }

    /// How many wallets are tracked.
    pub fn count(&self) -> (r: usize)
        ensures
            r == self@.len(),
    {
        self.counters.len()
    }

    /// The next unused nonce of wallet `i`, without issuing it.
    pub fn current(&self, i: usize) -> (r: u64)
        requires
            i < self@.len(),
        ensures
            r == self@[i as int],
    {
        self.counters[i]
    }

    /// Issue the next nonce for wallet `i`: returns the current value and
    /// advances the stored counter by exactly one. No other wallet's
    /// counter changes.
    pub fn next_nonce(&mut self, i: usize) -> (r: u64)
        requires
            i < old(self)@.len(),
            old(self)@[i as int] < u64::MAX,
        ensures
            r == old(self)@[i as int],
            final(self)@ =~= old(self)@.update(i as int, (r + 1) as u64),
    {
        let r = self.counters[i];
        self.counters.set(i, r + 1);
        r
    }
}

} // verus!
