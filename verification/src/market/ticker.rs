//! Sampling of ticker updates for storage.
use vstd::prelude::*;

verus! {

/// One ticker update in this many is saved.
pub const TICKER_SAVE_EVERY: u64 = 100;

/// Counts ticker updates and picks every hundredth one for saving.
pub struct SaveSampler {
    count: u64,
}

/// Updates picked for saving among the first `k`.
pub open spec fn saves_in(k: nat) -> nat
    decreases k,
{
    if k == 0 {
        0
    } else {
        saves_in((k - 1) as nat) + if k % (TICKER_SAVE_EVERY as nat) == 0 {
            1nat
        } else {
            0nat
        }
    }
}

impl SaveSampler {
    /// Updates counted so far.
    pub closed spec fn seen(&self) -> nat {
        self.count as nat
    }

    /// No update counted yet.
    pub fn new() -> (s: Self)
        ensures
            s.seen() == 0,
    {
        SaveSampler { count: 0 }
    }

    /// Updates counted so far.
    pub fn seen_count(&self) -> (n: u64)
        ensures
            n == self.seen(),
    {
        self.count
    }

    /// Counts one update; whether it is one to save (every hundredth).
    pub fn record(&mut self) -> (save: bool)
        requires
            old(self).seen() < u64::MAX,
        ensures
            final(self).seen() == old(self).seen() + 1,
            save == (final(self).seen() % (TICKER_SAVE_EVERY as nat) == 0),
    {
        self.count = self.count + 1;
        self.count % TICKER_SAVE_EVERY == 0
    }
}

/// Of the first `k` updates, exactly `k / 100` are saved.
pub proof fn one_save_per_hundred(k: nat)
    ensures
        saves_in(k) == k / (TICKER_SAVE_EVERY as nat),
    decreases k,
{
    if k > 0 {
        one_save_per_hundred((k - 1) as nat);
        assert(k / 100 == (k - 1) / 100 + if k % 100 == 0 {
            1int
        } else {
            0int
        }) by (nonlinear_arith)
            requires
                k > 0,
        ;
    }
}

} // verus!
