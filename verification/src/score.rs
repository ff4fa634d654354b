//! The runner's tally.

use vstd::prelude::*;

verus! {

/// What a run has earned so far.
#[derive(Clone, Copy, Debug, PartialEq, Eq, Structural)]
pub struct Score {
    pub coins: i64,
    pub score: i64,
}

impl Score {
    /// The tally at the start of a run: nothing.
    pub fn new() -> (tally: Score)
        ensures
            tally == (Score { coins: 0, score: 0 }),
    {
        Score { coins: 0, score: 0 }
    }

    /// Counts one collected coin.
    pub fn collect_coin(&mut self)
        requires
            old(self).coins < i64::MAX,
        ensures
            final(self).coins == old(self).coins + 1,
            final(self).score == old(self).score,
    {
        self.coins = self.coins + 1;
    }
}

impl Default for Score {
    fn default() -> (tally: Score)
        ensures
            tally == (Score { coins: 0, score: 0 }),
    {
        Score::new()
    }
}

} // verus!
