use vstd::prelude::*;

verus! {

/// Points awarded for each destroyed target.
pub const HIT_POINTS: u64 = 10;

/// Session score: starts at zero, grows by [`HIT_POINTS`] per destroyed
/// target, and has no decrement path.
pub struct Score {
    pub points: u64,
}

impl Score {
    /// A fresh session starts with no points.
    pub fn new() -> (s: Score)
        ensures
            s.points == 0,
    {
        Score { points: 0 }
    }

    /// Awards the points for one destroyed target.
    pub fn award_hit(&mut self)
        requires
            old(self).points + HIT_POINTS <= u64::MAX,
        ensures
            final(self).points == old(self).points + HIT_POINTS,
    {
        self.points = self.points + HIT_POINTS;
    }

    /// Current score, for the host's label renderer.
    pub fn read(&self) -> (v: u64)
        ensures
            v == self.points,
    {
        self.points
    }
}

/// The score a fresh session shows after `n` successful hits, one
/// [`Score::award_hit`] per hit.
pub open spec fn points_after_hits(n: nat) -> nat
    decreases n,
{
    if n == 0 {
        0
    } else {
        (points_after_hits((n - 1) as nat) + HIT_POINTS) as nat
    }
}

/// Law: after `n` successful hits the score reads exactly `10 * n`, and the
/// score after a further hit is never smaller, so the counter is monotone.
pub proof fn lemma_score_after_hits(n: nat)
    ensures
        points_after_hits(n) == 10 * n,
        n > 0 ==> points_after_hits((n - 1) as nat) <= points_after_hits(n),
    decreases n,
{
    if n > 0 {
        lemma_score_after_hits((n - 1) as nat);
    }
}

} // verus!
