//! Win/loss/draw counters, per game and per colour-reversed game pair.

use vstd::prelude::*;

verus! {

/// Trinomial counters for one player, from that player's own perspective.
#[derive(Clone, Copy, PartialEq, Eq, Structural, Debug)]
pub struct WLD {
    pub w: usize,
    pub l: usize,
    pub d: usize,
}

/// Pentanomial counters over colour-reversed game pairs, indexed by the
/// ordered pair of single-game outcomes from this player's perspective.
#[derive(Clone, Copy, PartialEq, Eq, Structural, Debug)]
pub struct WLDPairs {
    pub ww: usize,
    pub wl: usize,
    pub wd: usize,
    pub dw: usize,
    pub dl: usize,
    pub dd: usize,
    pub lw: usize,
    pub ll: usize,
    pub ld: usize,
}

impl WLD {
    /// Number of games recorded, as a mathematical integer.
    pub open spec fn total(self) -> int {
        self.w + self.l + self.d
    }

    /// The counters can be summed without overflow.
    pub open spec fn wf(self) -> bool {
        self.total() <= usize::MAX
    }

    pub fn new() -> (r: Self)
        ensures
            r == (WLD { w: 0, l: 0, d: 0 }),
    {
        Self { w: 0, l: 0, d: 0 }
    }

    /// Games played is exactly the sum of wins, losses and draws.
    pub fn played(&self) -> (r: usize)
        requires
            self.wf(),
        ensures
            r == self.total(),
    {
        self.w + self.l + self.d
    }
}

impl WLDPairs {
    /// Number of completed pairs recorded, as a mathematical integer.
    pub open spec fn total_pairs(self) -> int {
        self.ww + self.wl + self.wd + self.lw + self.ll + self.ld + self.dw + self.dl + self.dd
    }

    /// Twice the pair count (the games counted) fits in a machine word.
    pub open spec fn wf(self) -> bool {
        2 * self.total_pairs() <= usize::MAX
    }

    pub fn new() -> (r: Self)
        ensures
            r == (WLDPairs {
                ww: 0,
                wl: 0,
                wd: 0,
                dw: 0,
                dl: 0,
                dd: 0,
                lw: 0,
                ll: 0,
                ld: 0,
            }),
    {
        Self { ww: 0, wl: 0, wd: 0, dw: 0, dl: 0, dd: 0, lw: 0, ll: 0, ld: 0 }
    }

    /// Games played is two per recorded pair.
    pub fn played(&self) -> (r: usize)
        requires
            self.wf(),
        ensures
            r == 2 * self.total_pairs(),
    {
        2 * (self.ww + self.wl + self.wd + self.lw + self.ll + self.ld + self.dw + self.dl
            + self.dd)
    }
}

/// The win-rate numerator `2*w + d` lies between `0` and the denominator
/// `2*(w + l + d)`, so the win rate is within `[0, 1]` whenever any games
/// were played.
pub proof fn lemma_winrate_bounds(s: WLD)
    ensures
        0 <= 2 * s.w + s.d,
        2 * s.w + s.d <= 2 * s.total(),
{
}

/// The pair score numerator `4*ww + 3*(wd + dw) + 2*(wl + lw + dd) + (dl + ld)`
/// lies between `0` and the denominator `4 * total_pairs`, so the pair win
/// rate is within `[0, 1]` whenever any pairs were completed.
pub proof fn lemma_pair_winrate_bounds(s: WLDPairs)
    ensures
        0 <= 4 * s.ww + 3 * (s.wd + s.dw) + 2 * (s.wl + s.lw + s.dd) + (s.dl + s.ld),
        4 * s.ww + 3 * (s.wd + s.dw) + 2 * (s.wl + s.lw + s.dd) + (s.dl + s.ld) <= 4
            * s.total_pairs(),
{
}

} // verus!
