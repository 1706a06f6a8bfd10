use vstd::prelude::*;

verus! {

/// Weight put on a step in the direction a strategy discourages (a downhill
/// step while ascending, an uphill step while descending). Large enough to
/// dominate any sum of allowed steps, yet finite, so such moves are
/// discouraged rather than forbidden.
pub const DISALLOWED_SLOPE_COST: u64 = 1_000_000;

/// Sentinel cost of a target no path reaches. Strictly larger than the cost
/// of any real path (at most `2^24` cells, each step at most `2^32`), so a
/// computed cost below it is always a genuine path cost.
pub const UNREACHABLE_COST: u64 = 0x0200_0000_0000_0000;

/// A movement strategy: the closed set of decision-tree children. Each
/// variant owns one slope-to-weight transform for pricing grid steps.
#[derive(Clone, Copy, PartialEq, Eq, Structural, Debug)]
pub enum Strategy {
    /// Favours uphill steps; prices downhill steps at `DISALLOWED_SLOPE_COST`.
    Ascend,
    /// Favours downhill steps; prices uphill steps at `DISALLOWED_SLOPE_COST`.
    Descend,
}

impl Strategy {
    /// Weight of one directed step whose slope (source elevation minus
    /// target elevation) is `slope`. The allowed direction costs the slope's
    /// magnitude, so a flat step costs 0 under either strategy.
    pub open spec fn spec_edge_cost(self, slope: int) -> u64 {
        match self {
            Strategy::Ascend => if slope > 0 {
                DISALLOWED_SLOPE_COST
            } else {
                (-slope) as u64
            },
            Strategy::Descend => if slope < 0 {
                DISALLOWED_SLOPE_COST
            } else {
                slope as u64
            },
        }
    }

    /// The strategy's slope-to-weight transform.
    pub fn edge_cost(self, slope: i64) -> (w: u64)
        requires
            -0x1_0000_0000 <= slope <= 0x1_0000_0000,
        ensures
            w == self.spec_edge_cost(slope as int),
            w <= 0x1_0000_0000,
    {
        match self {
            Strategy::Ascend => if slope > 0 {
                DISALLOWED_SLOPE_COST
            } else {
                (-slope) as u64
            },
            Strategy::Descend => if slope < 0 {
                DISALLOWED_SLOPE_COST
            } else {
                slope as u64
            },
        }
    }

    /// The strategies any strategy may be followed by: the fixed, closed set
    /// of both variants, independent of the current one.
    pub fn children(self) -> (r: Vec<Strategy>)
        ensures
            r@ == seq![Strategy::Ascend, Strategy::Descend],
    {
        let mut r: Vec<Strategy> = Vec::new();
        r.push(Strategy::Ascend);
        r.push(Strategy::Descend);
        proof {
            assert(r@ =~= seq![Strategy::Ascend, Strategy::Descend]);
        }
        r
    }

    /// The strategy's stable reporting label.
    pub fn name(self) -> (r: &'static str)
        ensures
            self is Ascend ==> r@ == "Ascend"@,
            self is Descend ==> r@ == "Descend"@,
    {
        match self {
            Strategy::Ascend => "Ascend",
            Strategy::Descend => "Descend",
        }
    }
}

/// Any slope within the magnitude a well-formed terrain can produce is
/// priced at most `0x1_0000_0000` by either strategy.
pub proof fn lemma_edge_cost_bounded(s: Strategy, slope: int)
    requires
        -0x1_0000_0000 <= slope <= 0x1_0000_0000,
    ensures
        s.spec_edge_cost(slope) <= 0x1_0000_0000,
{
}

/// On level ground both strategies agree: a slope of zero is priced at zero
/// by each transform, their shared flat baseline.
pub proof fn lemma_flat_baseline(s: Strategy)
    ensures
        s.spec_edge_cost(0) == 0,
{
}

} // verus!
