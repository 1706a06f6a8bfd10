use vstd::prelude::*;

use crate::errors::PlanError;
use crate::graph::{cid, dijkstra_costs, gr_dijkstra, grid_edges, grid_graph};
use crate::strategy::{Strategy, UNREACHABLE_COST};
use crate::topography::{Coord, Topography, MAX_DIM};
use crate::world::{Lift, World};

verus! {

/// Largest accepted planning horizon. Keeps every plan-cost sum (at most
/// `depth + 1` entries of at most `UNREACHABLE_COST` each) within `u64`.
pub const MAX_DEPTH: usize = 32;

/// Cost of travelling from `src` to `dst` over the strategy's cost graph:
/// the Dijkstra cost when `dst` is reachable, `UNREACHABLE_COST` otherwise.
/// A step that stays in place is no step and counts as unreachable.
pub open spec fn spec_step_cost(t: Topography, s: Strategy, src: Coord, dst: Coord) -> u64 {
    if src == dst {
        UNREACHABLE_COST
    } else {
        let m = dijkstra_costs(grid_edges(t, s), cid(t, src));
        if m.dom().contains(cid(t, dst)) {
            m[cid(t, dst)]
        } else {
            UNREACHABLE_COST
        }
    }
}

/// One lift's candidate: the step cost from `pos` to the lift's end, and
/// that end as the next position.
pub open spec fn spec_lift_candidate(t: Topography, s: Strategy, pos: Coord, lift: Lift) -> (
    u64,
    Coord,
) {
    (spec_step_cost(t, s, pos, lift.end), lift.end)
}

/// The best candidate among `lifts`, scanned in order; a strictly cheaper
/// candidate replaces the best so far, so ties keep the earliest. With no
/// lifts, or none cheaper than the sentinel, the result is the unreachable
/// sentinel and the position unchanged.
pub open spec fn spec_cost(t: Topography, s: Strategy, lifts: Seq<Lift>, pos: Coord) -> (u64, Coord)
    decreases lifts.len(),
{
    if lifts.len() == 0 {
        (UNREACHABLE_COST, pos)
    } else {
        let prev = spec_cost(t, s, lifts.drop_last(), pos);
        let cand = spec_lift_candidate(t, s, pos, lifts.last());
        if cand.0 < prev.0 {
            cand
        } else {
            prev
        }
    }
}

/// A strategy evaluation never exceeds the unreachable sentinel, and its
/// next position is either the start or some lift's end.
pub proof fn lemma_cost_bounds(t: Topography, s: Strategy, lifts: Seq<Lift>, pos: Coord)
    ensures
        spec_cost(t, s, lifts, pos).0 <= UNREACHABLE_COST,
        spec_cost(t, s, lifts, pos).1 == pos || exists|i: int|
            0 <= i < lifts.len() && (#[trigger] lifts[i]).end == spec_cost(t, s, lifts, pos).1,
    decreases lifts.len(),
{
    if lifts.len() > 0 {
        lemma_cost_bounds(t, s, lifts.drop_last(), pos);
        let prev = spec_cost(t, s, lifts.drop_last(), pos);
        let cand = spec_lift_candidate(t, s, pos, lifts.last());
        if cand.0 < prev.0 {
            assert(lifts[lifts.len() - 1].end == spec_cost(t, s, lifts, pos).1);
        } else {
            if prev.1 != pos {
                let i = choose|i: int|
                    0 <= i < lifts.drop_last().len() && (#[trigger] lifts.drop_last()[i]).end
                        == prev.1;
                assert(lifts[i].end == prev.1);
            }
        }
    }
}

/// The candidate scan is a true minimization: the evaluation's cost is no
/// greater than any lift's candidate cost, and whenever it beats the
/// sentinel it is some lift's candidate, cost and next position both.
pub proof fn lemma_cost_is_minimum(t: Topography, s: Strategy, lifts: Seq<Lift>, pos: Coord)
    ensures
        forall|i: int|
            0 <= i < lifts.len() ==> spec_cost(t, s, lifts, pos).0 <= spec_lift_candidate(
                t,
                s,
                pos,
                #[trigger] lifts[i],
            ).0,
        spec_cost(t, s, lifts, pos).0 < UNREACHABLE_COST ==> exists|i: int|
            0 <= i < lifts.len() && spec_lift_candidate(t, s, pos, #[trigger] lifts[i])
                == spec_cost(t, s, lifts, pos),
    decreases lifts.len(),
{
    if lifts.len() > 0 {
        lemma_cost_is_minimum(t, s, lifts.drop_last(), pos);
        let prev = spec_cost(t, s, lifts.drop_last(), pos);
        let cand = spec_lift_candidate(t, s, pos, lifts.last());
        let got = spec_cost(t, s, lifts, pos);
        assert forall|i: int| 0 <= i < lifts.len() implies got.0 <= spec_lift_candidate(
            t,
            s,
            pos,
            #[trigger] lifts[i],
        ).0 by {
            if i < lifts.len() - 1 {
                assert(lifts.drop_last()[i] == lifts[i]);
            }
        }
        if got.0 < UNREACHABLE_COST {
            if cand.0 < prev.0 {
                assert(spec_lift_candidate(t, s, pos, lifts[lifts.len() - 1]) == got);
            } else {
                let i = choose|i: int|
                    0 <= i < lifts.drop_last().len() && spec_lift_candidate(
                        t,
                        s,
                        pos,
                        #[trigger] lifts.drop_last()[i],
                    ) == prev;
                assert(lifts.drop_last()[i] == lifts[i]);
                assert(spec_lift_candidate(t, s, pos, lifts[i]) == got);
            }
        }
    }
}

/// Sum of a plan's step costs.
pub open spec fn plan_total(p: Seq<(u64, Strategy)>) -> int
    decreases p.len(),
{
    if p.len() == 0 {
        0
    } else {
        plan_total(p.drop_last()) + p.last().0
    }
}

/// Prepending one entry adds its cost to a plan's total.
pub proof fn lemma_plan_total_cons(e: (u64, Strategy), q: Seq<(u64, Strategy)>)
    ensures
        plan_total(seq![e] + q) == e.0 + plan_total(q),
    decreases q.len(),
{
    let c = seq![e] + q;
    assert(c.len() == 1 + q.len());
    if q.len() == 0 {
        assert(c.drop_last() =~= Seq::<(u64, Strategy)>::empty());
        assert(c.last() == e);
        assert(plan_total(c) == plan_total(c.drop_last()) + e.0);
        assert(plan_total(Seq::<(u64, Strategy)>::empty()) == 0);
        assert(plan_total(q) == 0);
    } else {
        lemma_plan_total_cons(e, q.drop_last());
        assert(c.drop_last() =~= seq![e] + q.drop_last());
        assert(c.last() == q.last());
        assert(plan_total(c) == plan_total(c.drop_last()) + q.last().0);
        assert(plan_total(c.drop_last()) == plan_total(seq![e] + q.drop_last()));
        assert(plan_total(q) == plan_total(q.drop_last()) + q.last().0);
    }
}

/// The plan the bounded-depth exhaustive search settles on. At depth 0 it is
/// this strategy's own evaluation alone. Otherwise both children are scored
/// by the total of their own best sub-plan from the *same* position, the
/// cheaper child wins (ties keep Ascend, the first enumerated), and the
/// winner's plan — re-expanded from the position this strategy's own
/// evaluation transitions to — follows this strategy's own entry.
pub open spec fn spec_plan(
    t: Topography,
    lifts: Seq<Lift>,
    s: Strategy,
    depth: nat,
    pos: Coord,
) -> Seq<(u64, Strategy)>
    decreases depth,
{
    let own = spec_cost(t, s, lifts, pos);
    if depth == 0 {
        seq![(own.0, s)]
    } else {
        let wa = plan_total(spec_plan(t, lifts, Strategy::Ascend, (depth - 1) as nat, pos));
        let wd = plan_total(spec_plan(t, lifts, Strategy::Descend, (depth - 1) as nat, pos));
        let pick = if wa <= wd {
            Strategy::Ascend
        } else {
            Strategy::Descend
        };
        seq![(own.0, s)] + spec_plan(t, lifts, pick, (depth - 1) as nat, own.1)
    }
}

/// A plan's shape: a depth-`n` search returns exactly `n + 1` entries, each
/// costing at most the unreachable sentinel, so its total is bounded too.
pub proof fn lemma_plan_shape(t: Topography, lifts: Seq<Lift>, s: Strategy, depth: nat, pos: Coord)
    ensures
        spec_plan(t, lifts, s, depth, pos).len() == depth + 1,
        forall|i: int|
            0 <= i < spec_plan(t, lifts, s, depth, pos).len() ==> (#[trigger] spec_plan(
                t,
                lifts,
                s,
                depth,
                pos,
            )[i]).0 <= UNREACHABLE_COST,
        0 <= plan_total(spec_plan(t, lifts, s, depth, pos)) <= (depth + 1) * UNREACHABLE_COST,
    decreases depth,
{
    lemma_cost_bounds(t, s, lifts, pos);
    let own = spec_cost(t, s, lifts, pos);
    if depth == 0 {
        let p = spec_plan(t, lifts, s, depth, pos);
        assert(p == seq![(own.0, s)]);
        assert(p.drop_last() =~= Seq::<(u64, Strategy)>::empty());
        assert(plan_total(p) == plan_total(p.drop_last()) + own.0);
        assert(plan_total(p.drop_last()) == 0);
        assert((depth + 1) * UNREACHABLE_COST == UNREACHABLE_COST);
    } else {
        lemma_plan_shape(t, lifts, Strategy::Ascend, (depth - 1) as nat, pos);
        lemma_plan_shape(t, lifts, Strategy::Descend, (depth - 1) as nat, pos);
        let wa = plan_total(spec_plan(t, lifts, Strategy::Ascend, (depth - 1) as nat, pos));
        let wd = plan_total(spec_plan(t, lifts, Strategy::Descend, (depth - 1) as nat, pos));
        let pick = if wa <= wd {
            Strategy::Ascend
        } else {
            Strategy::Descend
        };
        lemma_plan_shape(t, lifts, pick, (depth - 1) as nat, own.1);
        let sub = spec_plan(t, lifts, pick, (depth - 1) as nat, own.1);
        assert(spec_plan(t, lifts, s, depth, pos) == seq![(own.0, s)] + sub);
        lemma_plan_total_cons((own.0, s), sub);
        assert(plan_total(spec_plan(t, lifts, s, depth, pos)) == own.0 + plan_total(sub));
        assert((depth + 1) * UNREACHABLE_COST == depth * UNREACHABLE_COST + UNREACHABLE_COST)
            by (nonlinear_arith);
        assert(((depth - 1) as nat + 1) * UNREACHABLE_COST == depth * UNREACHABLE_COST);
    }
}

/// Sums a plan's costs.
fn plan_sum(p: &Vec<(u64, Strategy)>) -> (s: u64)
    requires
        p@.len() <= MAX_DEPTH + 1,
        forall|i: int| 0 <= i < p@.len() ==> (#[trigger] p@[i]).0 <= UNREACHABLE_COST,
    ensures
        s == plan_total(p@),
{
    let mut acc: u64 = 0;
    let mut i: usize = 0;
    while i < p.len()
        invariant
            i <= p@.len(),
            p@.len() <= MAX_DEPTH + 1,
            forall|j: int| 0 <= j < p@.len() ==> (#[trigger] p@[j]).0 <= UNREACHABLE_COST,
            acc == plan_total(p@.take(i as int)),
            acc <= i * UNREACHABLE_COST,
        decreases p@.len() - i,
    {
        proof {
            assert(p@.take(i as int + 1).drop_last() =~= p@.take(i as int));
            assert(p@.take(i as int + 1).last() == p@[i as int]);
        }
        acc = acc + p[i].0;
        i = i + 1;
    }
    proof {
        assert(p@.take(p@.len() as int) =~= p@);
    }
    acc
}

impl Strategy {
    /// Evaluates this strategy once from an in-bounds position.
    fn cost_in(self, world: &World, position: Coord) -> (r: (u64, Coord))
        requires
            world.wf(),
            world.topography.in_bounds(position),
        ensures
            r == spec_cost(world.topography, self, world.lifts@, position),
    {
        let ghost t = world.topography;
        let g = grid_graph(&world.topography, self);
        proof {
            crate::graph::lemma_edges_upto_bounds(t, self, t.width * t.height);
            assert(t.width * t.height <= 0x100_0000) by (nonlinear_arith)
                requires
                    0 < t.width <= MAX_DIM,
                    0 < t.height <= MAX_DIM,
            ;
        }
        let mut best_cost: u64 = UNREACHABLE_COST;
        let mut best_pos: Coord = position;
        let mut i: usize = 0;
        while i < world.lifts.len()
            invariant
                world.wf(),
                world.topography.in_bounds(position),
                t == world.topography,
                g.wf_for(t, self),
                i <= world.lifts@.len(),
                (best_cost, best_pos) == spec_cost(t, self, world.lifts@.take(i as int), position),
            decreases world.lifts@.len() - i,
        {
            proof {
                crate::graph::lemma_edges_upto_bounds(t, self, t.width * t.height);
                assert(t.width * t.height <= 0x100_0000) by (nonlinear_arith)
                    requires
                        0 < t.width <= MAX_DIM,
                        0 < t.height <= MAX_DIM,
                ;
            }
            let lift = world.lifts[i];
            let c: u64 = if lift.end.x == position.x && lift.end.y == position.y {
                UNREACHABLE_COST
            } else {
                proof {
                    crate::graph::lemma_cell_index(
                        t.width as int,
                        t.height as int,
                        position.x as int,
                        position.y as int,
                    );
                    crate::graph::lemma_cell_index(
                        t.width as int,
                        t.height as int,
                        lift.end.x as int,
                        lift.end.y as int,
                    );
                }
                let src = g.ids[position.x][position.y];
                let dst = g.ids[lift.end.x][lift.end.y];
                match gr_dijkstra(&g.graph, src, dst) {
                    Some(c) => c,
                    None => UNREACHABLE_COST,
                }
            };
            proof {
                assert(world.lifts@.take(i as int + 1).drop_last() =~= world.lifts@.take(i as int));
                assert(world.lifts@.take(i as int + 1).last() == world.lifts@[i as int]);
                assert(c == spec_step_cost(t, self, position, lift.end));
            }
            if c < best_cost {
                best_cost = c;
                best_pos = lift.end;
            }
            i = i + 1;
        }
        proof {
            assert(world.lifts@.take(world.lifts@.len() as int) =~= world.lifts@);
        }
        (best_cost, best_pos)
    }

    /// Evaluates this strategy once: builds the strategy's cost graph fresh
    /// over the world's terrain and returns the cheapest lift candidate's
    /// cost together with that lift's end as the next position.
    pub fn cost(self, world: &World, position: Coord) -> (r: Result<(u64, Coord), PlanError>)
        requires
            world.wf(),
        ensures
            !world.topography.in_bounds(position) ==> r == Err::<(u64, Coord), PlanError>(
                PlanError::OutOfBounds,
            ),
            world.topography.in_bounds(position) && world.lifts@.len() == 0 ==> r == Err::<
                (u64, Coord),
                PlanError,
            >(PlanError::EmptyLiftSet),
            world.topography.in_bounds(position) && world.lifts@.len() > 0 ==> r == Ok::<
                (u64, Coord),
                PlanError,
            >(spec_cost(world.topography, self, world.lifts@, position)),
    {
        if !(position.x < world.topography.width && position.y < world.topography.height) {
            return Err(PlanError::OutOfBounds);
        }
        if world.lifts.len() == 0 {
            return Err(PlanError::EmptyLiftSet);
        }
        Ok(self.cost_in(world, position))
    }

    /// The recursive search over an in-bounds position and non-empty lifts.
    fn best_path_in(self, depth: usize, world: &World, position: Coord) -> (r: Vec<(u64, Strategy)>)
        requires
            world.wf(),
            world.topography.in_bounds(position),
            depth <= MAX_DEPTH,
        ensures
            r@ == spec_plan(world.topography, world.lifts@, self, depth as nat, position),
        decreases depth,
    {
        let ghost t = world.topography;
        let own = self.cost_in(world, position);
        if depth == 0 {
            let mut v: Vec<(u64, Strategy)> = Vec::new();
            v.push((own.0, self));
            proof {
                assert(v@ =~= seq![(own.0, self)]);
            }
            v
        } else {
            let pa = Strategy::Ascend.best_path_in(depth - 1, world, position);
            let pd = Strategy::Descend.best_path_in(depth - 1, world, position);
            proof {
                lemma_plan_shape(t, world.lifts@, Strategy::Ascend, (depth - 1) as nat, position);
                lemma_plan_shape(t, world.lifts@, Strategy::Descend, (depth - 1) as nat, position);
            }
            let wa = plan_sum(&pa);
            let wd = plan_sum(&pd);
            let pick = if wa <= wd {
                Strategy::Ascend
            } else {
                Strategy::Descend
            };
            proof {
                lemma_cost_bounds(t, self, world.lifts@, position);
            }
            let tail = pick.best_path_in(depth - 1, world, own.1);
            let mut v: Vec<(u64, Strategy)> = Vec::new();
            v.push((own.0, self));
            let mut j: usize = 0;
            while j < tail.len()
                invariant
                    j <= tail@.len(),
                    v@ == seq![(own.0, self)].add(tail@.take(j as int)),
                decreases tail@.len() - j,
            {
                let e = tail[j];
                v.push(e);
                j = j + 1;
                proof {
                    assert(seq![(own.0, self)].add(tail@.take(j as int)) =~= seq![
                        (own.0, self),
                    ].add(tail@.take(j as int - 1)).push(tail@[j as int - 1]));
                }
            }
            proof {
                assert(tail@.take(tail@.len() as int) =~= tail@);
            }
            v
        }
    }

    /// The bounded-depth exhaustive search: the optimal plan of `depth + 1`
    /// (cost, strategy) entries starting with this strategy, per the
    /// recursive minimization `spec_plan` describes.
    pub fn best_path(self, depth: usize, world: &World, position: Coord) -> (r: Result<
        Vec<(u64, Strategy)>,
        PlanError,
    >)
        requires
            world.wf(),
            depth <= MAX_DEPTH,
        ensures
            !world.topography.in_bounds(position) ==> r == Err::<Vec<(u64, Strategy)>, PlanError>(
                PlanError::OutOfBounds,
            ),
            world.topography.in_bounds(position) && world.lifts@.len() == 0 ==> r == Err::<
                Vec<(u64, Strategy)>,
                PlanError,
            >(PlanError::EmptyLiftSet),
            world.topography.in_bounds(position) && world.lifts@.len() > 0 ==> r is Ok
                && r->Ok_0@ == spec_plan(
                world.topography,
                world.lifts@,
                self,
                depth as nat,
                position,
            ),
    {
        if !(position.x < world.topography.width && position.y < world.topography.height) {
            return Err(PlanError::OutOfBounds);
        }
        if world.lifts.len() == 0 {
            return Err(PlanError::EmptyLiftSet);
        }
        Ok(self.best_path_in(depth, world, position))
    }
}

// ---------------------------------------------------------------------------
// Laws of the search.
// ---------------------------------------------------------------------------

/// A depth-0 search returns exactly one entry: this strategy's own
/// evaluation paired with the strategy itself.
pub proof fn lemma_plan_depth_zero(t: Topography, lifts: Seq<Lift>, s: Strategy, pos: Coord)
    ensures
        spec_plan(t, lifts, s, 0, pos) == seq![(spec_cost(t, s, lifts, pos).0, s)],
{
}

/// The child the search keeps at a branching level: the one whose own best
/// sub-plan, scored from the branching position, is cheapest; Ascend, the
/// first enumerated, on ties.
pub open spec fn spec_pick(t: Topography, lifts: Seq<Lift>, depth: nat, pos: Coord) -> Strategy {
    let wa = plan_total(spec_plan(t, lifts, Strategy::Ascend, (depth - 1) as nat, pos));
    let wd = plan_total(spec_plan(t, lifts, Strategy::Descend, (depth - 1) as nat, pos));
    if wa <= wd {
        Strategy::Ascend
    } else {
        Strategy::Descend
    }
}

/// The minimization the search performs at every branching level: the kept
/// child's best sub-plan from the branching position costs no more than any
/// child's, and the returned plan is the parent's own entry followed by the
/// kept child's plan re-expanded from the transitioned position.
pub proof fn lemma_plan_child_optimal(
    t: Topography,
    lifts: Seq<Lift>,
    s: Strategy,
    depth: nat,
    pos: Coord,
)
    requires
        depth >= 1,
    ensures
        forall|c: Strategy|
            plan_total(
                spec_plan(t, lifts, spec_pick(t, lifts, depth, pos), (depth - 1) as nat, pos),
            ) <= plan_total(#[trigger] spec_plan(t, lifts, c, (depth - 1) as nat, pos)),
        spec_plan(t, lifts, s, depth, pos) == seq![(spec_cost(t, s, lifts, pos).0, s)] + spec_plan(
            t,
            lifts,
            spec_pick(t, lifts, depth, pos),
            (depth - 1) as nat,
            spec_cost(t, s, lifts, pos).1,
        ),
{
    let pick = spec_pick(t, lifts, depth, pos);
    let wa = plan_total(spec_plan(t, lifts, Strategy::Ascend, (depth - 1) as nat, pos));
    let wd = plan_total(spec_plan(t, lifts, Strategy::Descend, (depth - 1) as nat, pos));
    assert forall|c: Strategy|
        plan_total(spec_plan(t, lifts, pick, (depth - 1) as nat, pos)) <= plan_total(
            #[trigger] spec_plan(t, lifts, c, (depth - 1) as nat, pos),
        ) by {
        if c is Ascend {
            assert(plan_total(spec_plan(t, lifts, c, (depth - 1) as nat, pos)) == wa);
        } else {
            assert(plan_total(spec_plan(t, lifts, c, (depth - 1) as nat, pos)) == wd);
        }
    }
}

/// The strategies a plan names, in order.
pub open spec fn plan_strategies(p: Seq<(u64, Strategy)>) -> Seq<Strategy> {
    p.map_values(|e: (u64, Strategy)| e.1)
}

/// The cost of following a fixed strategy sequence: each step is this
/// step's own evaluation from the position the previous step transitioned
/// to.
pub open spec fn chain_eval(t: Topography, lifts: Seq<Lift>, ss: Seq<Strategy>, pos: Coord) -> int
    decreases ss.len(),
{
    if ss.len() == 0 {
        0
    } else {
        let own = spec_cost(t, ss[0], lifts, pos);
        own.0 + chain_eval(t, lifts, ss.subrange(1, ss.len() as int), own.1)
    }
}

/// The returned plan is internally honest: its total equals the chain
/// evaluation of its own strategy sequence from the start position, and its
/// first strategy is the root.
pub proof fn lemma_plan_follows_chain(
    t: Topography,
    lifts: Seq<Lift>,
    s: Strategy,
    depth: nat,
    pos: Coord,
)
    ensures
        plan_strategies(spec_plan(t, lifts, s, depth, pos))[0] == s,
        plan_total(spec_plan(t, lifts, s, depth, pos)) == chain_eval(
            t,
            lifts,
            plan_strategies(spec_plan(t, lifts, s, depth, pos)),
            pos,
        ),
    decreases depth,
{
    let own = spec_cost(t, s, lifts, pos);
    let p = spec_plan(t, lifts, s, depth, pos);
    let ss = plan_strategies(p);
    if depth == 0 {
        assert(p == seq![(own.0, s)]);
        assert(ss =~= seq![s]);
        assert(ss.subrange(1, 1) =~= Seq::<Strategy>::empty());
        assert(p.drop_last() =~= Seq::<(u64, Strategy)>::empty());
        assert(p.last() == (own.0, s));
        assert(plan_total(p) == plan_total(p.drop_last()) + p.last().0);
        assert(plan_total(p.drop_last()) == 0);
        assert(ss[0] == s);
        assert(chain_eval(t, lifts, ss, pos) == own.0 + chain_eval(
            t,
            lifts,
            ss.subrange(1, 1),
            own.1,
        ));
        assert(chain_eval(t, lifts, ss.subrange(1, 1), own.1) == 0);
    } else {
        let pick = spec_pick(t, lifts, depth, pos);
        let sub = spec_plan(t, lifts, pick, (depth - 1) as nat, own.1);
        assert(p == seq![(own.0, s)] + sub);
        lemma_plan_follows_chain(t, lifts, pick, (depth - 1) as nat, own.1);
        lemma_plan_total_cons((own.0, s), sub);
        lemma_plan_shape(t, lifts, pick, (depth - 1) as nat, own.1);
        assert(ss[0] == s);
        assert(ss.subrange(1, ss.len() as int) =~= plan_strategies(sub));
        assert(chain_eval(t, lifts, ss, pos) == own.0 + chain_eval(
            t,
            lifts,
            plan_strategies(sub),
            own.1,
        ));
    }
}

/// On uniform terrain strategy choice carries no slope advantage: both
/// transforms price every edge at the shared flat baseline 0, the two cost
/// graphs coincide, and same-depth plans rooted at either strategy have
/// equal totals — comparable by cost alone.
pub proof fn lemma_flat_terrain_strategy_neutral(
    t: Topography,
    lifts: Seq<Lift>,
    depth: nat,
    pos: Coord,
)
    requires
        t.wf(),
        forall|i: int| 0 <= i < t.heights@.len() ==> #[trigger] t.heights@[i] == t.heights@[0],
    ensures
        grid_edges(t, Strategy::Ascend) == grid_edges(t, Strategy::Descend),
        spec_cost(t, Strategy::Ascend, lifts, pos) == spec_cost(t, Strategy::Descend, lifts, pos),
        plan_total(spec_plan(t, lifts, Strategy::Ascend, depth, pos)) == plan_total(
            spec_plan(t, lifts, Strategy::Descend, depth, pos),
        ),
{
    crate::graph::lemma_flat_edges(t, t.width * t.height);
    lemma_flat_cost_equal(t, lifts, pos);
    let ownA = spec_cost(t, Strategy::Ascend, lifts, pos);
    let ownD = spec_cost(t, Strategy::Descend, lifts, pos);
    if depth == 0 {
        let pa = spec_plan(t, lifts, Strategy::Ascend, depth, pos);
        let pd = spec_plan(t, lifts, Strategy::Descend, depth, pos);
        assert(pa.drop_last() =~= Seq::<(u64, Strategy)>::empty());
        assert(pd.drop_last() =~= Seq::<(u64, Strategy)>::empty());
    } else {
        let pick = spec_pick(t, lifts, depth, pos);
        let sub = spec_plan(t, lifts, pick, (depth - 1) as nat, ownA.1);
        assert(spec_plan(t, lifts, Strategy::Ascend, depth, pos) == seq![(ownA.0, Strategy::Ascend)]
            + sub);
        assert(spec_plan(t, lifts, Strategy::Descend, depth, pos) == seq![
            (ownD.0, Strategy::Descend),
        ] + sub);
        lemma_plan_total_cons((ownA.0, Strategy::Ascend), sub);
        lemma_plan_total_cons((ownD.0, Strategy::Descend), sub);
    }
}

/// On uniform terrain the two strategies' evaluations agree: the candidate
/// scan prices every lift identically under either transform.
proof fn lemma_flat_cost_equal(t: Topography, lifts: Seq<Lift>, pos: Coord)
    requires
        t.wf(),
        forall|i: int| 0 <= i < t.heights@.len() ==> #[trigger] t.heights@[i] == t.heights@[0],
    ensures
        spec_cost(t, Strategy::Ascend, lifts, pos) == spec_cost(t, Strategy::Descend, lifts, pos),
    decreases lifts.len(),
{
    crate::graph::lemma_flat_edges(t, t.width * t.height);
    if lifts.len() > 0 {
        lemma_flat_cost_equal(t, lifts.drop_last(), pos);
    }
}

} // verus!
