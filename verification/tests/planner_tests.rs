use lift_planner::errors::PlanError;
use lift_planner::graph::grid_graph;
use lift_planner::strategy::{Strategy, DISALLOWED_SLOPE_COST, UNREACHABLE_COST};
use lift_planner::topography::{Coord, Topography};
use lift_planner::world::{new_world, Lift, World};

fn c(x: usize, y: usize) -> Coord {
    Coord { x, y }
}

fn lift(sx: usize, sy: usize, ex: usize, ey: usize) -> Lift {
    Lift {
        start: c(sx, sy),
        end: c(ex, ey),
    }
}

fn plan_cost_sum(plan: &[(u64, Strategy)]) -> u64 {
    plan.iter().map(|e| e.0).sum()
}

#[test]
fn strategy_names_and_children() {
    assert_eq!(Strategy::Ascend.name(), "Ascend");
    assert_eq!(Strategy::Descend.name(), "Descend");
    assert_eq!(
        Strategy::Ascend.children(),
        vec![Strategy::Ascend, Strategy::Descend]
    );
    assert_eq!(
        Strategy::Descend.children(),
        vec![Strategy::Ascend, Strategy::Descend]
    );
}

#[test]
fn edge_cost_transforms() {
    // ascending rewards uphill (negative slope), penalizes downhill
    assert_eq!(Strategy::Ascend.edge_cost(-7), 7);
    assert_eq!(Strategy::Ascend.edge_cost(0), 0);
    assert_eq!(Strategy::Ascend.edge_cost(3), DISALLOWED_SLOPE_COST);
    // descending is the mirror
    assert_eq!(Strategy::Descend.edge_cost(7), 7);
    assert_eq!(Strategy::Descend.edge_cost(0), 0);
    assert_eq!(Strategy::Descend.edge_cost(-3), DISALLOWED_SLOPE_COST);
}

#[test]
fn graph_counts_match_grid() {
    // 3 x 2 grid: 6 nodes, 2 * ((3-1)*2 + 3*(2-1)) = 14 directed edges
    let t = Topography::new(3, 2, vec![0, 1, 2, 3, 4, 5]);
    let g = grid_graph(&t, Strategy::Ascend);
    assert_eq!(g.node_count(), 6);
    assert_eq!(g.edge_count(), 14);
    // 1 x 1 grid has a single node and no edges at all
    let t1 = Topography::flat(1, 1);
    let g1 = grid_graph(&t1, Strategy::Descend);
    assert_eq!(g1.node_count(), 1);
    assert_eq!(g1.edge_count(), 0);
}

#[test]
fn single_corridor_exact_costs() {
    // two cells, elevations 0 and 5: walking up costs the rise, walking in
    // the discouraged direction costs the sentinel weight
    let t = Topography::new(1, 2, vec![0, 5]);
    let w = World::new(t, vec![lift(0, 0, 0, 1)]).unwrap();
    let up = Strategy::Ascend.cost(&w, c(0, 0)).unwrap();
    assert_eq!(up, (5, c(0, 1)));
    let down = Strategy::Descend.cost(&w, c(0, 0)).unwrap();
    assert_eq!(down, (DISALLOWED_SLOPE_COST, c(0, 1)));
}

#[test]
fn cost_errors() {
    let t = Topography::flat(2, 2);
    let empty = World::new(t, vec![]).unwrap();
    assert_eq!(
        Strategy::Ascend.cost(&empty, c(0, 0)),
        Err(PlanError::EmptyLiftSet)
    );
    let t2 = Topography::flat(2, 2);
    let w = World::new(t2, vec![lift(0, 0, 1, 1)]).unwrap();
    assert_eq!(
        Strategy::Ascend.cost(&w, c(5, 5)),
        Err(PlanError::OutOfBounds)
    );
    assert_eq!(
        Strategy::Descend.best_path(1, &w, c(2, 0)),
        Err(PlanError::OutOfBounds)
    );
}

#[test]
fn world_rejects_out_of_bounds_lift() {
    let t = Topography::flat(2, 2);
    assert!(World::new(t, vec![lift(0, 0, 2, 0)]).is_err());
    let t2 = Topography::flat(2, 2);
    assert!(World::new(t2, vec![lift(1, 1, 0, 0)]).is_ok());
}

#[test]
fn ties_keep_first_lift() {
    // both lifts cost 0 on flat terrain; the earlier one must win
    let t = Topography::flat(3, 1);
    let w = World::new(t, vec![lift(0, 0, 2, 0), lift(0, 0, 1, 0)]).unwrap();
    let got = Strategy::Ascend.cost(&w, c(0, 0)).unwrap();
    assert_eq!(got, (0, c(2, 0)));
}

#[test]
fn unreachable_degenerate_world() {
    // 1 x 1 terrain: the lift's endpoints coincide and the graph has no
    // edges, so the evaluation yields the unreachable sentinel, not zero
    let t = Topography::flat(1, 1);
    let w = World::new(t, vec![lift(0, 0, 0, 0)]).unwrap();
    let got = Strategy::Ascend.cost(&w, c(0, 0)).unwrap();
    assert_eq!(got.0, UNREACHABLE_COST);
    assert!(got.0 > 0);
    let plan = Strategy::Descend.best_path(1, &w, c(0, 0)).unwrap();
    assert_eq!(plan.len(), 2);
    assert_eq!(plan[0].0, UNREACHABLE_COST);
}

#[test]
fn depth_zero_single_entry() {
    let t = Topography::new(1, 2, vec![0, 5]);
    let w = World::new(t, vec![lift(0, 0, 0, 1)]).unwrap();
    let own = Strategy::Ascend.cost(&w, c(0, 0)).unwrap();
    let plan = Strategy::Ascend.best_path(0, &w, c(0, 0)).unwrap();
    assert_eq!(plan, vec![(own.0, Strategy::Ascend)]);
    let own_d = Strategy::Descend.cost(&w, c(0, 0)).unwrap();
    let plan_d = Strategy::Descend.best_path(0, &w, c(0, 0)).unwrap();
    assert_eq!(plan_d, vec![(own_d.0, Strategy::Descend)]);
}

#[test]
fn depth_n_gives_n_plus_one_entries() {
    let t = Topography::flat(4, 4);
    let w = World::new(t, vec![lift(0, 0, 3, 3)]).unwrap();
    for depth in 0..4 {
        let plan = Strategy::Ascend.best_path(depth, &w, c(0, 0)).unwrap();
        assert_eq!(plan.len(), depth + 1);
    }
}

#[test]
fn plan_no_worse_than_fixed_sequences() {
    // exhaustive comparison at depth 1: the returned plan's total is no
    // worse than any fixed two-strategy sequence evaluated the same way
    let t = Topography::flat(4, 4);
    let w = World::new(t, vec![lift(0, 0, 3, 3)]).unwrap();
    let start = c(0, 0);
    let best = Strategy::Ascend.best_path(1, &w, start).unwrap();
    let best_sum = plan_cost_sum(&best);
    for first in [Strategy::Ascend] {
        for second in [Strategy::Ascend, Strategy::Descend] {
            let (c0, p1) = first.cost(&w, start).unwrap();
            let (c1, _) = second.cost(&w, p1).unwrap();
            assert!(best_sum <= c0 + c1);
        }
    }
}

#[test]
fn flat_terrain_strategies_comparable() {
    // on uniform ground neither strategy has a slope advantage: equal-depth
    // plans cost the same under either root
    let t = Topography::flat(5, 5);
    let w = World::new(t, vec![lift(0, 0, 4, 2)]).unwrap();
    for depth in 0..3 {
        let a = Strategy::Ascend.best_path(depth, &w, c(0, 0)).unwrap();
        let d = Strategy::Descend.best_path(depth, &w, c(0, 0)).unwrap();
        assert_eq!(plan_cost_sum(&a), plan_cost_sum(&d));
    }
    // and the first step over 0-slope edges is free
    let own = Strategy::Ascend.cost(&w, c(0, 0)).unwrap();
    assert_eq!(own.0, 0);
}

#[test]
fn cone_world_prefers_ascend() {
    // cone centered at (50, 50) falling away from the center: moving from
    // (0, 0) toward the lift end (10, 10) is uphill, so the ascend
    // transform prices the trip cheaply and descend hits the penalty
    let w = new_world();
    let a = Strategy::Ascend.cost(&w, c(0, 0)).unwrap();
    let d = Strategy::Descend.cost(&w, c(0, 0)).unwrap();
    // net rise from height -70 to -56 over penalty-free steps
    assert_eq!(a.0, 14);
    assert_eq!(a.1, c(10, 10));
    assert!(a.0 < d.0);
    assert!(d.0 >= DISALLOWED_SLOPE_COST);
    let plan = Strategy::Ascend.best_path(2, &w, c(0, 0)).unwrap();
    assert_eq!(plan.len(), 3);
    assert_eq!(plan[0].1, Strategy::Ascend);
    assert_eq!(plan[0].1.name(), "Ascend");
    assert_eq!(plan[0].0, 14);
    assert!(plan[0].0 < UNREACHABLE_COST);
}
