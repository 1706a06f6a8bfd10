use vstd::prelude::*;

use crate::strategy::Strategy;
use crate::topography::{Coord, Topography, MAX_DIM};
use petgraph::graph::Graph;
use petgraph::Directed;

verus! {

// ---------------------------------------------------------------------------
// The trusted boundary around petgraph.
//
// The cost graph itself is petgraph's directed graph. Verus sees it as an
// opaque type whose contents are named by two uninterpreted functions:
// the node payloads and the directed edges, each in insertion order. Every
// method the builder calls gets a wrapper whose contract says, over those
// names, what petgraph's source shows.
// ---------------------------------------------------------------------------

#[verifier::external_type_specification]
#[verifier::external_body]
#[verifier::reject_recursive_types(N)]
#[verifier::reject_recursive_types(E)]
#[verifier::reject_recursive_types(Ty)]
#[verifier::reject_recursive_types(Ix)]
pub struct ExGraph<N, E, Ty, Ix>(Graph<N, E, Ty, Ix>);

#[verifier::external_type_specification]
#[verifier::external_body]
pub struct ExDirected(Directed);

/// What the graph's node list holds: each node's coordinate payload, in
/// insertion order. A node's index is its position in this sequence.
pub uninterp spec fn graph_nodes(g: Graph<(u32, u32), u64, Directed, u32>) -> Seq<(u32, u32)>;

/// What the graph's edge list holds: each directed edge as
/// (source index, target index, weight), in insertion order.
pub uninterp spec fn graph_edges(g: Graph<(u32, u32), u64, Directed, u32>) -> Seq<
    (u32, u32, u64),
>;

/// The cost map petgraph's Dijkstra computes for a directed edge list and a
/// source node: the minimal path cost to each reachable node, a function of
/// the edges and the source alone. Named rather than written out.
pub uninterp spec fn dijkstra_costs(edges: Seq<(u32, u32, u64)>, src: u32) -> Map<u32, u64>;

/// Relies on `petgraph::graph::Graph::new`: an empty directed graph.
#[verifier::external_body]
fn gr_new() -> (g: Graph<(u32, u32), u64, Directed, u32>)
    ensures
        graph_nodes(g) == Seq::<(u32, u32)>::empty(),
        graph_edges(g) == Seq::<(u32, u32, u64)>::empty(),
{
    Graph::new()
}

/// Relies on `petgraph::graph::Graph::add_node`: appends one node carrying
/// the given payload and returns its index, the previous node count. Panics
/// only at the index type's maximum, which the cap below rules out.
#[verifier::external_body]
fn gr_add_node(g: &mut Graph<(u32, u32), u64, Directed, u32>, x: u32, y: u32) -> (id: u32)
    requires
        graph_nodes(*old(g)).len() < 0xffff_ffff,
    ensures
        graph_nodes(*final(g)) == graph_nodes(*old(g)).push((x, y)),
        graph_edges(*final(g)) == graph_edges(*old(g)),
        id == graph_nodes(*old(g)).len(),
{
    g.add_node((x, y)).index() as u32
}

/// Relies on `petgraph::graph::Graph::add_edge`: appends one directed edge
/// from `a` to `b` carrying weight `w`. Panics only on a missing endpoint or
/// at the index type's maximum, which the caps below rule out.
#[verifier::external_body]
fn gr_add_edge(g: &mut Graph<(u32, u32), u64, Directed, u32>, a: u32, b: u32, w: u64)
    requires
        a < graph_nodes(*old(g)).len(),
        b < graph_nodes(*old(g)).len(),
        graph_edges(*old(g)).len() < 0xffff_ffff,
    ensures
        graph_nodes(*final(g)) == graph_nodes(*old(g)),
        graph_edges(*final(g)) == graph_edges(*old(g)).push((a, b, w)),
{
    g.add_edge(
        petgraph::graph::NodeIndex::new(a as usize),
        petgraph::graph::NodeIndex::new(b as usize),
        w,
    );
}

/// Relies on `petgraph::graph::Graph::node_count`: the number of nodes.
#[verifier::external_body]
fn gr_node_count(g: &Graph<(u32, u32), u64, Directed, u32>) -> (n: usize)
    ensures
        n == graph_nodes(*g).len(),
{
    g.node_count()
}

/// Relies on `petgraph::graph::Graph::edge_count`: the number of edges.
#[verifier::external_body]
fn gr_edge_count(g: &Graph<(u32, u32), u64, Directed, u32>) -> (n: usize)
    ensures
        n == graph_edges(*g).len(),
{
    g.edge_count()
}

/// Relies on `petgraph::algo::dijkstra` run toward a goal node: the goal's
/// entry is present exactly when the goal is reachable from the source, and
/// then holds the minimal path cost to it — the same entry the full
/// `dijkstra_costs` map has. Path costs are summed as `u64`; the caps below
/// keep every partial sum far under `u64::MAX`, so no addition overflows and
/// nothing panics.
#[verifier::external_body]
pub(crate) fn gr_dijkstra(g: &Graph<(u32, u32), u64, Directed, u32>, src: u32, dst: u32) -> (r:
    Option<u64>)
    requires
        src < graph_nodes(*g).len(),
        dst < graph_nodes(*g).len(),
        graph_nodes(*g).len() <= 0x100_0000,
        forall|i: int|
            0 <= i < graph_edges(*g).len() ==> (#[trigger] graph_edges(*g)[i]).2 <= 0x4_0000_0000,
    ensures
        r == if dijkstra_costs(graph_edges(*g), src).dom().contains(dst) {
            Some(dijkstra_costs(graph_edges(*g), src)[dst])
        } else {
            None::<u64>
        },
{
    let goal = petgraph::graph::NodeIndex::new(dst as usize);
    let scores = petgraph::algo::dijkstra(
        g,
        petgraph::graph::NodeIndex::new(src as usize),
        Some(goal),
        |e| *petgraph::visit::EdgeRef::weight(&e),
    );
    scores.get(&goal).copied()
}

// ---------------------------------------------------------------------------
// The verified model of a built cost graph.
// ---------------------------------------------------------------------------

/// The coordinate with the given components.
pub open spec fn coord(x: int, y: int) -> Coord {
    Coord { x: x as usize, y: y as usize }
}

/// The node index a cell gets: cells are added column by column, so cell
/// `(x, y)` is node `x * height + y`.
pub open spec fn cid(t: Topography, c: Coord) -> u32 {
    (c.x * t.height + c.y) as u32
}

/// One directed edge of the cost graph: the weight is the strategy's price
/// for the directional slope from `from` to `to`.
pub open spec fn grid_edge(t: Topography, s: Strategy, from: Coord, to: Coord) -> (u32, u32, u64) {
    (cid(t, from), cid(t, to), s.spec_edge_cost(t.slope_of(from, to)))
}

/// The edges contributed when cell `(x, y)` is processed: both directions to
/// the left neighbour when `x >= 1`, both directions to the lower neighbour
/// when `y >= 1`, in insertion order.
pub open spec fn cell_edges(t: Topography, s: Strategy, x: int, y: int) -> Seq<(u32, u32, u64)> {
    let horiz = if x >= 1 {
        seq![
            grid_edge(t, s, coord(x, y), coord(x - 1, y)),
            grid_edge(t, s, coord(x - 1, y), coord(x, y)),
        ]
    } else {
        Seq::<(u32, u32, u64)>::empty()
    };
    let vert = if y >= 1 {
        seq![
            grid_edge(t, s, coord(x, y), coord(x, y - 1)),
            grid_edge(t, s, coord(x, y - 1), coord(x, y)),
        ]
    } else {
        Seq::<(u32, u32, u64)>::empty()
    };
    horiz + vert
}

/// The edges contributed by the first `n` cells, in processing order (cell
/// `k` is `(k / height, k % height)`).
pub open spec fn edges_upto(t: Topography, s: Strategy, n: int) -> Seq<(u32, u32, u64)>
    decreases n,
{
    if n <= 0 {
        Seq::<(u32, u32, u64)>::empty()
    } else {
        edges_upto(t, s, n - 1) + cell_edges(
            t,
            s,
            (n - 1) / (t.height as int),
            (n - 1) % (t.height as int),
        )
    }
}

/// Every edge of the strategy's cost graph over the whole grid.
pub open spec fn grid_edges(t: Topography, s: Strategy) -> Seq<(u32, u32, u64)> {
    edges_upto(t, s, t.width * t.height)
}

/// A cell's flat index lies under the grid total, which itself fits the
/// dimension caps.
pub(crate) proof fn lemma_cell_index(w: int, h: int, x: int, y: int)
    requires
        0 < h <= MAX_DIM,
        0 < w <= MAX_DIM,
        0 <= x < w,
        0 <= y < h,
    ensures
        0 <= x * h + y < w * h,
        w * h <= 0x100_0000,
{
    assert(x * h + y < w * h) by (nonlinear_arith)
        requires
            0 <= y < h,
            0 <= x < w,
            0 < h,
    ;
    assert(w * h <= 0x100_0000) by (nonlinear_arith)
        requires
            0 < w <= 0x1000,
            0 < h <= 0x1000,
    ;
}

/// Cell `n - 1`'s coordinates, recovered from its flat index, lie in bounds.
proof fn lemma_cell_of_index(t: Topography, n: int)
    requires
        t.wf(),
        0 < n <= t.width * t.height,
    ensures
        0 <= (n - 1) / (t.height as int) < t.width,
        0 <= (n - 1) % (t.height as int) < t.height,
        ((n - 1) / (t.height as int)) * t.height + ((n - 1) % (t.height as int)) == n - 1,
{
    let h = t.height as int;
    vstd::arithmetic::div_mod::lemma_fundamental_div_mod(n - 1, h);
    vstd::arithmetic::div_mod::lemma_div_pos_is_pos(n - 1, h);
    vstd::arithmetic::div_mod::lemma_remainder_lower(n - 1, h);
    assert(0 <= (n - 1) % h < h) by {
        vstd::arithmetic::div_mod::lemma_mod_bound(n - 1, h);
    }
    let x = (n - 1) / h;
    assert(n - 1 == h * x + (n - 1) % h);
    assert(x * h == h * x) by (nonlinear_arith);
    if x >= t.width {
        assert((t.width as int) * h <= x * h) by (nonlinear_arith)
            requires
                t.width as int <= x,
                h > 0,
        ;
        assert(false);
    }
}

/// The edges of the first `n` cells: at most four per cell, every weight at
/// most `0x1_0000_0000` (the largest slope magnitude a well-formed terrain
/// allows).
pub proof fn lemma_edges_upto_bounds(t: Topography, s: Strategy, n: int)
    requires
        t.wf(),
        0 <= n <= t.width * t.height,
    ensures
        edges_upto(t, s, n).len() <= 4 * n,
        forall|i: int|
            0 <= i < edges_upto(t, s, n).len() ==> (#[trigger] edges_upto(t, s, n)[i]).2
                <= 0x1_0000_0000,
    decreases n,
{
    if n > 0 {
        lemma_edges_upto_bounds(t, s, n - 1);
        lemma_cell_of_index(t, n);
        let h = t.height as int;
        let x = (n - 1) / h;
        let y = (n - 1) % h;
        let prev = edges_upto(t, s, n - 1);
        let cell = cell_edges(t, s, x, y);
        assert(edges_upto(t, s, n) == prev + cell);
        lemma_cell_edges_bounded(t, s, x, y);
        assert forall|i: int| 0 <= i < edges_upto(t, s, n).len() implies (#[trigger] edges_upto(
            t,
            s,
            n,
        )[i]).2 <= 0x1_0000_0000 by {
            if i < prev.len() {
                assert(edges_upto(t, s, n)[i] == prev[i]);
            } else {
                assert(edges_upto(t, s, n)[i] == cell[i - prev.len()]);
            }
        }
    }
}

/// Each edge a cell contributes carries a bounded weight.
proof fn lemma_cell_edges_bounded(t: Topography, s: Strategy, x: int, y: int)
    requires
        t.wf(),
        0 <= x < t.width,
        0 <= y < t.height,
    ensures
        cell_edges(t, s, x, y).len() <= 4,
        forall|i: int|
            0 <= i < cell_edges(t, s, x, y).len() ==> (#[trigger] cell_edges(t, s, x, y)[i]).2
                <= 0x1_0000_0000,
{
    t.lemma_height_bounded(coord(x, y));
    if x >= 1 {
        t.lemma_height_bounded(coord(x - 1, y));
        crate::strategy::lemma_edge_cost_bounded(s, t.slope_of(coord(x, y), coord(x - 1, y)));
        crate::strategy::lemma_edge_cost_bounded(s, t.slope_of(coord(x - 1, y), coord(x, y)));
    }
    if y >= 1 {
        t.lemma_height_bounded(coord(x, y - 1));
        crate::strategy::lemma_edge_cost_bounded(s, t.slope_of(coord(x, y), coord(x, y - 1)));
        crate::strategy::lemma_edge_cost_bounded(s, t.slope_of(coord(x, y - 1), coord(x, y)));
    }
}

// ---------------------------------------------------------------------------
// The built graph and its builder.
// ---------------------------------------------------------------------------

/// A strategy's cost graph together with the coordinate-to-node-index table
/// kept beside it for O(1) lookup.
pub struct GraphRepr {
    pub graph: Graph<(u32, u32), u64, Directed, u32>,
    pub ids: Vec<Vec<u32>>,
}

impl GraphRepr {
    /// What `grid_graph` builds for terrain `t` and strategy `s`: one node
    /// per cell carrying that cell's coordinate as its payload, exactly the
    /// modelled edge list, and a full index table consistent with the node
    /// order.
    pub open spec fn wf_for(self, t: Topography, s: Strategy) -> bool {
        &&& graph_nodes(self.graph).len() == t.width * t.height
        &&& forall|k: int|
            0 <= k < graph_nodes(self.graph).len() ==> #[trigger] graph_nodes(self.graph)[k] == (
            ((k / (t.height as int)) as u32),
            ((k % (t.height as int)) as u32),
            )
        &&& graph_edges(self.graph) == grid_edges(t, s)
        &&& self.ids@.len() == t.width
        &&& forall|x: int| 0 <= x < t.width ==> (#[trigger] self.ids@[x])@.len() == t.height
        &&& forall|x: int, y: int|
            0 <= x < t.width && 0 <= y < t.height ==> #[trigger] self.ids@[x]@[y] == x * t.height
                + y
    }

    /// How many nodes the graph holds.
    pub fn node_count(&self) -> (n: usize)
        ensures
            n == graph_nodes(self.graph).len(),
    {
        gr_node_count(&self.graph)
    }

    /// How many directed edges the graph holds.
    pub fn edge_count(&self) -> (n: usize)
        ensures
            n == graph_edges(self.graph).len(),
    {
        gr_edge_count(&self.graph)
    }
}

/// Builds the strategy's weighted cost graph over the terrain: one node per
/// grid cell (column by column), and, for every pair of 4-connected cells,
/// one directed edge each way priced by the strategy's transform applied to
/// that direction's slope.
#[verifier::rlimit(60)]
pub fn grid_graph(topo: &Topography, strat: Strategy) -> (g: GraphRepr)
    requires
        topo.wf(),
    ensures
        g.wf_for(*topo, strat),
{
    let w = topo.width;
    let h = topo.height;
    let mut graph = gr_new();
    let mut ids: Vec<Vec<u32>> = Vec::new();
    let mut x: usize = 0;
    while x < w
        invariant
            topo.wf(),
            w == topo.width,
            h == topo.height,
            x <= w,
            graph_nodes(graph).len() == x * h,
            forall|k: int|
                0 <= k < graph_nodes(graph).len() ==> #[trigger] graph_nodes(graph)[k] == (
                ((k / (h as int)) as u32),
                ((k % (h as int)) as u32),
                ),
            graph_edges(graph) == Seq::<(u32, u32, u64)>::empty(),
            ids@.len() == x,
            forall|i: int| 0 <= i < x ==> (#[trigger] ids@[i])@.len() == h,
            forall|i: int, j: int|
                0 <= i < x && 0 <= j < h ==> #[trigger] ids@[i]@[j] == i * h + j,
        decreases w - x,
    {
        let mut row: Vec<u32> = Vec::new();
        let mut y: usize = 0;
        while y < h
            invariant
                topo.wf(),
                w == topo.width,
                h == topo.height,
                x < w,
                y <= h,
                graph_nodes(graph).len() == x * h + y,
                forall|k: int|
                    0 <= k < graph_nodes(graph).len() ==> #[trigger] graph_nodes(graph)[k] == (
                    ((k / (h as int)) as u32),
                    ((k % (h as int)) as u32),
                    ),
                graph_edges(graph) == Seq::<(u32, u32, u64)>::empty(),
                row@.len() == y,
                forall|j: int| 0 <= j < y ==> #[trigger] row@[j] == x * h + j,
            decreases h - y,
        {
            proof {
                lemma_cell_index(w as int, h as int, x as int, y as int);
                vstd::arithmetic::div_mod::lemma_fundamental_div_mod_converse(
                    x as int * h as int + y as int,
                    h as int,
                    x as int,
                    y as int,
                );
            }
            let id = gr_add_node(&mut graph, x as u32, y as u32);
            row.push(id);
            y = y + 1;
        }
        ids.push(row);
        x = x + 1;
        proof {
            assert(x * h == (x - 1) * h + h) by (nonlinear_arith);
        }
    }
    let mut x: usize = 0;
    while x < w
        invariant
            topo.wf(),
            w == topo.width,
            h == topo.height,
            x <= w,
            graph_nodes(graph).len() == w * h,
            forall|k: int|
                0 <= k < graph_nodes(graph).len() ==> #[trigger] graph_nodes(graph)[k] == (
                ((k / (h as int)) as u32),
                ((k % (h as int)) as u32),
                ),
            ids@.len() == w,
            forall|i: int| 0 <= i < w ==> (#[trigger] ids@[i])@.len() == h,
            forall|i: int, j: int|
                0 <= i < w && 0 <= j < h ==> #[trigger] ids@[i]@[j] == i * h + j,
            graph_edges(graph) == edges_upto(*topo, strat, x as int * h as int),
        decreases w - x,
    {
        let mut y: usize = 0;
        while y < h
            invariant
                topo.wf(),
                w == topo.width,
                h == topo.height,
                x < w,
                y <= h,
                graph_nodes(graph).len() == w * h,
                forall|k: int|
                    0 <= k < graph_nodes(graph).len() ==> #[trigger] graph_nodes(graph)[k] == (
                    ((k / (h as int)) as u32),
                    ((k % (h as int)) as u32),
                    ),
                ids@.len() == w,
                forall|i: int| 0 <= i < w ==> (#[trigger] ids@[i])@.len() == h,
                forall|i: int, j: int|
                    0 <= i < w && 0 <= j < h ==> #[trigger] ids@[i]@[j] == i * h + j,
                graph_edges(graph) == edges_upto(*topo, strat, x as int * h as int + y as int),
            decreases h - y,
        {
            let ghost t = *topo;
            let ghost k: int = x as int * h as int + y as int;
            proof {
                lemma_cell_index(w as int, h as int, x as int, y as int);
                vstd::arithmetic::div_mod::lemma_fundamental_div_mod_converse(
                    k,
                    h as int,
                    x as int,
                    y as int,
                );
                lemma_edges_upto_bounds(t, strat, k);
            }
            let here = Coord { x, y };
            let src_id = ids[x][y];
            if x >= 1 {
                proof {
                    lemma_cell_index(w as int, h as int, x as int - 1, y as int);
                    t.lemma_height_bounded(coord(x as int, y as int));
                    t.lemma_height_bounded(coord(x as int - 1, y as int));
                }
                let there = Coord { x: x - 1, y };
                let dst_id = ids[x - 1][y];
                let s1 = topo.slope_in(here, there);
                let w1 = strat.edge_cost(s1);
                gr_add_edge(&mut graph, src_id, dst_id, w1);
                let s2 = topo.slope_in(there, here);
                let w2 = strat.edge_cost(s2);
                gr_add_edge(&mut graph, dst_id, src_id, w2);
            }
            if y >= 1 {
                proof {
                    lemma_cell_index(w as int, h as int, x as int, y as int - 1);
                    t.lemma_height_bounded(coord(x as int, y as int));
                    t.lemma_height_bounded(coord(x as int, y as int - 1));
                }
                let below = Coord { x, y: y - 1 };
                let dst_id = ids[x][y - 1];
                let s1 = topo.slope_in(here, below);
                let w1 = strat.edge_cost(s1);
                gr_add_edge(&mut graph, src_id, dst_id, w1);
                let s2 = topo.slope_in(below, here);
                let w2 = strat.edge_cost(s2);
                gr_add_edge(&mut graph, dst_id, src_id, w2);
            }
            proof {
                assert(graph_edges(graph) =~= edges_upto(t, strat, k + 1));
            }
            y = y + 1;
        }
        x = x + 1;
        proof {
            assert(x * h == (x - 1) * h + h) by (nonlinear_arith);
        }
    }
    GraphRepr { graph, ids }
}

// ---------------------------------------------------------------------------
// Size and flat-terrain laws of the modelled edge list.
// ---------------------------------------------------------------------------

/// Within one column, each processed cell past the first contributes two
/// vertical edges, and every cell of a column past the first contributes two
/// horizontal edges as well.
proof fn lemma_edges_upto_row_len(t: Topography, s: Strategy, x: int, y: int)
    requires
        t.wf(),
        0 <= x < t.width,
        0 <= y <= t.height,
    ensures
        edges_upto(t, s, x * t.height + y).len() == edges_upto(t, s, x * t.height).len() + (if x
            >= 1 {
            2 * y
        } else {
            0
        }) + (if y >= 1 {
            2 * (y - 1)
        } else {
            0
        }),
    decreases y,
{
    if y > 0 {
        lemma_edges_upto_row_len(t, s, x, y - 1);
        let h = t.height as int;
        let n = x * h + y;
        vstd::arithmetic::div_mod::lemma_fundamental_div_mod_converse(n - 1, h, x, y - 1);
        assert(edges_upto(t, s, n) == edges_upto(t, s, n - 1) + cell_edges(t, s, x, y - 1));
    }
}

/// The edges of the first `x` whole columns, in closed form.
proof fn lemma_edges_upto_col_len(t: Topography, s: Strategy, x: int)
    requires
        t.wf(),
        0 <= x <= t.width,
    ensures
        edges_upto(t, s, x * t.height).len() == 2 * (t.height - 1) * x + (if x >= 1 {
            2 * t.height * (x - 1)
        } else {
            0
        }),
    decreases x,
{
    let h = t.height as int;
    if x == 0 {
        assert(x * h == 0 && 2 * (h - 1) * x == 0) by (nonlinear_arith)
            requires
                x == 0,
        ;
    } else {
        lemma_edges_upto_col_len(t, s, x - 1);
        lemma_edges_upto_row_len(t, s, x - 1, h);
        assert(x * h == (x - 1) * h + h) by (nonlinear_arith);
        assert(2 * (h - 1) * x == 2 * (h - 1) * (x - 1) + 2 * (h - 1)) by (nonlinear_arith);
        if x >= 2 {
            assert(2 * h * (x - 1) == 2 * h * (x - 2) + 2 * h) by (nonlinear_arith);
        } else {
            assert(2 * h * (x - 1) == 0 && 2 * (h - 1) * (x - 1) == 0 && (x - 1) * h == 0)
                by (nonlinear_arith)
                requires
                    x == 1,
            ;
        }
    }
}

/// The cost graph's size: its edge count is twice the number of 4-adjacent
/// cell pairs in the grid, one directed edge each way (the node count, one
/// per cell, is part of `GraphRepr::wf_for`).
pub proof fn lemma_grid_graph_size(t: Topography, s: Strategy)
    requires
        t.wf(),
    ensures
        grid_edges(t, s).len() == 2 * ((t.width - 1) * t.height + t.width * (t.height - 1)),
{
    let w = t.width as int;
    let h = t.height as int;
    lemma_edges_upto_col_len(t, s, w);
    assert(2 * (h - 1) * w + 2 * h * (w - 1) == 2 * ((w - 1) * h + w * (h - 1)))
        by (nonlinear_arith);
}

/// On a terrain of uniform elevation every directional slope is zero, so
/// both strategies price every edge at the shared flat baseline 0 and build
/// the same cost graph.
pub proof fn lemma_flat_edges(t: Topography, n: int)
    requires
        t.wf(),
        forall|i: int| 0 <= i < t.heights@.len() ==> #[trigger] t.heights@[i] == t.heights@[0],
        0 <= n <= t.width * t.height,
    ensures
        edges_upto(t, Strategy::Ascend, n) == edges_upto(t, Strategy::Descend, n),
        forall|i: int|
            0 <= i < edges_upto(t, Strategy::Ascend, n).len() ==> (#[trigger] edges_upto(
                t,
                Strategy::Ascend,
                n,
            )[i]).2 == 0,
    decreases n,
{
    if n > 0 {
        lemma_flat_edges(t, n - 1);
        lemma_cell_of_index(t, n);
        let h = t.height as int;
        let x = (n - 1) / h;
        let y = (n - 1) % h;
        lemma_flat_cell(t, x, y);
        let prevA = edges_upto(t, Strategy::Ascend, n - 1);
        let cellA = cell_edges(t, Strategy::Ascend, x, y);
        assert(edges_upto(t, Strategy::Ascend, n) == prevA + cellA);
        assert(edges_upto(t, Strategy::Descend, n) == prevA + cellA);
        assert forall|i: int| 0 <= i < edges_upto(t, Strategy::Ascend, n).len() implies (
        #[trigger] edges_upto(t, Strategy::Ascend, n)[i]).2 == 0 by {
            if i < prevA.len() {
                assert(edges_upto(t, Strategy::Ascend, n)[i] == prevA[i]);
            } else {
                assert(edges_upto(t, Strategy::Ascend, n)[i] == cellA[i - prevA.len()]);
            }
        }
    }
}

/// On uniform terrain one cell's contributed edges agree across strategies
/// and all carry weight 0.
proof fn lemma_flat_cell(t: Topography, x: int, y: int)
    requires
        t.wf(),
        forall|i: int| 0 <= i < t.heights@.len() ==> #[trigger] t.heights@[i] == t.heights@[0],
        0 <= x < t.width,
        0 <= y < t.height,
    ensures
        cell_edges(t, Strategy::Ascend, x, y) == cell_edges(t, Strategy::Descend, x, y),
        forall|i: int|
            0 <= i < cell_edges(t, Strategy::Ascend, x, y).len() ==> (#[trigger] cell_edges(
                t,
                Strategy::Ascend,
                x,
                y,
            )[i]).2 == 0,
{
    t.lemma_height_bounded(coord(x, y));
    if x >= 1 {
        t.lemma_height_bounded(coord(x - 1, y));
        assert(t.slope_of(coord(x, y), coord(x - 1, y)) == 0);
        assert(t.slope_of(coord(x - 1, y), coord(x, y)) == 0);
    }
    if y >= 1 {
        t.lemma_height_bounded(coord(x, y - 1));
        assert(t.slope_of(coord(x, y), coord(x, y - 1)) == 0);
        assert(t.slope_of(coord(x, y - 1), coord(x, y)) == 0);
    }
    assert(cell_edges(t, Strategy::Ascend, x, y) =~= cell_edges(t, Strategy::Descend, x, y));
}

} // verus!
