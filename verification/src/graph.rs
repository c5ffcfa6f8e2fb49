//! The dependency graph that the analyzer builds, held in a directed
//! `petgraph` graph, and the cycle test over it.
//!
//! The graph's contents are modelled by two names: how many nodes it has,
//! and which directed edges (as pairs of node indices) it holds. Every
//! operation the analyzer uses goes through a wrapper whose contract is
//! stated over those two names; `petgraph` computes, the analyzer reasons.
use vstd::prelude::*;

use petgraph::Directed;
use petgraph::graph::Graph;
use petgraph::graph::NodeIndex;

verus! {

#[verifier::external_type_specification]
#[verifier::external_body]
#[verifier::reject_recursive_types(N)]
#[verifier::reject_recursive_types(E)]
#[verifier::reject_recursive_types(Ty)]
#[verifier::reject_recursive_types(Ix)]
pub struct ExGraph<N, E, Ty, Ix>(Graph<N, E, Ty, Ix>);

#[verifier::external_type_specification]
#[verifier::external_body]
pub struct ExDirected(Directed);

/// How many nodes the graph holds.
pub uninterp spec fn graph_nodes(g: Graph<(), (), Directed, usize>) -> nat;

/// The directed edges the graph holds, as pairs of node indices.
pub uninterp spec fn graph_edges(g: Graph<(), (), Directed, usize>) -> Set<(nat, nat)>;

/// A closed walk through `edges`: at least one step, ending where it
/// began, every step an edge.
pub open spec fn is_cycle_path(p: Seq<nat>, edges: Set<(nat, nat)>) -> bool {
    &&& p.len() >= 2
    &&& p[0] == p[p.len() - 1]
    &&& forall|i: int| 0 <= i < p.len() - 1 ==> edges.contains((#[trigger] p[i], p[i + 1]))
}

/// Does the edge set contain a directed cycle?
pub open spec fn has_cycle(edges: Set<(nat, nat)>) -> bool {
    exists|p: Seq<nat>| is_cycle_path(p, edges)
}

/// Relies on `Graph::with_capacity`: a graph that starts with no nodes
/// and no edges.
#[verifier::external_body]
pub fn graph_new() -> (g: Graph<(), (), Directed, usize>)
    ensures
        graph_nodes(g) == 0,
        graph_edges(g) == Set::<(nat, nat)>::empty(),
{
    Graph::with_capacity(0, 0)
}

/// Relies on `Graph::add_node`: appends one node and returns its index,
/// which is the previous node count; with `usize` indices it cannot hit
/// an index limit.
#[verifier::external_body]
pub fn graph_add_node(g: &mut Graph<(), (), Directed, usize>) -> (i: usize)
    requires
        graph_nodes(*old(g)) < usize::MAX,
    ensures
        graph_nodes(*final(g)) == graph_nodes(*old(g)) + 1,
        graph_edges(*final(g)) == graph_edges(*old(g)),
        i as nat == graph_nodes(*old(g)),
{
    g.add_node(()).index()
}

/// Relies on `Graph::add_edge`: inserts the directed edge `a -> b`; both
/// endpoints must exist, and with `usize` indices there is no edge-count
/// limit.
#[verifier::external_body]
pub fn graph_add_edge(g: &mut Graph<(), (), Directed, usize>, a: usize, b: usize)
    requires
        (a as nat) < graph_nodes(*old(g)),
        (b as nat) < graph_nodes(*old(g)),
    ensures
        graph_nodes(*final(g)) == graph_nodes(*old(g)),
        graph_edges(*final(g)) == graph_edges(*old(g)).insert((a as nat, b as nat)),
{
    let _ = g.add_edge(NodeIndex::new(a), NodeIndex::new(b), ());
}

/// Relies on `petgraph::algo::is_cyclic_directed`: true exactly when the
/// directed graph contains a cycle.
#[verifier::external_body]
pub fn graph_is_cyclic(g: &Graph<(), (), Directed, usize>) -> (r: bool)
    ensures
        r == has_cycle(graph_edges(*g)),
{
    petgraph::algo::is_cyclic_directed(g)
}

// ---------------------------------------------------------------------------
// Facts about cycles
// ---------------------------------------------------------------------------
/// Two mutual edges form a cycle.
pub proof fn lemma_mutual_edges_cycle(edges: Set<(nat, nat)>, a: nat, b: nat)
    requires
        edges.contains((a, b)),
        edges.contains((b, a)),
    ensures
        has_cycle(edges),
{
    let p: Seq<nat> = seq![a, b, a];
    assert(is_cycle_path(p, edges));
}

/// Along a cycle path whose every edge strictly raises a rank, the rank
/// at position `j` is at least `j` above the start.
proof fn lemma_path_rank_rises(p: Seq<nat>, edges: Set<(nat, nat)>, f: spec_fn(nat) -> nat, j: int)
    requires
        0 <= j < p.len(),
        forall|e: (nat, nat)| edges.contains(e) ==> f(e.0) < f(e.1),
        forall|i: int| 0 <= i < p.len() - 1 ==> edges.contains((#[trigger] p[i], p[i + 1])),
    ensures
        f(p[0]) + j <= f(p[j]),
    decreases j,
{
    if j > 0 {
        lemma_path_rank_rises(p, edges, f, j - 1);
        assert(edges.contains((p[j - 1], p[j])));
    }
}

/// If some rank strictly rises along every edge, the edge set has no
/// cycle.
pub proof fn lemma_rank_no_cycle(edges: Set<(nat, nat)>, f: spec_fn(nat) -> nat)
    requires
        forall|e: (nat, nat)| edges.contains(e) ==> f(e.0) < f(e.1),
    ensures
        !has_cycle(edges),
{
    if has_cycle(edges) {
        let p = choose|p: Seq<nat>| is_cycle_path(p, edges);
        lemma_path_rank_rises(p, edges, f, p.len() - 1);
    }
}

} // verus!
