//! Directed graphs over node indices, with cycle detection and topological
//! order from `petgraph`.

use vstd::prelude::*;
use petgraph::graph::{DiGraph, NodeIndex};
use crate::model::{DependencyEdge, LaunchRef};

verus! {

/// Every edge joins two of the `n` nodes.
pub open spec fn edges_in_range(n: nat, edges: Seq<(usize, usize)>) -> bool {
    forall|k: int| 0 <= k < edges.len() ==> (#[trigger] edges[k]).0 < n && edges[k].1 < n
}

/// `w` is a closed walk of at least one edge through nodes below `n`.
pub open spec fn is_cycle_walk(n: nat, edges: Seq<(usize, usize)>, w: Seq<usize>) -> bool {
    &&& w.len() >= 2
    &&& w[0] == w.last()
    &&& forall|i: int| 0 <= i < w.len() ==> (#[trigger] w[i]) < n
    &&& forall|i: int| 0 <= i < w.len() - 1 ==> edges.contains((#[trigger] w[i], w[i + 1]))
}

/// The graph has a directed cycle (a self loop counts).
pub open spec fn has_cycle(n: nat, edges: Seq<(usize, usize)>) -> bool {
    exists|w: Seq<usize>| is_cycle_walk(n, edges, w)
}

/// Node `v` lies on a directed cycle.
pub open spec fn on_cycle(n: nat, edges: Seq<(usize, usize)>, v: usize) -> bool {
    exists|w: Seq<usize>| is_cycle_walk(n, edges, w) && w.contains(v)
}

/// Node `a` comes before node `b` in `order`.
pub open spec fn precedes(order: Seq<usize>, a: usize, b: usize) -> bool {
    exists|i: int, j: int| 0 <= i < j < order.len() && order[i] == a && order[j] == b
}

/// `order` lists each of the `n` nodes once, and every edge goes from an
/// earlier to a later node.
pub open spec fn is_topological_order(n: nat, edges: Seq<(usize, usize)>, order: Seq<usize>) -> bool {
    &&& order.len() == n
    &&& order.no_duplicates()
    &&& forall|i: int| 0 <= i < order.len() ==> (#[trigger] order[i]) < n
    &&& forall|k: int| 0 <= k < edges.len() ==> precedes(order, (#[trigger] edges[k]).0, edges[k].1)
}

/// `order` lists each of the `n` nodes once, and for every edge its target
/// comes before its source: with edges from a package to its dependencies,
/// every dependency comes before the packages that depend on it.
pub open spec fn is_build_order(n: nat, edges: Seq<(usize, usize)>, order: Seq<usize>) -> bool {
    &&& order.len() == n
    &&& order.no_duplicates()
    &&& forall|i: int| 0 <= i < order.len() ==> (#[trigger] order[i]) < n
    &&& forall|k: int| 0 <= k < edges.len() ==> precedes(order, (#[trigger] edges[k]).1, edges[k].0)
}

/// `s` back to front.
pub open spec fn reversed<T>(s: Seq<T>) -> Seq<T> {
    Seq::new(s.len(), |i: int| s[s.len() - 1 - i])
}

/// A topological order read back to front is a build order.
pub proof fn lemma_reversed_build_order(n: nat, edges: Seq<(usize, usize)>, order: Seq<usize>)
    requires
        is_topological_order(n, edges, order),
    ensures
        is_build_order(n, edges, reversed(order)),
{
    let r = reversed(order);
    let len = order.len() as int;
    assert(r.len() == n);
    assert forall|a: int, b: int| 0 <= a < r.len() && 0 <= b < r.len() && a != b implies r[a] != r[b] by {
        assert(order[len - 1 - a] != order[len - 1 - b]);
    }
    assert(r.no_duplicates());
    assert forall|i: int| 0 <= i < r.len() implies (#[trigger] r[i]) < n by {
        assert(order[len - 1 - i] < n);
    }
    assert forall|k: int| 0 <= k < edges.len() implies precedes(r, (#[trigger] edges[k]).1, edges[k].0) by {
        assert(precedes(order, edges[k].0, edges[k].1));
        let (i, j) = choose|i: int, j: int|
            0 <= i < j < order.len() && order[i] == edges[k].0 && order[j] == edges[k].1;
        assert(r[len - 1 - j] == order[j]);
        assert(r[len - 1 - i] == order[i]);
        assert(0 <= len - 1 - j < len - 1 - i < r.len() && r[len - 1 - j] == edges[k].1 && r[len - 1 - i] == edges[k].0);
    }
    assert(is_build_order(n, edges, r));
}

// =============================================================================
// The project's graphs, held in `petgraph` graphs
// =============================================================================

#[verifier::external_type_specification]
#[verifier::external_body]
#[verifier::reject_recursive_types(N)]
#[verifier::reject_recursive_types(E)]
#[verifier::reject_recursive_types(Ty)]
#[verifier::reject_recursive_types(Ix)]
pub struct ExGraph<N, E, Ty, Ix>(petgraph::graph::Graph<N, E, Ty, Ix>);

#[verifier::external_type_specification]
#[verifier::external_body]
pub struct ExDirected(petgraph::Directed);

/// The node weights of a package dependency graph, in node index order.
pub uninterp spec fn dep_graph_nodes(g: DiGraph<String, DependencyEdge>) -> Seq<Seq<char>>;

/// The edges (source, target, weight) of a package dependency graph, in edge
/// index order.
pub uninterp spec fn dep_graph_edges(g: DiGraph<String, DependencyEdge>) -> Seq<(usize, usize, DependencyEdge)>;

/// The node weights (package, file) of a launch include graph, in node index
/// order.
pub uninterp spec fn launch_graph_nodes(g: DiGraph<LaunchRef, ()>) -> Seq<(Seq<char>, Seq<char>)>;

/// The edges (source, target) of a launch include graph, in edge index order.
pub uninterp spec fn launch_graph_edges(g: DiGraph<LaunchRef, ()>) -> Seq<(usize, usize)>;

/// The (source, target) pairs of a dependency graph's edges.
pub open spec fn dep_edge_pairs(g: DiGraph<String, DependencyEdge>) -> Seq<(usize, usize)> {
    dep_graph_edges(g).map_values(|e: (usize, usize, DependencyEdge)| (e.0, e.1))
}

/// `Graph::new`: a dependency graph without nodes or edges.
#[verifier::external_body]
pub(crate) fn new_dep_graph() -> (g: DiGraph<String, DependencyEdge>)
    ensures
        dep_graph_nodes(g) == Seq::<Seq<char>>::empty(),
        dep_graph_edges(g) == Seq::<(usize, usize, DependencyEdge)>::empty(),
{
    DiGraph::new()
}

/// `Graph::add_node`: appends a node with this weight and returns its index.
/// It panics when the index would reach `u32::MAX` (the default index type's
/// end marker), which `requires` leaves out.
#[verifier::external_body]
pub(crate) fn add_dep_node(g: &mut DiGraph<String, DependencyEdge>, name: String) -> (i: usize)
    requires
        dep_graph_nodes(*old(g)).len() < u32::MAX,
    ensures
        dep_graph_nodes(*final(g)) == dep_graph_nodes(*old(g)).push(name@),
        dep_graph_edges(*final(g)) == dep_graph_edges(*old(g)),
        i == dep_graph_nodes(*old(g)).len(),
{
    g.add_node(name).index()
}

/// `Graph::add_edge`: appends an edge between two existing nodes. It panics
/// for a node index out of bounds, or when the edge index would reach
/// `u32::MAX`, which `requires` leaves out.
#[verifier::external_body]
pub(crate) fn add_dep_edge(g: &mut DiGraph<String, DependencyEdge>, a: usize, b: usize, e: DependencyEdge)
    requires
        a < dep_graph_nodes(*old(g)).len(),
        b < dep_graph_nodes(*old(g)).len(),
        dep_graph_edges(*old(g)).len() < u32::MAX,
    ensures
        dep_graph_nodes(*final(g)) == dep_graph_nodes(*old(g)),
        dep_graph_edges(*final(g)) == dep_graph_edges(*old(g)).push((a, b, e)),
{
    g.add_edge(NodeIndex::new(a), NodeIndex::new(b), e);
}

/// `Graph::node_weight`: the weight of node `i`, none where there is no such node.
/// `NodeIndex::new` keeps only the low 32 bits of an index, so `requires`
/// holds `i` to the indices that the default index type can name.
#[verifier::external_body]
pub(crate) fn dep_node_weight(g: &DiGraph<String, DependencyEdge>, i: usize) -> (r: Option<&String>)
    requires
        i < u32::MAX,
    ensures
        match r {
            Some(w) => i < dep_graph_nodes(*g).len() && w@ == dep_graph_nodes(*g)[i as int],
            None => i >= dep_graph_nodes(*g).len(),
        },
{
    g.node_weight(NodeIndex::new(i))
}

/// What `petgraph::algo::toposort` returns on a dependency graph, its node
/// indices taken as `usize`: the node order, or the node named by the `Cycle`
/// error. The search is a deterministic walk of the graph's nodes and
/// adjacency lists, so the outcome is a function of the graph; which of
/// several valid orders or cycle nodes that is, is left to this name.
pub uninterp spec fn dep_toposort_outcome(g: DiGraph<String, DependencyEdge>) -> Result<Seq<usize>, usize>;

/// `petgraph::algo::toposort` on a dependency graph. As its documentation
/// states: where the graph is acyclic, the nodes in topological order (each
/// node before its successors); otherwise the error names a node that
/// participates in a cycle (self loops are cycles). Its outcome is named by
/// `dep_toposort_outcome`. Every index it returns is that of a node, and
/// `Graph::add_node` never creates a node at `u32::MAX`, the end marker of the
/// default index type, so each index is below it.
#[verifier::external_body]
pub(crate) fn dep_toposort(g: &DiGraph<String, DependencyEdge>) -> (r: Result<Vec<usize>, usize>)
    ensures
        match r {
            Ok(order) => dep_toposort_outcome(*g) == Ok::<Seq<usize>, usize>(order@),
            Err(v) => dep_toposort_outcome(*g) == Err::<Seq<usize>, usize>(v),
        },
        r is Ok <==> !has_cycle(dep_graph_nodes(*g).len(), dep_edge_pairs(*g)),
        r matches Ok(order) ==> is_topological_order(dep_graph_nodes(*g).len(), dep_edge_pairs(*g), order@),
        r matches Ok(order) ==> forall|k: int| 0 <= k < order@.len() ==> (#[trigger] order@[k]) < u32::MAX,
        r matches Err(v) ==> v < dep_graph_nodes(*g).len() && on_cycle(dep_graph_nodes(*g).len(), dep_edge_pairs(*g), v),
        r matches Err(v) ==> v < u32::MAX,
{
    match petgraph::algo::toposort(g, None) {
        Ok(order) => Ok(order.into_iter().map(|i| i.index()).collect()),
        Err(c) => Err(c.node_id().index()),
    }
}

/// `Graph::new`: a launch include graph without nodes or edges.
#[verifier::external_body]
pub(crate) fn new_launch_graph() -> (g: DiGraph<LaunchRef, ()>)
    ensures
        launch_graph_nodes(g) == Seq::<(Seq<char>, Seq<char>)>::empty(),
        launch_graph_edges(g) == Seq::<(usize, usize)>::empty(),
{
    DiGraph::new()
}

/// `Graph::add_node` on a launch include graph, as `add_dep_node`.
#[verifier::external_body]
pub(crate) fn add_launch_node(g: &mut DiGraph<LaunchRef, ()>, r: LaunchRef) -> (i: usize)
    requires
        launch_graph_nodes(*old(g)).len() < u32::MAX,
    ensures
        launch_graph_nodes(*final(g)) == launch_graph_nodes(*old(g)).push((r.package@, r.file@)),
        launch_graph_edges(*final(g)) == launch_graph_edges(*old(g)),
        i == launch_graph_nodes(*old(g)).len(),
{
    g.add_node(r).index()
}

/// `Graph::add_edge` on a launch include graph, as `add_dep_edge`.
#[verifier::external_body]
pub(crate) fn add_launch_edge(g: &mut DiGraph<LaunchRef, ()>, a: usize, b: usize)
    requires
        a < launch_graph_nodes(*old(g)).len(),
        b < launch_graph_nodes(*old(g)).len(),
        launch_graph_edges(*old(g)).len() < u32::MAX,
    ensures
        launch_graph_nodes(*final(g)) == launch_graph_nodes(*old(g)),
        launch_graph_edges(*final(g)) == launch_graph_edges(*old(g)).push((a, b)),
{
    g.add_edge(NodeIndex::new(a), NodeIndex::new(b), ());
}

/// `petgraph::algo::is_cyclic_directed` on a launch include graph: true
/// exactly when it has a directed cycle.
#[verifier::external_body]
pub(crate) fn launch_is_cyclic(g: &DiGraph<LaunchRef, ()>) -> (r: bool)
    ensures
        r == has_cycle(launch_graph_nodes(*g).len(), launch_graph_edges(*g)),
{
    petgraph::algo::is_cyclic_directed(g)
}

} // verus!
