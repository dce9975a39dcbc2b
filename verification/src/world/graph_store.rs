//! The node and edge storage of a scene graph: a directed
//! `petgraph::graph::Graph` whose nodes hold `u64` entity ids and whose
//! edges carry no data.
//!
//! The graph's contents are described by four names: `graph_nodes`, the node
//! weights in node-index order; `graph_outgoing` and `graph_incoming`, for
//! each node the other endpoints of its outgoing and of its incoming edges, in
//! the order in which petgraph lists them (newest edge first); and
//! `graph_edge_count`, the number of edges. Every function here is a trusted
//! wrapper around one petgraph call.
use petgraph::graph::{Graph, NodeIndex as PgNodeIndex};
use petgraph::visit::Dfs;
use petgraph::Direction as PgDirection;
use vstd::prelude::*;

use crate::world::scenegraph::{adjacency_after_removal, adjacent, Direction};

verus! {

#[verifier::external_type_specification]
#[verifier::external_body]
#[verifier::reject_recursive_types(N)]
#[verifier::reject_recursive_types(E)]
#[verifier::reject_recursive_types(Ty)]
#[verifier::reject_recursive_types(Ix)]
pub struct ExGraph<N, E, Ty, Ix>(Graph<N, E, Ty, Ix>);

#[verifier::external_type_specification]
#[verifier::external_body]
pub struct ExDirected(petgraph::Directed);

/// The node weights of a graph, indexed by node index.
pub uninterp spec fn graph_nodes(g: Graph<u64, ()>) -> Seq<u64>;

/// For each node index, the targets of the node's outgoing edges, in the
/// order in which `neighbors_directed(.., Outgoing)` yields them.
pub uninterp spec fn graph_outgoing(g: Graph<u64, ()>) -> Seq<Seq<u32>>;

/// For each node index, the sources of the node's incoming edges, in the
/// order in which `neighbors_directed(.., Incoming)` yields them.
pub uninterp spec fn graph_incoming(g: Graph<u64, ()>) -> Seq<Seq<u32>>;

/// The number of edges of a graph.
pub uninterp spec fn graph_edge_count(g: Graph<u64, ()>) -> nat;

/// The nodes that `petgraph::visit::Dfs` emits, in order, when it is started
/// at `start` on a graph whose outgoing neighbour lists are `outgoing`.
pub uninterp spec fn dfs_preorder(outgoing: Seq<Seq<u32>>, start: u32) -> Seq<u32>;

/// The neighbour lists of `g` in `direction`.
pub open spec fn graph_adjacency(g: Graph<u64, ()>, direction: Direction) -> Seq<Seq<u32>> {
    match direction {
        Direction::Outgoing => graph_outgoing(g),
        Direction::Incoming => graph_incoming(g),
    }
}

/// `Graph::new`: a graph without nodes or edges.
#[verifier::external_body]
pub fn graph_new() -> (g: Graph<u64, ()>)
    ensures
        graph_nodes(g) == Seq::<u64>::empty(),
        graph_outgoing(g) == Seq::<Seq<u32>>::empty(),
        graph_incoming(g) == Seq::<Seq<u32>>::empty(),
        graph_edge_count(g) == 0,
{
    Graph::new()
}

/// `Graph::node_count`: the number of nodes.
#[verifier::external_body]
pub fn graph_node_count(g: &Graph<u64, ()>) -> (n: usize)
    ensures
        n == graph_nodes(*g).len(),
{
    g.node_count()
}

/// `Graph::edge_count`: the number of edges.
#[verifier::external_body]
pub fn graph_edge_count_of(g: &Graph<u64, ()>) -> (n: usize)
    ensures
        n == graph_edge_count(*g),
{
    g.edge_count()
}

/// `Graph::add_node`: appends a node without edges and returns its index,
/// the old node count. It panics when the count has reached the index type's
/// maximum.
#[verifier::external_body]
pub fn graph_add_node(g: &mut Graph<u64, ()>, weight: u64) -> (index: u32)
    requires
        graph_nodes(*old(g)).len() < u32::MAX,
    ensures
        graph_nodes(*final(g)) == graph_nodes(*old(g)).push(weight),
        graph_outgoing(*final(g)) == graph_outgoing(*old(g)).push(Seq::<u32>::empty()),
        graph_incoming(*final(g)) == graph_incoming(*old(g)).push(Seq::<u32>::empty()),
        graph_edge_count(*final(g)) == graph_edge_count(*old(g)),
        index == graph_nodes(*old(g)).len(),
{
    g.add_node(weight).index() as u32
}

/// `Graph::add_edge`: adds an edge `source -> target`, which becomes the
/// first in the source's outgoing list and in the target's incoming list.
/// It panics when either endpoint is not a node or the edge count has
/// reached the index type's maximum.
#[verifier::external_body]
pub fn graph_add_edge(g: &mut Graph<u64, ()>, source: u32, target: u32)
    requires
        source < graph_nodes(*old(g)).len(),
        target < graph_nodes(*old(g)).len(),
        graph_outgoing(*old(g)).len() == graph_nodes(*old(g)).len(),
        graph_incoming(*old(g)).len() == graph_nodes(*old(g)).len(),
        graph_edge_count(*old(g)) < u32::MAX,
    ensures
        graph_nodes(*final(g)) == graph_nodes(*old(g)),
        graph_outgoing(*final(g)) == graph_outgoing(*old(g)).update(
            source as int,
            seq![target] + graph_outgoing(*old(g))[source as int],
        ),
        graph_incoming(*final(g)) == graph_incoming(*old(g)).update(
            target as int,
            seq![source] + graph_incoming(*old(g))[target as int],
        ),
        graph_edge_count(*final(g)) == graph_edge_count(*old(g)) + 1,
{
    let _ = g.add_edge(PgNodeIndex::new(source as usize), PgNodeIndex::new(target as usize), ());
}

/// `Graph::remove_node`: removes node `a` and every edge that touches it, and
/// returns its weight. Every neighbour list loses its entries for `a` and
/// keeps the order of the rest; the last node then takes over index `a`, and
/// the entries that named it name `a`. A missing node leaves the graph
/// unchanged.
#[verifier::external_body]
pub fn graph_remove_node(g: &mut Graph<u64, ()>, a: u32) -> (removed: Option<u64>)
    requires
        graph_outgoing(*old(g)).len() == graph_nodes(*old(g)).len(),
        graph_incoming(*old(g)).len() == graph_nodes(*old(g)).len(),
    ensures
        a < graph_nodes(*old(g)).len() ==> {
            &&& removed == Some(graph_nodes(*old(g))[a as int])
            &&& graph_nodes(*final(g)) == graph_nodes(*old(g)).update(
                a as int,
                graph_nodes(*old(g)).last(),
            ).drop_last()
            &&& graph_outgoing(*final(g)) == adjacency_after_removal(
                graph_outgoing(*old(g)),
                a,
                (graph_nodes(*old(g)).len() - 1) as u32,
            )
            &&& graph_incoming(*final(g)) == adjacency_after_removal(
                graph_incoming(*old(g)),
                a,
                (graph_nodes(*old(g)).len() - 1) as u32,
            )
            &&& graph_edge_count(*final(g)) <= graph_edge_count(*old(g))
        },
        a >= graph_nodes(*old(g)).len() ==> {
            &&& removed == None::<u64>
            &&& graph_nodes(*final(g)) == graph_nodes(*old(g))
            &&& graph_outgoing(*final(g)) == graph_outgoing(*old(g))
            &&& graph_incoming(*final(g)) == graph_incoming(*old(g))
            &&& graph_edge_count(*final(g)) == graph_edge_count(*old(g))
        },
{
    g.remove_node(PgNodeIndex::new(a as usize))
}

/// `Index<NodeIndex>` on `Graph`: the weight of node `index`. It panics for a
/// missing node.
#[verifier::external_body]
pub fn graph_node_weight(g: &Graph<u64, ()>, index: u32) -> (weight: u64)
    requires
        index < graph_nodes(*g).len(),
    ensures
        weight == graph_nodes(*g)[index as int],
{
    g[PgNodeIndex::new(index as usize)]
}

/// `IndexMut<NodeIndex>` on `Graph`: a mutable reference to the weight of
/// node `index`. It panics for a missing node.
#[verifier::external_body]
pub fn graph_node_weight_mut(g: &mut Graph<u64, ()>, index: u32) -> (weight: &mut u64)
    requires
        index < graph_nodes(*old(g)).len(),
    ensures
        *weight == graph_nodes(*old(g))[index as int],
        graph_nodes(*final(g)) == graph_nodes(*old(g)).update(index as int, *final(weight)),
        graph_outgoing(*final(g)) == graph_outgoing(*old(g)),
        graph_incoming(*final(g)) == graph_incoming(*old(g)),
        graph_edge_count(*final(g)) == graph_edge_count(*old(g)),
{
    &mut g[PgNodeIndex::new(index as usize)]
}

/// `Graph::neighbors_directed(..).detach().next_node(..)`: the first
/// neighbour of node `index` in `direction`.
#[verifier::external_body]
pub fn graph_first_neighbor(g: &Graph<u64, ()>, index: u32, direction: Direction) -> (first: Option<u32>)
    requires
        index < graph_nodes(*g).len(),
    ensures
        adjacent(graph_adjacency(*g, direction), index).len() == 0 ==> first == None::<u32>,
        adjacent(graph_adjacency(*g, direction), index).len() > 0 ==> first == Some(
            adjacent(graph_adjacency(*g, direction), index)[0],
        ),
{
    let d = match direction {
        Direction::Outgoing => PgDirection::Outgoing,
        Direction::Incoming => PgDirection::Incoming,
    };
    g.neighbors_directed(PgNodeIndex::new(index as usize), d).detach().next_node(g).map(|n| n.index() as u32)
}

/// Walks `Graph::neighbors_directed(..).detach()` to the end: every neighbour
/// of node `index` in `direction`.
#[verifier::external_body]
pub fn graph_neighbors(g: &Graph<u64, ()>, index: u32, direction: Direction) -> (neighbors: Vec<u32>)
    requires
        index < graph_nodes(*g).len(),
    ensures
        neighbors@ == adjacent(graph_adjacency(*g, direction), index),
{
    let d = match direction {
        Direction::Outgoing => PgDirection::Outgoing,
        Direction::Incoming => PgDirection::Incoming,
    };
    let mut walker = g.neighbors_directed(PgNodeIndex::new(index as usize), d).detach();
    let mut neighbors = Vec::new();
    while let Some(n) = walker.next_node(g) {
        neighbors.push(n.index() as u32);
    }
    neighbors
}

/// Runs `petgraph::visit::Dfs` from `start` to the end and returns the nodes
/// it emits. The traversal emits `start` first and every node at most once;
/// each later node is a child of a node emitted before it, and every child of
/// an emitted node is emitted.
#[verifier::external_body]
pub fn graph_dfs(g: &Graph<u64, ()>, start: u32) -> (order: Vec<u32>)
    requires
        start < graph_nodes(*g).len(),
        graph_outgoing(*g).len() == graph_nodes(*g).len(),
    ensures
        order@ == dfs_preorder(graph_outgoing(*g), start),
        order@.len() > 0,
        order@[0] == start,
        forall|i: int| 0 <= i < order@.len() ==> order@[i] < graph_nodes(*g).len(),
        order@.no_duplicates(),
        forall|k: int|
            #![trigger order@[k]]
            0 < k < order@.len() ==> exists|i: int|
                0 <= i < k && #[trigger] graph_outgoing(*g)[order@[i] as int].contains(order@[k]),
        forall|i: int, j: int|
            0 <= i < order@.len() && 0 <= j < graph_outgoing(*g)[order@[i] as int].len()
                ==> order@.contains(#[trigger] graph_outgoing(*g)[order@[i] as int][j]),
{
    let mut dfs = Dfs::new(g, PgNodeIndex::new(start as usize));
    let mut order = Vec::new();
    while let Some(n) = dfs.next(g) {
        order.push(n.index() as u32);
    }
    order
}

} // verus!
