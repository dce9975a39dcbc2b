//! Scene graphs: directed graphs of entity ids, where an edge leads from a
//! parent to a child.
//!
//! A scene graph is described by its node values (`nodes()`, indexed by node
//! index) and, for each node, its children (`children()`) and its parents
//! (`parents()`), each list newest edge first. A walk visits every root (a
//! node without a parent) in index order and runs a depth-first search from
//! each.
use petgraph::graph::Graph;
use vstd::prelude::*;

use crate::world::graph_store::{
    dfs_preorder, graph_add_edge, graph_add_node, graph_dfs, graph_edge_count, graph_edge_count_of,
    graph_first_neighbor, graph_incoming, graph_neighbors, graph_new, graph_node_count,
    graph_node_weight, graph_node_weight_mut, graph_nodes, graph_outgoing, graph_remove_node,
};

verus! {

/// The index of a node in a scene graph.
#[derive(Clone, Copy, Debug, PartialEq, Eq, Hash, Structural)]
pub struct NodeIndex(pub u32);

impl NodeIndex {
    /// The node index with the given position.
    pub fn new(index: u32) -> (r: Self)
        ensures
            r.0 == index,
    {
        NodeIndex(index)
    }

    /// The position of this node index.
    pub fn index(&self) -> (r: usize)
        ensures
            r == self.0,
    {
        self.0 as usize
    }
}

/// The direction of an edge, seen from one of its endpoints.
#[derive(Clone, Copy, Debug, PartialEq, Eq, Structural)]
pub enum Direction {
    /// From the node to its children.
    Outgoing,
    /// From the node to its parents.
    Incoming,
}

/// A value of a scene graph together with its position in a listing.
#[derive(Clone, Copy, Debug, PartialEq, Eq, Structural)]
pub struct SceneGraphNode {
    pub value: u64,
    pub offset: u32,
}

impl SceneGraphNode {
    pub fn new(value: u64, offset: u32) -> (r: Self)
        ensures
            r.value == value,
            r.offset == offset,
    {
        SceneGraphNode { value, offset }
    }
}

/// Errors of scene graph operations.
#[derive(Debug)]
pub enum SceneGraphError {
    DetermineImageFormat,
    AccessEntity,
    /// The action run by `SceneGraph::walk` failed with this message.
    WalkSceneGraph(String),
}


/// For each node index, the other endpoints of the node's edges in one
/// direction, newest edge first.
pub type Adjacency = Seq<Seq<u32>>;

/// A graph's node values, the children of each node and the parents of each
/// node.
pub type GraphModel = (Seq<u64>, Adjacency, Adjacency);

/// The list of `node` in `adj`; a node outside it has an empty list.
pub open spec fn adjacent(adj: Adjacency, node: u32) -> Seq<u32> {
    if node < adj.len() {
        adj[node as int]
    } else {
        Seq::empty()
    }
}

/// The neighbours of `node` in `direction`, newest edge first.
pub open spec fn model_neighbors(m: GraphModel, node: u32, direction: Direction) -> Seq<u32> {
    match direction {
        Direction::Outgoing => adjacent(m.1, node),
        Direction::Incoming => adjacent(m.2, node),
    }
}

/// There is one list for each of the `count` nodes, and every entry is one
/// of those nodes.
pub open spec fn adjacency_valid(count: nat, adj: Adjacency) -> bool {
    &&& adj.len() == count
    &&& forall|i: int, j: int| 0 <= i < count && 0 <= j < adj[i].len() ==> #[trigger] adj[i][j] < count
}

/// Node indices fit in `u32` and both kinds of lists are valid.
pub open spec fn model_valid(m: GraphModel) -> bool {
    &&& m.0.len() <= u32::MAX
    &&& adjacency_valid(m.0.len(), m.1)
    &&& adjacency_valid(m.0.len(), m.2)
}

/// The graph with a new node holding `value`, without edges.
pub open spec fn with_root(m: GraphModel, value: u64) -> GraphModel {
    (m.0.push(value), m.1.push(Seq::empty()), m.2.push(Seq::empty()))
}

/// The graph with a new edge from `parent` to `child`, the newest of both.
pub open spec fn with_edge(m: GraphModel, parent: u32, child: u32) -> GraphModel {
    (
        m.0,
        m.1.update(parent as int, seq![child] + m.1[parent as int]),
        m.2.update(child as int, seq![parent] + m.2[child as int]),
    )
}

/// The index a node has once node `removed` is gone and the last node
/// `last` has taken its place.
pub open spec fn renumbered(x: u32, removed: u32, last: u32) -> u32 {
    if x == last {
        removed
    } else {
        x
    }
}

/// A neighbour list once node `removed` is gone and the last node `last`
/// has taken its index: the entries for `removed` are dropped, the others
/// keep their order and are renumbered.
pub open spec fn list_after_removal(list: Seq<u32>, removed: u32, last: u32) -> Seq<u32>
    decreases list.len(),
{
    if list.len() == 0 {
        Seq::empty()
    } else {
        let rest = list_after_removal(list.drop_first(), removed, last);
        if list[0] == removed {
            rest
        } else {
            seq![renumbered(list[0], removed, last)] + rest
        }
    }
}

/// The lists of the `last` remaining nodes once node `removed` is gone: node
/// `removed` gets the lists of node `last`, and every list is cleaned with
/// `list_after_removal`.
pub open spec fn adjacency_after_removal(adj: Adjacency, removed: u32, last: u32) -> Adjacency {
    Seq::new(
        last as nat,
        |i: int|
            list_after_removal(
                adj[if i == removed {
                    last as int
                } else {
                    i
                }],
                removed,
                last,
            ),
    )
}

/// The graph once node `a` is taken out (if it exists): the last node takes
/// over its index.
pub open spec fn remove_one(m: GraphModel, a: u32) -> GraphModel {
    if a < m.0.len() {
        let last = (m.0.len() - 1) as u32;
        (
            m.0.update(a as int, m.0.last()).drop_last(),
            adjacency_after_removal(m.1, a, last),
            adjacency_after_removal(m.2, a, last),
        )
    } else {
        m
    }
}

/// The pending work of `SceneGraph::remove_node`: for the innermost frame
/// `a`, while the node now at index `a` has a child, that child is removed
/// (and then, in turn, the children of the node now at the child's index);
/// a frame whose node has no child is done.
pub open spec fn removal_frames(m: GraphModel, frames: Seq<u32>) -> GraphModel
    decreases m.0.len(), frames.len(),
{
    if frames.len() == 0 {
        m
    } else {
        let children = adjacent(m.1, frames.last());
        if children.len() > 0 && children[0] < m.0.len() {
            removal_frames(remove_one(m, children[0]), frames.push(children[0]))
        } else {
            removal_frames(m, frames.drop_last())
        }
    }
}

/// The graph after `SceneGraph::remove_node(a)`.
pub open spec fn removal_result(m: GraphModel, a: u32) -> GraphModel {
    removal_frames(remove_one(m, a), seq![a])
}

/// A root is a node without parents.
pub open spec fn is_root(parents: Adjacency, node: u32) -> bool {
    adjacent(parents, node).len() == 0
}

/// The roots among the nodes below index `count`, in index order.
pub open spec fn root_indices(count: nat, parents: Adjacency) -> Seq<u32>
    decreases count,
{
    if count == 0 {
        Seq::empty()
    } else {
        let i = (count - 1) as u32;
        let r = root_indices((count - 1) as nat, parents);
        if is_root(parents, i) {
            r.push(i)
        } else {
            r
        }
    }
}

/// The nodes a walk of `m` visits when it looks at the roots below index
/// `k`.
pub open spec fn walk_order_upto(m: GraphModel, k: nat) -> Seq<u32>
    decreases k,
{
    if k == 0 {
        Seq::empty()
    } else {
        let i = (k - 1) as u32;
        let w = walk_order_upto(m, (k - 1) as nat);
        if is_root(m.2, i) {
            w + dfs_preorder(m.1, i)
        } else {
            w
        }
    }
}

/// The nodes `SceneGraph::walk` visits, in order: for each root in index
/// order, the depth-first search from that root.
pub open spec fn walk_order(m: GraphModel) -> Seq<u32> {
    walk_order_upto(m, m.0.len())
}

/// The graph of `nodes` without edges.
pub open spec fn roots_only(nodes: Seq<u64>) -> GraphModel {
    (nodes, Seq::new(nodes.len(), |i: int| Seq::<u32>::empty()), Seq::new(nodes.len(), |i: int| Seq::<u32>::empty()))
}

/// The edges from `parent` to the entries of `list`, last entry first: the
/// order in which adding them rebuilds `list` as a newest-first list.
pub open spec fn edges_oldest_first(parent: u32, list: Seq<u32>) -> Seq<(u32, u32)>
    decreases list.len(),
{
    if list.len() == 0 {
        Seq::empty()
    } else {
        seq![(parent, list.last())] + edges_oldest_first(parent, list.drop_last())
    }
}

/// The edges that rebuild the lists of children `lists`: node by node in
/// index order, each node's edges oldest first.
pub open spec fn edge_sequence(lists: Seq<Seq<u32>>) -> Seq<(u32, u32)>
    decreases lists.len(),
{
    if lists.len() == 0 {
        Seq::empty()
    } else {
        edge_sequence(lists.drop_last()) + edges_oldest_first((lists.len() - 1) as u32, lists.last())
    }
}

/// The graph once `edges` are added to `m` in order.
pub open spec fn with_edges(m: GraphModel, edges: Seq<(u32, u32)>) -> GraphModel
    decreases edges.len(),
{
    if edges.len() == 0 {
        m
    } else {
        with_edge(with_edges(m, edges.drop_last()), edges.last().0, edges.last().1)
    }
}

/// The sequences held by a vector of vectors.
pub open spec fn lists_of(v: Seq<Vec<u32>>) -> Seq<Seq<u32>> {
    v.map_values(|l: Vec<u32>| l@)
}

/// Every entry of every list names one of `count` nodes.
pub open spec fn entries_valid(count: nat, lists: Seq<Seq<u32>>) -> bool {
    forall|p: int, j: int| 0 <= p < lists.len() && 0 <= j < lists[p].len() ==> #[trigger] lists[p][j] < count
}

/// Entry `j` of list `p` is the first entry, scanning the lists in order and
/// each list from its start, that names no one of `count` nodes.
pub open spec fn first_missing(count: nat, lists: Seq<Seq<u32>>, p: int, j: int) -> bool {
    &&& 0 <= p < lists.len()
    &&& 0 <= j < lists[p].len()
    &&& lists[p][j] >= count
    &&& forall|q: int, i: int| 0 <= q < p && 0 <= i < lists[q].len() ==> #[trigger] lists[q][i] < count
    &&& forall|i: int| 0 <= i < j ==> #[trigger] lists[p][i] < count
}

/// The total length of the lists.
pub open spec fn total_len(lists: Seq<Seq<u32>>) -> nat
    decreases lists.len(),
{
    if lists.len() == 0 {
        0
    } else {
        total_len(lists.drop_last()) + lists.last().len()
    }
}

/// Why node values and lists of children make no scene graph.
#[derive(Debug, PartialEq, Eq)]
pub enum SceneGraphLoadError {
    /// There is not one list of children per node.
    ChildListsMismatch,
    /// There are `u32::MAX` nodes or more.
    TooManyNodes,
    /// A list names this node, which does not exist.
    MissingNode(u32),
    /// There are more than `u32::MAX` edges.
    TooManyEdges,
}

/// Entry `t` of `order` is a child of an entry before it.
spec fn reached_at(children: Adjacency, order: Seq<u32>, t: int) -> bool {
    exists|i: int| 0 <= i < t && #[trigger] children[order[i] as int].contains(order[t])
}

/// Every entry of `order` after the first is a child of an entry before it.
spec fn reached_from_earlier(children: Adjacency, order: Seq<u32>) -> bool {
    forall|t: int| 0 < t < order.len() ==> #[trigger] reached_at(children, order, t)
}

/// Every node of `w` is a root of `m` or a child of a node before it.
pub open spec fn parents_first(m: GraphModel, w: Seq<u32>) -> bool {
    forall|k: int|
        #![trigger w[k]]
        0 <= k < w.len() ==> is_root(m.2, w[k]) || exists|j: int|
            0 <= j < k && #[trigger] adjacent(m.1, w[j]).contains(w[k])
}

/// `w` holds every root of `m` below index `count`, and every child of a
/// node it holds.
pub open spec fn covers_roots_and_children(m: GraphModel, w: Seq<u32>, count: nat) -> bool {
    &&& forall|i: u32| i < count && #[trigger] is_root(m.2, i) ==> w.contains(i)
    &&& forall|k: int, j: int|
        0 <= k < w.len() && 0 <= j < adjacent(m.1, w[k]).len() ==> w.contains(#[trigger] adjacent(m.1, w[k])[j])
}

/// The node indices of a sequence of `NodeIndex` values.
pub open spec fn indices_of(v: Seq<NodeIndex>) -> Seq<u32> {
    v.map_values(|x: NodeIndex| x.0)
}

/// A directed graph of entity ids in which edges lead from parents to
/// children.
pub struct SceneGraph {
    graph: Graph<u64, ()>,
}


impl SceneGraph {
    /// The values of the nodes, by node index.
    pub closed spec fn nodes(&self) -> Seq<u64> {
        graph_nodes(self.graph)
    }

    /// For each node, its children, newest edge first.
    pub closed spec fn children(&self) -> Adjacency {
        graph_outgoing(self.graph)
    }

    /// For each node, its parents, newest edge first.
    pub closed spec fn parents(&self) -> Adjacency {
        graph_incoming(self.graph)
    }

    /// The number of edges.
    pub closed spec fn edge_total(&self) -> nat {
        graph_edge_count(self.graph)
    }

    /// The graph's nodes and neighbour lists.
    pub open spec fn model(&self) -> GraphModel {
        (self.nodes(), self.children(), self.parents())
    }

    /// Node indices fit in `u32`, there is one list of children and one of
    /// parents per node, and every entry is a node.
    pub open spec fn wf(&self) -> bool {
        model_valid(self.model())
    }

    /// An empty scene graph.
    pub fn new() -> (r: Self)
        ensures
            r.wf(),
            r.model() == (Seq::<u64>::empty(), Seq::<Seq<u32>>::empty(), Seq::<Seq<u32>>::empty()),
            r.edge_total() == 0,
    {
        SceneGraph { graph: graph_new() }
    }

    /// The number of nodes.
    pub fn number_of_nodes(&self) -> (n: usize)
        ensures
            n == self.nodes().len(),
    {
        graph_node_count(&self.graph)
    }

    /// The number of edges.
    pub fn edge_count(&self) -> (n: usize)
        ensures
            n == self.edge_total(),
    {
        graph_edge_count_of(&self.graph)
    }

    /// Adds a node without parents and returns its index.
    pub fn add_root_node(&mut self, node: u64) -> (index: NodeIndex)
        requires
            old(self).wf(),
            old(self).nodes().len() < u32::MAX,
        ensures
            final(self).wf(),
            final(self).model() == with_root(old(self).model(), node),
            final(self).edge_total() == old(self).edge_total(),
            index.0 == old(self).nodes().len(),
    {
        let index = graph_add_node(&mut self.graph, node);
        proof {
            lemma_with_root_valid(old(self).model(), node);
        }
        NodeIndex(index)
    }

    /// Adds a node holding `value` as the newest child of `parent_index`.
    pub fn add_child(&mut self, parent_index: NodeIndex, value: u64) -> (index: NodeIndex)
        requires
            old(self).wf(),
            parent_index.0 < old(self).nodes().len(),
            old(self).nodes().len() < u32::MAX,
            old(self).edge_total() < u32::MAX,
        ensures
            final(self).wf(),
            final(self).model() == with_edge(with_root(old(self).model(), value), parent_index.0, index.0),
            final(self).edge_total() == old(self).edge_total() + 1,
            index.0 == old(self).nodes().len(),
    {
        let child_index = self.add_root_node(value);
        self.add_edge(parent_index, child_index);
        child_index
    }

    /// Adds an edge from `parent_node` to `node`.
    pub fn add_edge(&mut self, parent_node: NodeIndex, node: NodeIndex)
        requires
            old(self).wf(),
            parent_node.0 < old(self).nodes().len(),
            node.0 < old(self).nodes().len(),
            old(self).edge_total() < u32::MAX,
        ensures
            final(self).wf(),
            final(self).model() == with_edge(old(self).model(), parent_node.0, node.0),
            final(self).edge_total() == old(self).edge_total() + 1,
    {
        graph_add_edge(&mut self.graph, parent_node.0, node.0);
        proof {
            lemma_with_edge_valid(old(self).model(), parent_node.0, node.0);
        }
    }

    /// The value of node `index`.
    pub fn index(&self, index: NodeIndex) -> (value: u64)
        requires
            index.0 < self.nodes().len(),
        ensures
            value == self.nodes()[index.0 as int],
    {
        graph_node_weight(&self.graph, index.0)
    }

    /// A mutable reference to the value of node `index`.
    pub fn index_mut(&mut self, index: NodeIndex) -> (value: &mut u64)
        requires
            old(self).wf(),
            index.0 < old(self).nodes().len(),
        ensures
            final(self).wf(),
            *value == old(self).nodes()[index.0 as int],
            final(self).nodes() == old(self).nodes().update(index.0 as int, *final(value)),
            final(self).children() == old(self).children(),
            final(self).parents() == old(self).parents(),
            final(self).edge_total() == old(self).edge_total(),
    {
        graph_node_weight_mut(&mut self.graph, index.0)
    }

    /// Whether node `index` has a parent or a child.
    pub fn has_neighbors(&self, index: NodeIndex) -> (b: bool)
        requires
            self.wf(),
        ensures
            b == (model_neighbors(self.model(), index.0, Direction::Incoming).len() > 0
                || model_neighbors(self.model(), index.0, Direction::Outgoing).len() > 0),
    {
        self.has_parents(index) || self.has_children(index)
    }

    /// Whether node `index` has a parent.
    pub fn has_parents(&self, index: NodeIndex) -> (b: bool)
        requires
            self.wf(),
        ensures
            b == (model_neighbors(self.model(), index.0, Direction::Incoming).len() > 0),
    {
        self.first_neighbor(index, Direction::Incoming).is_some()
    }

    /// Whether node `index` has a child.
    pub fn has_children(&self, index: NodeIndex) -> (b: bool)
        requires
            self.wf(),
        ensures
            b == (model_neighbors(self.model(), index.0, Direction::Outgoing).len() > 0),
    {
        self.first_neighbor(index, Direction::Outgoing).is_some()
    }

    /// The first neighbour of node `index` in `direction`: that of the
    /// newest such edge. A missing node has none.
    fn first_neighbor(&self, index: NodeIndex, direction: Direction) -> (first: Option<u32>)
        requires
            self.wf(),
        ensures
            model_neighbors(self.model(), index.0, direction).len() == 0 ==> first == None::<u32>,
            model_neighbors(self.model(), index.0, direction).len() > 0 ==> first == Some(
                model_neighbors(self.model(), index.0, direction)[0],
            ),
    {
        if (index.0 as usize) < graph_node_count(&self.graph) {
            graph_first_neighbor(&self.graph, index.0, direction)
        } else {
            None
        }
    }

    /// The newest parent of node `index`, if it has one.
    pub fn get_parent_of(&self, index: NodeIndex) -> (parent: Option<NodeIndex>)
        requires
            self.wf(),
        ensures
            adjacent(self.parents(), index.0).len() == 0 ==> parent == None::<NodeIndex>,
            adjacent(self.parents(), index.0).len() > 0 ==> parent == Some(
                NodeIndex(adjacent(self.parents(), index.0)[0]),
            ),
    {
        match self.first_neighbor(index, Direction::Incoming) {
            Some(p) => Some(NodeIndex(p)),
            None => None,
        }
    }

    /// The neighbours of node `index` in `direction`, newest edge first. A
    /// missing node has none.
    pub fn neighbors(&self, index: NodeIndex, direction: Direction) -> (neighbors: Vec<NodeIndex>)
        requires
            self.wf(),
        ensures
            indices_of(neighbors@) == model_neighbors(self.model(), index.0, direction),
    {
        if (index.0 as usize) < graph_node_count(&self.graph) {
            let raw = graph_neighbors(&self.graph, index.0, direction);
            let mut neighbors: Vec<NodeIndex> = Vec::new();
            let mut k: usize = 0;
            while k < raw.len()
                invariant
                    k <= raw.len(),
                    neighbors@.len() == k,
                    forall|j: int| 0 <= j < k ==> neighbors@[j].0 == raw@[j],
                decreases raw.len() - k,
            {
                neighbors.push(NodeIndex(raw[k]));
                k = k + 1;
            }
            assert(indices_of(neighbors@) =~= raw@);
            neighbors
        } else {
            let neighbors: Vec<NodeIndex> = Vec::new();
            assert(indices_of(neighbors@) =~= model_neighbors(self.model(), index.0, direction));
            neighbors
        }
    }


    /// The indices of the roots (nodes without parents), in index order.
    pub fn root_node_indices(&self) -> (r: Result<Vec<NodeIndex>, SceneGraphError>)
        requires
            self.wf(),
        ensures
            r matches Ok(v) && indices_of(v@) == root_indices(self.nodes().len(), self.parents()),
            r matches Ok(v) && forall|i: u32|
                i < self.nodes().len() ==> (#[trigger] indices_of(v@).contains(i) <==> model_neighbors(
                    self.model(),
                    i,
                    Direction::Incoming,
                ).len() == 0),
            r matches Ok(v) && forall|a: int, b: int|
                0 <= a < b < v@.len() ==> (#[trigger] v@[a]).0 < (#[trigger] v@[b]).0,
    {
        let n = graph_node_count(&self.graph);
        let mut roots: Vec<NodeIndex> = Vec::new();
        let mut i: usize = 0;
        while i < n
            invariant
                self.wf(),
                n == self.nodes().len(),
                i <= n,
                indices_of(roots@) == root_indices(i as nat, self.parents()),
            decreases n - i,
        {
            let ghost before = roots@;
            if !self.has_parents(NodeIndex(i as u32)) {
                roots.push(NodeIndex(i as u32));
                assert(indices_of(roots@) =~= indices_of(before).push(i as u32));
            }
            i = i + 1;
        }
        proof {
            law_root_indices(n as nat, self.parents());
            assert forall|a: int, b: int| 0 <= a < b < roots@.len() implies (#[trigger] roots@[a]).0 < (
            #[trigger] roots@[b]).0 by {
                assert(indices_of(roots@)[a] == roots@[a].0);
                assert(indices_of(roots@)[b] == roots@[b].0);
            }
        }
        Ok(roots)
    }

    /// The values of the roots, in index order, each with its position in
    /// that listing.
    pub fn root_nodes(&self) -> (r: Result<Vec<SceneGraphNode>, SceneGraphError>)
        requires
            self.wf(),
        ensures
            r matches Ok(v) && v@.len() == root_indices(self.nodes().len(), self.parents()).len() && (
            forall|k: int|
                #![trigger v@[k]]
                0 <= k < v@.len() ==> v@[k] == (SceneGraphNode {
                    value: self.nodes()[root_indices(self.nodes().len(), self.parents())[k] as int],
                    offset: k as u32,
                })),
    {
        let indices = match self.root_node_indices() {
            Ok(indices) => indices,
            Err(e) => return Err(e),
        };
        let ghost roots = root_indices(self.nodes().len(), self.parents());
        proof {
            lemma_root_indices_bounded(self.nodes().len(), self.parents());
            assert forall|k: int| 0 <= k < indices@.len() implies indices@[k].0 == roots[k] by {
                assert(indices_of(indices@)[k] == indices@[k].0);
            }
        }
        let mut nodes: Vec<SceneGraphNode> = Vec::new();
        let mut k: usize = 0;
        while k < indices.len()
            invariant
                self.wf(),
                roots == root_indices(self.nodes().len(), self.parents()),
                indices@.len() == roots.len(),
                roots.len() <= self.nodes().len(),
                forall|j: int| 0 <= j < roots.len() ==> roots[j] < self.nodes().len(),
                forall|j: int| 0 <= j < indices@.len() ==> indices@[j].0 == roots[j],
                k <= indices.len(),
                nodes@.len() == k,
                forall|j: int|
                    #![trigger nodes@[j]]
                    0 <= j < k ==> nodes@[j] == (SceneGraphNode {
                        value: self.nodes()[roots[j] as int],
                        offset: j as u32,
                    }),
            decreases indices.len() - k,
        {
            let index = indices[k];
            assert(index.0 == roots[k as int]);
            let value = self.index(index);
            nodes.push(SceneGraphNode::new(value, k as u32));
            k = k + 1;
        }
        Ok(nodes)
    }

    /// Runs `action` on every node of the walk (`walk_order`), in order,
    /// and stops at the first failure.
    pub fn walk<F: Fn(NodeIndex) -> Result<(), String>>(&self, action: F) -> (r: Result<(), SceneGraphError>)
        requires
            self.wf(),
            forall|i: NodeIndex| call_requires(action, (i,)),
        ensures
            r is Ok ==> forall|k: int|
                0 <= k < walk_order(self.model()).len() ==> call_ensures(
                    action,
                    (NodeIndex(walk_order(self.model())[k]),),
                    Ok::<(), String>(()),
                ),
            r matches Err(e) ==> e matches SceneGraphError::WalkSceneGraph(message) && exists|k: int|
                {
                    &&& 0 <= k < walk_order(self.model()).len()
                    &&& call_ensures(
                        action,
                        (NodeIndex(#[trigger] walk_order(self.model())[k]),),
                        Err::<(), String>(message),
                    )
                    &&& forall|j: int|
                        0 <= j < k ==> call_ensures(
                            action,
                            (NodeIndex(walk_order(self.model())[j]),),
                            Ok::<(), String>(()),
                        )
                },
    {
        let n = graph_node_count(&self.graph);
        let ghost count = self.nodes().len();
        let ghost m = self.model();
        let mut i: usize = 0;
        while i < n
            invariant
                self.wf(),
                n == count,
                count == self.nodes().len(),
                m == self.model(),
                i <= n,
                forall|i: NodeIndex| call_requires(action, (i,)),
                forall|k: int|
                    0 <= k < walk_order_upto(m, i as nat).len() ==> call_ensures(
                        action,
                        (NodeIndex(walk_order_upto(m, i as nat)[k]),),
                        Ok::<(), String>(()),
                    ),
            decreases n - i,
        {
            let node = NodeIndex(i as u32);
            let ghost prev = walk_order_upto(m, i as nat);
            if !self.has_parents(node) {
                let order = graph_dfs(&self.graph, i as u32);
                let mut k: usize = 0;
                while k < order.len()
                    invariant
                        self.wf(),
                        n == count,
                        count == self.nodes().len(),
                        m == self.model(),
                        i < n,
                        prev == walk_order_upto(m, i as nat),
                        is_root(m.2, i as u32),
                        order@ == dfs_preorder(m.1, i as u32),
                        k <= order.len(),
                        forall|i: NodeIndex| call_requires(action, (i,)),
                        forall|j: int|
                            0 <= j < prev.len() ==> call_ensures(
                                action,
                                (NodeIndex(prev[j]),),
                                Ok::<(), String>(()),
                            ),
                        forall|j: int|
                            0 <= j < k ==> call_ensures(
                                action,
                                (NodeIndex(order@[j]),),
                                Ok::<(), String>(()),
                            ),
                    decreases order.len() - k,
                {
                    let result = action(NodeIndex(order[k]));
                    match result {
                        Ok(unit) => {
                            assert(unit == ());
                            assert forall|j: int| 0 <= j < k + 1 implies call_ensures(
                                action,
                                (NodeIndex(order@[j]),),
                                Ok::<(), String>(()),
                            ) by {
                                if j == k {
                                    assert(result == Ok::<(), String>(unit));
                                }
                            }
                        },
                        Err(message) => {
                            proof {
                                let whole = walk_order(m);
                                let upto = walk_order_upto(m, (i + 1) as nat);
                                assert(upto =~= prev + order@);
                                lemma_walk_prefix(m, (i + 1) as nat, count);
                                let w = prev.len() + k;
                                assert(whole[w] == order@[k as int]);
                                assert forall|j: int| 0 <= j < w implies call_ensures(
                                    action,
                                    (NodeIndex(whole[j]),),
                                    Ok::<(), String>(()),
                                ) by {
                                    assert(whole[j] == upto[j]);
                                    if j < prev.len() {
                                        assert(upto[j] == prev[j]);
                                    } else {
                                        assert(upto[j] == order@[j - prev.len()]);
                                    }
                                }
                                assert(call_ensures(
                                    action,
                                    (NodeIndex(whole[w]),),
                                    Err::<(), String>(message),
                                ));
                            }
                            return Err(SceneGraphError::WalkSceneGraph(message));
                        },
                    }
                    k = k + 1;
                }
                proof {
                    let upto = walk_order_upto(m, (i + 1) as nat);
                    assert(upto =~= prev + order@);
                    assert forall|j: int| 0 <= j < upto.len() implies call_ensures(
                        action,
                        (NodeIndex(upto[j]),),
                        Ok::<(), String>(()),
                    ) by {
                        if j < prev.len() {
                            assert(upto[j] == prev[j]);
                        } else {
                            assert(upto[j] == order@[j - prev.len()]);
                        }
                    }
                }
            } else {
                assert(walk_order_upto(m, (i + 1) as nat) == prev);
            }
            i = i + 1;
        }
        Ok(())
    }

    /// The values of the nodes of the walk (`walk_order`), in order, each
    /// with its position in the walk. The position is a `u32`, so the walk
    /// may visit at most `u32::MAX` nodes.
    pub fn collect_nodes(&self) -> (r: Result<Vec<SceneGraphNode>, SceneGraphError>)
        requires
            self.wf(),
            walk_order(self.model()).len() <= u32::MAX,
        ensures
            r matches Ok(v) && v@.len() == walk_order(self.model()).len() && (
            forall|k: int|
                #![trigger v@[k]]
                0 <= k < v@.len() ==> v@[k] == (SceneGraphNode {
                    value: self.nodes()[walk_order(self.model())[k] as int],
                    offset: k as u32,
                })),
            parents_first(self.model(), walk_order(self.model())),
            covers_roots_and_children(self.model(), walk_order(self.model()), self.nodes().len()),
    {
        let n = graph_node_count(&self.graph);
        let ghost count = self.nodes().len();
        let ghost m = self.model();
        let ghost whole = walk_order(m);
        let mut nodes: Vec<SceneGraphNode> = Vec::new();
        let mut linear_offset: u32 = 0;
        let mut i: usize = 0;
        while i < n
            invariant
                self.wf(),
                n == count,
                count == self.nodes().len(),
                m == self.model(),
                whole == walk_order(m),
                whole.len() <= u32::MAX,
                i <= n,
                parents_first(m, walk_order_upto(m, i as nat)),
                covers_roots_and_children(m, walk_order_upto(m, i as nat), i as nat),
                nodes@.len() == walk_order_upto(m, i as nat).len(),
                linear_offset == nodes@.len(),
                forall|k: int|
                    #![trigger nodes@[k]]
                    0 <= k < nodes@.len() ==> nodes@[k] == (SceneGraphNode {
                        value: self.nodes()[walk_order_upto(m, i as nat)[k] as int],
                        offset: k as u32,
                    }),
            decreases n - i,
        {
            let ghost prev = walk_order_upto(m, i as nat);
            if !self.has_parents(NodeIndex(i as u32)) {
                let order = graph_dfs(&self.graph, i as u32);
                proof {
                    let upto = walk_order_upto(m, (i + 1) as nat);
                    assert(upto =~= prev + order@);
                    lemma_walk_prefix(m, (i + 1) as nat, count);
                    assert(m.1 == graph_outgoing(self.graph));
                    let o = order@;
                    assert forall|t: int| 0 < t < o.len() implies #[trigger] reached_at(m.1, o, t) by {
                        assert(o[t] == order@[t]);
                        let j = choose|j: int|
                            0 <= j < t && #[trigger] graph_outgoing(self.graph)[order@[j] as int].contains(order@[t]);
                        assert(o[j] == order@[j]);
                        assert(m.1[o[j] as int].contains(o[t]));
                    }
                    assert forall|a: int, b: int|
                        0 <= a < o.len() && 0 <= b < m.1[o[a] as int].len() implies o.contains(
                            #[trigger] m.1[o[a] as int][b],
                        ) by {
                        assert(o[a] == order@[a]);
                        assert(order@.contains(graph_outgoing(self.graph)[order@[a] as int][b]));
                    }
                    lemma_walk_step(m, prev, o, i as u32);
                }
                let mut k: usize = 0;
                while k < order.len()
                    invariant
                        self.wf(),
                        count == self.nodes().len(),
                        prev == walk_order_upto(m, i as nat),
                        prev.len() + order@.len() <= u32::MAX,
                        forall|j: int| 0 <= j < order@.len() ==> order@[j] < count,
                        k <= order.len(),
                        nodes@.len() == prev.len() + k,
                        linear_offset == nodes@.len(),
                        forall|j: int|
                            #![trigger nodes@[j]]
                            0 <= j < nodes@.len() ==> nodes@[j] == (SceneGraphNode {
                                value: self.nodes()[(prev + order@)[j] as int],
                                offset: j as u32,
                            }),
                    decreases order.len() - k,
                {
                    let value = self.index(NodeIndex(order[k]));
                    nodes.push(SceneGraphNode::new(value, linear_offset));
                    linear_offset = linear_offset + 1;
                    k = k + 1;
                }
                assert(walk_order_upto(m, (i + 1) as nat) =~= prev + order@);
            } else {
                assert(walk_order_upto(m, (i + 1) as nat) == prev);
                assert forall|r: u32| r < i + 1 && #[trigger] is_root(m.2, r) implies prev.contains(r) by {
                    if r == i {
                        assert(!is_root(m.2, i as u32));
                    }
                }
            }
            i = i + 1;
        }
        assert(walk_order_upto(m, count) == whole);
        Ok(nodes)
    }

    /// The number of nodes of the walk, or `None` when it exceeds `u32::MAX`.
    fn walk_length(&self) -> (len: Option<u32>)
        requires
            self.wf(),
        ensures
            walk_order(self.model()).len() <= u32::MAX ==> len == Some(
                walk_order(self.model()).len() as u32,
            ),
            walk_order(self.model()).len() > u32::MAX ==> len == None::<u32>,
    {
        let n = graph_node_count(&self.graph);
        let ghost count = self.nodes().len();
        let ghost m = self.model();
        let mut total: u32 = 0;
        let mut i: usize = 0;
        while i < n
            invariant
                self.wf(),
                n == count,
                count == self.nodes().len(),
                m == self.model(),
                i <= n,
                total == walk_order_upto(m, i as nat).len(),
            decreases n - i,
        {
            let ghost prev = walk_order_upto(m, i as nat);
            if !self.has_parents(NodeIndex(i as u32)) {
                let order = graph_dfs(&self.graph, i as u32);
                assert(walk_order_upto(m, (i + 1) as nat) =~= prev + order@);
                if order.len() as u64 > (u32::MAX - total) as u64 {
                    proof {
                        lemma_walk_prefix(m, (i + 1) as nat, count);
                    }
                    return None;
                }
                total = total + order.len() as u32;
            } else {
                assert(walk_order_upto(m, (i + 1) as nat) == prev);
            }
            i = i + 1;
        }
        Some(total)
    }

    /// `collect_nodes` when the walk visits at most `u32::MAX` nodes, and
    /// `None` otherwise.
    pub fn try_collect_nodes(&self) -> (r: Option<Vec<SceneGraphNode>>)
        requires
            self.wf(),
        ensures
            walk_order(self.model()).len() > u32::MAX ==> r is None,
            walk_order(self.model()).len() <= u32::MAX ==> (r matches Some(v)
                && v@.len() == walk_order(self.model()).len() && (forall|k: int|
                #![trigger v@[k]]
                0 <= k < v@.len() ==> v@[k] == (SceneGraphNode {
                    value: self.nodes()[walk_order(self.model())[k] as int],
                    offset: k as u32,
                }))),
            walk_order(self.model()).len() <= u32::MAX ==> parents_first(self.model(), walk_order(self.model()))
                && covers_roots_and_children(self.model(), walk_order(self.model()), self.nodes().len()),
    {
        match self.walk_length() {
            Some(_) => match self.collect_nodes() {
                Ok(nodes) => Some(nodes),
                Err(_) => None,
            },
            None => None,
        }
    }

    /// Removes node `node_index` (the last node takes over its index), then,
    /// as long as the node now at that index has a child, removes that child
    /// in the same way (see `removal_result`).
    pub fn remove_node(&mut self, node_index: NodeIndex)
        requires
            old(self).wf(),
        ensures
            final(self).wf(),
            final(self).model() == removal_result(old(self).model(), node_index.0),
            final(self).edge_total() <= old(self).edge_total(),
            node_index.0 >= old(self).nodes().len() ==> final(self).model() == old(self).model(),
            node_index.0 < old(self).nodes().len() ==> final(self).nodes().len() < old(
                self,
            ).nodes().len(),
        decreases old(self).nodes().len(),
    {
        let ghost m0 = self.model();
        let ghost a = node_index.0;
        let _ = graph_remove_node(&mut self.graph, node_index.0);
        proof {
            lemma_remove_one_valid(m0, a);
            assert(self.model() == remove_one(m0, a));
        }
        loop
            invariant
                self.wf(),
                a == node_index.0,
                m0 == old(self).model(),
                removal_result(m0, a) == removal_frames(self.model(), seq![a]),
                a < m0.0.len() ==> self.nodes().len() < m0.0.len(),
                a >= m0.0.len() ==> self.model() == m0,
                self.edge_total() <= old(self).edge_total(),
            ensures
                self.wf(),
                self.model() == removal_result(m0, a),
                self.edge_total() <= old(self).edge_total(),
                a < m0.0.len() ==> self.nodes().len() < m0.0.len(),
                a >= m0.0.len() ==> self.model() == m0,
            decreases self.nodes().len(),
        {
            match self.first_neighbor(node_index, Direction::Outgoing) {
                Some(child) => {
                    let ghost m = self.model();
                    proof {
                        let list = model_neighbors(m, a, Direction::Outgoing);
                        assert(list.len() > 0);
                        assert(child == list[0]);
                        assert(a < m.0.len());
                        assert(m.1[a as int][0] < m.0.len());
                        assert(list[0] < m.0.len());
                        assert(child < m.0.len());
                        assert(seq![a].push(child) =~= seq![a] + seq![child]);
                        lemma_frames_compose(remove_one(m, child), seq![a], seq![child]);
                    }
                    self.remove_node(NodeIndex(child));
                },
                None => {
                    proof {
                        assert(seq![a].drop_last() =~= Seq::<u32>::empty());
                        assert(removal_frames(self.model(), Seq::<u32>::empty()) == self.model());
                    }
                    break;
                },
            }
        }
    }

    /// The node values by index, and for each node its children, newest
    /// edge first.
    pub fn to_lists(&self) -> (r: (Vec<u64>, Vec<Vec<u32>>))
        requires
            self.wf(),
        ensures
            r.0@ == self.nodes(),
            lists_of(r.1@) == self.children(),
    {
        let n = graph_node_count(&self.graph);
        let mut nodes: Vec<u64> = Vec::new();
        let mut lists: Vec<Vec<u32>> = Vec::new();
        let mut i: usize = 0;
        while i < n
            invariant
                self.wf(),
                n == self.nodes().len(),
                i <= n,
                nodes@ == self.nodes().take(i as int),
                lists@.len() == i,
                forall|j: int| 0 <= j < i ==> (#[trigger] lists@[j])@ == self.children()[j],
            decreases n - i,
        {
            nodes.push(graph_node_weight(&self.graph, i as u32));
            let children = graph_neighbors(&self.graph, i as u32, Direction::Outgoing);
            lists.push(children);
            proof {
                assert(self.nodes().take(i + 1) =~= self.nodes().take(i as int).push(self.nodes()[i as int]));
            }
            i = i + 1;
        }
        assert(nodes@ =~= self.nodes());
        assert(lists_of(lists@) =~= self.children());
        (nodes, lists)
    }

    /// The scene graph with these node values whose lists of children,
    /// newest edge first, are `children`: every node is added, then each
    /// node's edges in index order, oldest first (`edge_sequence`). It fails
    /// when there is not one list per node, when there are `u32::MAX` nodes
    /// or more, when a list names a missing node (the first such entry is
    /// reported), and when there are more than `u32::MAX` edges.
    pub fn from_lists(nodes: Vec<u64>, children: Vec<Vec<u32>>) -> (r: Result<SceneGraph, SceneGraphLoadError>)
        ensures
            children@.len() != nodes@.len() ==> r matches Err(SceneGraphLoadError::ChildListsMismatch),
            children@.len() == nodes@.len() && nodes@.len() >= u32::MAX ==> r matches Err(
                SceneGraphLoadError::TooManyNodes,
            ),
            children@.len() == nodes@.len() && nodes@.len() < u32::MAX && !entries_valid(
                nodes@.len(),
                lists_of(children@),
            ) ==> exists|p: int, j: int|
                #![trigger first_missing(nodes@.len(), lists_of(children@), p, j)]
                first_missing(nodes@.len(), lists_of(children@), p, j) && r == Err::<SceneGraph, SceneGraphLoadError>(
                    SceneGraphLoadError::MissingNode(lists_of(children@)[p][j]),
                ),
            children@.len() == nodes@.len() && nodes@.len() < u32::MAX && entries_valid(
                nodes@.len(),
                lists_of(children@),
            ) && total_len(lists_of(children@)) > u32::MAX ==> r matches Err(SceneGraphLoadError::TooManyEdges),
            children@.len() == nodes@.len() && nodes@.len() < u32::MAX && entries_valid(
                nodes@.len(),
                lists_of(children@),
            ) && total_len(lists_of(children@)) <= u32::MAX ==> (r matches Ok(g) && g.wf() && g.model()
                == with_edges(roots_only(nodes@), edge_sequence(lists_of(children@))) && g.nodes() == nodes@
                && g.children() == lists_of(children@) && g.edge_total() == total_len(lists_of(children@))),
    {
        let ghost lists = lists_of(children@);
        if children.len() != nodes.len() {
            return Err(SceneGraphLoadError::ChildListsMismatch);
        }
        let n = nodes.len();
        if n as u64 >= u32::MAX as u64 {
            return Err(SceneGraphLoadError::TooManyNodes);
        }
        // Every entry must name a node.
        let mut p: usize = 0;
        while p < n
            invariant
                n == nodes@.len(),
                n == children@.len(),
                n < u32::MAX,
                lists == lists_of(children@),
                p <= n,
                forall|q: int, i: int| 0 <= q < p && 0 <= i < lists[q].len() ==> #[trigger] lists[q][i] < n,
            decreases n - p,
        {
            let list = &children[p];
            assert(list@ == lists[p as int]);
            let mut j: usize = 0;
            while j < list.len()
                invariant
                    n == nodes@.len(),
                    n == children@.len(),
                    n < u32::MAX,
                    lists == lists_of(children@),
                    p < n,
                    list@ == lists[p as int],
                    j <= list@.len(),
                    forall|q: int, i: int| 0 <= q < p && 0 <= i < lists[q].len() ==> #[trigger] lists[q][i] < n,
                    forall|i: int| 0 <= i < j ==> #[trigger] lists[p as int][i] < n,
                decreases list@.len() - j,
            {
                if list[j] as usize >= n {
                    assert(first_missing(n as nat, lists, p as int, j as int));
                    return Err(SceneGraphLoadError::MissingNode(list[j]));
                }
                j = j + 1;
            }
            p = p + 1;
        }
        assert(entries_valid(n as nat, lists));
        // At most `u32::MAX` edges.
        let mut total: u64 = 0;
        let mut p: usize = 0;
        while p < n
            invariant
                n == children@.len(),
                n == nodes@.len(),
                n < u32::MAX,
                lists == lists_of(children@),
                entries_valid(n as nat, lists),
                p <= n,
                total == total_len(lists.take(p as int)),
                total <= u32::MAX,
            decreases n - p,
        {
            let len = children[p].len();
            proof {
                assert(lists.take(p + 1).drop_last() =~= lists.take(p as int));
            }
            if len as u64 > u32::MAX as u64 - total {
                proof {
                    lemma_total_len_take(lists, p + 1);
                }
                return Err(SceneGraphLoadError::TooManyEdges);
            }
            total = total + len as u64;
            p = p + 1;
        }
        assert(lists.take(n as int) =~= lists);
        // Build the graph: the nodes, then the edges.
        let mut graph = SceneGraph::new();
        let mut i: usize = 0;
        while i < n
            invariant
                n == nodes@.len(),
                n == children@.len(),
                n < u32::MAX,
                lists == lists_of(children@),
                entries_valid(n as nat, lists),
                total_len(lists) <= u32::MAX,
                i <= n,
                graph.wf(),
                graph.model() == roots_only(nodes@.take(i as int)),
                graph.edge_total() == 0,
            decreases n - i,
        {
            graph.add_root_node(nodes[i]);
            proof {
                let before = roots_only(nodes@.take(i as int));
                let after = roots_only(nodes@.take(i + 1));
                assert(nodes@.take(i + 1) =~= nodes@.take(i as int).push(nodes@[i as int]));
                assert(with_root(before, nodes@[i as int]).1 =~= after.1);
                assert(with_root(before, nodes@[i as int]).2 =~= after.2);
            }
            i = i + 1;
        }
        assert(nodes@.take(n as int) =~= nodes@);
        let ghost base = roots_only(nodes@);
        proof {
            lemma_total_len_is_edge_count(lists);
        }
        let mut p: usize = 0;
        while p < n
            invariant
                n == nodes@.len(),
                n == children@.len(),
                n < u32::MAX,
                lists == lists_of(children@),
                entries_valid(n as nat, lists),
                total_len(lists) <= u32::MAX,
                p <= n,
                graph.wf(),
                graph.nodes().len() == n,
                graph.model() == with_edges(base, edge_sequence(lists.take(p as int))),
                graph.edge_total() == total_len(lists.take(p as int)),
            decreases n - p,
        {
            let list = &children[p];
            assert(list@ == lists[p as int]);
            let ghost done = edge_sequence(lists.take(p as int));
            proof {
                lemma_total_len_take(lists, p + 1);
                assert(lists.take(p + 1).drop_last() =~= lists.take(p as int));
                assert(lists.take(p + 1).last() == lists[p as int]);
                lemma_total_len_is_edge_count(lists.take(p as int));
            }
            let mut j: usize = list.len();
            while j > 0
                invariant
                    n == nodes@.len(),
                    n == children@.len(),
                    p < n,
                    n < u32::MAX,
                    lists == lists_of(children@),
                    entries_valid(n as nat, lists),
                    list@ == lists[p as int],
                    j <= list@.len(),
                    done == edge_sequence(lists.take(p as int)),
                    done.len() == total_len(lists.take(p as int)),
                    total_len(lists.take(p as int)) + list@.len() <= u32::MAX,
                    graph.wf(),
                    graph.nodes().len() == n,
                    graph.model() == with_edges(base, done + edges_oldest_first(p as u32, list@.subrange(j as int, list@.len() as int))),
                    graph.edge_total() == done.len() + (list@.len() - j),
                decreases j,
            {
                j = j - 1;
                let target = list[j];
                assert(0 <= j < lists[p as int].len());
                assert(lists.len() == n);
                assert(lists[p as int][j as int] == target);
                assert(lists[p as int][j as int] < n);
                graph.add_edge(NodeIndex(p as u32), NodeIndex(target));
                proof {
                    let old_suffix = list@.subrange(j + 1, list@.len() as int);
                    let new_suffix = list@.subrange(j as int, list@.len() as int);
                    assert(new_suffix =~= seq![target] + old_suffix);
                    lemma_edges_oldest_first_prepend(p as u32, target, old_suffix);
                    let es = done + edges_oldest_first(p as u32, old_suffix);
                    assert(done + edges_oldest_first(p as u32, new_suffix) =~= es.push((p as u32, target)));
                    assert(es.push((p as u32, target)).drop_last() =~= es);
                }
            }
            proof {
                assert(list@.subrange(0, list@.len() as int) =~= list@);
            }
            p = p + 1;
        }
        assert(lists.take(n as int) =~= lists);
        proof {
            law_from_lists_children(nodes@, lists);
        }
        Ok(graph)
    }

    /// The lowest index of a node holding `item`, if any.
    pub fn find_node(&self, item: u64) -> (found: Option<NodeIndex>)
        requires
            self.wf(),
        ensures
            found is None ==> !self.nodes().contains(item),
            found matches Some(i) ==> {
                &&& i.0 < self.nodes().len()
                &&& self.nodes()[i.0 as int] == item
                &&& forall|j: int| 0 <= j < i.0 ==> self.nodes()[j] != item
            },
    {
        let n = graph_node_count(&self.graph);
        let mut i: usize = 0;
        while i < n
            invariant
                n == self.nodes().len(),
                n <= u32::MAX,
                i <= n,
                forall|j: int| 0 <= j < i ==> self.nodes()[j] != item,
            decreases n - i,
        {
            if graph_node_weight(&self.graph, i as u32) == item {
                return Some(NodeIndex(i as u32));
            }
            i = i + 1;
        }
        None
    }
}

/// Every root index is a node index, and there are at most as many roots
/// as nodes.
proof fn lemma_root_indices_bounded(count: nat, parents: Adjacency)
    ensures
        root_indices(count, parents).len() <= count,
        forall|j: int|
            0 <= j < root_indices(count, parents).len() ==> root_indices(count, parents)[j] < count,
    decreases count,
{
    if count > 0 {
        lemma_root_indices_bounded((count - 1) as nat, parents);
    }
}

/// A walk that looks at fewer roots visits a prefix of the nodes visited by
/// one that looks at more.
proof fn lemma_walk_prefix(m: GraphModel, a: nat, b: nat)
    requires
        a <= b,
    ensures
        walk_order_upto(m, a).len() <= walk_order_upto(m, b).len(),
        forall|j: int|
            0 <= j < walk_order_upto(m, a).len() ==> walk_order_upto(m, b)[j] == walk_order_upto(m, a)[j],
    decreases b,
{
    if a < b {
        lemma_walk_prefix(m, a, (b - 1) as nat);
    }
}

/// A list without entries for `removed` or `last` comes through a removal
/// unchanged.
proof fn lemma_list_unchanged(list: Seq<u32>, removed: u32, last: u32)
    requires
        forall|j: int| 0 <= j < list.len() ==> list[j] != removed && list[j] != last,
    ensures
        list_after_removal(list, removed, last) == list,
    decreases list.len(),
{
    if list.len() > 0 {
        let tail = list.drop_first();
        assert forall|j: int| 0 <= j < tail.len() implies tail[j] != removed && tail[j] != last by {
            assert(tail[j] == list[j + 1]);
        }
        lemma_list_unchanged(tail, removed, last);
        assert(seq![list[0]] + tail =~= list);
    }
}

/// After a removal every entry of a list names one of the `last` remaining
/// nodes.
proof fn lemma_list_after_removal_bounded(list: Seq<u32>, removed: u32, last: u32)
    requires
        removed <= last,
        forall|j: int| 0 <= j < list.len() ==> list[j] <= last,
    ensures
        forall|j: int|
            0 <= j < list_after_removal(list, removed, last).len() ==> #[trigger] list_after_removal(
                list,
                removed,
                last,
            )[j] < last,
    decreases list.len(),
{
    if list.len() > 0 {
        let tail = list.drop_first();
        assert forall|j: int| 0 <= j < tail.len() implies tail[j] <= last by {
            assert(tail[j] == list[j + 1]);
        }
        lemma_list_after_removal_bounded(tail, removed, last);
        let rest = list_after_removal(tail, removed, last);
        let r = list_after_removal(list, removed, last);
        if list[0] != removed {
            assert forall|j: int| 0 <= j < r.len() implies r[j] < last by {
                if j > 0 {
                    assert(r[j] == rest[j - 1]);
                }
            }
        }
    }
}

/// Taking node `a` out of `count` nodes leaves valid lists for the others.
proof fn lemma_adjacency_after_removal_valid(count: nat, adj: Adjacency, a: u32)
    requires
        a < count,
        count <= u32::MAX,
        adjacency_valid(count, adj),
    ensures
        adjacency_valid((count - 1) as nat, adjacency_after_removal(adj, a, (count - 1) as u32)),
{
    let last = (count - 1) as u32;
    let after = adjacency_after_removal(adj, a, last);
    assert forall|i: int, j: int| 0 <= i < last && 0 <= j < after[i].len() implies #[trigger] after[i][j]
        < last by {
        let src: int = if i == a {
            last as int
        } else {
            i
        };
        assert forall|k: int| 0 <= k < adj[src].len() implies adj[src][k] <= last by {
            assert(adj[src][k] < count);
        }
        lemma_list_after_removal_bounded(adj[src], a, last);
    }
}

/// Taking a node out keeps the graph valid.
proof fn lemma_remove_one_valid(m: GraphModel, a: u32)
    requires
        model_valid(m),
    ensures
        model_valid(remove_one(m, a)),
        remove_one(m, a).0.len() <= m.0.len(),
        a < m.0.len() ==> remove_one(m, a).0.len() == m.0.len() - 1,
{
    if a < m.0.len() {
        lemma_adjacency_after_removal_valid(m.0.len(), m.1, a);
        lemma_adjacency_after_removal_valid(m.0.len(), m.2, a);
    }
}

/// Adding a node keeps the graph valid.
proof fn lemma_with_root_valid(m: GraphModel, value: u64)
    requires
        model_valid(m),
        m.0.len() < u32::MAX,
    ensures
        model_valid(with_root(m, value)),
{
    let r = with_root(m, value);
    assert forall|i: int, j: int| 0 <= i < r.0.len() && 0 <= j < r.1[i].len() implies #[trigger] r.1[i][j]
        < r.0.len() by {
        assert(r.1[i] == m.1[i]);
        assert(m.1[i][j] < m.0.len());
    }
    assert forall|i: int, j: int| 0 <= i < r.0.len() && 0 <= j < r.2[i].len() implies #[trigger] r.2[i][j]
        < r.0.len() by {
        assert(r.2[i] == m.2[i]);
        assert(m.2[i][j] < m.0.len());
    }
}

/// Adding an edge between two nodes keeps the graph valid.
proof fn lemma_with_edge_valid(m: GraphModel, parent: u32, child: u32)
    requires
        model_valid(m),
        parent < m.0.len(),
        child < m.0.len(),
    ensures
        model_valid(with_edge(m, parent, child)),
{
    let r = with_edge(m, parent, child);
    assert forall|i: int, j: int| 0 <= i < r.0.len() && 0 <= j < r.1[i].len() implies #[trigger] r.1[i][j]
        < r.0.len() by {
        if i == parent {
            if j > 0 {
                assert(r.1[i][j] == m.1[i][j - 1]);
            }
        } else {
            assert(r.1[i][j] == m.1[i][j]);
        }
    }
    assert forall|i: int, j: int| 0 <= i < r.0.len() && 0 <= j < r.2[i].len() implies #[trigger] r.2[i][j]
        < r.0.len() by {
        if i == child {
            if j > 0 {
                assert(r.2[i][j] == m.2[i][j - 1]);
            }
        } else {
            assert(r.2[i][j] == m.2[i][j]);
        }
    }
}

/// The lists' total length is the number of edges that rebuild them.
proof fn lemma_total_len_is_edge_count(lists: Seq<Seq<u32>>)
    ensures
        edge_sequence(lists).len() == total_len(lists),
    decreases lists.len(),
{
    if lists.len() > 0 {
        lemma_total_len_is_edge_count(lists.drop_last());
        lemma_edges_oldest_first_len((lists.len() - 1) as u32, lists.last());
    }
}

/// There is one edge for each entry of a list.
proof fn lemma_edges_oldest_first_len(parent: u32, list: Seq<u32>)
    ensures
        edges_oldest_first(parent, list).len() == list.len(),
    decreases list.len(),
{
    if list.len() > 0 {
        lemma_edges_oldest_first_len(parent, list.drop_last());
    }
}

/// A first list takes no more than all the lists.
proof fn lemma_total_len_take(lists: Seq<Seq<u32>>, p: int)
    requires
        0 <= p <= lists.len(),
    ensures
        total_len(lists.take(p)) <= total_len(lists),
    decreases lists.len(),
{
    if p == lists.len() {
        assert(lists.take(p) =~= lists);
    } else {
        assert(lists.take(p) =~= lists.drop_last().take(p));
        lemma_total_len_take(lists.drop_last(), p);
    }
}

/// An entry put in front of a list is added after the entries behind it.
proof fn lemma_edges_oldest_first_prepend(parent: u32, x: u32, list: Seq<u32>)
    ensures
        edges_oldest_first(parent, seq![x] + list) == edges_oldest_first(parent, list) + seq![(parent, x)],
    decreases list.len(),
{
    let l = seq![x] + list;
    if list.len() == 0 {
        assert(l.drop_last() =~= Seq::<u32>::empty());
        assert(l.last() == x);
        assert(edges_oldest_first(parent, l.drop_last()) =~= Seq::<(u32, u32)>::empty());
        assert(edges_oldest_first(parent, l) =~= seq![(parent, x)]);
    } else {
        assert(l.drop_last() =~= seq![x] + list.drop_last());
        assert(l.last() == list.last());
        lemma_edges_oldest_first_prepend(parent, x, list.drop_last());
        assert(edges_oldest_first(parent, l) =~= edges_oldest_first(parent, list) + seq![(parent, x)]);
    }
}

/// Adding `a` and then `b` is adding `a + b`.
proof fn lemma_with_edges_append(m: GraphModel, a: Seq<(u32, u32)>, b: Seq<(u32, u32)>)
    ensures
        with_edges(m, a + b) == with_edges(with_edges(m, a), b),
    decreases b.len(),
{
    if b.len() == 0 {
        assert(a + b =~= a);
    } else {
        assert((a + b).drop_last() =~= a + b.drop_last());
        assert((a + b).last() == b.last());
        lemma_with_edges_append(m, a, b.drop_last());
    }
}

/// Adding the edges of node `q` oldest first puts `list` in front of its
/// children and changes no other node's children.
proof fn lemma_with_node_edges(m: GraphModel, q: u32, list: Seq<u32>)
    requires
        q < m.1.len(),
    ensures
        with_edges(m, edges_oldest_first(q, list)).0 == m.0,
        with_edges(m, edges_oldest_first(q, list)).1 == m.1.update(q as int, list + m.1[q as int]),
    decreases list.len(),
{
    if list.len() == 0 {
        assert(list + m.1[q as int] =~= m.1[q as int]);
        assert(m.1.update(q as int, m.1[q as int]) =~= m.1);
    } else {
        let e = (q, list.last());
        let rest = edges_oldest_first(q, list.drop_last());
        lemma_with_edges_append(m, seq![e], rest);
        assert(seq![e].drop_last() =~= Seq::<(u32, u32)>::empty());
        let m1 = with_edges(m, seq![e]);
        assert(with_edges(m, seq![e].drop_last()) == m);
        assert(m1 == with_edge(m, q, list.last()));
        lemma_with_node_edges(m1, q, list.drop_last());
        assert(list.drop_last() + (seq![list.last()] + m.1[q as int]) =~= list + m.1[q as int]);
        assert(m1.1.update(q as int, list.drop_last() + m1.1[q as int]) =~= m.1.update(q as int, list + m.1[q as int]));
    }
}

/// After the edges of the first `q` lists, the first `q` nodes have their
/// lists of children and the others none.
proof fn lemma_from_lists_prefix(nodes: Seq<u64>, lists: Seq<Seq<u32>>, q: int)
    requires
        lists.len() == nodes.len(),
        nodes.len() <= u32::MAX,
        0 <= q <= lists.len(),
    ensures
        with_edges(roots_only(nodes), edge_sequence(lists.take(q))).0 == nodes,
        with_edges(roots_only(nodes), edge_sequence(lists.take(q))).1 =~= Seq::new(
            nodes.len(),
            |i: int|
                if i < q {
                    lists[i]
                } else {
                    Seq::<u32>::empty()
                },
        ),
    decreases q,
{
    let base = roots_only(nodes);
    if q == 0 {
        assert(lists.take(0) =~= Seq::<Seq<u32>>::empty());
        assert(edge_sequence(lists.take(0)) =~= Seq::<(u32, u32)>::empty());
        assert(with_edges(base, edge_sequence(lists.take(0))) == base);
    } else {
        lemma_from_lists_prefix(nodes, lists, q - 1);
        assert(lists.take(q).drop_last() =~= lists.take(q - 1));
        assert(lists.take(q).last() == lists[q - 1]);
        let before = edge_sequence(lists.take(q - 1));
        assert(edge_sequence(lists.take(q)) == before + edges_oldest_first((q - 1) as u32, lists[q - 1]));
        lemma_with_edges_append(base, before, edges_oldest_first((q - 1) as u32, lists[q - 1]));
        let m = with_edges(base, before);
        assert(m.1.len() == nodes.len());
        lemma_with_node_edges(m, (q - 1) as u32, lists[q - 1]);
        assert(m.1[q - 1] == Seq::<u32>::empty());
        assert(lists[q - 1] + Seq::<u32>::empty() =~= lists[q - 1]);
        let r = with_edges(base, edge_sequence(lists.take(q)));
        let target = Seq::new(
            nodes.len(),
            |i: int|
                if i < q {
                    lists[i]
                } else {
                    Seq::<u32>::empty()
                },
        );
        assert(r.1 == m.1.update(q - 1, lists[q - 1]));
        assert forall|i: int| 0 <= i < nodes.len() implies r.1[i] == target[i] by {
            if i != q - 1 {
                assert(r.1[i] == m.1[i]);
            }
        }
        assert(r.1 =~= target);
    }
}

/// Law: the graph `from_lists(nodes, children)` builds has these lists of
/// children: reading them back with `to_lists` gives `children` again.
pub proof fn law_from_lists_children(nodes: Seq<u64>, lists: Seq<Seq<u32>>)
    requires
        lists.len() == nodes.len(),
        nodes.len() <= u32::MAX,
    ensures
        with_edges(roots_only(nodes), edge_sequence(lists)).0 == nodes,
        with_edges(roots_only(nodes), edge_sequence(lists)).1 == lists,
{
    lemma_from_lists_prefix(nodes, lists, lists.len() as int);
    assert(lists.take(lists.len() as int) =~= lists);
}

/// A walk that has covered the roots below `root` and appends a depth-first
/// search from root `root` covers the roots up to `root`.
proof fn lemma_walk_step(m: GraphModel, prev: Seq<u32>, order: Seq<u32>, root: u32)
    requires
        model_valid(m),
        root < m.0.len(),
        is_root(m.2, root),
        parents_first(m, prev),
        covers_roots_and_children(m, prev, root as nat),
        order.len() > 0,
        order[0] == root,
        forall|t: int| 0 <= t < order.len() ==> order[t] < m.0.len(),
        reached_from_earlier(m.1, order),
        forall|i: int, j: int|
            0 <= i < order.len() && 0 <= j < m.1[order[i] as int].len() ==> order.contains(
                #[trigger] m.1[order[i] as int][j],
            ),
    ensures
        parents_first(m, prev + order),
        covers_roots_and_children(m, prev + order, (root + 1) as nat),
{
    let w = prev + order;
    let p = prev.len() as int;
    assert forall|k: int| 0 <= k < w.len() implies is_root(m.2, #[trigger] w[k]) || exists|j: int|
        0 <= j < k && #[trigger] adjacent(m.1, w[j]).contains(w[k]) by {
        if k < p {
            assert(w[k] == prev[k]);
            if !is_root(m.2, prev[k]) {
                let j = choose|j: int| 0 <= j < k && #[trigger] adjacent(m.1, prev[j]).contains(prev[k]);
                assert(w[j] == prev[j]);
            }
        } else {
            let t = k - p;
            assert(w[k] == order[t]);
            if t > 0 {
                assert(reached_at(m.1, order, t));
                let i = choose|i: int| 0 <= i < t && #[trigger] m.1[order[i] as int].contains(order[t]);
                assert(w[p + i] == order[i]);
                assert(adjacent(m.1, w[p + i]) == m.1[order[i] as int]);
            }
        }
    }
    assert forall|r: u32| r < root + 1 && #[trigger] is_root(m.2, r) implies w.contains(r) by {
        if r == root {
            assert(w[p] == order[0]);
        } else {
            let k = choose|k: int| 0 <= k < prev.len() && prev[k] == r;
            assert(w[k] == prev[k]);
        }
    }
    assert forall|k: int, j: int| 0 <= k < w.len() && 0 <= j < adjacent(m.1, w[k]).len() implies w.contains(
        #[trigger] adjacent(m.1, w[k])[j],
    ) by {
        let c = adjacent(m.1, w[k])[j];
        if k < p {
            assert(w[k] == prev[k]);
            assert(prev.contains(adjacent(m.1, prev[k])[j]));
            let x = choose|x: int| 0 <= x < prev.len() && prev[x] == c;
            assert(w[x] == prev[x]);
        } else {
            let t = k - p;
            assert(w[k] == order[t]);
            assert(adjacent(m.1, w[k]) == m.1[order[t] as int]);
            assert(order.contains(m.1[order[t] as int][j]));
            let x = choose|x: int| 0 <= x < order.len() && order[x] == c;
            assert(w[p + x] == order[x]);
        }
    }
}

/// Pending removal frames can be split: the innermost ones run to the end
/// before the outer ones resume.
proof fn lemma_frames_compose(m: GraphModel, f: Seq<u32>, g: Seq<u32>)
    ensures
        removal_frames(m, f + g) == removal_frames(removal_frames(m, g), f),
    decreases m.0.len(), g.len(),
{
    if g.len() == 0 {
        assert(f + g =~= f);
    } else {
        let children = adjacent(m.1, g.last());
        assert((f + g).last() == g.last());
        if children.len() > 0 && children[0] < m.0.len() {
            let c = children[0];
            assert((f + g).push(c) =~= f + g.push(c));
            lemma_frames_compose(remove_one(m, c), f, g.push(c));
        } else {
            assert((f + g).drop_last() =~= f + g.drop_last());
            lemma_frames_compose(m, f, g.drop_last());
        }
    }
}

/// Removing the last node, when no list names it, gives back the graph
/// without it.
proof fn lemma_remove_last(m: GraphModel, big: GraphModel)
    requires
        model_valid(m),
        m.0.len() < u32::MAX,
        big.0 == m.0.push(big.0.last()),
        big.1.len() == m.1.len() + 1,
        big.2.len() == m.2.len() + 1,
        forall|i: int| 0 <= i < m.0.len() ==> #[trigger] list_after_removal(big.1[i], m.0.len() as u32, m.0.len() as u32) == m.1[i],
        forall|i: int| 0 <= i < m.0.len() ==> #[trigger] list_after_removal(big.2[i], m.0.len() as u32, m.0.len() as u32) == m.2[i],
    ensures
        removal_result(big, m.0.len() as u32) == m,
{
    let n = m.0.len() as u32;
    let r = remove_one(big, n);
    assert(big.0.update(n as int, big.0.last()).drop_last() =~= m.0);
    assert(r.1 =~= m.1) by {
        assert forall|i: int| 0 <= i < n implies r.1[i] == m.1[i] by {
            assert(r.1[i] == list_after_removal(big.1[i], n, n));
        }
    }
    assert(r.2 =~= m.2) by {
        assert forall|i: int| 0 <= i < n implies r.2[i] == m.2[i] by {
            assert(r.2[i] == list_after_removal(big.2[i], n, n));
        }
    }
    assert(r == m);
    assert(adjacent(m.1, n).len() == 0);
    assert(seq![n].drop_last() =~= Seq::<u32>::empty());
    assert(removal_frames(m, Seq::<u32>::empty()) == m);
}

} // verus!

verus! {

impl Default for SceneGraph {
    fn default() -> (r: Self)
        ensures
            r.wf(),
            r.model() == (Seq::<u64>::empty(), Seq::<Seq<u32>>::empty(), Seq::<Seq<u32>>::empty()),
            r.edge_total() == 0,
    {
        Self::new()
    }
}

/// Law: the roots below index `count` are exactly the nodes below `count`
/// without parents, listed in increasing index order.
pub proof fn law_root_indices(count: nat, parents: Adjacency)
    requires
        count <= u32::MAX,
    ensures
        forall|k: int|
            0 <= k < root_indices(count, parents).len() ==> #[trigger] root_indices(count, parents)[k] < count
                && adjacent(parents, root_indices(count, parents)[k]).len() == 0,
        forall|i: u32|
            i < count ==> (#[trigger] root_indices(count, parents).contains(i) <==> adjacent(parents, i).len()
                == 0),
        forall|a: int, b: int|
            0 <= a < b < root_indices(count, parents).len() ==> #[trigger] root_indices(count, parents)[a]
                < #[trigger] root_indices(count, parents)[b],
    decreases count,
{
    if count > 0 {
        let c = (count - 1) as nat;
        law_root_indices(c, parents);
        let prev = root_indices(c, parents);
        let r = root_indices(count, parents);
        let i = c as u32;
        if adjacent(parents, i).len() == 0 {
            assert(r == prev.push(i));
            assert forall|x: u32| x < count implies (r.contains(x) <==> adjacent(parents, x).len() == 0) by {
                if x == i {
                    assert(r[prev.len() as int] == x);
                } else {
                    if r.contains(x) {
                        let k = choose|k: int| 0 <= k < r.len() && r[k] == x;
                        assert(k < prev.len());
                        assert(prev[k] == x);
                    }
                    if prev.contains(x) {
                        let k = choose|k: int| 0 <= k < prev.len() && prev[k] == x;
                        assert(r[k] == x);
                    }
                }
            }
        } else {
            assert(r == prev);
            assert forall|x: u32| x < count implies (r.contains(x) <==> adjacent(parents, x).len() == 0) by {
                if x == i && r.contains(x) {
                    let k = choose|k: int| 0 <= k < r.len() && r[k] == x;
                    assert(prev[k] < c);
                }
            }
        }
    }
}

/// Law: a node added as the child of `parent` has exactly one parent,
/// `parent`, and no children.
pub proof fn law_added_child_has_parent(m: GraphModel, parent: u32, value: u64)
    requires
        model_valid(m),
        m.0.len() < u32::MAX,
        parent < m.0.len(),
    ensures
        model_neighbors(with_edge(with_root(m, value), parent, m.0.len() as u32), m.0.len() as u32, Direction::Incoming)
            == seq![parent],
        model_neighbors(with_edge(with_root(m, value), parent, m.0.len() as u32), m.0.len() as u32, Direction::Outgoing)
            == Seq::<u32>::empty(),
{
    assert(seq![parent] + Seq::<u32>::empty() =~= seq![parent]);
}

/// Law: a node added as a root is a root and has no children.
pub proof fn law_added_root_is_root(m: GraphModel, value: u64)
    requires
        model_valid(m),
        m.0.len() < u32::MAX,
    ensures
        is_root(with_root(m, value).2, m.0.len() as u32),
        model_neighbors(with_root(m, value), m.0.len() as u32, Direction::Outgoing) == Seq::<u32>::empty(),
{
}

/// Law: removing the node that `add_child(parent, value)` just added gives
/// back the graph as it was before.
pub proof fn law_remove_undoes_add_child(m: GraphModel, parent: u32, value: u64)
    requires
        model_valid(m),
        m.0.len() < u32::MAX,
        parent < m.0.len(),
    ensures
        removal_result(with_edge(with_root(m, value), parent, m.0.len() as u32), m.0.len() as u32) == m,
{
    let n = m.0.len() as u32;
    let big = with_edge(with_root(m, value), parent, n);
    assert forall|i: int| 0 <= i < m.0.len() implies #[trigger] list_after_removal(big.1[i], n, n) == m.1[i] by {
        assert forall|j: int| 0 <= j < m.1[i].len() implies m.1[i][j] != n by {
            assert(m.1[i][j] < n);
        }
        lemma_list_unchanged(m.1[i], n, n);
        if i == parent {
            let l = seq![n] + m.1[i];
            assert(big.1[i] == l);
            assert(l.drop_first() =~= m.1[i]);
        } else {
            assert(big.1[i] == m.1[i]);
        }
    }
    assert forall|i: int| 0 <= i < m.0.len() implies #[trigger] list_after_removal(big.2[i], n, n) == m.2[i] by {
        assert forall|j: int| 0 <= j < m.2[i].len() implies m.2[i][j] != n by {
            assert(m.2[i][j] < n);
        }
        lemma_list_unchanged(m.2[i], n, n);
        assert(big.2[i] == m.2[i]);
    }
    lemma_remove_last(m, big);
}

/// Law: removing the node that `add_root_node(value)` just added gives back
/// the graph as it was before.
pub proof fn law_remove_undoes_add_root_node(m: GraphModel, value: u64)
    requires
        model_valid(m),
        m.0.len() < u32::MAX,
    ensures
        removal_result(with_root(m, value), m.0.len() as u32) == m,
{
    let n = m.0.len() as u32;
    let big = with_root(m, value);
    assert forall|i: int| 0 <= i < m.0.len() implies #[trigger] list_after_removal(big.1[i], n, n) == m.1[i] by {
        assert forall|j: int| 0 <= j < m.1[i].len() implies m.1[i][j] != n by {
            assert(m.1[i][j] < n);
        }
        lemma_list_unchanged(m.1[i], n, n);
        assert(big.1[i] == m.1[i]);
    }
    assert forall|i: int| 0 <= i < m.0.len() implies #[trigger] list_after_removal(big.2[i], n, n) == m.2[i] by {
        assert forall|j: int| 0 <= j < m.2[i].len() implies m.2[i][j] != n by {
            assert(m.2[i][j] < n);
        }
        lemma_list_unchanged(m.2[i], n, n);
        assert(big.2[i] == m.2[i]);
    }
    lemma_remove_last(m, big);
}

} // verus!
