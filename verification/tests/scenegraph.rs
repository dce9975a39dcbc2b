use phantom::world::scenegraph::{
    Direction, NodeIndex, SceneGraph, SceneGraphError, SceneGraphLoadError, SceneGraphNode,
};

const FIRST_VALUE: u64 = 4;
const SECOND_VALUE: u64 = 12;

fn create_scenegraph() -> (SceneGraph, NodeIndex, NodeIndex) {
    // 0
    //  \
    //   1
    let mut scenegraph = SceneGraph::new();
    let first_node_index = scenegraph.add_root_node(4);
    let second_node_index = scenegraph.add_root_node(12);
    scenegraph.add_edge(first_node_index, second_node_index);
    (scenegraph, first_node_index, second_node_index)
}

#[test]
fn get_root_nodes() -> Result<(), SceneGraphError> {
    let (scenegraph, _first_node_index, _second_node_index) = create_scenegraph();

    let root_nodes = scenegraph.root_nodes()?;
    assert_eq!(root_nodes.len(), 1);
    assert_eq!(
        root_nodes.iter().next(),
        Some(&SceneGraphNode {
            value: FIRST_VALUE,
            offset: 0
        })
    );

    Ok(())
}

#[test]
fn get_root_node_indices() -> Result<(), SceneGraphError> {
    let (scenegraph, first_node_index, _second_node_index) = create_scenegraph();

    let root_nodes = scenegraph.root_node_indices()?;
    assert_eq!(root_nodes.len(), 1);
    assert_eq!(root_nodes.iter().next(), Some(&first_node_index));

    Ok(())
}

#[test]
fn get_parent_of() -> Result<(), SceneGraphError> {
    let (scenegraph, first_node_index, second_node_index) = create_scenegraph();
    assert_eq!(
        scenegraph.get_parent_of(second_node_index),
        Some(first_node_index),
    );
    Ok(())
}

#[test]
fn add_child() -> Result<(), SceneGraphError> {
    let (mut scenegraph, first_node_index, second_node_index) = create_scenegraph();

    let child_node_index = scenegraph.add_child(first_node_index, 18);
    assert_eq!(scenegraph.number_of_nodes(), 3);
    assert_eq!(
        scenegraph.get_parent_of(child_node_index),
        Some(first_node_index),
    );

    let second_child_node_index = scenegraph.add_child(second_node_index, 34);
    assert_eq!(scenegraph.number_of_nodes(), 4);
    assert_eq!(
        scenegraph.get_parent_of(second_child_node_index),
        Some(second_node_index),
    );

    Ok(())
}

#[test]
fn remove_node() -> Result<(), SceneGraphError> {
    let (mut scenegraph, _first_node_index, second_node_index) = create_scenegraph();

    scenegraph.remove_node(second_node_index);
    assert_eq!(scenegraph.number_of_nodes(), 1);

    Ok(())
}

#[test]
fn collect_nodes() -> Result<(), SceneGraphError> {
    let (scenegraph, _first_node_index, _second_node_index) = create_scenegraph();

    let nodes = scenegraph.collect_nodes()?;
    assert_eq!(nodes.len(), 2);
    assert_eq!(
        nodes.iter().next(),
        Some(&SceneGraphNode {
            value: FIRST_VALUE,
            offset: 0
        })
    );
    assert_eq!(
        nodes.iter().skip(1).next(),
        Some(&SceneGraphNode {
            value: SECOND_VALUE,
            offset: 1
        })
    );

    Ok(())
}

#[test]
fn walk() -> Result<(), SceneGraphError> {
    let (scenegraph, _first_node_index, _second_node_index) = create_scenegraph();

    scenegraph.walk(|node_index| {
        let expected_value = match node_index.index() {
            0 => FIRST_VALUE,
            1 => SECOND_VALUE,
            value => panic!("An invalid node index was reached! {}", value),
        };
        assert_eq!(scenegraph.index(node_index), expected_value);
        Ok(())
    })?;

    Ok(())
}

#[test]
fn find_node() -> Result<(), SceneGraphError> {
    let (scenegraph, first_node_index, second_node_index) = create_scenegraph();
    assert_eq!(scenegraph.find_node(FIRST_VALUE), Some(first_node_index));
    assert_eq!(scenegraph.find_node(SECOND_VALUE), Some(second_node_index));
    Ok(())
}

#[test]
fn has_neighbors() -> Result<(), SceneGraphError> {
    let (scenegraph, first_node_index, second_node_index) = create_scenegraph();
    assert_eq!(scenegraph.has_neighbors(first_node_index), true);
    assert_eq!(scenegraph.has_neighbors(second_node_index), true);
    Ok(())
}

#[test]
fn has_parents() -> Result<(), SceneGraphError> {
    let (scenegraph, first_node_index, second_node_index) = create_scenegraph();
    assert_eq!(scenegraph.has_parents(first_node_index), false);
    assert_eq!(scenegraph.has_parents(second_node_index), true);
    Ok(())
}

#[test]
fn has_children() -> Result<(), SceneGraphError> {
    let (scenegraph, first_node_index, second_node_index) = create_scenegraph();
    assert_eq!(scenegraph.has_children(first_node_index), true);
    assert_eq!(scenegraph.has_children(second_node_index), false);
    Ok(())
}

// Further cases.

#[test]
fn remove_undoes_add_child() {
    let (mut scenegraph, first_node_index, _second_node_index) = create_scenegraph();
    let child = scenegraph.add_child(first_node_index, 18);
    scenegraph.remove_node(child);
    assert_eq!(scenegraph.number_of_nodes(), 2);
    assert_eq!(scenegraph.index(NodeIndex::new(0)), FIRST_VALUE);
    assert_eq!(scenegraph.index(NodeIndex::new(1)), SECOND_VALUE);
    assert_eq!(
        scenegraph.neighbors(first_node_index, Direction::Outgoing),
        vec![NodeIndex::new(1)]
    );
}

#[test]
fn remove_root_moves_last_node_into_its_place() {
    // The last node takes over index 0; it has no children, so it stays.
    let (mut scenegraph, first_node_index, _second_node_index) = create_scenegraph();
    scenegraph.remove_node(first_node_index);
    assert_eq!(scenegraph.number_of_nodes(), 1);
    assert_eq!(scenegraph.index(NodeIndex::new(0)), SECOND_VALUE);
    assert_eq!(scenegraph.has_parents(NodeIndex::new(0)), false);
}

#[test]
fn remove_missing_node_changes_nothing() {
    let (mut scenegraph, _first_node_index, _second_node_index) = create_scenegraph();
    scenegraph.remove_node(NodeIndex::new(7));
    assert_eq!(scenegraph.number_of_nodes(), 2);
    assert_eq!(scenegraph.has_children(NodeIndex::new(0)), true);
}

#[test]
fn remove_node_cascades_through_replacement_children() {
    // 0 -> 1, 2 -> 3: removing 1 moves 3 to index 1; index 1 then has no
    // children, so only one node goes.
    let mut scenegraph = SceneGraph::new();
    let a = scenegraph.add_root_node(10);
    let _b = scenegraph.add_child(a, 11);
    let c = scenegraph.add_root_node(12);
    let _d = scenegraph.add_child(c, 13);
    scenegraph.remove_node(NodeIndex::new(1));
    assert_eq!(scenegraph.number_of_nodes(), 3);
    assert_eq!(scenegraph.index(NodeIndex::new(1)), 13);
    assert_eq!(scenegraph.get_parent_of(NodeIndex::new(1)), Some(c));
    // Removing 0 moves 13 (now last) to index 0; it has no children.
    let mut scenegraph2 = SceneGraph::new();
    let r = scenegraph2.add_root_node(1);
    let _c1 = scenegraph2.add_child(r, 2);
    let leaf = scenegraph2.add_root_node(3);
    let _c2 = scenegraph2.add_child(leaf, 4);
    // Removing node 2 (value 3) moves node 3 (value 4) to index 2; it is a
    // leaf, so the graph keeps three nodes.
    scenegraph2.remove_node(leaf);
    assert_eq!(scenegraph2.number_of_nodes(), 3);
    assert_eq!(scenegraph2.index(NodeIndex::new(2)), 4);
    assert_eq!(scenegraph2.has_parents(NodeIndex::new(2)), false);
}

#[test]
fn remove_node_removes_children_of_the_moved_node() {
    // 0 -> 1 -> 2, plus root 3 with child 4. Removing 0 moves 4 (last) to
    // index 0; 4 has no children. Then a graph where the moved node has a
    // child: 0, 1 -> 2 with 2 last.
    let mut scenegraph = SceneGraph::new();
    let a = scenegraph.add_root_node(100);
    let b = scenegraph.add_root_node(200);
    let _c = scenegraph.add_child(b, 300);
    let d = scenegraph.add_root_node(400);
    scenegraph.add_edge(d, a);
    // Nodes: 0=100, 1=200, 2=300, 3=400; edges 1->2, 3->0.
    // Removing 1 drops edge 1->2, moves node 3 (400) to index 1 with its edge
    // to 0. Index 1 now has child 0, which is removed; node 2 (300, last)
    // moves to index 0 and has no children; index 1 (400) has no children
    // left, so the removal stops with two nodes.
    scenegraph.remove_node(b);
    assert_eq!(scenegraph.number_of_nodes(), 2);
    assert_eq!(scenegraph.index(NodeIndex::new(0)), 300);
    assert_eq!(scenegraph.index(NodeIndex::new(1)), 400);
    assert_eq!(scenegraph.has_children(NodeIndex::new(1)), false);
}

#[test]
fn neighbors_newest_first() {
    let mut scenegraph = SceneGraph::new();
    let root = scenegraph.add_root_node(1);
    let first = scenegraph.add_child(root, 2);
    let second = scenegraph.add_child(root, 3);
    assert_eq!(
        scenegraph.neighbors(root, Direction::Outgoing),
        vec![second, first]
    );
    assert_eq!(scenegraph.neighbors(first, Direction::Incoming), vec![root]);
    assert_eq!(scenegraph.neighbors(NodeIndex::new(9), Direction::Outgoing), vec![]);
    assert_eq!(scenegraph.get_parent_of(root), None);
}

#[test]
fn walk_visits_roots_in_index_order() {
    let mut scenegraph = SceneGraph::new();
    let a = scenegraph.add_root_node(1);
    let b = scenegraph.add_root_node(2);
    let _c = scenegraph.add_child(a, 3);
    let _d = scenegraph.add_child(b, 4);
    let nodes = scenegraph.collect_nodes().unwrap();
    let values: Vec<u64> = nodes.iter().map(|n| n.value).collect();
    assert_eq!(values, vec![1, 3, 2, 4]);
    let offsets: Vec<u32> = nodes.iter().map(|n| n.offset).collect();
    assert_eq!(offsets, vec![0, 1, 2, 3]);
    let checked = scenegraph.try_collect_nodes().unwrap();
    assert_eq!(checked, nodes);
    let roots = scenegraph.root_nodes().unwrap();
    assert_eq!(
        roots,
        vec![
            SceneGraphNode::new(1, 0),
            SceneGraphNode::new(2, 1)
        ]
    );
}

#[test]
fn walk_stops_at_first_error() {
    let (scenegraph, _first, _second) = create_scenegraph();
    let result = scenegraph.walk(|node_index| {
        if node_index.index() == 1 {
            Err("stop".to_string())
        } else {
            Ok(())
        }
    });
    match result {
        Err(SceneGraphError::WalkSceneGraph(message)) => assert_eq!(message, "stop"),
        _ => panic!("expected the walk to fail"),
    }
}

#[test]
fn index_mut_changes_value() {
    let (mut scenegraph, first, _second) = create_scenegraph();
    *scenegraph.index_mut(first) = 99;
    assert_eq!(scenegraph.index(first), 99);
    assert_eq!(scenegraph.find_node(99), Some(first));
    assert_eq!(scenegraph.find_node(FIRST_VALUE), None);
}

#[test]
fn default_is_empty() {
    let scenegraph = SceneGraph::default();
    assert_eq!(scenegraph.number_of_nodes(), 0);
    assert_eq!(scenegraph.root_node_indices().unwrap(), vec![]);
}

#[test]
fn edge_count_follows_edges() {
    let (mut scenegraph, first_node_index, second_node_index) = create_scenegraph();
    assert_eq!(scenegraph.edge_count(), 1);
    let third = scenegraph.add_child(second_node_index, 20);
    assert_eq!(scenegraph.edge_count(), 2);
    scenegraph.add_edge(first_node_index, third);
    assert_eq!(scenegraph.edge_count(), 3);
    assert_eq!(
        scenegraph.neighbors(third, Direction::Incoming),
        vec![first_node_index, second_node_index]
    );
    scenegraph.remove_node(third);
    assert_eq!(scenegraph.edge_count(), 1);
    assert_eq!(
        scenegraph.neighbors(first_node_index, Direction::Outgoing),
        vec![second_node_index]
    );
}

#[test]
fn removal_keeps_order_of_remaining_neighbors() {
    // Node 0 has children 1, 2 and 3 (added in that order); removing node 2
    // moves node 3 into index 2, and node 0's children keep their order.
    let mut scenegraph = SceneGraph::new();
    let root = scenegraph.add_root_node(10);
    let one = scenegraph.add_child(root, 11);
    let two = scenegraph.add_child(root, 12);
    let _three = scenegraph.add_child(root, 13);
    scenegraph.remove_node(two);
    assert_eq!(scenegraph.number_of_nodes(), 3);
    assert_eq!(scenegraph.index(NodeIndex::new(2)), 13);
    assert_eq!(
        scenegraph.neighbors(root, Direction::Outgoing),
        vec![NodeIndex::new(2), one]
    );
    assert_eq!(scenegraph.edge_count(), 2);
}

#[test]
fn lists_round_trip() {
    let mut scenegraph = SceneGraph::new();
    let root = scenegraph.add_root_node(1);
    let a = scenegraph.add_child(root, 2);
    let b = scenegraph.add_child(root, 3);
    let c = scenegraph.add_child(a, 4);
    scenegraph.add_edge(b, c);
    let (nodes, children) = scenegraph.to_lists();
    assert_eq!(nodes, vec![1, 2, 3, 4]);
    assert_eq!(children, vec![vec![2, 1], vec![3], vec![3], vec![]]);
    let rebuilt = SceneGraph::from_lists(nodes.clone(), children.clone()).unwrap();
    assert_eq!(rebuilt.to_lists(), (nodes, children));
    assert_eq!(rebuilt.edge_count(), 4);
    // Parents come back in the order the edges are added again: node by node.
    assert_eq!(rebuilt.neighbors(c, Direction::Incoming), vec![b, a]);
}

#[test]
fn lists_that_make_no_graph() {
    assert_eq!(
        SceneGraph::from_lists(vec![1, 2], vec![vec![]]).err(),
        Some(SceneGraphLoadError::ChildListsMismatch)
    );
    assert_eq!(
        SceneGraph::from_lists(vec![1, 2], vec![vec![1, 5], vec![7]]).err(),
        Some(SceneGraphLoadError::MissingNode(5))
    );
    let empty = SceneGraph::from_lists(vec![], vec![]).unwrap();
    assert_eq!(empty.number_of_nodes(), 0);
}
