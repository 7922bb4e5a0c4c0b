use chains::graph::Graph;

#[test]
fn edges_are_recorded_per_node() {
    let mut graph: Graph<&str> = Graph::new();
    let a = graph.add_node("A");
    let b = graph.add_node("B");
    let c = graph.add_node("C");
    graph.add_edge(a, b);
    graph.add_edge(b, c);
    graph.add_edge(a, c);
    assert_eq!(graph.neighbors(a), Some(&vec![1, 2]));
    assert_eq!(graph.neighbors(b), Some(&vec![2]));
    assert_eq!(graph.neighbors(c), Some(&vec![]));
    assert_eq!(graph.node_count(), 3);
}

#[test]
fn out_of_range_edge_is_silently_ignored() {
    let mut graph: Graph<&str> = Graph::new();
    let a = graph.add_node("A");
    let b = graph.add_node("B");
    graph.add_edge(a, b);
    // A target at or past the node count must not alter `neighbors(from)`
    // and must not panic or corrupt the table.
    graph.add_edge(a, 2);
    graph.add_edge(a, 99);
    assert_eq!(graph.neighbors(a), Some(&vec![1]));
    // An out-of-range source is ignored the same way.
    graph.add_edge(99, a);
    assert_eq!(graph.neighbors(a), Some(&vec![1]));
    assert_eq!(graph.neighbors(b), Some(&vec![]));
    assert_eq!(graph.node_count(), 2);
}

#[test]
fn lookups_past_the_table_are_absent() {
    let mut graph: Graph<i32> = Graph::new();
    let n = graph.add_node(10);
    assert_eq!(graph.get_data(n), Some(&10));
    assert_eq!(graph.get_data(1), None);
    assert_eq!(graph.neighbors(1), None);
}

#[test]
fn depth_first_marks_what_it_returns() {
    let mut graph: Graph<&str> = Graph::new();
    let a = graph.add_node("A");
    let b = graph.add_node("B");
    let c = graph.add_node("C");
    graph.add_edge(a, b);
    graph.add_edge(b, c);
    graph.add_edge(a, c);
    // The caller owns the traversal state, sized to the table.
    let mut visited = vec![false; 3];
    let order = graph.depth_first_from(a, &mut visited);
    assert_eq!(order[0], a);
    assert_eq!(order.len(), 3);
    assert!(visited.iter().all(|&m| m));
    // A second traversal finds everything already marked.
    let again = graph.depth_first_from(a, &mut visited);
    assert!(again.is_empty());
}

#[test]
fn depth_first_skips_unreached_nodes() {
    let mut graph: Graph<i32> = Graph::new();
    let a = graph.add_node(1);
    let b = graph.add_node(2);
    let lone = graph.add_node(3);
    graph.add_edge(a, b);
    let mut visited = vec![false; 3];
    let order = graph.depth_first_from(a, &mut visited);
    assert_eq!(order, vec![a, b]);
    assert!(!visited[lone]);
}

#[test]
fn node_handles_count_up_from_zero() {
    let mut graph: Graph<i32> = Graph::new();
    assert_eq!(graph.add_node(10), 0);
    assert_eq!(graph.add_node(20), 1);
    assert_eq!(graph.add_node(30), 2);
    assert_eq!(graph.get_data(2), Some(&30));
}
