use omnimesh::graph::RouteGraph;
use omnimesh::types::PeerId;

fn dummy_peer(val: u8) -> PeerId {
    PeerId::from_bytes([val; 32])
}

#[test]
fn test_add_and_get_link() {
    let mut graph: RouteGraph<u32> = RouteGraph::new();
    let a = dummy_peer(1);
    let b = dummy_peer(2);
    assert!(graph.get_link(&a, &b).is_none());
    graph.add_link(a, b, 10);
    assert_eq!(graph.get_link(&a, &b), Some(&10));
    // Links are directed.
    assert!(graph.get_link(&b, &a).is_none());
}

#[test]
fn test_add_link_updates_metrics() {
    let mut graph: RouteGraph<u32> = RouteGraph::new();
    let a = dummy_peer(1);
    let b = dummy_peer(2);
    graph.add_link(a, b, 10);
    graph.add_link(a, b, 5);
    assert_eq!(graph.get_link(&a, &b), Some(&5));
    assert_eq!(graph.neighbours(&a), vec![(b, 5)]);
}

#[test]
fn test_remove_link() {
    let mut graph: RouteGraph<u32> = RouteGraph::new();
    let a = dummy_peer(1);
    let b = dummy_peer(2);
    let c = dummy_peer(3);
    graph.add_link(a, b, 10);
    graph.add_link(a, c, 20);
    graph.remove_link(&a, &b);
    assert!(graph.get_link(&a, &b).is_none());
    assert_eq!(graph.get_link(&a, &c), Some(&20));
    // Removing a missing link changes nothing.
    graph.remove_link(&b, &c);
    assert_eq!(graph.neighbours(&a), vec![(c, 20)]);
}

#[test]
fn test_neighbours_are_outgoing_links_only() {
    let mut graph: RouteGraph<u32> = RouteGraph::new();
    let a = dummy_peer(1);
    let b = dummy_peer(2);
    let c = dummy_peer(3);
    graph.add_link(a, b, 1);
    graph.add_link(b, c, 2);
    graph.add_link(a, c, 3);
    assert_eq!(graph.neighbours(&a), vec![(b, 1), (c, 3)]);
    assert_eq!(graph.neighbours(&b), vec![(c, 2)]);
    assert!(graph.neighbours(&c).is_empty());
}

#[test]
fn test_peer_id_same_as() {
    assert!(dummy_peer(4).same_as(&dummy_peer(4)));
    assert!(!dummy_peer(4).same_as(&dummy_peer(5)));
}
