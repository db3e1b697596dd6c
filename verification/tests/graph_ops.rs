use depgraph::graph::DependencyGraph;
use depgraph::render::listing;

fn strings(parts: &[&str]) -> Vec<String> {
    parts.iter().map(|p| p.to_string()).collect()
}

#[test]
fn new_graph_is_empty() {
    let graph = DependencyGraph::new();
    assert_eq!(graph.node_count(), 0);
    assert_eq!(graph.edge_count(), 0);
    assert_eq!(graph.module_names(), strings(&[]));
    assert!(graph.edge_list().is_empty());
    assert!(graph.node_name(0).is_none());
    assert!(graph.node_index("a").is_none());
    assert_eq!(graph.to_dot(), "digraph {\n}\n");
}

#[test]
fn upsert_node_is_idempotent() {
    let mut graph = DependencyGraph::new();
    assert_eq!(graph.upsert_node("a"), 0);
    assert_eq!(graph.upsert_node("b"), 1);
    assert_eq!(graph.upsert_node("a"), 0);
    assert_eq!(graph.upsert_node("b"), 1);
    assert_eq!(graph.node_count(), 2);
    assert_eq!(graph.module_names(), strings(&["a", "b"]));
    assert_eq!(graph.node_index("b"), Some(1));
    assert_eq!(graph.node_name(1).map(|s| s.as_str()), Some("b"));
    assert!(graph.node_name(2).is_none());
    assert!(graph.contains_node("a"));
    assert!(!graph.contains_node("A"));
}

#[test]
fn upsert_edge_is_idempotent() {
    let mut graph = DependencyGraph::new();
    let a = graph.upsert_node("a");
    let b = graph.upsert_node("b");
    assert!(graph.upsert_edge(a, b));
    assert!(!graph.upsert_edge(a, b));
    assert!(graph.upsert_edge(b, a));
    assert!(graph.upsert_edge(a, a));
    assert!(!graph.upsert_edge(a, a));
    assert_eq!(graph.edge_count(), 3);
    assert_eq!(
        graph.edge_list(),
        vec![
            ("a".to_string(), "b".to_string()),
            ("b".to_string(), "a".to_string()),
            ("a".to_string(), "a".to_string()),
        ]
    );
}

#[test]
fn add_dependency_makes_the_target_first() {
    let mut graph = DependencyGraph::new();
    graph.add_dependency("app", "lib");
    assert_eq!(graph.module_names(), strings(&["lib", "app"]));
    graph.add_dependency("app", "lib");
    graph.add_dependency("lib", "core");
    assert_eq!(graph.module_names(), strings(&["lib", "app", "core"]));
    assert_eq!(graph.edge_count(), 2);
    assert!(graph.contains_edge("app", "lib"));
    assert!(graph.contains_edge("lib", "core"));
    assert!(!graph.contains_edge("app", "core"));
    assert!(!graph.contains_edge("nowhere", "lib"));
    assert!(!graph.contains_edge("lib", "nowhere"));
}

#[test]
fn neighbors_come_newest_first() {
    let mut graph = DependencyGraph::new();
    graph.add_dependency("m", "zeta");
    graph.add_dependency("m", "alpha");
    graph.add_dependency("other", "m");
    graph.add_dependency("m", "mid");
    let m = graph.node_index("m").unwrap();
    assert_eq!(graph.module_names(), strings(&["zeta", "m", "alpha", "other", "mid"]));
    assert_eq!(graph.neighbors(m), vec![4, 2, 0]);
    assert_eq!(graph.neighbors(0), Vec::<usize>::new());
    assert_eq!(graph.neighbors(99), Vec::<usize>::new());
    assert_eq!(graph.neighbor_names("m"), strings(&["mid", "alpha", "zeta"]));
    assert_eq!(graph.neighbor_names("other"), strings(&["m"]));
    assert_eq!(graph.neighbor_names("unknown"), strings(&[]));
}

#[test]
fn dependencies_are_sorted() {
    let mut graph = DependencyGraph::new();
    graph.add_dependency("m", "zeta");
    graph.add_dependency("m", "alpha");
    graph.add_dependency("m", "Beta");
    graph.add_dependency("m", "alphabet");
    assert_eq!(graph.dependencies("m"), strings(&["Beta", "alpha", "alphabet", "zeta"]));
    assert_eq!(graph.dependencies("zeta"), strings(&[]));
    assert_eq!(graph.dependencies("unknown"), strings(&[]));
}

#[test]
fn listing_skips_modules_without_imports() {
    let mut graph = DependencyGraph::new();
    graph.add_dependency("b", "z");
    graph.add_dependency("a", "y");
    graph.add_dependency("a", "x");
    graph.upsert_node("lonely");
    assert_eq!(
        listing(&graph),
        strings(&[
            "Dependencies for module `b`:",
            "\tz",
            "Dependencies for module `a`:",
            "\tx",
            "\ty",
        ])
    );
}

#[test]
fn dot_text_escapes_names() {
    let mut graph = DependencyGraph::new();
    graph.add_dependency("a\"b", "c");
    assert_eq!(
        graph.to_dot(),
        "digraph {\n    0 [ label = \"\\\"c\\\"\" ]\n    1 [ label = \"\\\"a\\\\\\\"b\\\"\" ]\n    1 -> 0 [ ]\n}\n"
    );
}

#[test]
fn room_for_small_and_huge_files() {
    let mut graph = DependencyGraph::new();
    assert!(graph.room_for(0));
    assert!(graph.room_for(1000));
    assert!(graph.room_for(4294967294));
    assert!(!graph.room_for(4294967295));
    graph.upsert_node("a");
    assert!(graph.room_for(4294967293));
    assert!(!graph.room_for(4294967294));
    graph.add_dependency("a", "b");
    graph.add_dependency("b", "a");
    assert!(graph.room_for(4294967292));
    assert!(!graph.room_for(4294967293));
    assert!(!graph.room_for(usize::MAX));
}
