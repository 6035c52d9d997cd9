use cargo_geiger::graph::{contains_id, Edge, Graph, Node};
use cargo_geiger::metrics::{MetricsLookup, PackageMetrics, RsFileMetrics};
use cargo_geiger::report::{Count, CounterBlock, DependencyKind, PackageId, Source};

fn id(name: &str) -> PackageId {
    PackageId {
        name: name.to_string(),
        version: "1.0.0".to_string(),
        source: Source::Registry {
            name: "crates.io".to_string(),
            url: "https://example.org/index".to_string(),
        },
    }
}

fn node(name: &str, edges: &[(usize, DependencyKind)]) -> Node {
    Node {
        id: id(name),
        edges: edges.iter().map(|&(target, kind)| Edge { target, kind }).collect(),
        metrics: MetricsLookup::Absent,
    }
}

fn block(n: u64) -> CounterBlock {
    let count = Count { safe: n, unsafe_: n };
    CounterBlock {
        functions: count,
        exprs: count,
        item_impls: count,
        item_traits: count,
        methods: count,
    }
}

fn file(path: &str, n: u64) -> RsFileMetrics {
    RsFileMetrics {
        path: path.to_string(),
        counters: block(n),
        forbids_unsafe: false,
        is_crate_entry_point: false,
        declared_unsafe_functions: vec![],
        contains_unsafe_functions: vec![],
    }
}

#[test]
fn reachability_follows_edges() {
    let graph = Graph {
        nodes: vec![
            node("root", &[(1, DependencyKind::Normal)]),
            node("dep", &[]),
            node("other", &[]),
        ],
    };
    assert!(graph.is_well_formed());
    assert_eq!(graph.reachable_from(0), vec![true, true, false]);
    assert_eq!(graph.reachable_from(1), vec![false, true, false]);
    assert_eq!(graph.reachable_from(2), vec![false, false, true]);
}

#[test]
fn reachability_goes_through_chains_and_cycles() {
    let graph = Graph {
        nodes: vec![
            node("a", &[(1, DependencyKind::Normal)]),
            node("b", &[(2, DependencyKind::Build), (0, DependencyKind::Development)]),
            node("c", &[(2, DependencyKind::Normal), (1, DependencyKind::Normal)]),
            node("d", &[(0, DependencyKind::Normal)]),
        ],
    };
    assert!(graph.is_well_formed());
    assert_eq!(graph.reachable_from(0), vec![true, true, true, false]);
    assert_eq!(graph.reachable_from(2), vec![true, true, true, false]);
    assert_eq!(graph.reachable_from(3), vec![true, true, true, true]);
}

#[test]
fn reachability_of_a_single_node() {
    let graph = Graph { nodes: vec![node("only", &[])] };
    assert_eq!(graph.reachable_from(0), vec![true]);
    let looped = Graph { nodes: vec![node("only", &[(0, DependencyKind::Normal)])] };
    assert_eq!(looped.reachable_from(0), vec![true]);
}

#[test]
fn reachability_with_diamond_visits_shared_node_once() {
    let graph = Graph {
        nodes: vec![
            node("top", &[(1, DependencyKind::Normal), (2, DependencyKind::Normal)]),
            node("left", &[(3, DependencyKind::Normal)]),
            node("right", &[(3, DependencyKind::Normal)]),
            node("bottom", &[]),
            node("apart", &[(3, DependencyKind::Normal)]),
        ],
    };
    assert_eq!(graph.reachable_from(0), vec![true, true, true, true, false]);
}

#[test]
fn index_of_finds_the_first_node_of_a_package() {
    let graph = Graph { nodes: vec![node("a", &[]), node("b", &[]), node("a", &[])] };
    assert_eq!(graph.index_of(&id("a")), Some(0));
    assert_eq!(graph.index_of(&id("b")), Some(1));
    assert_eq!(graph.index_of(&id("c")), None);
    let mut newer = id("a");
    newer.version = "2.0.0".to_string();
    assert_eq!(graph.index_of(&newer), None);
    let mut elsewhere = id("a");
    elsewhere.source = Source::Path("https://example.org/index".to_string());
    assert_eq!(graph.index_of(&elsewhere), None);
    let mut renamed = id("a");
    renamed.source = Source::Registry {
        name: "mirror".to_string(),
        url: "https://example.org/index".to_string(),
    };
    assert_eq!(graph.index_of(&renamed), None);
}

#[test]
fn an_edge_out_of_the_graph_is_refused() {
    let graph = Graph { nodes: vec![node("a", &[(1, DependencyKind::Normal)])] };
    assert!(!graph.edges_in_range());
    assert!(graph.distinct_ids());
    assert!(graph.metrics_fit());
    assert!(!graph.is_well_formed());
}

#[test]
fn two_nodes_for_one_package_are_refused() {
    let graph = Graph { nodes: vec![node("a", &[]), node("b", &[]), node("a", &[])] };
    assert!(graph.edges_in_range());
    assert!(!graph.distinct_ids());
    assert!(!graph.is_well_formed());
}

#[test]
fn counters_too_large_to_add_are_refused() {
    let mut heavy = node("a", &[]);
    heavy.metrics = MetricsLookup::Present(PackageMetrics {
        files: vec![file("a.rs", u64::MAX), file("b.rs", 1)],
    });
    let graph = Graph { nodes: vec![heavy] };
    assert!(graph.edges_in_range());
    assert!(graph.distinct_ids());
    assert!(!graph.metrics_fit());
    assert!(!graph.is_well_formed());
}

#[test]
fn the_empty_graph_is_well_formed() {
    let graph = Graph { nodes: vec![] };
    assert!(graph.is_well_formed());
    assert_eq!(graph.index_of(&id("a")), None);
}

#[test]
fn package_info_sorts_dependencies_by_kind() {
    let graph = Graph {
        nodes: vec![
            node(
                "root",
                &[
                    (1, DependencyKind::Normal),
                    (2, DependencyKind::Development),
                    (3, DependencyKind::Build),
                    (2, DependencyKind::Normal),
                ],
            ),
            node("one", &[]),
            node("two", &[]),
            node("three", &[]),
        ],
    };
    let info = graph.package_info(0);
    assert_eq!(info.id, id("root"));
    assert_eq!(info.dependencies, vec![id("one"), id("two")]);
    assert_eq!(info.dev_dependencies, vec![id("two")]);
    assert_eq!(info.build_dependencies, vec![id("three")]);
    let leaf = graph.package_info(3);
    assert_eq!(leaf.id, id("three"));
    assert!(leaf.dependencies.is_empty());
    assert!(leaf.dev_dependencies.is_empty());
    assert!(leaf.build_dependencies.is_empty());
}

#[test]
fn package_info_names_a_dependency_once() {
    let graph = Graph {
        nodes: vec![
            node(
                "root",
                &[
                    (2, DependencyKind::Normal),
                    (1, DependencyKind::Normal),
                    (2, DependencyKind::Normal),
                    (2, DependencyKind::Build),
                    (1, DependencyKind::Normal),
                    (2, DependencyKind::Build),
                ],
            ),
            node("one", &[]),
            node("two", &[]),
        ],
    };
    let info = graph.package_info(0);
    assert_eq!(info.dependencies, vec![id("two"), id("one")]);
    assert!(info.dev_dependencies.is_empty());
    assert_eq!(info.build_dependencies, vec![id("two")]);
}

#[test]
fn contains_id_compares_whole_identifiers() {
    let ids = vec![id("a"), id("b")];
    assert!(contains_id(&ids, &id("b")));
    assert!(!contains_id(&ids, &id("c")));
    let mut newer = id("a");
    newer.version = "9.9.9".to_string();
    assert!(!contains_id(&ids, &newer));
    assert!(!contains_id(&Vec::new(), &id("a")));
}
