use cargo_geiger::graph::{Edge, Graph, Node};
use cargo_geiger::metrics::{MetricsLookup, PackageMetrics, RsFileMetrics};
use cargo_geiger::report::{Count, CounterBlock, DependencyKind, PackageId, Source, UnsafeFunction};
use cargo_geiger::scan::{
    is_scanned, list_files_used_but_not_scanned, scan, scan_to_report, ScanDetails, ScanError,
};

fn texts(names: &[&str]) -> Vec<String> {
    names.iter().map(|name| name.to_string()).collect()
}

fn id(name: &str) -> PackageId {
    PackageId {
        name: name.to_string(),
        version: "0.1.0".to_string(),
        source: Source::Git {
            url: "https://example.org/repo.git".to_string(),
            rev: "0123abcd".to_string(),
        },
    }
}

fn block(n: u64) -> CounterBlock {
    CounterBlock {
        functions: Count { safe: n, unsafe_: 1 },
        exprs: Count { safe: 2 * n, unsafe_: 2 },
        item_impls: Count { safe: 0, unsafe_: 0 },
        item_traits: Count { safe: 0, unsafe_: 0 },
        methods: Count { safe: n + 1, unsafe_: 3 },
    }
}

fn file(path: &str, n: u64, declared: &[&str], contains: &[&str]) -> RsFileMetrics {
    RsFileMetrics {
        path: path.to_string(),
        counters: block(n),
        forbids_unsafe: false,
        is_crate_entry_point: false,
        declared_unsafe_functions: texts(declared),
        contains_unsafe_functions: texts(contains),
    }
}

fn node(name: &str, targets: &[usize], files: Option<Vec<RsFileMetrics>>) -> Node {
    Node {
        id: id(name),
        edges: targets
            .iter()
            .map(|&target| Edge { target, kind: DependencyKind::Normal })
            .collect(),
        metrics: match files {
            Some(files) => MetricsLookup::Present(PackageMetrics { files }),
            None => MetricsLookup::Absent,
        },
    }
}

/// A root with two dependencies, of which `build_dep` has no metrics, and a
/// package that nothing depends on.
fn sample_graph() -> Graph {
    Graph {
        nodes: vec![
            node("unrelated", &[], Some(vec![file("unrelated/lib.rs", 50, &["u"], &["u"])])),
            node("build_dep", &[], None),
            node(
                "root",
                &[3, 1],
                Some(vec![
                    file("root/lib.rs", 1, &["root_init"], &["root_run"]),
                    file("root/windows.rs", 10, &["win"], &["win_run"]),
                ]),
            ),
            node("dep", &[2], Some(vec![file("dep/lib.rs", 100, &[], &["dep_run"])])),
        ],
    }
}

fn sample_details() -> ScanDetails {
    ScanDetails {
        rs_files_used: texts(&["root/lib.rs", "dep/lib.rs", "dep/generated.rs"]),
        geiger_context: vec![
            file("root/lib.rs", 1, &[], &[]),
            file("root/windows.rs", 10, &[], &[]),
            file("dep/lib.rs", 100, &[], &[]),
        ],
    }
}

fn names(ids: &[PackageId]) -> Vec<&str> {
    ids.iter().map(|id| id.name.as_str()).collect()
}

#[test]
fn scan_fails_without_the_compiled_files() {
    assert_eq!(scan(None, Some(vec![])), Err(ScanError::ResolutionError));
    assert_eq!(scan(None, None), Err(ScanError::ResolutionError));
}

#[test]
fn scan_fails_without_the_findings() {
    assert_eq!(scan(Some(texts(&["a.rs"])), None), Err(ScanError::FinderError));
    assert_eq!(scan(Some(vec![]), None), Err(ScanError::FinderError));
}

#[test]
fn scan_keeps_both_results() {
    let findings = vec![file("a.rs", 1, &[], &[])];
    let details = scan(Some(texts(&["b.rs", "a.rs"])), Some(vec![file("a.rs", 1, &[], &[])])).unwrap();
    assert_eq!(details.rs_files_used, texts(&["b.rs", "a.rs"]));
    assert_eq!(details.geiger_context, findings);
}

#[test]
fn scan_keeps_each_compiled_file_once() {
    let details = scan(Some(texts(&["b.rs", "a.rs", "b.rs", "c.rs", "a.rs", "b.rs"])), Some(vec![]))
        .unwrap();
    assert_eq!(details.rs_files_used, texts(&["b.rs", "a.rs", "c.rs"]));
    let empty = scan(Some(vec![]), Some(vec![])).unwrap();
    assert!(empty.rs_files_used.is_empty());
    assert!(empty.geiger_context.is_empty());
}

#[test]
fn is_scanned_looks_for_the_path_among_the_findings() {
    let findings = vec![file("a.rs", 1, &[], &[]), file("dir/b.rs", 1, &[], &[])];
    assert!(is_scanned(&findings, &"a.rs".to_string()));
    assert!(is_scanned(&findings, &"dir/b.rs".to_string()));
    assert!(!is_scanned(&findings, &"b.rs".to_string()));
    assert!(!is_scanned(&Vec::new(), &"a.rs".to_string()));
}

#[test]
fn files_not_scanned_are_compiled_and_unknown_to_the_finder() {
    let details = sample_details();
    let orphans = list_files_used_but_not_scanned(&details.geiger_context, &details.rs_files_used);
    assert_eq!(orphans, texts(&["dep/generated.rs"]));
    for orphan in &orphans {
        assert!(details.rs_files_used.contains(orphan));
        assert!(!details.geiger_context.iter().any(|found| &found.path == orphan));
    }
}

#[test]
fn files_not_scanned_keep_the_order_of_the_compiled_files() {
    let findings = vec![file("m.rs", 1, &[], &[])];
    let compiled = texts(&["z.rs", "m.rs", "a.rs", "k.rs"]);
    assert_eq!(list_files_used_but_not_scanned(&findings, &compiled), texts(&["z.rs", "a.rs", "k.rs"]));
    assert_eq!(list_files_used_but_not_scanned(&Vec::new(), &compiled), compiled);
    assert!(list_files_used_but_not_scanned(&findings, &Vec::new()).is_empty());
    assert!(list_files_used_but_not_scanned(&findings, &texts(&["m.rs"])).is_empty());
}

#[test]
fn compiled_file_without_findings_is_listed_as_not_scanned() {
    let graph = Graph { nodes: vec![node("root", &[], Some(vec![file("src/lib.rs", 1, &[], &[])]))] };
    let details = ScanDetails {
        rs_files_used: texts(&["src/lib.rs", "src/clean.rs"]),
        geiger_context: vec![file("src/lib.rs", 1, &[], &[])],
    };
    assert!(!details.geiger_context.iter().any(|found| found.path == "src/clean.rs"));
    let report = scan_to_report(&graph, &id("root"), &details);
    assert_eq!(report.used_but_not_scanned_files, texts(&["src/clean.rs"]));
}

#[test]
fn report_holds_packages_with_metrics_and_lists_the_one_without() {
    let graph = sample_graph();
    assert!(graph.is_well_formed());
    let report = scan_to_report(&graph, &id("root"), &sample_details());
    let reported: Vec<&str> =
        report.packages.iter().map(|entry| entry.package.id.name.as_str()).collect();
    assert_eq!(reported, vec!["root", "dep"]);
    assert_eq!(names(&report.packages_without_metrics), vec!["build_dep"]);
    assert_eq!(report.used_but_not_scanned_files, texts(&["dep/generated.rs"]));
}

#[test]
fn every_reachable_package_is_in_exactly_one_list() {
    let graph = sample_graph();
    let root = graph.index_of(&id("root")).unwrap();
    let reached = graph.reachable_from(root);
    let report = scan_to_report(&graph, &id("root"), &sample_details());
    for (index, node) in graph.nodes.iter().enumerate() {
        let entries = report.packages.iter().filter(|entry| entry.package.id == node.id).count();
        let missing = report.packages_without_metrics.iter().filter(|id| **id == node.id).count();
        if reached[index] {
            assert_eq!(entries + missing, 1);
            assert_eq!(entries == 1, matches!(node.metrics, MetricsLookup::Present(_)));
        } else {
            assert_eq!(entries + missing, 0);
        }
    }
}

#[test]
fn entries_count_only_compiled_files() {
    let report = scan_to_report(&sample_graph(), &id("root"), &sample_details());
    let root = &report.packages[0];
    assert_eq!(root.unsafety.used, block(1));
    assert_eq!(
        root.unsafety.declared_unsafe_functions,
        vec![UnsafeFunction { package: "root".to_string(), function: "root_init".to_string() }]
    );
    assert_eq!(
        root.unsafety.contains_unsafe_functions,
        vec![UnsafeFunction { package: "root".to_string(), function: "root_run".to_string() }]
    );
    assert_eq!(root.package.dependencies, vec![id("dep"), id("build_dep")]);
    let dep = &report.packages[1];
    assert_eq!(dep.unsafety.used, block(100));
    assert!(dep.unsafety.declared_unsafe_functions.is_empty());
    assert_eq!(
        dep.unsafety.contains_unsafe_functions,
        vec![UnsafeFunction { package: "dep".to_string(), function: "dep_run".to_string() }]
    );
    assert_eq!(dep.package.dependencies, vec![id("root")]);
}

#[test]
fn report_from_another_root_leaves_out_what_it_cannot_reach() {
    let graph = sample_graph();
    let report = scan_to_report(&graph, &id("build_dep"), &sample_details());
    assert!(report.packages.is_empty());
    assert_eq!(names(&report.packages_without_metrics), vec!["build_dep"]);
    let other = scan_to_report(&graph, &id("unrelated"), &sample_details());
    assert_eq!(other.packages.len(), 1);
    assert_eq!(other.packages[0].package.id, id("unrelated"));
    assert!(other.packages_without_metrics.is_empty());
    assert_eq!(other.packages[0].unsafety.used, CounterBlock::zero());
}

#[test]
fn an_entry_does_not_change_with_files_that_are_not_compiled() {
    let mut changed = sample_graph();
    changed.nodes[2].metrics = MetricsLookup::Present(PackageMetrics {
        files: vec![
            file("root/lib.rs", 1, &["root_init"], &["root_run"]),
            file("root/windows.rs", 77, &["else"], &[]),
        ],
    });
    let first = scan_to_report(&sample_graph(), &id("root"), &sample_details());
    let second = scan_to_report(&changed, &id("root"), &sample_details());
    assert_eq!(first, second);
}

#[test]
fn the_report_does_not_change_with_the_order_of_the_compiled_files() {
    let mut details = sample_details();
    details.rs_files_used = texts(&["dep/generated.rs", "dep/lib.rs", "root/lib.rs"]);
    details.geiger_context.reverse();
    let first = scan_to_report(&sample_graph(), &id("root"), &sample_details());
    let second = scan_to_report(&sample_graph(), &id("root"), &details);
    assert_eq!(first.packages, second.packages);
    assert_eq!(first.packages_without_metrics, second.packages_without_metrics);
    assert_eq!(first.used_but_not_scanned_files, second.used_but_not_scanned_files);
}

#[test]
fn aggregation_twice_gives_the_same_report() {
    let first = scan_to_report(&sample_graph(), &id("root"), &sample_details());
    let second = scan_to_report(&sample_graph(), &id("root"), &sample_details());
    assert_eq!(first, second);
}

#[test]
fn report_of_a_scan_that_compiled_nothing() {
    let details = ScanDetails { rs_files_used: vec![], geiger_context: vec![] };
    let report = scan_to_report(&sample_graph(), &id("root"), &details);
    assert_eq!(report.packages.len(), 2);
    assert_eq!(report.packages[0].unsafety.used, CounterBlock::zero());
    assert!(report.used_but_not_scanned_files.is_empty());
}
