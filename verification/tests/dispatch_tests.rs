use cargo_geiger::config::FeaturesArgs;
use cargo_geiger::dispatch::{
    scan_unsafe, try_scan_unsafe, Action, Event, OutputFormat, OutputMode, ScanRequest, Stage,
};
use cargo_geiger::graph::{Edge, Graph, Node};
use cargo_geiger::json::to_json;
use cargo_geiger::metrics::{MetricsLookup, PackageMetrics, RsFileMetrics};
use cargo_geiger::report::{Count, CounterBlock, DependencyKind, PackageId, SafetyReport, Source};
use cargo_geiger::scan::{scan_to_report, ScanDetails, ScanError, ScanMode};

fn id(name: &str) -> PackageId {
    PackageId {
        name: name.to_string(),
        version: "1.0.0".to_string(),
        source: Source::Path("file:///work".to_string()),
    }
}

fn file(path: &str, declared: &[&str], contains: &[&str]) -> RsFileMetrics {
    let count = Count { safe: 1, unsafe_: 1 };
    RsFileMetrics {
        path: path.to_string(),
        counters: CounterBlock {
            functions: count,
            exprs: count,
            item_impls: count,
            item_traits: count,
            methods: count,
        },
        forbids_unsafe: false,
        is_crate_entry_point: true,
        declared_unsafe_functions: declared.iter().map(|f| f.to_string()).collect(),
        contains_unsafe_functions: contains.iter().map(|f| f.to_string()).collect(),
    }
}

fn graph() -> Graph {
    Graph {
        nodes: vec![
            Node {
                id: id("root"),
                edges: vec![
                    Edge { target: 1, kind: DependencyKind::Normal },
                    Edge { target: 2, kind: DependencyKind::Build },
                ],
                metrics: MetricsLookup::Present(PackageMetrics {
                    files: vec![file("root/lib.rs", &["start"], &["work"])],
                }),
            },
            Node {
                id: id("dep"),
                edges: vec![],
                metrics: MetricsLookup::Present(PackageMetrics {
                    files: vec![file("dep/lib.rs", &[], &["help"])],
                }),
            },
            Node { id: id("missing"), edges: vec![], metrics: MetricsLookup::Absent },
        ],
    }
}

fn files() -> Vec<String> {
    vec!["root/lib.rs".to_string(), "dep/lib.rs".to_string(), "dep/extra.rs".to_string()]
}

fn findings() -> Vec<RsFileMetrics> {
    vec![file("root/lib.rs", &[], &[]), file("dep/lib.rs", &[], &[])]
}

fn request(format: Option<OutputFormat>, log: Option<&str>) -> ScanRequest {
    ScanRequest {
        output_format: format,
        unsafe_fn_log: log.map(|path| path.to_string()),
        features_args: FeaturesArgs {
            all_features: false,
            features: vec!["serde".to_string(), "std".to_string()],
            no_default_features: true,
        },
    }
}

fn found() -> Event {
    Event::Found { geiger_context: Some(findings()) }
}

fn finding() -> Stage {
    Stage::Finding(OutputFormat::Json, files())
}

fn built_report() -> SafetyReport {
    let details = ScanDetails { rs_files_used: files(), geiger_context: findings() };
    scan_to_report(&graph(), &id("root"), &details)
}

#[test]
fn output_mode_follows_the_format() {
    assert_eq!(
        request(Some(OutputFormat::Json), None).output_mode(),
        OutputMode::StructuredReport(OutputFormat::Json)
    );
    assert_eq!(request(None, Some("x.log")).output_mode(), OutputMode::InteractiveTable);
}

#[test]
fn without_format_the_table_renderer_takes_over() {
    let (stage, action) =
        scan_unsafe(Stage::Start, Event::Begin, &request(None, None), &graph(), &id("root"));
    assert_eq!(stage, Stage::Done);
    assert_eq!(action, Action::RenderTable);
    let (stage, action) =
        scan_unsafe(Stage::Start, Event::Begin, &request(None, Some("x.log")), &graph(), &id("root"));
    assert_eq!(stage, Stage::Done);
    assert_eq!(action, Action::RenderTable);
}

#[test]
fn with_format_the_resolver_is_asked_first() {
    let request = request(Some(OutputFormat::Json), None);
    let (stage, action) = scan_unsafe(Stage::Start, Event::Begin, &request, &graph(), &id("root"));
    assert_eq!(stage, Stage::Resolving(OutputFormat::Json));
    match action {
        Action::ResolveFiles { config } => {
            assert_eq!(config.features, vec!["serde".to_string(), "std".to_string()]);
            assert!(!config.all_features);
            assert!(config.no_default_features);
        }
        other => panic!("unexpected action {:?}", other),
    }
}

#[test]
fn a_failed_resolver_ends_the_scan_before_the_finder_is_asked() {
    let (stage, action) = scan_unsafe(
        Stage::Resolving(OutputFormat::Json),
        Event::Resolved { rs_files_used: None },
        &request(Some(OutputFormat::Json), None),
        &graph(),
        &id("root"),
    );
    assert_eq!(stage, Stage::Done);
    assert_eq!(action, Action::Stop(Err(ScanError::ResolutionError)));
}

#[test]
fn after_the_resolver_the_finder_is_asked_for_the_whole_workspace() {
    let (stage, action) = scan_unsafe(
        Stage::Resolving(OutputFormat::Json),
        Event::Resolved { rs_files_used: Some(files()) },
        &request(Some(OutputFormat::Json), None),
        &graph(),
        &id("root"),
    );
    assert_eq!(stage, Stage::Finding(OutputFormat::Json, files()));
    assert_eq!(action, Action::FindUnsafe { mode: ScanMode::Full });
}

#[test]
fn a_failed_finder_ends_the_scan() {
    let (stage, action) = scan_unsafe(
        finding(),
        Event::Found { geiger_context: None },
        &request(Some(OutputFormat::Json), Some("x.log")),
        &graph(),
        &id("root"),
    );
    assert_eq!(stage, Stage::Done);
    assert_eq!(action, Action::Stop(Err(ScanError::FinderError)));
}

#[test]
fn the_report_is_printed_as_one_line() {
    let (stage, action) = scan_unsafe(
        finding(),
        found(),
        &request(Some(OutputFormat::Json), None),
        &graph(),
        &id("root"),
    );
    let report = built_report();
    assert_eq!(action, Action::Print { line: format!("{}\n", to_json(&report).unwrap()) });
    assert_eq!(stage, Stage::Printing(report));
}

#[test]
fn the_printed_line_names_reported_and_missing_packages() {
    let (_, action) = scan_unsafe(
        finding(),
        found(),
        &request(Some(OutputFormat::Json), None),
        &graph(),
        &id("root"),
    );
    let line = match action {
        Action::Print { line } => line,
        other => panic!("unexpected action {:?}", other),
    };
    assert!(line.ends_with("}\n"));
    assert_eq!(line.matches('\n').count(), 1);
    let value: serde_json::Value = serde_json::from_str(&line).unwrap();
    let packages = value.get("packages").unwrap().as_array().unwrap();
    let names: Vec<&str> = packages
        .iter()
        .map(|entry| entry.get("package").unwrap().get("id").unwrap().get("name").unwrap().as_str().unwrap())
        .collect();
    assert_eq!(names, vec!["root", "dep"]);
    let missing = value.get("packages_without_metrics").unwrap().as_array().unwrap();
    assert_eq!(missing.len(), 1);
    assert_eq!(missing[0].get("name").unwrap().as_str(), Some("missing"));
    let orphans = value.get("used_but_not_scanned_files").unwrap().as_array().unwrap();
    assert_eq!(orphans.len(), 1);
    assert_eq!(orphans[0].as_str(), Some("dep/extra.rs"));
}

#[test]
fn scanning_twice_prints_the_same_bytes() {
    let run = || {
        scan_unsafe(
            finding(),
            found(),
            &request(Some(OutputFormat::Json), None),
            &graph(),
            &id("root"),
        )
    };
    let (first_stage, first) = run();
    let (second_stage, second) = run();
    assert_eq!(first_stage, second_stage);
    match (first, second) {
        (Action::Print { line: a }, Action::Print { line: b }) => assert_eq!(a.as_bytes(), b.as_bytes()),
        other => panic!("unexpected actions {:?}", other),
    }
}

#[test]
fn without_log_path_the_scan_ends_after_printing() {
    let (stage, action) = scan_unsafe(
        Stage::Printing(built_report()),
        Event::Written { ok: true },
        &request(Some(OutputFormat::Json), None),
        &graph(),
        &id("root"),
    );
    assert_eq!(stage, Stage::Done);
    assert_eq!(action, Action::Stop(Ok(())));
}

#[test]
fn a_line_that_cannot_be_printed_ends_the_scan() {
    let (stage, action) = scan_unsafe(
        Stage::Printing(built_report()),
        Event::Written { ok: false },
        &request(Some(OutputFormat::Json), Some("out/unsafe.log")),
        &graph(),
        &id("root"),
    );
    assert_eq!(stage, Stage::Done);
    assert_eq!(action, Action::Stop(Err(ScanError::IOError)));
}

#[test]
fn with_log_path_the_logs_follow_the_printed_line() {
    let (stage, action) = scan_unsafe(
        Stage::Printing(built_report()),
        Event::Written { ok: true },
        &request(Some(OutputFormat::Json), Some("out/unsafe.log")),
        &graph(),
        &id("root"),
    );
    assert_eq!(stage, Stage::Logging);
    match action {
        Action::WriteLogs(logs) => {
            assert_eq!(logs.declared.path, "out/unsafe.declared.log");
            assert_eq!(logs.declared.content, "root start\n");
            assert_eq!(logs.contains.path, "out/unsafe.contains.log");
            assert_eq!(logs.contains.content, "root work\ndep help\n");
        }
        other => panic!("unexpected action {:?}", other),
    }
}

#[test]
fn a_log_path_that_names_no_file_is_told_before_the_step() {
    let step = try_scan_unsafe(
        Stage::Printing(built_report()),
        Event::Written { ok: true },
        &request(Some(OutputFormat::Json), Some("out/..")),
        &graph(),
        &id("root"),
    );
    assert_eq!(step, None);
    let failed = try_scan_unsafe(
        Stage::Printing(built_report()),
        Event::Written { ok: false },
        &request(Some(OutputFormat::Json), Some("out/..")),
        &graph(),
        &id("root"),
    );
    assert_eq!(failed, Some((Stage::Done, Action::Stop(Err(ScanError::IOError)))));
}

#[test]
fn try_scan_unsafe_steps_as_scan_unsafe_does() {
    let request = request(Some(OutputFormat::Json), Some("out/unsafe.log"));
    assert_eq!(
        try_scan_unsafe(Stage::Start, Event::Begin, &request, &graph(), &id("root")),
        Some(scan_unsafe(Stage::Start, Event::Begin, &request, &graph(), &id("root")))
    );
    assert_eq!(
        try_scan_unsafe(finding(), found(), &request, &graph(), &id("root")),
        Some(scan_unsafe(finding(), found(), &request, &graph(), &id("root")))
    );
    assert_eq!(
        try_scan_unsafe(
            Stage::Printing(built_report()),
            Event::Written { ok: true },
            &request,
            &graph(),
            &id("root")
        ),
        Some(scan_unsafe(
            Stage::Printing(built_report()),
            Event::Written { ok: true },
            &request,
            &graph(),
            &id("root")
        ))
    );
}

#[test]
fn written_logs_end_the_scan() {
    let request = request(Some(OutputFormat::Json), Some("unsafe.log"));
    let (stage, action) =
        scan_unsafe(Stage::Logging, Event::Written { ok: true }, &request, &graph(), &id("root"));
    assert_eq!(stage, Stage::Done);
    assert_eq!(action, Action::Stop(Ok(())));
    let (stage, action) =
        scan_unsafe(Stage::Logging, Event::Written { ok: false }, &request, &graph(), &id("root"));
    assert_eq!(stage, Stage::Done);
    assert_eq!(action, Action::Stop(Err(ScanError::IOError)));
}

#[test]
fn a_whole_scan_runs_through_its_stages_in_order() {
    let request = request(Some(OutputFormat::Json), Some("unsafe.log"));
    let graph = graph();
    let root = id("root");
    let mut stage = Stage::Start;
    let mut event = Event::Begin;
    let mut seen = Vec::new();
    let outcome = loop {
        let (next, action) = scan_unsafe(stage, event, &request, &graph, &root);
        stage = next;
        event = match action {
            Action::ResolveFiles { .. } => {
                seen.push("resolve");
                Event::Resolved { rs_files_used: Some(files()) }
            }
            Action::FindUnsafe { .. } => {
                seen.push("find");
                found()
            }
            Action::Print { .. } => {
                seen.push("print");
                Event::Written { ok: true }
            }
            Action::WriteLogs(_) => {
                seen.push("logs");
                Event::Written { ok: true }
            }
            Action::RenderTable => {
                seen.push("table");
                break Ok(());
            }
            Action::Stop(outcome) => break outcome,
        };
    };
    assert_eq!(outcome, Ok(()));
    assert_eq!(stage, Stage::Done);
    assert_eq!(seen, vec!["resolve", "find", "print", "logs"]);
}
