use cargo_geiger::json::{lay_out, quote, quote_report, to_json};
use cargo_geiger::report::{
    Count, CounterBlock, PackageId, PackageInfo, ReportEntry, SafetyReport, Source, UnsafeFunction,
    UnsafeInfo,
};

fn id(name: &str) -> PackageId {
    PackageId {
        name: name.to_string(),
        version: "1.2.3".to_string(),
        source: Source::Path("file:///src".to_string()),
    }
}

fn block() -> CounterBlock {
    CounterBlock {
        functions: Count { safe: 1, unsafe_: 2 },
        exprs: Count { safe: 30, unsafe_: 4 },
        item_impls: Count { safe: 5, unsafe_: 600 },
        item_traits: Count { safe: 7, unsafe_: 8 },
        methods: Count { safe: 9, unsafe_: 10 },
    }
}

fn empty_report() -> SafetyReport {
    SafetyReport { packages: vec![], packages_without_metrics: vec![], used_but_not_scanned_files: vec![] }
}

fn entry() -> ReportEntry {
    ReportEntry {
        package: PackageInfo {
            id: id("root"),
            dependencies: vec![id("a"), id("b")],
            dev_dependencies: vec![],
            build_dependencies: vec![id("c")],
        },
        unsafety: UnsafeInfo {
            used: block(),
            forbids_unsafe: true,
            declared_unsafe_functions: vec![UnsafeFunction {
                package: "root".to_string(),
                function: "init".to_string(),
            }],
            contains_unsafe_functions: vec![],
        },
    }
}

const ID_A: &str = "{\"name\":\"a\",\"version\":\"1.2.3\",\"source\":{\"Path\":\"file:///src\"}}";
const ID_B: &str = "{\"name\":\"b\",\"version\":\"1.2.3\",\"source\":{\"Path\":\"file:///src\"}}";
const ID_C: &str = "{\"name\":\"c\",\"version\":\"1.2.3\",\"source\":{\"Path\":\"file:///src\"}}";
const ID_P: &str = "{\"name\":\"p\",\"version\":\"1.2.3\",\"source\":{\"Path\":\"file:///src\"}}";
const ID_ROOT: &str = "{\"name\":\"root\",\"version\":\"1.2.3\",\"source\":{\"Path\":\"file:///src\"}}";
const BLOCK: &str = "{\"functions\":{\"safe\":1,\"unsafe_\":2},\"exprs\":{\"safe\":30,\"unsafe_\":4},\"item_impls\":{\"safe\":5,\"unsafe_\":600},\"item_traits\":{\"safe\":7,\"unsafe_\":8},\"methods\":{\"safe\":9,\"unsafe_\":10}}";

fn entry_text() -> String {
    format!(
        "{{\"package\":{{\"id\":{ID_ROOT},\"dependencies\":[{ID_A},{ID_B}],\"dev_dependencies\":[],\"build_dependencies\":[{ID_C}]}},\"unsafety\":{{\"used\":{BLOCK},\"forbids_unsafe\":true,\"declared_unsafe_functions\":[{{\"package\":\"root\",\"function\":\"init\"}}],\"contains_unsafe_functions\":[]}}}}"
    )
}

#[test]
fn quote_puts_text_between_quotes() {
    assert_eq!(quote("abc"), Ok("\"abc\"".to_string()));
    assert_eq!(quote(""), Ok("\"\"".to_string()));
    assert_eq!(quote("src/lib.rs"), Ok("\"src/lib.rs\"".to_string()));
}

#[test]
fn quote_escapes_what_json_cannot_hold() {
    assert_eq!(quote("a\"b"), Ok("\"a\\\"b\"".to_string()));
    assert_eq!(quote("back\\slash"), Ok("\"back\\\\slash\"".to_string()));
    assert_eq!(quote("line\nend\ttab"), Ok("\"line\\nend\\ttab\"".to_string()));
    assert_eq!(quote("\u{1}"), Ok("\"\\u0001\"".to_string()));
    assert_eq!(quote("ü→"), Ok("\"ü→\"".to_string()));
}

#[test]
fn quote_agrees_with_serde_json() {
    for text in ["", "plain", "a\"b\\c", "\r\n\u{8}\u{c}\u{1f}", "C:\\dir\\file.rs", "日本語"] {
        assert_eq!(quote(text).unwrap(), serde_json::to_string(text).unwrap());
    }
}

#[test]
fn empty_report_names_all_three_lists() {
    let text = to_json(&empty_report()).unwrap();
    assert_eq!(
        text,
        "{\"packages\":[],\"packages_without_metrics\":[],\"used_but_not_scanned_files\":[]}"
    );
}

#[test]
fn report_with_one_empty_list_still_names_it() {
    let mut report = empty_report();
    report.packages_without_metrics = vec![id("a")];
    let text = to_json(&report).unwrap();
    assert_eq!(
        text,
        format!("{{\"packages\":[],\"packages_without_metrics\":[{ID_A}],\"used_but_not_scanned_files\":[]}}")
    );
    assert!(text.contains("\"packages\":[]"));
    assert!(text.contains("\"packages_without_metrics\":["));
    assert!(text.contains("\"used_but_not_scanned_files\":[]"));
}

#[test]
fn document_lists_entries_ids_and_files() {
    let report = SafetyReport {
        packages: vec![entry()],
        packages_without_metrics: vec![id("a"), id("c")],
        used_but_not_scanned_files: vec!["x.rs".to_string(), "dir/y z.rs".to_string()],
    };
    let text = to_json(&report).unwrap();
    let expected = format!(
        "{{\"packages\":[{}],\"packages_without_metrics\":[{ID_A},{ID_C}],\"used_but_not_scanned_files\":[\"x.rs\",\"dir/y z.rs\"]}}",
        entry_text()
    );
    assert_eq!(text, expected);
    assert!(!text.contains('\n'));
}

#[test]
fn document_separates_entries_with_commas() {
    let report = SafetyReport {
        packages: vec![entry(), entry(), entry()],
        packages_without_metrics: vec![],
        used_but_not_scanned_files: vec![],
    };
    let text = to_json(&report).unwrap();
    let one = entry_text();
    assert_eq!(
        text,
        format!("{{\"packages\":[{one},{one},{one}],\"packages_without_metrics\":[],\"used_but_not_scanned_files\":[]}}")
    );
}

#[test]
fn document_writes_numbers_in_decimal() {
    let mut one = entry();
    one.unsafety.used = CounterBlock::zero();
    one.unsafety.used.functions = Count { safe: u64::MAX, unsafe_: 10 };
    one.unsafety.used.exprs = Count { safe: 9, unsafe_: 100 };
    one.unsafety.forbids_unsafe = false;
    let report = SafetyReport {
        packages: vec![one],
        packages_without_metrics: vec![],
        used_but_not_scanned_files: vec![],
    };
    let text = to_json(&report).unwrap();
    assert!(text.contains("\"functions\":{\"safe\":18446744073709551615,\"unsafe_\":10}"));
    assert!(text.contains("\"exprs\":{\"safe\":9,\"unsafe_\":100}"));
    assert!(text.contains("\"forbids_unsafe\":false"));
}

#[test]
fn document_is_json_that_serde_json_reads() {
    let mut odd = entry();
    odd.package.id.name = "we\"ird\\na\nme".to_string();
    odd.unsafety.contains_unsafe_functions =
        vec![UnsafeFunction { package: "we\"ird".to_string(), function: "<T as U>::f".to_string() }];
    let report = SafetyReport {
        packages: vec![entry(), odd],
        packages_without_metrics: vec![id("a")],
        used_but_not_scanned_files: vec!["C:\\src\\lib.rs".to_string()],
    };
    let text = to_json(&report).unwrap();
    let value: serde_json::Value = serde_json::from_str(&text).unwrap();
    let packages = value.get("packages").unwrap().as_array().unwrap();
    assert_eq!(packages.len(), 2);
    let name = packages[1].get("package").unwrap().get("id").unwrap().get("name").unwrap();
    assert_eq!(name.as_str(), Some("we\"ird\\na\nme"));
    let used = packages[0].get("unsafety").unwrap().get("used").unwrap();
    assert_eq!(used.get("item_impls").unwrap().get("unsafe_").unwrap().as_u64(), Some(600));
    let function = &packages[1].get("unsafety").unwrap().get("contains_unsafe_functions").unwrap()[0];
    assert_eq!(function.get("function").unwrap().as_str(), Some("<T as U>::f"));
    assert_eq!(value.get("packages_without_metrics").unwrap().as_array().unwrap().len(), 1);
    let files = value.get("used_but_not_scanned_files").unwrap().as_array().unwrap();
    assert_eq!(files[0].as_str(), Some("C:\\src\\lib.rs"));
}

#[test]
fn quote_report_quotes_every_text() {
    let report = SafetyReport {
        packages: vec![entry()],
        packages_without_metrics: vec![id("a")],
        used_but_not_scanned_files: vec!["x.rs".to_string()],
    };
    let quoted = quote_report(&report).unwrap();
    assert_eq!(quoted.used_but_not_scanned_files, vec!["\"x.rs\"".to_string()]);
    assert_eq!(quoted.packages_without_metrics[0].name, "\"a\"");
    assert_eq!(quoted.packages_without_metrics[0].version, "\"1.2.3\"");
    assert_eq!(
        quoted.packages_without_metrics[0].source,
        Source::Path("\"file:///src\"".to_string())
    );
    let entry = &quoted.packages[0];
    assert_eq!(entry.package.id.name, "\"root\"");
    assert_eq!(entry.package.dependencies[1].name, "\"b\"");
    assert_eq!(entry.package.build_dependencies[0].name, "\"c\"");
    assert_eq!(entry.unsafety.declared_unsafe_functions[0].package, "\"root\"");
    assert_eq!(entry.unsafety.declared_unsafe_functions[0].function, "\"init\"");
    assert_eq!(entry.unsafety.used, block());
    assert!(entry.unsafety.forbids_unsafe);
}

#[test]
fn lay_out_takes_texts_as_they_are() {
    let report = SafetyReport {
        packages: vec![],
        packages_without_metrics: vec![PackageId {
            name: "N".to_string(),
            version: "V".to_string(),
            source: Source::Path("S".to_string()),
        }],
        used_but_not_scanned_files: vec!["1".to_string(), "2".to_string()],
    };
    assert_eq!(
        lay_out(&report),
        "{\"packages\":[],\"packages_without_metrics\":[{\"name\":N,\"version\":V,\"source\":{\"Path\":S}}],\"used_but_not_scanned_files\":[1,2]}"
    );
}

#[test]
fn same_report_gives_the_same_document() {
    let report = SafetyReport {
        packages: vec![entry()],
        packages_without_metrics: vec![id("a")],
        used_but_not_scanned_files: vec!["x.rs".to_string()],
    };
    let first = to_json(&report).unwrap();
    let second = to_json(&report).unwrap();
    assert_eq!(first.as_bytes(), second.as_bytes());
}

#[test]
fn document_tells_the_sorts_of_source_apart() {
    let git = PackageId {
        name: "g".to_string(),
        version: "0.1.0".to_string(),
        source: Source::Git { url: "https://example.org/g.git".to_string(), rev: "abc".to_string() },
    };
    let registry = PackageId {
        name: "r".to_string(),
        version: "0.2.0".to_string(),
        source: Source::Registry {
            name: "crates.io".to_string(),
            url: "https://example.org/index".to_string(),
        },
    };
    let mut report = empty_report();
    report.packages_without_metrics = vec![git, registry, id("p")];
    assert_eq!(
        to_json(&report).unwrap(),
        format!(
            "{{\"packages\":[],\"packages_without_metrics\":[{},{},{ID_P}],\"used_but_not_scanned_files\":[]}}",
            "{\"name\":\"g\",\"version\":\"0.1.0\",\"source\":{\"Git\":{\"url\":\"https://example.org/g.git\",\"rev\":\"abc\"}}}",
            "{\"name\":\"r\",\"version\":\"0.2.0\",\"source\":{\"Registry\":{\"name\":\"crates.io\",\"url\":\"https://example.org/index\"}}}",
        )
    );
}

#[test]
fn quote_report_quotes_the_texts_of_every_sort_of_source() {
    let mut report = empty_report();
    report.packages_without_metrics = vec![
        PackageId {
            name: "g".to_string(),
            version: "1".to_string(),
            source: Source::Git { url: "u".to_string(), rev: "r".to_string() },
        },
        PackageId {
            name: "r".to_string(),
            version: "2".to_string(),
            source: Source::Registry { name: "n".to_string(), url: "u".to_string() },
        },
    ];
    let quoted = quote_report(&report).unwrap();
    assert_eq!(
        quoted.packages_without_metrics[0].source,
        Source::Git { url: "\"u\"".to_string(), rev: "\"r\"".to_string() }
    );
    assert_eq!(
        quoted.packages_without_metrics[1].source,
        Source::Registry { name: "\"n\"".to_string(), url: "\"u\"".to_string() }
    );
}

#[test]
fn document_has_no_line_end_whatever_the_texts_hold() {
    let mut odd = entry();
    odd.package.id.name = "two\nlines".to_string();
    odd.package.id.version = "1\r\n2".to_string();
    odd.unsafety.declared_unsafe_functions =
        vec![UnsafeFunction { package: "a\nb".to_string(), function: "\n".to_string() }];
    let report = SafetyReport {
        packages: vec![odd],
        packages_without_metrics: vec![PackageId {
            name: "\n".to_string(),
            version: "\n".to_string(),
            source: Source::Git { url: "u\n".to_string(), rev: "\nr".to_string() },
        }],
        used_but_not_scanned_files: vec!["dir\n/file.rs".to_string()],
    };
    let text = to_json(&report).unwrap();
    assert!(!text.contains('\n'));
    let value: serde_json::Value = serde_json::from_str(&text).unwrap();
    let files = value.get("used_but_not_scanned_files").unwrap().as_array().unwrap();
    assert_eq!(files[0].as_str(), Some("dir\n/file.rs"));
}

#[test]
fn package_ids_are_read_back_by_cargo_geiger_serde() {
    let mut report = empty_report();
    report.packages_without_metrics = vec![
        PackageId {
            name: "beta".to_string(),
            version: "0.9.1-rc.1".to_string(),
            source: Source::Registry {
                name: "crates.io".to_string(),
                url: "https://github.com/rust-lang/crates.io-index".to_string(),
            },
        },
        PackageId {
            name: "gamma".to_string(),
            version: "2.0.0".to_string(),
            source: Source::Git {
                url: "https://example.org/gamma.git".to_string(),
                rev: "deadbeef".to_string(),
            },
        },
        id("p"),
    ];
    let text = to_json(&report).unwrap();
    let value: serde_json::Value = serde_json::from_str(&text).unwrap();
    let ids = value.get("packages_without_metrics").unwrap().clone();
    let read: Vec<cargo_geiger_serde::PackageId> = serde_json::from_value(ids).unwrap();
    assert_eq!(read.len(), 3);
    assert_eq!(read[0].name, "beta");
    assert_eq!(read[0].version.to_string(), "0.9.1-rc.1");
    match &read[0].source {
        cargo_geiger_serde::Source::Registry { name, url } => {
            assert_eq!(name, "crates.io");
            assert_eq!(url.as_str(), "https://github.com/rust-lang/crates.io-index");
        }
        other => panic!("unexpected source {:?}", other),
    }
    match &read[1].source {
        cargo_geiger_serde::Source::Git { url, rev } => {
            assert_eq!(url.as_str(), "https://example.org/gamma.git");
            assert_eq!(rev, "deadbeef");
        }
        other => panic!("unexpected source {:?}", other),
    }
    match &read[2].source {
        cargo_geiger_serde::Source::Path(url) => assert_eq!(url.as_str(), "file:///src"),
        other => panic!("unexpected source {:?}", other),
    }
    let written = serde_json::to_string(&read).unwrap();
    assert_eq!(format!("{{\"packages\":[],\"packages_without_metrics\":{written},\"used_but_not_scanned_files\":[]}}"), text);
}
