//! The scan: what was collected, and the report that is built from it.
use vstd::prelude::*;
use crate::graph::{lemma_dependencies_are_distinct, Graph, GraphView, NodeView};
use crate::metrics::{
    contains_path, lemma_unsafety_depends_on_compiled_set, lemma_unsafety_ignores_uncompiled_files,
    unsafe_stats, unsafety_of, MetricsLookup,
    RsFileMetrics, RsFileMetricsView,
};
use crate::report::{DependencyKind, PackageId, PackageIdView, ReportEntry, ReportEntryView, SafetyReport, SafetyReportView};

verus! {

/// Why a scan ends without its result.
#[derive(Clone, Copy, Debug, PartialEq, Eq, Structural)]
pub enum ScanError {
    /// The set of compiled files could not be determined.
    ResolutionError,
    /// The search of the workspace for unsafe code failed.
    FinderError,
    /// The report could not be written down as a document.
    SerializationError,
    /// An output could not be written.
    IOError,
}

/// How much of the workspace the finder is asked to visit.
#[derive(Clone, Copy, Debug, PartialEq, Eq, Structural)]
pub enum ScanMode {
    /// Every source file of every package.
    Full,
    /// The entry points of each crate only.
    EntryPointsOnly,
}

/// What one scan collected: the files that are compiled, without
/// repetition, and what the finder saw, file by file.
#[derive(Debug, PartialEq, Eq)]
pub struct ScanDetails {
    pub rs_files_used: Vec<String>,
    pub geiger_context: Vec<RsFileMetrics>,
}

/// What a `ScanDetails` denotes.
pub struct ScanDetailsView {
    pub rs_files_used: Seq<Seq<char>>,
    pub geiger_context: Seq<RsFileMetricsView>,
}

impl DeepView for ScanDetails {
    type V = ScanDetailsView;

    open spec fn deep_view(&self) -> ScanDetailsView {
        ScanDetailsView {
            rs_files_used: self.rs_files_used.deep_view(),
            geiger_context: self.geiger_context.deep_view(),
        }
    }
}

/// The first `k` of `paths` with each path kept where it first occurs.
pub open spec fn without_repeats(paths: Seq<Seq<char>>, k: int) -> Seq<Seq<char>>
    decreases k,
{
    if k <= 0 {
        Seq::empty()
    } else if without_repeats(paths, k - 1).contains(paths[k - 1]) {
        without_repeats(paths, k - 1)
    } else {
        without_repeats(paths, k - 1).push(paths[k - 1])
    }
}

/// `without_repeats` holds the same paths as the prefix it is made from, each once.
pub proof fn lemma_without_repeats(paths: Seq<Seq<char>>, k: int)
    requires
        0 <= k <= paths.len(),
    ensures
        without_repeats(paths, k).no_duplicates(),
        forall|p: Seq<char>|
            #![trigger without_repeats(paths, k).contains(p)]
            without_repeats(paths, k).contains(p) <==> exists|i: int|
                0 <= i < k && #[trigger] paths[i] == p,
    decreases k,
{
    if k > 0 {
        lemma_without_repeats(paths, k - 1);
        let prev = without_repeats(paths, k - 1);
        let now = without_repeats(paths, k);
        let last = paths[k - 1];
        assert forall|p: Seq<char>| #![trigger now.contains(p)] now.contains(p) <==> exists|i: int|
            0 <= i < k && #[trigger] paths[i] == p by {
            if now.contains(p) {
                let j = choose|j: int| 0 <= j < now.len() && now[j] == p;
                if j < prev.len() {
                    assert(prev[j] == p);
                    assert(prev.contains(p));
                    let i = choose|i: int| 0 <= i < k - 1 && #[trigger] paths[i] == p;
                    assert(paths[i] == p);
                } else {
                    assert(paths[k - 1] == p);
                }
            }
            if exists|i: int| 0 <= i < k && #[trigger] paths[i] == p {
                let i = choose|i: int| 0 <= i < k && #[trigger] paths[i] == p;
                if i < k - 1 {
                    assert(prev.contains(p));
                    let j = choose|j: int| 0 <= j < prev.len() && prev[j] == p;
                    assert(now[j] == p);
                } else if prev.contains(last) {
                } else {
                    assert(now[now.len() - 1] == p);
                }
            }
        }
    }
}

/// Puts together what the two collaborators of a scan returned, each
/// `None` where it failed.
///
/// A scan has both results or none: a failure of the resolver is reported
/// before one of the finder. Of the compiled files each is kept once, where
/// it first occurs.
pub fn scan(rs_files_used: Option<Vec<String>>, geiger_context: Option<Vec<RsFileMetrics>>) -> (r:
    Result<ScanDetails, ScanError>)
    ensures
        match r {
            Ok(details) => {
                &&& rs_files_used is Some
                &&& geiger_context is Some
                &&& details.rs_files_used.deep_view() == without_repeats(
                    rs_files_used->Some_0.deep_view(),
                    rs_files_used->Some_0.len() as int,
                )
                &&& details.geiger_context.deep_view() == geiger_context->Some_0.deep_view()
                &&& details.deep_view().rs_files_used.no_duplicates()
            },
            Err(e) => {
                &&& rs_files_used is None ==> e == ScanError::ResolutionError
                &&& rs_files_used is Some ==> geiger_context is None && e == ScanError::FinderError
            },
        },
{
    let files = match rs_files_used {
        Some(files) => files,
        None => {
            return Err(ScanError::ResolutionError);
        },
    };
    let geiger_context = match geiger_context {
        Some(context) => context,
        None => {
            return Err(ScanError::FinderError);
        },
    };
    let ghost paths = files.deep_view();
    let mut kept: Vec<String> = Vec::new();
    let mut i: usize = 0;
    while i < files.len()
        invariant
            i <= files.len(),
            paths == files.deep_view(),
            kept.deep_view() == without_repeats(paths, i as int),
        decreases files.len() - i,
    {
        assert(paths[i as int] == files[i as int]@);
        if !contains_path(&kept, &files[i]) {
            let ghost prev = kept.deep_view();
            kept.push(files[i].clone());
            assert(kept.deep_view() == prev.push(paths[i as int]));
        }
        i += 1;
    }
    proof {
        lemma_without_repeats(paths, files.len() as int);
    }
    Ok(ScanDetails { rs_files_used: kept, geiger_context })
}

/// The finder visited the file `path`.
pub open spec fn scanned(findings: Seq<RsFileMetricsView>, path: Seq<char>) -> bool {
    exists|i: int| 0 <= i < findings.len() && (#[trigger] findings[i]).path == path
}

/// Those of the first `k` compiled files that the finder never visited, in
/// their order.
pub open spec fn files_not_scanned(
    findings: Seq<RsFileMetricsView>,
    compiled: Seq<Seq<char>>,
    k: int,
) -> Seq<Seq<char>>
    decreases k,
{
    if k <= 0 {
        Seq::empty()
    } else if scanned(findings, compiled[k - 1]) {
        files_not_scanned(findings, compiled, k - 1)
    } else {
        files_not_scanned(findings, compiled, k - 1).push(compiled[k - 1])
    }
}

/// Whether the finder visited the file `path`.
pub fn is_scanned(geiger_context: &Vec<RsFileMetrics>, path: &String) -> (b: bool)
    ensures
        b == scanned(geiger_context.deep_view(), path@),
{
    let mut i: usize = 0;
    while i < geiger_context.len()
        invariant
            i <= geiger_context.len(),
            forall|j: int| 0 <= j < i ==> (#[trigger] geiger_context.deep_view()[j]).path != path@,
        decreases geiger_context.len() - i,
    {
        if geiger_context[i].path == *path {
            assert(geiger_context.deep_view()[i as int].path == path@);
            return true;
        }
        i += 1;
    }
    false
}

/// The compiled files that the finder never visited, in the order in which
/// they are compiled.
pub fn list_files_used_but_not_scanned(
    geiger_context: &Vec<RsFileMetrics>,
    rs_files_used: &Vec<String>,
) -> (files: Vec<String>)
    ensures
        files.deep_view() == files_not_scanned(
            geiger_context.deep_view(),
            rs_files_used.deep_view(),
            rs_files_used.len() as int,
        ),
{
    let ghost findings = geiger_context.deep_view();
    let ghost compiled = rs_files_used.deep_view();
    let mut files: Vec<String> = Vec::new();
    let mut i: usize = 0;
    while i < rs_files_used.len()
        invariant
            i <= rs_files_used.len(),
            findings == geiger_context.deep_view(),
            compiled == rs_files_used.deep_view(),
            files.deep_view() == files_not_scanned(findings, compiled, i as int),
        decreases rs_files_used.len() - i,
    {
        assert(compiled[i as int] == rs_files_used[i as int]@);
        if !is_scanned(geiger_context, &rs_files_used[i]) {
            let ghost prev = files.deep_view();
            files.push(rs_files_used[i].clone());
            assert(files.deep_view() == prev.push(compiled[i as int]));
        }
        i += 1;
    }
    files
}

/// The entry of the package at `node`, where the files of `compiled` are compiled.
pub open spec fn entry_of(g: GraphView, node: int, compiled: Seq<Seq<char>>) -> ReportEntryView {
    ReportEntryView {
        package: g.package_info(node),
        unsafety: unsafety_of(g.nodes[node].metrics->Some_0, compiled, g.nodes[node].id.name),
    }
}

/// The entries of those of the first `k` nodes that can be reached from
/// `root` and have metrics, in the order of the nodes.
pub open spec fn reported_entries(g: GraphView, root: int, compiled: Seq<Seq<char>>, k: int) -> Seq<
    ReportEntryView,
>
    decreases k,
{
    if k <= 0 {
        Seq::empty()
    } else if g.reachable(root, k - 1) && g.nodes[k - 1].metrics is Some {
        reported_entries(g, root, compiled, k - 1).push(entry_of(g, k - 1, compiled))
    } else {
        reported_entries(g, root, compiled, k - 1)
    }
}

/// The packages of those of the first `k` nodes that can be reached from
/// `root` and have no metrics, in the order of the nodes.
pub open spec fn unreported_packages(g: GraphView, root: int, k: int) -> Seq<PackageIdView>
    decreases k,
{
    if k <= 0 {
        Seq::empty()
    } else if g.reachable(root, k - 1) && g.nodes[k - 1].metrics is None {
        unreported_packages(g, root, k - 1).push(g.nodes[k - 1].id)
    } else {
        unreported_packages(g, root, k - 1)
    }
}

/// The index of the node that stands for the package `id`.
pub open spec fn node_of(g: GraphView, id: PackageIdView) -> int {
    choose|i: int| 0 <= i < g.nodes.len() && (#[trigger] g.nodes[i]).id == id
}

/// The report on the packages that can be reached from the node `root`.
pub open spec fn report_of(g: GraphView, root: int, details: ScanDetailsView) -> SafetyReportView {
    SafetyReportView {
        packages: reported_entries(g, root, details.rs_files_used, g.nodes.len() as int),
        packages_without_metrics: unreported_packages(g, root, g.nodes.len() as int),
        used_but_not_scanned_files: files_not_scanned(
            details.geiger_context,
            details.rs_files_used,
            details.rs_files_used.len() as int,
        ),
    }
}

/// The entries of a prefix of the nodes are those of its nodes that can be
/// reached and have metrics: each such node has one, and each entry is that
/// of such a node.
pub proof fn lemma_reported_entries(g: GraphView, root: int, compiled: Seq<Seq<char>>, k: int)
    requires
        0 <= k <= g.nodes.len(),
    ensures
        forall|i: int|
            0 <= i < k && g.reachable(root, i) && (#[trigger] g.nodes[i]).metrics is Some
                ==> reported_entries(g, root, compiled, k).contains(entry_of(g, i, compiled)),
        forall|j: int|
            #![trigger reported_entries(g, root, compiled, k)[j]]
            0 <= j < reported_entries(g, root, compiled, k).len() ==> exists|i: int|
                0 <= i < k && g.reachable(root, i) && (#[trigger] g.nodes[i]).metrics is Some
                    && reported_entries(g, root, compiled, k)[j] == entry_of(g, i, compiled),
    decreases k,
{
    if k > 0 {
        lemma_reported_entries(g, root, compiled, k - 1);
        let prev = reported_entries(g, root, compiled, k - 1);
        let now = reported_entries(g, root, compiled, k);
        assert forall|i: int|
            0 <= i < k && g.reachable(root, i) && (#[trigger] g.nodes[i]).metrics is Some implies now.contains(
            entry_of(g, i, compiled),
        ) by {
            if i < k - 1 {
                assert(prev.contains(entry_of(g, i, compiled)));
                let j = choose|j: int| 0 <= j < prev.len() && prev[j] == entry_of(g, i, compiled);
                assert(now[j] == entry_of(g, i, compiled));
            } else {
                assert(now[now.len() - 1] == entry_of(g, i, compiled));
            }
        }
        assert forall|j: int| #![trigger now[j]] 0 <= j < now.len() implies exists|i: int|
            0 <= i < k && g.reachable(root, i) && (#[trigger] g.nodes[i]).metrics is Some && now[j]
                == entry_of(g, i, compiled) by {
            if j < prev.len() {
                let i = choose|i: int|
                    0 <= i < k - 1 && g.reachable(root, i) && (#[trigger] g.nodes[i]).metrics is Some
                        && prev[j] == entry_of(g, i, compiled);
                assert(g.nodes[i].metrics is Some && now[j] == entry_of(g, i, compiled));
            } else {
                assert(g.nodes[k - 1].metrics is Some && now[j] == entry_of(g, k - 1, compiled));
            }
        }
    }
}

/// The packages listed as without metrics for a prefix of the nodes are
/// those of its nodes that can be reached and have none.
pub proof fn lemma_unreported_packages(g: GraphView, root: int, k: int)
    requires
        0 <= k <= g.nodes.len(),
    ensures
        forall|i: int|
            0 <= i < k && g.reachable(root, i) && (#[trigger] g.nodes[i]).metrics is None
                ==> unreported_packages(g, root, k).contains(g.nodes[i].id),
        forall|j: int|
            #![trigger unreported_packages(g, root, k)[j]]
            0 <= j < unreported_packages(g, root, k).len() ==> exists|i: int|
                0 <= i < k && g.reachable(root, i) && (#[trigger] g.nodes[i]).metrics is None
                    && unreported_packages(g, root, k)[j] == g.nodes[i].id,
    decreases k,
{
    if k > 0 {
        lemma_unreported_packages(g, root, k - 1);
        let prev = unreported_packages(g, root, k - 1);
        let now = unreported_packages(g, root, k);
        assert forall|i: int|
            0 <= i < k && g.reachable(root, i) && (#[trigger] g.nodes[i]).metrics is None implies now.contains(
            g.nodes[i].id,
        ) by {
            if i < k - 1 {
                assert(prev.contains(g.nodes[i].id));
                let j = choose|j: int| 0 <= j < prev.len() && prev[j] == g.nodes[i].id;
                assert(now[j] == g.nodes[i].id);
            } else {
                assert(now[now.len() - 1] == g.nodes[i].id);
            }
        }
        assert forall|j: int| #![trigger now[j]] 0 <= j < now.len() implies exists|i: int|
            0 <= i < k && g.reachable(root, i) && (#[trigger] g.nodes[i]).metrics is None && now[j]
                == g.nodes[i].id by {
            if j < prev.len() {
                let i = choose|i: int|
                    0 <= i < k - 1 && g.reachable(root, i) && (#[trigger] g.nodes[i]).metrics is None
                        && prev[j] == g.nodes[i].id;
                assert(g.nodes[i].metrics is None && now[j] == g.nodes[i].id);
            } else {
                assert(g.nodes[k - 1].metrics is None && now[j] == g.nodes[k - 1].id);
            }
        }
    }
}

/// The files listed as not scanned for a prefix of the compiled files are
/// those of the prefix that the finder never visited.
pub proof fn lemma_files_not_scanned(
    findings: Seq<RsFileMetricsView>,
    compiled: Seq<Seq<char>>,
    k: int,
)
    requires
        0 <= k <= compiled.len(),
    ensures
        forall|p: Seq<char>|
            #![trigger files_not_scanned(findings, compiled, k).contains(p)]
            files_not_scanned(findings, compiled, k).contains(p) <==> !scanned(findings, p) && exists|
                i: int,
            | 0 <= i < k && #[trigger] compiled[i] == p,
        compiled.no_duplicates() ==> files_not_scanned(findings, compiled, k).no_duplicates(),
    decreases k,
{
    if k > 0 {
        lemma_files_not_scanned(findings, compiled, k - 1);
        let prev = files_not_scanned(findings, compiled, k - 1);
        let now = files_not_scanned(findings, compiled, k);
        assert forall|p: Seq<char>| #![trigger now.contains(p)] now.contains(p) <==> !scanned(findings, p) && exists|i: int|
            0 <= i < k && #[trigger] compiled[i] == p by {
            if now.contains(p) {
                let j = choose|j: int| 0 <= j < now.len() && now[j] == p;
                if j < prev.len() {
                    assert(prev[j] == p);
                    assert(prev.contains(p));
                    let i = choose|i: int| 0 <= i < k - 1 && #[trigger] compiled[i] == p;
                    assert(compiled[i] == p);
                } else {
                    assert(compiled[k - 1] == p);
                }
            }
            if !scanned(findings, p) && exists|i: int| 0 <= i < k && #[trigger] compiled[i] == p {
                let i = choose|i: int| 0 <= i < k && #[trigger] compiled[i] == p;
                if i < k - 1 {
                    assert(prev.contains(p));
                    let j = choose|j: int| 0 <= j < prev.len() && prev[j] == p;
                    assert(now[j] == p);
                } else {
                    assert(now[now.len() - 1] == p);
                }
            }
        }
        if compiled.no_duplicates() && !scanned(findings, compiled[k - 1]) {
            if prev.contains(compiled[k - 1]) {
                let i = choose|i: int| 0 <= i < k - 1 && #[trigger] compiled[i] == compiled[k - 1];
                assert(compiled[i] == compiled[k - 1]);
            }
        }
    }
}

/// Every package that can be reached from the root stands in exactly one of
/// the report's two lists: among the entries where it has metrics, among the
/// packages without metrics where it has none, and never in both.
pub proof fn lemma_reachable_package_is_classified_once(
    g: GraphView,
    root: int,
    details: ScanDetailsView,
    v: int,
)
    requires
        g.distinct_ids(),
        0 <= v < g.nodes.len(),
        g.reachable(root, v),
    ensures
        report_of(g, root, details).has_entry(g.nodes[v].id) == (g.nodes[v].metrics is Some),
        report_of(g, root, details).lacks_metrics(g.nodes[v].id) == (g.nodes[v].metrics is None),
        report_of(g, root, details).has_entry(g.nodes[v].id) != report_of(
            g,
            root,
            details,
        ).lacks_metrics(g.nodes[v].id),
{
    let n = g.nodes.len() as int;
    let report = report_of(g, root, details);
    let id = g.nodes[v].id;
    lemma_reported_entries(g, root, details.rs_files_used, n);
    lemma_unreported_packages(g, root, n);
    if g.nodes[v].metrics is Some {
        let entry = entry_of(g, v, details.rs_files_used);
        assert(report.packages.contains(entry));
        let j = choose|j: int| 0 <= j < report.packages.len() && report.packages[j] == entry;
        assert(report.packages[j].package.id == id);
    }
    if report.has_entry(id) {
        let j = choose|j: int|
            0 <= j < report.packages.len() && (#[trigger] report.packages[j]).package.id == id;
        let i = choose|i: int|
            0 <= i < n && g.reachable(root, i) && (#[trigger] g.nodes[i]).metrics is Some
                && report.packages[j] == entry_of(g, i, details.rs_files_used);
        assert(g.nodes[i].id == g.nodes[v].id);
        assert(i == v);
    }
    if report.lacks_metrics(id) {
        let j = choose|j: int|
            0 <= j < report.packages_without_metrics.len() && report.packages_without_metrics[j]
                == id;
        let i = choose|i: int|
            0 <= i < n && g.reachable(root, i) && (#[trigger] g.nodes[i]).metrics is None
                && report.packages_without_metrics[j] == g.nodes[i].id;
        assert(g.nodes[i].id == g.nodes[v].id);
        assert(i == v);
    }
}

/// The entry that a report holds for a package that can be reached from
/// the root and has metrics is the entry of that package's node.
pub proof fn lemma_entry_of_reachable_package(
    g: GraphView,
    root: int,
    details: ScanDetailsView,
    v: int,
)
    requires
        g.distinct_ids(),
        0 <= v < g.nodes.len(),
        g.reachable(root, v),
        g.nodes[v].metrics is Some,
    ensures
        report_of(g, root, details).entries().dom().contains(g.nodes[v].id),
        report_of(g, root, details).entries()[g.nodes[v].id] == entry_of(
            g,
            v,
            details.rs_files_used,
        ),
{
    let n = g.nodes.len() as int;
    let report = report_of(g, root, details);
    let id = g.nodes[v].id;
    lemma_reachable_package_is_classified_once(g, root, details, v);
    lemma_reported_entries(g, root, details.rs_files_used, n);
    let j = choose|j: int|
        0 <= j < report.packages.len() && (#[trigger] report.packages[j]).package.id == id;
    let i = choose|i: int|
        0 <= i < n && g.reachable(root, i) && (#[trigger] g.nodes[i]).metrics is Some
            && report.packages[j] == entry_of(g, i, details.rs_files_used);
    assert(g.nodes[i].id == g.nodes[v].id);
    assert(i == v);
}

/// The report speaks of no package but those that can be reached from the
/// root.
pub proof fn lemma_reported_package_is_reachable(
    g: GraphView,
    root: int,
    details: ScanDetailsView,
    id: PackageIdView,
)
    requires
        report_of(g, root, details).has_entry(id) || report_of(g, root, details).lacks_metrics(id),
    ensures
        exists|v: int| 0 <= v < g.nodes.len() && g.reachable(root, v) && (#[trigger] g.nodes[v]).id == id,
{
    let n = g.nodes.len() as int;
    let report = report_of(g, root, details);
    lemma_reported_entries(g, root, details.rs_files_used, n);
    lemma_unreported_packages(g, root, n);
    if report.has_entry(id) {
        let j = choose|j: int|
            0 <= j < report.packages.len() && (#[trigger] report.packages[j]).package.id == id;
        let i = choose|i: int|
            0 <= i < n && g.reachable(root, i) && (#[trigger] g.nodes[i]).metrics is Some
                && report.packages[j] == entry_of(g, i, details.rs_files_used);
        assert(g.reachable(root, i) && g.nodes[i].id == id);
    } else {
        let j = choose|j: int|
            0 <= j < report.packages_without_metrics.len() && report.packages_without_metrics[j]
                == id;
        let i = choose|i: int|
            0 <= i < n && g.reachable(root, i) && (#[trigger] g.nodes[i]).metrics is None
                && report.packages_without_metrics[j] == g.nodes[i].id;
        assert(g.reachable(root, i) && g.nodes[i].id == id);
    }
}

/// A file is listed as used but not scanned exactly where it is compiled and
/// the finder never visited it: each such file is compiled, and none is one
/// that the finder saw.
pub proof fn lemma_orphan_files(g: GraphView, root: int, details: ScanDetailsView, path: Seq<char>)
    ensures
        report_of(g, root, details).used_but_not_scanned_files.contains(path) <==> (
        details.rs_files_used.contains(path) && !scanned(details.geiger_context, path)),
{
    lemma_files_not_scanned(
        details.geiger_context,
        details.rs_files_used,
        details.rs_files_used.len() as int,
    );
    if details.rs_files_used.contains(path) {
        let i = choose|i: int| 0 <= i < details.rs_files_used.len() && details.rs_files_used[i] == path;
        assert(details.rs_files_used[i] == path);
    }
}

/// The graph `g` with `files` as the metrics of the package at `node`.
pub open spec fn with_metrics(g: GraphView, node: int, files: Seq<RsFileMetricsView>) -> GraphView {
    GraphView {
        nodes: g.nodes.update(
            node,
            NodeView { id: g.nodes[node].id, edges: g.nodes[node].edges, metrics: Some(files) },
        ),
    }
}

proof fn lemma_dependencies_ignore_metrics(
    g: GraphView,
    node: int,
    files: Seq<RsFileMetricsView>,
    at: int,
    kind: DependencyKind,
    k: int,
)
    requires
        g.edges_in_range(),
        0 <= node < g.nodes.len(),
        0 <= at < g.nodes.len(),
        0 <= k <= g.nodes[at].edges.len(),
    ensures
        with_metrics(g, node, files).dependencies(at, kind, k) == g.dependencies(at, kind, k),
    decreases k,
{
    if k > 0 {
        lemma_dependencies_ignore_metrics(g, node, files, at, kind, k - 1);
        let changed = with_metrics(g, node, files);
        assert(changed.nodes[at].edges == g.nodes[at].edges);
        let target = g.nodes[at].edges[k - 1].target as int;
        assert(0 <= target < g.nodes.len());
        assert(changed.nodes[target].id == g.nodes[target].id);
    }
}

/// The entry of a package does not change with what is known of a file
/// that is not compiled: with other metrics that name the same files in
/// the same order and agree on every compiled one, the entry is the same.
pub proof fn lemma_entry_ignores_uncompiled_files(
    g: GraphView,
    node: int,
    others: Seq<RsFileMetricsView>,
    compiled: Seq<Seq<char>>,
)
    requires
        g.edges_in_range(),
        0 <= node < g.nodes.len(),
        g.nodes[node].metrics is Some,
        g.nodes[node].metrics->Some_0.len() == others.len(),
        forall|i: int|
            0 <= i < others.len() ==> (#[trigger] g.nodes[node].metrics->Some_0[i]).path
                == others[i].path,
        forall|i: int|
            0 <= i < others.len() && compiled.contains(
                (#[trigger] g.nodes[node].metrics->Some_0[i]).path,
            ) ==> g.nodes[node].metrics->Some_0[i] == others[i],
    ensures
        entry_of(with_metrics(g, node, others), node, compiled) == entry_of(g, node, compiled),
{
    let edges = g.nodes[node].edges.len() as int;
    lemma_dependencies_ignore_metrics(g, node, others, node, DependencyKind::Normal, edges);
    lemma_dependencies_ignore_metrics(g, node, others, node, DependencyKind::Development, edges);
    lemma_dependencies_ignore_metrics(g, node, others, node, DependencyKind::Build, edges);
    lemma_unsafety_ignores_uncompiled_files(
        g.nodes[node].metrics->Some_0,
        others,
        compiled,
        g.nodes[node].id.name,
    );
}

proof fn lemma_entries_depend_on_compiled_set(
    g: GraphView,
    root: int,
    compiled: Seq<Seq<char>>,
    other: Seq<Seq<char>>,
    k: int,
)
    requires
        forall|path: Seq<char>| compiled.contains(path) <==> other.contains(path),
    ensures
        reported_entries(g, root, compiled, k) == reported_entries(g, root, other, k),
    decreases k,
{
    if k > 0 {
        lemma_entries_depend_on_compiled_set(g, root, compiled, other, k - 1);
        if g.nodes[k - 1].metrics is Some {
            lemma_unsafety_depends_on_compiled_set(
                g.nodes[k - 1].metrics->Some_0,
                compiled,
                other,
                g.nodes[k - 1].id.name,
            );
        }
    }
}

/// The report depends on which files are compiled and which the finder
/// visited, not on the order in which either are listed: two scans that
/// agree on both sets have the same entries and the same packages without
/// metrics, and list the same files as not scanned.
pub proof fn lemma_report_depends_on_sets(
    g: GraphView,
    root: int,
    details: ScanDetailsView,
    other: ScanDetailsView,
)
    requires
        forall|path: Seq<char>|
            details.rs_files_used.contains(path) <==> other.rs_files_used.contains(path),
        forall|path: Seq<char>|
            scanned(details.geiger_context, path) <==> scanned(other.geiger_context, path),
    ensures
        report_of(g, root, details).packages == report_of(g, root, other).packages,
        report_of(g, root, details).packages_without_metrics == report_of(
            g,
            root,
            other,
        ).packages_without_metrics,
        forall|path: Seq<char>|
            report_of(g, root, details).used_but_not_scanned_files.contains(path) <==> report_of(
                g,
                root,
                other,
            ).used_but_not_scanned_files.contains(path),
{
    lemma_entries_depend_on_compiled_set(
        g,
        root,
        details.rs_files_used,
        other.rs_files_used,
        g.nodes.len() as int,
    );
    assert forall|path: Seq<char>|
        report_of(g, root, details).used_but_not_scanned_files.contains(path) <==> report_of(
            g,
            root,
            other,
        ).used_but_not_scanned_files.contains(path) by {
        lemma_orphan_files(g, root, details, path);
        lemma_orphan_files(g, root, other, path);
    }
}

/// The lists of a report hold nothing twice: no package has two entries,
/// none is listed twice as without metrics, and, where the compiled files
/// hold no file twice, neither do the files that were not scanned.
pub proof fn lemma_report_is_well_formed(g: GraphView, root: int, details: ScanDetailsView)
    requires
        g.distinct_ids(),
        details.rs_files_used.no_duplicates(),
    ensures
        report_of(g, root, details).well_formed(),
{
    let n = g.nodes.len() as int;
    lemma_files_not_scanned(
        details.geiger_context,
        details.rs_files_used,
        details.rs_files_used.len() as int,
    );
    lemma_entries_are_distinct(g, root, details.rs_files_used, n);
    lemma_reported_entries(g, root, details.rs_files_used, n);
    let report = report_of(g, root, details);
    assert forall|j: int| 0 <= j < report.packages.len() implies (
    #[trigger] report.packages[j]).package.well_formed() by {
        let i = choose|i: int|
            0 <= i < n && g.reachable(root, i) && (#[trigger] g.nodes[i]).metrics is Some
                && report.packages[j] == entry_of(g, i, details.rs_files_used);
        let edges = g.nodes[i].edges.len() as int;
        lemma_dependencies_are_distinct(g, i, DependencyKind::Normal, edges);
        lemma_dependencies_are_distinct(g, i, DependencyKind::Development, edges);
        lemma_dependencies_are_distinct(g, i, DependencyKind::Build, edges);
    }
}

/// Neither list of packages over a prefix of the nodes holds a package twice.
proof fn lemma_entries_are_distinct(g: GraphView, root: int, compiled: Seq<Seq<char>>, k: int)
    requires
        g.distinct_ids(),
        0 <= k <= g.nodes.len(),
    ensures
        forall|a: int, b: int|
            0 <= a < b < reported_entries(g, root, compiled, k).len() ==> (
            #[trigger] reported_entries(g, root, compiled, k)[a]).package.id != (
            #[trigger] reported_entries(g, root, compiled, k)[b]).package.id,
        unreported_packages(g, root, k).no_duplicates(),
    decreases k,
{
    if k > 0 {
        lemma_entries_are_distinct(g, root, compiled, k - 1);
        lemma_reported_entries(g, root, compiled, k - 1);
        lemma_unreported_packages(g, root, k - 1);
        let prev = reported_entries(g, root, compiled, k - 1);
        let now = reported_entries(g, root, compiled, k);
        assert forall|a: int, b: int| 0 <= a < b < now.len() implies (#[trigger] now[a]).package.id != (
        #[trigger] now[b]).package.id by {
            if b >= prev.len() {
                let i = choose|i: int|
                    0 <= i < k - 1 && g.reachable(root, i) && (#[trigger] g.nodes[i]).metrics is Some
                        && prev[a] == entry_of(g, i, compiled);
                assert(g.nodes[i].id != g.nodes[k - 1].id);
            }
        }
        let before = unreported_packages(g, root, k - 1);
        let after = unreported_packages(g, root, k);
        assert forall|a: int, b: int| 0 <= a < after.len() && 0 <= b < after.len() && a != b implies after[a]
            != after[b] by {
            let (x, y) = if a < b {
                (a, b)
            } else {
                (b, a)
            };
            if y >= before.len() {
                let i = choose|i: int|
                    0 <= i < k - 1 && g.reachable(root, i) && (#[trigger] g.nodes[i]).metrics is None
                        && before[x] == g.nodes[i].id;
                assert(g.nodes[i].id != g.nodes[k - 1].id);
            }
        }
    }
}

/// Builds the safety report of the packages that can be reached from
/// `root_package_id`.
///
/// Each such package is classified once, in the order of the graph's nodes:
/// with metrics it gets an entry, whose summary counts as used the files
/// that are compiled; without, it is listed as such. The compiled files that
/// the finder never visited are listed last.
pub fn scan_to_report(graph: &Graph, root_package_id: &PackageId, details: &ScanDetails) -> (report:
    SafetyReport)
    requires
        graph.deep_view().well_formed(),
        graph.deep_view().contains_id(root_package_id.deep_view()),
    ensures
        report.deep_view() == report_of(
            graph.deep_view(),
            node_of(graph.deep_view(), root_package_id.deep_view()),
            details.deep_view(),
        ),
        details.deep_view().rs_files_used.no_duplicates() ==> report.deep_view().well_formed(),
{
    proof {
        if details.deep_view().rs_files_used.no_duplicates() {
            lemma_report_is_well_formed(
                graph.deep_view(),
                node_of(graph.deep_view(), root_package_id.deep_view()),
                details.deep_view(),
            );
        }
    }
    let ghost g = graph.deep_view();
    let ghost compiled = details.rs_files_used.deep_view();
    let root = graph.index_of(root_package_id).unwrap();
    assert(root as int == node_of(g, root_package_id.deep_view())) by {
        let other = node_of(g, root_package_id.deep_view());
        assert(g.nodes[other].id == g.nodes[root as int].id);
    }
    let reached = graph.reachable_from(root);
    let mut packages: Vec<ReportEntry> = Vec::new();
    let mut packages_without_metrics: Vec<PackageId> = Vec::new();
    let mut i: usize = 0;
    while i < graph.nodes.len()
        invariant
            i <= graph.nodes.len(),
            g == graph.deep_view(),
            g.well_formed(),
            compiled == details.rs_files_used.deep_view(),
            reached.len() == graph.nodes.len(),
            forall|v: int| 0 <= v < reached.len() ==> reached[v] == g.reachable(root as int, v),
            packages.deep_view() == reported_entries(g, root as int, compiled, i as int),
            packages_without_metrics.deep_view() == unreported_packages(g, root as int, i as int),
        decreases graph.nodes.len() - i,
    {
        let node = &graph.nodes[i];
        assert(g.nodes[i as int] == node.deep_view());
        if reached[i] {
            match &node.metrics {
                MetricsLookup::Present(metrics) => {
                    let entry = ReportEntry {
                        package: graph.package_info(i),
                        unsafety: unsafe_stats(metrics, &details.rs_files_used, &node.id.name),
                    };
                    let ghost prev = packages.deep_view();
                    packages.push(entry);
                    assert(packages.deep_view() == prev.push(entry_of(g, i as int, compiled)));
                },
                MetricsLookup::Absent => {
                    let ghost prev = packages_without_metrics.deep_view();
                    packages_without_metrics.push(node.id.clone());
                    assert(packages_without_metrics.deep_view() == prev.push(g.nodes[i as int].id));
                },
            }
        }
        i += 1;
    }
    SafetyReport {
        packages,
        packages_without_metrics,
        used_but_not_scanned_files: list_files_used_but_not_scanned(
            &details.geiger_context,
            &details.rs_files_used,
        ),
    }
}

} // verus!
