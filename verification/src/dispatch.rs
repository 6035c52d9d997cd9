//! The scan as a sequence of steps: which output is produced, in what order
//! the outside work is asked for, and where a failure ends it.
use vstd::prelude::*;
use crate::config::{build_compile_options, FeaturesArgs, ScanConfig, ScanConfigView};
use crate::graph::Graph;
use crate::json::{document, on_one_line, quoted_report, to_json};
use crate::log::{has_file_name, log_unsafe_functions, logs_of, path_file_name, UnsafeFunctionLogs};
use crate::metrics::RsFileMetrics;
use crate::report::{PackageId, SafetyReport};
use crate::scan::{node_of, report_of, scan, scan_to_report, without_repeats, ScanDetailsView, ScanError, ScanMode};

verus! {

/// The formats in which a report can be written down.
#[derive(Clone, Copy, Debug, PartialEq, Eq, Structural)]
pub enum OutputFormat {
    Json,
}

/// The two outputs of a scan. One invocation produces one of them.
#[derive(Clone, Copy, Debug, PartialEq, Eq, Structural)]
pub enum OutputMode {
    /// A report is built and written down in the given format.
    StructuredReport(OutputFormat),
    /// The table renderer does all the work; no report is built.
    InteractiveTable,
}

/// What was asked for on the command line.
#[derive(Debug, PartialEq, Eq)]
pub struct ScanRequest {
    /// The format of the report; without one, a table is rendered.
    pub output_format: Option<OutputFormat>,
    /// Where the logs of unsafe functions go, if they are wanted.
    pub unsafe_fn_log: Option<String>,
    pub features_args: FeaturesArgs,
}

impl ScanRequest {
    /// Which of the two outputs the request selects.
    pub fn output_mode(&self) -> (mode: OutputMode)
        ensures
            mode == match self.output_format {
                Some(format) => OutputMode::StructuredReport(format),
                None => OutputMode::InteractiveTable,
            },
    {
        match self.output_format {
            Some(format) => OutputMode::StructuredReport(format),
            None => OutputMode::InteractiveTable,
        }
    }
}

/// How far a scan has come.
#[derive(Debug, PartialEq, Eq)]
pub enum Stage {
    /// Nothing was done yet.
    Start,
    /// The resolver was asked for the compiled files.
    Resolving(OutputFormat),
    /// The resolver has answered with these files, and the finder was asked
    /// for its findings.
    Finding(OutputFormat, Vec<String>),
    /// The report is built and its document was handed out to be printed.
    Printing(SafetyReport),
    /// The logs of unsafe functions were handed out to be written.
    Logging,
    /// The scan is over.
    Done,
}

impl Stage {
    /// The place of the stage in the order of a scan.
    pub open spec fn rank(self) -> int {
        match self {
            Stage::Start => 0,
            Stage::Resolving(_) => 1,
            Stage::Finding(_, _) => 2,
            Stage::Printing(_) => 3,
            Stage::Logging => 4,
            Stage::Done => 5,
        }
    }

    /// `event` is what the stage waits for.
    pub open spec fn accepts(self, event: Event) -> bool {
        match self {
            Stage::Start => event is Begin,
            Stage::Resolving(_) => event is Resolved,
            Stage::Finding(_, _) => event is Found,
            Stage::Printing(_) => event is Written,
            Stage::Logging => event is Written,
            Stage::Done => false,
        }
    }

    /// The step from this stage on `event` builds a report, and so reads
    /// the graph: the finder has answered.
    pub open spec fn builds_report(self, event: Event) -> bool {
        &&& self is Finding
        &&& event matches Event::Found { geiger_context }
        &&& geiger_context is Some
    }

    /// The step from this stage on `event` names the logs after the log
    /// path of `request`.
    pub open spec fn names_logs(self, event: Event, request: &ScanRequest) -> bool {
        &&& self is Printing
        &&& event matches Event::Written { ok }
        &&& ok
        &&& request.unsafe_fn_log is Some
    }
}

/// What happened outside since the last step.
#[derive(Debug, PartialEq, Eq)]
pub enum Event {
    /// The command was started.
    Begin,
    /// The resolver has answered, with `None` where it failed.
    Resolved { rs_files_used: Option<Vec<String>> },
    /// The finder has answered, with `None` where it failed.
    Found { geiger_context: Option<Vec<RsFileMetrics>> },
    /// The output that was handed out last was written, or could not be.
    Written { ok: bool },
}

/// What is to be done outside next. Each action is done once.
#[derive(Debug, PartialEq, Eq)]
pub enum Action {
    /// Resolve the files that are compiled under `config`.
    ResolveFiles { config: ScanConfig },
    /// Let the finder visit the workspace in the mode `mode`.
    FindUnsafe { mode: ScanMode },
    /// Write `line` to the standard output.
    Print { line: String },
    /// Write the two logs.
    WriteLogs(UnsafeFunctionLogs),
    /// Leave the rest to the table renderer: its outcome is the command's.
    RenderTable,
    /// End the command with this outcome.
    Stop(Result<(), ScanError>),
}

/// The step that starts a scan leads to `next` and `action`.
pub open spec fn begins(request: &ScanRequest, next: Stage, action: Action) -> bool {
    match request.output_format {
        Some(format) => {
            &&& next == Stage::Resolving(format)
            &&& action matches Action::ResolveFiles { config }
            &&& config.deep_view() == (ScanConfigView {
                features: request.features_args.features.deep_view(),
                all_features: request.features_args.all_features,
                no_default_features: request.features_args.no_default_features,
            })
        },
        None => next is Done && action is RenderTable,
    }
}

/// The step that takes the resolver's answer leads to `next` and `action`:
/// the finder is asked only where the resolver has succeeded, and then for
/// the whole workspace.
pub open spec fn resolves(
    format: OutputFormat,
    rs_files_used: Option<Vec<String>>,
    next: Stage,
    action: Action,
) -> bool {
    match rs_files_used {
        Some(files) => {
            &&& next matches Stage::Finding(kept_format, kept)
            &&& kept_format == format
            &&& kept.deep_view() == files.deep_view()
            &&& action == (Action::FindUnsafe { mode: ScanMode::Full })
        },
        None => next is Done && action == Action::Stop(Err(ScanError::ResolutionError)),
    }
}

/// The step that takes the finder's answer leads to `next` and `action`:
/// where the finder has succeeded, the report is built and its document
/// handed out as one line.
pub open spec fn aggregates(
    graph: &Graph,
    root_package_id: &PackageId,
    rs_files_used: Vec<String>,
    geiger_context: Option<Vec<RsFileMetrics>>,
    next: Stage,
    action: Action,
) -> bool {
    match geiger_context {
        Some(context) => {
            let details = ScanDetailsView {
                rs_files_used: without_repeats(
                    rs_files_used.deep_view(),
                    rs_files_used.len() as int,
                ),
                geiger_context: context.deep_view(),
            };
            let report = report_of(
                graph.deep_view(),
                node_of(graph.deep_view(), root_package_id.deep_view()),
                details,
            );
            &&& next matches Stage::Printing(built)
            &&& built.deep_view() == report
            &&& action matches Action::Print { line }
            &&& line@ == document(quoted_report(report)) + "\n"@
            &&& on_one_line(document(quoted_report(report)))
        },
        None => next is Done && action == Action::Stop(Err(ScanError::FinderError)),
    }
}

/// The step after the report's line was printed, or could not be, leads to
/// `next` and `action`.
pub open spec fn printed(
    request: &ScanRequest,
    report: SafetyReport,
    ok: bool,
    next: Stage,
    action: Action,
) -> bool {
    if !ok {
        next is Done && action == Action::Stop(Err(ScanError::IOError))
    } else {
        match request.unsafe_fn_log {
            None => next is Done && action == Action::Stop(Ok(())),
            Some(path) => {
                &&& next is Logging
                &&& action matches Action::WriteLogs(logs)
                &&& logs_of(logs, path@, report)
            },
        }
    }
}

/// The step after the logs were written, or could not be, leads to `next`
/// and `action`.
pub open spec fn logged(ok: bool, next: Stage, action: Action) -> bool {
    &&& next is Done
    &&& action == Action::Stop(
        if ok {
            Ok(())
        } else {
            Err(ScanError::IOError)
        },
    )
}

/// The step from `stage` on `event` leads to `next` and `action`.
pub open spec fn steps(
    stage: Stage,
    event: Event,
    request: &ScanRequest,
    graph: &Graph,
    root_package_id: &PackageId,
    next: Stage,
    action: Action,
) -> bool {
    match (stage, event) {
        (Stage::Start, Event::Begin) => begins(request, next, action),
        (Stage::Resolving(format), Event::Resolved { rs_files_used }) => resolves(
            format,
            rs_files_used,
            next,
            action,
        ),
        (Stage::Finding(_, rs_files_used), Event::Found { geiger_context }) => aggregates(
            graph,
            root_package_id,
            rs_files_used,
            geiger_context,
            next,
            action,
        ),
        (Stage::Printing(report), Event::Written { ok }) => printed(request, report, ok, next, action),
        (Stage::Logging, Event::Written { ok }) => logged(ok, next, action),
        _ => false,
    }
}

/// What a scan prints is determined by what it is given. Take two scans
/// whose graphs, roots, compiled files and findings denote the same: then
/// they build the same report and print the same line, byte for byte.
pub proof fn lemma_same_scan_same_line(
    graph: &Graph,
    root_package_id: &PackageId,
    rs_files_used: Vec<String>,
    geiger_context: Option<Vec<RsFileMetrics>>,
    first: (Stage, Action),
    again_graph: &Graph,
    again_root_package_id: &PackageId,
    again_rs_files_used: Vec<String>,
    again_geiger_context: Option<Vec<RsFileMetrics>>,
    second: (Stage, Action),
)
    requires
        graph.deep_view() == again_graph.deep_view(),
        root_package_id.deep_view() == again_root_package_id.deep_view(),
        rs_files_used.deep_view() == again_rs_files_used.deep_view(),
        geiger_context is Some,
        again_geiger_context is Some,
        geiger_context->Some_0.deep_view() == again_geiger_context->Some_0.deep_view(),
        aggregates(graph, root_package_id, rs_files_used, geiger_context, first.0, first.1),
        aggregates(
            again_graph,
            again_root_package_id,
            again_rs_files_used,
            again_geiger_context,
            second.0,
            second.1,
        ),
    ensures
        first.0 is Printing,
        second.0 is Printing,
        first.0->Printing_0.deep_view() == second.0->Printing_0.deep_view(),
        first.1 is Print,
        second.1 is Print,
        first.1->line@ == second.1->line@,
        vstd::utf8::encode_utf8(first.1->line@) == vstd::utf8::encode_utf8(second.1->line@),
{
    assert(rs_files_used.len() == rs_files_used.deep_view().len());
    assert(again_rs_files_used.len() == again_rs_files_used.deep_view().len());
}

/// One step of a scan: from the stage it has come to and what happened
/// outside, to the next stage and what is to be done outside next.
///
/// A request without a format is left to the table renderer at once. With
/// one, the resolver is asked for the compiled files; where it has
/// succeeded the finder is asked for its findings; where that has
/// succeeded too the report is built and handed out as one line; and where
/// a log was asked for and the line was printed, the two logs follow. Each
/// action is handed out once, the first failure ends the scan, and no
/// stage is entered twice.
///
/// The graph and the root are read by one step only, the one that builds
/// the report: there the graph has to be well formed and hold the root.
/// The step that names the logs needs a log path that names a file.
pub fn scan_unsafe(
    stage: Stage,
    event: Event,
    request: &ScanRequest,
    graph: &Graph,
    root_package_id: &PackageId,
) -> (r: (Stage, Action))
    requires
        stage.accepts(event),
        stage.builds_report(event) ==> graph.deep_view().well_formed(),
        stage.builds_report(event) ==> graph.deep_view().contains_id(root_package_id.deep_view()),
        stage.names_logs(event, request) ==> path_file_name(request.unsafe_fn_log->Some_0@) is Some,
    ensures
        r.0.rank() > stage.rank(),
        r.1 is Stop ==> r.0 is Done,
        steps(stage, event, request, graph, root_package_id, r.0, r.1),
{
    match (stage, event) {
        (Stage::Start, Event::Begin) => match request.output_mode() {
            OutputMode::StructuredReport(format) => (
                Stage::Resolving(format),
                Action::ResolveFiles { config: build_compile_options(&request.features_args) },
            ),
            OutputMode::InteractiveTable => (Stage::Done, Action::RenderTable),
        },
        (Stage::Resolving(format), Event::Resolved { rs_files_used }) => match rs_files_used {
            Some(files) => (Stage::Finding(format, files), Action::FindUnsafe { mode: ScanMode::Full }),
            None => (Stage::Done, Action::Stop(Err(ScanError::ResolutionError))),
        },
        (Stage::Finding(format, rs_files_used), Event::Found { geiger_context }) => {
            match scan(Some(rs_files_used), geiger_context) {
                Ok(details) => {
                    let report = scan_to_report(graph, root_package_id, &details);
                    let written = match format {
                        OutputFormat::Json => to_json(&report),
                    };
                    match written {
                        Ok(text) => {
                            let mut line = text;
                            line.append("\n");
                            (Stage::Printing(report), Action::Print { line })
                        },
                        Err(e) => (Stage::Done, Action::Stop(Err(e))),
                    }
                },
                Err(e) => (Stage::Done, Action::Stop(Err(e))),
            }
        },
        (Stage::Printing(report), Event::Written { ok }) => {
            if !ok {
                (Stage::Done, Action::Stop(Err(ScanError::IOError)))
            } else {
                match &request.unsafe_fn_log {
                    Some(path) => (
                        Stage::Logging,
                        Action::WriteLogs(log_unsafe_functions(path.as_str(), &report)),
                    ),
                    None => (Stage::Done, Action::Stop(Ok(()))),
                }
            }
        },
        (Stage::Logging, Event::Written { ok }) => {
            if ok {
                (Stage::Done, Action::Stop(Ok(())))
            } else {
                (Stage::Done, Action::Stop(Err(ScanError::IOError)))
            }
        },
        _ => vstd::pervasive::unreached(),
    }
}

/// As `scan_unsafe`, for any log path: `None` where the step would name the
/// logs and the log path of `request` names no file.
pub fn try_scan_unsafe(
    stage: Stage,
    event: Event,
    request: &ScanRequest,
    graph: &Graph,
    root_package_id: &PackageId,
) -> (r: Option<(Stage, Action)>)
    requires
        stage.accepts(event),
        stage.builds_report(event) ==> graph.deep_view().well_formed(),
        stage.builds_report(event) ==> graph.deep_view().contains_id(root_package_id.deep_view()),
    ensures
        match r {
            Some(step) => {
                &&& stage.names_logs(event, request) ==> path_file_name(
                    request.unsafe_fn_log->Some_0@,
                ) is Some
                &&& step.0.rank() > stage.rank()
                &&& step.1 is Stop ==> step.0 is Done
                &&& steps(stage, event, request, graph, root_package_id, step.0, step.1)
            },
            None => stage.names_logs(event, request) && path_file_name(
                request.unsafe_fn_log->Some_0@,
            ) is None,
        },
{
    let names_logs = match (&stage, &event) {
        (Stage::Printing(_), Event::Written { ok }) => *ok && request.unsafe_fn_log.is_some(),
        _ => false,
    };
    if names_logs {
        match &request.unsafe_fn_log {
            Some(path) => {
                if !has_file_name(path.as_str()) {
                    return None;
                }
            },
            None => {},
        }
    }
    Some(scan_unsafe(stage, event, request, graph, root_package_id))
}

} // verus!
