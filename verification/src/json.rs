//! The report as one line of JSON.
//!
//! A report is written down in two steps. First every text in it is turned
//! into a JSON string, quotes and escapes included; then the document is
//! laid out around those strings.
use vstd::prelude::*;
use crate::report::{
    BlockSum, Count, CountSum, CounterBlock, PackageId, PackageIdView, PackageInfo, PackageInfoView,
    ReportEntry, ReportEntryView, SafetyReport, SafetyReportView, Source, SourceView, UnsafeFunction,
    UnsafeFunctionView, UnsafeInfo, UnsafeInfoView,
};
use crate::scan::ScanError;

verus! {

#[verifier::external_type_specification]
#[verifier::external_body]
pub struct ExJsonError(serde_json::Error);

/// The JSON string that `serde_json` writes for `text`: the text between
/// quotes, with what JSON cannot hold as it is escaped.
pub uninterp spec fn json_string(text: Seq<char>) -> Seq<char>;

/// The text holds no line end.
pub open spec fn on_one_line(text: Seq<char>) -> bool {
    forall|i: int| 0 <= i < text.len() ==> text[i] != '\n'
}

/// `text` as a JSON string.
///
/// Calls `serde_json::to_string` on the text. Three things are claimed of
/// it. The call succeeds: a text is written into a buffer in memory, which
/// takes whatever it is given. Its answer is `json_string` of the text: the
/// same text gives the same string. And the string holds no line end: a
/// line end in the text is written as the escape `\n`, as every control
/// character is escaped.
#[verifier::external_body]
fn to_json_string(text: &str) -> (r: Result<String, serde_json::Error>)
    ensures
        r is Ok,
        r matches Ok(quoted) ==> quoted@ == json_string(text@),
        r matches Ok(quoted) ==> on_one_line(quoted@),
{
    serde_json::to_string(text)
}

/// `text` as a JSON string. The error is that of a document that cannot be
/// written; no text gives it.
pub fn quote(text: &str) -> (r: Result<String, ScanError>)
    ensures
        r matches Ok(quoted) && quoted@ == json_string(text@) && on_one_line(quoted@),
{
    match to_json_string(text) {
        Ok(quoted) => Ok(quoted),
        Err(_) => Err(ScanError::SerializationError),
    }
}

/// Each of `texts` as a JSON string.
pub open spec fn quoted_texts(texts: Seq<Seq<char>>) -> Seq<Seq<char>> {
    Seq::new(texts.len(), |i: int| json_string(texts[i]))
}

/// The source with each of its texts as a JSON string.
pub open spec fn quoted_source(source: SourceView) -> SourceView {
    match source {
        SourceView::Git { url, rev } => SourceView::Git {
            url: json_string(url),
            rev: json_string(rev),
        },
        SourceView::Registry { name, url } => SourceView::Registry {
            name: json_string(name),
            url: json_string(url),
        },
        SourceView::Path(url) => SourceView::Path(json_string(url)),
    }
}

/// The identifier with each of its texts as a JSON string.
pub open spec fn quoted_id(id: PackageIdView) -> PackageIdView {
    PackageIdView {
        name: json_string(id.name),
        version: json_string(id.version),
        source: quoted_source(id.source),
    }
}

/// Each of `ids` with its texts as JSON strings.
pub open spec fn quoted_ids(ids: Seq<PackageIdView>) -> Seq<PackageIdView> {
    Seq::new(ids.len(), |i: int| quoted_id(ids[i]))
}

/// The package and its dependencies with their texts as JSON strings.
pub open spec fn quoted_info(info: PackageInfoView) -> PackageInfoView {
    PackageInfoView {
        id: quoted_id(info.id),
        dependencies: quoted_ids(info.dependencies),
        dev_dependencies: quoted_ids(info.dev_dependencies),
        build_dependencies: quoted_ids(info.build_dependencies),
    }
}

/// The function with both of its names as JSON strings.
pub open spec fn quoted_function(function: UnsafeFunctionView) -> UnsafeFunctionView {
    UnsafeFunctionView {
        package: json_string(function.package),
        function: json_string(function.function),
    }
}

/// Each of `functions` with its names as JSON strings.
pub open spec fn quoted_functions(functions: Seq<UnsafeFunctionView>) -> Seq<UnsafeFunctionView> {
    Seq::new(functions.len(), |i: int| quoted_function(functions[i]))
}

/// The summary with the names in its two lists of functions as JSON
/// strings.
pub open spec fn quoted_unsafety(unsafety: UnsafeInfoView) -> UnsafeInfoView {
    UnsafeInfoView {
        used: unsafety.used,
        forbids_unsafe: unsafety.forbids_unsafe,
        declared_unsafe_functions: quoted_functions(unsafety.declared_unsafe_functions),
        contains_unsafe_functions: quoted_functions(unsafety.contains_unsafe_functions),
    }
}

/// The entry with every text in it as a JSON string.
pub open spec fn quoted_entry(entry: ReportEntryView) -> ReportEntryView {
    ReportEntryView {
        package: quoted_info(entry.package),
        unsafety: quoted_unsafety(entry.unsafety),
    }
}

/// Each of `entries` with every text in it as a JSON string.
pub open spec fn quoted_entries(entries: Seq<ReportEntryView>) -> Seq<ReportEntryView> {
    Seq::new(entries.len(), |i: int| quoted_entry(entries[i]))
}

/// The report with every text in it as a JSON string. Numbers and flags
/// stay as they are.
pub open spec fn quoted_report(report: SafetyReportView) -> SafetyReportView {
    SafetyReportView {
        packages: quoted_entries(report.packages),
        packages_without_metrics: quoted_ids(report.packages_without_metrics),
        used_but_not_scanned_files: quoted_texts(report.used_but_not_scanned_files),
    }
}

/// None of `texts` holds a line end.
pub open spec fn texts_on_one_line(texts: Seq<Seq<char>>) -> bool {
    forall|i: int| 0 <= i < texts.len() ==> on_one_line(#[trigger] texts[i])
}

/// No text of the source holds a line end.
pub open spec fn source_on_one_line(source: SourceView) -> bool {
    match source {
        SourceView::Git { url, rev } => on_one_line(url) && on_one_line(rev),
        SourceView::Registry { name, url } => on_one_line(name) && on_one_line(url),
        SourceView::Path(url) => on_one_line(url),
    }
}

/// No text of the identifier holds a line end.
pub open spec fn id_on_one_line(id: PackageIdView) -> bool {
    on_one_line(id.name) && on_one_line(id.version) && source_on_one_line(id.source)
}

/// No text of any of `ids` holds a line end.
pub open spec fn ids_on_one_line(ids: Seq<PackageIdView>) -> bool {
    forall|i: int| 0 <= i < ids.len() ==> id_on_one_line(#[trigger] ids[i])
}

/// No text of the package or of its dependencies holds a line end.
pub open spec fn info_on_one_line(info: PackageInfoView) -> bool {
    &&& id_on_one_line(info.id)
    &&& ids_on_one_line(info.dependencies)
    &&& ids_on_one_line(info.dev_dependencies)
    &&& ids_on_one_line(info.build_dependencies)
}

/// Neither name of the function holds a line end.
pub open spec fn function_on_one_line(function: UnsafeFunctionView) -> bool {
    on_one_line(function.package) && on_one_line(function.function)
}

/// No name of any of `functions` holds a line end.
pub open spec fn functions_on_one_line(functions: Seq<UnsafeFunctionView>) -> bool {
    forall|i: int| 0 <= i < functions.len() ==> function_on_one_line(#[trigger] functions[i])
}

/// No text of the entry holds a line end.
pub open spec fn entry_on_one_line(entry: ReportEntryView) -> bool {
    &&& info_on_one_line(entry.package)
    &&& functions_on_one_line(entry.unsafety.declared_unsafe_functions)
    &&& functions_on_one_line(entry.unsafety.contains_unsafe_functions)
}

/// No text of any of `entries` holds a line end.
pub open spec fn entries_on_one_line(entries: Seq<ReportEntryView>) -> bool {
    forall|i: int| 0 <= i < entries.len() ==> entry_on_one_line(#[trigger] entries[i])
}

/// No text of the report holds a line end.
pub open spec fn report_on_one_line(report: SafetyReportView) -> bool {
    &&& entries_on_one_line(report.packages)
    &&& ids_on_one_line(report.packages_without_metrics)
    &&& texts_on_one_line(report.used_but_not_scanned_files)
}

fn quote_texts(texts: &Vec<String>) -> (r: Result<Vec<String>, ScanError>)
    ensures
        r matches Ok(quoted) && quoted.deep_view() == quoted_texts(texts.deep_view()),
        r matches Ok(quoted) ==> texts_on_one_line(quoted.deep_view()),
{
    let mut quoted: Vec<String> = Vec::new();
    let mut i: usize = 0;
    while i < texts.len()
        invariant
            i <= texts.len(),
            quoted.deep_view() == quoted_texts(texts.deep_view()).take(i as int),
            texts_on_one_line(quoted.deep_view()),
        decreases texts.len() - i,
    {
        let ghost prev = quoted.deep_view();
        let ghost all = quoted_texts(texts.deep_view());
        assert(texts.deep_view()[i as int] == texts[i as int]@);
        match quote(texts[i].as_str()) {
            Ok(text) => {
                quoted.push(text);
            },
            Err(e) => {
                return Err(e);
            },
        }
        assert(quoted.deep_view() == prev.push(all[i as int]));
        assert(all.take(i + 1) == all.take(i as int).push(all[i as int]));
        i += 1;
    }
    assert(quoted_texts(texts.deep_view()).take(texts.len() as int) == quoted_texts(
        texts.deep_view(),
    ));
    Ok(quoted)
}

fn quote_source(source: &Source) -> (r: Result<Source, ScanError>)
    ensures
        r matches Ok(quoted) && quoted.deep_view() == quoted_source(source.deep_view()),
        r matches Ok(quoted) ==> source_on_one_line(quoted.deep_view()),
{
    match source {
        Source::Git { url, rev } => {
            let url = match quote(url.as_str()) {
                Ok(text) => text,
                Err(e) => {
                    return Err(e);
                },
            };
            let rev = match quote(rev.as_str()) {
                Ok(text) => text,
                Err(e) => {
                    return Err(e);
                },
            };
            Ok(Source::Git { url, rev })
        },
        Source::Registry { name, url } => {
            let name = match quote(name.as_str()) {
                Ok(text) => text,
                Err(e) => {
                    return Err(e);
                },
            };
            let url = match quote(url.as_str()) {
                Ok(text) => text,
                Err(e) => {
                    return Err(e);
                },
            };
            Ok(Source::Registry { name, url })
        },
        Source::Path(url) => {
            match quote(url.as_str()) {
                Ok(text) => Ok(Source::Path(text)),
                Err(e) => Err(e),
            }
        },
    }
}

fn quote_id(id: &PackageId) -> (r: Result<PackageId, ScanError>)
    ensures
        r matches Ok(quoted) && quoted.deep_view() == quoted_id(id.deep_view()),
        r matches Ok(quoted) ==> id_on_one_line(quoted.deep_view()),
{
    let name = match quote(id.name.as_str()) {
        Ok(text) => text,
        Err(e) => {
            return Err(e);
        },
    };
    let version = match quote(id.version.as_str()) {
        Ok(text) => text,
        Err(e) => {
            return Err(e);
        },
    };
    let source = match quote_source(&id.source) {
        Ok(source) => source,
        Err(e) => {
            return Err(e);
        },
    };
    Ok(PackageId { name, version, source })
}

fn quote_ids(ids: &Vec<PackageId>) -> (r: Result<Vec<PackageId>, ScanError>)
    ensures
        r matches Ok(quoted) && quoted.deep_view() == quoted_ids(ids.deep_view()),
        r matches Ok(quoted) ==> ids_on_one_line(quoted.deep_view()),
{
    let mut quoted: Vec<PackageId> = Vec::new();
    let mut i: usize = 0;
    while i < ids.len()
        invariant
            i <= ids.len(),
            quoted.deep_view() == quoted_ids(ids.deep_view()).take(i as int),
            ids_on_one_line(quoted.deep_view()),
        decreases ids.len() - i,
    {
        let ghost prev = quoted.deep_view();
        let ghost all = quoted_ids(ids.deep_view());
        assert(ids.deep_view()[i as int] == ids[i as int].deep_view());
        match quote_id(&ids[i]) {
            Ok(id) => {
                quoted.push(id);
            },
            Err(e) => {
                return Err(e);
            },
        }
        assert(quoted.deep_view() == prev.push(all[i as int]));
        assert(all.take(i + 1) == all.take(i as int).push(all[i as int]));
        i += 1;
    }
    assert(quoted_ids(ids.deep_view()).take(ids.len() as int) == quoted_ids(ids.deep_view()));
    Ok(quoted)
}

fn quote_info(info: &PackageInfo) -> (r: Result<PackageInfo, ScanError>)
    ensures
        r matches Ok(quoted) && quoted.deep_view() == quoted_info(info.deep_view()),
        r matches Ok(quoted) ==> info_on_one_line(quoted.deep_view()),
{
    let id = match quote_id(&info.id) {
        Ok(id) => id,
        Err(e) => {
            return Err(e);
        },
    };
    let dependencies = match quote_ids(&info.dependencies) {
        Ok(ids) => ids,
        Err(e) => {
            return Err(e);
        },
    };
    let dev_dependencies = match quote_ids(&info.dev_dependencies) {
        Ok(ids) => ids,
        Err(e) => {
            return Err(e);
        },
    };
    let build_dependencies = match quote_ids(&info.build_dependencies) {
        Ok(ids) => ids,
        Err(e) => {
            return Err(e);
        },
    };
    Ok(PackageInfo { id, dependencies, dev_dependencies, build_dependencies })
}

fn quote_functions(functions: &Vec<UnsafeFunction>) -> (r: Result<Vec<UnsafeFunction>, ScanError>)
    ensures
        r matches Ok(quoted) && quoted.deep_view() == quoted_functions(functions.deep_view()),
        r matches Ok(quoted) ==> functions_on_one_line(quoted.deep_view()),
{
    let mut quoted: Vec<UnsafeFunction> = Vec::new();
    let mut i: usize = 0;
    while i < functions.len()
        invariant
            i <= functions.len(),
            quoted.deep_view() == quoted_functions(functions.deep_view()).take(i as int),
            functions_on_one_line(quoted.deep_view()),
        decreases functions.len() - i,
    {
        let ghost prev = quoted.deep_view();
        let ghost all = quoted_functions(functions.deep_view());
        assert(functions.deep_view()[i as int] == functions[i as int].deep_view());
        let package = match quote(functions[i].package.as_str()) {
            Ok(text) => text,
            Err(e) => {
                return Err(e);
            },
        };
        let function = match quote(functions[i].function.as_str()) {
            Ok(text) => text,
            Err(e) => {
                return Err(e);
            },
        };
        quoted.push(UnsafeFunction { package, function });
        assert(quoted.deep_view() == prev.push(all[i as int]));
        assert(all.take(i + 1) == all.take(i as int).push(all[i as int]));
        i += 1;
    }
    assert(quoted_functions(functions.deep_view()).take(functions.len() as int)
        == quoted_functions(functions.deep_view()));
    Ok(quoted)
}

fn quote_unsafety(unsafety: &UnsafeInfo) -> (r: Result<UnsafeInfo, ScanError>)
    ensures
        r matches Ok(quoted) && quoted.deep_view() == quoted_unsafety(unsafety.deep_view()),
        r matches Ok(quoted) ==> functions_on_one_line(
            quoted.deep_view().declared_unsafe_functions,
        ) && functions_on_one_line(quoted.deep_view().contains_unsafe_functions),
{
    let declared_unsafe_functions = match quote_functions(&unsafety.declared_unsafe_functions) {
        Ok(functions) => functions,
        Err(e) => {
            return Err(e);
        },
    };
    let contains_unsafe_functions = match quote_functions(&unsafety.contains_unsafe_functions) {
        Ok(functions) => functions,
        Err(e) => {
            return Err(e);
        },
    };
    Ok(
        UnsafeInfo {
            used: unsafety.used,
            forbids_unsafe: unsafety.forbids_unsafe,
            declared_unsafe_functions,
            contains_unsafe_functions,
        },
    )
}

fn quote_entry(entry: &ReportEntry) -> (r: Result<ReportEntry, ScanError>)
    ensures
        r matches Ok(quoted) && quoted.deep_view() == quoted_entry(entry.deep_view()),
        r matches Ok(quoted) ==> entry_on_one_line(quoted.deep_view()),
{
    let package = match quote_info(&entry.package) {
        Ok(package) => package,
        Err(e) => {
            return Err(e);
        },
    };
    let unsafety = match quote_unsafety(&entry.unsafety) {
        Ok(unsafety) => unsafety,
        Err(e) => {
            return Err(e);
        },
    };
    Ok(ReportEntry { package, unsafety })
}

fn quote_entries(entries: &Vec<ReportEntry>) -> (r: Result<Vec<ReportEntry>, ScanError>)
    ensures
        r matches Ok(quoted) && quoted.deep_view() == quoted_entries(entries.deep_view()),
        r matches Ok(quoted) ==> entries_on_one_line(quoted.deep_view()),
{
    let mut quoted: Vec<ReportEntry> = Vec::new();
    let mut i: usize = 0;
    while i < entries.len()
        invariant
            i <= entries.len(),
            quoted.deep_view() == quoted_entries(entries.deep_view()).take(i as int),
            entries_on_one_line(quoted.deep_view()),
        decreases entries.len() - i,
    {
        let ghost prev = quoted.deep_view();
        let ghost all = quoted_entries(entries.deep_view());
        assert(entries.deep_view()[i as int] == entries[i as int].deep_view());
        match quote_entry(&entries[i]) {
            Ok(entry) => {
                quoted.push(entry);
            },
            Err(e) => {
                return Err(e);
            },
        }
        assert(quoted.deep_view() == prev.push(all[i as int]));
        assert(all.take(i + 1) == all.take(i as int).push(all[i as int]));
        i += 1;
    }
    assert(quoted_entries(entries.deep_view()).take(entries.len() as int) == quoted_entries(
        entries.deep_view(),
    ));
    Ok(quoted)
}

/// The report with every text in it turned into a JSON string.
pub fn quote_report(report: &SafetyReport) -> (r: Result<SafetyReport, ScanError>)
    ensures
        r matches Ok(quoted) && quoted.deep_view() == quoted_report(report.deep_view()),
        r matches Ok(quoted) ==> report_on_one_line(quoted.deep_view()),
{
    let packages = match quote_entries(&report.packages) {
        Ok(entries) => entries,
        Err(e) => {
            return Err(e);
        },
    };
    let packages_without_metrics = match quote_ids(&report.packages_without_metrics) {
        Ok(ids) => ids,
        Err(e) => {
            return Err(e);
        },
    };
    let used_but_not_scanned_files = match quote_texts(&report.used_but_not_scanned_files) {
        Ok(files) => files,
        Err(e) => {
            return Err(e);
        },
    };
    Ok(SafetyReport { packages, packages_without_metrics, used_but_not_scanned_files })
}

/// The decimal digit for `d`.
pub open spec fn digit(d: int) -> char {
    if d == 0 {
        '0'
    } else if d == 1 {
        '1'
    } else if d == 2 {
        '2'
    } else if d == 3 {
        '3'
    } else if d == 4 {
        '4'
    } else if d == 5 {
        '5'
    } else if d == 6 {
        '6'
    } else if d == 7 {
        '7'
    } else if d == 8 {
        '8'
    } else {
        '9'
    }
}

/// The number `n` in decimal digits, without a sign or leading zeros.
pub open spec fn decimal(n: int) -> Seq<char>
    decreases n,
{
    if n < 10 {
        seq![digit(n)]
    } else {
        decimal(n / 10).push(digit(n % 10))
    }
}

/// The first `k` of `items` with a comma between each two.
pub open spec fn joined(items: Seq<Seq<char>>, k: int) -> Seq<char>
    decreases k,
{
    if k <= 0 {
        Seq::empty()
    } else if k == 1 {
        items[0]
    } else {
        joined(items, k - 1) + ","@ + items[k - 1]
    }
}

/// A JSON array of `items`, each of which is a JSON value already.
pub open spec fn array(items: Seq<Seq<char>>) -> Seq<char> {
    "["@ + joined(items, items.len() as int) + "]"@
}

/// A flag in JSON.
pub open spec fn flag_json(flag: bool) -> Seq<char> {
    if flag {
        "true"@
    } else {
        "false"@
    }
}

/// A source in JSON: an object with the sort of source as its one key.
/// The texts are JSON strings already.
pub open spec fn source_json(source: SourceView) -> Seq<char> {
    match source {
        SourceView::Git { url, rev } => "{\"Git\":{\"url\":"@ + url + ",\"rev\":"@ + rev + "}}"@,
        SourceView::Registry { name, url } => "{\"Registry\":{\"name\":"@ + name + ",\"url\":"@
            + url + "}}"@,
        SourceView::Path(url) => "{\"Path\":"@ + url + "}"@,
    }
}

/// A package identifier in JSON: an object of its name, its version and
/// its source. The texts are JSON strings already.
pub open spec fn id_json(id: PackageIdView) -> Seq<char> {
    "{\"name\":"@ + id.name + ",\"version\":"@ + id.version + ",\"source\":"@ + source_json(
        id.source,
    ) + "}"@
}

/// The array of `ids`.
pub open spec fn ids_json(ids: Seq<PackageIdView>) -> Seq<char> {
    array(Seq::new(ids.len(), |i: int| id_json(ids[i])))
}

/// A package with its dependencies in JSON: an object of its identifier
/// and an array for each kind of dependency.
#[verifier::opaque]
pub open spec fn info_json(info: PackageInfoView) -> Seq<char> {
    "{\"id\":"@ + id_json(info.id) + ",\"dependencies\":"@ + ids_json(info.dependencies)
        + ",\"dev_dependencies\":"@ + ids_json(info.dev_dependencies)
        + ",\"build_dependencies\":"@ + ids_json(info.build_dependencies) + "}"@
}

/// A count in JSON: an object of its two numbers.
pub open spec fn count_json(count: CountSum) -> Seq<char> {
    "{\"safe\":"@ + decimal(count.safe) + ",\"unsafe_\":"@ + decimal(count.unsafe_) + "}"@
}

/// A block of counters in JSON: an object with one count for each sort of
/// item.
#[verifier::opaque]
pub open spec fn block_json(block: BlockSum) -> Seq<char> {
    "{\"functions\":"@ + count_json(block.functions) + ",\"exprs\":"@ + count_json(block.exprs)
        + ",\"item_impls\":"@ + count_json(block.item_impls) + ",\"item_traits\":"@ + count_json(
        block.item_traits,
    ) + ",\"methods\":"@ + count_json(block.methods) + "}"@
}

/// A function in JSON: an object of its package and its name, which are
/// JSON strings already.
pub open spec fn function_json(function: UnsafeFunctionView) -> Seq<char> {
    "{\"package\":"@ + function.package + ",\"function\":"@ + function.function + "}"@
}

/// The array of `functions`.
pub open spec fn functions_json(functions: Seq<UnsafeFunctionView>) -> Seq<char> {
    array(Seq::new(functions.len(), |i: int| function_json(functions[i])))
}

/// The unsafe usage of a package in JSON: an object of its block of
/// counters, its flag and its two arrays of functions.
#[verifier::opaque]
pub open spec fn unsafety_json(unsafety: UnsafeInfoView) -> Seq<char> {
    "{\"used\":"@ + block_json(unsafety.used) + ",\"forbids_unsafe\":"@ + flag_json(unsafety.forbids_unsafe)
        + ",\"declared_unsafe_functions\":"@ + functions_json(unsafety.declared_unsafe_functions)
        + ",\"contains_unsafe_functions\":"@ + functions_json(unsafety.contains_unsafe_functions)
        + "}"@
}

/// An entry in JSON: an object of the package and its unsafe usage.
#[verifier::opaque]
pub open spec fn entry_json(entry: ReportEntryView) -> Seq<char> {
    "{\"package\":"@ + info_json(entry.package) + ",\"unsafety\":"@ + unsafety_json(entry.unsafety)
        + "}"@
}

/// The array of `entries`.
pub open spec fn entries_json(entries: Seq<ReportEntryView>) -> Seq<char> {
    array(Seq::new(entries.len(), |i: int| entry_json(entries[i])))
}

/// The document for a report whose texts are JSON strings already: one
/// object with the three lists of the report under their names, each list
/// an array, be it empty, and no blank anywhere outside the strings.
pub open spec fn document(report: SafetyReportView) -> Seq<char> {
    "{\"packages\":"@ + entries_json(report.packages) + ",\"packages_without_metrics\":"@
        + ids_json(report.packages_without_metrics) + ",\"used_but_not_scanned_files\":"@ + array(
        report.used_but_not_scanned_files,
    ) + "}"@
}

/// One more item written behind the first `i`, after a comma where it is
/// not the first, makes the array's first `i + 1` items.
proof fn lemma_array_grows(start: Seq<char>, items: Seq<Seq<char>>, i: int, before: Seq<char>, after: Seq<char>)
    requires
        0 <= i < items.len(),
        before == start + "["@ + joined(items, i),
        after == if i > 0 {
            before + ","@ + items[i]
        } else {
            before + items[i]
        },
    ensures
        after == start + "["@ + joined(items, i + 1),
{
    if i > 0 {
        assert(after =~= start + "["@ + (joined(items, i) + ","@ + items[i]));
    } else {
        assert(joined(items, 0) =~= Seq::<char>::empty());
        assert(after =~= start + "["@ + items[0]);
    }
}

/// The closing bracket behind all items makes the array.
proof fn lemma_array_closes(start: Seq<char>, items: Seq<Seq<char>>, before: Seq<char>, after: Seq<char>)
    requires
        before == start + "["@ + joined(items, items.len() as int),
        after == before + "]"@,
    ensures
        after == start + array(items),
{
    assert(after =~= start + array(items));
}

proof fn lemma_decimal_on_one_line(n: int)
    ensures
        on_one_line(decimal(n)),
    decreases n,
{
    if n >= 10 {
        lemma_decimal_on_one_line(n / 10);
    }
}

proof fn lemma_joined_on_one_line(items: Seq<Seq<char>>, k: int)
    requires
        texts_on_one_line(items),
        0 <= k <= items.len(),
    ensures
        on_one_line(joined(items, k)),
    decreases k,
{
    reveal_strlit(",");
    if k > 1 {
        lemma_joined_on_one_line(items, k - 1);
        assert(on_one_line(items[k - 1]));
    } else if k == 1 {
        assert(on_one_line(items[0]));
    }
}

proof fn lemma_array_on_one_line(items: Seq<Seq<char>>)
    requires
        texts_on_one_line(items),
    ensures
        on_one_line(array(items)),
{
    reveal_strlit("[");
    reveal_strlit("]");
    lemma_joined_on_one_line(items, items.len() as int);
}

proof fn lemma_source_on_one_line(source: SourceView)
    requires
        source_on_one_line(source),
    ensures
        on_one_line(source_json(source)),
{
    reveal_strlit("{\"Git\":{\"url\":");
    reveal_strlit(",\"rev\":");
    reveal_strlit("}}");
    reveal_strlit("{\"Registry\":{\"name\":");
    reveal_strlit(",\"url\":");
    reveal_strlit("{\"Path\":");
    reveal_strlit("}");
}

proof fn lemma_id_on_one_line(id: PackageIdView)
    requires
        id_on_one_line(id),
    ensures
        on_one_line(id_json(id)),
{
    reveal_strlit("{\"name\":");
    reveal_strlit(",\"version\":");
    reveal_strlit(",\"source\":");
    reveal_strlit("}");
    lemma_source_on_one_line(id.source);
}

proof fn lemma_ids_on_one_line(ids: Seq<PackageIdView>)
    requires
        ids_on_one_line(ids),
    ensures
        on_one_line(ids_json(ids)),
{
    let items = Seq::new(ids.len(), |i: int| id_json(ids[i]));
    assert forall|i: int| 0 <= i < items.len() implies on_one_line(#[trigger] items[i]) by {
        lemma_id_on_one_line(ids[i]);
    }
    lemma_array_on_one_line(items);
}

proof fn lemma_info_on_one_line(info: PackageInfoView)
    requires
        info_on_one_line(info),
    ensures
        on_one_line(info_json(info)),
{
    reveal(info_json);
    reveal_strlit("{\"id\":");
    reveal_strlit(",\"dependencies\":");
    reveal_strlit(",\"dev_dependencies\":");
    reveal_strlit(",\"build_dependencies\":");
    reveal_strlit("}");
    lemma_id_on_one_line(info.id);
    lemma_ids_on_one_line(info.dependencies);
    lemma_ids_on_one_line(info.dev_dependencies);
    lemma_ids_on_one_line(info.build_dependencies);
}

proof fn lemma_count_on_one_line(count: CountSum)
    ensures
        on_one_line(count_json(count)),
{
    reveal_strlit("{\"safe\":");
    reveal_strlit(",\"unsafe_\":");
    reveal_strlit("}");
    lemma_decimal_on_one_line(count.safe);
    lemma_decimal_on_one_line(count.unsafe_);
}

proof fn lemma_block_on_one_line(block: BlockSum)
    ensures
        on_one_line(block_json(block)),
{
    reveal(block_json);
    reveal_strlit("{\"functions\":");
    reveal_strlit(",\"exprs\":");
    reveal_strlit(",\"item_impls\":");
    reveal_strlit(",\"item_traits\":");
    reveal_strlit(",\"methods\":");
    reveal_strlit("}");
    lemma_count_on_one_line(block.functions);
    lemma_count_on_one_line(block.exprs);
    lemma_count_on_one_line(block.item_impls);
    lemma_count_on_one_line(block.item_traits);
    lemma_count_on_one_line(block.methods);
}

proof fn lemma_function_on_one_line(function: UnsafeFunctionView)
    requires
        function_on_one_line(function),
    ensures
        on_one_line(function_json(function)),
{
    reveal_strlit("{\"package\":");
    reveal_strlit(",\"function\":");
    reveal_strlit("}");
}

proof fn lemma_functions_on_one_line(functions: Seq<UnsafeFunctionView>)
    requires
        functions_on_one_line(functions),
    ensures
        on_one_line(functions_json(functions)),
{
    let items = Seq::new(functions.len(), |i: int| function_json(functions[i]));
    assert forall|i: int| 0 <= i < items.len() implies on_one_line(#[trigger] items[i]) by {
        lemma_function_on_one_line(functions[i]);
    }
    lemma_array_on_one_line(items);
}

proof fn lemma_unsafety_on_one_line(unsafety: UnsafeInfoView)
    requires
        functions_on_one_line(unsafety.declared_unsafe_functions),
        functions_on_one_line(unsafety.contains_unsafe_functions),
    ensures
        on_one_line(unsafety_json(unsafety)),
{
    reveal(unsafety_json);
    reveal_strlit("{\"used\":");
    reveal_strlit(",\"forbids_unsafe\":");
    reveal_strlit("true");
    reveal_strlit("false");
    reveal_strlit(",\"declared_unsafe_functions\":");
    reveal_strlit(",\"contains_unsafe_functions\":");
    reveal_strlit("}");
    lemma_block_on_one_line(unsafety.used);
    lemma_functions_on_one_line(unsafety.declared_unsafe_functions);
    lemma_functions_on_one_line(unsafety.contains_unsafe_functions);
}

proof fn lemma_entry_on_one_line(entry: ReportEntryView)
    requires
        entry_on_one_line(entry),
    ensures
        on_one_line(entry_json(entry)),
{
    reveal(entry_json);
    reveal_strlit("{\"package\":");
    reveal_strlit(",\"unsafety\":");
    reveal_strlit("}");
    lemma_info_on_one_line(entry.package);
    lemma_unsafety_on_one_line(entry.unsafety);
}

proof fn lemma_entries_on_one_line(entries: Seq<ReportEntryView>)
    requires
        entries_on_one_line(entries),
    ensures
        on_one_line(entries_json(entries)),
{
    let items = Seq::new(entries.len(), |i: int| entry_json(entries[i]));
    assert forall|i: int| 0 <= i < items.len() implies on_one_line(#[trigger] items[i]) by {
        lemma_entry_on_one_line(entries[i]);
    }
    lemma_array_on_one_line(items);
}

/// A document that is laid out around texts without a line end holds none.
pub proof fn lemma_document_on_one_line(report: SafetyReportView)
    requires
        report_on_one_line(report),
    ensures
        on_one_line(document(report)),
{
    reveal_strlit("{\"packages\":");
    reveal_strlit(",\"packages_without_metrics\":");
    reveal_strlit(",\"used_but_not_scanned_files\":");
    reveal_strlit("}");
    lemma_entries_on_one_line(report.packages);
    lemma_ids_on_one_line(report.packages_without_metrics);
    lemma_array_on_one_line(report.used_but_not_scanned_files);
}

fn digit_text(d: u64) -> (r: &'static str)
    requires
        d < 10,
    ensures
        r@ == seq![digit(d as int)],
{
    proof {
        reveal_strlit("0");
        reveal_strlit("1");
        reveal_strlit("2");
        reveal_strlit("3");
        reveal_strlit("4");
        reveal_strlit("5");
        reveal_strlit("6");
        reveal_strlit("7");
        reveal_strlit("8");
        reveal_strlit("9");
    }
    let r = if d == 0 {
        "0"
    } else if d == 1 {
        "1"
    } else if d == 2 {
        "2"
    } else if d == 3 {
        "3"
    } else if d == 4 {
        "4"
    } else if d == 5 {
        "5"
    } else if d == 6 {
        "6"
    } else if d == 7 {
        "7"
    } else if d == 8 {
        "8"
    } else {
        "9"
    };
    assert(r@ =~= seq![digit(d as int)]);
    r
}

fn write_number(out: &mut String, n: u64)
    ensures
        final(out)@ == old(out)@ + decimal(n as int),
    decreases n,
{
    if n >= 10 {
        write_number(out, n / 10);
    }
    out.append(digit_text(n % 10));
    assert(out@ == old(out)@ + decimal(n as int));
}

fn write_count(out: &mut String, count: &Count)
    ensures
        final(out)@ == old(out)@ + count_json(count.deep_view()),
{
    out.append("{\"safe\":");
    write_number(out, count.safe);
    out.append(",\"unsafe_\":");
    write_number(out, count.unsafe_);
    out.append("}");
    assert(out@ == old(out)@ + count_json(count.deep_view()));
}

fn write_block(out: &mut String, block: &CounterBlock)
    ensures
        final(out)@ == old(out)@ + block_json(block.deep_view()),
{
    reveal(block_json);
    out.append("{\"functions\":");
    write_count(out, &block.functions);
    out.append(",\"exprs\":");
    write_count(out, &block.exprs);
    out.append(",\"item_impls\":");
    write_count(out, &block.item_impls);
    out.append(",\"item_traits\":");
    write_count(out, &block.item_traits);
    out.append(",\"methods\":");
    write_count(out, &block.methods);
    out.append("}");
    assert(out@ == old(out)@ + block_json(block.deep_view()));
}

fn write_source(out: &mut String, source: &Source)
    ensures
        final(out)@ == old(out)@ + source_json(source.deep_view()),
{
    match source {
        Source::Git { url, rev } => {
            out.append("{\"Git\":{\"url\":");
            out.append(url.as_str());
            out.append(",\"rev\":");
            out.append(rev.as_str());
            out.append("}}");
        },
        Source::Registry { name, url } => {
            out.append("{\"Registry\":{\"name\":");
            out.append(name.as_str());
            out.append(",\"url\":");
            out.append(url.as_str());
            out.append("}}");
        },
        Source::Path(url) => {
            out.append("{\"Path\":");
            out.append(url.as_str());
            out.append("}");
        },
    }
    assert(out@ == old(out)@ + source_json(source.deep_view()));
}

fn write_id(out: &mut String, id: &PackageId)
    ensures
        final(out)@ == old(out)@ + id_json(id.deep_view()),
{
    out.append("{\"name\":");
    out.append(id.name.as_str());
    out.append(",\"version\":");
    out.append(id.version.as_str());
    out.append(",\"source\":");
    write_source(out, &id.source);
    out.append("}");
    assert(out@ == old(out)@ + id_json(id.deep_view()));
}

fn write_ids(out: &mut String, ids: &Vec<PackageId>)
    ensures
        final(out)@ == old(out)@ + ids_json(ids.deep_view()),
{
    let ghost start = out@;
    let ghost items = Seq::new(ids.deep_view().len(), |i: int| id_json(ids.deep_view()[i]));
    out.append("[");
    let mut i: usize = 0;
    while i < ids.len()
        invariant
            i <= ids.len(),
            items == Seq::new(ids.deep_view().len(), |i: int| id_json(ids.deep_view()[i])),
            out@ == start + "["@ + joined(items, i as int),
        decreases ids.len() - i,
    {
        let ghost before = out@;
        if i > 0 {
            out.append(",");
        }
        assert(items[i as int] == id_json(ids[i as int].deep_view()));
        write_id(out, &ids[i]);
        proof {
            lemma_array_grows(start, items, i as int, before, out@);
        }
        i += 1;
    }
    let ghost before = out@;
    out.append("]");
    proof {
        lemma_array_closes(start, items, before, out@);
    }
}

fn write_texts(out: &mut String, texts: &Vec<String>)
    ensures
        final(out)@ == old(out)@ + array(texts.deep_view()),
{
    let ghost start = out@;
    let ghost items = texts.deep_view();
    out.append("[");
    let mut i: usize = 0;
    while i < texts.len()
        invariant
            i <= texts.len(),
            items == texts.deep_view(),
            out@ == start + "["@ + joined(items, i as int),
        decreases texts.len() - i,
    {
        let ghost before = out@;
        if i > 0 {
            out.append(",");
        }
        assert(items[i as int] == texts[i as int]@);
        out.append(texts[i].as_str());
        proof {
            lemma_array_grows(start, items, i as int, before, out@);
        }
        i += 1;
    }
    let ghost before = out@;
    out.append("]");
    proof {
        lemma_array_closes(start, items, before, out@);
    }
}

fn write_function(out: &mut String, function: &UnsafeFunction)
    ensures
        final(out)@ == old(out)@ + function_json(function.deep_view()),
{
    out.append("{\"package\":");
    out.append(function.package.as_str());
    out.append(",\"function\":");
    out.append(function.function.as_str());
    out.append("}");
    assert(out@ == old(out)@ + function_json(function.deep_view()));
}

fn write_functions(out: &mut String, functions: &Vec<UnsafeFunction>)
    ensures
        final(out)@ == old(out)@ + functions_json(functions.deep_view()),
{
    let ghost start = out@;
    let ghost items = Seq::new(
        functions.deep_view().len(),
        |i: int| function_json(functions.deep_view()[i]),
    );
    out.append("[");
    let mut i: usize = 0;
    while i < functions.len()
        invariant
            i <= functions.len(),
            items == Seq::new(
                functions.deep_view().len(),
                |i: int| function_json(functions.deep_view()[i]),
            ),
            out@ == start + "["@ + joined(items, i as int),
        decreases functions.len() - i,
    {
        let ghost before = out@;
        if i > 0 {
            out.append(",");
        }
        assert(items[i as int] == function_json(functions[i as int].deep_view()));
        write_function(out, &functions[i]);
        proof {
            lemma_array_grows(start, items, i as int, before, out@);
        }
        i += 1;
    }
    let ghost before = out@;
    out.append("]");
    proof {
        lemma_array_closes(start, items, before, out@);
    }
}

fn write_info(out: &mut String, info: &PackageInfo)
    ensures
        final(out)@ == old(out)@ + info_json(info.deep_view()),
{
    reveal(info_json);
    out.append("{\"id\":");
    write_id(out, &info.id);
    out.append(",\"dependencies\":");
    write_ids(out, &info.dependencies);
    out.append(",\"dev_dependencies\":");
    write_ids(out, &info.dev_dependencies);
    out.append(",\"build_dependencies\":");
    write_ids(out, &info.build_dependencies);
    out.append("}");
    assert(out@ == old(out)@ + info_json(info.deep_view()));
}

fn write_unsafety(out: &mut String, unsafety: &UnsafeInfo)
    ensures
        final(out)@ == old(out)@ + unsafety_json(unsafety.deep_view()),
{
    reveal(unsafety_json);
    out.append("{\"used\":");
    write_block(out, &unsafety.used);
    out.append(",\"forbids_unsafe\":");
    if unsafety.forbids_unsafe {
        out.append("true");
    } else {
        out.append("false");
    }
    out.append(",\"declared_unsafe_functions\":");
    write_functions(out, &unsafety.declared_unsafe_functions);
    out.append(",\"contains_unsafe_functions\":");
    write_functions(out, &unsafety.contains_unsafe_functions);
    out.append("}");
    assert(out@ == old(out)@ + unsafety_json(unsafety.deep_view()));
}

fn write_entry(out: &mut String, entry: &ReportEntry)
    ensures
        final(out)@ == old(out)@ + entry_json(entry.deep_view()),
{
    reveal(entry_json);
    out.append("{\"package\":");
    write_info(out, &entry.package);
    out.append(",\"unsafety\":");
    write_unsafety(out, &entry.unsafety);
    out.append("}");
    assert(out@ == old(out)@ + entry_json(entry.deep_view()));
}

fn write_entries(out: &mut String, entries: &Vec<ReportEntry>)
    ensures
        final(out)@ == old(out)@ + entries_json(entries.deep_view()),
{
    let ghost start = out@;
    let ghost items = Seq::new(
        entries.deep_view().len(),
        |i: int| entry_json(entries.deep_view()[i]),
    );
    out.append("[");
    let mut i: usize = 0;
    while i < entries.len()
        invariant
            i <= entries.len(),
            items == Seq::new(
                entries.deep_view().len(),
                |i: int| entry_json(entries.deep_view()[i]),
            ),
            out@ == start + "["@ + joined(items, i as int),
        decreases entries.len() - i,
    {
        let ghost before = out@;
        if i > 0 {
            out.append(",");
        }
        assert(items[i as int] == entry_json(entries[i as int].deep_view()));
        write_entry(out, &entries[i]);
        proof {
            lemma_array_grows(start, items, i as int, before, out@);
        }
        i += 1;
    }
    let ghost before = out@;
    out.append("]");
    proof {
        lemma_array_closes(start, items, before, out@);
    }
}

/// Lays out the document of a report whose texts are JSON strings already.
pub fn lay_out(quoted: &SafetyReport) -> (text: String)
    ensures
        text@ == document(quoted.deep_view()),
{
    let mut out = String::new();
    out.append("{\"packages\":");
    write_entries(&mut out, &quoted.packages);
    out.append(",\"packages_without_metrics\":");
    write_ids(&mut out, &quoted.packages_without_metrics);
    out.append(",\"used_but_not_scanned_files\":");
    write_texts(&mut out, &quoted.used_but_not_scanned_files);
    out.append("}");
    assert(out@ == document(quoted.deep_view()));
    out
}

/// The report as a JSON document, in one line without a line end.
///
/// The document is that of the report with every text as a JSON string. It
/// is owed for every report.
pub fn to_json(report: &SafetyReport) -> (r: Result<String, ScanError>)
    ensures
        r matches Ok(text) && text@ == document(quoted_report(report.deep_view())) && on_one_line(
            text@,
        ),
{
    match quote_report(report) {
        Ok(quoted) => {
            proof {
                lemma_document_on_one_line(quoted.deep_view());
            }
            Ok(lay_out(&quoted))
        },
        Err(e) => Err(e),
    }
}

} // verus!
