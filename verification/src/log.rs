//! The two logs of unsafe functions: how their files are named and what
//! they hold.
use vstd::prelude::*;
use crate::report::{ReportEntryView, SafetyReport, UnsafeFunction, UnsafeFunctionView};

verus! {

/// The final component of `path` as `std::path::Path::file_name` gives it
/// under the path syntax of the platform that the library is built for,
/// `None` where `path` has none.
pub uninterp spec fn path_file_name(path: Seq<char>) -> Option<Seq<char>>;

/// The final component of `path`, if it has one.
///
/// Calls `std::path::Path::file_name` and hands its answer on as text.
/// Nothing is claimed of which part of `path` that is, only that the same
/// path has the same answer: it is `path_file_name` of `path`.
#[verifier::external_body]
fn file_name(path: &str) -> (r: Option<String>)
    ensures
        match r {
            Some(name) => path_file_name(path@) == Some(name@),
            None => path_file_name(path@) is None,
        },
{
    match std::path::Path::new(path).file_name() {
        Some(name) => Some(name.to_string_lossy().into_owned()),
        None => None,
    }
}

/// `path` with its final component replaced by `name`, as
/// `std::path::Path::with_file_name` gives it under the path syntax of the
/// platform that the library is built for.
pub uninterp spec fn path_with_file_name(path: Seq<char>, name: Seq<char>) -> Seq<char>;

/// `path` with `name` in the place of its final component.
///
/// Calls `std::path::Path::with_file_name` and hands its answer on as
/// text. Nothing is claimed of what the new path looks like, only that the
/// same path and name have the same answer: it is `path_with_file_name` of
/// the two.
#[verifier::external_body]
fn with_file_name(path: &str, name: &str) -> (r: String)
    ensures
        r@ == path_with_file_name(path@, name@),
{
    std::path::Path::new(path).with_file_name(name).to_string_lossy().into_owned()
}

/// Where the last `.` among the first `k` characters of `name` stands, or
/// `-1` where there is none.
pub open spec fn last_dot(name: Seq<char>, k: int) -> int
    decreases k,
{
    if k <= 0 {
        -1
    } else if name[k - 1] == '.' {
        k - 1
    } else {
        last_dot(name, k - 1)
    }
}

/// The file name without its extension: all of it where it holds no `.` or
/// only one at its start, else what stands before its last `.`.
pub open spec fn file_stem(name: Seq<char>) -> Seq<char> {
    let dot = last_dot(name, name.len() as int);
    if dot <= 0 {
        name
    } else {
        name.subrange(0, dot)
    }
}

/// The extension of the file name: what stands behind its last `.`, and
/// nothing where it holds no `.` or only one at its start.
pub open spec fn extension(name: Seq<char>) -> Seq<char> {
    let dot = last_dot(name, name.len() as int);
    if dot <= 0 {
        Seq::empty()
    } else {
        name.subrange(dot + 1, name.len() as int)
    }
}

/// The file name with `suffix` put in before its extension. A name without
/// an extension, or with an empty one, gets the suffix at its end and no
/// `.` after it.
pub open spec fn with_suffix(name: Seq<char>, suffix: Seq<char>) -> Seq<char> {
    if extension(name).len() == 0 {
        file_stem(name) + suffix
    } else {
        file_stem(name) + suffix + seq!['.'] + extension(name)
    }
}

proof fn lemma_last_dot(name: Seq<char>, k: int)
    requires
        0 <= k <= name.len(),
    ensures
        -1 <= last_dot(name, k) < k,
        last_dot(name, k) >= 0 ==> name[last_dot(name, k)] == '.',
        forall|i: int| last_dot(name, k) < i < k ==> name[i] != '.',
    decreases k,
{
    if k > 0 && name[k - 1] != '.' {
        lemma_last_dot(name, k - 1);
    }
}

/// Where a `.` stands that no `.` follows, `last_dot` finds it.
proof fn lemma_last_dot_found(name: Seq<char>, dot: int, k: int)
    requires
        0 <= dot < k <= name.len(),
        name[dot] == '.',
        forall|i: int| dot < i < k ==> name[i] != '.',
    ensures
        last_dot(name, k) == dot,
    decreases k,
{
    if k - 1 > dot {
        lemma_last_dot_found(name, dot, k - 1);
    }
}

/// A name made of a stem, a `.` and an extension gets the suffix between
/// the stem and the `.`, and keeps its extension behind it: the stem
/// `report` and the extension `log` with `.declared` give
/// `report.declared.log`. Where the extension is empty, the `.` goes too.
pub proof fn lemma_suffix_goes_before_extension(
    stem: Seq<char>,
    ext: Seq<char>,
    suffix: Seq<char>,
)
    requires
        stem.len() > 0,
        !ext.contains('.'),
    ensures
        ext.len() > 0 ==> with_suffix(stem + seq!['.'] + ext, suffix) == stem + suffix + seq!['.']
            + ext,
        ext.len() == 0 ==> with_suffix(stem + seq!['.'] + ext, suffix) == stem + suffix,
{
    let name = stem + seq!['.'] + ext;
    let dot = stem.len() as int;
    assert(name[dot] == '.');
    assert forall|i: int| dot < i < name.len() implies name[i] != '.' by {
        assert(name[i] == ext[i - dot - 1]);
        assert(ext.contains(ext[i - dot - 1]));
    }
    lemma_last_dot_found(name, dot, name.len() as int);
    assert(file_stem(name) =~= stem);
    assert(extension(name) =~= ext);
}

/// A name without a `.` is all stem: the suffix goes behind it.
pub proof fn lemma_suffix_ends_name_without_extension(name: Seq<char>, suffix: Seq<char>)
    requires
        !name.contains('.'),
    ensures
        with_suffix(name, suffix) == name + suffix,
{
    lemma_last_dot(name, name.len() as int);
    let dot = last_dot(name, name.len() as int);
    if dot >= 0 {
        assert(name.contains(name[dot]));
    }
}

/// Puts `suffix` into the file name `name`, before its extension.
pub fn add_suffix(name: &str, suffix: &str) -> (r: String)
    ensures
        r@ == with_suffix(name@, suffix@),
{
    let n = name.unicode_len();
    let mut dot: Option<usize> = None;
    let mut i: usize = 0;
    while i < n
        invariant
            i <= n,
            n == name@.len(),
            match dot {
                Some(d) => d as int == last_dot(name@, i as int),
                None => last_dot(name@, i as int) == -1,
            },
        decreases n - i,
    {
        proof {
            lemma_last_dot(name@, i as int);
        }
        if name.get_char(i) == '.' {
            dot = Some(i);
        }
        i += 1;
    }
    proof {
        lemma_last_dot(name@, n as int);
    }
    let mut out = String::new();
    match dot {
        Some(d) if d > 0 => {
            out.append(name.substring_char(0, d));
            out.append(suffix);
            if d + 1 < n {
                proof {
                    reveal_strlit(".");
                    assert("."@ == seq!['.']);
                }
                out.append(".");
                out.append(name.substring_char(d + 1, n));
            } else {
                assert(extension(name@).len() == 0);
            }
        },
        _ => {
            out.append(name);
            out.append(suffix);
            assert(extension(name@).len() == 0);
        },
    }
    out
}

/// Whether `path` has a final component to name a file by.
pub fn has_file_name(path: &str) -> (b: bool)
    ensures
        b == (path_file_name(path@) is Some),
{
    file_name(path).is_some()
}

/// The name of the file that `path` names, with `suffix` put in before its
/// extension: `report.log` with `.declared` gives `report.declared.log`.
pub fn suffixed_file_name(path: &str, suffix: &str) -> (r: String)
    requires
        path_file_name(path@) is Some,
    ensures
        r@ == with_suffix(path_file_name(path@)->Some_0, suffix@),
{
    let name = file_name(path).unwrap();
    add_suffix(name.as_str(), suffix)
}

/// `text` ends with `end`.
pub open spec fn ends_with(text: Seq<char>, end: Seq<char>) -> bool {
    end.len() <= text.len() && text.subrange(text.len() - end.len(), text.len() as int) == end
}

/// `path`, which ends with `name`, with `new_name` in its place: what
/// stands before the name stays as it is.
pub open spec fn with_name_replaced(
    path: Seq<char>,
    name: Seq<char>,
    new_name: Seq<char>,
) -> Seq<char> {
    path.subrange(0, path.len() - name.len()) + new_name
}

/// The path beside `path` whose file name has `suffix` put in before its
/// extension. Where `path` ends with its file name, all that stands before
/// the name stays, character by character; where something follows the
/// name, the path is the one that the standard library makes of it.
pub open spec fn suffixed(path: Seq<char>, suffix: Seq<char>) -> Seq<char> {
    let name = path_file_name(path)->Some_0;
    let new_name = with_suffix(name, suffix);
    if ends_with(path, name) {
        with_name_replaced(path, name, new_name)
    } else {
        path_with_file_name(path, new_name)
    }
}

/// `path` with `new_name` in the place of `name` at its end, or `None`
/// where `path` does not end with `name`: `logs/report.log` with
/// `report.declared.log` for `report.log` gives `logs/report.declared.log`.
pub fn replace_file_name(path: &str, name: &str, new_name: &str) -> (r: Option<String>)
    ensures
        match r {
            Some(replaced) => ends_with(path@, name@) && replaced@ == with_name_replaced(
                path@,
                name@,
                new_name@,
            ),
            None => !ends_with(path@, name@),
        },
{
    let n = path.unicode_len();
    let m = name.unicode_len();
    if m > n {
        return None;
    }
    let end = String::from_str(path.substring_char(n - m, n));
    if end == String::from_str(name) {
        let mut replaced = String::from_str(path.substring_char(0, n - m));
        replaced.append(new_name);
        Some(replaced)
    } else {
        None
    }
}

/// `path` with `suffix` put in before the extension of its file name:
/// `logs/report.log` with `.declared` gives `logs/report.declared.log`.
pub fn suffixed_path(path: &str, suffix: &str) -> (r: String)
    requires
        path_file_name(path@) is Some,
    ensures
        r@ == suffixed(path@, suffix@),
{
    let name = file_name(path).unwrap();
    let new_name = add_suffix(name.as_str(), suffix);
    match replace_file_name(path, name.as_str(), new_name.as_str()) {
        Some(replaced) => replaced,
        None => with_file_name(path, new_name.as_str()),
    }
}

/// As `suffixed_file_name`, for any path: `None` where `path` names no file.
pub fn try_suffixed_file_name(path: &str, suffix: &str) -> (r: Option<String>)
    ensures
        match r {
            Some(name) => path_file_name(path@) is Some && name@ == with_suffix(
                path_file_name(path@)->Some_0,
                suffix@,
            ),
            None => path_file_name(path@) is None,
        },
{
    if has_file_name(path) {
        Some(suffixed_file_name(path, suffix))
    } else {
        None
    }
}

/// One line of a log: the package's name, a blank, the function's name, and
/// the end of the line.
pub open spec fn log_line(function: UnsafeFunctionView) -> Seq<char> {
    function.package + seq![' '] + function.function + seq!['\n']
}

/// The lines of the first `k` of `functions`, one after the other.
pub open spec fn log_lines(functions: Seq<UnsafeFunctionView>, k: int) -> Seq<char>
    decreases k,
{
    if k <= 0 {
        Seq::empty()
    } else {
        log_lines(functions, k - 1) + log_line(functions[k - 1])
    }
}

/// One of the two lists of functions of an entry.
pub open spec fn listed_functions(entry: ReportEntryView, declared: bool) -> Seq<UnsafeFunctionView> {
    if declared {
        entry.unsafety.declared_unsafe_functions
    } else {
        entry.unsafety.contains_unsafe_functions
    }
}

/// What a log holds for the first `k` of `entries`: for each entry in turn
/// the lines of its functions, those declared unsafe where `declared` holds,
/// else those that hold unsafe code.
pub open spec fn log_text(entries: Seq<ReportEntryView>, declared: bool, k: int) -> Seq<char>
    decreases k,
{
    if k <= 0 {
        Seq::empty()
    } else {
        let functions = listed_functions(entries[k - 1], declared);
        log_text(entries, declared, k - 1) + log_lines(functions, functions.len() as int)
    }
}

/// A text file that is to be written: where, and all that it holds.
#[derive(Debug, PartialEq, Eq)]
pub struct LogFile {
    pub path: String,
    pub content: String,
}

/// The log of the functions that are declared unsafe and the log of those
/// that hold unsafe code.
#[derive(Debug, PartialEq, Eq)]
pub struct UnsafeFunctionLogs {
    pub declared: LogFile,
    pub contains: LogFile,
}

/// The text of one of the two logs of `report`.
pub fn log_content(report: &SafetyReport, declared: bool) -> (content: String)
    ensures
        content@ == log_text(report.deep_view().packages, declared, report.packages.len() as int),
{
    let ghost entries = report.deep_view().packages;
    let mut content = String::new();
    let mut i: usize = 0;
    while i < report.packages.len()
        invariant
            i <= report.packages.len(),
            entries == report.deep_view().packages,
            content@ == log_text(entries, declared, i as int),
        decreases report.packages.len() - i,
    {
        let entry = &report.packages[i];
        assert(entries[i as int] == entry.deep_view());
        let functions: &Vec<UnsafeFunction> = if declared {
            &entry.unsafety.declared_unsafe_functions
        } else {
            &entry.unsafety.contains_unsafe_functions
        };
        let ghost listed = listed_functions(entries[i as int], declared);
        assert(listed == functions.deep_view());
        let ghost before = content@;
        let mut j: usize = 0;
        while j < functions.len()
            invariant
                j <= functions.len(),
                listed == functions.deep_view(),
                content@ == before + log_lines(listed, j as int),
            decreases functions.len() - j,
        {
            let function = &functions[j];
            assert(listed[j as int] == function.deep_view());
            proof {
                reveal_strlit(" ");
                reveal_strlit("\n");
                assert(" "@ == seq![' ']);
                assert("\n"@ == seq!['\n']);
            }
            let ghost start = content@;
            content.append(function.package.as_str());
            content.append(" ");
            content.append(function.function.as_str());
            content.append("\n");
            assert(content@ == start + log_line(listed[j as int]));
            assert(content@ == before + log_lines(listed, j + 1));
            j += 1;
        }
        i += 1;
    }
    content
}

/// The logs are those of `report`, beside the file that `path` names.
pub open spec fn logs_of(logs: UnsafeFunctionLogs, path: Seq<char>, report: SafetyReport) -> bool {
    &&& logs.declared.path@ == suffixed(path, ".declared"@)
    &&& logs.declared.content@ == log_text(
        report.deep_view().packages,
        true,
        report.packages.len() as int,
    )
    &&& logs.contains.path@ == suffixed(path, ".contains"@)
    &&& logs.contains.content@ == log_text(
        report.deep_view().packages,
        false,
        report.packages.len() as int,
    )
}

/// The two logs of unsafe functions of `report`, to be written beside each
/// other where `log_path` points: each has the path `log_path` with
/// `.declared` or `.contains` before the extension of its file name, and
/// holds one line for each function of each entry, in the order of the
/// entries.
pub fn log_unsafe_functions(log_path: &str, report: &SafetyReport) -> (logs: UnsafeFunctionLogs)
    requires
        path_file_name(log_path@) is Some,
    ensures
        logs_of(logs, log_path@, *report),
{
    UnsafeFunctionLogs {
        declared: LogFile {
            path: suffixed_path(log_path, ".declared"),
            content: log_content(report, true),
        },
        contains: LogFile {
            path: suffixed_path(log_path, ".contains"),
            content: log_content(report, false),
        },
    }
}

/// As `log_unsafe_functions`, for any path: `None` where `log_path` names no
/// file.
pub fn try_log_unsafe_functions(log_path: &str, report: &SafetyReport) -> (r: Option<
    UnsafeFunctionLogs,
>)
    ensures
        match r {
            Some(logs) => path_file_name(log_path@) is Some && logs_of(logs, log_path@, *report),
            None => path_file_name(log_path@) is None,
        },
{
    if has_file_name(log_path) {
        Some(log_unsafe_functions(log_path, report))
    } else {
        None
    }
}

} // verus!
