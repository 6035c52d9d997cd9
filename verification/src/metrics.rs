//! The metrics of a package, file by file, and the summary drawn from them.
use vstd::prelude::*;
use crate::report::{BlockSum, CounterBlock, UnsafeFunction, UnsafeFunctionView, UnsafeInfo, UnsafeInfoView};

verus! {

/// What was found of unsafe code in one source file.
#[derive(Debug, PartialEq, Eq)]
pub struct RsFileMetrics {
    pub path: String,
    pub counters: CounterBlock,
    pub forbids_unsafe: bool,
    pub is_crate_entry_point: bool,
    /// The names of the functions that are declared unsafe.
    pub declared_unsafe_functions: Vec<String>,
    /// The names of the functions that hold unsafe code.
    pub contains_unsafe_functions: Vec<String>,
}

/// What an `RsFileMetrics` denotes.
pub struct RsFileMetricsView {
    pub path: Seq<char>,
    pub counters: BlockSum,
    pub forbids_unsafe: bool,
    pub is_crate_entry_point: bool,
    pub declared_unsafe_functions: Seq<Seq<char>>,
    pub contains_unsafe_functions: Seq<Seq<char>>,
}

impl DeepView for RsFileMetrics {
    type V = RsFileMetricsView;

    open spec fn deep_view(&self) -> RsFileMetricsView {
        RsFileMetricsView {
            path: self.path@,
            counters: self.counters.deep_view(),
            forbids_unsafe: self.forbids_unsafe,
            is_crate_entry_point: self.is_crate_entry_point,
            declared_unsafe_functions: self.declared_unsafe_functions.deep_view(),
            contains_unsafe_functions: self.contains_unsafe_functions.deep_view(),
        }
    }
}

impl RsFileMetricsView {
    /// The names of one of the file's two lists of functions.
    pub open spec fn functions(self, declared: bool) -> Seq<Seq<char>> {
        if declared {
            self.declared_unsafe_functions
        } else {
            self.contains_unsafe_functions
        }
    }
}

/// The metrics of one package: those of each of its source files.
#[derive(Debug, PartialEq, Eq)]
pub struct PackageMetrics {
    pub files: Vec<RsFileMetrics>,
}

impl DeepView for PackageMetrics {
    type V = Seq<RsFileMetricsView>;

    open spec fn deep_view(&self) -> Seq<RsFileMetricsView> {
        self.files.deep_view()
    }
}

/// What the dependency graph answers when asked for a package's metrics.
#[derive(Debug, PartialEq, Eq)]
pub enum MetricsLookup {
    Present(PackageMetrics),
    Absent,
}

impl DeepView for MetricsLookup {
    type V = Option<Seq<RsFileMetricsView>>;

    open spec fn deep_view(&self) -> Option<Seq<RsFileMetricsView>> {
        match self {
            MetricsLookup::Present(metrics) => Some(metrics.deep_view()),
            MetricsLookup::Absent => None,
        }
    }
}

/// The counters of the first `k` files, added up.
pub open spec fn total_counts(files: Seq<RsFileMetricsView>, k: int) -> BlockSum
    decreases k,
{
    if k <= 0 {
        BlockSum::zero()
    } else {
        total_counts(files, k - 1).plus(files[k - 1].counters)
    }
}

/// The counters of those of the first `k` files that are compiled, added
/// up.
pub open spec fn compiled_counts(
    files: Seq<RsFileMetricsView>,
    compiled: Seq<Seq<char>>,
    k: int,
) -> BlockSum
    decreases k,
{
    if k <= 0 {
        BlockSum::zero()
    } else if compiled.contains(files[k - 1].path) {
        compiled_counts(files, compiled, k - 1).plus(files[k - 1].counters)
    } else {
        compiled_counts(files, compiled, k - 1)
    }
}

/// Each of `names` as a function of `package`.
pub open spec fn owned_by(package: Seq<char>, names: Seq<Seq<char>>) -> Seq<UnsafeFunctionView> {
    Seq::new(names.len(), |i: int| UnsafeFunctionView { package, function: names[i] })
}

/// The functions that those of the first `k` files that are compiled list,
/// in the order of the files, each as a function of `package`.
pub open spec fn compiled_functions(
    files: Seq<RsFileMetricsView>,
    compiled: Seq<Seq<char>>,
    package: Seq<char>,
    declared: bool,
    k: int,
) -> Seq<UnsafeFunctionView>
    decreases k,
{
    if k <= 0 {
        Seq::empty()
    } else if compiled.contains(files[k - 1].path) {
        compiled_functions(files, compiled, package, declared, k - 1) + owned_by(
            package,
            files[k - 1].functions(declared),
        )
    } else {
        compiled_functions(files, compiled, package, declared, k - 1)
    }
}

/// Every compiled file that is an entry point of its crate forbids unsafe
/// code.
pub open spec fn entry_points_forbid_unsafe(
    files: Seq<RsFileMetricsView>,
    compiled: Seq<Seq<char>>,
) -> bool {
    forall|i: int|
        0 <= i < files.len() && compiled.contains((#[trigger] files[i]).path)
            && files[i].is_crate_entry_point ==> files[i].forbids_unsafe
}

/// The counters of every file are counts, and so is their sum: no tally of
/// the package's files exceeds what a `u64` holds.
pub open spec fn counts_fit(files: Seq<RsFileMetricsView>) -> bool {
    &&& forall|i: int| 0 <= i < files.len() ==> (#[trigger] files[i]).counters.fits()
    &&& total_counts(files, files.len() as int).fits()
}

/// The unsafe usage of the package `package` whose files are `files`, where
/// the files of `compiled` are compiled.
pub open spec fn unsafety_of(
    files: Seq<RsFileMetricsView>,
    compiled: Seq<Seq<char>>,
    package: Seq<char>,
) -> UnsafeInfoView {
    let n = files.len() as int;
    UnsafeInfoView {
        used: compiled_counts(files, compiled, n),
        forbids_unsafe: entry_points_forbid_unsafe(files, compiled),
        declared_unsafe_functions: compiled_functions(files, compiled, package, true, n),
        contains_unsafe_functions: compiled_functions(files, compiled, package, false, n),
    }
}

/// The sum over a prefix never exceeds the sum over a longer one.
pub proof fn lemma_total_counts_monotone(files: Seq<RsFileMetricsView>, i: int, j: int)
    requires
        0 <= i <= j <= files.len(),
        forall|k: int| 0 <= k < files.len() ==> (#[trigger] files[k]).counters.fits(),
    ensures
        total_counts(files, i).le(total_counts(files, j)),
        BlockSum::zero().le(total_counts(files, i)),
    decreases j,
{
    if i < j {
        lemma_total_counts_monotone(files, i, j - 1);
        assert(files[j - 1].counters.fits());
    } else if i > 0 {
        lemma_total_counts_monotone(files, i - 1, i - 1);
        assert(files[i - 1].counters.fits());
    }
}

/// The compiled files of a prefix never add up to more than all its files.
pub proof fn lemma_compiled_counts_le_total(
    files: Seq<RsFileMetricsView>,
    compiled: Seq<Seq<char>>,
    k: int,
)
    requires
        0 <= k <= files.len(),
        forall|i: int| 0 <= i < files.len() ==> (#[trigger] files[i]).counters.fits(),
    ensures
        compiled_counts(files, compiled, k).le(total_counts(files, k)),
        BlockSum::zero().le(compiled_counts(files, compiled, k)),
    decreases k,
{
    if k > 0 {
        lemma_compiled_counts_le_total(files, compiled, k - 1);
        assert(files[k - 1].counters.fits());
    }
}

proof fn lemma_compiled_prefix_ignores_uncompiled(
    files: Seq<RsFileMetricsView>,
    others: Seq<RsFileMetricsView>,
    compiled: Seq<Seq<char>>,
    package: Seq<char>,
    declared: bool,
    k: int,
)
    requires
        files.len() == others.len(),
        0 <= k <= files.len(),
        forall|i: int| 0 <= i < files.len() ==> (#[trigger] files[i]).path == others[i].path,
        forall|i: int|
            0 <= i < files.len() && compiled.contains((#[trigger] files[i]).path) ==> files[i]
                == others[i],
    ensures
        compiled_counts(files, compiled, k) == compiled_counts(others, compiled, k),
        compiled_functions(files, compiled, package, declared, k) == compiled_functions(
            others,
            compiled,
            package,
            declared,
            k,
        ),
    decreases k,
{
    if k > 0 {
        lemma_compiled_prefix_ignores_uncompiled(files, others, compiled, package, declared, k - 1);
        assert(files[k - 1].path == others[k - 1].path);
    }
}

/// The summary of a package does not change with what is known of a file
/// that is not compiled: two lists of files that name the same files in the
/// same order, and agree on every compiled one, have the same summary.
pub proof fn lemma_unsafety_ignores_uncompiled_files(
    files: Seq<RsFileMetricsView>,
    others: Seq<RsFileMetricsView>,
    compiled: Seq<Seq<char>>,
    package: Seq<char>,
)
    requires
        files.len() == others.len(),
        forall|i: int| 0 <= i < files.len() ==> (#[trigger] files[i]).path == others[i].path,
        forall|i: int|
            0 <= i < files.len() && compiled.contains((#[trigger] files[i]).path) ==> files[i]
                == others[i],
    ensures
        unsafety_of(files, compiled, package) == unsafety_of(others, compiled, package),
{
    let n = files.len() as int;
    lemma_compiled_prefix_ignores_uncompiled(files, others, compiled, package, true, n);
    lemma_compiled_prefix_ignores_uncompiled(files, others, compiled, package, false, n);
    assert(entry_points_forbid_unsafe(files, compiled) == entry_points_forbid_unsafe(
        others,
        compiled,
    )) by {
        if entry_points_forbid_unsafe(files, compiled) {
            assert forall|i: int|
                0 <= i < others.len() && compiled.contains((#[trigger] others[i]).path)
                    && others[i].is_crate_entry_point implies others[i].forbids_unsafe by {
                assert(files[i].path == others[i].path);
            }
        }
        if entry_points_forbid_unsafe(others, compiled) {
            assert forall|i: int|
                0 <= i < files.len() && compiled.contains((#[trigger] files[i]).path)
                    && files[i].is_crate_entry_point implies files[i].forbids_unsafe by {
                assert(files[i] == others[i]);
            }
        }
    }
}

proof fn lemma_compiled_prefix_depends_on_set(
    files: Seq<RsFileMetricsView>,
    compiled: Seq<Seq<char>>,
    other: Seq<Seq<char>>,
    package: Seq<char>,
    declared: bool,
    k: int,
)
    requires
        0 <= k <= files.len(),
        forall|path: Seq<char>| compiled.contains(path) <==> other.contains(path),
    ensures
        compiled_counts(files, compiled, k) == compiled_counts(files, other, k),
        compiled_functions(files, compiled, package, declared, k) == compiled_functions(
            files,
            other,
            package,
            declared,
            k,
        ),
    decreases k,
{
    if k > 0 {
        lemma_compiled_prefix_depends_on_set(files, compiled, other, package, declared, k - 1);
    }
}

/// The summary of a package depends on which files are compiled, not on
/// the order in which they are listed nor on how often.
pub proof fn lemma_unsafety_depends_on_compiled_set(
    files: Seq<RsFileMetricsView>,
    compiled: Seq<Seq<char>>,
    other: Seq<Seq<char>>,
    package: Seq<char>,
)
    requires
        forall|path: Seq<char>| compiled.contains(path) <==> other.contains(path),
    ensures
        unsafety_of(files, compiled, package) == unsafety_of(files, other, package),
{
    let n = files.len() as int;
    lemma_compiled_prefix_depends_on_set(files, compiled, other, package, true, n);
    lemma_compiled_prefix_depends_on_set(files, compiled, other, package, false, n);
}

/// Whether `path` is one of `paths`.
pub fn contains_path(paths: &Vec<String>, path: &String) -> (b: bool)
    ensures
        b == paths.deep_view().contains(path@),
{
    let mut i: usize = 0;
    while i < paths.len()
        invariant
            i <= paths.len(),
            forall|j: int| 0 <= j < i ==> paths.deep_view()[j] != path@,
        decreases paths.len() - i,
    {
        if paths[i] == *path {
            assert(paths.deep_view()[i as int] == path@);
            return true;
        }
        i += 1;
    }
    false
}

impl PackageMetrics {
    /// Whether the counters of all files can be added up in a `u64`.
    pub fn counts_fit(&self) -> (b: bool)
        ensures
            b == counts_fit(self.deep_view()),
    {
        let ghost files = self.deep_view();
        let mut total = CounterBlock::zero();
        let mut i: usize = 0;
        while i < self.files.len()
            invariant
                i <= self.files.len(),
                files == self.deep_view(),
                files.len() == self.files.len(),
                forall|k: int| 0 <= k < files.len() ==> (#[trigger] files[k]).counters.fits(),
                total.deep_view() == total_counts(files, i as int),
            decreases self.files.len() - i,
        {
            assert(files[i as int].counters == self.files[i as int].counters.deep_view());
            match total.checked_plus(self.files[i].counters) {
                Some(sum) => {
                    total = sum;
                },
                None => {
                    proof {
                        lemma_total_counts_monotone(files, i + 1, files.len() as int);
                    }
                    return false;
                },
            }
            i += 1;
        }
        true
    }
}

/// The functions that the compiled files of `metrics` list, in the order of
/// the files, each with `package` as its owner: those declared unsafe where
/// `declared` holds, else those that hold unsafe code.
fn collect_functions(
    metrics: &PackageMetrics,
    rs_files_used: &Vec<String>,
    package: &String,
    declared: bool,
) -> (r: Vec<UnsafeFunction>)
    ensures
        r.deep_view() == compiled_functions(
            metrics.deep_view(),
            rs_files_used.deep_view(),
            package@,
            declared,
            metrics.files.len() as int,
        ),
{
    let ghost files = metrics.deep_view();
    let ghost compiled = rs_files_used.deep_view();
    let mut out: Vec<UnsafeFunction> = Vec::new();
    let mut i: usize = 0;
    while i < metrics.files.len()
        invariant
            i <= metrics.files.len(),
            files == metrics.deep_view(),
            compiled == rs_files_used.deep_view(),
            out.deep_view() == compiled_functions(files, compiled, package@, declared, i as int),
        decreases metrics.files.len() - i,
    {
        let file = &metrics.files[i];
        assert(files[i as int] == file.deep_view());
        if contains_path(rs_files_used, &file.path) {
            let names = if declared {
                &file.declared_unsafe_functions
            } else {
                &file.contains_unsafe_functions
            };
            let ghost before = out.deep_view();
            let ghost listed = owned_by(package@, names.deep_view());
            let mut j: usize = 0;
            while j < names.len()
                invariant
                    j <= names.len(),
                    listed == owned_by(package@, names.deep_view()),
                    out.deep_view() == before + listed.take(j as int),
                decreases names.len() - j,
            {
                let ghost prev = out.deep_view();
                out.push(UnsafeFunction { package: package.clone(), function: names[j].clone() });
                assert(out.deep_view() == prev.push(listed[j as int]));
                assert(listed.take(j + 1) == listed.take(j as int).push(listed[j as int]));
                j += 1;
            }
            assert(listed.take(names.len() as int) == listed);
        }
        i += 1;
    }
    out
}

/// The unsafe usage of one package, drawn from the metrics of those of its
/// files that are compiled.
///
/// A file adds to the counters and to the two lists of functions, and is
/// asked whether it forbids unsafe code, where it is one of
/// `rs_files_used`; a file that is not leaves the result as it is.
pub fn unsafe_stats(
    metrics: &PackageMetrics,
    rs_files_used: &Vec<String>,
    package: &String,
) -> (info: UnsafeInfo)
    requires
        counts_fit(metrics.deep_view()),
    ensures
        info.deep_view() == unsafety_of(metrics.deep_view(), rs_files_used.deep_view(), package@),
{
    let ghost files = metrics.deep_view();
    let ghost compiled = rs_files_used.deep_view();
    let mut used = CounterBlock::zero();
    let mut forbids_unsafe = true;
    let mut i: usize = 0;
    while i < metrics.files.len()
        invariant
            i <= metrics.files.len(),
            files == metrics.deep_view(),
            files.len() == metrics.files.len(),
            compiled == rs_files_used.deep_view(),
            counts_fit(files),
            used.deep_view() == compiled_counts(files, compiled, i as int),
            forbids_unsafe == (forall|k: int|
                0 <= k < i && compiled.contains((#[trigger] files[k]).path)
                    && files[k].is_crate_entry_point ==> files[k].forbids_unsafe),
        decreases metrics.files.len() - i,
    {
        let file = &metrics.files[i];
        assert(files[i as int] == file.deep_view());
        proof {
            lemma_compiled_counts_le_total(files, compiled, i + 1);
            lemma_total_counts_monotone(files, i + 1, files.len() as int);
        }
        if contains_path(rs_files_used, &file.path) {
            used = used.plus(file.counters);
            if file.is_crate_entry_point && !file.forbids_unsafe {
                forbids_unsafe = false;
            }
        }
        i += 1;
    }
    UnsafeInfo {
        used,
        forbids_unsafe,
        declared_unsafe_functions: collect_functions(metrics, rs_files_used, package, true),
        contains_unsafe_functions: collect_functions(metrics, rs_files_used, package, false),
    }
}

} // verus!
