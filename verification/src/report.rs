//! The report and the values it is made of, each with its mathematical view.
use vstd::prelude::*;

verus! {

/// Where a package is fetched from.
#[derive(Debug, PartialEq, Eq)]
pub enum Source {
    /// A revision of a git repository.
    Git { url: String, rev: String },
    /// A registry of crates.
    Registry { name: String, url: String },
    /// A directory.
    Path(String),
}

/// What a `Source` denotes.
pub enum SourceView {
    Git { url: Seq<char>, rev: Seq<char> },
    Registry { name: Seq<char>, url: Seq<char> },
    Path(Seq<char>),
}

impl DeepView for Source {
    type V = SourceView;

    open spec fn deep_view(&self) -> SourceView {
        match self {
            Source::Git { url, rev } => SourceView::Git { url: url@, rev: rev@ },
            Source::Registry { name, url } => SourceView::Registry { name: name@, url: url@ },
            Source::Path(url) => SourceView::Path(url@),
        }
    }
}

impl Clone for Source {
    fn clone(&self) -> (r: Self)
        ensures
            r.deep_view() == self.deep_view(),
    {
        match self {
            Source::Git { url, rev } => Source::Git { url: url.clone(), rev: rev.clone() },
            Source::Registry { name, url } => Source::Registry {
                name: name.clone(),
                url: url.clone(),
            },
            Source::Path(url) => Source::Path(url.clone()),
        }
    }
}

impl Source {
    /// Whether two sources are the same.
    pub fn same(&self, other: &Source) -> (b: bool)
        ensures
            b == (self.deep_view() == other.deep_view()),
    {
        match (self, other) {
            (Source::Git { url, rev }, Source::Git { url: other_url, rev: other_rev }) => {
                *url == *other_url && *rev == *other_rev
            },
            (
                Source::Registry { name, url },
                Source::Registry { name: other_name, url: other_url },
            ) => { *name == *other_name && *url == *other_url },
            (Source::Path(url), Source::Path(other_url)) => *url == *other_url,
            _ => false,
        }
    }
}

/// Identifies a package in the dependency graph.
#[derive(Debug, PartialEq, Eq)]
pub struct PackageId {
    pub name: String,
    pub version: String,
    pub source: Source,
}

/// What a `PackageId` denotes.
pub struct PackageIdView {
    pub name: Seq<char>,
    pub version: Seq<char>,
    pub source: SourceView,
}

impl DeepView for PackageId {
    type V = PackageIdView;

    open spec fn deep_view(&self) -> PackageIdView {
        PackageIdView {
            name: self.name@,
            version: self.version@,
            source: self.source.deep_view(),
        }
    }
}

impl Clone for PackageId {
    fn clone(&self) -> (r: Self)
        ensures
            r.deep_view() == self.deep_view(),
    {
        PackageId {
            name: self.name.clone(),
            version: self.version.clone(),
            source: self.source.clone(),
        }
    }
}

impl PackageId {
    /// Whether two identifiers denote the same package.
    pub fn same(&self, other: &PackageId) -> (b: bool)
        ensures
            b == (self.deep_view() == other.deep_view()),
    {
        self.name == other.name && self.version == other.version && self.source.same(
            &other.source,
        )
    }
}

/// Which of a package's lists of dependencies an edge comes from.
#[derive(Clone, Copy, Debug, PartialEq, Eq, Structural)]
pub enum DependencyKind {
    Normal,
    Development,
    Build,
}

/// A package with the packages it depends on, by kind of dependency. A
/// list names a package once, however many edges lead to it.
#[derive(Debug, PartialEq, Eq)]
pub struct PackageInfo {
    pub id: PackageId,
    pub dependencies: Vec<PackageId>,
    pub dev_dependencies: Vec<PackageId>,
    pub build_dependencies: Vec<PackageId>,
}

/// What a `PackageInfo` denotes.
pub struct PackageInfoView {
    pub id: PackageIdView,
    pub dependencies: Seq<PackageIdView>,
    pub dev_dependencies: Seq<PackageIdView>,
    pub build_dependencies: Seq<PackageIdView>,
}

impl DeepView for PackageInfo {
    type V = PackageInfoView;

    open spec fn deep_view(&self) -> PackageInfoView {
        PackageInfoView {
            id: self.id.deep_view(),
            dependencies: self.dependencies.deep_view(),
            dev_dependencies: self.dev_dependencies.deep_view(),
            build_dependencies: self.build_dependencies.deep_view(),
        }
    }
}

impl PackageInfoView {
    /// No list of dependencies holds a package twice.
    pub open spec fn well_formed(self) -> bool {
        &&& self.dependencies.no_duplicates()
        &&& self.dev_dependencies.no_duplicates()
        &&& self.build_dependencies.no_duplicates()
    }
}

/// How many items of one sort are safe and how many are unsafe.
#[derive(Clone, Copy, Debug, PartialEq, Eq, Structural)]
pub struct Count {
    pub safe: u64,
    pub unsafe_: u64,
}

/// A `Count` over the unbounded integers: what sums of counts are stated in.
pub struct CountSum {
    pub safe: int,
    pub unsafe_: int,
}

impl CountSum {
    pub open spec fn zero() -> CountSum {
        CountSum { safe: 0, unsafe_: 0 }
    }

    pub open spec fn plus(self, other: CountSum) -> CountSum {
        CountSum { safe: self.safe + other.safe, unsafe_: self.unsafe_ + other.unsafe_ }
    }

    /// Both numbers are counts that a `u64` holds.
    pub open spec fn fits(self) -> bool {
        0 <= self.safe <= u64::MAX && 0 <= self.unsafe_ <= u64::MAX
    }

    /// Neither number of `self` exceeds that of `other`.
    pub open spec fn le(self, other: CountSum) -> bool {
        self.safe <= other.safe && self.unsafe_ <= other.unsafe_
    }
}

impl DeepView for Count {
    type V = CountSum;

    open spec fn deep_view(&self) -> CountSum {
        CountSum { safe: self.safe as int, unsafe_: self.unsafe_ as int }
    }
}

impl Count {
    pub fn zero() -> (r: Count)
        ensures
            r.deep_view() == CountSum::zero(),
    {
        Count { safe: 0, unsafe_: 0 }
    }

    /// The sum of two counts, where it can be held.
    pub fn plus(self, other: Count) -> (r: Count)
        requires
            self.deep_view().plus(other.deep_view()).fits(),
        ensures
            r.deep_view() == self.deep_view().plus(other.deep_view()),
    {
        Count { safe: self.safe + other.safe, unsafe_: self.unsafe_ + other.unsafe_ }
    }

    /// The sum of two counts, or `None` where a `u64` cannot hold it.
    pub fn checked_plus(self, other: Count) -> (r: Option<Count>)
        ensures
            match r {
                Some(c) => c.deep_view() == self.deep_view().plus(other.deep_view()),
                None => !self.deep_view().plus(other.deep_view()).fits(),
            },
    {
        match self.safe.checked_add(other.safe) {
            Some(safe) => match self.unsafe_.checked_add(other.unsafe_) {
                Some(unsafe_) => Some(Count { safe, unsafe_ }),
                None => None,
            },
            None => None,
        }
    }
}

/// The counts of unsafe usage, one for each sort of item.
#[derive(Clone, Copy, Debug, PartialEq, Eq, Structural)]
pub struct CounterBlock {
    pub functions: Count,
    pub exprs: Count,
    pub item_impls: Count,
    pub item_traits: Count,
    pub methods: Count,
}

/// A `CounterBlock` over the unbounded integers.
pub struct BlockSum {
    pub functions: CountSum,
    pub exprs: CountSum,
    pub item_impls: CountSum,
    pub item_traits: CountSum,
    pub methods: CountSum,
}

impl BlockSum {
    pub open spec fn zero() -> BlockSum {
        BlockSum {
            functions: CountSum::zero(),
            exprs: CountSum::zero(),
            item_impls: CountSum::zero(),
            item_traits: CountSum::zero(),
            methods: CountSum::zero(),
        }
    }

    pub open spec fn plus(self, other: BlockSum) -> BlockSum {
        BlockSum {
            functions: self.functions.plus(other.functions),
            exprs: self.exprs.plus(other.exprs),
            item_impls: self.item_impls.plus(other.item_impls),
            item_traits: self.item_traits.plus(other.item_traits),
            methods: self.methods.plus(other.methods),
        }
    }

    /// Every number is a count that a `u64` holds.
    pub open spec fn fits(self) -> bool {
        &&& self.functions.fits()
        &&& self.exprs.fits()
        &&& self.item_impls.fits()
        &&& self.item_traits.fits()
        &&& self.methods.fits()
    }

    /// No number of `self` exceeds that of `other`.
    pub open spec fn le(self, other: BlockSum) -> bool {
        &&& self.functions.le(other.functions)
        &&& self.exprs.le(other.exprs)
        &&& self.item_impls.le(other.item_impls)
        &&& self.item_traits.le(other.item_traits)
        &&& self.methods.le(other.methods)
    }
}

impl DeepView for CounterBlock {
    type V = BlockSum;

    open spec fn deep_view(&self) -> BlockSum {
        BlockSum {
            functions: self.functions.deep_view(),
            exprs: self.exprs.deep_view(),
            item_impls: self.item_impls.deep_view(),
            item_traits: self.item_traits.deep_view(),
            methods: self.methods.deep_view(),
        }
    }
}

impl CounterBlock {
    pub fn zero() -> (r: CounterBlock)
        ensures
            r.deep_view() == BlockSum::zero(),
    {
        CounterBlock {
            functions: Count::zero(),
            exprs: Count::zero(),
            item_impls: Count::zero(),
            item_traits: Count::zero(),
            methods: Count::zero(),
        }
    }

    /// The sum of two blocks, sort by sort, where it can be held.
    pub fn plus(self, other: CounterBlock) -> (r: CounterBlock)
        requires
            self.deep_view().plus(other.deep_view()).fits(),
        ensures
            r.deep_view() == self.deep_view().plus(other.deep_view()),
    {
        CounterBlock {
            functions: self.functions.plus(other.functions),
            exprs: self.exprs.plus(other.exprs),
            item_impls: self.item_impls.plus(other.item_impls),
            item_traits: self.item_traits.plus(other.item_traits),
            methods: self.methods.plus(other.methods),
        }
    }

    /// The sum of two blocks, or `None` where one of its numbers is too large
    /// for a `u64`.
    pub fn checked_plus(self, other: CounterBlock) -> (r: Option<CounterBlock>)
        ensures
            match r {
                Some(b) => b.deep_view() == self.deep_view().plus(other.deep_view()),
                None => !self.deep_view().plus(other.deep_view()).fits(),
            },
    {
        let functions = self.functions.checked_plus(other.functions);
        let exprs = self.exprs.checked_plus(other.exprs);
        let item_impls = self.item_impls.checked_plus(other.item_impls);
        let item_traits = self.item_traits.checked_plus(other.item_traits);
        let methods = self.methods.checked_plus(other.methods);
        match (functions, exprs, item_impls, item_traits, methods) {
            (Some(functions), Some(exprs), Some(item_impls), Some(item_traits), Some(methods)) => {
                Some(CounterBlock { functions, exprs, item_impls, item_traits, methods })
            },
            _ => None,
        }
    }

    /// Whether any sort of item was counted as unsafe.
    pub fn has_unsafe(&self) -> (b: bool)
        ensures
            b == (self.functions.unsafe_ > 0 || self.exprs.unsafe_ > 0 || self.item_impls.unsafe_
                > 0 || self.item_traits.unsafe_ > 0 || self.methods.unsafe_ > 0),
    {
        self.functions.unsafe_ > 0 || self.exprs.unsafe_ > 0 || self.item_impls.unsafe_ > 0
            || self.item_traits.unsafe_ > 0 || self.methods.unsafe_ > 0
    }
}

/// A function that is unsafe, or holds unsafe code, with the package that owns it.
#[derive(Debug, PartialEq, Eq)]
pub struct UnsafeFunction {
    pub package: String,
    pub function: String,
}

/// What an `UnsafeFunction` denotes.
pub struct UnsafeFunctionView {
    pub package: Seq<char>,
    pub function: Seq<char>,
}

impl DeepView for UnsafeFunction {
    type V = UnsafeFunctionView;

    open spec fn deep_view(&self) -> UnsafeFunctionView {
        UnsafeFunctionView { package: self.package@, function: self.function@ }
    }
}

/// The unsafe usage of one package, as far as its files are compiled: a
/// file that is not compiled adds nothing to it.
#[derive(Debug, PartialEq, Eq)]
pub struct UnsafeInfo {
    /// The counters of the compiled files, added up.
    pub used: CounterBlock,
    /// Whether every compiled entry point of a crate forbids unsafe code.
    pub forbids_unsafe: bool,
    pub declared_unsafe_functions: Vec<UnsafeFunction>,
    pub contains_unsafe_functions: Vec<UnsafeFunction>,
}

/// What an `UnsafeInfo` denotes.
pub struct UnsafeInfoView {
    pub used: BlockSum,
    pub forbids_unsafe: bool,
    pub declared_unsafe_functions: Seq<UnsafeFunctionView>,
    pub contains_unsafe_functions: Seq<UnsafeFunctionView>,
}

impl DeepView for UnsafeInfo {
    type V = UnsafeInfoView;

    open spec fn deep_view(&self) -> UnsafeInfoView {
        UnsafeInfoView {
            used: self.used.deep_view(),
            forbids_unsafe: self.forbids_unsafe,
            declared_unsafe_functions: self.declared_unsafe_functions.deep_view(),
            contains_unsafe_functions: self.contains_unsafe_functions.deep_view(),
        }
    }
}

/// What the report says of one package that has metrics.
#[derive(Debug, PartialEq, Eq)]
pub struct ReportEntry {
    pub package: PackageInfo,
    pub unsafety: UnsafeInfo,
}

/// What a `ReportEntry` denotes.
pub struct ReportEntryView {
    pub package: PackageInfoView,
    pub unsafety: UnsafeInfoView,
}

impl DeepView for ReportEntry {
    type V = ReportEntryView;

    open spec fn deep_view(&self) -> ReportEntryView {
        ReportEntryView {
            package: self.package.deep_view(),
            unsafety: self.unsafety.deep_view(),
        }
    }
}

/// The safety report of one scan.
#[derive(Debug, PartialEq, Eq)]
pub struct SafetyReport {
    /// One entry for each package that has metrics.
    pub packages: Vec<ReportEntry>,
    /// The packages for which no metrics could be had.
    pub packages_without_metrics: Vec<PackageId>,
    /// The compiled files that the finder never visited.
    pub used_but_not_scanned_files: Vec<String>,
}

/// What a `SafetyReport` denotes.
pub struct SafetyReportView {
    pub packages: Seq<ReportEntryView>,
    pub packages_without_metrics: Seq<PackageIdView>,
    pub used_but_not_scanned_files: Seq<Seq<char>>,
}

impl DeepView for SafetyReport {
    type V = SafetyReportView;

    open spec fn deep_view(&self) -> SafetyReportView {
        SafetyReportView {
            packages: self.packages.deep_view(),
            packages_without_metrics: self.packages_without_metrics.deep_view(),
            used_but_not_scanned_files: self.used_but_not_scanned_files.deep_view(),
        }
    }
}

impl SafetyReportView {
    /// The report holds an entry for the package `id`.
    pub open spec fn has_entry(self, id: PackageIdView) -> bool {
        exists|i: int| 0 <= i < self.packages.len() && (#[trigger] self.packages[i]).package.id == id
    }

    /// The report lists `id` among the packages without metrics.
    pub open spec fn lacks_metrics(self, id: PackageIdView) -> bool {
        self.packages_without_metrics.contains(id)
    }

    /// The entries as a mapping from package identifier to entry.
    pub open spec fn entries(self) -> Map<PackageIdView, ReportEntryView> {
        Map::new(
            |id: PackageIdView| self.has_entry(id),
            |id: PackageIdView|
                self.packages[choose|i: int|
                    0 <= i < self.packages.len() && (#[trigger] self.packages[i]).package.id == id],
        )
    }

    /// No package has two entries, none is listed twice as without metrics
    /// or as a dependency of one kind of a package, and no file is listed
    /// twice.
    pub open spec fn well_formed(self) -> bool {
        &&& forall|i: int, j: int|
            0 <= i < j < self.packages.len() ==> (#[trigger] self.packages[i]).package.id != (
            #[trigger] self.packages[j]).package.id
        &&& forall|i: int|
            0 <= i < self.packages.len() ==> (#[trigger] self.packages[i]).package.well_formed()
        &&& self.packages_without_metrics.no_duplicates()
        &&& self.used_but_not_scanned_files.no_duplicates()
    }
}

} // verus!
