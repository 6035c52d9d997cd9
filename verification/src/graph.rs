//! The dependency graph: packages, the edges between them, and which
//! packages can be reached from a root.
use vstd::prelude::*;
use crate::metrics::{counts_fit, MetricsLookup, RsFileMetricsView};
use crate::report::{DependencyKind, PackageId, PackageIdView, PackageInfo, PackageInfoView};

verus! {

/// A dependency of one package on another, the node at index `target`.
#[derive(Clone, Copy, Debug, PartialEq, Eq, Structural)]
pub struct Edge {
    pub target: usize,
    pub kind: DependencyKind,
}

/// A package of the graph, with its dependencies and what is known of its
/// metrics.
#[derive(Debug, PartialEq, Eq)]
pub struct Node {
    pub id: PackageId,
    pub edges: Vec<Edge>,
    pub metrics: MetricsLookup,
}

/// What a `Node` denotes.
pub struct NodeView {
    pub id: PackageIdView,
    pub edges: Seq<Edge>,
    pub metrics: Option<Seq<RsFileMetricsView>>,
}

impl DeepView for Node {
    type V = NodeView;

    open spec fn deep_view(&self) -> NodeView {
        NodeView {
            id: self.id.deep_view(),
            edges: self.edges@,
            metrics: self.metrics.deep_view(),
        }
    }
}

/// A dependency graph. An edge names its target by the target's index in
/// `nodes`.
#[derive(Debug, PartialEq, Eq)]
pub struct Graph {
    pub nodes: Vec<Node>,
}

/// What a `Graph` denotes.
pub struct GraphView {
    pub nodes: Seq<NodeView>,
}

impl DeepView for Graph {
    type V = GraphView;

    open spec fn deep_view(&self) -> GraphView {
        GraphView { nodes: self.nodes.deep_view() }
    }
}

impl GraphView {
    /// The node `u` has an edge to the node `v`.
    pub open spec fn has_edge(self, u: int, v: int) -> bool {
        &&& 0 <= u < self.nodes.len()
        &&& exists|k: int|
            0 <= k < self.nodes[u].edges.len() && (#[trigger] self.nodes[u].edges[k]).target == v
    }

    /// Every edge leads to a node of the graph.
    pub open spec fn edges_in_range(self) -> bool {
        forall|u: int, k: int|
            0 <= u < self.nodes.len() && 0 <= k < self.nodes[u].edges.len() ==> (
            #[trigger] self.nodes[u].edges[k]).target < self.nodes.len()
    }

    /// No two nodes stand for the same package.
    pub open spec fn distinct_ids(self) -> bool {
        forall|i: int, j: int|
            0 <= i < j < self.nodes.len() ==> (#[trigger] self.nodes[i]).id != (
            #[trigger] self.nodes[j]).id
    }

    /// Where a node has metrics, their counters can be added up.
    pub open spec fn metrics_fit(self) -> bool {
        forall|u: int|
            0 <= u < self.nodes.len() && (#[trigger] self.nodes[u]).metrics is Some ==> counts_fit(
                self.nodes[u].metrics->Some_0,
            )
    }

    /// What every graph that is handed to the aggregation has to meet.
    pub open spec fn well_formed(self) -> bool {
        &&& self.edges_in_range()
        &&& self.distinct_ids()
        &&& self.metrics_fit()
    }

    /// Some node stands for the package `id`.
    pub open spec fn contains_id(self, id: PackageIdView) -> bool {
        exists|i: int| 0 <= i < self.nodes.len() && (#[trigger] self.nodes[i]).id == id
    }

    /// `path` is a walk along edges of the graph.
    pub open spec fn is_path(self, path: Seq<int>) -> bool {
        &&& path.len() > 0
        &&& forall|i: int| 0 <= i < path.len() ==> 0 <= #[trigger] path[i] < self.nodes.len()
        &&& forall|i: int| 0 <= i < path.len() - 1 ==> self.has_edge(#[trigger] path[i], path[i + 1])
    }

    /// `path` is a walk from `root` to `v`.
    pub open spec fn path_between(self, path: Seq<int>, root: int, v: int) -> bool {
        self.is_path(path) && path[0] == root && path.last() == v
    }

    /// The node `v` can be reached from `root`: in no step, or along edges.
    pub open spec fn reachable(self, root: int, v: int) -> bool {
        exists|path: Seq<int>| #[trigger] self.path_between(path, root, v)
    }

    /// The packages that the first `k` edges of `node` of the kind `kind`
    /// lead to, each where the first such edge stands.
    pub open spec fn dependencies(self, node: int, kind: DependencyKind, k: int) -> Seq<
        PackageIdView,
    >
        decreases k,
    {
        if k <= 0 {
            Seq::empty()
        } else {
            let before = self.dependencies(node, kind, k - 1);
            let id = self.nodes[self.nodes[node].edges[k - 1].target as int].id;
            if self.nodes[node].edges[k - 1].kind == kind && !before.contains(id) {
                before.push(id)
            } else {
                before
            }
        }
    }

    /// The package at `node` with its dependencies of each kind.
    pub open spec fn package_info(self, node: int) -> PackageInfoView {
        let n = self.nodes[node].edges.len() as int;
        PackageInfoView {
            id: self.nodes[node].id,
            dependencies: self.dependencies(node, DependencyKind::Normal, n),
            dev_dependencies: self.dependencies(node, DependencyKind::Development, n),
            build_dependencies: self.dependencies(node, DependencyKind::Build, n),
        }
    }

    /// Every edge of the marked node `u` leads to a marked node.
    spec fn closed_at(self, marked: Seq<bool>, u: int) -> bool {
        forall|k: int|
            0 <= k < self.nodes[u].edges.len() ==> marked[(
            #[trigger] self.nodes[u].edges[k]).target as int]
    }
}

/// How many entries of `marked` are `false`.
spec fn unmarked(marked: Seq<bool>) -> nat
    decreases marked.len(),
{
    if marked.len() == 0 {
        0
    } else {
        unmarked(marked.drop_last()) + if marked.last() {
            0nat
        } else {
            1nat
        }
    }
}

/// Marking an entry that was not marked leaves one fewer unmarked.
proof fn lemma_mark_one(marked: Seq<bool>, i: int)
    requires
        0 <= i < marked.len(),
        !marked[i],
    ensures
        unmarked(marked.update(i, true)) + 1 == unmarked(marked),
    decreases marked.len(),
{
    let after = marked.update(i, true);
    if i == marked.len() - 1 {
        assert(after.drop_last() == marked.drop_last());
    } else {
        lemma_mark_one(marked.drop_last(), i);
        assert(after.drop_last() == marked.drop_last().update(i, true));
    }
}

/// A set of marked nodes that holds the first node of a walk, and with each
/// of its nodes those that its edges lead to, holds the whole walk.
proof fn lemma_closed_holds_path(g: GraphView, marked: Seq<bool>, path: Seq<int>, i: int)
    requires
        marked.len() == g.nodes.len(),
        g.is_path(path),
        marked[path[0]],
        forall|u: int| 0 <= u < g.nodes.len() && marked[u] ==> g.closed_at(marked, u),
        0 <= i < path.len(),
    ensures
        marked[path[i]],
    decreases i,
{
    if i > 0 {
        lemma_closed_holds_path(g, marked, path, i - 1);
        let u = path[i - 1];
        assert(g.has_edge(u, path[i]));
        let k = choose|k: int|
            0 <= k < g.nodes[u].edges.len() && (#[trigger] g.nodes[u].edges[k]).target == path[i];
        assert(g.closed_at(marked, u));
    }
}

/// No list of dependencies names a package twice.
pub proof fn lemma_dependencies_are_distinct(g: GraphView, node: int, kind: DependencyKind, k: int)
    ensures
        g.dependencies(node, kind, k).no_duplicates(),
    decreases k,
{
    if k > 0 {
        lemma_dependencies_are_distinct(g, node, kind, k - 1);
    }
}

/// Whether `id` is one of `ids`.
pub fn contains_id(ids: &Vec<PackageId>, id: &PackageId) -> (b: bool)
    ensures
        b == ids.deep_view().contains(id.deep_view()),
{
    let mut i: usize = 0;
    while i < ids.len()
        invariant
            i <= ids.len(),
            forall|j: int| 0 <= j < i ==> ids.deep_view()[j] != id.deep_view(),
        decreases ids.len() - i,
    {
        if ids[i].same(id) {
            assert(ids.deep_view()[i as int] == id.deep_view());
            return true;
        }
        i += 1;
    }
    false
}

/// Every node can be reached from itself.
pub proof fn lemma_root_is_reachable(g: GraphView, root: int)
    requires
        0 <= root < g.nodes.len(),
    ensures
        g.reachable(root, root),
{
    assert(g.path_between(seq![root], root, root));
}

/// What an edge of a node leads to can be reached from wherever the node
/// can be: a walk to `u` with one more step along an edge of `u` is a walk
/// to the edge's target.
pub proof fn lemma_extend_path(g: GraphView, root: int, u: int, k: int)
    requires
        g.edges_in_range(),
        g.reachable(root, u),
        0 <= k < g.nodes[u].edges.len(),
    ensures
        g.reachable(root, g.nodes[u].edges[k].target as int),
{
    let path = choose|path: Seq<int>| #[trigger] g.path_between(path, root, u);
    let v = g.nodes[u].edges[k].target as int;
    let longer = path.push(v);
    assert(0 <= u < g.nodes.len());
    assert(g.has_edge(u, v));
    assert forall|i: int| 0 <= i < longer.len() - 1 implies g.has_edge(
        #[trigger] longer[i],
        longer[i + 1],
    ) by {
        if i < path.len() - 1 {
            assert(g.has_edge(path[i], path[i + 1]));
        }
    }
    assert(g.path_between(longer, root, v));
}

impl Graph {
    /// The index of the node that stands for the package `id`, if any does:
    /// the first one.
    pub fn index_of(&self, id: &PackageId) -> (r: Option<usize>)
        ensures
            match r {
                Some(i) => {
                    &&& i < self.nodes.len()
                    &&& self.deep_view().nodes[i as int].id == id.deep_view()
                    &&& forall|j: int| 0 <= j < i ==> self.deep_view().nodes[j].id != id.deep_view()
                },
                None => !self.deep_view().contains_id(id.deep_view()),
            },
    {
        let mut i: usize = 0;
        while i < self.nodes.len()
            invariant
                i <= self.nodes.len(),
                forall|j: int| 0 <= j < i ==> self.deep_view().nodes[j].id != id.deep_view(),
            decreases self.nodes.len() - i,
        {
            if self.nodes[i].id.same(id) {
                return Some(i);
            }
            i += 1;
        }
        None
    }

    /// Whether every edge leads to a node of the graph.
    pub fn edges_in_range(&self) -> (b: bool)
        ensures
            b == self.deep_view().edges_in_range(),
    {
        let ghost g = self.deep_view();
        let n = self.nodes.len();
        let mut u: usize = 0;
        while u < n
            invariant
                g == self.deep_view(),
                n == self.nodes.len(),
                u <= n,
                forall|w: int, k: int|
                    0 <= w < u && 0 <= k < g.nodes[w].edges.len() ==> (
                    #[trigger] g.nodes[w].edges[k]).target < n,
            decreases n - u,
        {
            let node = &self.nodes[u];
            assert(g.nodes[u as int].edges == node.edges@);
            let mut k: usize = 0;
            while k < node.edges.len()
                invariant
                    g == self.deep_view(),
                    u < n,
                    n == g.nodes.len(),
                    g.nodes[u as int].edges == node.edges@,
                    k <= node.edges.len(),
                    forall|j: int| 0 <= j < k ==> (#[trigger] node.edges[j]).target < n,
                decreases node.edges.len() - k,
            {
                if node.edges[k].target >= n {
                    assert(g.nodes[u as int].edges[k as int].target >= n);
                    return false;
                }
                k += 1;
            }
            u += 1;
        }
        true
    }

    /// Whether no two nodes stand for the same package.
    pub fn distinct_ids(&self) -> (b: bool)
        ensures
            b == self.deep_view().distinct_ids(),
    {
        let ghost g = self.deep_view();
        let n = self.nodes.len();
        let mut j: usize = 0;
        while j < n
            invariant
                g == self.deep_view(),
                n == self.nodes.len(),
                j <= n,
                forall|a: int, b: int|
                    0 <= a < b < j ==> (#[trigger] g.nodes[a]).id != (#[trigger] g.nodes[b]).id,
            decreases n - j,
        {
            let mut i: usize = 0;
            while i < j
                invariant
                    g == self.deep_view(),
                    n == self.nodes.len(),
                    i <= j < n,
                    forall|a: int| 0 <= a < i ==> (#[trigger] g.nodes[a]).id != g.nodes[j as int].id,
                decreases j - i,
            {
                if self.nodes[i].id.same(&self.nodes[j].id) {
                    assert(g.nodes[i as int].id == g.nodes[j as int].id);
                    return false;
                }
                i += 1;
            }
            j += 1;
        }
        true
    }

    /// Whether the counters of each node that has metrics can be added up.
    pub fn metrics_fit(&self) -> (b: bool)
        ensures
            b == self.deep_view().metrics_fit(),
    {
        let ghost g = self.deep_view();
        let n = self.nodes.len();
        let mut u: usize = 0;
        while u < n
            invariant
                g == self.deep_view(),
                n == self.nodes.len(),
                u <= n,
                forall|w: int|
                    0 <= w < u && (#[trigger] g.nodes[w]).metrics is Some ==> counts_fit(
                        g.nodes[w].metrics->Some_0,
                    ),
            decreases n - u,
        {
            assert(g.nodes[u as int].metrics == self.nodes[u as int].metrics.deep_view());
            match &self.nodes[u].metrics {
                MetricsLookup::Present(metrics) => {
                    if !metrics.counts_fit() {
                        return false;
                    }
                },
                MetricsLookup::Absent => {},
            }
            u += 1;
        }
        true
    }

    /// Whether the graph is one that the aggregation accepts.
    pub fn is_well_formed(&self) -> (b: bool)
        ensures
            b == self.deep_view().well_formed(),
    {
        self.edges_in_range() && self.distinct_ids() && self.metrics_fit()
    }

    /// The package at `node` with the packages that its edges lead to, by
    /// kind of dependency and in the order of the edges, each package once.
    pub fn package_info(&self, node: usize) -> (info: PackageInfo)
        requires
            self.deep_view().edges_in_range(),
            node < self.nodes.len(),
        ensures
            info.deep_view() == self.deep_view().package_info(node as int),
            info.deep_view().well_formed(),
    {
        let ghost g = self.deep_view();
        proof {
            let n = g.nodes[node as int].edges.len() as int;
            lemma_dependencies_are_distinct(g, node as int, DependencyKind::Normal, n);
            lemma_dependencies_are_distinct(g, node as int, DependencyKind::Development, n);
            lemma_dependencies_are_distinct(g, node as int, DependencyKind::Build, n);
        }
        let this = &self.nodes[node];
        assert(g.nodes[node as int] == this.deep_view());
        let mut dependencies: Vec<PackageId> = Vec::new();
        let mut dev_dependencies: Vec<PackageId> = Vec::new();
        let mut build_dependencies: Vec<PackageId> = Vec::new();
        let mut k: usize = 0;
        while k < this.edges.len()
            invariant
                g == self.deep_view(),
                g.edges_in_range(),
                node < self.nodes.len(),
                g.nodes[node as int].edges == this.edges@,
                k <= this.edges.len(),
                dependencies.deep_view() == g.dependencies(
                    node as int,
                    DependencyKind::Normal,
                    k as int,
                ),
                dev_dependencies.deep_view() == g.dependencies(
                    node as int,
                    DependencyKind::Development,
                    k as int,
                ),
                build_dependencies.deep_view() == g.dependencies(
                    node as int,
                    DependencyKind::Build,
                    k as int,
                ),
            decreases this.edges.len() - k,
        {
            let edge = this.edges[k];
            assert(g.nodes[node as int].edges[k as int] == edge);
            let id = self.nodes[edge.target].id.clone();
            assert(id.deep_view() == g.nodes[edge.target as int].id);
            match edge.kind {
                DependencyKind::Normal => {
                    if !contains_id(&dependencies, &id) {
                        let ghost prev = dependencies.deep_view();
                        dependencies.push(id);
                        assert(dependencies.deep_view() == prev.push(id.deep_view()));
                    }
                },
                DependencyKind::Development => {
                    if !contains_id(&dev_dependencies, &id) {
                        let ghost prev = dev_dependencies.deep_view();
                        dev_dependencies.push(id);
                        assert(dev_dependencies.deep_view() == prev.push(id.deep_view()));
                    }
                },
                DependencyKind::Build => {
                    if !contains_id(&build_dependencies, &id) {
                        let ghost prev = build_dependencies.deep_view();
                        build_dependencies.push(id);
                        assert(build_dependencies.deep_view() == prev.push(id.deep_view()));
                    }
                },
            }
            k += 1;
        }
        PackageInfo { id: this.id.clone(), dependencies, dev_dependencies, build_dependencies }
    }

    /// Which nodes can be reached from the node `root`.
    pub fn reachable_from(&self, root: usize) -> (reached: Vec<bool>)
        requires
            self.deep_view().edges_in_range(),
            root < self.nodes.len(),
        ensures
            reached.len() == self.nodes.len(),
            forall|v: int|
                0 <= v < reached.len() ==> reached[v] == self.deep_view().reachable(root as int, v),
    {
        let ghost g = self.deep_view();
        let n = self.nodes.len();
        let mut reached: Vec<bool> = Vec::new();
        while reached.len() < n
            invariant
                reached.len() <= n,
                forall|v: int| 0 <= v < reached.len() ==> !reached[v],
            decreases n - reached.len(),
        {
            reached.push(false);
        }
        let mut stack: Vec<usize> = Vec::new();
        reached.set(root, true);
        stack.push(root);
        proof {
            lemma_root_is_reachable(g, root as int);
            assert(stack@[0] == root);
        }
        while stack.len() > 0
            invariant
                g == self.deep_view(),
                g.edges_in_range(),
                n == self.nodes.len(),
                reached.len() == n,
                root < n,
                reached[root as int],
                forall|i: int| 0 <= i < stack.len() ==> stack[i] < n && reached[stack[i] as int],
                forall|v: int| 0 <= v < n && reached[v] ==> g.reachable(root as int, v),
                forall|u: int|
                    0 <= u < n && reached[u] ==> g.closed_at(reached@, u) || stack@.contains(
                        u as usize,
                    ),
            decreases unmarked(reached@), stack.len(),
        {
            let ghost before = unmarked(reached@);
            let ghost held = stack@;
            let u = stack.pop().unwrap();
            let ghost rest = stack@;
            let node = &self.nodes[u];
            assert(g.nodes[u as int].edges == node.edges@);
            assert forall|w: int| 0 <= w < n && reached[w] implies g.closed_at(reached@, w)
                || rest.contains(w as usize) || w == u by {
                if held.contains(w as usize) {
                    let i = choose|i: int| 0 <= i < held.len() && held[i] == w as usize;
                    if i < rest.len() {
                        assert(rest[i] == w as usize);
                    }
                }
            }
            let mut k: usize = 0;
            while k < node.edges.len()
                invariant
                    g == self.deep_view(),
                    g.edges_in_range(),
                    n == self.nodes.len(),
                    reached.len() == n,
                    root < n,
                    reached[root as int],
                    u < n,
                    reached[u as int],
                    g.nodes[u as int].edges == node.edges@,
                    k <= node.edges.len(),
                    forall|i: int| 0 <= i < stack.len() ==> stack[i] < n && reached[stack[i] as int],
                    forall|v: int| 0 <= v < n && reached[v] ==> g.reachable(root as int, v),
                    forall|j: int| 0 <= j < k ==> reached[node.edges[j].target as int],
                    forall|w: int|
                        0 <= w < n && reached[w] ==> g.closed_at(reached@, w) || stack@.contains(
                            w as usize,
                        ) || w == u,
                    unmarked(reached@) <= before,
                    unmarked(reached@) == before ==> stack@ == rest,
                decreases node.edges.len() - k,
            {
                let v = node.edges[k].target;
                assert(g.nodes[u as int].edges[k as int].target == v);
                if !reached[v] {
                    let ghost marked = reached@;
                    let ghost held = stack@;
                    proof {
                        lemma_mark_one(marked, v as int);
                        lemma_extend_path(g, root as int, u as int, k as int);
                    }
                    reached.set(v, true);
                    stack.push(v);
                    assert(stack@.last() == v);
                    assert forall|w: int| 0 <= w < n && reached[w] implies g.closed_at(reached@, w)
                        || stack@.contains(w as usize) || w == u by {
                        if w == v as int {
                            assert(stack@[stack.len() - 1] == w as usize);
                        } else if held.contains(w as usize) {
                            let i = choose|i: int| 0 <= i < held.len() && held[i] == w as usize;
                            assert(stack@[i] == w as usize);
                        } else if w != u {
                            assert(g.closed_at(marked, w));
                        }
                    }
                }
                k += 1;
            }
            assert(g.closed_at(reached@, u as int));
            assert forall|w: int| 0 <= w < n && reached[w] implies g.closed_at(reached@, w)
                || stack@.contains(w as usize) by {}
        }
        proof {
            assert forall|v: int| 0 <= v < reached.len() implies reached[v] == g.reachable(
                root as int,
                v,
            ) by {
                if g.reachable(root as int, v) {
                    let path = choose|path: Seq<int>| #[trigger] g.path_between(path, root as int, v);
                    lemma_closed_holds_path(g, reached@, path, path.len() - 1);
                }
            }
        }
        reached
    }
}

} // verus!
