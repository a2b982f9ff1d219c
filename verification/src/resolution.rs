//! The outcome of dependency resolution: the dependency graph of the
//! selected packages and the order in which they are installed.
//!
//! Node `i` of the graph is the `i`-th selected package; an edge runs from a
//! dependency to the package that needs it, so a topological order installs
//! dependencies first. Where the graph has a cycle the order breaks it at a
//! package with the fewest dependencies still waiting.
use vstd::prelude::*;
use core::time::Duration;
use petgraph::graph::{DiGraph, NodeIndex};
use petgraph::Direction;
use crate::plugin::api::{clone_opt, opt_view};
use crate::text::{owned, str_eq, views};

verus! {

#[verifier::external_type_specification]
#[verifier::external_body]
#[verifier::reject_recursive_types(N)]
#[verifier::reject_recursive_types(E)]
#[verifier::reject_recursive_types(Ty)]
#[verifier::reject_recursive_types(Ix)]
pub struct ExGraph<N, E, Ty, Ix>(petgraph::graph::Graph<N, E, Ty, Ix>);

#[verifier::external_type_specification]
#[verifier::external_body]
pub struct ExDirected(petgraph::Directed);

/// The package names at the nodes of a dependency graph, by node index.
pub uninterp spec fn graph_nodes(g: DiGraph<String, ()>) -> Seq<Seq<char>>;

/// The edges of a dependency graph as (from, to) node indices, in the
/// order in which they were added.
pub uninterp spec fn graph_edges(g: DiGraph<String, ()>) -> Seq<(int, int)>;

/// Which end of an edge a neighbour is read from.
#[derive(Debug, Clone, Copy, PartialEq, Eq)]
pub enum EdgeDirection {
    /// Edges that end at the node: the node's dependencies.
    Incoming,
    /// Edges that start at the node: the packages that depend on it.
    Outgoing,
}

/// The neighbours of `node` along edges in direction `dir`, most recently
/// added edge first; a neighbour appears once per edge.
pub open spec fn neighbors_of(edges: Seq<(int, int)>, node: int, dir: EdgeDirection) -> Seq<int>
    decreases edges.len(),
{
    if edges.len() == 0 {
        Seq::empty()
    } else {
        let e = edges.last();
        let rest = neighbors_of(edges.drop_last(), node, dir);
        match dir {
            EdgeDirection::Incoming => if e.1 == node {
                seq![e.0].add(rest)
            } else {
                rest
            },
            EdgeDirection::Outgoing => if e.0 == node {
                seq![e.1].add(rest)
            } else {
                rest
            },
        }
    }
}

/// Every edge joins two nodes of a graph with `n` nodes.
pub open spec fn edges_within(n: int, edges: Seq<(int, int)>) -> bool {
    forall|j: int| 0 <= j < edges.len() ==> 0 <= #[trigger] edges[j].0 < n && 0 <= edges[j].1 < n
}

/// `DiGraph::new`: a graph without nodes or edges.
#[verifier::external_body]
fn graph_new() -> (g: DiGraph<String, ()>)
    ensures
        graph_nodes(g) == Seq::<Seq<char>>::empty(),
        graph_edges(g) == Seq::<(int, int)>::empty(),
{
    DiGraph::new()
}

/// `Graph::add_node`: appends a node and returns its index, the former
/// node count. It panics once the `u32` indices are used up.
#[verifier::external_body]
fn graph_add_node(g: &mut DiGraph<String, ()>, name: String) -> (i: usize)
    requires
        graph_nodes(*old(g)).len() < u32::MAX,
    ensures
        i == graph_nodes(*old(g)).len(),
        graph_nodes(*final(g)) == graph_nodes(*old(g)).push(name@),
        graph_edges(*final(g)) == graph_edges(*old(g)),
{
    g.add_node(name).index()
}

/// `Graph::add_edge`: appends an edge between two existing nodes. It panics
/// on a node that does not exist and once the `u32` indices are used up.
#[verifier::external_body]
fn graph_add_edge(g: &mut DiGraph<String, ()>, from: usize, to: usize)
    requires
        from < graph_nodes(*old(g)).len(),
        to < graph_nodes(*old(g)).len(),
        graph_edges(*old(g)).len() < u32::MAX,
    ensures
        graph_nodes(*final(g)) == graph_nodes(*old(g)),
        graph_edges(*final(g)) == graph_edges(*old(g)).push((from as int, to as int)),
{
    g.add_edge(NodeIndex::new(from), NodeIndex::new(to), ());
}

/// `Graph::node_count`. Node indices are `u32` and `add_node` refuses the
/// last one, so the count stays within `u32::MAX`; and the graph keeps every
/// edge between two of its nodes (`add_edge` refuses any other).
#[verifier::external_body]
fn graph_node_count(g: &DiGraph<String, ()>) -> (n: usize)
    ensures
        n == graph_nodes(*g).len(),
        n <= u32::MAX,
        edges_within(n as int, graph_edges(*g)),
{
    g.node_count()
}

/// `Graph::node_weight`: the package name at a node, `None` where there is
/// no such node. The index is read as a `u32` node index, so it is bounded.
#[verifier::external_body]
fn graph_node_weight(g: &DiGraph<String, ()>, node: usize) -> (r: Option<String>)
    requires
        node <= u32::MAX,
    ensures
        match r {
            Some(s) => node < graph_nodes(*g).len() && s@ == graph_nodes(*g)[node as int],
            None => node >= graph_nodes(*g).len(),
        },
{
    g.node_weight(NodeIndex::new(node)).cloned()
}

/// `Graph::neighbors_directed` on an existing node: for a directed graph
/// the documentation lists the neighbours in reverse order of edge addition.
/// Each neighbour comes from a `u32` node index.
#[verifier::external_body]
fn graph_neighbors(g: &DiGraph<String, ()>, node: usize, dir: EdgeDirection) -> (r: Vec<usize>)
    requires
        node < graph_nodes(*g).len(),
    ensures
        r@.map_values(|i: usize| i as int) == neighbors_of(graph_edges(*g), node as int, dir),
        forall|t: int| 0 <= t < r@.len() ==> r@[t] <= u32::MAX,
{
    let d = match dir {
        EdgeDirection::Incoming => Direction::Incoming,
        EdgeDirection::Outgoing => Direction::Outgoing,
    };
    g.neighbors_directed(NodeIndex::new(node), d).map(|n| n.index()).collect()
}

/// The number of edges into `v` whose source is still live.
pub open spec fn live_in_degree(edges: Seq<(int, int)>, v: int, live: Seq<bool>) -> nat
    decreases edges.len(),
{
    if edges.len() == 0 {
        0
    } else {
        let e = edges.last();
        live_in_degree(edges.drop_last(), v, live) + if e.1 == v && live[e.0] {
            1nat
        } else {
            0nat
        }
    }
}

/// The number of edges from `x` to `y`.
pub open spec fn edge_multiplicity(edges: Seq<(int, int)>, x: int, y: int) -> nat
    decreases edges.len(),
{
    if edges.len() == 0 {
        0
    } else {
        edge_multiplicity(edges.drop_last(), x, y) + if edges.last() == (x, y) {
            1nat
        } else {
            0nat
        }
    }
}

/// How often `y` occurs in `s`.
pub open spec fn occurrences(s: Seq<int>, y: int) -> nat
    decreases s.len(),
{
    if s.len() == 0 {
        0
    } else {
        occurrences(s.drop_first(), y) + if s[0] == y {
            1nat
        } else {
            0nat
        }
    }
}

/// The number of `true` entries.
pub open spec fn count_live(live: Seq<bool>) -> nat
    decreases live.len(),
{
    if live.len() == 0 {
        0
    } else {
        count_live(live.drop_last()) + if live.last() {
            1nat
        } else {
            0nat
        }
    }
}

proof fn lemma_within_drop_last(n: int, edges: Seq<(int, int)>)
    requires
        edges.len() > 0,
        edges_within(n, edges),
    ensures
        edges_within(n, edges.drop_last()),
{
    assert forall|j: int| 0 <= j < edges.drop_last().len() implies 0
        <= #[trigger] edges.drop_last()[j].0 < n && 0 <= edges.drop_last()[j].1 < n by {
        assert(edges.drop_last()[j] == edges[j]);
    }
}

/// With every node live, the live in-degree of a node is the number of its
/// incoming neighbours.
proof fn lemma_all_live_in_degree(edges: Seq<(int, int)>, v: int, live: Seq<bool>)
    requires
        edges_within(live.len() as int, edges),
        forall|i: int| 0 <= i < live.len() ==> live[i],
    ensures
        live_in_degree(edges, v, live) == neighbors_of(edges, v, EdgeDirection::Incoming).len(),
    decreases edges.len(),
{
    if edges.len() > 0 {
        let e = edges.last();
        assert(0 <= e.0 < live.len());
        lemma_within_drop_last(live.len() as int, edges);
        lemma_all_live_in_degree(edges.drop_last(), v, live);
    }
}

/// Retiring a live node `x` lowers the live in-degree of `v` by the number
/// of edges from `x` to `v`.
proof fn lemma_retire_in_degree(edges: Seq<(int, int)>, v: int, live: Seq<bool>, x: int)
    requires
        0 <= x < live.len(),
        live[x],
        edges_within(live.len() as int, edges),
    ensures
        live_in_degree(edges, v, live) == live_in_degree(edges, v, live.update(x, false))
            + edge_multiplicity(edges, x, v),
    decreases edges.len(),
{
    if edges.len() > 0 {
        lemma_within_drop_last(live.len() as int, edges);
        lemma_retire_in_degree(edges.drop_last(), v, live, x);
        let e = edges.last();
        assert(0 <= e.0 < live.len());
        if e.0 != x {
            assert(live.update(x, false)[e.0] == live[e.0]);
        }
    }
}

/// Each edge from `x` to `y` puts `y` once among the outgoing neighbours
/// of `x`.
proof fn lemma_outgoing_occurrences(edges: Seq<(int, int)>, x: int, y: int)
    ensures
        occurrences(neighbors_of(edges, x, EdgeDirection::Outgoing), y) == edge_multiplicity(
            edges,
            x,
            y,
        ),
    decreases edges.len(),
{
    if edges.len() > 0 {
        lemma_outgoing_occurrences(edges.drop_last(), x, y);
        let e = edges.last();
        let rest = neighbors_of(edges.drop_last(), x, EdgeDirection::Outgoing);
        if e.0 == x {
            assert((seq![e.1].add(rest)).drop_first() =~= rest);
        }
    }
}

/// Each edge from `x` to `y` puts `x` once among the incoming neighbours
/// of `y`.
proof fn lemma_incoming_occurrences(edges: Seq<(int, int)>, x: int, y: int)
    ensures
        occurrences(neighbors_of(edges, y, EdgeDirection::Incoming), x) == edge_multiplicity(
            edges,
            x,
            y,
        ),
    decreases edges.len(),
{
    if edges.len() > 0 {
        lemma_incoming_occurrences(edges.drop_last(), x, y);
        let e = edges.last();
        let rest = neighbors_of(edges.drop_last(), y, EdgeDirection::Incoming);
        if e.1 == y {
            assert((seq![e.0].add(rest)).drop_first() =~= rest);
        }
    }
}

/// The dependency relation read from both ends agrees: `y` is listed among
/// the dependents of `x` exactly as often as `x` is listed among the
/// dependencies of `y`, once per edge from `x` to `y`.
pub proof fn lemma_dependents_mirror_dependencies(edges: Seq<(int, int)>, x: int, y: int)
    ensures
        occurrences(neighbors_of(edges, x, EdgeDirection::Outgoing), y) == occurrences(
            neighbors_of(edges, y, EdgeDirection::Incoming),
            x,
        ),
        occurrences(neighbors_of(edges, x, EdgeDirection::Outgoing), y) == edge_multiplicity(
            edges,
            x,
            y,
        ),
{
    lemma_outgoing_occurrences(edges, x, y);
    lemma_incoming_occurrences(edges, x, y);
}

/// Splitting off the first element of a suffix.
proof fn lemma_occurrences_step(s: Seq<int>, t: int, y: int)
    requires
        0 <= t < s.len(),
    ensures
        occurrences(s.subrange(t, s.len() as int), y) == occurrences(
            s.subrange(t + 1, s.len() as int),
            y,
        ) + if s[t] == y {
            1nat
        } else {
            0nat
        },
{
    assert(s.subrange(t, s.len() as int).drop_first() =~= s.subrange(t + 1, s.len() as int));
}

/// A node whose live in-degree is zero has no live source among its edges.
proof fn lemma_zero_in_degree(edges: Seq<(int, int)>, v: int, live: Seq<bool>)
    requires
        live_in_degree(edges, v, live) == 0,
    ensures
        forall|j: int| 0 <= j < edges.len() && #[trigger] edges[j].1 == v ==> !live[edges[j].0],
    decreases edges.len(),
{
    if edges.len() > 0 {
        lemma_zero_in_degree(edges.drop_last(), v, live);
        assert forall|j: int| 0 <= j < edges.len() && #[trigger] edges[j].1 == v implies !live[edges[j].0] by {
            if j < edges.len() - 1 {
                assert(edges.drop_last()[j] == edges[j]);
            }
        }
    }
}

/// A node with a positive live in-degree has an edge from a live node.
proof fn lemma_positive_in_degree(edges: Seq<(int, int)>, v: int, live: Seq<bool>) -> (j: int)
    requires
        live_in_degree(edges, v, live) > 0,
    ensures
        0 <= j < edges.len(),
        edges[j].1 == v,
        live[edges[j].0],
    decreases edges.len(),
{
    let e = edges.last();
    if e.1 == v && live[e.0] {
        (edges.len() - 1) as int
    } else {
        let j = lemma_positive_in_degree(edges.drop_last(), v, live);
        assert(edges.drop_last()[j] == edges[j]);
        j
    }
}

/// All entries live: the count is the length.
proof fn lemma_count_all_live(live: Seq<bool>)
    requires
        forall|i: int| 0 <= i < live.len() ==> live[i],
    ensures
        count_live(live) == live.len(),
    decreases live.len(),
{
    if live.len() > 0 {
        lemma_count_all_live(live.drop_last());
    }
}

/// Retiring a live entry lowers the count by one.
proof fn lemma_count_retire(live: Seq<bool>, x: int)
    requires
        0 <= x < live.len(),
        live[x],
    ensures
        count_live(live.update(x, false)) + 1 == count_live(live),
    decreases live.len(),
{
    let u = live.update(x, false);
    if x < live.len() - 1 {
        assert(u.drop_last() =~= live.drop_last().update(x, false));
        lemma_count_retire(live.drop_last(), x);
    } else {
        assert(u.drop_last() =~= live.drop_last());
    }
}

/// A positive count has a live entry.
proof fn lemma_count_positive(live: Seq<bool>) -> (i: int)
    requires
        count_live(live) > 0,
    ensures
        0 <= i < live.len(),
        live[i],
    decreases live.len(),
{
    if live.last() {
        (live.len() - 1) as int
    } else {
        let i = lemma_count_positive(live.drop_last());
        i
    }
}

/// A live entry makes the count positive.
proof fn lemma_count_has_live(live: Seq<bool>, i: int)
    requires
        0 <= i < live.len(),
        live[i],
    ensures
        count_live(live) > 0,
    decreases live.len(),
{
    if i < live.len() - 1 {
        assert(live.drop_last()[i] == live[i]);
        lemma_count_has_live(live.drop_last(), i);
    }
}

/// Among the live entries below `k` there is one of least rank.
proof fn lemma_least_rank(live: Seq<bool>, rank: spec_fn(int) -> int, k: int, w: int) -> (m: int)
    requires
        0 <= w < k <= live.len(),
        live[w],
    ensures
        0 <= m < k,
        live[m],
        forall|i: int| 0 <= i < k && live[i] ==> rank(m) <= rank(i),
    decreases k,
{
    if k - 1 == w {
        if exists|i: int| 0 <= i < k - 1 && live[i] {
            let i0 = choose|i: int| 0 <= i < k - 1 && live[i];
            let m0 = lemma_least_rank(live, rank, k - 1, i0);
            if rank(w) < rank(m0) {
                w
            } else {
                m0
            }
        } else {
            w
        }
    } else {
        let m0 = lemma_least_rank(live, rank, k - 1, w);
        if live[k - 1] && rank(k - 1) < rank(m0) {
            k - 1
        } else {
            m0
        }
    }
}

/// The ranking rises along every edge.
pub open spec fn rises_along(edges: Seq<(int, int)>, rank: spec_fn(int) -> int) -> bool {
    forall|j: int| 0 <= j < edges.len() ==> #[trigger] rank(edges[j].0) < rank(edges[j].1)
}

/// The graph has no cycle: some ranking of the nodes rises along every edge.
pub open spec fn acyclic(edges: Seq<(int, int)>) -> bool {
    exists|rank: spec_fn(int) -> int| #[trigger] rises_along(edges, rank)
}

/// In a graph without a cycle, some live node has no live dependency.
proof fn lemma_acyclic_has_free_node(edges: Seq<(int, int)>, live: Seq<bool>, w: int) -> (m: int)
    requires
        acyclic(edges),
        edges_within(live.len() as int, edges),
        0 <= w < live.len(),
        live[w],
    ensures
        0 <= m < live.len(),
        live[m],
        live_in_degree(edges, m, live) == 0,
{
    let rank = choose|rank: spec_fn(int) -> int| #[trigger] rises_along(edges, rank);
    let m = lemma_least_rank(live, rank, live.len() as int, w);
    if live_in_degree(edges, m, live) > 0 {
        let j = lemma_positive_in_degree(edges, m, live);
        assert(rises_along(edges, rank));
        assert(rank(edges[j].0) < rank(edges[j].1));
        assert(0 <= edges[j].0 < live.len());
        assert(false);
    }
    m
}

/// Every neighbour of a node is a node.
proof fn lemma_neighbors_within(n: int, edges: Seq<(int, int)>, x: int, dir: EdgeDirection)
    requires
        edges_within(n, edges),
    ensures
        forall|t: int|
            0 <= t < neighbors_of(edges, x, dir).len() ==> 0 <= #[trigger] neighbors_of(
                edges,
                x,
                dir,
            )[t] < n,
    decreases edges.len(),
{
    if edges.len() > 0 {
        lemma_within_drop_last(n, edges);
        lemma_neighbors_within(n, edges.drop_last(), x, dir);
        let e = edges.last();
        let rest = neighbors_of(edges.drop_last(), x, dir);
        assert(0 <= e.0 < n && 0 <= e.1 < n);
        assert forall|t: int| 0 <= t < neighbors_of(edges, x, dir).len() implies 0
            <= #[trigger] neighbors_of(edges, x, dir)[t] < n by {
            if neighbors_of(edges, x, dir).len() > rest.len() && t > 0 {
                assert(neighbors_of(edges, x, dir)[t] == rest[t - 1]);
            }
        }
    }
}

/// Where a package's archive and source come from, as far as known.
#[derive(Debug, Clone)]
pub struct DistInfo {
    /// Distribution URL for downloading.
    pub dist_url: Option<String>,
    /// Distribution type (zip, tar, ...).
    pub dist_type: Option<String>,
    /// Distribution checksum.
    pub dist_shasum: Option<String>,
    /// Source URL (a repository).
    pub source_url: Option<String>,
    /// Source type (git, hg, ...).
    pub source_type: Option<String>,
    /// Source reference (commit or tag).
    pub source_reference: Option<String>,
}

impl Default for DistInfo {
    fn default() -> (r: Self)
        ensures
            r.dist_url is None,
            r.dist_type is None,
            r.dist_shasum is None,
            r.source_url is None,
            r.source_type is None,
            r.source_reference is None,
    {
        DistInfo {
            dist_url: None,
            dist_type: None,
            dist_shasum: None,
            source_url: None,
            source_type: None,
            source_reference: None,
        }
    }
}

/// A resolved package with its version and dependencies.
#[derive(Debug, Clone)]
pub struct ResolvedPackage {
    /// Package name.
    pub name: String,
    /// Resolved version.
    pub version: String,
    /// Direct dependencies among the resolved packages, one entry per edge.
    pub dependencies: Vec<String>,
    /// Whether the root requires it for development only.
    pub is_dev: bool,
    /// Distribution URL for downloading.
    pub dist_url: Option<String>,
    /// Distribution type (zip, tar, ...).
    pub dist_type: Option<String>,
    /// Distribution checksum.
    pub dist_shasum: Option<String>,
    /// Source URL (a repository).
    pub source_url: Option<String>,
    /// Source type (git, hg, ...).
    pub source_type: Option<String>,
    /// Source reference (commit or tag).
    pub source_reference: Option<String>,
}

/// The package carries the given archive and source information.
pub open spec fn carries_dist(p: ResolvedPackage, d: DistInfo) -> bool {
    &&& opt_view(p.dist_url) == opt_view(d.dist_url)
    &&& opt_view(p.dist_type) == opt_view(d.dist_type)
    &&& opt_view(p.dist_shasum) == opt_view(d.dist_shasum)
    &&& opt_view(p.source_url) == opt_view(d.source_url)
    &&& opt_view(p.source_type) == opt_view(d.source_type)
    &&& opt_view(p.source_reference) == opt_view(d.source_reference)
}

/// The names at the given nodes.
pub open spec fn names_at(nodes: Seq<Seq<char>>, idx: Seq<int>) -> Seq<Seq<char>> {
    idx.map_values(|i: int| nodes[i])
}

/// `p` is the resolved package of node `i`: its name and version, the names
/// of its dependencies (incoming neighbours), whether a development
/// requirement names it, and its archive and source.
pub open spec fn describes(
    p: ResolvedPackage,
    nodes: Seq<Seq<char>>,
    edges: Seq<(int, int)>,
    i: int,
    versions: Seq<String>,
    dev_names: Seq<String>,
    dist: Seq<DistInfo>,
) -> bool {
    &&& p.name@ == nodes[i]
    &&& p.version@ == versions[i]@
    &&& views(p.dependencies@) == names_at(nodes, neighbors_of(edges, i, EdgeDirection::Incoming))
    &&& p.is_dev == views(dev_names).contains(nodes[i])
    &&& carries_dist(p, dist[i])
}

/// Whether `list` holds a string equal to `name`.
pub fn contains_name(list: &[String], name: &str) -> (r: bool)
    ensures
        r == views(list@).contains(name@),
{
    let mut i: usize = 0;
    while i < list.len()
        invariant
            i <= list@.len(),
            forall|k: int| 0 <= k < i ==> list@[k]@ != name@,
        decreases list.len() - i,
    {
        if str_eq(list[i].as_str(), name) {
            assert(views(list@)[i as int] == name@);
            return true;
        }
        i = i + 1;
    }
    assert forall|k: int| 0 <= k < views(list@).len() implies views(list@)[k] != name@ by {
        assert(views(list@)[k] == list@[k]@);
    }
    false
}

fn copy_dist(d: &DistInfo) -> (r: DistInfo)
    ensures
        opt_view(r.dist_url) == opt_view(d.dist_url),
        opt_view(r.dist_type) == opt_view(d.dist_type),
        opt_view(r.dist_shasum) == opt_view(d.dist_shasum),
        opt_view(r.source_url) == opt_view(d.source_url),
        opt_view(r.source_type) == opt_view(d.source_type),
        opt_view(r.source_reference) == opt_view(d.source_reference),
{
    DistInfo {
        dist_url: clone_opt(&d.dist_url),
        dist_type: clone_opt(&d.dist_type),
        dist_shasum: clone_opt(&d.dist_shasum),
        source_url: clone_opt(&d.source_url),
        source_type: clone_opt(&d.source_type),
        source_reference: clone_opt(&d.source_reference),
    }
}

/// The names of the dependencies of node `x`, one per incoming edge.
fn dependency_names(graph: &DiGraph<String, ()>, x: usize) -> (r: Vec<String>)
    requires
        x < graph_nodes(*graph).len(),
        graph_nodes(*graph).len() <= u32::MAX,
        edges_within(graph_nodes(*graph).len() as int, graph_edges(*graph)),
    ensures
        views(r@) == names_at(
            graph_nodes(*graph),
            neighbors_of(graph_edges(*graph), x as int, EdgeDirection::Incoming),
        ),
{
    let ghost nodes = graph_nodes(*graph);
    let ghost nb = neighbors_of(graph_edges(*graph), x as int, EdgeDirection::Incoming);
    let incoming = graph_neighbors(graph, x, EdgeDirection::Incoming);
    proof {
        lemma_neighbors_within(nodes.len() as int, graph_edges(*graph), x as int, EdgeDirection::Incoming);
        assert(incoming@.len() == nb.len());
        assert forall|t: int| 0 <= t < nb.len() implies incoming@[t] as int == nb[t] by {
            assert(incoming@.map_values(|i: usize| i as int)[t] == incoming@[t] as int);
        }
    }
    let mut out: Vec<String> = Vec::new();
    let mut t: usize = 0;
    while t < incoming.len()
        invariant
            t <= incoming@.len(),
            incoming@.len() == nb.len(),
            forall|u: int| 0 <= u < nb.len() ==> incoming@[u] as int == nb[u],
            forall|u: int| 0 <= u < incoming@.len() ==> incoming@[u] <= u32::MAX,
            forall|u: int| 0 <= u < nb.len() ==> 0 <= #[trigger] nb[u] < nodes.len(),
            nodes == graph_nodes(*graph),
            views(out@) == names_at(nodes, nb.subrange(0, t as int)),
        decreases incoming.len() - t,
    {
        assert(0 <= nb[t as int] < nodes.len());
        let ghost prev = out@;
        match graph_node_weight(graph, incoming[t]) {
            Some(name) => {
                out.push(name);
            },
            None => {},
        }
        proof {
            assert(views(out@) =~= views(prev).push(nodes[nb[t as int]]));
            assert(names_at(nodes, nb.subrange(0, t + 1)) =~= names_at(nodes, nb.subrange(0, t as int)).push(nodes[nb[t as int]]));
        }
        t = t + 1;
        assert(views(out@) =~= names_at(nodes, nb.subrange(0, t as int)));
    }
    assert(nb.subrange(0, nb.len() as int) =~= nb);
    out
}

/// The resolved package of node `x`.
fn resolved_package(
    graph: &DiGraph<String, ()>,
    x: usize,
    versions: &[String],
    dev_names: &[String],
    dist: &[DistInfo],
) -> (r: ResolvedPackage)
    requires
        x < graph_nodes(*graph).len(),
        graph_nodes(*graph).len() <= u32::MAX,
        graph_nodes(*graph).len() == versions@.len(),
        graph_nodes(*graph).len() == dist@.len(),
        edges_within(graph_nodes(*graph).len() as int, graph_edges(*graph)),
    ensures
        describes(
            r,
            graph_nodes(*graph),
            graph_edges(*graph),
            x as int,
            versions@,
            dev_names@,
            dist@,
        ),
{
    let name = match graph_node_weight(graph, x) {
        Some(s) => s,
        None => String::new(),
    };
    let dependencies = dependency_names(graph, x);
    let is_dev = contains_name(dev_names, name.as_str());
    let d = copy_dist(&dist[x]);
    ResolvedPackage {
        name,
        version: owned(versions[x].as_str()),
        dependencies,
        is_dev,
        dist_url: d.dist_url,
        dist_type: d.dist_type,
        dist_shasum: d.dist_shasum,
        source_url: d.source_url,
        source_type: d.source_type,
        source_reference: d.source_reference,
    }
}

/// Every live node's counter is its live in-degree.
spec fn counters_match(deg: Seq<usize>, live: Seq<bool>, edges: Seq<(int, int)>) -> bool {
    forall|v: int|
        0 <= v < live.len() && #[trigger] live[v] ==> deg[v] == live_in_degree(edges, v, live)
}

/// The work list holds nodes; each live node on it has no live dependency
/// left, and each live node without one is on it.
spec fn ready_list(queue: Seq<usize>, deg: Seq<usize>, live: Seq<bool>) -> bool {
    &&& forall|t: int| 0 <= t < queue.len() ==> (#[trigger] queue[t] as int) < live.len()
    &&& forall|t: int|
        0 <= t < queue.len() && live[#[trigger] queue[t] as int] ==> deg[queue[t] as int] == 0
    &&& forall|v: int|
        0 <= v < live.len() && #[trigger] live[v] && deg[v] == 0 ==> queue.contains(v as usize)
}

/// Retiring node `x` (already marked dead in `live`): the counter of every
/// package that depends on `x` drops once per edge, and a package left
/// without live dependencies joins the work list.
fn release_dependents(
    graph: &DiGraph<String, ()>,
    x: usize,
    deg: &mut Vec<usize>,
    live: &Vec<bool>,
    queue: &mut Vec<usize>,
)
    requires
        live@.len() == graph_nodes(*graph).len(),
        edges_within(live@.len() as int, graph_edges(*graph)),
        x < live@.len(),
        !live@[x as int],
        old(deg)@.len() == live@.len(),
        counters_match(old(deg)@, live@.update(x as int, true), graph_edges(*graph)),
        ready_list(old(queue)@, old(deg)@, live@),
    ensures
        final(deg)@.len() == live@.len(),
        counters_match(final(deg)@, live@, graph_edges(*graph)),
        ready_list(final(queue)@, final(deg)@, live@),
{
    let ghost edges = graph_edges(*graph);
    let ghost before = live@.update(x as int, true);
    let ghost nb = neighbors_of(edges, x as int, EdgeDirection::Outgoing);
    let outs = graph_neighbors(graph, x, EdgeDirection::Outgoing);
    let ghost outs_int = outs@.map_values(|i: usize| i as int);
    proof {
        assert(before.update(x as int, false) =~= live@);
        assert forall|v: int| 0 <= v < live@.len() && #[trigger] live@[v] implies old(deg)@[v]
            == live_in_degree(edges, v, live@) + occurrences(outs_int.subrange(0, outs_int.len() as int), v) by {
            assert(before[v]);
            lemma_retire_in_degree(edges, v, before, x as int);
            lemma_outgoing_occurrences(edges, x as int, v);
            assert(outs_int.subrange(0, outs_int.len() as int) =~= outs_int);
        }
        lemma_neighbors_within(live@.len() as int, edges, x as int, EdgeDirection::Outgoing);
    }
    let mut t: usize = 0;
    while t < outs.len()
        invariant
            t <= outs@.len(),
            outs_int == outs@.map_values(|i: usize| i as int),
            outs_int == nb,
            forall|u: int| 0 <= u < nb.len() ==> 0 <= #[trigger] nb[u] < live@.len(),
            edges == graph_edges(*graph),
            deg@.len() == live@.len(),
            forall|v: int|
                0 <= v < live@.len() && #[trigger] live@[v] ==> deg@[v] == live_in_degree(
                    edges,
                    v,
                    live@,
                ) + occurrences(outs_int.subrange(t as int, outs_int.len() as int), v),
            ready_list(queue@, deg@, live@),
        decreases outs.len() - t,
    {
        let y = outs[t];
        proof {
            assert(outs_int[t as int] == y as int);
            assert(0 <= nb[t as int] < live@.len());
            assert forall|v: int| 0 <= v < live@.len() implies occurrences(
                outs_int.subrange(t as int, outs_int.len() as int),
                v,
            ) == occurrences(outs_int.subrange(t + 1, outs_int.len() as int), v) + if outs_int[t as int]
                == v {
                1nat
            } else {
                0nat
            } by {
                lemma_occurrences_step(outs_int, t as int, v);
            }
        }
        if live[y] && deg[y] > 0 {
            let d = deg[y] - 1;
            let ghost q0 = queue@;
            let ghost d0 = deg@;
            proof {
                if q0.contains(y) {
                    let q = choose|q: int| 0 <= q < q0.len() && q0[q] == y;
                    assert(live@[q0[q] as int]);
                    assert(false);
                }
            }
            deg.set(y, d);
            if d == 0 {
                queue.push(y);
            }
            proof {
                assert(deg@ == d0.update(y as int, d));
                assert forall|t2: int| 0 <= t2 < queue@.len() implies (#[trigger] queue@[t2] as int)
                    < live@.len() by {
                    if t2 < q0.len() {
                        assert(queue@[t2] == q0[t2]);
                    }
                }
                assert forall|t2: int|
                    0 <= t2 < queue@.len() && live@[#[trigger] queue@[t2] as int] implies deg@[queue@[t2] as int] == 0 by {
                    if t2 < q0.len() {
                        assert(queue@[t2] == q0[t2]);
                        assert(q0.contains(q0[t2]));
                    }
                }
                assert forall|v: int|
                    0 <= v < live@.len() && #[trigger] live@[v] && deg@[v] == 0 implies queue@.contains(v as usize) by {
                    if v == y as int {
                        assert(queue@[queue@.len() - 1] == y);
                    } else {
                        assert(d0[v] == 0);
                        let q = choose|q: int| 0 <= q < q0.len() && q0[q] == v as usize;
                        assert(queue@[q] == q0[q]);
                    }
                }
            }
        }
        t = t + 1;
    }
}

/// The first live node with the fewest live dependencies.
fn least_waiting(deg: &Vec<usize>, live: &Vec<bool>) -> (m: usize)
    requires
        deg@.len() == live@.len(),
        exists|i: int| 0 <= i < live@.len() && live@[i],
    ensures
        m < live@.len(),
        live@[m as int],
        forall|v: int| 0 <= v < live@.len() && live@[v] ==> deg@[m as int] <= deg@[v],
{
    let mut best: Option<usize> = None;
    let mut i: usize = 0;
    while i < live.len()
        invariant
            i <= live@.len(),
            deg@.len() == live@.len(),
            best matches Some(b) ==> b < i && live@[b as int] && forall|v: int|
                0 <= v < i && live@[v] ==> deg@[b as int] <= deg@[v],
            best is None ==> forall|v: int| 0 <= v < i ==> !live@[v],
        decreases live.len() - i,
    {
        if live[i] {
            match best {
                Some(b) => {
                    if deg[i] < deg[b] {
                        best = Some(i);
                    }
                },
                None => {
                    best = Some(i);
                },
            }
        }
        i = i + 1;
    }
    match best {
        Some(b) => b,
        None => {
            proof {
                let w = choose|w: int| 0 <= w < live@.len() && live@[w];
                assert(!live@[w]);
            }
            0
        },
    }
}

/// The nodes not yet installed before step `k` of `order`.
pub open spec fn live_before(n: nat, order: Seq<int>, k: int) -> Seq<bool> {
    Seq::new(n, |i: int| !order.subrange(0, k).contains(i))
}

/// Step `k` of `order` follows the installation rule: the node installed
/// has no dependency left to install, or, where a cycle leaves every
/// remaining node with some, it has the fewest among them.
pub open spec fn chosen_by_rule(edges: Seq<(int, int)>, n: nat, order: Seq<int>, k: int) -> bool {
    let live = live_before(n, order, k);
    ||| live_in_degree(edges, order[k], live) == 0
    ||| (forall|u: int| 0 <= u < n && live[u] ==> live_in_degree(edges, u, live) > 0) && (forall|u: int|
        0 <= u < n && live[u] ==> live_in_degree(edges, order[k], live) <= live_in_degree(edges, u, live))
}

/// `order` lists every node once, `r[k]` is the resolved package of node
/// `order[k]`, and where the graph has no cycle every dependency comes
/// before the packages that need it.
pub open spec fn installs_in_order(
    r: Seq<ResolvedPackage>,
    nodes: Seq<Seq<char>>,
    edges: Seq<(int, int)>,
    versions: Seq<String>,
    dev_names: Seq<String>,
    dist: Seq<DistInfo>,
    order: Seq<int>,
) -> bool {
    &&& order.len() == nodes.len()
    &&& r.len() == nodes.len()
    &&& forall|k: int| 0 <= k < order.len() ==> 0 <= #[trigger] order[k] < nodes.len()
    &&& forall|k: int|
        0 <= k < order.len() ==> describes(
            #[trigger] r[k],
            nodes,
            edges,
            order[k],
            versions,
            dev_names,
            dist,
        )
    &&& forall|k1: int, k2: int|
        0 <= k1 < order.len() && 0 <= k2 < order.len() && k1 != k2 ==> #[trigger] order[k1]
            != #[trigger] order[k2]
    &&& forall|i: int| 0 <= i < nodes.len() ==> package_names(r).contains(#[trigger] nodes[i])
    &&& forall|k: int| 0 <= k < order.len() ==> #[trigger] chosen_by_rule(edges, nodes.len(), order, k)
    &&& acyclic(edges) ==> forall|j: int, k1: int, k2: int|
        #![trigger edges[j], order[k1], order[k2]]
        0 <= j < edges.len() && 0 <= k1 < order.len() && 0 <= k2 < order.len() && edges[j] == (
            order[k1],
            order[k2],
        ) ==> k1 < k2
}

/// The packages of the graph's nodes in installation order: Kahn's order,
/// and where a cycle leaves no package free, the live package with the
/// fewest live dependencies goes next.
pub fn topological_sort(
    graph: &DiGraph<String, ()>,
    versions: &[String],
    dev_names: &[String],
    dist: &[DistInfo],
) -> (r: Vec<ResolvedPackage>)
    requires
        graph_nodes(*graph).len() == versions@.len(),
        graph_nodes(*graph).len() == dist@.len(),
    ensures
        exists|order: Seq<int>|
            installs_in_order(
                r@,
                graph_nodes(*graph),
                graph_edges(*graph),
                versions@,
                dev_names@,
                dist@,
                order,
            ),
{
    let ghost nodes = graph_nodes(*graph);
    let ghost edges = graph_edges(*graph);
    let n = graph_node_count(graph);
    let mut deg: Vec<usize> = Vec::new();
    let mut live: Vec<bool> = Vec::new();
    let mut queue: Vec<usize> = Vec::new();
    let mut i: usize = 0;
    while i < n
        invariant
            i <= n == nodes.len(),
            nodes == graph_nodes(*graph),
            edges == graph_edges(*graph),
            edges_within(n as int, edges),
            deg@.len() == i,
            live@.len() == i,
            forall|v: int| 0 <= v < i ==> #[trigger] live@[v],
            forall|v: int|
                0 <= v < i ==> #[trigger] deg@[v] == neighbors_of(
                    edges,
                    v,
                    EdgeDirection::Incoming,
                ).len(),
        decreases n - i,
    {
        let incoming = graph_neighbors(graph, i, EdgeDirection::Incoming);
        proof {
            assert(incoming@.map_values(|i: usize| i as int).len() == incoming@.len());
        }
        deg.push(incoming.len());
        live.push(true);
        i = i + 1;
    }
    let mut v: usize = 0;
    while v < n
        invariant
            v <= n == nodes.len(),
            deg@.len() == n,
            live@.len() == n,
            forall|u: int| 0 <= u < n ==> #[trigger] live@[u],
            forall|t: int| 0 <= t < queue@.len() ==> (#[trigger] queue@[t] as int) < v,
            forall|t: int| 0 <= t < queue@.len() ==> deg@[#[trigger] queue@[t] as int] == 0,
            forall|u: int| 0 <= u < v && #[trigger] deg@[u] == 0 ==> queue@.contains(u as usize),
        decreases n - v,
    {
        if deg[v] == 0 {
            let ghost q0 = queue@;
            queue.push(v);
            proof {
                assert forall|u: int| 0 <= u < v + 1 && #[trigger] deg@[u] == 0 implies queue@.contains(u as usize) by {
                    if u == v as int {
                        assert(queue@[queue@.len() - 1] == v);
                    } else {
                        let q = choose|q: int| 0 <= q < q0.len() && q0[q] == u as usize;
                        assert(queue@[q] == q0[q]);
                    }
                }
            }
        }
        v = v + 1;
    }
    proof {
        lemma_count_all_live(live@);
        assert forall|u: int| 0 <= u < live@.len() && #[trigger] live@[u] implies deg@[u]
            == live_in_degree(edges, u, live@) by {
            lemma_all_live_in_degree(edges, u, live@);
        }
    }
    let mut remaining: usize = n;
    let mut result: Vec<ResolvedPackage> = Vec::new();
    let ghost mut done: Seq<int> = Seq::empty();
    let ghost mut pos: Seq<int> = Seq::new(n as nat, |u: int| 0);
    while remaining > 0
        invariant
            n == nodes.len(),
            nodes == graph_nodes(*graph),
            edges == graph_edges(*graph),
            edges_within(n as int, edges),
            n <= u32::MAX,
            n == versions@.len(),
            n == dist@.len(),
            deg@.len() == n,
            live@.len() == n,
            pos.len() == n,
            remaining == count_live(live@),
            done.len() + remaining == n,
            result@.len() == done.len(),
            forall|k: int|
                0 <= k < done.len() ==> 0 <= #[trigger] done[k] < n && !live@[done[k]] && pos[done[k]]
                    == k,
            forall|u: int|
                0 <= u < n && !#[trigger] live@[u] ==> 0 <= pos[u] < done.len() && done[pos[u]] == u,
            forall|k: int|
                0 <= k < done.len() ==> describes(
                    #[trigger] result@[k],
                    nodes,
                    edges,
                    done[k],
                    versions@,
                    dev_names@,
                    dist@,
                ),
            counters_match(deg@, live@, edges),
            ready_list(queue@, deg@, live@),
            acyclic(edges) ==> forall|k: int, j: int|
                #![trigger done[k], edges[j]]
                0 <= k < done.len() && 0 <= j < edges.len() && edges[j].1 == done[k] ==> !live@[edges[j].0]
                    && pos[edges[j].0] < k,
            forall|u: int| 0 <= u < n ==> #[trigger] live@[u] == !done.contains(u),
            forall|k: int| 0 <= k < done.len() ==> #[trigger] chosen_by_rule(edges, n as nat, done, k),
        decreases remaining, queue@.len(),
    {
        let x: usize;
        let ghost broken: bool;
        if queue.len() == 0 {
            proof {
                let w = lemma_count_positive(live@);
                if acyclic(edges) {
                    let m = lemma_acyclic_has_free_node(edges, live@, w);
                    assert(live@[m]);
                    assert(deg@[m] == 0);
                    assert(queue@.contains(m as usize));
                }
            }
            x = least_waiting(&deg, &live);
            proof {
                broken = true;
                assert forall|u: int| 0 <= u < n && #[trigger] live@[u] implies deg@[u] > 0 by {
                    if deg@[u] == 0 {
                        assert(queue@.contains(u as usize));
                    }
                }
                assert forall|u: int|
                    0 <= u < n && #[trigger] live@[u] && deg@[u] == 0 && u != x as int implies queue@.contains(u as usize) by {
                    assert(queue@.contains(u as usize));
                }
            }
        } else {
            let ghost q0 = queue@;
            let popped = queue.pop();
            match popped {
                Some(p) => {
                    x = p;
                },
                None => {
                    x = 0;
                },
            }
            proof {
                broken = false;
                assert(queue@ =~= q0.drop_last());
                assert(x == q0.last());
                assert forall|t: int| 0 <= t < queue@.len() implies (#[trigger] queue@[t] as int) < n
                    && (live@[queue@[t] as int] ==> deg@[queue@[t] as int] == 0) by {
                    assert(queue@[t] == q0[t]);
                }
                assert forall|u: int|
                    0 <= u < n && #[trigger] live@[u] && deg@[u] == 0 && u != x as int implies queue@.contains(u as usize) by {
                    let q = choose|q: int| 0 <= q < q0.len() && q0[q] == u as usize;
                    assert(q != q0.len() - 1);
                    assert(queue@[q] == q0[q]);
                }
            }
            if !live[x] {
                continue;
            }
        }
        let ghost k = done.len();
        let ghost before = live@;
        proof {
            lemma_count_retire(live@, x as int);
            if !broken {
                assert(deg@[x as int] == 0);
                lemma_zero_in_degree(edges, x as int, live@);
            }
        }
        live.set(x, false);
        remaining = remaining - 1;
        let ghost done0 = done;
        let ghost pos0 = pos;
        proof {
            done = done.push(x as int);
            pos = pos.update(x as int, k as int);
            assert(live@ == before.update(x as int, false));
            assert(done.subrange(0, k as int) =~= done0);
            assert(live_before(n as nat, done, k as int) =~= before);
            assert(done[k as int] == x as int);
            if broken {
                assert forall|u: int| 0 <= u < n && before[u] implies live_in_degree(edges, u, before) > 0
                    && live_in_degree(edges, x as int, before) <= live_in_degree(edges, u, before) by {
                    assert(before[u]);
                }
            }
            assert(chosen_by_rule(edges, n as nat, done, k as int));
            assert forall|kk: int| 0 <= kk < done.len() implies #[trigger] chosen_by_rule(edges, n as nat, done, kk) by {
                if kk < k {
                    assert(done.subrange(0, kk) =~= done0.subrange(0, kk));
                    assert(live_before(n as nat, done, kk) =~= live_before(n as nat, done0, kk));
                    assert(done[kk] == done0[kk]);
                    assert(chosen_by_rule(edges, n as nat, done0, kk));
                }
            }
            assert forall|u: int| 0 <= u < n implies #[trigger] live@[u] == !done.contains(u) by {
                if u == x as int {
                    assert(done[k as int] == u);
                } else {
                    assert(live@[u] == before[u]);
                    if done.contains(u) {
                        let t = choose|t: int| 0 <= t < done.len() && done[t] == u;
                        assert(t < k);
                        assert(done0[t] == u);
                    }
                    if done0.contains(u) {
                        let t = choose|t: int| 0 <= t < done0.len() && done0[t] == u;
                        assert(done[t] == u);
                    }
                }
            }
            if acyclic(edges) {
                assert(!broken);
                assert forall|kk: int, j: int|
                    0 <= kk < done.len() && 0 <= j < edges.len() && #[trigger] edges[j].1 == #[trigger] done[kk] implies !live@[edges[j].0]
                        && pos[edges[j].0] < kk by {
                    assert(0 <= edges[j].0 < n);
                    if kk < k {
                        assert(done[kk] == done0[kk]);
                        assert(!before[edges[j].0] && pos0[edges[j].0] < kk);
                    } else {
                        assert(done[kk] == x as int);
                        assert(!before[edges[j].0]);
                        assert(pos0[edges[j].0] < k);
                    }
                    assert(edges[j].0 != x as int);
                }
            }
        }
        let pkg = resolved_package(graph, x, versions, dev_names, dist);
        result.push(pkg);
        proof {
            assert(before == live@.update(x as int, true));
            assert(ready_list(queue@, deg@, live@)) by {
                assert forall|t: int| 0 <= t < queue@.len() && live@[#[trigger] queue@[t] as int] implies deg@[queue@[t] as int] == 0 by {
                    assert(before[queue@[t] as int]);
                }
                assert forall|u: int| 0 <= u < live@.len() && #[trigger] live@[u] && deg@[u] == 0 implies queue@.contains(u as usize) by {
                    assert(before[u]);
                    assert(u != x as int);
                }
            }
        }
        release_dependents(graph, x, &mut deg, &live, &mut queue);
    }
    proof {
        assert forall|i: int| 0 <= i < nodes.len() implies package_names(result@).contains(#[trigger] nodes[i]) by {
            if live@[i] {
                lemma_count_has_live(live@, i);
            }
            let t = pos[i];
            assert(done[t] == i);
            assert(describes(result@[t], nodes, edges, done[t], versions@, dev_names@, dist@));
            assert(package_names(result@)[t] == nodes[i]);
        }
        assert(installs_in_order(result@, nodes, edges, versions@, dev_names@, dist@, done));
    }
    result
}

/// The name under which the solver reports the root project itself.
pub open spec fn root_name() -> Seq<char> {
    "__root__/__root__"@
}

/// The positions of the entries that are not the root project.
pub open spec fn kept_entries(names: Seq<Seq<char>>) -> Seq<int>
    decreases names.len(),
{
    if names.len() == 0 {
        Seq::empty()
    } else {
        let rest = kept_entries(names.drop_last());
        if names.last() == root_name() {
            rest
        } else {
            rest.push(names.len() - 1)
        }
    }
}

/// The edges from the named dependencies that are nodes to node `target`,
/// in the order of the names.
pub open spec fn edges_into(nodes: Seq<Seq<char>>, deps: Seq<Seq<char>>, target: int) -> Seq<
    (int, int),
>
    decreases deps.len(),
{
    if deps.len() == 0 {
        Seq::empty()
    } else {
        let rest = edges_into(nodes, deps.drop_last(), target);
        match nodes.index_of_first(deps.last()) {
            Some(p) => rest.push((p, target)),
            None => rest,
        }
    }
}

/// The edges of the selected entries, entry by entry: each package that is
/// not the root gets an edge from each of its dependencies that was
/// selected.
pub open spec fn entry_edges(
    nodes: Seq<Seq<char>>,
    names: Seq<Seq<char>>,
    deps: Seq<Seq<Seq<char>>>,
) -> Seq<(int, int)>
    decreases names.len(),
{
    if names.len() == 0 || deps.len() == 0 {
        Seq::empty()
    } else {
        let rest = entry_edges(nodes, names.drop_last(), deps.drop_last());
        if names.last() == root_name() {
            rest
        } else {
            rest + edges_into(nodes, deps.last(), kept_entries(names.drop_last()).len() as int)
        }
    }
}

/// The names of the selected (name, version) entries.
pub open spec fn entry_names(selected: Seq<(String, String)>) -> Seq<Seq<char>> {
    selected.map_values(|e: (String, String)| e.0@)
}

/// The names each selected entry depends on.
pub open spec fn entry_dependencies(dependencies: Seq<Vec<String>>) -> Seq<Seq<Seq<char>>> {
    dependencies.map_values(|d: Vec<String>| views(d@))
}

/// The total number of dependency names.
pub open spec fn total_dependencies(dependencies: Seq<Vec<String>>) -> nat
    decreases dependencies.len(),
{
    if dependencies.len() == 0 {
        0
    } else {
        total_dependencies(dependencies.drop_last()) + dependencies.last()@.len()
    }
}

proof fn lemma_kept_entries_bounds(names: Seq<Seq<char>>)
    ensures
        kept_entries(names).len() <= names.len(),
        forall|t: int|
            0 <= t < kept_entries(names).len() ==> 0 <= #[trigger] kept_entries(names)[t]
                < names.len() && names[kept_entries(names)[t]] != root_name(),
    decreases names.len(),
{
    if names.len() > 0 {
        lemma_kept_entries_bounds(names.drop_last());
        let rest = kept_entries(names.drop_last());
        assert forall|t: int|
            0 <= t < kept_entries(names).len() implies 0 <= #[trigger] kept_entries(names)[t]
                < names.len() && names[kept_entries(names)[t]] != root_name() by {
            if t < rest.len() {
                assert(kept_entries(names)[t] == rest[t]);
                assert(names.drop_last()[rest[t]] == names[rest[t]]);
            }
        }
    }
}

proof fn lemma_kept_increasing(names: Seq<Seq<char>>)
    ensures
        forall|t1: int, t2: int|
            0 <= t1 < t2 < kept_entries(names).len() ==> #[trigger] kept_entries(names)[t1]
                < #[trigger] kept_entries(names)[t2],
    decreases names.len(),
{
    if names.len() > 0 {
        lemma_kept_increasing(names.drop_last());
        lemma_kept_entries_bounds(names.drop_last());
        let rest = kept_entries(names.drop_last());
        let k = kept_entries(names);
        assert forall|t1: int, t2: int| 0 <= t1 < t2 < k.len() implies #[trigger] k[t1] < #[trigger] k[t2] by {
            assert(k[t1] == rest[t1]);
            if t2 < rest.len() {
                assert(k[t2] == rest[t2]);
            }
        }
    }
}

/// Distinct names keep distinct among the kept entries.
proof fn lemma_kept_names_distinct(names: Seq<Seq<char>>)
    requires
        names.no_duplicates(),
    ensures
        names_at(names, kept_entries(names)).no_duplicates(),
{
    lemma_kept_increasing(names);
    lemma_kept_entries_bounds(names);
    let k = kept_entries(names);
    let nodes = names_at(names, k);
    assert forall|i: int, j: int| 0 <= i < nodes.len() && 0 <= j < nodes.len() && i != j implies nodes[i]
        != nodes[j] by {
        if i < j {
            assert(k[i] < k[j]);
        } else {
            assert(k[j] < k[i]);
        }
    }
}

proof fn lemma_edges_into_bounds(nodes: Seq<Seq<char>>, deps: Seq<Seq<char>>, target: int)
    requires
        0 <= target < nodes.len(),
    ensures
        edges_into(nodes, deps, target).len() <= deps.len(),
        edges_within(nodes.len() as int, edges_into(nodes, deps, target)),
    decreases deps.len(),
{
    if deps.len() > 0 {
        lemma_edges_into_bounds(nodes, deps.drop_last(), target);
        nodes.index_of_first_ensures(deps.last());
        let rest = edges_into(nodes, deps.drop_last(), target);
        assert forall|j: int| 0 <= j < edges_into(nodes, deps, target).len() implies 0
            <= #[trigger] edges_into(nodes, deps, target)[j].0 < nodes.len() && 0 <= edges_into(
            nodes,
            deps,
            target,
        )[j].1 < nodes.len() by {
            if j < rest.len() {
                assert(edges_into(nodes, deps, target)[j] == rest[j]);
            }
        }
    }
}

/// The copy of a list of strings.
pub(crate) fn copy_names(v: &Vec<String>) -> (r: Vec<String>)
    ensures
        views(r@) == views(v@),
{
    let mut out: Vec<String> = Vec::new();
    let mut i: usize = 0;
    while i < v.len()
        invariant
            i <= v@.len(),
            views(out@) == views(v@.subrange(0, i as int)),
        decreases v.len() - i,
    {
        let ghost prev = out@;
        out.push(owned(v[i].as_str()));
        proof {
            assert(views(out@) =~= views(prev).push(v@[i as int]@));
            assert(views(v@.subrange(0, i + 1)) =~= views(v@.subrange(0, i as int)).push(v@[i as int]@));
        }
        i = i + 1;
    }
    assert(v@.subrange(0, v@.len() as int) =~= v@);
    out
}

/// The position of the first string equal to `name`.
fn position_of(list: &Vec<String>, name: &str) -> (r: Option<usize>)
    ensures
        r matches Some(p) ==> views(list@).index_of_first(name@) == Some(p as int),
        r is None ==> views(list@).index_of_first(name@) is None,
{
    proof {
        views(list@).index_of_first_ensures(name@);
    }
    let mut i: usize = 0;
    while i < list.len()
        invariant
            i <= list@.len(),
            forall|k: int| 0 <= k < i ==> views(list@)[k] != name@,
        decreases list.len() - i,
    {
        if str_eq(list[i].as_str(), name) {
            proof {
                views(list@).index_of_first_ensures(name@);
                assert(views(list@)[i as int] == name@);
                assert(views(list@).contains(name@));
                let f = views(list@).index_of_first(name@).unwrap();
                if f < i {
                    assert(views(list@)[f] != name@);
                }
                if f > i {
                    assert(views(list@)[i as int] != name@);
                }
            }
            return Some(i);
        }
        i = i + 1;
    }
    proof {
        views(list@).index_of_first_ensures(name@);
        if views(list@).contains(name@) {
            let f = views(list@).index_of_first(name@).unwrap();
            assert(views(list@)[f] != name@);
        }
    }
    None
}

proof fn lemma_total_prefix(dependencies: Seq<Vec<String>>, i: int)
    requires
        0 <= i <= dependencies.len(),
    ensures
        total_dependencies(dependencies.subrange(0, i)) <= total_dependencies(dependencies),
    decreases dependencies.len(),
{
    if i < dependencies.len() {
        lemma_total_prefix(dependencies.drop_last(), i);
        assert(dependencies.drop_last().subrange(0, i) =~= dependencies.subrange(0, i));
    } else {
        assert(dependencies.subrange(0, i) =~= dependencies);
    }
}

proof fn lemma_kept_prefix(names: Seq<Seq<char>>, i: int)
    requires
        0 <= i <= names.len(),
    ensures
        kept_entries(names.subrange(0, i)).len() <= kept_entries(names).len(),
    decreases names.len(),
{
    if i < names.len() {
        lemma_kept_prefix(names.drop_last(), i);
        assert(names.drop_last().subrange(0, i) =~= names.subrange(0, i));
    } else {
        assert(names.subrange(0, i) =~= names);
    }
}

/// Two records of archive and source information agree.
pub open spec fn same_dist(a: DistInfo, b: DistInfo) -> bool {
    &&& opt_view(a.dist_url) == opt_view(b.dist_url)
    &&& opt_view(a.dist_type) == opt_view(b.dist_type)
    &&& opt_view(a.dist_shasum) == opt_view(b.dist_shasum)
    &&& opt_view(a.source_url) == opt_view(b.source_url)
    &&& opt_view(a.source_type) == opt_view(b.source_type)
    &&& opt_view(a.source_reference) == opt_view(b.source_reference)
}

/// The versions of the kept entries, node by node.
pub open spec fn node_versions(selected: Seq<(String, String)>) -> Seq<String> {
    kept_entries(entry_names(selected)).map_values(|k: int| selected[k].1)
}

/// The archive and source information of the kept entries, node by node.
pub open spec fn node_dist(selected: Seq<(String, String)>, dist: Seq<DistInfo>) -> Seq<DistInfo> {
    kept_entries(entry_names(selected)).map_values(|k: int| dist[k])
}

/// The graph of a resolution names each node once, keeps its edges between
/// its nodes, and every node has a resolved package.
pub open spec fn resolution_well_formed(r: Resolution) -> bool {
    &&& graph_nodes(r.graph).no_duplicates()
    &&& edges_within(graph_nodes(r.graph).len() as int, graph_edges(r.graph))
    &&& forall|i: int|
        0 <= i < graph_nodes(r.graph).len() ==> package_names(r.packages@).contains(
            #[trigger] graph_nodes(r.graph)[i],
        )
}

/// The outcome of dependency resolution.
#[derive(Debug)]
pub struct Resolution {
    /// Resolved packages in installation order (dependencies first).
    pub packages: Vec<ResolvedPackage>,
    /// Dependency graph: node `i` is named after the package, and an edge
    /// runs from a dependency to the package that needs it.
    pub graph: DiGraph<String, ()>,
    /// Platform packages encountered.
    pub platform_packages: Vec<String>,
    /// Resolution time.
    pub duration: Duration,
}

/// Builds the resolution of the selected (name, version) entries, the root
/// project's own entry left out: one node per package, an edge from each
/// selected dependency that `dependencies[i]` names to entry `i`, and the
/// packages in installation order.
pub fn build_resolution(
    selected: &[(String, String)],
    dependencies: &[Vec<String>],
    dev_names: &[String],
    dist: &[DistInfo],
    platform_packages: Vec<String>,
    duration: Duration,
) -> (r: Resolution)
    requires
        selected@.len() == dependencies@.len(),
        selected@.len() == dist@.len(),
        selected@.len() < u32::MAX,
        total_dependencies(dependencies@) < u32::MAX,
        entry_names(selected@).no_duplicates(),
    ensures
        graph_nodes(r.graph) == names_at(
            entry_names(selected@),
            kept_entries(entry_names(selected@)),
        ),
        graph_edges(r.graph) == entry_edges(
            graph_nodes(r.graph),
            entry_names(selected@),
            entry_dependencies(dependencies@),
        ),
        exists|order: Seq<int>|
            installs_in_order(
                r.packages@,
                graph_nodes(r.graph),
                graph_edges(r.graph),
                node_versions(selected@),
                dev_names@,
                node_dist(selected@, dist@),
                order,
            ),
        resolution_well_formed(r),
        r.platform_packages == platform_packages,
        r.duration == duration,
{
    let ghost names = entry_names(selected@);
    let ghost deps = entry_dependencies(dependencies@);
    let mut graph = graph_new();
    let mut node_names: Vec<String> = Vec::new();
    let mut versions: Vec<String> = Vec::new();
    let mut dists: Vec<DistInfo> = Vec::new();
    let mut i: usize = 0;
    while i < selected.len()
        invariant
            i <= selected@.len() < u32::MAX,
            selected@.len() == dist@.len(),
            names == entry_names(selected@),
            graph_nodes(graph) == names_at(names, kept_entries(names.subrange(0, i as int))),
            graph_edges(graph) == Seq::<(int, int)>::empty(),
            views(node_names@) == graph_nodes(graph),
            versions@.len() == graph_nodes(graph).len(),
            dists@.len() == graph_nodes(graph).len(),
            forall|t: int|
                0 <= t < versions@.len() ==> #[trigger] versions@[t]@ == selected@[kept_entries(
                    names.subrange(0, i as int),
                )[t]].1@,
            forall|t: int|
                0 <= t < dists@.len() ==> same_dist(
                    #[trigger] dists@[t],
                    dist@[kept_entries(names.subrange(0, i as int))[t]],
                ),
        decreases selected.len() - i,
    {
        let ghost pre = names.subrange(0, i as int);
        proof {
            reveal_strlit("__root__/__root__");
            assert(names.subrange(0, i + 1).drop_last() =~= pre);
            assert(names[i as int] == selected@[i as int].0@);
            lemma_kept_entries_bounds(pre);
        }
        if !str_eq(selected[i].0.as_str(), "__root__/__root__") {
            let ghost g0 = graph_nodes(graph);
            let ghost n0 = node_names@;
            let ghost v0 = versions@;
            let ghost d0 = dists@;
            graph_add_node(&mut graph, owned(selected[i].0.as_str()));
            node_names.push(owned(selected[i].0.as_str()));
            versions.push(owned(selected[i].1.as_str()));
            dists.push(copy_dist(&dist[i]));
            proof {
                let k1 = kept_entries(names.subrange(0, i + 1));
                assert(k1 == kept_entries(pre).push(i as int));
                assert(graph_nodes(graph) =~= names_at(names, k1));
                assert(views(node_names@) =~= views(n0).push(selected@[i as int].0@));
                assert forall|t: int| 0 <= t < versions@.len() implies #[trigger] versions@[t]@
                    == selected@[k1[t]].1@ by {
                    if t < v0.len() {
                        assert(versions@[t] == v0[t]);
                    }
                }
                assert forall|t: int| 0 <= t < dists@.len() implies same_dist(
                    #[trigger] dists@[t],
                    dist@[k1[t]],
                ) by {
                    if t < d0.len() {
                        assert(dists@[t] == d0[t]);
                    }
                }
            }
        } else {
            proof {
                assert(kept_entries(names.subrange(0, i + 1)) == kept_entries(pre));
            }
        }
        i = i + 1;
    }
    proof {
        assert(names.subrange(0, selected@.len() as int) =~= names);
    }
    let ghost nodes = graph_nodes(graph);
    i = 0;
    let mut t: usize = 0;
    while i < selected.len()
        invariant
            i <= selected@.len() < u32::MAX,
            selected@.len() == dependencies@.len(),
            names == entry_names(selected@),
            deps == entry_dependencies(dependencies@),
            nodes == names_at(names, kept_entries(names)),
            graph_nodes(graph) == nodes,
            views(node_names@) == nodes,
            t == kept_entries(names.subrange(0, i as int)).len(),
            graph_edges(graph) == entry_edges(
                nodes,
                names.subrange(0, i as int),
                deps.subrange(0, i as int),
            ),
            graph_edges(graph).len() <= total_dependencies(dependencies@.subrange(0, i as int)),
            total_dependencies(dependencies@) < u32::MAX,
            edges_within(nodes.len() as int, graph_edges(graph)),
        decreases selected.len() - i,
    {
        let ghost pre = names.subrange(0, i as int);
        let ghost e0 = graph_edges(graph);
        proof {
            reveal_strlit("__root__/__root__");
            assert(names.subrange(0, i + 1).drop_last() =~= pre);
            assert(deps.subrange(0, i + 1).drop_last() =~= deps.subrange(0, i as int));
            assert(dependencies@.subrange(0, i + 1).drop_last() =~= dependencies@.subrange(0, i as int));
            assert(names[i as int] == selected@[i as int].0@);
            lemma_total_prefix(dependencies@, i + 1);
            lemma_kept_prefix(names, i + 1);
            lemma_kept_entries_bounds(names);
        }
        if !str_eq(selected[i].0.as_str(), "__root__/__root__") {
            let list = &dependencies[i];
            let ghost dl = deps[i as int];
            proof {
                assert(kept_entries(names.subrange(0, i + 1)).len() == t + 1);
                assert(dl == views(list@));
                assert(total_dependencies(dependencies@.subrange(0, i + 1)) == total_dependencies(
                    dependencies@.subrange(0, i as int),
                ) + list@.len());
            }
            let mut d: usize = 0;
            while d < list.len()
                invariant
                    d <= list@.len(),
                    dl == views(list@),
                    t < nodes.len(),
                    graph_nodes(graph) == nodes,
                    views(node_names@) == nodes,
                    graph_edges(graph) == e0 + edges_into(nodes, dl.subrange(0, d as int), t as int),
                    e0.len() <= total_dependencies(dependencies@.subrange(0, i as int)),
                    total_dependencies(dependencies@.subrange(0, i as int)) + list@.len()
                        <= total_dependencies(dependencies@),
                    total_dependencies(dependencies@) < u32::MAX,
                    edges_within(nodes.len() as int, e0),
                decreases list.len() - d,
            {
                let ghost before = graph_edges(graph);
                proof {
                    assert(dl.subrange(0, d + 1).drop_last() =~= dl.subrange(0, d as int));
                    assert(dl[d as int] == list@[d as int]@);
                    lemma_edges_into_bounds(nodes, dl.subrange(0, d as int), t as int);
                }
                match position_of(&node_names, list[d].as_str()) {
                    Some(p) => {
                        proof {
                            nodes.index_of_first_ensures(dl[d as int]);
                        }
                        graph_add_edge(&mut graph, p, t);
                        proof {
                            assert(graph_edges(graph) =~= e0 + edges_into(nodes, dl.subrange(0, d + 1), t as int));
                        }
                    },
                    None => {
                        proof {
                            assert(graph_edges(graph) =~= e0 + edges_into(nodes, dl.subrange(0, d + 1), t as int));
                        }
                    },
                }
                d = d + 1;
            }
            proof {
                assert(dl.subrange(0, dl.len() as int) =~= dl);
                lemma_edges_into_bounds(nodes, dl, t as int);
                assert(edges_within(nodes.len() as int, graph_edges(graph))) by {
                    let ei = edges_into(nodes, dl, t as int);
                    assert forall|j: int| 0 <= j < graph_edges(graph).len() implies 0
                        <= #[trigger] graph_edges(graph)[j].0 < nodes.len() && 0 <= graph_edges(graph)[j].1
                        < nodes.len() by {
                        if j < e0.len() {
                            assert(graph_edges(graph)[j] == e0[j]);
                        } else {
                            assert(graph_edges(graph)[j] == ei[j - e0.len()]);
                        }
                    }
                }
            }
            t = t + 1;
        } else {
            proof {
                assert(kept_entries(names.subrange(0, i + 1)) == kept_entries(pre));
            }
        }
        i = i + 1;
    }
    proof {
        assert(names.subrange(0, selected@.len() as int) =~= names);
        assert(deps.subrange(0, selected@.len() as int) =~= deps);
    }
    let packages = topological_sort(&graph, versions.as_slice(), dev_names, dists.as_slice());
    proof {
        let order = choose|order: Seq<int>|
            installs_in_order(packages@, nodes, graph_edges(graph), versions@, dev_names@, dists@, order);
        assert(installs_in_order(
            packages@,
            nodes,
            graph_edges(graph),
            node_versions(selected@),
            dev_names@,
            node_dist(selected@, dist@),
            order,
        )) by {
            assert forall|k: int| 0 <= k < order.len() implies describes(
                #[trigger] packages@[k],
                nodes,
                graph_edges(graph),
                order[k],
                node_versions(selected@),
                dev_names@,
                node_dist(selected@, dist@),
            ) by {
                assert(describes(packages@[k], nodes, graph_edges(graph), order[k], versions@, dev_names@, dists@));
                assert(0 <= order[k] < nodes.len());
            }
        }
    }
    let r = Resolution { packages, graph, platform_packages, duration };
    proof {
        let order = choose|order: Seq<int>|
            installs_in_order(packages@, nodes, graph_edges(graph), versions@, dev_names@, dists@, order);
        assert(installs_in_order(
            r.packages@,
            graph_nodes(r.graph),
            graph_edges(r.graph),
            node_versions(selected@),
            dev_names@,
            node_dist(selected@, dist@),
            order,
        ));
        lemma_kept_names_distinct(names);
    }
    r
}

/// The names of a list of resolved packages.
pub open spec fn package_names(pkgs: Seq<ResolvedPackage>) -> Seq<Seq<char>> {
    pkgs.map_values(|p: ResolvedPackage| p.name@)
}

/// For each name that a package carries, the first package with it.
pub open spec fn packages_named(pkgs: Seq<ResolvedPackage>, names: Seq<Seq<char>>) -> Seq<
    ResolvedPackage,
>
    decreases names.len(),
{
    if names.len() == 0 {
        Seq::empty()
    } else {
        let rest = packages_named(pkgs, names.drop_last());
        match package_names(pkgs).index_of_first(names.last()) {
            Some(k) => rest.push(pkgs[k]),
            None => rest,
        }
    }
}

/// The packages along the edges of the node named `name`, in direction
/// `dir`; none where no node has that name.
pub open spec fn related_packages(
    pkgs: Seq<ResolvedPackage>,
    nodes: Seq<Seq<char>>,
    edges: Seq<(int, int)>,
    name: Seq<char>,
    dir: EdgeDirection,
) -> Seq<ResolvedPackage> {
    match nodes.index_of_first(name) {
        Some(i) => packages_named(pkgs, names_at(nodes, neighbors_of(edges, i, dir))),
        None => Seq::empty(),
    }
}

impl Resolution {
    /// The number of resolved packages.
    pub fn len(&self) -> (r: usize)
        ensures
            r == self.packages@.len(),
    {
        self.packages.len()
    }

    /// Whether no package was resolved.
    pub fn is_empty(&self) -> (r: bool)
        ensures
            r == (self.packages@.len() == 0),
    {
        self.packages.len() == 0
    }

    /// The first resolved package with the given name.
    pub fn get(&self, name: &str) -> (r: Option<&ResolvedPackage>)
        ensures
            match package_names(self.packages@).index_of_first(name@) {
                Some(k) => r matches Some(p) && *p == self.packages@[k],
                None => r is None,
            },
    {
        proof {
            package_names(self.packages@).index_of_first_ensures(name@);
        }
        let mut i: usize = 0;
        while i < self.packages.len()
            invariant
                i <= self.packages@.len(),
                forall|k: int| 0 <= k < i ==> self.packages@[k].name@ != name@,
            decreases self.packages.len() - i,
        {
            if str_eq(self.packages[i].name.as_str(), name) {
                proof {
                    package_names(self.packages@).index_of_first_ensures(name@);
                    let names = package_names(self.packages@);
                    assert(names[i as int] == name@);
                    let f = names.index_of_first(name@).unwrap();
                    if f < i {
                        assert(names[f] == self.packages@[f].name@);
                    }
                    if f > i {
                        assert(names[i as int] != name@);
                    }
                }
                return Some(&self.packages[i]);
            }
            i = i + 1;
        }
        proof {
            let names = package_names(self.packages@);
            names.index_of_first_ensures(name@);
            if names.contains(name@) {
                let f = names.index_of_first(name@).unwrap();
                assert(names[f] == self.packages@[f].name@);
            }
        }
        None
    }

    /// Whether a node of the graph carries the given name.
    pub fn contains(&self, name: &str) -> (r: bool)
        ensures
            r == graph_nodes(self.graph).contains(name@),
    {
        let n = graph_node_count(&self.graph);
        let mut i: usize = 0;
        while i < n
            invariant
                i <= n == graph_nodes(self.graph).len(),
                n <= u32::MAX,
                forall|k: int| 0 <= k < i ==> graph_nodes(self.graph)[k] != name@,
            decreases n - i,
        {
            match graph_node_weight(&self.graph, i) {
                Some(s) => {
                    if str_eq(s.as_str(), name) {
                        return true;
                    }
                },
                None => {},
            }
            i = i + 1;
        }
        false
    }

    /// The node carrying the given name, the first where several do.
    fn node_named(&self, name: &str) -> (r: Option<usize>)
        ensures
            match graph_nodes(self.graph).index_of_first(name@) {
                Some(k) => r == Some(k as usize),
                None => r is None,
            },
            r matches Some(k) ==> k < graph_nodes(self.graph).len() && k <= u32::MAX,
    {
        let n = graph_node_count(&self.graph);
        let ghost nodes = graph_nodes(self.graph);
        proof {
            nodes.index_of_first_ensures(name@);
        }
        let mut i: usize = 0;
        while i < n
            invariant
                i <= n == nodes.len(),
                nodes == graph_nodes(self.graph),
                n <= u32::MAX,
                forall|k: int| 0 <= k < i ==> nodes[k] != name@,
            decreases n - i,
        {
            match graph_node_weight(&self.graph, i) {
                Some(s) => {
                    if str_eq(s.as_str(), name) {
                        proof {
                            nodes.index_of_first_ensures(name@);
                            let f = nodes.index_of_first(name@).unwrap();
                            if f < i {
                                assert(nodes[f] != name@);
                            }
                            if f > i {
                                assert(nodes[i as int] != name@);
                            }
                        }
                        return Some(i);
                    }
                },
                None => {},
            }
            i = i + 1;
        }
        proof {
            nodes.index_of_first_ensures(name@);
            if nodes.contains(name@) {
                let f = nodes.index_of_first(name@).unwrap();
                assert(nodes[f] != name@);
            }
        }
        None
    }

    /// The packages along the edges of the named package's node.
    fn related(&self, name: &str, dir: EdgeDirection) -> (r: Vec<&ResolvedPackage>)
        ensures
            r@.map_values(|p: &ResolvedPackage| *p) == related_packages(
                self.packages@,
                graph_nodes(self.graph),
                graph_edges(self.graph),
                name@,
                dir,
            ),
    {
        let ghost nodes = graph_nodes(self.graph);
        let ghost edges = graph_edges(self.graph);
        let idx = match self.node_named(name) {
            Some(i) => i,
            None => {
                let empty: Vec<&ResolvedPackage> = Vec::new();
                assert(empty@.map_values(|p: &ResolvedPackage| *p) =~= Seq::<ResolvedPackage>::empty());
                return empty;
            },
        };
        let ghost nb = neighbors_of(edges, idx as int, dir);
        let n = graph_node_count(&self.graph);
        let near = graph_neighbors(&self.graph, idx, dir);
        proof {
            lemma_neighbors_within(n as int, edges, idx as int, dir);
            assert forall|t: int| 0 <= t < nb.len() implies near@[t] as int == nb[t] by {
                assert(near@.map_values(|i: usize| i as int)[t] == near@[t] as int);
            }
        }
        let mut out: Vec<&ResolvedPackage> = Vec::new();
        let mut t: usize = 0;
        while t < near.len()
            invariant
                t <= near@.len() == nb.len(),
                nodes == graph_nodes(self.graph),
                forall|u: int| 0 <= u < nb.len() ==> near@[u] as int == nb[u],
                forall|u: int| 0 <= u < near@.len() ==> near@[u] <= u32::MAX,
                forall|u: int| 0 <= u < nb.len() ==> 0 <= #[trigger] nb[u] < nodes.len(),
                out@.map_values(|p: &ResolvedPackage| *p) == packages_named(
                    self.packages@,
                    names_at(nodes, nb.subrange(0, t as int)),
                ),
            decreases near.len() - t,
        {
            let ghost prev = out@;
            let ghost sub = names_at(nodes, nb.subrange(0, t + 1));
            proof {
                assert(sub.drop_last() =~= names_at(nodes, nb.subrange(0, t as int)));
                assert(near@[t as int] as int == nb[t as int]);
                assert(0 <= nb[t as int] < nodes.len());
            }
            match graph_node_weight(&self.graph, near[t]) {
                Some(s) => {
                    proof {
                        assert(sub.last() == s@);
                    }
                    match self.get(s.as_str()) {
                        Some(p) => {
                            out.push(p);
                            proof {
                                assert(out@.map_values(|p: &ResolvedPackage| *p) =~= prev.map_values(
                                    |p: &ResolvedPackage| *p,
                                ).push(*p));
                            }
                        },
                        None => {},
                    }
                },
                None => {
                    proof {
                        assert(false);
                    }
                },
            }
            t = t + 1;
        }
        proof {
            assert(nb.subrange(0, nb.len() as int) =~= nb);
            nodes.index_of_first_ensures(name@);
            assert(nodes.index_of_first(name@) == Some(idx as int));
        }
        out
    }

    /// The packages that depend on the named package (the targets of its
    /// outgoing edges), one entry per edge.
    pub fn dependents(&self, name: &str) -> (r: Vec<&ResolvedPackage>)
        ensures
            r@.map_values(|p: &ResolvedPackage| *p) == related_packages(
                self.packages@,
                graph_nodes(self.graph),
                graph_edges(self.graph),
                name@,
                EdgeDirection::Outgoing,
            ),
    {
        self.related(name, EdgeDirection::Outgoing)
    }

    /// The packages the named package depends on (the sources of its
    /// incoming edges), one entry per edge.
    pub fn dependencies_of(&self, name: &str) -> (r: Vec<&ResolvedPackage>)
        ensures
            r@.map_values(|p: &ResolvedPackage| *p) == related_packages(
                self.packages@,
                graph_nodes(self.graph),
                graph_edges(self.graph),
                name@,
                EdgeDirection::Incoming,
            ),
    {
        self.related(name, EdgeDirection::Incoming)
    }

    /// The packages in installation order (dependencies first).
    pub fn installation_order(&self) -> (r: &[ResolvedPackage])
        ensures
            r@ == self.packages@,
    {
        self.packages.as_slice()
    }
}

proof fn lemma_occurrences_contains(s: Seq<int>, v: int)
    ensures
        (occurrences(s, v) > 0) == s.contains(v),
    decreases s.len(),
{
    if s.len() > 0 {
        lemma_occurrences_contains(s.drop_first(), v);
        if s.contains(v) && s[0] != v {
            let i = choose|i: int| 0 <= i < s.len() && s[i] == v;
            assert(s.drop_first()[i - 1] == v);
        }
        if s.drop_first().contains(v) {
            let i = choose|i: int| 0 <= i < s.drop_first().len() && s.drop_first()[i] == v;
            assert(s[i + 1] == v);
        }
        if s[0] == v {
            assert(s.contains(v));
        }
    }
}

proof fn lemma_packages_named_contains(pkgs: Seq<ResolvedPackage>, names: Seq<Seq<char>>, n: Seq<char>)
    ensures
        package_names(packages_named(pkgs, names)).contains(n) == (names.contains(n)
            && package_names(pkgs).contains(n)),
    decreases names.len(),
{
    if names.len() > 0 {
        lemma_packages_named_contains(pkgs, names.drop_last(), n);
        let rest = packages_named(pkgs, names.drop_last());
        let last = names.last();
        package_names(pkgs).index_of_first_ensures(last);
        let here = packages_named(pkgs, names);
        assert(names.contains(n) == (names.drop_last().contains(n) || last == n)) by {
            if names.contains(n) {
                let i = choose|i: int| 0 <= i < names.len() && names[i] == n;
                if i < names.len() - 1 {
                    assert(names.drop_last()[i] == n);
                }
            }
            if names.drop_last().contains(n) {
                let i = choose|i: int| 0 <= i < names.drop_last().len() && names.drop_last()[i] == n;
                assert(names[i] == n);
            }
        }
        match package_names(pkgs).index_of_first(last) {
            Some(k) => {
                assert(package_names(here) =~= package_names(rest).push(pkgs[k].name@));
                assert(package_names(pkgs)[k] == pkgs[k].name@);
                if package_names(here).contains(n) {
                    let i = choose|i: int| 0 <= i < package_names(here).len() && package_names(here)[i] == n;
                    if i < package_names(rest).len() {
                        assert(package_names(rest)[i] == n);
                    }
                }
                if package_names(rest).contains(n) {
                    let i = choose|i: int| 0 <= i < package_names(rest).len() && package_names(rest)[i] == n;
                    assert(package_names(here)[i] == n);
                }
                if last == n {
                    assert(package_names(here)[package_names(rest).len() as int] == n);
                }
            },
            None => {
                assert(here == rest);
            },
        }
    }
}

proof fn lemma_names_at_contains(nodes: Seq<Seq<char>>, idx: Seq<int>, j: int)
    requires
        nodes.no_duplicates(),
        0 <= j < nodes.len(),
        forall|t: int| 0 <= t < idx.len() ==> 0 <= #[trigger] idx[t] < nodes.len(),
    ensures
        names_at(nodes, idx).contains(nodes[j]) == idx.contains(j),
{
    if names_at(nodes, idx).contains(nodes[j]) {
        let t = choose|t: int| 0 <= t < names_at(nodes, idx).len() && names_at(nodes, idx)[t] == nodes[j];
        assert(nodes[idx[t]] == nodes[j]);
        assert(idx[t] == j);
    }
    if idx.contains(j) {
        let t = choose|t: int| 0 <= t < idx.len() && idx[t] == j;
        assert(names_at(nodes, idx)[t] == nodes[j]);
    }
}

/// `dependents` and `dependencies_of` mirror each other: where the nodes
/// carry distinct names, every node has a resolved package and both names
/// are nodes, the package named `y` is among the dependents of `x` exactly
/// when the package named `x` is among the dependencies of `y`. (A name that
/// is no node gets no related packages at all.)
pub proof fn lemma_related_packages_mirror(
    pkgs: Seq<ResolvedPackage>,
    nodes: Seq<Seq<char>>,
    edges: Seq<(int, int)>,
    x: Seq<char>,
    y: Seq<char>,
)
    requires
        nodes.no_duplicates(),
        edges_within(nodes.len() as int, edges),
        forall|i: int| 0 <= i < nodes.len() ==> package_names(pkgs).contains(#[trigger] nodes[i]),
        nodes.contains(x),
        nodes.contains(y),
    ensures
        package_names(related_packages(pkgs, nodes, edges, x, EdgeDirection::Outgoing)).contains(y)
            == package_names(related_packages(pkgs, nodes, edges, y, EdgeDirection::Incoming)).contains(
            x,
        ),
{
    nodes.index_of_first_ensures(x);
    nodes.index_of_first_ensures(y);
    let ix = nodes.index_of_first(x).unwrap();
    let iy = nodes.index_of_first(y).unwrap();
    let out = neighbors_of(edges, ix, EdgeDirection::Outgoing);
    let inc = neighbors_of(edges, iy, EdgeDirection::Incoming);
    lemma_neighbors_within(nodes.len() as int, edges, ix, EdgeDirection::Outgoing);
    lemma_neighbors_within(nodes.len() as int, edges, iy, EdgeDirection::Incoming);
    lemma_packages_named_contains(pkgs, names_at(nodes, out), y);
    lemma_packages_named_contains(pkgs, names_at(nodes, inc), x);
    lemma_names_at_contains(nodes, out, iy);
    lemma_names_at_contains(nodes, inc, ix);
    lemma_occurrences_contains(out, iy);
    lemma_occurrences_contains(inc, ix);
    lemma_dependents_mirror_dependencies(edges, ix, iy);
}

/// In a resolution that `build_resolution` returns (or any well-formed
/// one), `dependents` and `dependencies_of` mirror each other: the package
/// named `y` is among the dependents of `x` exactly when the package named
/// `x` is among the dependencies of `y`; and a name that is no node of the
/// graph has neither dependents nor dependencies.
pub proof fn lemma_resolution_mirror(r: Resolution, x: Seq<char>, y: Seq<char>)
    requires
        resolution_well_formed(r),
    ensures
        graph_nodes(r.graph).contains(x) && graph_nodes(r.graph).contains(y) ==> package_names(
            related_packages(r.packages@, graph_nodes(r.graph), graph_edges(r.graph), x, EdgeDirection::Outgoing),
        ).contains(y) == package_names(
            related_packages(r.packages@, graph_nodes(r.graph), graph_edges(r.graph), y, EdgeDirection::Incoming),
        ).contains(x),
        !graph_nodes(r.graph).contains(x) ==> related_packages(
            r.packages@,
            graph_nodes(r.graph),
            graph_edges(r.graph),
            x,
            EdgeDirection::Outgoing,
        ).len() == 0 && related_packages(
            r.packages@,
            graph_nodes(r.graph),
            graph_edges(r.graph),
            x,
            EdgeDirection::Incoming,
        ).len() == 0,
{
    graph_nodes(r.graph).index_of_first_ensures(x);
    if graph_nodes(r.graph).contains(x) && graph_nodes(r.graph).contains(y) {
        lemma_related_packages_mirror(r.packages@, graph_nodes(r.graph), graph_edges(r.graph), x, y);
    }
}

} // verus!
