//! The dependency graph between formulas and the order to calculate them in.
//!
//! The graph itself is a `petgraph` graph. Its contents are referred to by
//! two names, the node names in index order and the edges in the order they
//! were added; the contracts of the calls into `petgraph` are stated over
//! them and are not proved here.
use crate::text::same_text;
use petgraph::algo::toposort;
use petgraph::graph::{Graph, NodeIndex};
use petgraph::Directed;
use vstd::prelude::*;

verus! {

/// `petgraph::graph::Graph`, carried through without looking inside.
#[verifier::external_type_specification]
#[verifier::external_body]
#[verifier::reject_recursive_types(N)]
#[verifier::reject_recursive_types(E)]
#[verifier::reject_recursive_types(Ty)]
#[verifier::reject_recursive_types(Ix)]
pub struct ExGraph<N, E, Ty, Ix>(Graph<N, E, Ty, Ix>);

/// `petgraph::Directed`, the marker of graphs with directed edges.
#[verifier::external_type_specification]
#[verifier::external_body]
pub struct ExDirected(Directed);

/// The names of the graph's nodes; a node's index is its place here.
pub uninterp spec fn graph_nodes(graph: Graph<String, (), Directed, u32>) -> Seq<Seq<char>>;

/// The graph's edges in the order they were added, each as the indices of
/// the node it leaves and the node it enters.
pub uninterp spec fn graph_edges(graph: Graph<String, (), Directed, u32>) -> Seq<(int, int)>;

/// Whether `order` lists each of the nodes `0..node_count` once, every node
/// before the nodes its edges lead to.
pub open spec fn is_topological_order(
    order: Seq<int>,
    node_count: nat,
    edges: Seq<(int, int)>,
) -> bool {
    &&& order.len() == node_count
    &&& order.no_duplicates()
    &&& forall|k: int| 0 <= k < order.len() ==> 0 <= #[trigger] order[k] < node_count
    &&& forall|e: int, i: int, j: int|
        #![trigger edges[e], order[i], order[j]]
        0 <= e < edges.len() && 0 <= i < order.len() && 0 <= j < order.len() && order[i]
            == edges[e].0 && order[j] == edges[e].1 ==> i < j
}

/// Whether the nodes can be put in an order that every edge respects. A
/// graph has such an order exactly if no path along its edges returns to
/// where it started.
pub open spec fn is_acyclic(node_count: nat, edges: Seq<(int, int)>) -> bool {
    exists|order: Seq<int>| is_topological_order(order, node_count, edges)
}

/// `Graph::new` of `petgraph`: a directed graph without nodes or edges.
#[verifier::external_body]
fn empty_graph() -> (graph: Graph<String, (), Directed, u32>)
    ensures
        graph_nodes(graph) == Seq::<Seq<char>>::empty(),
        graph_edges(graph) == Seq::<(int, int)>::empty(),
{
    Graph::new()
}

/// `Graph::add_node` of `petgraph`: appends a node and returns its index,
/// the number of nodes before the call. The call panics once the node
/// count reaches the largest `u32`, which the precondition excludes.
#[verifier::external_body]
fn push_node(graph: &mut Graph<String, (), Directed, u32>, name: String) -> (index: usize)
    requires
        graph_nodes(*old(graph)).len() < u32::MAX,
    ensures
        graph_nodes(*final(graph)) == graph_nodes(*old(graph)).push(name@),
        graph_edges(*final(graph)) == graph_edges(*old(graph)),
        index == graph_nodes(*old(graph)).len(),
{
    graph.add_node(name).index()
}

/// `Graph::add_edge` of `petgraph`: appends an edge between two existing
/// nodes; parallel edges are kept. The call panics on a node index out of
/// bounds and once the edge count reaches the largest `u32`, which the
/// preconditions exclude.
#[verifier::external_body]
fn push_edge(graph: &mut Graph<String, (), Directed, u32>, from: usize, to: usize)
    requires
        from < graph_nodes(*old(graph)).len(),
        to < graph_nodes(*old(graph)).len(),
        graph_edges(*old(graph)).len() < u32::MAX,
    ensures
        graph_nodes(*final(graph)) == graph_nodes(*old(graph)),
        graph_edges(*final(graph)) == graph_edges(*old(graph)).push((from as int, to as int)),
{
    graph.add_edge(NodeIndex::new(from), NodeIndex::new(to), ());
}

/// `Graph::edge_count` of `petgraph`: the number of edges.
#[verifier::external_body]
fn count_edges(graph: &Graph<String, (), Directed, u32>) -> (count: usize)
    ensures
        count == graph_edges(*graph).len(),
{
    graph.edge_count()
}

/// `algo::toposort` of `petgraph`: for a graph without cycles, all nodes in
/// an order in which each stands before its successors; for a graph with a
/// cycle (a self loop is one), an error, rendered here as `None`.
#[verifier::external_body]
fn sorted_nodes(graph: &Graph<String, (), Directed, u32>) -> (sorted: Option<Vec<usize>>)
    ensures
        match sorted {
            Some(order) => is_topological_order(
                order@.map_values(|i: usize| i as int),
                graph_nodes(*graph).len(),
                graph_edges(*graph),
            ),
            None => !is_acyclic(graph_nodes(*graph).len(), graph_edges(*graph)),
        },
{
    match toposort(graph, None) {
        Ok(nodes) => Some(nodes.into_iter().map(|node| node.index()).collect()),
        Err(_) => None,
    }
}

/// The mathematical value of a [`DependencyGraph`].
pub struct Dependencies {
    /// The names of the nodes; no name occurs twice.
    pub nodes: Seq<Seq<char>>,
    /// The edges, each from a node to one that depends on it.
    pub edges: Seq<(int, int)>,
}

impl Dependencies {
    /// The graph without nodes.
    pub open spec fn empty() -> Dependencies {
        Dependencies { nodes: Seq::empty(), edges: Seq::empty() }
    }

    /// The graph with a node named `name`: itself where it has one, else
    /// with the node added last.
    pub open spec fn with_node(self, name: Seq<char>) -> Dependencies {
        if self.nodes.contains(name) {
            self
        } else {
            Dependencies { nodes: self.nodes.push(name), edges: self.edges }
        }
    }

    /// The graph with nodes for both names and an edge from `dependency` to
    /// `dependent`.
    pub open spec fn with_dependency(self, dependent: Seq<char>, dependency: Seq<char>) -> Dependencies {
        let both = self.with_node(dependency).with_node(dependent);
        Dependencies {
            nodes: both.nodes,
            edges: both.edges.push((both.nodes.index_of(dependency), both.nodes.index_of(dependent))),
        }
    }

    /// Whether `names` lists every node once, each after all its
    /// dependencies.
    pub open spec fn is_order(self, names: Seq<Seq<char>>) -> bool {
        exists|order: Seq<int>|
            #![trigger is_topological_order(order, self.nodes.len(), self.edges)]
            {
                &&& is_topological_order(order, self.nodes.len(), self.edges)
                &&& names == order.map_values(|i: int| self.nodes[i])
            }
    }
}

/// Tracks which formula depends on which, e.g. "Net Income" on "Tax" on
/// "Revenue".
pub struct DependencyGraph {
    graph: Graph<String, (), Directed, u32>,
    names: Vec<String>,
}

impl View for DependencyGraph {
    type V = Dependencies;

    closed spec fn view(&self) -> Dependencies {
        Dependencies { nodes: graph_nodes(self.graph), edges: graph_edges(self.graph) }
    }
}

impl DependencyGraph {
    /// No name occurs twice.
    pub closed spec fn well_formed(&self) -> bool {
        &&& self.names.deep_view() == graph_nodes(self.graph)
        &&& graph_nodes(self.graph).no_duplicates()
    }

    pub fn new() -> (graph: Self)
        ensures
            graph.well_formed(),
            graph@ == Dependencies::empty(),
    {
        let graph = DependencyGraph { graph: empty_graph(), names: Vec::new() };
        assert(graph.names.deep_view() =~= Seq::<Seq<char>>::empty());
        graph
    }

    /// The number of nodes.
    pub fn node_count(&self) -> (count: usize)
        requires
            self.well_formed(),
        ensures
            count == self@.nodes.len(),
    {
        proof {
            assert(self.names.deep_view().len() == self.names.len());
        }
        self.names.len()
    }

    /// The number of edges.
    pub fn edge_count(&self) -> (count: usize)
        ensures
            count == self@.edges.len(),
    {
        count_edges(&self.graph)
    }

    /// The index of the node named `name`, if there is one.
    pub fn find_node(&self, name: &str) -> (found: Option<usize>)
        requires
            self.well_formed(),
        ensures
            match found {
                Some(index) => index < self@.nodes.len() && self@.nodes[index as int] == name@,
                None => !self@.nodes.contains(name@),
            },
    {
        let mut i: usize = 0;
        while i < self.names.len()
            invariant
                i <= self.names.len(),
                self.well_formed(),
                forall|j: int| 0 <= j < i ==> self@.nodes[j] != name@,
            decreases self.names.len() - i,
        {
            assert(self.names.deep_view()[i as int] == self.names[i as int]@);
            if same_text(self.names[i].as_str(), name) {
                return Some(i);
            }
            i += 1;
        }
        proof {
            assert(self.names.deep_view().len() == self.names.len());
        }
        None
    }

    /// Adds a node (e.g., "Revenue") to the graph if it doesn't exist, and
    /// returns its index.
    pub fn add_node(&mut self, name: &str) -> (index: usize)
        requires
            old(self).well_formed(),
            old(self)@.nodes.contains(name@) || old(self)@.nodes.len() < u32::MAX,
        ensures
            final(self).well_formed(),
            final(self)@ == old(self)@.with_node(name@),
            index < final(self)@.nodes.len(),
            final(self)@.nodes[index as int] == name@,
    {
        if let Some(index) = self.find_node(name) {
            assert(self@.nodes.contains(name@));
            return index;
        }
        let ghost before = self.names.deep_view();
        let index = push_node(&mut self.graph, name.to_owned());
        self.names.push(name.to_owned());
        proof {
            assert(self.names.deep_view() =~= before.push(name@));
        }
        index
    }

    /// Adds a dependency: `dependent` depends on `dependency`, which must
    /// be calculated first. The edge runs from `dependency` to `dependent`.
    pub fn add_dependency(&mut self, dependent: &str, dependency: &str)
        requires
            old(self).well_formed(),
            old(self)@.with_node(dependency@).with_node(dependent@).nodes.len() <= u32::MAX,
            old(self)@.edges.len() < u32::MAX,
        ensures
            final(self).well_formed(),
            final(self)@ == old(self)@.with_dependency(dependent@, dependency@),
    {
        let u = self.add_node(dependency);
        let v = self.add_node(dependent);
        proof {
            let nodes = self@.nodes;
            assert(nodes[u as int] == dependency@);
            assert(nodes[v as int] == dependent@);
            nodes.index_of_first_ensures(dependency@);
            nodes.index_of_first_ensures(dependent@);
            assert(nodes.index_of(dependency@) == u);
            assert(nodes.index_of(dependent@) == v);
        }
        push_edge(&mut self.graph, u, v);
    }

    /// Returns the execution order: every name once, each after the names
    /// it depends on. Fails if the dependencies form a cycle.
    pub fn resolve_order(&self) -> (resolved: Result<Vec<String>, String>)
        requires
            self.well_formed(),
        ensures
            match resolved {
                Ok(names) => self@.is_order(names.deep_view()),
                Err(text) => text@ == "Cycle detected in dependency graph!"@ && !is_acyclic(
                    self@.nodes.len(),
                    self@.edges,
                ),
            },
    {
        match sorted_nodes(&self.graph) {
            Some(nodes) => {
                let ghost order = nodes@.map_values(|i: usize| i as int);
                let mut names: Vec<String> = Vec::new();
                let mut k: usize = 0;
                while k < nodes.len()
                    invariant
                        k <= nodes.len(),
                        self.well_formed(),
                        order == nodes@.map_values(|i: usize| i as int),
                        is_topological_order(order, self@.nodes.len(), self@.edges),
                        names.deep_view() == order.take(k as int).map_values(
                            |i: int| self@.nodes[i],
                        ),
                    decreases nodes.len() - k,
                {
                    let ghost before = names.deep_view();
                    let index = nodes[k];
                    assert(order[k as int] == index as int);
                    assert(self.names.deep_view()[index as int] == self.names[index as int]@);
                    names.push(self.names[index].clone());
                    proof {
                        assert(names.deep_view() =~= before.push(self@.nodes[index as int]));
                        assert(order.take(k + 1).map_values(|i: int| self@.nodes[i])
                            =~= order.take(k as int).map_values(|i: int| self@.nodes[i]).push(
                            self@.nodes[index as int],
                        ));
                    }
                    k += 1;
                }
                proof {
                    assert(order.take(k as int) =~= order);
                }
                Ok(names)
            },
            None => Err("Cycle detected in dependency graph!".to_owned()),
        }
    }
}

} // verus!
