//! The directed graph of allowed transitions, kept in a `petgraph` graph map.
//! Nodes and edge weights are small integer codes.
use vstd::prelude::*;
use petgraph::graphmap::GraphMap;
use petgraph::Directed;

verus! {

#[verifier::external_type_specification]
#[verifier::external_body]
#[verifier::reject_recursive_types(N)]
#[verifier::reject_recursive_types(E)]
#[verifier::reject_recursive_types(Ty)]
#[verifier::reject_recursive_types(S)]
pub struct ExGraphMap<N, E, Ty, S>(GraphMap<N, E, Ty, S>) where S: std::hash::BuildHasher;

#[verifier::external_type_specification]
#[verifier::external_body]
pub struct ExDirected(Directed);

/// The graph type used for transitions: nodes and weights are codes.
pub type CodeGraph = GraphMap<u8, u8, Directed>;

/// The edges of a graph, as `(from, to, weight)`, in the order in which each
/// `(from, to)` pair was first added; a pair added again keeps its place and
/// takes the new weight.
pub uninterp spec fn graph_edges(g: CodeGraph) -> Seq<(u8, u8, u8)>;

/// Whether the pair `(a, b)` sits at position `i` of `s`.
pub open spec fn pair_at(s: Seq<(u8, u8, u8)>, i: int, a: u8, b: u8) -> bool {
    0 <= i < s.len() && s[i].0 == a && s[i].1 == b
}

/// No `(from, to)` pair occurs twice.
pub open spec fn pairs_unique(s: Seq<(u8, u8, u8)>) -> bool {
    forall|i: int, j: int|
        0 <= i < s.len() && 0 <= j < s.len() && i != j ==> !(s[i].0 == s[j].0 && s[i].1 == s[j].1)
}

/// Whether the pair `(a, b)` occurs in `s`.
pub open spec fn has_pair(s: Seq<(u8, u8, u8)>, a: u8, b: u8) -> bool {
    exists|i: int| pair_at(s, i, a, b)
}

/// The edge list after adding `(a, b, w)`: the weight of an existing pair is
/// replaced in place, a new pair is appended.
pub open spec fn after_add_edge(s: Seq<(u8, u8, u8)>, a: u8, b: u8, w: u8) -> Seq<(u8, u8, u8)> {
    if has_pair(s, a, b) {
        let i = choose|i: int| pair_at(s, i, a, b);
        s.update(i, (a, b, w))
    } else {
        s.push((a, b, w))
    }
}

/// Whether an edge leaves `a`.
pub open spec fn leaves(a: u8) -> spec_fn((u8, u8, u8)) -> bool {
    |e: (u8, u8, u8)| e.0 == a
}

/// The edges leaving `a`, in order.
pub open spec fn edges_leaving(s: Seq<(u8, u8, u8)>, a: u8) -> Seq<(u8, u8, u8)> {
    s.filter(leaves(a))
}

/// `GraphMap::new`: an empty graph.
#[verifier::external_body]
pub fn new_code_graph() -> (g: CodeGraph)
    ensures
        graph_edges(g) == Seq::<(u8, u8, u8)>::empty(),
        pairs_unique(graph_edges(g)),
{
    GraphMap::new()
}

/// `GraphMap::add_edge`: adds the edge `a -> b` with weight `w`, or replaces
/// the weight of an existing `a -> b` edge, returning the weight it had.
#[verifier::external_body]
pub fn add_code_edge(g: &mut CodeGraph, a: u8, b: u8, w: u8) -> (old_weight: Option<u8>)
    ensures
        graph_edges(*final(g)) == after_add_edge(graph_edges(*old(g)), a, b, w),
        pairs_unique(graph_edges(*final(g))),
        has_pair(graph_edges(*old(g)), a, b) ==> old_weight == Some(
            graph_edges(*old(g))[choose|i: int| pair_at(graph_edges(*old(g)), i, a, b)].2,
        ),
        !has_pair(graph_edges(*old(g)), a, b) ==> old_weight is None,
{
    g.add_edge(a, b, w)
}

/// `GraphMap::edges`: the edges leaving `a`, in order, each as `(a, to, weight)`.
#[verifier::external_body]
pub fn code_edges_from(g: &CodeGraph, a: u8) -> (res: Vec<(u8, u8, u8)>)
    ensures
        res@ == edges_leaving(graph_edges(*g), a),
{
    g.edges(a).map(|e| (e.0, e.1, *e.2)).collect()
}

} // verus!
