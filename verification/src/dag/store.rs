//! The signal graph is a `petgraph` directed graph whose node weights are `Node`s and
//! whose edge weights are `Edge`s. This module declares the graph type to Verus and
//! states, over two named views (the node weights and the edges, both in index order),
//! what each `petgraph` operation the patchbay uses does.
use vstd::prelude::*;
use petgraph::graph::{DiGraph, Graph, NodeIndex, EdgeIndex};
use petgraph::visit::EdgeRef;
use petgraph::{Directed, Direction};
use super::node::{Node, Edge};

verus! {

#[verifier::external_type_specification]
#[verifier::external_body]
#[verifier::reject_recursive_types(N)]
#[verifier::reject_recursive_types(E)]
#[verifier::reject_recursive_types(Ty)]
#[verifier::reject_recursive_types(Ix)]
pub struct ExGraph<N, E, Ty, Ix>(Graph<N, E, Ty, Ix>);

#[verifier::external_type_specification]
#[verifier::external_body]
pub struct ExDirected(Directed);

/// The node weights of a graph, position `i` holding node index `i`.
pub uninterp spec fn graph_nodes(g: DiGraph<Node, Edge>) -> Seq<Node>;

/// The edges of a graph as `(source, target, weight)`, position `e` holding edge index `e`.
pub uninterp spec fn graph_edges(g: DiGraph<Node, Edge>) -> Seq<(usize, usize, Edge)>;

/// The indices of the edges into node `a`, in the order the graph keeps its incoming
/// edge list and walks it.
pub uninterp spec fn graph_in_edges(g: DiGraph<Node, Edge>, a: usize) -> Seq<usize>;

/// Every edge joins two existing nodes.
pub open spec fn edges_within(edges: Seq<(usize, usize, Edge)>, n: int) -> bool {
    forall|e: int| 0 <= e < edges.len() ==> (#[trigger] edges[e]).0 < n && edges[e].1 < n
}

/// `Vec::swap_remove`: the last element takes the place of the removed one.
pub open spec fn swap_removed<T>(s: Seq<T>, i: int) -> Seq<T> {
    if i == s.len() - 1 {
        s.drop_last()
    } else {
        s.update(i, s.last()).drop_last()
    }
}

/// Whether an edge runs from `a` to `b`.
pub open spec fn is_edge(edges: Seq<(usize, usize, Edge)>, a: usize, b: usize) -> bool {
    exists|e: int| 0 <= e < edges.len() && (#[trigger] edges[e]).0 == a && edges[e].1 == b
}

/// A walk of at least one edge that ends where it starts.
pub open spec fn is_cycle_walk(edges: Seq<(usize, usize, Edge)>, p: Seq<usize>) -> bool {
    &&& p.len() >= 2
    &&& p[0] == p.last()
    &&& forall|k: int| 0 <= k < p.len() - 1 ==> is_edge(edges, #[trigger] p[k], p[k + 1])
}

pub open spec fn has_cycle(edges: Seq<(usize, usize, Edge)>) -> bool {
    exists|p: Seq<usize>| is_cycle_walk(edges, p)
}

pub open spec fn on_cycle(edges: Seq<(usize, usize, Edge)>, v: usize) -> bool {
    exists|p: Seq<usize>| is_cycle_walk(edges, p) && p[0] == v
}

/// `order` lists every node index below `n` once, each edge's source before its target.
pub open spec fn is_topological_order(order: Seq<usize>, n: int, edges: Seq<(usize, usize, Edge)>) -> bool {
    &&& order.len() == n
    &&& order.no_duplicates()
    &&& forall|i: int| 0 <= i < n ==> (#[trigger] order[i] as int) < n
    &&& forall|v: usize| (v as int) < n ==> #[trigger] order.contains(v)
    &&& forall|e: int, i: int, j: int|
        0 <= e < edges.len() && 0 <= i < n && 0 <= j < n && #[trigger] order[i] == (
        #[trigger] edges[e]).0 && #[trigger] order[j] == edges[e].1 ==> i < j
}

/// Edge indices of the edges into (`incoming`) or out of `a`, each once.
pub open spec fn lists_edges_at(
    r: Seq<usize>,
    edges: Seq<(usize, usize, Edge)>,
    a: usize,
    incoming: bool,
) -> bool {
    &&& r.no_duplicates()
    &&& forall|k: int| 0 <= k < r.len() ==> (#[trigger] r[k] as int) < edges.len() && (if incoming {
        edges[r[k] as int].1 == a
    } else {
        edges[r[k] as int].0 == a
    })
    &&& forall|e: int|
        0 <= e < edges.len() && (if incoming {
            (#[trigger] edges[e]).1 == a
        } else {
            edges[e].0 == a
        }) ==> r.contains(e as usize)
}

/// `Graph::new`: an empty graph.
#[verifier::external_body]
pub(crate) fn graph_new() -> (g: DiGraph<Node, Edge>)
    ensures
        graph_nodes(g) == Seq::<Node>::empty(),
        graph_edges(g) == Seq::<(usize, usize, Edge)>::empty(),
        forall|v: usize| graph_in_edges(g, v) == Seq::<usize>::empty(),
{
    DiGraph::new()
}

/// `Graph::add_node`: appends the weight; its index is the old node count, and its edge
/// lists start empty. The graph panics when the index would be `u32::MAX`, which
/// `requires` rules out.
#[verifier::external_body]
pub(crate) fn graph_add_node(g: &mut DiGraph<Node, Edge>, weight: Node) -> (r: usize)
    requires
        graph_nodes(*old(g)).len() < u32::MAX,
    ensures
        r == graph_nodes(*old(g)).len(),
        graph_nodes(*final(g)) == graph_nodes(*old(g)).push(weight),
        graph_edges(*final(g)) == graph_edges(*old(g)),
        graph_in_edges(*final(g), r) == Seq::<usize>::empty(),
        forall|v: usize| v != r ==> graph_in_edges(*final(g), v) == graph_in_edges(*old(g), v),
{
    g.add_node(weight).index()
}

/// `Graph::node_weight`: the weight at an index, if a node has it.
#[verifier::external_body]
pub(crate) fn graph_node_weight(g: &DiGraph<Node, Edge>, i: usize) -> (r: Option<&Node>)
    requires
        i <= u32::MAX,
    ensures
        match r {
            Some(n) => (i as int) < graph_nodes(*g).len() && *n == graph_nodes(*g)[i as int],
            None => (i as int) >= graph_nodes(*g).len(),
        },
{
    g.node_weight(NodeIndex::new(i))
}

/// `Graph::node_weight_mut`: the weight at an index, to be changed in place.
#[verifier::external_body]
pub(crate) fn graph_node_weight_mut(g: &mut DiGraph<Node, Edge>, i: usize) -> (r: Option<&mut Node>)
    requires
        i <= u32::MAX,
    ensures
        match r {
            Some(n) => {
                &&& (i as int) < graph_nodes(*old(g)).len()
                &&& *n == graph_nodes(*old(g))[i as int]
                &&& graph_nodes(*final(g)) == graph_nodes(*old(g)).update(i as int, *final(n))
                &&& graph_edges(*final(g)) == graph_edges(*old(g))
                &&& forall|v: usize| graph_in_edges(*final(g), v) == graph_in_edges(*old(g), v)
            },
            None => {
                &&& (i as int) >= graph_nodes(*old(g)).len()
                &&& *final(g) == *old(g)
            },
        },
{
    g.node_weight_mut(NodeIndex::new(i))
}

/// `Graph::node_weights`: every weight, in index order. A `u32`-indexed graph holds at
/// most `u32::MAX` nodes (`add_node` panics when the new index would be `u32::MAX`).
#[verifier::external_body]
pub(crate) fn graph_node_weights(g: &DiGraph<Node, Edge>) -> (r: Vec<&Node>)
    ensures
        r@.len() == graph_nodes(*g).len(),
        r@.len() <= u32::MAX,
        forall|i: int| 0 <= i < r@.len() ==> *(#[trigger] r@[i]) == graph_nodes(*g)[i],
{
    g.node_weights().collect()
}

/// `Graph::add_edge`: appends an edge between two existing nodes (the graph panics on
/// others, and when the index would be `u32::MAX`), and puts it at the head of the
/// target's incoming edge list.
#[verifier::external_body]
pub(crate) fn graph_add_edge(g: &mut DiGraph<Node, Edge>, a: usize, b: usize, weight: Edge) -> (r: usize)
    requires
        (a as int) < graph_nodes(*old(g)).len(),
        (b as int) < graph_nodes(*old(g)).len(),
        graph_edges(*old(g)).len() < u32::MAX,
    ensures
        r == graph_edges(*old(g)).len(),
        graph_edges(*final(g)) == graph_edges(*old(g)).push((a, b, weight)),
        graph_nodes(*final(g)) == graph_nodes(*old(g)),
        graph_in_edges(*final(g), b) == seq![r] + graph_in_edges(*old(g), b),
        forall|v: usize| v != b ==> graph_in_edges(*final(g), v) == graph_in_edges(*old(g), v),
{
    g.add_edge(NodeIndex::new(a), NodeIndex::new(b), weight).index()
}

/// An incoming edge list after `Graph::remove_edge(e)` on a graph of `n` edges: `e`
/// leaves it, and the last edge, which takes index `e`, keeps its place in the list under
/// its new index. An index no edge has changes nothing.
pub open spec fn list_after_edge_removal(l: Seq<usize>, e: int, n: int) -> Seq<usize> {
    if 0 <= e < n {
        l.filter(|x: usize| x as int != e).map_values(
            |x: usize|
                if x as int == n - 1 {
                    e as usize
                } else {
                    x
                },
        )
    } else {
        l
    }
}

/// `Graph::remove_edge`: removes the edge at an index, the last edge taking its index
/// (and its place in the edge lists); nothing happens for an index no edge has.
#[verifier::external_body]
pub(crate) fn graph_remove_edge(g: &mut DiGraph<Node, Edge>, e: usize) -> (r: Option<Edge>)
    requires
        e <= u32::MAX,
    ensures
        graph_nodes(*final(g)) == graph_nodes(*old(g)),
        (e as int) < graph_edges(*old(g)).len() ==> r == Some(graph_edges(*old(g))[e as int].2)
            && graph_edges(*final(g)) == swap_removed(graph_edges(*old(g)), e as int),
        (e as int) >= graph_edges(*old(g)).len() ==> r is None && graph_edges(*final(g))
            == graph_edges(*old(g)),
        forall|v: usize|
            graph_in_edges(*final(g), v) == list_after_edge_removal(
                graph_in_edges(*old(g), v),
                e as int,
                graph_edges(*old(g)).len() as int,
            ),
{
    g.remove_edge(EdgeIndex::new(e))
}

/// The edges that remain when node `a` of a graph whose last node index is `last` is
/// removed: those not at `a`, with the last node's edges renumbered to `a`.
pub open spec fn edges_after_node_removal(edges: Seq<(usize, usize, Edge)>, a: usize, last: usize) -> Seq<(usize, usize, Edge)> {
    edges.filter(|t: (usize, usize, Edge)| t.0 != a && t.1 != a).map_values(
        |t: (usize, usize, Edge)|
            (if t.0 == last {
                a
            } else {
                t.0
            }, if t.1 == last {
                a
            } else {
                t.1
            }, t.2),
    )
}

/// `Graph::remove_node`: removes the node at an index together with every edge at it;
/// the last node takes its index, and the edges at the moved node follow it. The order
/// of the remaining edges follows the edge removals, so it is stated as a multiset.
/// Nothing happens for an index no node has.
#[verifier::external_body]
pub(crate) fn graph_remove_node(g: &mut DiGraph<Node, Edge>, a: usize) -> (r: Option<Node>)
    requires
        a <= u32::MAX,
    ensures
        (a as int) < graph_nodes(*old(g)).len() ==> {
            &&& r == Some(graph_nodes(*old(g))[a as int])
            &&& graph_nodes(*final(g)) == swap_removed(graph_nodes(*old(g)), a as int)
            &&& graph_edges(*final(g)).to_multiset() == edges_after_node_removal(
                graph_edges(*old(g)),
                a,
                (graph_nodes(*old(g)).len() - 1) as usize,
            ).to_multiset()
            &&& edges_within(graph_edges(*final(g)), graph_nodes(*final(g)).len() as int)
            &&& graph_edges(*final(g)).len() <= graph_edges(*old(g)).len()
        },
        (a as int) >= graph_nodes(*old(g)).len() ==> r is None && *final(g) == *old(g),
{
    g.remove_node(NodeIndex::new(a))
}

/// `Graph::clear`: removes every node and edge.
#[verifier::external_body]
pub(crate) fn graph_clear(g: &mut DiGraph<Node, Edge>)
    ensures
        graph_nodes(*final(g)) == Seq::<Node>::empty(),
        graph_edges(*final(g)) == Seq::<(usize, usize, Edge)>::empty(),
        forall|v: usize| graph_in_edges(*final(g), v) == Seq::<usize>::empty(),
{
    g.clear()
}

/// `Graph::edges_directed`: the indices of the edges into or out of a node, in the order
/// of the graph's edge list for that direction (for incoming edges, `graph_in_edges`).
#[verifier::external_body]
pub(crate) fn graph_edges_directed(g: &DiGraph<Node, Edge>, a: usize, incoming: bool) -> (r: Vec<usize>)
    requires
        a <= u32::MAX,
    ensures
        lists_edges_at(r@, graph_edges(*g), a, incoming),
        incoming ==> r@ == graph_in_edges(*g, a),
{
    let dir = if incoming { Direction::Incoming } else { Direction::Outgoing };
    g.edges_directed(NodeIndex::new(a), dir).map(|e| e.id().index()).collect()
}

/// `r` lists the indices of the edges from `a` to `b`, each once.
pub open spec fn lists_edges_between(r: Seq<usize>, edges: Seq<(usize, usize, Edge)>, a: usize, b: usize) -> bool {
    &&& r.no_duplicates()
    &&& forall|k: int|
        0 <= k < r.len() ==> (#[trigger] r[k] as int) < edges.len() && edges[r[k] as int].0 == a
            && edges[r[k] as int].1 == b
    &&& forall|e: int|
        0 <= e < edges.len() && (#[trigger] edges[e]).0 == a && edges[e].1 == b ==> r.contains(
            e as usize,
        )
}

/// The edges after removing the one at index `e` the way `Graph::remove_edge` does; an
/// index no edge has changes nothing.
pub open spec fn remove_edge_at(s: Seq<(usize, usize, Edge)>, e: int) -> Seq<(usize, usize, Edge)> {
    if 0 <= e < s.len() {
        swap_removed(s, e)
    } else {
        s
    }
}

/// The edges after removing, one after the other, the edges at the listed indices, each
/// index read against the edges as they stand when its turn comes.
pub open spec fn removed_in_turn(s: Seq<(usize, usize, Edge)>, idx: Seq<usize>) -> Seq<(usize, usize, Edge)>
    decreases idx.len(),
{
    if idx.len() == 0 {
        s
    } else {
        remove_edge_at(removed_in_turn(s, idx.drop_last()), idx.last() as int)
    }
}

/// An incoming edge list after the edges at the listed indices are removed one after
/// the other, as `removed_in_turn` removes them.
pub open spec fn list_after_removals(
    l: Seq<usize>,
    edges: Seq<(usize, usize, Edge)>,
    idx: Seq<usize>,
) -> Seq<usize>
    decreases idx.len(),
{
    if idx.len() == 0 {
        l
    } else {
        list_after_edge_removal(
            list_after_removals(l, edges, idx.drop_last()),
            idx.last() as int,
            removed_in_turn(edges, idx.drop_last()).len() as int,
        )
    }
}

/// `Graph::edges_connecting`: the indices of the edges from `a` to `b`, each once, in an
/// order this contract leaves open.
#[verifier::external_body]
pub(crate) fn graph_edges_connecting(g: &DiGraph<Node, Edge>, a: usize, b: usize) -> (r: Vec<usize>)
    requires
        a <= u32::MAX,
        b <= u32::MAX,
    ensures
        lists_edges_between(r@, graph_edges(*g), a, b),
{
    g.edges_connecting(NodeIndex::new(a), NodeIndex::new(b)).map(|e| e.id().index()).collect()
}

/// `Graph::neighbors_directed` with `Outgoing`: the targets of the edges out of `a`, one
/// entry per edge, in an order this contract leaves open.
#[verifier::external_body]
pub(crate) fn graph_successors(g: &DiGraph<Node, Edge>, a: usize) -> (r: Vec<usize>)
    requires
        a <= u32::MAX,
    ensures
        forall|k: int|
            0 <= k < r@.len() ==> (#[trigger] r@[k] as int) < graph_nodes(*g).len() && is_edge(
                graph_edges(*g),
                a,
                r@[k],
            ),
        forall|e: int|
            0 <= e < graph_edges(*g).len() && (#[trigger] graph_edges(*g)[e]).0 == a ==> r@.contains(
                graph_edges(*g)[e].1,
            ),
{
    g.neighbors_directed(NodeIndex::new(a), Direction::Outgoing).map(|n| n.index()).collect()
}

/// `Graph::edge_count`: the number of edges.
#[verifier::external_body]
pub(crate) fn graph_edge_count(g: &DiGraph<Node, Edge>) -> (r: usize)
    ensures
        r == graph_edges(*g).len(),
{
    g.edge_count()
}

/// `Graph::edge_endpoints`: the source and target of an edge, if the index has one.
#[verifier::external_body]
pub(crate) fn graph_edge_endpoints(g: &DiGraph<Node, Edge>, e: usize) -> (r: Option<(usize, usize)>)
    requires
        e <= u32::MAX,
    ensures
        (e as int) < graph_edges(*g).len() ==> r == Some(
            (graph_edges(*g)[e as int].0, graph_edges(*g)[e as int].1),
        ),
        (e as int) >= graph_edges(*g).len() ==> r is None,
{
    g.edge_endpoints(EdgeIndex::new(e)).map(|(a, b)| (a.index(), b.index()))
}

/// `Graph::edge_weight`: the weight of an edge, if the index has one.
#[verifier::external_body]
pub(crate) fn graph_edge_weight(g: &DiGraph<Node, Edge>, e: usize) -> (r: Option<Edge>)
    requires
        e <= u32::MAX,
    ensures
        (e as int) < graph_edges(*g).len() ==> r == Some(graph_edges(*g)[e as int].2),
        (e as int) >= graph_edges(*g).len() ==> r is None,
{
    g.edge_weight(EdgeIndex::new(e)).copied()
}

/// `petgraph::algo::toposort`: a topological order of all nodes when the graph has no
/// cycle; otherwise a node that lies on a cycle.
#[verifier::external_body]
pub(crate) fn graph_toposort(g: &DiGraph<Node, Edge>) -> (r: Result<Vec<usize>, usize>)
    ensures
        r is Ok <==> !has_cycle(graph_edges(*g)),
        r matches Ok(v) ==> is_topological_order(v@, graph_nodes(*g).len() as int, graph_edges(*g)),
        r matches Err(c) ==> on_cycle(graph_edges(*g), c) && (c as int) < graph_nodes(*g).len(),
{
    match petgraph::algo::toposort(g, None) {
        Ok(order) => Ok(order.into_iter().map(|n| n.index()).collect()),
        Err(cycle) => Err(cycle.node_id().index()),
    }
}


/// Where a node stands in an order.
pub open spec fn position_in(order: Seq<usize>, v: usize) -> int {
    choose|i: int| 0 <= i < order.len() && order[i] == v
}

proof fn lemma_walk_climbs(order: Seq<usize>, n: int, edges: Seq<(usize, usize, Edge)>, p: Seq<usize>, k: int)
    requires
        is_topological_order(order, n, edges),
        edges_within(edges, n),
        p.len() >= 2,
        forall|j: int| 0 <= j < p.len() - 1 ==> is_edge(edges, #[trigger] p[j], p[j + 1]),
        1 <= k < p.len(),
    ensures
        position_in(order, p[0]) < position_in(order, p[k]),
        0 <= position_in(order, p[k]) < n,
        order[position_in(order, p[k])] == p[k],
    decreases k,
{
    assert(is_edge(edges, p[k - 1], p[k]));
    let e = choose|e: int| 0 <= e < edges.len() && (#[trigger] edges[e]).0 == p[k - 1] && edges[e].1 == p[k];
    assert(edges[e].0 < n && edges[e].1 < n);
    assert(order.contains(p[k - 1]));
    assert(order.contains(p[k]));
    let i = position_in(order, p[k - 1]);
    let j = position_in(order, p[k]);
    assert(order[i] == edges[e].0 && order[j] == edges[e].1);
    assert(i < j);
    if k > 1 {
        lemma_walk_climbs(order, n, edges, p, k - 1);
    }
}

/// A graph with a topological order has no cycle.
pub proof fn lemma_topological_order_acyclic(order: Seq<usize>, n: int, edges: Seq<(usize, usize, Edge)>)
    requires
        is_topological_order(order, n, edges),
        edges_within(edges, n),
    ensures
        !has_cycle(edges),
{
    if has_cycle(edges) {
        let p = choose|p: Seq<usize>| is_cycle_walk(edges, p);
        lemma_walk_climbs(order, n, edges, p, p.len() - 1);
    }
}

} // verus!
