use vstd::prelude::*;
use vstd::string::*;
use std::collections::HashMap;
use vstd::std_specs::hash::spec_hash_map_iter;
use vstd::std_specs::iter::IteratorSpec;
use petgraph::graph::{DiGraph, NodeIndex};
use super::node::{Node, Edge};
use crate::timecode::types::decimal;
use super::store::{graph_nodes, graph_edges, has_cycle, on_cycle, is_edge, is_cycle_walk, is_topological_order, graph_toposort, graph_successors, graph_node_weights};

verus! {

broadcast use vstd::std_specs::hash::group_hash_axioms;

/// The abstract state of a sorter: the cached execution order, the node-id to
/// node-index map, and whether the cache must be recomputed.
pub struct SorterView {
    pub order: Seq<usize>,
    pub id_map: Map<u128, u32>,
    pub dirty: bool,
}

/// Keeps the node-id to graph-index map of the signal graph and caches its execution
/// order until the graph changes.
#[derive(Debug)]
pub struct TopologicalSorter {
    execution_order: Vec<usize>,
    node_id_map: HashMap<u128, u32>,
    dirty: bool,
}

impl View for TopologicalSorter {
    type V = SorterView;

    closed spec fn view(&self) -> SorterView {
        SorterView { order: self.execution_order@, id_map: self.node_id_map@, dirty: self.dirty }
    }
}

/// How a node index prints with `{:?}`: `NodeIndex(` and the index in decimal, `)`.
pub open spec fn node_index_text(i: usize) -> Seq<char> {
    "NodeIndex("@ + decimal(i as nat) + ")"@
}

/// The printed indices of a list of nodes, separated by `, `.
pub open spec fn node_list_text(p: Seq<usize>) -> Seq<char>
    decreases p.len(),
{
    if p.len() == 0 {
        Seq::empty()
    } else if p.len() == 1 {
        node_index_text(p[0])
    } else {
        node_list_text(p.drop_last()) + ", "@ + node_index_text(p.last())
    }
}

/// The text of the error `sort` reports for a cycle: the node `toposort` named and the
/// path the depth-first search found.
pub open spec fn cycle_report(node: usize, path: Seq<usize>) -> Seq<char> {
    "Cycle detected in graph at node "@ + node_index_text(node) + ". Cycle path: ["@
        + node_list_text(path) + "]"@
}

/// The text reports a cycle of the edges: it names a node on a cycle and a cycle walk.
pub open spec fn is_cycle_error(edges: Seq<(usize, usize, Edge)>, msg: Seq<char>) -> bool {
    exists|c: usize, path: Seq<usize>|
        on_cycle(edges, c) && is_cycle_walk(edges, path) && msg == cycle_report(c, path)
}

pub open spec fn cycle_detected_prefix() -> Seq<char> {
    seq!['C', 'y', 'c', 'l', 'e', ' ', 'd', 'e', 't', 'e', 'c', 't', 'e', 'd']
}

/// Each node of `p` has an edge to the next.
pub open spec fn is_walk(edges: Seq<(usize, usize, Edge)>, p: Seq<usize>) -> bool {
    forall|k: int| 0 <= k < p.len() - 1 ==> is_edge(edges, #[trigger] p[k], p[k + 1])
}

/// In a depth-first search's marks (`true` while a node is on the stack, `false` once it
/// is finished), every successor of a finished node is finished.
pub open spec fn finished_closed(edges: Seq<(usize, usize, Edge)>, vis: Map<usize, bool>) -> bool {
    forall|f: usize, s: usize|
        #![trigger vis[f], is_edge(edges, f, s)]
        vis.contains_key(f) && !vis[f] && is_edge(edges, f, s) ==> vis.contains_key(s) && !vis[s]
}

/// Along a walk that starts at a finished node, every node is finished.
proof fn lemma_walk_stays_finished(edges: Seq<(usize, usize, Edge)>, vis: Map<usize, bool>, p: Seq<usize>, k: int)
    requires
        finished_closed(edges, vis),
        p.len() > 0,
        vis.contains_key(p[0]) && !vis[p[0]],
        is_walk(edges, p),
        0 <= k < p.len(),
    ensures
        vis.contains_key(p[k]) && !vis[p[k]],
    decreases k,
{
    if k > 0 {
        lemma_walk_stays_finished(edges, vis, p, k - 1);
        assert(is_edge(edges, p[k - 1], p[k]));
        assert(vis[p[k - 1]] == false);
    }
}

proof fn lemma_cycle_report_prefix(node: usize, path: Seq<usize>)
    ensures
        cycle_report(node, path).len() >= 14,
        cycle_report(node, path).subrange(0, 14) == cycle_detected_prefix(),
{
    reveal_strlit("Cycle detected in graph at node ");
    let head = "Cycle detected in graph at node "@;
    let r = cycle_report(node, path);
    assert(head.len() == 32);
    assert forall|k: int| 0 <= k < 14 implies r[k] == head[k] by {}
    assert(r.subrange(0, 14) =~= cycle_detected_prefix());
}

/// How a node index prints (`{:?}` on `petgraph`'s `NodeIndex<u32>`); the index fits the
/// index type.
#[verifier::external_body]
fn node_index_display(i: usize) -> (r: String)
    requires
        i <= u32::MAX,
    ensures
        r@ == node_index_text(i),
{
    format!("{:?}", NodeIndex::<u32>::new(i))
}

/// Lays out the cycle error: the node, then the path as a bracketed list, as `{:?}`
/// prints a `Vec` of node indices.
fn format_cycle_report(node: usize, path: &Vec<usize>) -> (r: String)
    requires
        node <= u32::MAX,
        forall|k: int| 0 <= k < path@.len() ==> path@[k] <= u32::MAX,
    ensures
        r@ == cycle_report(node, path@),
{
    let mut list = String::new();
    let mut k: usize = 0;
    while k < path.len()
        invariant
            k <= path@.len(),
            forall|j: int| 0 <= j < path@.len() ==> path@[j] <= u32::MAX,
            list@ == node_list_text(path@.subrange(0, k as int)),
        decreases path@.len() - k,
    {
        if k > 0 {
            list.append(", ");
        }
        let item = node_index_display(path[k]);
        list.append(item.as_str());
        proof {
            let sub = path@.subrange(0, k + 1);
            assert(sub.drop_last() =~= path@.subrange(0, k as int));
            assert(sub.last() == path@[k as int]);
            if k == 0 {
                assert(list@ =~= node_index_text(path@[0]));
            }
        }
        k += 1;
    }
    assert(path@.subrange(0, path@.len() as int) =~= path@);
    let mut r = "Cycle detected in graph at node ".to_owned();
    let head = node_index_display(node);
    r.append(head.as_str());
    r.append(". Cycle path: [");
    r.append(list.as_str());
    r.append("]");
    assert(r@ =~= cycle_report(node, path@));
    r
}

proof fn lemma_bounded_set_len(s: Set<usize>, n: usize)
    requires
        s.finite(),
        forall|i: usize| s.contains(i) ==> i < n,
    ensures
        s.len() <= n,
    decreases n,
{
    if n == 0 {
        assert(s =~= Set::empty());
    } else {
        let t = s.remove((n - 1) as usize);
        lemma_bounded_set_len(t, (n - 1) as usize);
    }
}

impl TopologicalSorter {
    pub fn new() -> (s: Self)
        ensures
            s@.order == Seq::<usize>::empty(),
            s@.id_map == Map::<u128, u32>::empty(),
            s@.dirty,
    {
        Self { execution_order: Vec::new(), node_id_map: HashMap::new(), dirty: true }
    }

    pub fn mark_dirty(&mut self)
        ensures
            final(self)@.dirty,
            final(self)@.order == old(self)@.order,
            final(self)@.id_map == old(self)@.id_map,
    {
        self.dirty = true;
    }

    pub fn is_dirty(&self) -> (r: bool)
        ensures
            r == self@.dirty,
    {
        self.dirty
    }

    /// Records the graph index of a node.
    pub fn add_node(&mut self, node_id: u128, index: u32)
        ensures
            final(self)@.id_map == old(self)@.id_map.insert(node_id, index),
            final(self)@.order == old(self)@.order,
            final(self)@.dirty,
    {
        self.node_id_map.insert(node_id, index);
        self.dirty = true;
    }

    pub fn remove_node(&mut self, node_id: u128)
        ensures
            final(self)@.id_map == old(self)@.id_map.remove(node_id),
            final(self)@.order == old(self)@.order,
            final(self)@.dirty,
    {
        self.node_id_map.remove(&node_id);
        self.dirty = true;
    }

    pub fn get_node_index(&self, node_id: u128) -> (r: Option<u32>)
        ensures
            r == (if self@.id_map.contains_key(node_id) {
                Some(self@.id_map[node_id])
            } else {
                None
            }),
    {
        match self.node_id_map.get(&node_id) {
            Some(i) => Some(*i),
            None => None,
        }
    }

    /// Some node id mapped to the index, if any is; which one, when several are, follows
    /// the map's iteration order.
    pub fn get_node_id(&self, index: u32) -> (r: Option<u128>)
        ensures
            r matches Some(id) ==> self@.id_map.contains_key(id) && self@.id_map[id] == index,
            r is None ==> forall|id: u128|
                #[trigger] self@.id_map.contains_key(id) ==> self@.id_map[id] != index,
    {
        let ghost all = spec_hash_map_iter(&self.node_id_map).remaining();
        for pair in it: self.node_id_map.iter()
            invariant
                it.seq() == all,
                forall|i: int| 0 <= i < it.index() ==> *(#[trigger] all[i]).1 != index,
        {
            let (id, idx) = pair;
            if *idx == index {
                assert(all[it.index() as int] == (id, idx));
                return Some(*id);
            }
        }
        assert forall|id: u128| #[trigger]
            self@.id_map.contains_key(id) implies self@.id_map[id] != index by {
            assert(all.contains((&id, &self@.id_map[id])));
        }
        None
    }

    /// The execution order of the graph: the cached one while the sorter is clean and
    /// has one, otherwise a freshly computed topological order (cached, and the sorter
    /// made clean), or an error naming a node on a cycle and a cycle found by a
    /// depth-first search from it.
    pub fn sort(&mut self, graph: &DiGraph<Node, Edge>) -> (r: Result<Vec<usize>, String>)
        ensures
            final(self)@.id_map == old(self)@.id_map,
            !old(self)@.dirty && old(self)@.order.len() > 0 ==> (final(self)@ == old(self)@
                && (r matches Ok(v) && v@ == old(self)@.order)),
            old(self)@.dirty || old(self)@.order.len() == 0 ==> {
                &&& r is Ok <==> !has_cycle(graph_edges(*graph))
                &&& r matches Ok(v) ==> {
                    &&& is_topological_order(v@, graph_nodes(*graph).len() as int, graph_edges(*graph))
                    &&& final(self)@.order == v@
                    &&& !final(self)@.dirty
                }
                &&& r matches Err(msg) ==> {
                    &&& final(self)@ == old(self)@
                    &&& msg@.len() >= 14
                    &&& msg@.subrange(0, 14) == cycle_detected_prefix()
                    &&& is_cycle_error(graph_edges(*graph), msg@)
                }
            },
    {
        if !self.dirty && self.execution_order.len() != 0 {
            return Ok(self.execution_order.clone());
        }
        match graph_toposort(graph) {
            Ok(order) => {
                self.execution_order = order.clone();
                self.dirty = false;
                Ok(order)
            },
            Err(cycle_node) => {
                let cycle_path = self.find_cycle_path(graph, cycle_node);
                proof {
                    lemma_cycle_report_prefix(cycle_node, cycle_path@);
                }
                Err(format_cycle_report(cycle_node, &cycle_path))
            },
        }
    }

    fn find_cycle_path(&self, graph: &DiGraph<Node, Edge>, start: usize) -> (path: Vec<usize>)
        ensures
            forall|k: int| 0 <= k < path@.len() ==> (#[trigger] path@[k] as int) < graph_nodes(
                *graph,
            ).len() || path@[k] == start,
            path@.len() == 0 || is_cycle_walk(graph_edges(*graph), path@),
            on_cycle(graph_edges(*graph), start) && (start as int) < graph_nodes(*graph).len() ==> path@.len() > 0,
            graph_nodes(*graph).len() <= u32::MAX,
    {
        let mut visited: HashMap<usize, bool> = HashMap::new();
        let mut stack: Vec<usize> = Vec::new();
        if start < graph_node_count(graph) {
            self.dfs_cycle(graph, start, &mut visited, &mut stack);
        }
        stack
    }

    fn dfs_cycle(
        &self,
        graph: &DiGraph<Node, Edge>,
        current: usize,
        visited: &mut HashMap<usize, bool>,
        stack: &mut Vec<usize>,
    ) -> (found: bool)
        requires
            (current as int) < graph_nodes(*graph).len(),
            graph_nodes(*graph).len() <= u32::MAX,
            !old(visited)@.contains_key(current),
            forall|k: usize| #[trigger] old(visited)@.contains_key(k) ==> (k as int) < graph_nodes(*graph).len(),
            forall|k: int| 0 <= k < old(stack)@.len() ==> (#[trigger] old(stack)@[k] as int) < graph_nodes(*graph).len(),
            is_walk(graph_edges(*graph), old(stack)@),
            old(stack)@.len() > 0 ==> is_edge(graph_edges(*graph), old(stack)@.last(), current),
            forall|k: usize| #[trigger] old(visited)@.contains_key(k) && old(visited)@[k] ==> old(stack)@.contains(k),
            finished_closed(graph_edges(*graph), old(visited)@),
        ensures
            found ==> is_cycle_walk(graph_edges(*graph), final(stack)@),
            !found ==> !on_cycle(graph_edges(*graph), current),
            !found ==> finished_closed(graph_edges(*graph), final(visited)@),
            !found ==> !final(visited)@[current],
            !found ==> forall|k: usize| #[trigger] old(visited)@.contains_key(k) ==> final(visited)@[k] == old(visited)@[k],
            !found ==> final(stack)@ == old(stack)@,
            !found ==> forall|k: usize| #[trigger] final(visited)@.contains_key(k) && final(visited)@[k] ==> old(stack)@.contains(k),
            final(visited)@.contains_key(current),
            forall|k: usize| #[trigger] old(visited)@.contains_key(k) ==> final(visited)@.contains_key(k),
            forall|k: usize| #[trigger] final(visited)@.contains_key(k) ==> (k as int) < graph_nodes(*graph).len(),
            forall|k: int| 0 <= k < final(stack)@.len() ==> (#[trigger] final(stack)@[k] as int) < graph_nodes(*graph).len(),
        decreases graph_nodes(*graph).len() - old(visited)@.dom().len(),
    {
        let ghost n = graph_nodes(*graph).len();
        proof {
            lemma_bounded_set_len(old(visited)@.dom().insert(current), n as usize);
        }
        let ghost edges = graph_edges(*graph);
        visited.insert(current, true);
        stack.push(current);
        proof {
            assert forall|k: int| 0 <= k < stack@.len() - 1 implies is_edge(edges, #[trigger] stack@[k], stack@[k + 1]) by {
                if k < old(stack)@.len() - 1 {
                    assert(old(stack)@[k] == stack@[k] && old(stack)@[k + 1] == stack@[k + 1]);
                }
            }
            assert forall|k: usize| #[trigger] visited@.contains_key(k) && visited@[k] implies stack@.contains(k) by {
                if k == current {
                    assert(stack@[stack@.len() - 1] == current);
                } else {
                    let j = choose|j: int| 0 <= j < old(stack)@.len() && old(stack)@[j] == k;
                    assert(stack@[j] == k);
                }
            }
            assert forall|f: usize, t: usize|
                #![trigger visited@[f], is_edge(edges, f, t)]
                visited@.contains_key(f) && !visited@[f] && is_edge(edges, f, t) implies visited@.contains_key(t) && !visited@[t] by {
                assert(f != current);
                assert(old(visited)@[f] == visited@[f]);
                assert(old(visited)@.contains_key(t) && !old(visited)@[t]);
            }
        }
        let neighbors = graph_successors(graph, current);
        let mut i: usize = 0;
        while i < neighbors.len()
            invariant
                n == graph_nodes(*graph).len(),
                n <= u32::MAX,
                i <= neighbors@.len(),
                forall|k: int| 0 <= k < neighbors@.len() ==> (#[trigger] neighbors@[k] as int) < n,
                visited@.contains_key(current),
                forall|k: usize| #[trigger] old(visited)@.contains_key(k) ==> visited@.contains_key(k),
                forall|k: usize| #[trigger] visited@.contains_key(k) ==> (k as int) < n,
                forall|k: int| 0 <= k < stack@.len() ==> (#[trigger] stack@[k] as int) < n,
                visited@.dom().len() >= old(visited)@.dom().len() + 1,
                edges == graph_edges(*graph),
                stack@ == old(stack)@.push(current),
                is_walk(edges, stack@),
                forall|k: int| 0 <= k < neighbors@.len() ==> is_edge(edges, current, #[trigger] neighbors@[k]),
                forall|k: usize| #[trigger] visited@.contains_key(k) && visited@[k] ==> stack@.contains(k),
                finished_closed(edges, visited@),
                visited@[current],
                forall|k: usize| #[trigger] old(visited)@.contains_key(k) ==> visited@[k] == old(visited)@[k],
                forall|j: int| 0 <= j < i ==> visited@.contains_key(#[trigger] neighbors@[j]) && !visited@[neighbors@[j]],
            decreases neighbors@.len() - i,
        {
            let neighbor = neighbors[i];
            if !visited.contains_key(&neighbor) {
                proof {
                    lemma_bounded_set_len(visited@.dom().insert(neighbor), n as usize);
                }
                let ghost before = visited@.dom();
                if self.dfs_cycle(graph, neighbor, visited, stack) {
                    return true;
                }
                proof {
                    vstd::set_lib::lemma_len_subset(before, visited@.dom());
                }
            } else {
                let on_stack = match visited.get(&neighbor) {
                    Some(b) => *b,
                    None => false,
                };
                if on_stack {
                    let ghost full = stack@;
                    let cycle_start = position_of(stack, neighbor);
                    drain_front(stack, cycle_start);
                    stack.push(neighbor);
                    proof {
                        assert(full.contains(neighbor));
                        let cs = cycle_start as int;
                        let p = stack@;
                        assert(p.len() == full.len() - cs + 1);
                        assert(p[0] == full[cs]);
                        assert forall|k: int| 0 <= k < p.len() - 1 implies is_edge(edges, #[trigger] p[k], p[k + 1]) by {
                            if k < p.len() - 2 {
                                assert(p[k] == full[cs + k] && p[k + 1] == full[cs + k + 1]);
                            } else {
                                assert(p[k] == full[full.len() - 1]);
                                assert(is_edge(edges, current, neighbors@[i as int]));
                            }
                        }
                    }
                    return true;
                }
            }
            i += 1;
        }
        proof {
            assert forall|p: Seq<usize>| is_cycle_walk(edges, p) && p[0] == current implies false by {
                assert(is_edge(edges, p[0], p[1]));
                let e = choose|e: int| 0 <= e < edges.len() && (#[trigger] edges[e]).0 == p[0] && edges[e].1 == p[1];
                assert(neighbors@.contains(edges[e].1));
                let j = choose|j: int| 0 <= j < neighbors@.len() && neighbors@[j] == p[1];
                assert(visited@.contains_key(neighbors@[j]) && !visited@[neighbors@[j]]);
                let q = p.subrange(1, p.len() as int);
                assert forall|k: int| 0 <= k < q.len() - 1 implies is_edge(edges, #[trigger] q[k], q[k + 1]) by {
                    assert(q[k] == p[k + 1] && q[k + 1] == p[k + 2]);
                }
                lemma_walk_stays_finished(edges, visited@, q, q.len() - 1);
                assert(q[q.len() - 1] == current);
            }
        }
        let ghost before_finish = visited@;
        visited.insert(current, false);
        stack.pop();
        proof {
            assert forall|f: usize, t: usize|
                #![trigger visited@[f], is_edge(edges, f, t)]
                visited@.contains_key(f) && !visited@[f] && is_edge(edges, f, t) implies visited@.contains_key(t) && !visited@[t] by {
                if f == current {
                    let e = choose|e: int| 0 <= e < edges.len() && (#[trigger] edges[e]).0 == f && edges[e].1 == t;
                    assert(neighbors@.contains(edges[e].1));
                    let j = choose|j: int| 0 <= j < neighbors@.len() && neighbors@[j] == t;
                    assert(before_finish.contains_key(neighbors@[j]) && !before_finish[neighbors@[j]]);
                } else {
                    assert(before_finish[f] == visited@[f]);
                    assert(before_finish.contains_key(t) && !before_finish[t]);
                }
            }
            assert(stack@ =~= old(stack)@);
            assert forall|k: usize| #[trigger] visited@.contains_key(k) && visited@[k] implies old(stack)@.contains(k) by {
                let j = choose|j: int| 0 <= j < old(stack)@.len() + 1 && old(stack)@.push(current)[j] == k;
                if j < old(stack)@.len() {
                    assert(old(stack)@[j] == k);
                }
            }
        }
        false
    }

    pub fn get_execution_order(&self) -> (r: &[usize])
        ensures
            r@ == self@.order,
    {
        self.execution_order.as_slice()
    }

    pub fn clear(&mut self)
        ensures
            final(self)@.order == Seq::<usize>::empty(),
            final(self)@.id_map == Map::<u128, u32>::empty(),
            final(self)@.dirty,
    {
        self.execution_order.clear();
        self.node_id_map.clear();
        self.dirty = true;
    }
}

impl Default for TopologicalSorter {
    fn default() -> (s: Self)
        ensures
            s@.order == Seq::<usize>::empty(),
            s@.id_map == Map::<u128, u32>::empty(),
            s@.dirty,
    {
        Self::new()
    }
}

/// The number of nodes, read through the weights the graph reports.
fn graph_node_count(graph: &DiGraph<Node, Edge>) -> (r: usize)
    ensures
        r as int == graph_nodes(*graph).len(),
        r <= u32::MAX,
{
    graph_node_weights(graph).len()
}

/// The index of the first occurrence of `x`, or 0 when there is none.
fn position_of(stack: &Vec<usize>, x: usize) -> (r: usize)
    ensures
        stack@.contains(x) ==> (r as int) < stack@.len() && stack@[r as int] == x,
        !stack@.contains(x) ==> r == 0,
{
    let mut i: usize = 0;
    while i < stack.len()
        invariant
            i <= stack@.len(),
            forall|j: int| 0 <= j < i ==> stack@[j] != x,
        decreases stack@.len() - i,
    {
        if stack[i] == x {
            return i;
        }
        i += 1;
    }
    0
}

/// Removes the first `k` elements.
fn drain_front(stack: &mut Vec<usize>, k: usize)
    requires
        k <= old(stack)@.len(),
    ensures
        final(stack)@ == old(stack)@.subrange(k as int, old(stack)@.len() as int),
{
    let mut rest: Vec<usize> = Vec::new();
    let mut i: usize = k;
    while i < stack.len()
        invariant
            k <= i <= stack@.len(),
            rest@ == stack@.subrange(k as int, i as int),
        decreases stack@.len() - i,
    {
        rest.push(stack[i]);
        i += 1;
    }
    *stack = rest;
}

} // verus!
