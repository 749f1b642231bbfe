use vstd::prelude::*;
use petgraph::graph::DiGraph;
use crate::shared::ids::{new_uuid, format_id_message, uuid_text};
use crate::timecode::types::{decimal, usize_text};
use vstd::string::*;
use super::node::{Node, NodeType, Port, PortType, Position, Connection, Edge};
use super::store::{lemma_topological_order_acyclic, 
    graph_nodes, graph_edges, edges_within, swap_removed, is_topological_order, has_cycle, is_edge,
    lists_edges_at, graph_new, graph_add_node, graph_node_weight, graph_node_weight_mut,
    graph_node_weights, graph_add_edge, graph_remove_edge, graph_remove_node, graph_clear,
    graph_edges_directed, graph_in_edges, list_after_removals, graph_edges_connecting, lists_edges_between, removed_in_turn, edges_after_node_removal, graph_edge_endpoints, graph_edge_weight, graph_edge_count,
};
use super::topo_sort::{TopologicalSorter, SorterView, is_cycle_error};

verus! {

/// The `u64` a JSON document holds under a key: what `Value::get` and then
/// `Value::as_u64` give, a function of the document and the key alone.
pub uninterp spec fn config_u64_entry(config: serde_json::Value, key: Seq<char>) -> Option<u64>;

/// Reads the `u64` under a key of a JSON configuration (`serde_json::Value::get`, then
/// `as_u64`). The contract names the result.
#[verifier::external_body]
fn config_u64(config: &serde_json::Value, key: &str) -> (r: Option<u64>)
    ensures
        r == config_u64_entry(*config, key@),
{
    config.get(key).and_then(|v| v.as_u64())
}

/// `Input N`, the name of a mixer's N-th input port, counting from one.
fn input_port_name(i: usize) -> (r: String)
    requires
        i < usize::MAX,
    ensures
        r@ == seq!['I', 'n', 'p', 'u', 't', ' '] + decimal((i + 1) as nat),
{
    let mut r = "Input ".to_owned();
    let digits = usize_text(i + 1);
    r.append(digits.as_str());
    proof {
        reveal_strlit("Input ");
        assert(r@ =~= seq!['I', 'n', 'p', 'u', 't', ' '] + decimal((i + 1) as nat));
    }
    r
}

/// The abstract state of the patchbay: the graph's node weights and edges, the sorter,
/// the connection list, the block format, and the designated input and output nodes.
pub struct PatchView {
    pub nodes: Seq<Node>,
    pub edges: Seq<(usize, usize, Edge)>,
    pub sorter: SorterView,
    pub connections: Seq<Connection>,
    pub channels: usize,
    pub block_size: usize,
    pub input_node_id: Option<u128>,
    pub output_node_id: Option<u128>,
}

impl PatchView {
    /// Edges join existing nodes, and a clean, non-empty cached order is a topological
    /// order of the current graph.
    pub open spec fn well_formed(self) -> bool {
        &&& edges_within(self.edges, self.nodes.len() as int)
        &&& self.nodes.len() <= u32::MAX
        &&& self.edges.len() <= u32::MAX
        &&& !self.sorter.dirty && self.sorter.order.len() > 0 ==> is_topological_order(
            self.sorter.order,
            self.nodes.len() as int,
            self.edges,
        )
    }

    /// The node a node id maps to, when the map holds the id and the index names a node.
    pub open spec fn node_of(self, id: u128) -> Option<Node> {
        if self.sorter.id_map.contains_key(id) && (self.sorter.id_map[id] as int) < self.nodes.len() {
            Some(self.nodes[self.sorter.id_map[id] as int])
        } else {
            None
        }
    }
}

/// The single port `add_node` gives a node on a side, when it gives one.
pub open spec fn is_single_port(ports: Seq<Port>, node_id: u128, port_type: PortType, name: Seq<char>) -> bool {
    &&& ports.len() == 1
    &&& ports[0].node_id == node_id
    &&& ports[0].port_type == port_type
    &&& ports[0].channel == 0
    &&& ports[0].name@ == name
}

/// The numbered input ports of a mixer.
pub open spec fn is_mixer_inputs(ports: Seq<Port>, node_id: u128, count: int) -> bool {
    &&& ports.len() == count
    &&& forall|i: int|
        0 <= i < count ==> (#[trigger] ports[i]).node_id == node_id && ports[i].port_type
            == PortType::Input && ports[i].channel == i && ports[i].name@ == seq![
            'I',
            'n',
            'p',
            'u',
            't',
            ' ',
        ] + decimal((i + 1) as nat)
}

pub open spec fn input_text() -> Seq<char> {
    seq!['I', 'n', 'p', 'u', 't']
}

pub open spec fn output_text() -> Seq<char> {
    seq!['O', 'u', 't', 'p', 'u', 't']
}

/// The node `add_node` creates: input nodes have no inputs, mixers as many numbered inputs
/// as the configuration asks (two by default), other nodes one; output nodes have no
/// outputs, others one.
pub open spec fn is_new_node(
    n: Node,
    id: u128,
    node_type: NodeType,
    name: String,
    position: Position,
    config: serde_json::Value,
    num_inputs: Option<u64>,
) -> bool {
    &&& n.id == id
    &&& n.node_type == node_type
    &&& n.name == name
    &&& n.position == position
    &&& n.config == config
    &&& n.enabled
    &&& !n.bypassed
    &&& match node_type {
        NodeType::Input => n.input_ports@.len() == 0,
        NodeType::Mix => is_mixer_inputs(
            n.input_ports@,
            id,
            (match num_inputs {
                Some(k) => k,
                None => 2u64,
            }) as usize as int,
        ),
        _ => is_single_port(n.input_ports@, id, PortType::Input, input_text()),
    }
    &&& match node_type {
        NodeType::Output => n.output_ports@.len() == 0,
        _ => is_single_port(n.output_ports@, id, PortType::Output, output_text()),
    }
}

/// One input of a node's processing step: an incoming edge, its source node and its gain.
#[derive(Debug, Clone, Copy)]
pub struct PlanInput {
    pub edge: usize,
    pub source: usize,
    pub gain: u32,
}

/// What to do for one node when a block is processed.
#[derive(Debug, Clone)]
pub enum NodeStep {
    /// A disabled node outputs silence.
    Silence { index: usize },
    /// A bypassed node passes on the output of the source of its first incoming edge, or
    /// silence when it has none.
    PassThrough { index: usize, source: Option<usize> },
    /// An active node's processor runs: the input node on the block handed to `process`,
    /// any other node on one input per incoming edge (scaled by the edge's gain).
    Run { index: usize, node_id: u128, takes_block: bool, inputs: Vec<PlanInput> },
}

/// The steps of one processing pass, in execution order, and the node whose output is
/// the pass's result (or the error the pass ends with once the steps have run).
pub struct ProcessPlan {
    pub steps: Vec<NodeStep>,
    pub output: Result<usize, String>,
}

/// The step that processes node `i` of the graph.
pub open spec fn is_step_for(s: NodeStep, i: usize, nodes: Seq<Node>, edges: Seq<(usize, usize, Edge)>) -> bool {
    let n = nodes[i as int];
    if !n.enabled {
        s == NodeStep::Silence { index: i }
    } else if n.bypassed {
        s matches NodeStep::PassThrough { index, source } && index == i && (source is None <==> (
        forall|e: int| 0 <= e < edges.len() ==> (#[trigger] edges[e]).1 != i)) && (source matches Some(
            src,
        ) ==> is_edge(edges, src, i))
    } else {
        s matches NodeStep::Run { index, node_id, takes_block, inputs } && index == i && node_id
            == n.id && takes_block == (n.node_type == NodeType::Input) && (if takes_block {
            inputs@.len() == 0
        } else {
            &&& lists_edges_at(inputs@.map_values(|p: PlanInput| p.edge), edges, i, true)
            &&& forall|k: int|
                0 <= k < inputs@.len() ==> (#[trigger] inputs@[k]).source == edges[inputs@[k].edge as int].0
                    && inputs@[k].gain == edges[inputs@[k].edge as int].2.gain
        })
    }
}

/// How a step reads the incoming edges of its node, listed in the graph's order: a
/// processor takes them as its inputs in that order, and a bypassed node passes on the
/// source of the first.
pub open spec fn follows_listing(s: NodeStep, listed: Seq<usize>, edges: Seq<(usize, usize, Edge)>) -> bool {
    match s {
        NodeStep::Run { takes_block, inputs, .. } => !takes_block ==> inputs@.map_values(
            |p: PlanInput| p.edge,
        ) == listed,
        NodeStep::PassThrough { source, .. } => listed.len() > 0 ==> source == Some(
            edges[listed[0] as int].0,
        ),
        NodeStep::Silence { .. } => true,
    }
}

pub open spec fn no_output_text() -> Seq<char> {
    seq!['N','o',' ','o','u','t','p','u','t',' ','n','o','d','e',' ','f','o','u','n','d',' ','i','n',' ','g','r','a','p','h']
}

pub open spec fn output_missing_text() -> Seq<char> {
    seq!['O','u','t','p','u','t',' ','n','o','d','e',' ','n','o','t',' ','f','o','u','n','d']
}

/// The signal graph of the studio: nodes and patch cables over a `petgraph` graph, with
/// the node-id map and cached execution order of a `TopologicalSorter`. Running the node
/// processors on audio is left to the caller, which follows the plan `process` returns.
pub struct DAGProcessor {
    graph: DiGraph<Node, Edge>,
    topo_sorter: TopologicalSorter,
    connections: Vec<Connection>,
    channels: usize,
    block_size: usize,
    input_node_id: Option<u128>,
    output_node_id: Option<u128>,
}

impl View for DAGProcessor {
    type V = PatchView;

    closed spec fn view(&self) -> PatchView {
        PatchView {
            nodes: graph_nodes(self.graph),
            edges: graph_edges(self.graph),
            sorter: self.topo_sorter@,
            connections: self.connections@,
            channels: self.channels,
            block_size: self.block_size,
            input_node_id: self.input_node_id,
            output_node_id: self.output_node_id,
        }
    }
}

impl DAGProcessor {
    /// The indices of the edges into node `a`, in the order the graph keeps its incoming
    /// edge list (`connect` puts a new edge at its head).
    pub closed spec fn in_edge_order(&self, a: usize) -> Seq<usize> {
        graph_in_edges(self.graph, a)
    }

    pub fn new(channels: usize, block_size: usize) -> (d: Self)
        ensures
            forall|a: usize| d.in_edge_order(a) == Seq::<usize>::empty(),
            d@.well_formed(),
            d@.nodes.len() == 0,
            d@.edges.len() == 0,
            d@.sorter.order.len() == 0,
            d@.sorter.id_map == Map::<u128, u32>::empty(),
            d@.sorter.dirty,
            d@.connections.len() == 0,
            d@.channels == channels,
            d@.block_size == block_size,
            d@.input_node_id is None,
            d@.output_node_id is None,
    {
        Self {
            graph: graph_new(),
            topo_sorter: TopologicalSorter::new(),
            connections: Vec::new(),
            channels,
            block_size,
            input_node_id: None,
            output_node_id: None,
        }
    }

    pub fn channels(&self) -> (r: usize)
        ensures
            r == self@.channels,
    {
        self.channels
    }

    /// The number of graph edges (one per cable, until a cable's removal takes its
    /// parallel twins with it).
    pub fn edge_count(&self) -> (r: usize)
        requires
            self@.well_formed(),
        ensures
            r == self@.edges.len(),
    {
        graph_edge_count(&self.graph)
    }

    pub fn block_size(&self) -> (r: usize)
        ensures
            r == self@.block_size,
    {
        self.block_size
    }

    pub fn set_block_size(&mut self, block_size: usize)
        ensures
            final(self)@ == (PatchView { block_size, ..old(self)@ }),
            forall|a: usize| final(self).in_edge_order(a) == old(self).in_edge_order(a),
    {
        self.block_size = block_size;
    }
}


impl DAGProcessor {
    /// Adds a node with a fresh random id; a mixer's input count is read from the
    /// configuration's `num_inputs` entry (two when absent or not a `u64`).
    pub fn add_node(
        &mut self,
        node_type: NodeType,
        name: String,
        position: Position,
        config: serde_json::Value,
    ) -> (id: u128)
        requires
            old(self)@.well_formed(),
            old(self)@.nodes.len() < u32::MAX,
        ensures
            Self::adds_node(
                old(self)@,
                final(self)@,
                id,
                node_type,
                name,
                position,
                config,
                if node_type == NodeType::Mix {
                    config_u64_entry(config, "num_inputs"@)
                } else {
                    None
                },
            ),
            final(self).in_edge_order(old(self)@.nodes.len() as usize) == Seq::<usize>::empty(),
            forall|a: usize|
                a != old(self)@.nodes.len() ==> final(self).in_edge_order(a) == old(self).in_edge_order(a),
    {
        let node_id = new_uuid();
        let num_inputs = match node_type {
            NodeType::Mix => config_u64(&config, "num_inputs"),
            _ => None,
        };
        self.add_node_with(node_id, node_type, name, position, config, num_inputs);
        node_id
    }

    /// `after` is `before` with a node appended at the next index, mapped from `id`,
    /// becoming the designated input or output node when it is one, and the order
    /// marked stale.
    pub open spec fn adds_node(
        before: PatchView,
        after: PatchView,
        id: u128,
        node_type: NodeType,
        name: String,
        position: Position,
        config: serde_json::Value,
        num_inputs: Option<u64>,
    ) -> bool {
        &&& after.well_formed()
        &&& after.nodes.len() == before.nodes.len() + 1
        &&& after.nodes.drop_last() == before.nodes
        &&& is_new_node(after.nodes.last(), id, node_type, name, position, config, num_inputs)
        &&& after.edges == before.edges
        &&& after.sorter.id_map == before.sorter.id_map.insert(id, before.nodes.len() as u32)
        &&& after.sorter.order == before.sorter.order
        &&& after.sorter.dirty
        &&& after.connections == before.connections
        &&& after.channels == before.channels
        &&& after.block_size == before.block_size
        &&& after.input_node_id == (if node_type == NodeType::Input {
            Some(id)
        } else {
            before.input_node_id
        })
        &&& after.output_node_id == (if node_type == NodeType::Output {
            Some(id)
        } else {
            before.output_node_id
        })
    }

    /// Adds a node with the given id; `num_inputs` is the mixer input count read from
    /// its configuration, if any.
    pub fn add_node_with(
        &mut self,
        node_id: u128,
        node_type: NodeType,
        name: String,
        position: Position,
        config: serde_json::Value,
        num_inputs: Option<u64>,
    )
        requires
            old(self)@.well_formed(),
            old(self)@.nodes.len() < u32::MAX,
        ensures
            Self::adds_node(old(self)@, final(self)@, node_id, node_type, name, position, config, num_inputs),
            final(self).in_edge_order(old(self)@.nodes.len() as usize) == Seq::<usize>::empty(),
            forall|a: usize|
                a != old(self)@.nodes.len() ==> final(self).in_edge_order(a) == old(self).in_edge_order(a),
    {
        let input_ports: Vec<Port> = match node_type {
            NodeType::Input => Vec::new(),
            NodeType::Mix => {
                let count = match num_inputs {
                    Some(k) => k,
                    None => 2,
                } as usize;
                let mut ports: Vec<Port> = Vec::new();
                let mut i: usize = 0;
                while i < count
                    invariant
                        i <= count,
                        is_mixer_inputs(ports@, node_id, i as int),
                    decreases count - i,
                {
                    let port = Port::new(node_id, PortType::Input, i, input_port_name(i));
                    ports.push(port);
                    i += 1;
                }
                ports
            },
            _ => {
                let mut ports: Vec<Port> = Vec::new();
                let label = "Input".to_owned();
                proof {
                    reveal_strlit("Input");
                    assert(label@ =~= input_text());
                }
                ports.push(Port::new(node_id, PortType::Input, 0, label));
                ports
            },
        };
        let output_ports: Vec<Port> = match node_type {
            NodeType::Output => Vec::new(),
            _ => {
                let mut ports: Vec<Port> = Vec::new();
                let label = "Output".to_owned();
                proof {
                    reveal_strlit("Output");
                    assert(label@ =~= output_text());
                }
                ports.push(Port::new(node_id, PortType::Output, 0, label));
                ports
            },
        };
        let node = Node::with_id(node_id, node_type, name, position, input_ports, output_ports, config);
        let index = graph_add_node(&mut self.graph, node);
        self.topo_sorter.add_node(node_id, index as u32);
        match node_type {
            NodeType::Input => {
                self.input_node_id = Some(node_id);
            },
            NodeType::Output => {
                self.output_node_id = Some(node_id);
            },
            _ => {},
        }
        self.topo_sorter.mark_dirty();
        assert(self@.nodes.drop_last() =~= old(self)@.nodes);
    }
}


/// Whether `remove_node` keeps a connection: it touches neither end of the removed node.
pub open spec fn keeps_connection(c: Connection, node_id: u128) -> bool {
    c.source_node != node_id && c.target_node != node_id
}

proof fn lemma_swap_removed_within(s: Seq<(usize, usize, Edge)>, i: int, n: int)
    requires
        edges_within(s, n),
        0 <= i < s.len(),
    ensures
        edges_within(swap_removed(s, i), n),
        swap_removed(s, i).len() == s.len() - 1,
{
    let t = swap_removed(s, i);
    assert forall|e: int| 0 <= e < t.len() implies (#[trigger] t[e]).0 < n && t[e].1 < n by {
        if e == i && i != s.len() - 1 {
            assert(t[e] == s[s.len() - 1]);
        } else {
            assert(t[e] == s[e]);
        }
    }
}

/// The first port with the given id, as `Iterator::find` looks it up.
fn has_port(ports: &Vec<Port>, id: u128) -> (r: bool)
    ensures
        r == exists|k: int| 0 <= k < ports@.len() && (#[trigger] ports@[k]).id == id,
{
    let mut i: usize = 0;
    while i < ports.len()
        invariant
            i <= ports@.len(),
            forall|k: int| 0 <= k < i ==> (#[trigger] ports@[k]).id != id,
        decreases ports@.len() - i,
    {
        if ports[i].id == id {
            return true;
        }
        i += 1;
    }
    false
}

pub open spec fn has_port_spec(ports: Seq<Port>, id: u128) -> bool {
    exists|k: int| 0 <= k < ports.len() && (#[trigger] ports[k]).id == id
}

impl DAGProcessor {
    /// While the cached order is clean and non-empty, the graph has no cycle.
    proof fn lemma_cached_order_acyclic(&self, v: PatchView)
        requires
            v.well_formed(),
        ensures
            !v.sorter.dirty && v.sorter.order.len() > 0 ==> !has_cycle(v.edges),
    {
        if !v.sorter.dirty && v.sorter.order.len() > 0 {
            lemma_topological_order_acyclic(v.sorter.order, v.nodes.len() as int, v.edges);
        }
    }

    /// Removes the edges at the listed indices one after the other, each index read
    /// against the edges as they stand when its turn comes.
    fn remove_listed_edges(&mut self, listed: &Vec<usize>)
        requires
            edges_within(old(self)@.edges, old(self)@.nodes.len() as int),
            forall|j: int| 0 <= j < listed@.len() ==> (#[trigger] listed@[j] as int) <= u32::MAX,
        ensures
            final(self)@ == (PatchView { edges: final(self)@.edges, ..old(self)@ }),
            final(self)@.edges == removed_in_turn(old(self)@.edges, listed@),
            forall|a: usize|
                final(self).in_edge_order(a) == list_after_removals(
                    old(self).in_edge_order(a),
                    old(self)@.edges,
                    listed@,
                ),
            edges_within(final(self)@.edges, final(self)@.nodes.len() as int),
            final(self)@.edges.len() <= old(self)@.edges.len(),
    {
        let mut k: usize = 0;
        while k < listed.len()
            invariant
                self@ == (PatchView { edges: self@.edges, ..old(self)@ }),
                k <= listed@.len(),
                self@.edges == removed_in_turn(old(self)@.edges, listed@.subrange(0, k as int)),
                forall|a: usize|
                    self.in_edge_order(a) == list_after_removals(
                        old(self).in_edge_order(a),
                        old(self)@.edges,
                        listed@.subrange(0, k as int),
                    ),
                edges_within(self@.edges, self@.nodes.len() as int),
                self@.edges.len() <= old(self)@.edges.len(),
                forall|j: int| 0 <= j < listed@.len() ==> (#[trigger] listed@[j] as int) <= u32::MAX,
            decreases listed@.len() - k,
        {
            let e = listed[k];
            let ghost before = self@.edges;
            let ghost lists_before = *self;
            graph_remove_edge(&mut self.graph, e);
            proof {
                if (e as int) < before.len() {
                    lemma_swap_removed_within(before, e as int, self@.nodes.len() as int);
                }
                let sub = listed@.subrange(0, k + 1);
                assert(sub.drop_last() =~= listed@.subrange(0, k as int));
                assert(sub.last() == e);
                assert forall|a: usize|
                    self.in_edge_order(a) == list_after_removals(
                        old(self).in_edge_order(a),
                        old(self)@.edges,
                        sub,
                    ) by {
                    assert(lists_before.in_edge_order(a) == list_after_removals(
                        old(self).in_edge_order(a),
                        old(self)@.edges,
                        listed@.subrange(0, k as int),
                    ));
                }
            }
            k += 1;
        }
        proof {
            assert(listed@.subrange(0, listed@.len() as int) =~= listed@);
        }
    }

    /// Removes the edges at a graph index: the ones into it, then the ones out of it,
    /// each by the index the graph listed it under.
    fn remove_edges_at(&mut self, index: usize)
        requires
            old(self)@.well_formed(),
            index <= u32::MAX,
        ensures
            final(self)@ == (PatchView { edges: final(self)@.edges, ..old(self)@ }),
            edges_within(final(self)@.edges, final(self)@.nodes.len() as int),
            final(self)@.edges.len() <= old(self)@.edges.len(),
            (index as int) >= old(self)@.nodes.len() ==> final(self)@.edges == old(self)@.edges,
            exists|r_in: Seq<usize>, r_out: Seq<usize>|
                lists_edges_at(r_in, old(self)@.edges, index, true) && lists_edges_at(
                    r_out,
                    removed_in_turn(old(self)@.edges, r_in),
                    index,
                    false,
                ) && final(self)@.edges == removed_in_turn(removed_in_turn(old(self)@.edges, r_in), r_out),
    {
        let incoming = graph_edges_directed(&self.graph, index, true);
        proof {
            if (index as int) >= self@.nodes.len() && incoming@.len() > 0 {
                let e = incoming@[0] as int;
                assert(self@.edges[e].1 < self@.nodes.len());
            }
        }
        self.remove_listed_edges(&incoming);
        let outgoing = graph_edges_directed(&self.graph, index, false);
        proof {
            if (index as int) >= self@.nodes.len() && outgoing@.len() > 0 {
                let e = outgoing@[0] as int;
                assert(self@.edges[e].0 < self@.nodes.len());
            }
            if (index as int) >= self@.nodes.len() {
                assert(incoming@ =~= Seq::<usize>::empty());
                assert(outgoing@ =~= Seq::<usize>::empty());
            }
        }
        self.remove_listed_edges(&outgoing);
    }

    /// Removes a node, its connections and its edges; the graph moves its last node into
    /// the freed index. Returns the node when the id maps to an index that names one.
    pub fn remove_node(&mut self, node_id: u128) -> (r: Option<Node>)
        requires
            old(self)@.well_formed(),
        ensures
            final(self)@.well_formed(),
            !old(self)@.sorter.id_map.contains_key(node_id) ==> r is None && final(self)@ == old(self)@,
            old(self)@.sorter.id_map.contains_key(node_id) ==> {
                let i = old(self)@.sorter.id_map[node_id] as int;
                &&& final(self)@.sorter.id_map == old(self)@.sorter.id_map.remove(node_id)
                &&& final(self)@.sorter.order == old(self)@.sorter.order
                &&& final(self)@.sorter.dirty
                &&& final(self)@.connections == old(self)@.connections.filter(
                    |c: Connection| keeps_connection(c, node_id),
                )
                &&& final(self)@.input_node_id == (if old(self)@.input_node_id == Some(node_id) {
                    None
                } else {
                    old(self)@.input_node_id
                })
                &&& final(self)@.output_node_id == (if old(self)@.output_node_id == Some(node_id) {
                    None
                } else {
                    old(self)@.output_node_id
                })
                &&& final(self)@.channels == old(self)@.channels
                &&& final(self)@.block_size == old(self)@.block_size
                &&& i < old(self)@.nodes.len() ==> r == Some(old(self)@.nodes[i]) && final(self)@.nodes
                    == swap_removed(old(self)@.nodes, i)
                &&& i >= old(self)@.nodes.len() ==> r is None && final(self)@.nodes == old(self)@.nodes
                    && final(self)@.edges == old(self)@.edges
                &&& i < old(self)@.nodes.len() ==> exists|r_in: Seq<usize>, r_out: Seq<usize>|
                    lists_edges_at(r_in, old(self)@.edges, i as usize, true) && lists_edges_at(
                        r_out,
                        removed_in_turn(old(self)@.edges, r_in),
                        i as usize,
                        false,
                    ) && final(self)@.edges.to_multiset() == edges_after_node_removal(
                        removed_in_turn(removed_in_turn(old(self)@.edges, r_in), r_out),
                        i as usize,
                        (old(self)@.nodes.len() - 1) as usize,
                    ).to_multiset()
            },
    {
        let node_index = match self.topo_sorter.get_node_index(node_id) {
            Some(i) => i,
            None => return None,
        };
        let mut kept: Vec<Connection> = Vec::new();
        let mut i: usize = 0;
        while i < self.connections.len()
            invariant
                self@ == old(self)@,
                i <= self@.connections.len(),
                kept@ == self@.connections.subrange(0, i as int).filter(
                    |c: Connection| keeps_connection(c, node_id),
                ),
            decreases self@.connections.len() - i,
        {
            let c = self.connections[i];
            if c.source_node != node_id && c.target_node != node_id {
                kept.push(c);
            }
            proof {
                let sub = self@.connections.subrange(0, i + 1);
                assert(sub.drop_last() =~= self@.connections.subrange(0, i as int));
                reveal_with_fuel(Seq::filter, 1);
            }
            i += 1;
        }
        proof {
            assert(self@.connections.subrange(0, self@.connections.len() as int) =~= self@.connections);
        }
        self.connections = kept;
        self.remove_edges_at(node_index as usize);
        self.topo_sorter.remove_node(node_id);
        if self.input_node_id == Some(node_id) {
            self.input_node_id = None;
        }
        if self.output_node_id == Some(node_id) {
            self.output_node_id = None;
        }
        self.topo_sorter.mark_dirty();
        graph_remove_node(&mut self.graph, node_index as usize)
    }
}


/// `p` is the first position of a connection with the id.
pub open spec fn is_first_with_id(conns: Seq<Connection>, id: u128, p: int) -> bool {
    &&& 0 <= p < conns.len()
    &&& conns[p].id == id
    &&& forall|q: int| 0 <= q < p ==> (#[trigger] conns[q]).id != id
}

proof fn lemma_first_unique(conns: Seq<Connection>, id: u128, p: int, p2: int)
    requires
        is_first_with_id(conns, id, p),
        is_first_with_id(conns, id, p2),
    ensures
        p == p2,
{
    if p < p2 {
        assert(conns[p].id != id);
    } else if p2 < p {
        assert(conns[p2].id != id);
    }
}

/// Whether `connect` succeeds: both node ids are mapped to indices that name nodes, the
/// source node has the source port among its outputs and the target node the target
/// port among its inputs.
pub open spec fn can_connect(v: PatchView, source_node_id: u128, source_port_id: u128, target_node_id: u128, target_port_id: u128) -> bool {
    &&& v.node_of(source_node_id) is Some
    &&& v.node_of(target_node_id) is Some
    &&& has_port_spec(v.node_of(source_node_id)->0.output_ports@, source_port_id)
    &&& has_port_spec(v.node_of(target_node_id)->0.input_ports@, target_port_id)
}

/// The error `connect` reports: the first of the checks above that fails, in the order
/// source id, target id, source index, target index, source port, target port.
pub open spec fn connect_error(v: PatchView, source_node_id: u128, source_port_id: u128, target_node_id: u128, target_port_id: u128) -> Seq<char> {
    if !v.sorter.id_map.contains_key(source_node_id) {
        "Source node "@ + uuid_text(source_node_id) + " not found"@
    } else if !v.sorter.id_map.contains_key(target_node_id) {
        "Target node "@ + uuid_text(target_node_id) + " not found"@
    } else if v.node_of(source_node_id) is None {
        "Source node not found in graph"@
    } else if v.node_of(target_node_id) is None {
        "Target node not found in graph"@
    } else if !has_port_spec(v.node_of(source_node_id)->0.output_ports@, source_port_id) {
        "Source port "@ + uuid_text(source_port_id) + " not found"@
    } else {
        "Target port "@ + uuid_text(target_port_id) + " not found"@
    }
}

impl DAGProcessor {
    /// Cables a source node's output port to a target node's input port: adds a graph
    /// edge with the gain and records a connection with a fresh random id.
    pub fn connect(
        &mut self,
        source_node_id: u128,
        source_port_id: u128,
        target_node_id: u128,
        target_port_id: u128,
        gain: u32,
    ) -> (r: Result<u128, String>)
        requires
            old(self)@.well_formed(),
            old(self)@.edges.len() < u32::MAX,
        ensures
            final(self)@.well_formed(),
            r is Ok <==> can_connect(old(self)@, source_node_id, source_port_id, target_node_id, target_port_id),
            r matches Ok(cid) ==> {
                let si = old(self)@.sorter.id_map[source_node_id] as usize;
                let ti = old(self)@.sorter.id_map[target_node_id] as usize;
                &&& final(self)@.edges == old(self)@.edges.push((si, ti, Edge { gain }))
                &&& final(self)@.connections == old(self)@.connections.push(
                    Connection {
                        id: cid,
                        source_port: source_port_id,
                        target_port: target_port_id,
                        source_node: source_node_id,
                        target_node: target_node_id,
                        gain,
                    },
                )
                &&& final(self)@.nodes == old(self)@.nodes
                &&& final(self)@.sorter.id_map == old(self)@.sorter.id_map
                &&& final(self)@.sorter.order == old(self)@.sorter.order
                &&& final(self)@.sorter.dirty
                &&& final(self)@.input_node_id == old(self)@.input_node_id
                &&& final(self)@.output_node_id == old(self)@.output_node_id
                &&& final(self)@.channels == old(self)@.channels
                &&& final(self)@.block_size == old(self)@.block_size
                &&& final(self).in_edge_order(ti) == seq![old(self)@.edges.len() as usize] + old(
                    self,
                ).in_edge_order(ti)
                &&& forall|a: usize| a != ti ==> final(self).in_edge_order(a) == old(self).in_edge_order(a)
            },
            r is Err ==> forall|a: usize| final(self).in_edge_order(a) == old(self).in_edge_order(a),
            r matches Err(msg) ==> final(self)@ == old(self)@ && msg@ == connect_error(
                old(self)@,
                source_node_id,
                source_port_id,
                target_node_id,
                target_port_id,
            ),
    {
        let source_index = match self.topo_sorter.get_node_index(source_node_id) {
            Some(i) => i,
            None => return Err(format_id_message("Source node ", source_node_id, " not found")),
        };
        let target_index = match self.topo_sorter.get_node_index(target_node_id) {
            Some(i) => i,
            None => return Err(format_id_message("Target node ", target_node_id, " not found")),
        };
        let source_node = match graph_node_weight(&self.graph, source_index as usize) {
            Some(n) => n,
            None => return Err("Source node not found in graph".to_owned()),
        };
        let target_node = match graph_node_weight(&self.graph, target_index as usize) {
            Some(n) => n,
            None => return Err("Target node not found in graph".to_owned()),
        };
        if !has_port(&source_node.output_ports, source_port_id) {
            return Err(format_id_message("Source port ", source_port_id, " not found"));
        }
        if !has_port(&target_node.input_ports, target_port_id) {
            return Err(format_id_message("Target port ", target_port_id, " not found"));
        }
        graph_add_edge(&mut self.graph, source_index as usize, target_index as usize, Edge::new(gain));
        let connection = Connection::new(source_port_id, target_port_id, source_node_id, target_node_id, gain);
        let connection_id = connection.id;
        self.connections.push(connection);
        self.topo_sorter.mark_dirty();
        proof {
            let v = self@;
            assert forall|e: int| 0 <= e < v.edges.len() implies (#[trigger] v.edges[e]).0 < v.nodes.len() && v.edges[e].1 < v.nodes.len() by {
                if e < old(self)@.edges.len() {
                    assert(v.edges[e] == old(self)@.edges[e]);
                }
            }
        }
        Ok(connection_id)
    }

    /// Removes a connection and the graph edges from its source node to its target node,
    /// each by the index the graph listed it under.
    pub fn disconnect(&mut self, connection_id: u128) -> (r: Result<(), String>)
        requires
            old(self)@.well_formed(),
        ensures
            final(self)@.well_formed(),
            r is Ok <==> exists|p: int|
                is_first_with_id(old(self)@.connections, connection_id, p)
                    && old(self)@.sorter.id_map.contains_key(old(self)@.connections[p].source_node)
                    && old(self)@.sorter.id_map.contains_key(old(self)@.connections[p].target_node),
            r is Ok ==> exists|p: int, listed: Seq<usize>|
                is_first_with_id(old(self)@.connections, connection_id, p)
                    && final(self)@.connections == old(self)@.connections.remove(p)
                    && lists_edges_between(
                    listed,
                    old(self)@.edges,
                    old(self)@.sorter.id_map[old(self)@.connections[p].source_node] as usize,
                    old(self)@.sorter.id_map[old(self)@.connections[p].target_node] as usize,
                ) && final(self)@.edges == removed_in_turn(old(self)@.edges, listed) && forall|a: usize|
                    final(self).in_edge_order(a) == list_after_removals(
                        old(self).in_edge_order(a),
                        old(self)@.edges,
                        listed,
                    ),
            r is Err ==> forall|a: usize| final(self).in_edge_order(a) == old(self).in_edge_order(a),
            r is Ok ==> {
                &&& final(self)@.nodes == old(self)@.nodes
                &&& final(self)@.edges.len() <= old(self)@.edges.len()
                &&& final(self)@.sorter.id_map == old(self)@.sorter.id_map
                &&& final(self)@.sorter.order == old(self)@.sorter.order
                &&& final(self)@.sorter.dirty
                &&& final(self)@.input_node_id == old(self)@.input_node_id
                &&& final(self)@.output_node_id == old(self)@.output_node_id
                &&& final(self)@.channels == old(self)@.channels
                &&& final(self)@.block_size == old(self)@.block_size
            },
            r matches Err(msg) ==> final(self)@ == old(self)@ && {
                ||| (forall|q: int|
                    0 <= q < old(self)@.connections.len() ==> (#[trigger] old(self)@.connections[q]).id
                        != connection_id) && msg@ == "Connection "@ + uuid_text(connection_id)
                    + " not found"@
                ||| exists|p: int|
                    is_first_with_id(old(self)@.connections, connection_id, p)
                        && !old(self)@.sorter.id_map.contains_key(old(self)@.connections[p].source_node)
                        && msg@ == "Source node not found"@
                ||| exists|p: int|
                    is_first_with_id(old(self)@.connections, connection_id, p)
                        && old(self)@.sorter.id_map.contains_key(old(self)@.connections[p].source_node)
                        && !old(self)@.sorter.id_map.contains_key(old(self)@.connections[p].target_node)
                        && msg@ == "Target node not found"@
            },
    {
        let mut p: usize = 0;
        while p < self.connections.len()
            invariant
                self@ == old(self)@,
                p <= self@.connections.len(),
                forall|q: int| 0 <= q < p ==> (#[trigger] self@.connections[q]).id != connection_id,
            ensures
                p <= self@.connections.len(),
                forall|q: int| 0 <= q < p ==> (#[trigger] self@.connections[q]).id != connection_id,
                (p as int) < self@.connections.len() ==> self@.connections[p as int].id == connection_id,
            decreases self@.connections.len() - p,
        {
            if self.connections[p].id == connection_id {
                break;
            }
            p += 1;
        }
        if p == self.connections.len() {
            return Err(format_id_message("Connection ", connection_id, " not found"));
        }
        let connection = self.connections[p];
        proof {
            assert(is_first_with_id(self@.connections, connection_id, p as int));
            assert forall|p2: int| is_first_with_id(self@.connections, connection_id, p2) implies p2 == p by {
                lemma_first_unique(self@.connections, connection_id, p as int, p2);
            }
        }
        let source_index = match self.topo_sorter.get_node_index(connection.source_node) {
            Some(i) => i,
            None => {
                let msg = "Source node not found".to_owned();
                return Err(msg);
            },
        };
        let target_index = match self.topo_sorter.get_node_index(connection.target_node) {
            Some(i) => i,
            None => {
                let msg = "Target node not found".to_owned();
                return Err(msg);
            },
        };
        let listed = graph_edges_connecting(&self.graph, source_index as usize, target_index as usize);
        let mut k: usize = 0;
        while k < listed.len()
            invariant
                self@ == (PatchView { edges: self@.edges, ..old(self)@ }),
                k <= listed@.len(),
                self@.edges == removed_in_turn(old(self)@.edges, listed@.subrange(0, k as int)),
                forall|a: usize|
                    self.in_edge_order(a) == list_after_removals(
                        old(self).in_edge_order(a),
                        old(self)@.edges,
                        listed@.subrange(0, k as int),
                    ),
                edges_within(self@.edges, self@.nodes.len() as int),
                self@.edges.len() <= old(self)@.edges.len(),
                old(self)@.edges.len() <= u32::MAX,
                forall|j: int| 0 <= j < listed@.len() ==> (#[trigger] listed@[j] as int) < old(self)@.edges.len(),
            decreases listed@.len() - k,
        {
            let e = listed[k];
            let ghost before = self@.edges;
            let ghost lists_before = *self;
            graph_remove_edge(&mut self.graph, e);
            proof {
                if (e as int) < before.len() {
                    lemma_swap_removed_within(before, e as int, self@.nodes.len() as int);
                }
                let sub = listed@.subrange(0, k + 1);
                assert(sub.drop_last() =~= listed@.subrange(0, k as int));
                assert(sub.last() == e);
                assert forall|a: usize|
                    self.in_edge_order(a) == list_after_removals(
                        old(self).in_edge_order(a),
                        old(self)@.edges,
                        sub,
                    ) by {
                    assert(lists_before.in_edge_order(a) == list_after_removals(
                        old(self).in_edge_order(a),
                        old(self)@.edges,
                        listed@.subrange(0, k as int),
                    ));
                }
            }
            k += 1;
        }
        proof {
            assert(listed@.subrange(0, listed@.len() as int) =~= listed@);
        }
        let ghost lists_after = *self;
        self.connections.remove(p);
        self.topo_sorter.mark_dirty();
        proof {
            assert forall|a: usize|
                self.in_edge_order(a) == list_after_removals(
                    old(self).in_edge_order(a),
                    old(self)@.edges,
                    listed@,
                ) by {
                assert(self.in_edge_order(a) == lists_after.in_edge_order(a));
            }
        }
        Ok(())
    }

    pub fn get_node(&self, node_id: u128) -> (r: Option<&Node>)
        requires
            self@.well_formed(),
        ensures
            r == match self@.node_of(node_id) {
                Some(n) => Some(&n),
                None => None,
            },
    {
        let index = match self.topo_sorter.get_node_index(node_id) {
            Some(i) => i,
            None => return None,
        };
        graph_node_weight(&self.graph, index as usize)
    }

    pub fn get_node_mut(&mut self, node_id: u128) -> (r: Option<&mut Node>)
        requires
            old(self)@.well_formed(),
        ensures
            match r {
                Some(n) => {
                    &&& old(self)@.node_of(node_id) == Some(*n)
                    &&& final(self)@ == (PatchView {
                        nodes: old(self)@.nodes.update(
                            old(self)@.sorter.id_map[node_id] as int,
                            *final(n),
                        ),
                        ..old(self)@
                    })
                },
                None => old(self)@.node_of(node_id) is None && final(self)@ == old(self)@,
            },
            forall|a: usize| final(self).in_edge_order(a) == old(self).in_edge_order(a),
    {
        let index = match self.topo_sorter.get_node_index(node_id) {
            Some(i) => i,
            None => return None,
        };
        graph_node_weight_mut(&mut self.graph, index as usize)
    }

    /// Every node, in graph index order.
    pub fn get_nodes(&self) -> (r: Vec<&Node>)
        ensures
            r@.len() == self@.nodes.len(),
            forall|i: int| 0 <= i < r@.len() ==> *(#[trigger] r@[i]) == self@.nodes[i],
    {
        graph_node_weights(&self.graph)
    }

    pub fn get_connections(&self) -> (r: &[Connection])
        ensures
            r@ == self@.connections,
    {
        self.connections.as_slice()
    }

    /// Checks that the graph has an execution order and designated input and output nodes.
    pub fn validate(&mut self) -> (r: Result<(), String>)
        requires
            old(self)@.well_formed(),
        ensures
            final(self)@.well_formed(),
            final(self)@.nodes == old(self)@.nodes,
            final(self)@.edges == old(self)@.edges,
            final(self)@.sorter.id_map == old(self)@.sorter.id_map,
            final(self)@.connections == old(self)@.connections,
            final(self)@.input_node_id == old(self)@.input_node_id,
            final(self)@.output_node_id == old(self)@.output_node_id,
            forall|a: usize| final(self).in_edge_order(a) == old(self).in_edge_order(a),
            r is Ok <==> !has_cycle(old(self)@.edges) && old(self)@.input_node_id is Some
                && old(self)@.output_node_id is Some,
            r matches Err(msg) ==> if has_cycle(old(self)@.edges) {
                is_cycle_error(old(self)@.edges, msg@)
            } else if old(self)@.input_node_id is None {
                msg@ == "No input node found"@
            } else {
                msg@ == "No output node found"@
            },
    {
        let sorted = self.topo_sorter.sort(&self.graph);
        proof {
            self.lemma_cached_order_acyclic(old(self)@);
        }
        match sorted {
            Ok(_) => {},
            Err(msg) => return Err(msg),
        }
        if self.input_node_id.is_none() {
            return Err("No input node found".to_owned());
        }
        if self.output_node_id.is_none() {
            return Err("No output node found".to_owned());
        }
        Ok(())
    }

    pub fn clear(&mut self)
        ensures
            final(self)@.well_formed(),
            final(self)@.nodes.len() == 0,
            final(self)@.edges.len() == 0,
            final(self)@.sorter.order.len() == 0,
            final(self)@.sorter.id_map == Map::<u128, u32>::empty(),
            final(self)@.sorter.dirty,
            final(self)@.connections.len() == 0,
            final(self)@.input_node_id is None,
            final(self)@.output_node_id is None,
            final(self)@.channels == old(self)@.channels,
            final(self)@.block_size == old(self)@.block_size,
            forall|a: usize| final(self).in_edge_order(a) == Seq::<usize>::empty(),
    {
        graph_clear(&mut self.graph);
        self.topo_sorter.clear();
        self.connections.clear();
        self.input_node_id = None;
        self.output_node_id = None;
    }
}


impl DAGProcessor {
    /// The incoming edges of a node as plan inputs, in the order the graph lists them.
    fn incoming_inputs(&self, index: usize) -> (inputs: Vec<PlanInput>)
        requires
            self@.well_formed(),
            (index as int) < self@.nodes.len(),
        ensures
            lists_edges_at(inputs@.map_values(|p: PlanInput| p.edge), self@.edges, index, true),
            inputs@.map_values(|p: PlanInput| p.edge) == self.in_edge_order(index),
            forall|k: int|
                0 <= k < inputs@.len() ==> (#[trigger] inputs@[k]).source == self@.edges[inputs@[k].edge as int].0
                    && inputs@[k].gain == self@.edges[inputs@[k].edge as int].2.gain,
    {
        let listed = graph_edges_directed(&self.graph, index, true);
        let mut inputs: Vec<PlanInput> = Vec::new();
        let mut k: usize = 0;
        while k < listed.len()
            invariant
                self@.well_formed(),
                k <= listed@.len(),
                lists_edges_at(listed@, self@.edges, index, true),
                inputs@.len() == k,
                forall|j: int| 0 <= j < k ==> (#[trigger] inputs@[j]).edge == listed@[j],
                forall|j: int|
                    0 <= j < k ==> (#[trigger] inputs@[j]).source == self@.edges[inputs@[j].edge as int].0
                        && inputs@[j].gain == self@.edges[inputs@[j].edge as int].2.gain,
            decreases listed@.len() - k,
        {
            let e = listed[k];
            let source = match graph_edge_endpoints(&self.graph, e) {
                Some((a, _)) => a,
                None => 0,
            };
            let gain = match graph_edge_weight(&self.graph, e) {
                Some(w) => w.gain,
                None => 0,
            };
            inputs.push(PlanInput { edge: e, source, gain });
            k += 1;
        }
        assert(inputs@.map_values(|p: PlanInput| p.edge) =~= listed@);
        inputs
    }

    /// Plans one processing pass: the execution order, and for each node in it the step
    /// that produces its output; then the node whose output is the result.
    pub fn process(&mut self) -> (r: Result<ProcessPlan, String>)
        requires
            old(self)@.well_formed(),
        ensures
            final(self)@.well_formed(),
            final(self)@.nodes == old(self)@.nodes,
            final(self)@.edges == old(self)@.edges,
            final(self)@.sorter.id_map == old(self)@.sorter.id_map,
            final(self)@.connections == old(self)@.connections,
            final(self)@.input_node_id == old(self)@.input_node_id,
            final(self)@.output_node_id == old(self)@.output_node_id,
            forall|a: usize| final(self).in_edge_order(a) == old(self).in_edge_order(a),
            r is Ok <==> !has_cycle(old(self)@.edges),
            r matches Err(msg) ==> final(self)@ == old(self)@ && msg@.len() >= 14 && msg@.subrange(0, 14)
                == super::topo_sort::cycle_detected_prefix() && is_cycle_error(old(self)@.edges, msg@),
            r matches Ok(plan) ==> {
                let order = final(self)@.sorter.order;
                &&& !final(self)@.sorter.dirty
                &&& is_topological_order(order, old(self)@.nodes.len() as int, old(self)@.edges)
                &&& plan.steps@.len() == order.len()
                &&& forall|k: int|
                    0 <= k < order.len() ==> is_step_for(
                        #[trigger] plan.steps@[k],
                        order[k],
                        old(self)@.nodes,
                        old(self)@.edges,
                    )
                &&& forall|k: int|
                    0 <= k < order.len() ==> follows_listing(
                        #[trigger] plan.steps@[k],
                        old(self).in_edge_order(order[k]),
                        old(self)@.edges,
                    )
                &&& match old(self)@.output_node_id {
                    None => plan.output matches Err(m) && m@ == no_output_text(),
                    Some(id) => if old(self)@.sorter.id_map.contains_key(id) {
                        plan.output == Ok::<usize, String>(old(self)@.sorter.id_map[id] as usize)
                    } else {
                        plan.output matches Err(m) && m@ == output_missing_text()
                    },
                }
            },
    {
        let sorted = self.topo_sorter.sort(&self.graph);
        proof {
            self.lemma_cached_order_acyclic(old(self)@);
        }
        let execution_order = match sorted {
            Ok(order) => order,
            Err(msg) => return Err(msg),
        };
        let mut steps: Vec<NodeStep> = Vec::new();
        let mut k: usize = 0;
        while k < execution_order.len()
            invariant
                self@.well_formed(),
                self@.nodes == old(self)@.nodes,
                self@.edges == old(self)@.edges,
                is_topological_order(execution_order@, self@.nodes.len() as int, self@.edges),
                k <= execution_order@.len(),
                steps@.len() == k,
                forall|j: int|
                    0 <= j < k ==> is_step_for(
                        #[trigger] steps@[j],
                        execution_order@[j],
                        self@.nodes,
                        self@.edges,
                    ),
                forall|a: usize| self.in_edge_order(a) == old(self).in_edge_order(a),
                forall|j: int|
                    0 <= j < k ==> follows_listing(
                        #[trigger] steps@[j],
                        old(self).in_edge_order(execution_order@[j]),
                        self@.edges,
                    ),
            decreases execution_order@.len() - k,
        {
            let node_index = execution_order[k];
            let node = match graph_node_weight(&self.graph, node_index) {
                Some(n) => n,
                None => return Err("Node not found in graph".to_owned()),
            };
            if !node.enabled {
                steps.push(NodeStep::Silence { index: node_index });
            } else if node.bypassed {
                let listed = graph_edges_directed(&self.graph, node_index, true);
                let source = if listed.len() > 0 {
                    match graph_edge_endpoints(&self.graph, listed[0]) {
                        Some((a, _)) => Some(a),
                        None => None,
                    }
                } else {
                    None
                };
                proof {
                    if listed@.len() == 0 {
                        assert forall|e: int| 0 <= e < self@.edges.len() implies (#[trigger] self@.edges[e]).1 != node_index by {
                            if self@.edges[e].1 == node_index {
                                assert(listed@.contains(e as usize));
                            }
                        }
                    } else {
                        let e0 = listed@[0] as int;
                        assert(self@.edges[e0].1 == node_index);
                    }
                }
                steps.push(NodeStep::PassThrough { index: node_index, source });
            } else if node.node_type == NodeType::Input {
                steps.push(
                    NodeStep::Run {
                        index: node_index,
                        node_id: node.id,
                        takes_block: true,
                        inputs: Vec::new(),
                    },
                );
            } else {
                let inputs = self.incoming_inputs(node_index);
                steps.push(
                    NodeStep::Run { index: node_index, node_id: node.id, takes_block: false, inputs },
                );
            }
            k += 1;
        }
        let output = match self.output_node_id {
            Some(id) => match self.topo_sorter.get_node_index(id) {
                Some(i) => Ok(i as usize),
                None => Err("Output node not found".to_owned()),
            },
            None => Err("No output node found in graph".to_owned()),
        };
        proof {
            reveal_strlit("Output node not found");
            reveal_strlit("No output node found in graph");
        }
        Ok(ProcessPlan { steps, output })
    }
}

/// The source of input `j` of step `k` of a plan, when that step runs a processor.
pub open spec fn run_input_source(steps: Seq<NodeStep>, k: int, j: int) -> Option<usize> {
    match steps[k] {
        NodeStep::Run { inputs, .. } => if 0 <= j < inputs@.len() {
            Some(inputs@[j].source)
        } else {
            None
        },
        _ => None,
    }
}

/// In a plan laid out in topological order, every input a step reads comes from a node
/// whose step comes earlier, so its output is ready when the step runs.
pub proof fn lemma_plan_inputs_come_first(
    order: Seq<usize>,
    nodes: Seq<Node>,
    edges: Seq<(usize, usize, Edge)>,
    steps: Seq<NodeStep>,
    k: int,
    j: int,
)
    requires
        is_topological_order(order, nodes.len() as int, edges),
        edges_within(edges, nodes.len() as int),
        steps.len() == order.len(),
        forall|i: int| 0 <= i < order.len() ==> is_step_for(#[trigger] steps[i], order[i], nodes, edges),
        0 <= k < steps.len(),
        run_input_source(steps, k, j) is Some,
    ensures
        exists|i: int| 0 <= i < k && order[i] == run_input_source(steps, k, j)->0,
{
    assert(is_step_for(steps[k], order[k], nodes, edges));
    match steps[k] {
        NodeStep::Run { index, node_id, takes_block, inputs } => {
            let n = nodes.len() as int;
            let r = inputs@.map_values(|p: PlanInput| p.edge);
            assert(r[j] == inputs@[j].edge);
            let e = inputs@[j].edge as int;
            assert(edges[e].1 == order[k]);
            let src = edges[e].0;
            assert(src == inputs@[j].source);
            assert((src as int) < n);
            assert(order.contains(src));
            let i = choose|i: int| 0 <= i < order.len() && order[i] == src;
            assert(order[i] == edges[e].0 && order[k] == edges[e].1);
            assert(i < k);
        },
        _ => {},
    }
}

/// Disconnecting a cable just connected undoes the connection: when its id was new, it is
/// the first connection with that id and removing it gives back the earlier list; and when
/// no cable joined the two nodes before, the graph edges listed between them are just the
/// new one, and removing them gives back the earlier edges.
pub proof fn lemma_disconnect_undoes_connect(
    conns: Seq<Connection>,
    c: Connection,
    edges: Seq<(usize, usize, Edge)>,
    a: usize,
    b: usize,
    w: Edge,
    listed: Seq<usize>,
)
    requires
        forall|k: int| 0 <= k < conns.len() ==> (#[trigger] conns[k]).id != c.id,
        forall|e: int| 0 <= e < edges.len() ==> !((#[trigger] edges[e]).0 == a && edges[e].1 == b),
        lists_edges_between(listed, edges.push((a, b, w)), a, b),
    ensures
        is_first_with_id(conns.push(c), c.id, conns.len() as int),
        conns.push(c).remove(conns.len() as int) == conns,
        listed == seq![edges.len() as usize],
        removed_in_turn(edges.push((a, b, w)), listed) == edges,
{
    assert(conns.push(c).remove(conns.len() as int) =~= conns);
    let grown = edges.push((a, b, w));
    assert(grown[edges.len() as int] == (a, b, w));
    assert(listed.contains(edges.len() as usize));
    assert forall|k: int| 0 <= k < listed.len() implies listed[k] == edges.len() as usize by {
        let e = listed[k] as int;
        if e < edges.len() {
            assert(grown[e] == edges[e]);
        }
    }
    if listed.len() > 1 {
        assert(listed[0] == listed[1]);
    }
    assert(listed =~= seq![edges.len() as usize]);
    assert(listed.drop_last() =~= Seq::<usize>::empty());
    assert(removed_in_turn(grown, listed.drop_last()) == grown);
    assert(swap_removed(grown, edges.len() as int) =~= edges);
}

} // verus!
