use std::collections::HashMap;

use broadcast_daw_studio::dag::{
    DAGProcessor, Edge, Node, NodeStep, NodeType, Position, ProcessPlan, TopologicalSorter,
};
use petgraph::graph::DiGraph;

fn pos(x: f32, y: f32) -> Position {
    Position { x: x.to_bits(), y: y.to_bits() }
}

fn plain_node(name: &str) -> Node {
    Node::new(NodeType::Gain, name.to_string(), pos(0.0, 0.0), Vec::new(), Vec::new(), serde_json::Value::Null)
}

fn block(channels: usize, frames: usize, value: f32) -> Vec<Vec<f32>> {
    vec![vec![value; frames]; channels]
}

/// Follows a processing plan with the studio's simple processors: input, output,
/// gain (from the `gain` setting) and mixer (summing its inputs).
fn run_plan(dag: &DAGProcessor, plan: &ProcessPlan, input: &Vec<Vec<f32>>) -> Vec<Vec<f32>> {
    let channels = dag.channels();
    let frames = dag.block_size();
    let nodes: Vec<Node> = dag.get_nodes().into_iter().cloned().collect();
    let mut outputs: HashMap<usize, Vec<Vec<f32>>> = HashMap::new();
    for step in &plan.steps {
        match step {
            NodeStep::Silence { index } => {
                outputs.insert(*index, block(channels, frames, 0.0));
            }
            NodeStep::PassThrough { index, source } => {
                let out = source
                    .and_then(|s| outputs.get(&s).cloned())
                    .unwrap_or_else(|| block(channels, frames, 0.0));
                outputs.insert(*index, out);
            }
            NodeStep::Run { index, takes_block, inputs, .. } => {
                let mut ins: Vec<Vec<Vec<f32>>> = Vec::new();
                if *takes_block {
                    ins.push(input.clone());
                } else {
                    for p in inputs {
                        let gain = f32::from_bits(p.gain);
                        let mut b = outputs.get(&p.source).cloned().unwrap_or_else(|| block(channels, frames, 0.0));
                        if (gain - 1.0).abs() > f32::EPSILON {
                            for ch in b.iter_mut() {
                                for s in ch.iter_mut() {
                                    *s *= gain;
                                }
                            }
                        }
                        ins.push(b);
                    }
                }
                let node = &nodes[*index];
                let out = match node.node_type {
                    NodeType::Mix => {
                        let mut o = block(channels, frames, 0.0);
                        for b in &ins {
                            for ch in 0..channels {
                                for f in 0..frames {
                                    o[ch][f] += b[ch][f];
                                }
                            }
                        }
                        o
                    }
                    NodeType::Gain => {
                        let g = node.config.get("gain").and_then(|v| v.as_f64()).unwrap_or(1.0) as f32;
                        let mut o = ins.first().cloned().unwrap_or_else(|| block(channels, frames, 0.0));
                        for ch in o.iter_mut() {
                            for s in ch.iter_mut() {
                                *s *= g;
                            }
                        }
                        o
                    }
                    _ => ins.first().cloned().unwrap_or_else(|| block(channels, frames, 0.0)),
                };
                outputs.insert(*index, out);
            }
        }
    }
    let out_index = plan.output.clone().unwrap();
    outputs.get(&out_index).cloned().unwrap()
}

fn empty_config() -> serde_json::Value {
    serde_json::Value::Object(serde_json::Map::new())
}

fn config_with(key: &str, value: serde_json::Value) -> serde_json::Value {
    let mut m = serde_json::Map::new();
    m.insert(key.to_string(), value);
    serde_json::Value::Object(m)
}

#[test]
fn test_topological_sort_simple() {
    let mut graph: DiGraph<Node, Edge> = DiGraph::new();
    let a = graph.add_node(plain_node("A"));
    let b = graph.add_node(plain_node("B"));
    let c = graph.add_node(plain_node("C"));

    graph.add_edge(a, b, Edge::new(1.0f32.to_bits()));
    graph.add_edge(b, c, Edge::new(1.0f32.to_bits()));

    let mut sorter = TopologicalSorter::new();
    let order = sorter.sort(&graph).unwrap();

    assert_eq!(order.len(), 3);
    assert_eq!(order[0], a.index());
    assert_eq!(order[1], b.index());
    assert_eq!(order[2], c.index());
}

#[test]
fn test_topological_sort_cycle() {
    let mut graph: DiGraph<Node, Edge> = DiGraph::new();
    let a = graph.add_node(plain_node("A"));
    let b = graph.add_node(plain_node("B"));

    graph.add_edge(a, b, Edge::new(1.0f32.to_bits()));
    graph.add_edge(b, a, Edge::new(1.0f32.to_bits()));

    let mut sorter = TopologicalSorter::new();
    let result = sorter.sort(&graph);

    assert!(result.is_err());
    assert!(result.unwrap_err().contains("Cycle detected"));
}

#[test]
fn test_dirty_flag() {
    let mut sorter = TopologicalSorter::new();
    assert!(sorter.is_dirty());

    let mut graph: DiGraph<Node, Edge> = DiGraph::new();
    let a = graph.add_node(plain_node("A"));
    let b = graph.add_node(plain_node("B"));
    graph.add_edge(a, b, Edge::new(1.0f32.to_bits()));

    let _ = sorter.sort(&graph);
    assert!(!sorter.is_dirty());

    sorter.mark_dirty();
    assert!(sorter.is_dirty());
}

#[test]
fn test_simple_signal_chain() {
    let mut dag = DAGProcessor::new(2, 256);

    let input_id = dag.add_node(NodeType::Input, "Input".to_string(), pos(0.0, 0.0), empty_config());
    let gain_id = dag.add_node(
        NodeType::Gain,
        "Gain".to_string(),
        pos(100.0, 0.0),
        config_with("gain", serde_json::Value::from(0.5)),
    );
    let output_id = dag.add_node(NodeType::Output, "Output".to_string(), pos(200.0, 0.0), empty_config());

    let input_out = dag.get_node(input_id).unwrap().output_ports[0].id;
    let gain_in = dag.get_node(gain_id).unwrap().input_ports[0].id;
    let gain_out = dag.get_node(gain_id).unwrap().output_ports[0].id;
    let output_in = dag.get_node(output_id).unwrap().input_ports[0].id;

    dag.connect(input_id, input_out, gain_id, gain_in, 1.0f32.to_bits()).unwrap();
    dag.connect(gain_id, gain_out, output_id, output_in, 1.0f32.to_bits()).unwrap();

    let input = block(2, 256, 1.0);
    let plan = dag.process().unwrap();
    let output = run_plan(&dag, &plan, &input);

    for ch in 0..2 {
        for frame in 0..256 {
            assert!((output[ch][frame] - 0.5).abs() < 0.0001);
        }
    }
}

#[test]
fn test_mix_node() {
    let mut dag = DAGProcessor::new(2, 256);

    let input1_id = dag.add_node(NodeType::Input, "Input 1".to_string(), pos(0.0, 0.0), empty_config());
    let input2_id = dag.add_node(NodeType::Input, "Input 2".to_string(), pos(0.0, 100.0), empty_config());
    let mix_id = dag.add_node(
        NodeType::Mix,
        "Mixer".to_string(),
        pos(100.0, 50.0),
        config_with("num_inputs", serde_json::Value::from(2u64)),
    );
    let output_id = dag.add_node(NodeType::Output, "Output".to_string(), pos(200.0, 50.0), empty_config());

    let in1_out = dag.get_node(input1_id).unwrap().output_ports[0].id;
    let in2_out = dag.get_node(input2_id).unwrap().output_ports[0].id;
    let mix_in0 = dag.get_node(mix_id).unwrap().input_ports[0].id;
    let mix_in1 = dag.get_node(mix_id).unwrap().input_ports[1].id;
    let mix_out = dag.get_node(mix_id).unwrap().output_ports[0].id;
    let output_in = dag.get_node(output_id).unwrap().input_ports[0].id;

    dag.connect(input1_id, in1_out, mix_id, mix_in0, 1.0f32.to_bits()).unwrap();
    dag.connect(input2_id, in2_out, mix_id, mix_in1, 1.0f32.to_bits()).unwrap();
    dag.connect(mix_id, mix_out, output_id, output_in, 1.0f32.to_bits()).unwrap();

    let input = block(2, 256, 0.5);
    let plan = dag.process().unwrap();
    let output = run_plan(&dag, &plan, &input);

    for ch in 0..2 {
        for frame in 0..256 {
            assert!((output[ch][frame] - 1.0).abs() < 0.0001);
        }
    }
}

#[test]
fn mixer_gets_one_port_per_configured_input() {
    let mut dag = DAGProcessor::new(2, 64);
    let mix_id = dag.add_node(
        NodeType::Mix,
        "Mixer".to_string(),
        pos(0.0, 0.0),
        config_with("num_inputs", serde_json::Value::from(4u64)),
    );
    let node = dag.get_node(mix_id).unwrap();
    assert_eq!(node.input_ports.len(), 4);
    assert_eq!(node.output_ports.len(), 1);
    assert_eq!(node.input_ports[2].channel, 2);
    assert_eq!(node.input_ports[0].name, "Input 1");
    assert_eq!(node.input_ports[3].name, "Input 4");

    let default_mix = dag.add_node(NodeType::Mix, "Mixer 2".to_string(), pos(0.0, 0.0), empty_config());
    assert_eq!(dag.get_node(default_mix).unwrap().input_ports.len(), 2);
}

#[test]
fn input_and_output_nodes_have_one_side_only() {
    let mut dag = DAGProcessor::new(2, 64);
    let i = dag.add_node(NodeType::Input, "In".to_string(), pos(0.0, 0.0), empty_config());
    let o = dag.add_node(NodeType::Output, "Out".to_string(), pos(0.0, 0.0), empty_config());
    assert_eq!(dag.get_node(i).unwrap().input_ports.len(), 0);
    assert_eq!(dag.get_node(i).unwrap().output_ports.len(), 1);
    assert_eq!(dag.get_node(o).unwrap().input_ports.len(), 1);
    assert_eq!(dag.get_node(o).unwrap().output_ports.len(), 0);
    assert_eq!(dag.get_node(i).unwrap().output_ports[0].name, "Output");
    assert_eq!(dag.get_node(o).unwrap().input_ports[0].name, "Input");
}

#[test]
fn connect_reports_each_missing_part() {
    let mut dag = DAGProcessor::new(2, 64);
    let a = dag.add_node(NodeType::Input, "In".to_string(), pos(0.0, 0.0), empty_config());
    let b = dag.add_node(NodeType::Output, "Out".to_string(), pos(0.0, 0.0), empty_config());
    let a_out = dag.get_node(a).unwrap().output_ports[0].id;
    let b_in = dag.get_node(b).unwrap().input_ports[0].id;

    let e = dag.connect(12345, a_out, b, b_in, 0).unwrap_err();
    assert!(e.starts_with("Source node "));
    assert!(e.ends_with(" not found"));
    let e = dag.connect(a, a_out, 999, b_in, 0).unwrap_err();
    assert!(e.starts_with("Target node "));
    let e = dag.connect(a, 7, b, b_in, 0).unwrap_err();
    assert!(e.starts_with("Source port "));
    let e = dag.connect(a, a_out, b, 7, 0).unwrap_err();
    assert!(e.starts_with("Target port "));
    assert_eq!(dag.get_connections().len(), 0);

    let cid = dag.connect(a, a_out, b, b_in, 1.0f32.to_bits()).unwrap();
    assert_eq!(dag.get_connections().len(), 1);
    assert_eq!(dag.get_connections()[0].id, cid);
    assert_eq!(dag.get_connections()[0].source_node, a);
    assert_eq!(dag.get_connections()[0].target_port, b_in);
}

#[test]
fn disconnect_removes_the_connection() {
    let mut dag = DAGProcessor::new(2, 64);
    let a = dag.add_node(NodeType::Input, "In".to_string(), pos(0.0, 0.0), empty_config());
    let b = dag.add_node(NodeType::Output, "Out".to_string(), pos(0.0, 0.0), empty_config());
    let a_out = dag.get_node(a).unwrap().output_ports[0].id;
    let b_in = dag.get_node(b).unwrap().input_ports[0].id;
    let cid = dag.connect(a, a_out, b, b_in, 1.0f32.to_bits()).unwrap();
    assert_eq!(dag.edge_count(), 1);
    assert!(dag.disconnect(cid).is_ok());
    assert_eq!(dag.get_connections().len(), 0);
    assert_eq!(dag.edge_count(), 0);
    let e = dag.disconnect(cid).unwrap_err();
    assert!(e.starts_with("Connection "));
    assert!(e.ends_with(" not found"));
}

#[test]
fn remove_node_drops_its_connections() {
    let mut dag = DAGProcessor::new(2, 64);
    let a = dag.add_node(NodeType::Input, "In".to_string(), pos(0.0, 0.0), empty_config());
    let g = dag.add_node(NodeType::Gain, "G".to_string(), pos(0.0, 0.0), empty_config());
    let b = dag.add_node(NodeType::Output, "Out".to_string(), pos(0.0, 0.0), empty_config());
    let a_out = dag.get_node(a).unwrap().output_ports[0].id;
    let g_in = dag.get_node(g).unwrap().input_ports[0].id;
    let g_out = dag.get_node(g).unwrap().output_ports[0].id;
    let b_in = dag.get_node(b).unwrap().input_ports[0].id;
    dag.connect(a, a_out, g, g_in, 1.0f32.to_bits()).unwrap();
    dag.connect(g, g_out, b, b_in, 1.0f32.to_bits()).unwrap();

    let removed = dag.remove_node(g).unwrap();
    assert_eq!(removed.id, g);
    assert_eq!(dag.get_connections().len(), 0);
    assert!(dag.get_node(g).is_none());
    assert_eq!(dag.get_nodes().len(), 2);
    assert!(dag.get_node(a).is_some());
    // the graph moves its last node into the freed slot, while the id map keeps the
    // node's old index, so the moved node is no longer found by id
    assert!(dag.get_node(b).is_none());
    assert!(dag.remove_node(g).is_none());
}

#[test]
fn removing_the_last_node_keeps_the_others() {
    let mut dag = DAGProcessor::new(2, 64);
    let a = dag.add_node(NodeType::Input, "In".to_string(), pos(0.0, 0.0), empty_config());
    let b = dag.add_node(NodeType::Output, "Out".to_string(), pos(0.0, 0.0), empty_config());
    assert!(dag.remove_node(b).is_some());
    assert_eq!(dag.get_node(a).unwrap().name, "In");
    assert_eq!(dag.validate().unwrap_err(), "No output node found");
}

#[test]
fn cycle_is_reported_by_process_and_validate() {
    let mut dag = DAGProcessor::new(2, 64);
    let a = dag.add_node(NodeType::Gain, "A".to_string(), pos(0.0, 0.0), empty_config());
    let b = dag.add_node(NodeType::Gain, "B".to_string(), pos(0.0, 0.0), empty_config());
    let a_in = dag.get_node(a).unwrap().input_ports[0].id;
    let a_out = dag.get_node(a).unwrap().output_ports[0].id;
    let b_in = dag.get_node(b).unwrap().input_ports[0].id;
    let b_out = dag.get_node(b).unwrap().output_ports[0].id;
    dag.connect(a, a_out, b, b_in, 1.0f32.to_bits()).unwrap();
    dag.connect(b, b_out, a, a_in, 1.0f32.to_bits()).unwrap();
    assert!(dag.process().err().unwrap().starts_with("Cycle detected"));
    assert!(dag.validate().unwrap_err().starts_with("Cycle detected"));
}

#[test]
fn validate_needs_input_and_output() {
    let mut dag = DAGProcessor::new(2, 64);
    assert_eq!(dag.validate().unwrap_err(), "No input node found");
    dag.add_node(NodeType::Input, "In".to_string(), pos(0.0, 0.0), empty_config());
    assert_eq!(dag.validate().unwrap_err(), "No output node found");
    dag.add_node(NodeType::Output, "Out".to_string(), pos(0.0, 0.0), empty_config());
    assert!(dag.validate().is_ok());
}

#[test]
fn plan_without_output_node_ends_in_error() {
    let mut dag = DAGProcessor::new(2, 64);
    dag.add_node(NodeType::Input, "In".to_string(), pos(0.0, 0.0), empty_config());
    let plan = dag.process().unwrap();
    assert_eq!(plan.steps.len(), 1);
    assert_eq!(plan.output.unwrap_err(), "No output node found in graph");
}

#[test]
fn disabled_and_bypassed_nodes_get_their_steps() {
    let mut dag = DAGProcessor::new(2, 8);
    let a = dag.add_node(NodeType::Input, "In".to_string(), pos(0.0, 0.0), empty_config());
    let g = dag.add_node(NodeType::Gain, "G".to_string(), pos(0.0, 0.0), config_with("gain", serde_json::Value::from(0.25)));
    let b = dag.add_node(NodeType::Output, "Out".to_string(), pos(0.0, 0.0), empty_config());
    let a_out = dag.get_node(a).unwrap().output_ports[0].id;
    let g_in = dag.get_node(g).unwrap().input_ports[0].id;
    let g_out = dag.get_node(g).unwrap().output_ports[0].id;
    let b_in = dag.get_node(b).unwrap().input_ports[0].id;
    dag.connect(a, a_out, g, g_in, 1.0f32.to_bits()).unwrap();
    dag.connect(g, g_out, b, b_in, 1.0f32.to_bits()).unwrap();

    dag.get_node_mut(g).unwrap().bypassed = true;
    let plan = dag.process().unwrap();
    let out = run_plan(&dag, &plan, &block(2, 8, 1.0));
    assert_eq!(out[0][0], 1.0);

    dag.get_node_mut(g).unwrap().enabled = false;
    let plan = dag.process().unwrap();
    let out = run_plan(&dag, &plan, &block(2, 8, 1.0));
    assert_eq!(out[1][7], 0.0);
}

#[test]
fn clear_empties_the_graph() {
    let mut dag = DAGProcessor::new(2, 64);
    dag.add_node(NodeType::Input, "In".to_string(), pos(0.0, 0.0), empty_config());
    dag.clear();
    assert_eq!(dag.get_nodes().len(), 0);
    assert_eq!(dag.validate().unwrap_err(), "No input node found");
    assert_eq!(dag.channels(), 2);
    assert_eq!(dag.block_size(), 64);
}

#[test]
fn sorter_maps_ids_both_ways() {
    let mut sorter = TopologicalSorter::new();
    sorter.add_node(77, 3);
    assert_eq!(sorter.get_node_index(77), Some(3));
    assert_eq!(sorter.get_node_id(3), Some(77));
    assert_eq!(sorter.get_node_id(4), None);
    sorter.remove_node(77);
    assert_eq!(sorter.get_node_index(77), None);
    sorter.clear();
    assert!(sorter.is_dirty());
    assert_eq!(sorter.get_execution_order().len(), 0);
}

#[test]
fn cycle_error_names_node_and_path() {
    let mut graph: DiGraph<Node, Edge> = DiGraph::new();
    let a = graph.add_node(plain_node("A"));
    let b = graph.add_node(plain_node("B"));
    graph.add_edge(a, b, Edge::new(0));
    graph.add_edge(b, a, Edge::new(0));
    let msg = TopologicalSorter::new().sort(&graph).unwrap_err();
    let from_a = "Cycle detected in graph at node NodeIndex(0). Cycle path: [NodeIndex(0), NodeIndex(1), NodeIndex(0)]";
    let from_b = "Cycle detected in graph at node NodeIndex(1). Cycle path: [NodeIndex(1), NodeIndex(0), NodeIndex(1)]";
    assert!(msg == from_a || msg == from_b, "{}", msg);
}

#[test]
fn plan_runs_sources_before_their_targets() {
    let mut dag = DAGProcessor::new(2, 8);
    let o = dag.add_node(NodeType::Output, "Out".to_string(), pos(0.0, 0.0), empty_config());
    let g = dag.add_node(NodeType::Gain, "G".to_string(), pos(0.0, 0.0), empty_config());
    let i = dag.add_node(NodeType::Input, "In".to_string(), pos(0.0, 0.0), empty_config());
    let i_out = dag.get_node(i).unwrap().output_ports[0].id;
    let g_in = dag.get_node(g).unwrap().input_ports[0].id;
    let g_out = dag.get_node(g).unwrap().output_ports[0].id;
    let o_in = dag.get_node(o).unwrap().input_ports[0].id;
    dag.connect(g, g_out, o, o_in, 2.0f32.to_bits()).unwrap();
    dag.connect(i, i_out, g, g_in, 1.0f32.to_bits()).unwrap();
    assert_eq!(dag.edge_count(), 2);
    let plan = dag.process().unwrap();
    let index_of = |k: usize| -> usize {
        plan.steps
            .iter()
            .position(|s| match s {
                NodeStep::Run { index, .. } | NodeStep::Silence { index } | NodeStep::PassThrough { index, .. } => {
                    *index == k
                }
            })
            .unwrap()
    };
    // node indices follow insertion: output 0, gain 1, input 2
    assert!(index_of(2) < index_of(1));
    assert!(index_of(1) < index_of(0));
    match &plan.steps[index_of(0)] {
        NodeStep::Run { inputs, takes_block, .. } => {
            assert!(!takes_block);
            assert_eq!(inputs.len(), 1);
            assert_eq!(inputs[0].source, 1);
            assert_eq!(inputs[0].gain, 2.0f32.to_bits());
        }
        _ => panic!("expected a processing step"),
    }
    assert_eq!(plan.output.clone().unwrap(), 0);
}

#[test]
fn moved_node_is_not_found_in_graph() {
    let mut dag = DAGProcessor::new(2, 8);
    let a = dag.add_node(NodeType::Input, "In".to_string(), pos(0.0, 0.0), empty_config());
    let g = dag.add_node(NodeType::Gain, "G".to_string(), pos(0.0, 0.0), empty_config());
    let b = dag.add_node(NodeType::Output, "Out".to_string(), pos(0.0, 0.0), empty_config());
    let a_out = dag.get_node(a).unwrap().output_ports[0].id;
    let b_in = dag.get_node(b).unwrap().input_ports[0].id;
    dag.remove_node(g);
    // the output node now sits at the freed index while its id still maps to the old one
    assert_eq!(dag.connect(a, a_out, b, b_in, 0).unwrap_err(), "Target node not found in graph");
    assert_eq!(dag.connect(b, a_out, a, b_in, 0).unwrap_err(), "Source node not found in graph");
}

#[test]
fn self_loop_is_a_cycle() {
    let mut graph: DiGraph<Node, Edge> = DiGraph::new();
    let a = graph.add_node(plain_node("A"));
    graph.add_node(plain_node("B"));
    graph.add_edge(a, a, Edge::new(0));
    let msg = TopologicalSorter::new().sort(&graph).unwrap_err();
    assert_eq!(msg, "Cycle detected in graph at node NodeIndex(0). Cycle path: [NodeIndex(0), NodeIndex(0)]");
}

#[test]
fn newest_cable_comes_first_in_a_nodes_inputs() {
    let mut dag = DAGProcessor::new(2, 8);
    let a = dag.add_node(NodeType::Gain, "A".to_string(), pos(0.0, 0.0), empty_config());
    let b = dag.add_node(NodeType::Gain, "B".to_string(), pos(0.0, 0.0), empty_config());
    let m = dag.add_node(NodeType::Gain, "M".to_string(), pos(0.0, 0.0), empty_config());
    let a_out = dag.get_node(a).unwrap().output_ports[0].id;
    let b_out = dag.get_node(b).unwrap().output_ports[0].id;
    let m_in = dag.get_node(m).unwrap().input_ports[0].id;
    dag.connect(a, a_out, m, m_in, 1.0f32.to_bits()).unwrap();
    dag.connect(b, b_out, m, m_in, 0.5f32.to_bits()).unwrap();

    let plan = dag.process().unwrap();
    let inputs_of_m = plan
        .steps
        .iter()
        .find_map(|s| match s {
            NodeStep::Run { index: 2, inputs, .. } => Some(inputs.iter().map(|p| (p.edge, p.source)).collect::<Vec<_>>()),
            _ => None,
        })
        .unwrap();
    assert_eq!(inputs_of_m, vec![(1, 1), (0, 0)]);

    dag.get_node_mut(m).unwrap().bypassed = true;
    let plan = dag.process().unwrap();
    let passed = plan
        .steps
        .iter()
        .find_map(|s| match s {
            NodeStep::PassThrough { index: 2, source } => Some(*source),
            _ => None,
        })
        .unwrap();
    assert_eq!(passed, Some(1));
}
