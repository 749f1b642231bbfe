use broadcast_daw_studio::dag::{DAGProcessor, NodeType, Position};
use broadcast_daw_studio::shared::rt_params::{DagSnapshot, RcuSnapshot};

#[test]
fn snapshot_load_store_swap() {
    let mut s = RcuSnapshot::new(5u32);
    assert_eq!(*s.load(), 5);
    s.store(7);
    assert_eq!(*s.load(), 7);
    assert_eq!(s.swap(9), 7);
    assert_eq!(*s.load(), 9);
}

#[test]
fn empty_dag_snapshot() {
    let d = DagSnapshot::default();
    assert!(d.nodes.is_empty());
    assert!(d.connections.is_empty());
}

#[test]
fn ids_print_hyphenated_in_errors() {
    let mut dag = DAGProcessor::new(2, 64);
    let id: u128 = 0x0123456789abcdef0011223344556677;
    let msg = dag.disconnect(id).unwrap_err();
    assert_eq!(msg, "Connection 01234567-89ab-cdef-0011-223344556677 not found");
}

#[test]
fn fresh_node_ids_differ() {
    let mut dag = DAGProcessor::new(2, 64);
    let p = Position { x: 0, y: 0 };
    let a = dag.add_node(NodeType::Gain, "a".to_string(), p, serde_json::Value::Null);
    let b = dag.add_node(NodeType::Gain, "b".to_string(), p, serde_json::Value::Null);
    assert_ne!(a, b);
    assert_eq!(dag.get_node(a).unwrap().id, a);
    assert_eq!(dag.get_node(a).unwrap().input_ports[0].node_id, a);
}
