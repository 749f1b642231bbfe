use vstd::prelude::*;
use crate::shared::ids::new_uuid;

verus! {

/// A JSON document, carried through the patchbay unread.
#[verifier::external_type_specification]
#[verifier::external_body]
pub struct ExJsonValue(serde_json::Value);

/// `serde_json::Value`'s derived `clone` (which the derived `Clone` of `Node` calls)
/// copies the whole document; the copy is claimed equal to the value it was made from.
pub assume_specification[ <serde_json::Value as Clone>::clone ](v: &serde_json::Value) -> (r: serde_json::Value)
    ensures
        r == *v,
;

#[derive(Debug, Clone, Copy, PartialEq, Eq, Structural)]
pub enum NodeType {
    Input,
    Output,
    Mix,
    Gain,
    Eq,
    Compressor,
    Limiter,
    Vst3,
}

#[derive(Debug, Clone, Copy, PartialEq, Eq, Structural)]
pub enum PortType {
    Input,
    Output,
}

/// A connection point of a node. Identifiers are UUIDs held as their 128-bit values.
#[derive(Debug, Clone)]
pub struct Port {
    pub id: u128,
    pub node_id: u128,
    pub port_type: PortType,
    pub channel: usize,
    pub name: String,
}

impl Port {
    /// A port with a fresh random identifier.
    pub fn new(node_id: u128, port_type: PortType, channel: usize, name: String) -> (p: Self)
        ensures
            p.node_id == node_id,
            p.port_type == port_type,
            p.channel == channel,
            p.name == name,
    {
        Self { id: new_uuid(), node_id, port_type, channel, name }
    }
}

/// Where a node sits on the patchbay canvas; the coordinates are `f32` values held as
/// their IEEE-754 bit patterns.
#[derive(Debug, Clone, Copy, PartialEq, Eq, Structural)]
pub struct Position {
    pub x: u32,
    pub y: u32,
}

/// A processing node of the signal graph.
#[derive(Debug, Clone)]
pub struct Node {
    pub id: u128,
    pub node_type: NodeType,
    pub name: String,
    pub position: Position,
    pub input_ports: Vec<Port>,
    pub output_ports: Vec<Port>,
    pub config: serde_json::Value,
    pub enabled: bool,
    pub bypassed: bool,
}

impl Node {
    /// A node with a fresh random identifier, enabled and not bypassed.
    pub fn new(
        node_type: NodeType,
        name: String,
        position: Position,
        input_ports: Vec<Port>,
        output_ports: Vec<Port>,
        config: serde_json::Value,
    ) -> (n: Self)
        ensures
            n.node_type == node_type,
            n.name == name,
            n.position == position,
            n.input_ports == input_ports,
            n.output_ports == output_ports,
            n.config == config,
            n.enabled,
            !n.bypassed,
    {
        let id = new_uuid();
        Self {
            id,
            node_type,
            name,
            position,
            input_ports,
            output_ports,
            config,
            enabled: true,
            bypassed: false,
        }
    }

    /// A node with the given identifier, enabled and not bypassed.
    pub fn with_id(
        id: u128,
        node_type: NodeType,
        name: String,
        position: Position,
        input_ports: Vec<Port>,
        output_ports: Vec<Port>,
        config: serde_json::Value,
    ) -> (n: Self)
        ensures
            n == (Node {
                id,
                node_type,
                name,
                position,
                input_ports,
                output_ports,
                config,
                enabled: true,
                bypassed: false,
            }),
    {
        Self {
            id,
            node_type,
            name,
            position,
            input_ports,
            output_ports,
            config,
            enabled: true,
            bypassed: false,
        }
    }
}

/// A patch cable between an output port and an input port; `gain` is an `f32`'s bits.
#[derive(Debug, Clone, Copy, PartialEq, Eq, Structural)]
pub struct Connection {
    pub id: u128,
    pub source_port: u128,
    pub target_port: u128,
    pub source_node: u128,
    pub target_node: u128,
    pub gain: u32,
}

impl Connection {
    /// A connection with a fresh random identifier.
    pub fn new(source_port: u128, target_port: u128, source_node: u128, target_node: u128, gain: u32) -> (c: Self)
        ensures
            c.source_port == source_port,
            c.target_port == target_port,
            c.source_node == source_node,
            c.target_node == target_node,
            c.gain == gain,
    {
        Self { id: new_uuid(), source_port, target_port, source_node, target_node, gain }
    }
}

/// The weight of a graph edge: the connection's gain, an `f32`'s bits.
#[derive(Debug, Clone, Copy, PartialEq, Eq, Structural)]
pub struct Edge {
    pub gain: u32,
}

impl Edge {
    pub fn new(gain: u32) -> (e: Self)
        ensures
            e.gain == gain,
    {
        Self { gain }
    }
}

} // verus!
