pub mod node;
pub mod store;
pub mod topo_sort;
pub mod graph;

pub use node::{NodeType, Port, PortType, Node, Connection, Position, Edge};
pub use topo_sort::TopologicalSorter;
pub use graph::{DAGProcessor, NodeStep, PlanInput, ProcessPlan};
