use vstd::prelude::*;
use crate::dag::node::{Node, Connection};

verus! {

/// Capacity of the queue of parameter changes bound for the audio thread.
pub const PARAM_QUEUE_CAPACITY: usize = 8192;

/// Capacity of the queue of graph edits bound for the audio thread.
pub const GRAPH_CMD_QUEUE_CAPACITY: usize = 1024;

/// The graph as published to the audio thread: its nodes and connections.
#[derive(Debug, Clone)]
pub struct DagSnapshot {
    pub nodes: Vec<Node>,
    pub connections: Vec<Connection>,
}

impl Default for DagSnapshot {
    fn default() -> (s: Self)
        ensures
            s.nodes@.len() == 0,
            s.connections@.len() == 0,
    {
        Self { nodes: Vec::new(), connections: Vec::new() }
    }
}

/// A published value that readers load and a writer replaces whole: a load sees the value
/// last stored, and a swap hands back the value it replaces. The value lives in its own
/// heap allocation, which a store replaces.
pub struct RcuSnapshot<T> {
    current: Box<T>,
}

impl<T> View for RcuSnapshot<T> {
    type V = T;

    closed spec fn view(&self) -> T {
        *self.current
    }
}

impl<T> RcuSnapshot<T> {
    pub fn new(initial: T) -> (s: Self)
        ensures
            s@ == initial,
    {
        RcuSnapshot { current: Box::new(initial) }
    }

    /// The value stored last.
    pub fn load(&self) -> (r: &T)
        ensures
            *r == self@,
    {
        &self.current
    }

    /// Publishes a new value in place of the current one, which is dropped.
    pub fn store(&mut self, new_value: T)
        ensures
            final(self)@ == new_value,
    {
        self.current = Box::new(new_value);
    }

    /// Publishes a new value and hands back the one it replaces.
    pub fn swap(&mut self, new_value: T) -> (r: T)
        ensures
            r == old(self)@,
            final(self)@ == new_value,
    {
        let mut other = Box::new(new_value);
        std::mem::swap(&mut self.current, &mut other);
        *other
    }
}

} // verus!
