//! Nodes of a power grid and the wires between them.

use vstd::prelude::*;
use vstd::string::StringExecFns;

verus! {

/// A node of the grid. Its connections name other nodes by the places they
/// have wherever the caller keeps them.
pub struct Node {
    pub id: String,
    pub power: i32,
    pub connections: Vec<usize>,
}

/// A wire from one node to another.
pub struct Wire {
    pub source: Node,
    pub sink: Node,
}

impl Node {
    /// A node without connections.
    pub fn new(id: &str, power: i32) -> (node: Self)
        ensures
            node.id@ == id@,
            node.power == power,
            node.connections@ == Seq::<usize>::empty(),
    {
        Node { id: String::from_str(id), power, connections: Vec::new() }
    }

    /// Connects the node to another.
    pub fn connect(&mut self, other: usize)
        ensures
            final(self).id == old(self).id,
            final(self).power == old(self).power,
            final(self).connections@ == old(self).connections@.push(other),
    {
        self.connections.push(other);
    }
}

} // verus!
