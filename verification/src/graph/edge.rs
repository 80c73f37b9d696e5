//! How graph objects turn into other graph objects.
use vstd::prelude::*;

verus! {

/// A marker trait that says some graph object can transition into a different graph object; it
/// is a one-way transition unless the other direction has been implemented too.
pub trait Edge<Graph> {
    /// The graph object this one turns into.
    type Result;
}

/// A resource that can be bound into a graph, giving back the node that refers to it.
pub trait Bind<Graph, Node> {
    /// Binds the resource into the graph.
    fn bind(self, graph: Graph) -> Node;
}

} // verus!
