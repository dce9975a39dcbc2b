//! Nodes of a render graph.
use vstd::prelude::*;

verus! {

/// A pass of a render graph, named by its label, reading its input
/// resources and writing its output resources.
pub trait Node {
    /// The node's name; "Unnamed Node" unless the node says otherwise.
    fn label(&self) -> (r: String)
        default_ensures
            r@ == "Unnamed Node"@,
    {
        "Unnamed Node".to_owned()
    }

    /// Records the node's work; nothing unless the node says otherwise.
    fn run(&self) {
    }

    /// The handles of the resources the node reads; none unless the node
    /// says otherwise.
    fn inputs(&self) -> (r: Vec<String>)
        default_ensures
            r@.len() == 0,
    {
        Vec::new()
    }

    /// The handles of the resources the node writes; none unless the node
    /// says otherwise.
    fn outputs(&self) -> (r: Vec<String>)
        default_ensures
            r@.len() == 0,
    {
        Vec::new()
    }
}

} // verus!
