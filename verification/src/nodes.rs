//! The storage-provider node registry: an append-only indexed list of
//! provider records, unrelated to the file tree.

use vstd::prelude::*;

use crate::state::{Node, NodeV, State, StateV};

verus! {

/// The state with one node appended to the registry.
pub open spec fn push_node_model(s: StateV, ip: Seq<char>, address: Seq<char>) -> StateV {
    StateV { nodes: s.nodes.push(NodeV { ip, address }), ..s }
}

/// Registers a provider node at the end of the list.
pub fn push_node(state: &mut State, ip: String, address: String)
    requires
        old(state).wf(),
    ensures
        final(state).wf(),
        final(state)@ == push_node_model(old(state)@, ip@, address@),
{
    let ghost s0 = state@;
    state.nodes.push(Node { ip, address });
    proof {
        assert(state@ =~= push_node_model(s0, ip@, address@));
    }
}

/// The number of registered nodes.
pub fn get_node_size(state: &State) -> (n: u64)
    requires
        state.wf(),
    ensures
        n == state@.nodes.len(),
{
    state.nodes.len() as u64
}

/// The node at `index`, if the registry reaches that far.
pub fn get_node(state: &State, index: u64) -> (r: Option<&Node>)
    requires
        state.wf(),
    ensures
        match r {
            Some(n) => index < state@.nodes.len() && n@ == state@.nodes[index as int],
            None => index >= state@.nodes.len(),
        },
{
    if index < state.nodes.len() as u64 {
        let i = index as usize;
        Some(&state.nodes[i])
    } else {
        None
    }
}

} // verus!
