//! The number of the current node.

use vstd::prelude::*;

use crate::addr::NodeNo;

verus! {

/// The raw node number in use until another one is set.
pub const DEFAULT_NODE_NO: u16 = 65535;

/// Holds the raw number of the current node.
#[derive(Debug, Clone, Copy)]
pub struct NodeCell {
    pub raw: u16,
}

impl Default for NodeCell {
    /// The value `65535` is used until [`set_node_no`] is called.
    fn default() -> (cell: NodeCell)
        ensures
            cell.raw == DEFAULT_NODE_NO,
    {
        NodeCell { raw: DEFAULT_NODE_NO }
    }
}

/// Returns the current `node_no`, `None` if it has been set to zero.
pub fn node_no(cell: &NodeCell) -> (res: Option<NodeNo>)
    ensures
        res is None <==> cell.raw == 0,
        res matches Some(no) ==> no.bits() == cell.raw,
{
    NodeNo::from_bits(cell.raw)
}

/// Sets the current `node_no`.
/// The value `65535` is used if isn't called.
pub fn set_node_no(cell: &mut NodeCell, node_no: u16)
    ensures
        final(cell).raw == node_no,
{
    cell.raw = node_no;
}

// === Laws ===

/// The number that has been set is returned, the largest one if nothing has been set.
pub proof fn set_number_is_returned(
    fresh: NodeCell,
    first: Option<NodeNo>,
    cell: &mut NodeCell,
    raw: u16,
    after: Option<NodeNo>,
)
    requires
        call_ensures(<NodeCell as Default>::default, (), fresh),
        call_ensures(node_no, (&fresh,), first),
        call_ensures(set_node_no, (cell, raw), ()),
        call_ensures(node_no, (final(cell),), after),
    ensures
        first is Some && first->0.bits() == u16::MAX,
        after is None <==> raw == 0,
        after is Some ==> after->0.bits() == raw,
{
}

} // verus!
