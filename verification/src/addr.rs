//! Addresses of objects, nodes and groups.

use vstd::prelude::*;

verus! {

/// The number of a local actor group. `u8::MAX` is reserved for null addresses.
pub type GroupNo = u8;

/// The number of a node, never zero.
#[derive(Debug, Clone, Copy, PartialEq, Eq, Structural, Hash)]
pub struct NodeNo {
    bits: u16,
}

impl NodeNo {
    /// The raw node number.
    pub closed spec fn bits(self) -> u16 {
        self.bits
    }

    #[verifier::type_invariant]
    closed spec fn nonzero(self) -> bool {
        self.bits != 0
    }

    /// Builds a node number out of its raw form, `None` for zero.
    pub fn from_bits(bits: u16) -> (res: Option<NodeNo>)
        ensures
            res is None <==> bits == 0,
            res matches Some(no) ==> no.bits() == bits,
    {
        if bits == 0 {
            None
        } else {
            Some(NodeNo { bits })
        }
    }

    /// Returns the raw node number.
    pub fn into_bits(self) -> (bits: u16)
        ensures
            bits == self.bits(),
            bits != 0,
    {
        proof {
            use_type_invariant(&self);
        }
        self.bits
    }
}

/// The raw form of an optional node number: zero stands for `None`.
pub open spec fn node_bits(node_no: Option<NodeNo>) -> u16 {
    match node_no {
        Some(no) => no.bits(),
        None => 0,
    }
}

/// The address of an object: an actor, a group or a remote handle.
#[derive(Debug, Clone, Copy, PartialEq, Eq, Structural, Hash)]
pub struct Addr {
    pub bits: u64,
}

impl Addr {
    /// The null address, no object ever has it.
    pub open spec fn spec_null() -> Addr {
        Addr { bits: 0 }
    }

    /// Returns the null address.
    #[verifier::when_used_as_spec(spec_null)]
    pub fn null() -> (addr: Addr)
        ensures
            addr == Addr::spec_null(),
    {
        Addr { bits: 0 }
    }

    /// Builds an address out of its raw form.
    pub fn from_bits(bits: u64) -> (addr: Addr)
        ensures
            addr.bits == bits,
    {
        Addr { bits }
    }

    /// Whether the object is on this node: there is no node number in the high
    /// bits.
    pub open spec fn spec_is_local(self) -> bool {
        self.bits < 0x1_0000_0000_0000
    }

    pub fn is_local(self) -> (res: bool)
        ensures
            res == self.spec_is_local(),
    {
        self.bits < 0x1_0000_0000_0000
    }

    /// Checks whether it is the null address.
    pub fn is_null(self) -> (res: bool)
        ensures
            res <==> self == Addr::spec_null(),
    {
        self.bits == 0
    }
}

// === Laws ===

/// A node number is restored from its raw form, only zero isn't a number.
pub proof fn node_numbers_are_restored(bits: u16, no: Option<NodeNo>, raw: u16)
    requires
        call_ensures(NodeNo::from_bits, (bits,), no),
        no is Some ==> call_ensures(NodeNo::into_bits, (no->0,), raw),
    ensures
        no is None <==> bits == 0,
        no is Some ==> raw == bits,
{
}

/// Raw forms of different optional numbers are different.
pub proof fn node_bits_are_unique(a: u16, b: u16, x: Option<NodeNo>, y: Option<NodeNo>)
    requires
        call_ensures(NodeNo::from_bits, (a,), x),
        call_ensures(NodeNo::from_bits, (b,), y),
    ensures
        node_bits(x) == a,
        node_bits(x) == node_bits(y) <==> a == b,
{
}

/// An address is local iff the highest two bytes, the number of a node, are zero.
/// The only null address has zero bits, so it's local.
pub proof fn addresses_are_classified(
    bits: u64,
    addr: Addr,
    null: Addr,
    local: bool,
    is_null: bool,
)
    requires
        call_ensures(Addr::from_bits, (bits,), addr),
        call_ensures(Addr::null, (), null),
        call_ensures(Addr::is_local, (addr,), local),
        call_ensures(Addr::is_null, (addr,), is_null),
    ensures
        addr.bits == bits,
        local <==> (bits >> 48) == 0,
        is_null <==> bits == 0,
        is_null <==> addr == null,
        is_null ==> local,
{
    assert(bits < 0x1_0000_0000_0000 <==> (bits >> 48) == 0) by (bit_vector);
}

} // verus!
