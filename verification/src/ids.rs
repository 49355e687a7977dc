//! Typed indices into the tables of the intermediate representation.

use vstd::prelude::*;
use vstd::std_specs::ops::AddSpecImpl;

verus! {

/// Index of an attribute.
#[derive(Debug, Clone, Copy, PartialEq, Eq, Hash, PartialOrd, Ord, Structural)]
pub struct AttributeId(pub u16);

/// Index of an expression.
#[derive(Debug, Clone, Copy, PartialEq, Eq, Hash, PartialOrd, Ord, Structural)]
pub struct ExpressionId(pub u32);

impl AttributeId {
    /// The largest index an attribute can have.
    pub const MAX_INDEX: usize = 0xffff;

    /// The id with the raw value `raw`.
    pub fn from_raw_unchecked(raw: u16) -> (id: AttributeId)
        ensures
            id.0 == raw,
    {
        AttributeId(raw)
    }

    /// The id as a position.
    pub fn index(self) -> (index: usize)
        ensures
            index == self.0,
    {
        self.0 as usize
    }

    /// The id at position `index`.
    pub fn from_usize(index: usize) -> (id: AttributeId)
        requires
            index <= AttributeId::MAX_INDEX,
        ensures
            id.0 == index,
    {
        AttributeId(index as u16)
    }
}

impl core::ops::Add<usize> for AttributeId {
    type Output = AttributeId;

    fn add(self, other: usize) -> (sum: AttributeId) {
        AttributeId::from_usize(self.index() + other)
    }
}

impl AddSpecImpl<usize> for AttributeId {
    open spec fn obeys_add_spec() -> bool {
        true
    }

    open spec fn add_req(self, other: usize) -> bool {
        self.0 + other <= AttributeId::MAX_INDEX
    }

    open spec fn add_spec(self, other: usize) -> AttributeId {
        AttributeId((self.0 + other) as u16)
    }
}

} // verus!
