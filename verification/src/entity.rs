//! Indices into the index spaces of a WebAssembly module.

use cranelift_entity::EntityRef;
use vstd::prelude::*;

verus! {

/// An index into one of the index spaces of a module.
pub trait EntityIndex: Copy {
    /// The position of the entity in its index space.
    spec fn number(self) -> u32;

    /// Returns the position of the entity in its index space.
    fn as_u32(self) -> (number: u32)
        ensures
            number == self.number(),
    ;
}

/// Index of a function, imported or defined, in its module.
#[derive(Clone, Copy, Debug, PartialEq, Eq, PartialOrd, Ord, Hash)]
pub struct FuncIndex(u32);

/// Index of a global, imported or defined, in its module.
#[derive(Clone, Copy, Debug, PartialEq, Eq, PartialOrd, Ord, Hash)]
pub struct GlobalIndex(u32);

impl EntityIndex for FuncIndex {
    closed spec fn number(self) -> u32 {
        self.0
    }

    fn as_u32(self) -> (number: u32) {
        self.0
    }
}

impl EntityIndex for GlobalIndex {
    closed spec fn number(self) -> u32 {
        self.0
    }

    fn as_u32(self) -> (number: u32) {
        self.0
    }
}

impl EntityRef for FuncIndex {
    /// The index with the given position; the largest `u32` is reserved and names no function.
    fn new(index: usize) -> (entity: FuncIndex)
        requires
            index < u32::MAX,
        ensures
            entity.number() == index,
    {
        FuncIndex(index as u32)
    }

    fn index(self) -> (index: usize)
        ensures
            index == self.number(),
    {
        self.0 as usize
    }
}

impl EntityRef for GlobalIndex {
    /// The index with the given position; the largest `u32` is reserved and names no global.
    fn new(index: usize) -> (entity: GlobalIndex)
        requires
            index < u32::MAX,
        ensures
            entity.number() == index,
    {
        GlobalIndex(index as u32)
    }

    fn index(self) -> (index: usize)
        ensures
            index == self.number(),
    {
        self.0 as usize
    }
}

} // verus!
