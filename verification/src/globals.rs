//! The globals of a module.

use crate::entity::{EntityIndex, GlobalIndex};
use cranelift_entity::PrimaryMap;
use vstd::prelude::*;

verus! {

/// A WebAssembly number type.
#[derive(Clone, Copy, Debug, PartialEq, Eq, Hash, Structural)]
pub enum WasmType {
    I32,
    I64,
    F32,
    F64,
}

/// The declaration of a global.
#[derive(Clone, Copy, Debug, PartialEq, Eq, Hash, Structural)]
pub struct Global {
    /// The type of the value that the global holds.
    pub ty: WasmType,
    /// Whether the value may change.
    pub mutability: bool,
}

/// The globals of a module in the order of their indices, held in a
/// [`cranelift_entity::PrimaryMap`].
#[verifier::external_body]
#[derive(Debug)]
pub struct GlobalTable {
    map: PrimaryMap<GlobalIndex, Global>,
}

/// The values that the `PrimaryMap` of `table` holds, in the order of their keys.
pub uninterp spec fn declared_globals(table: GlobalTable) -> Seq<Global>;

impl View for GlobalTable {
    type V = Seq<Global>;

    open spec fn view(&self) -> Seq<Global> {
        declared_globals(*self)
    }
}

/// Calls `PrimaryMap::new`, which returns a map without entries.
#[verifier::external_body]
fn primary_map_new() -> (table: GlobalTable)
    ensures
        declared_globals(table) == Seq::<Global>::empty(),
{
    GlobalTable { map: PrimaryMap::new() }
}

/// Calls `PrimaryMap::len`, which returns the number of entries.
#[verifier::external_body]
fn primary_map_len(table: &GlobalTable) -> (len: usize)
    ensures
        len == declared_globals(*table).len(),
{
    table.map.len()
}

/// Calls `PrimaryMap::push`, which puts `global` behind the entries that the map holds and
/// returns the key that `EntityRef::new` makes of the number of those entries.
#[verifier::external_body]
fn primary_map_push(table: &mut GlobalTable, global: Global) -> (index: GlobalIndex)
    requires
        declared_globals(*old(table)).len() < u32::MAX,
    ensures
        declared_globals(*final(table)) == declared_globals(*old(table)).push(global),
        index.number() == declared_globals(*old(table)).len(),
{
    table.map.push(global)
}

/// Calls `PrimaryMap::get`, which returns the entry whose position is the index of the key, if
/// the map holds that many.
#[verifier::external_body]
fn primary_map_get(table: &GlobalTable, index: GlobalIndex) -> (global: Option<&Global>)
    ensures
        match global {
            Some(g) => index.number() < declared_globals(*table).len() && *g
                == declared_globals(*table)[index.number() as int],
            None => index.number() >= declared_globals(*table).len(),
        },
{
    table.map.get(index)
}

impl GlobalTable {
    /// The table without globals.
    pub fn new() -> (table: GlobalTable)
        ensures
            table@ == Seq::<Global>::empty(),
    {
        primary_map_new()
    }

    /// The number of globals.
    pub fn len(&self) -> (len: usize)
        ensures
            len == self@.len(),
    {
        primary_map_len(self)
    }

    /// Declares one more global and returns its index, the next free one. The largest `u32` is
    /// reserved, so that a table holds fewer globals than that.
    pub fn push(&mut self, global: Global) -> (index: GlobalIndex)
        requires
            old(self)@.len() < u32::MAX,
        ensures
            final(self)@ == old(self)@.push(global),
            index.number() == old(self)@.len(),
    {
        primary_map_push(self, global)
    }

    /// The declaration of the global `index`, if the table holds one.
    pub fn get(&self, index: GlobalIndex) -> (global: Option<&Global>)
        ensures
            match global {
                Some(g) => index.number() < self@.len() && *g == self@[index.number() as int],
                None => index.number() >= self@.len(),
            },
    {
        primary_map_get(self, index)
    }
}

} // verus!
