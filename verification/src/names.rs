//! Maps from indices to names, and the name section of a module.

use crate::entity::{EntityIndex, FuncIndex, GlobalIndex};
use crate::symbol::Symbol;
use std::collections::BTreeMap;
use std::marker::PhantomData;
use vstd::prelude::*;

verus! {

/// Names of the entities of one index space; an entity may be unnamed.
#[derive(Debug)]
#[verifier::reject_recursive_types(K)]
pub struct NameMap<K> {
    entries: BTreeMap<u32, Symbol>,
    space: PhantomData<K>,
}

impl<K> View for NameMap<K> {
    type V = Map<u32, Seq<char>>;

    /// The text of the name of each named entity, by the position of the entity.
    closed spec fn view(&self) -> Map<u32, Seq<char>> {
        self.entries@.map_values(|name: Symbol| name@)
    }
}

impl<K> NameMap<K> {
    /// The map in which no entity is named.
    pub fn new() -> (map: NameMap<K>)
        ensures
            map@ == Map::<u32, Seq<char>>::empty(),
    {
        NameMap { entries: BTreeMap::new(), space: PhantomData }
    }

    /// Whether no entity is named.
    pub fn is_empty(&self) -> (empty: bool)
        ensures
            empty == (self@ == Map::<u32, Seq<char>>::empty()),
    {
        proof {
            assert forall|i: u32| self@.contains_key(i) == self.entries@.contains_key(i) by {}
            if self.entries@.is_empty() {
                assert(self@ =~= Map::<u32, Seq<char>>::empty());
            } else {
                let i = choose|i: u32| self.entries@.contains_key(i);
                assert(self@.contains_key(i));
            }
        }
        self.entries.is_empty()
    }

    /// Names the entity at position `number`, and returns the name it had before.
    pub(crate) fn set(&mut self, number: u32, name: Symbol) -> (previous: Option<Symbol>)
        ensures
            final(self)@ == old(self)@.insert(number, name@),
            previous matches Some(p) ==> old(self)@.contains_key(number) && p@
                == old(self)@[number],
            previous is None ==> !old(self)@.contains_key(number),
    {
        self.entries.insert(number, name)
    }

    /// Only finitely many entities are named.
    pub proof fn lemma_finite(&self)
        ensures
            self@.dom().finite(),
    {
        assert(self@.dom() =~= self.entries@.dom());
    }

    /// The named entities with their names, in increasing order of position.
    pub(crate) fn entries(&self) -> (list: Vec<(u32, &Symbol)>)
        ensures
            lists_names(list@, self@),
    {
        let mut list: Vec<(u32, &Symbol)> = Vec::new();
        let pairs = self.entries.iter();
        let ghost all = vstd::std_specs::iter::IteratorSpec::remaining(&pairs);
        for pair in it: pairs
            invariant
                it.seq() == all,
                list@.len() == it.index(),
                forall|n: int|
                    0 <= n < list@.len() ==> (#[trigger] list@[n]).0 == *all[n].0 && list@[n].1
                        == all[n].1,
        {
            list.push((*pair.0, pair.1));
        }
        proof {
            let keys = all.map_values(|kv: (&u32, &Symbol)| *kv.0);
            assert forall|a: int, b: int| 0 <= a < b < list@.len() implies list@[a].0
                < list@[b].0 by {
                assert(vstd::std_specs::btree::increasing_seq(keys));
                assert(vstd::std_specs::cmp::OrdSpec::cmp_spec(&keys[a], &keys[b]) is Less);
            }
            assert forall|i: u32| #[trigger] self@.contains_key(i) implies exists|a: int|
                0 <= a < list@.len() && #[trigger] list@[a].0 == i by {
                assert(self.entries@.contains_key(i));
                let a = choose|a: int| 0 <= a < all.len() && all[a] == (&i, &self.entries@[i]);
                assert(list@[a].0 == i);
            }
        }
        list
    }
}

/// Whether `list` holds each named entity of `names` once, with its name, in increasing order.
pub open spec fn lists_names(list: Seq<(u32, &Symbol)>, names: Map<u32, Seq<char>>) -> bool {
    &&& forall|a: int, b: int| 0 <= a < b < list.len() ==> list[a].0 < list[b].0
    &&& forall|a: int|
        0 <= a < list.len() ==> names.contains_key(#[trigger] list[a].0) && names[list[a].0]
            == list[a].1@
    &&& forall|i: u32| #[trigger]
        names.contains_key(i) ==> exists|a: int| 0 <= a < list.len() && #[trigger] list[a].0 == i
}

impl<K: EntityIndex> NameMap<K> {
    /// Names the entity `index`, and returns the name it had before.
    pub fn insert(&mut self, index: K, name: Symbol) -> (previous: Option<Symbol>)
        ensures
            final(self)@ == old(self)@.insert(index.number(), name@),
            previous matches Some(p) ==> old(self)@.contains_key(index.number())
                && p@ == old(self)@[index.number()],
            previous is None ==> !old(self)@.contains_key(index.number()),
    {
        self.set(index.as_u32(), name)
    }

    /// The name of the entity `index`, if it has one.
    pub fn get(&self, index: &K) -> (name: Option<&Symbol>)
        ensures
            name matches Some(n) ==> self@.contains_key(index.number()) && n@
                == self@[index.number()],
            name is None ==> !self@.contains_key(index.number()),
    {
        self.entries.get(&index.as_u32())
    }
}

/// The names that the name section of a module gives to its entities.
#[derive(Debug)]
pub struct NameSection {
    /// The names of functions.
    pub func_names: NameMap<FuncIndex>,
    /// The names of globals.
    pub globals_names: NameMap<GlobalIndex>,
}

impl Default for NameSection {
    /// The section that names nothing.
    fn default() -> (section: NameSection)
        ensures
            section.func_names@ == Map::<u32, Seq<char>>::empty(),
            section.globals_names@ == Map::<u32, Seq<char>>::empty(),
    {
        NameSection { func_names: NameMap::new(), globals_names: NameMap::new() }
    }
}

} // verus!
