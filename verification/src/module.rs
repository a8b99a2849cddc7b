//! The entities of a WebAssembly module and their names.

use crate::decimal::{decimal, push_decimal};
use crate::entity::{EntityIndex, FuncIndex, GlobalIndex};
use crate::error::WasmError;
use crate::globals::{Global, GlobalTable};
use crate::linkage::{
    first_shared_stub, is_first_shared_stub, is_shared, renamed_functions, unique_names,
};
use crate::linker_stubs::names_linker_stub;
use crate::names::{NameMap, NameSection};
use crate::symbol::Symbol;
use cranelift_entity::EntityRef;
use vstd::prelude::*;

verus! {

/// A WebAssembly module.
#[derive(Debug)]
pub struct Module {
    /// The globals of the module.
    pub globals: GlobalTable,
    /// The names that the module gives to its entities, as parsed.
    pub name_section: NameSection,
    /// The names that functions are linked under where they differ from those of the name
    /// section.
    pub linkage_renames: NameMap<FuncIndex>,
}

/// The name of a function that the name section does not name.
pub open spec fn synthesized_func_name(i: u32) -> Seq<char> {
    "func"@ + decimal(i as nat)
}

/// The name of a global that the name section does not name.
pub open spec fn synthesized_global_name(g: u32) -> Seq<char> {
    "global"@ + decimal(g as nat)
}

/// What sanitizing the function names of a module makes of it, and what it reports.
///
/// A module in which a shared name identifies a linker stub is refused and stays as it is; the
/// error holds the name of the first such function. Every other module is sanitized, and nothing
/// but its linkage names changes.
pub open spec fn sanitizes(before: Module, after: Module, outcome: Result<(), WasmError>) -> bool {
    match outcome {
        Ok(()) => {
            &&& !before.shares_stub_name()
            &&& after.globals == before.globals
            &&& after.name_section == before.name_section
            &&& after.is_sanitized()
        },
        Err(error) => {
            &&& after == before
            &&& error matches WasmError::DuplicateLinkerStub { name }
            &&& exists|i: u32| #[trigger]
                is_first_shared_stub(before.name_section.func_names@, i) && name@
                    == before.name_section.func_names@[i]
        },
    }
}

impl Default for Module {
    /// The module without globals and names.
    fn default() -> (module: Module)
        ensures
            module.is_empty_module(),
    {
        Module {
            globals: GlobalTable::new(),
            name_section: NameSection::default(),
            linkage_renames: NameMap::new(),
        }
    }
}

impl Module {
    /// Whether this module has no globals and no names.
    pub open spec fn is_empty_module(self) -> bool {
        &&& self.globals@ == Seq::<Global>::empty()
        &&& self.name_section.func_names@ == Map::<u32, Seq<char>>::empty()
        &&& self.name_section.globals_names@ == Map::<u32, Seq<char>>::empty()
        &&& self.linkage_renames@ == Map::<u32, Seq<char>>::empty()
    }

    /// The name that the function `i` has in the source program.
    pub open spec fn spec_source_func_name(self, i: u32) -> Seq<char> {
        if self.name_section.func_names@.contains_key(i) {
            self.name_section.func_names@[i]
        } else {
            synthesized_func_name(i)
        }
    }

    /// The name that the function `i` is linked under.
    pub open spec fn spec_func_name(self, i: u32) -> Seq<char> {
        if self.linkage_renames@.contains_key(i) {
            self.linkage_renames@[i]
        } else {
            self.spec_source_func_name(i)
        }
    }

    /// The name of the global `g`.
    pub open spec fn spec_global_name(self, g: u32) -> Seq<char> {
        if self.name_section.globals_names@.contains_key(g) {
            self.name_section.globals_names@[g]
        } else {
            synthesized_global_name(g)
        }
    }

    /// Whether the functions that share their name are linked under names of their own, and no
    /// other function is renamed.
    pub open spec fn is_sanitized(self) -> bool {
        self.linkage_renames@ == unique_names(
            self.name_section.func_names@,
            self.name_section.globals_names@,
        )
    }

    /// Whether some name that several functions share identifies a linker stub.
    pub open spec fn shares_stub_name(self) -> bool {
        exists|i: u32| #[trigger]
            is_shared(self.name_section.func_names@, i) && names_linker_stub(
                self.name_section.func_names@[i],
            )
    }

    /// The name that the function `index` is linked under: its linkage name where it was renamed,
    /// and the name it has in the source program where it was not.
    pub fn func_name(&self, index: FuncIndex) -> (name: Symbol)
        ensures
            name@ == self.spec_func_name(index.number()),
            self.linkage_renames@.contains_key(index.number()) ==> name@
                == self.linkage_renames@[index.number()],
            !self.linkage_renames@.contains_key(index.number())
                && self.name_section.func_names@.contains_key(index.number()) ==> name@
                == self.name_section.func_names@[index.number()],
    {
        match self.linkage_renames.get(&index) {
            Some(name) => name.clone(),
            None => self.source_func_name(index),
        }
    }

    /// The name that the function `index` has in the source program: the one that the name
    /// section gives it, and `func` with its index where there is none.
    pub fn source_func_name(&self, index: FuncIndex) -> (name: Symbol)
        ensures
            name@ == self.spec_source_func_name(index.number()),
            self.name_section.func_names@.contains_key(index.number()) ==> name@
                == self.name_section.func_names@[index.number()],
    {
        match self.name_section.func_names.get(&index) {
            Some(name) => name.clone(),
            None => synthesize("func", index.as_u32()),
        }
    }

    /// The name of the global `index`: the one that the name section gives it, and `global` with
    /// its index where there is none.
    pub fn global_name(&self, index: GlobalIndex) -> (name: Symbol)
        ensures
            name@ == self.spec_global_name(index.number()),
            self.name_section.globals_names@.contains_key(index.number()) ==> name@
                == self.name_section.globals_names@[index.number()],
    {
        match self.name_section.globals_names.get(&index) {
            Some(name) => name.clone(),
            None => synthesize("global", index.as_u32()),
        }
    }

    /// Gives each function that shares its name with another function a linkage name of its own.
    ///
    /// The function `foo` with index 2 becomes `foo_func2`, with underscores at the end until the
    /// name is neither that of a function which keeps its name nor that of a global. The name
    /// section stays as it is. A shared name that identifies a linker stub is an error, because
    /// the stub would not be recognised under another name.
    pub fn sanitize_duplicate_func_names(&mut self) -> (sanitized: Result<(), WasmError>)
        ensures
            sanitizes(*old(self), *final(self), sanitized),
    {
        match first_shared_stub(&self.name_section.func_names) {
            Some(name) => Err(WasmError::DuplicateLinkerStub { name }),
            None => {
                self.linkage_renames = renamed_functions(
                    &self.name_section.func_names,
                    &self.name_section.globals_names,
                );
                Ok(())
            },
        }
    }
}

/// The name that consists of `prefix` and the decimal rendering of `number`.
fn synthesize(prefix: &str, number: u32) -> (name: Symbol)
    ensures
        name@ == prefix@ + decimal(number as nat),
{
    let mut text = prefix.to_owned();
    push_decimal(&mut text, number);
    Symbol::from_string(text)
}

/// The function names that result when `names` are given one after the other.
pub open spec fn func_names_of(names: Seq<(u32, &str)>) -> Map<u32, Seq<char>>
    decreases names.len(),
{
    if names.len() == 0 {
        Map::empty()
    } else {
        func_names_of(names.drop_last()).insert(names.last().0, names.last().1@)
    }
}

/// The module without globals whose name section gives the functions in `names` their names; of
/// several names for one function the last one stays.
pub fn module_with_func_names(names: &[(u32, &str)]) -> (module: Module)
    requires
        forall|n: int| 0 <= n < names@.len() ==> (#[trigger] names@[n]).0 < u32::MAX,
    ensures
        module.name_section.func_names@ == func_names_of(names@),
        module.name_section.globals_names@ == Map::<u32, Seq<char>>::empty(),
        module.linkage_renames@ == Map::<u32, Seq<char>>::empty(),
        module.globals@ == Seq::<Global>::empty(),
{
    let mut module = Module::default();
    let mut n: usize = 0;
    while n < names.len()
        invariant
            n <= names@.len(),
            forall|n: int| 0 <= n < names@.len() ==> (#[trigger] names@[n]).0 < u32::MAX,
            module.name_section.func_names@ == func_names_of(names@.take(n as int)),
            module.name_section.globals_names@ == Map::<u32, Seq<char>>::empty(),
            module.linkage_renames@ == Map::<u32, Seq<char>>::empty(),
            module.globals@ == Seq::<Global>::empty(),
        decreases names@.len() - n,
    {
        let (index, name) = names[n];
        module.name_section.func_names.insert(
            FuncIndex::new(index as usize),
            Symbol::intern(name),
        );
        assert(names@.take(n + 1).drop_last() =~= names@.take(n as int));
        n += 1;
    }
    assert(names@.take(n as int) =~= names@);
    module
}

} // verus!
