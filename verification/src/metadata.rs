//! Metadata that the Rust SDK attaches to a module for the frontend.

use crate::error::WasmError;
use crate::parsed::ParsedModule;
use vstd::hash_set::StringHashSet;
use vstd::prelude::*;

verus! {

/// A method of a component that is marked with an attribute of the SDK.
#[derive(Debug)]
pub enum FrontendMetadata {
    /// A method marked with `#[auth_script]`.
    AuthScript {
        /// The path of the method in the source program.
        method_path: String,
        /// The name under which the component exports the method.
        export_name: String,
    },
    /// A method marked with `#[account_procedure]`.
    AccountProcedure {
        /// The path of the method in the source program.
        method_path: String,
        /// The name under which the component exports the method.
        export_name: String,
    },
}

impl FrontendMetadata {
    /// The attribute that marks the method, as it is written in the source program.
    pub open spec fn spec_attribute(self) -> Seq<char> {
        match self {
            FrontendMetadata::AuthScript { .. } => "#[auth_script]"@,
            FrontendMetadata::AccountProcedure { .. } => "#[account_procedure]"@,
        }
    }

    /// The path of the marked method.
    pub open spec fn spec_method_path(self) -> Seq<char> {
        match self {
            FrontendMetadata::AuthScript { method_path, .. } => method_path@,
            FrontendMetadata::AccountProcedure { method_path, .. } => method_path@,
        }
    }

    /// The name under which the component exports the marked method.
    pub open spec fn spec_export_name(self) -> Seq<char> {
        match self {
            FrontendMetadata::AuthScript { export_name, .. } => export_name@,
            FrontendMetadata::AccountProcedure { export_name, .. } => export_name@,
        }
    }

    /// The attribute that marks the method, as it is written in the source program.
    pub fn attribute(&self) -> (attribute: &'static str)
        ensures
            attribute@ == self.spec_attribute(),
    {
        match self {
            FrontendMetadata::AuthScript { .. } => "#[auth_script]",
            FrontendMetadata::AccountProcedure { .. } => "#[account_procedure]",
        }
    }

    /// The path of the marked method.
    pub fn method_path(&self) -> (path: &str)
        ensures
            path@ == self.spec_method_path(),
    {
        match self {
            FrontendMetadata::AuthScript { method_path, .. } => method_path.as_str(),
            FrontendMetadata::AccountProcedure { method_path, .. } => method_path.as_str(),
        }
    }

    /// The name under which the component exports the marked method.
    pub fn export_name(&self) -> (name: &str)
        ensures
            name@ == self.spec_export_name(),
    {
        match self {
            FrontendMetadata::AuthScript { export_name, .. } => export_name.as_str(),
            FrontendMetadata::AccountProcedure { export_name, .. } => export_name.as_str(),
        }
    }
}

impl Clone for FrontendMetadata {
    fn clone(&self) -> (copy: FrontendMetadata)
        ensures
            copy == *self,
    {
        match self {
            FrontendMetadata::AuthScript { method_path, export_name } => {
                FrontendMetadata::AuthScript {
                    method_path: method_path.clone(),
                    export_name: export_name.clone(),
                }
            },
            FrontendMetadata::AccountProcedure { method_path, export_name } => {
                FrontendMetadata::AccountProcedure {
                    method_path: method_path.clone(),
                    export_name: export_name.clone(),
                }
            },
        }
    }
}

/// The names of the exports that were lifted into a component.
pub struct LiftedExports {
    names: StringHashSet,
}

impl View for LiftedExports {
    type V = Set<Seq<char>>;

    closed spec fn view(&self) -> Set<Seq<char>> {
        self.names@
    }
}

impl Default for LiftedExports {
    /// No export was lifted.
    fn default() -> (exports: LiftedExports)
        ensures
            exports@ == Set::<Seq<char>>::empty(),
    {
        LiftedExports { names: StringHashSet::new() }
    }
}

impl LiftedExports {
    /// Records that the export `name` was lifted, and returns whether that is new.
    pub fn insert(&mut self, name: &str) -> (new: bool)
        ensures
            final(self)@ == old(self)@.insert(name@),
            new == !old(self)@.contains(name@),
    {
        self.names.insert(name.to_owned())
    }

    /// Whether the export `name` was lifted.
    pub fn contains(&self, name: &str) -> (lifted: bool)
        ensures
            lifted == self@.contains(name@),
    {
        self.names.contains(name)
    }
}

/// The metadata of `modules` in one list: module by module, each in its own order.
pub open spec fn merged(modules: Seq<ParsedModule>) -> Seq<FrontendMetadata> {
    modules.map_values(|module: ParsedModule| module.component_frontend_metadata@).flatten()
}

/// Collects the frontend metadata of the core modules of a component into one list.
pub fn merge_frontend_metadata(modules: &[ParsedModule]) -> (all: Vec<FrontendMetadata>)
    ensures
        all@ == merged(modules@),
{
    let mut all: Vec<FrontendMetadata> = Vec::new();
    let mut n: usize = 0;
    while n < modules.len()
        invariant
            n <= modules@.len(),
            all@ == merged(modules@.take(n as int)),
        decreases modules@.len() - n,
    {
        let list = &modules[n].component_frontend_metadata;
        let mut m: usize = 0;
        while m < list.len()
            invariant
                m <= list@.len(),
                all@ == merged(modules@.take(n as int)) + list@.take(m as int),
            decreases list@.len() - m,
        {
            all.push(list[m].clone());
            assert(list@.take(m + 1) =~= list@.take(m as int).push(list@[m as int]));
            m += 1;
        }
        proof {
            assert(list@.take(m as int) =~= list@);
            lemma_merged_push(modules@.take(n as int), modules@[n as int]);
            assert(modules@.take(n + 1) =~= modules@.take(n as int).push(modules@[n as int]));
        }
        n += 1;
    }
    assert(modules@.take(n as int) =~= modules@);
    all
}

/// The metadata of one more module goes behind that of the others.
pub proof fn lemma_merged_push(modules: Seq<ParsedModule>, module: ParsedModule)
    ensures
        merged(modules.push(module)) == merged(modules) + module.component_frontend_metadata@,
{
    let lists = |module: ParsedModule| module.component_frontend_metadata@;
    assert(modules.push(module).map_values(lists) =~= modules.map_values(lists).push(
        module.component_frontend_metadata@,
    ));
    modules.map_values(lists).lemma_flatten_push(module.component_frontend_metadata@);
}

/// Whether the export that belongs to `entry` was lifted.
pub open spec fn is_lifted(entry: FrontendMetadata, lifted: Set<Seq<char>>) -> bool {
    lifted.contains(entry.spec_export_name())
}

/// Whether the exports that belong to the entries of `metadata` were all lifted.
pub open spec fn all_lifted(metadata: Seq<FrontendMetadata>, lifted: Set<Seq<char>>) -> bool {
    forall|n: int| 0 <= n < metadata.len() ==> is_lifted(#[trigger] metadata[n], lifted)
}

/// Whether `n` is the position of the first entry whose export was not lifted.
pub open spec fn is_first_missing(
    metadata: Seq<FrontendMetadata>,
    lifted: Set<Seq<char>>,
    n: int,
) -> bool {
    &&& 0 <= n < metadata.len()
    &&& !is_lifted(metadata[n], lifted)
    &&& forall|m: int| 0 <= m < n ==> is_lifted(#[trigger] metadata[m], lifted)
}

/// Checks that the export of each method that `metadata` marks was lifted into the component, and
/// reports the first one that was not.
pub fn validate_lifted_frontend_metadata_exports(
    metadata: &[FrontendMetadata],
    lifted_exports: &LiftedExports,
) -> (checked: Result<(), WasmError>)
    ensures
        checked is Ok <==> forall|n: int|
            0 <= n < metadata@.len() ==> lifted_exports@.contains(
                match #[trigger] metadata@[n] {
                    FrontendMetadata::AuthScript { export_name, .. } => export_name@,
                    FrontendMetadata::AccountProcedure { export_name, .. } => export_name@,
                },
            ),
        match checked {
            Ok(()) => all_lifted(metadata@, lifted_exports@),
            Err(error) => exists|n: int| #[trigger]
                is_first_missing(metadata@, lifted_exports@, n) && error
                    == (WasmError::MissingLiftedExport { metadata: metadata@[n] }),
        },
{
    let mut n: usize = 0;
    while n < metadata.len()
        invariant
            n <= metadata@.len(),
            forall|m: int| 0 <= m < n ==> is_lifted(#[trigger] metadata@[m], lifted_exports@),
        decreases metadata@.len() - n,
    {
        if !lifted_exports.contains(metadata[n].export_name()) {
            assert(is_first_missing(metadata@, lifted_exports@, n as int));
            return Err(WasmError::MissingLiftedExport { metadata: metadata[n].clone() });
        }
        n += 1;
    }
    Ok(())
}

} // verus!
