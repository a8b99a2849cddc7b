//! What parsing one core module yields.

use crate::metadata::FrontendMetadata;
use crate::module::Module;
use vstd::prelude::*;

verus! {

/// A core module whose sections have been parsed.
pub struct ParsedModule {
    /// The entities of the module and their names.
    pub module: Module,
    /// The frontend metadata that the module carries, in the order in which it was emitted.
    pub component_frontend_metadata: Vec<FrontendMetadata>,
}

impl Default for ParsedModule {
    /// An empty module.
    fn default() -> (parsed: ParsedModule)
        ensures
            parsed.module.is_empty_module(),
            parsed.component_frontend_metadata@ == Seq::<FrontendMetadata>::empty(),
    {
        ParsedModule { module: Module::default(), component_frontend_metadata: Vec::new() }
    }
}

/// Where the sections of a WebAssembly file lie.
#[derive(Clone, Copy, Debug)]
pub struct WasmFileInfo {
    /// The offset in the file at which the contents of the code section start.
    pub code_section_offset: u64,
}

impl Default for WasmFileInfo {
    /// A file whose code section starts where the file does.
    fn default() -> (info: WasmFileInfo)
        ensures
            info.code_section_offset == 0,
    {
        WasmFileInfo { code_section_offset: 0 }
    }
}

impl WasmFileInfo {
    /// The address by which DWARF refers to the code at `offset` in the file: DWARF counts from
    /// the start of the code section.
    pub fn dwarf_offset(&self, offset: u64) -> (address: u64)
        requires
            self.code_section_offset <= offset,
        ensures
            address == offset - self.code_section_offset,
    {
        offset - self.code_section_offset
    }
}

} // verus!
