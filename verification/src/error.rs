//! Errors of the frontend.

use crate::metadata::FrontendMetadata;
use crate::symbol::Symbol;
use vstd::prelude::*;

verus! {

/// Why a module or a component is rejected.
#[derive(Debug)]
pub enum WasmError {
    /// Several functions have a name that identifies a linker stub.
    DuplicateLinkerStub {
        /// The name that the functions share.
        name: Symbol,
    },
    /// The export of a marked method was not lifted into the component.
    MissingLiftedExport {
        /// The entry of the method.
        metadata: FrontendMetadata,
    },
}

impl WasmError {
    /// The text of the error.
    pub open spec fn message(self) -> Seq<char> {
        match self {
            WasmError::DuplicateLinkerStub { name } => "several functions are named `"@ + name@
                + "`, which identifies an intrinsic or Miden ABI linker stub"@,
            WasmError::MissingLiftedExport { metadata } =>
                "failed to find the component export marked with `"@ + metadata.spec_attribute()
                    + "`: `"@ + metadata.spec_method_path() + "`, expected lifted export `"@
                    + metadata.spec_export_name() + "`"@,
        }
    }

    /// The text of the error.
    pub fn to_string(&self) -> (text: String)
        ensures
            text@ == self.message(),
    {
        let mut text = String::new();
        match self {
            WasmError::DuplicateLinkerStub { name } => {
                text.append("several functions are named `");
                text.append(name.as_str());
                text.append("`, which identifies an intrinsic or Miden ABI linker stub");
            },
            WasmError::MissingLiftedExport { metadata } => {
                text.append("failed to find the component export marked with `");
                text.append(metadata.attribute());
                text.append("`: `");
                text.append(metadata.method_path());
                text.append("`, expected lifted export `");
                text.append(metadata.export_name());
                text.append("`");
            },
        }
        assert(text@ =~= self.message());
        text
    }
}

} // verus!
