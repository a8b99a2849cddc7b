//! Names and metadata of WebAssembly modules on their way into the Miden compiler.

pub mod decimal;
pub mod entity;
pub mod error;
pub mod globals;
pub mod laws;
pub mod linkage;
pub mod linker_stubs;
pub mod meaning;
pub mod metadata;
pub mod module;
pub mod names;
pub mod parsed;
pub mod symbol;
