use midenc_frontend_wasm::error::WasmError;
use midenc_frontend_wasm::metadata::{
    merge_frontend_metadata, validate_lifted_frontend_metadata_exports, FrontendMetadata,
    LiftedExports,
};
use midenc_frontend_wasm::parsed::{ParsedModule, WasmFileInfo};

fn procedure(export: &str) -> FrontendMetadata {
    FrontendMetadata::AccountProcedure {
        method_path: format!("crate::Account::{export}"),
        export_name: export.to_string(),
    }
}

fn auth(export: &str) -> FrontendMetadata {
    FrontendMetadata::AuthScript {
        method_path: format!("crate::Auth::{export}"),
        export_name: export.to_string(),
    }
}

fn module(entries: Vec<FrontendMetadata>) -> ParsedModule {
    ParsedModule {
        component_frontend_metadata: entries,
        ..Default::default()
    }
}

fn exports(metadata: &[FrontendMetadata]) -> Vec<&str> {
    metadata.iter().map(|entry| entry.export_name()).collect()
}

#[test]
fn entries_know_their_attribute_path_and_export() {
    let entry = auth("check");
    assert_eq!(entry.attribute(), "#[auth_script]");
    assert_eq!(entry.method_path(), "crate::Auth::check");
    assert_eq!(entry.export_name(), "check");
    let copy = procedure("receive").clone();
    assert_eq!(copy.attribute(), "#[account_procedure]");
    assert_eq!(copy.method_path(), "crate::Account::receive");
    assert_eq!(copy.export_name(), "receive");
}

#[test]
fn merging_keeps_the_order_of_modules_and_entries() {
    let modules = [
        module(vec![procedure("a"), auth("b")]),
        module(vec![]),
        module(vec![procedure("c"), procedure("a")]),
    ];
    let merged = merge_frontend_metadata(&modules);
    assert_eq!(exports(&merged), ["a", "b", "c", "a"]);
    assert_eq!(merged[1].attribute(), "#[auth_script]");

    let mut parts = merge_frontend_metadata(&modules[..1]);
    parts.extend(merge_frontend_metadata(&modules[1..]));
    assert_eq!(exports(&parts), exports(&merged));
    assert!(merge_frontend_metadata(&[]).is_empty());
}

#[test]
fn metadata_with_lifted_exports_is_valid() {
    let mut lifted = LiftedExports::default();
    assert!(validate_lifted_frontend_metadata_exports(&[], &lifted).is_ok());
    assert!(lifted.insert("a"));
    assert!(!lifted.insert("a"));
    assert!(lifted.insert("b"));
    assert!(lifted.contains("a"));
    assert!(!lifted.contains("c"));
    let metadata = [procedure("a"), auth("b"), procedure("a")];
    assert!(validate_lifted_frontend_metadata_exports(&metadata, &lifted).is_ok());
    lifted.insert("c");
    assert!(validate_lifted_frontend_metadata_exports(&metadata, &lifted).is_ok());
}

#[test]
fn the_first_missing_export_is_reported() {
    let mut lifted = LiftedExports::default();
    lifted.insert("a");
    let metadata = [procedure("a"), auth("b"), procedure("c")];

    let err = validate_lifted_frontend_metadata_exports(&metadata, &lifted).unwrap_err();

    assert_eq!(
        err.to_string(),
        "failed to find the component export marked with `#[auth_script]`: `crate::Auth::b`, \
         expected lifted export `b`"
    );
    assert!(matches!(err, WasmError::MissingLiftedExport { .. }));
}

#[test]
fn merged_metadata_is_valid_module_by_module() {
    let modules = [module(vec![procedure("a")]), module(vec![procedure("b")])];
    let merged = merge_frontend_metadata(&modules);
    let mut lifted = LiftedExports::default();
    lifted.insert("a");
    let first = &modules[0].component_frontend_metadata;
    let second = &modules[1].component_frontend_metadata;
    assert!(validate_lifted_frontend_metadata_exports(first, &lifted).is_ok());
    assert!(validate_lifted_frontend_metadata_exports(second, &lifted).is_err());
    assert!(validate_lifted_frontend_metadata_exports(&merged, &lifted).is_err());
    lifted.insert("b");
    assert!(validate_lifted_frontend_metadata_exports(second, &lifted).is_ok());
    assert!(validate_lifted_frontend_metadata_exports(&merged, &lifted).is_ok());
}

#[test]
fn dwarf_counts_from_the_start_of_the_code_section() {
    let info = WasmFileInfo { code_section_offset: 100 };
    assert_eq!(info.dwarf_offset(100), 0);
    assert_eq!(info.dwarf_offset(u64::MAX), u64::MAX - 100);
    assert_eq!(WasmFileInfo::default().dwarf_offset(7), 7);
}
