use cranelift_entity::EntityRef;
use midenc_frontend_wasm::decimal::push_decimal;
use midenc_frontend_wasm::entity::{EntityIndex, FuncIndex, GlobalIndex};
use midenc_frontend_wasm::error::WasmError;
use midenc_frontend_wasm::globals::{Global, GlobalTable, WasmType};
use midenc_frontend_wasm::linker_stubs::is_linker_stub_name;
use midenc_frontend_wasm::module::{module_with_func_names, Module};
use midenc_frontend_wasm::names::NameMap;
use midenc_frontend_wasm::symbol::Symbol;

fn linked(module: &Module, index: usize) -> String {
    module.func_name(FuncIndex::new(index)).as_str().to_string()
}

#[test]
fn decimals_have_no_leading_zeros() {
    let mut text = String::from("n");
    push_decimal(&mut text, 0);
    assert_eq!(text, "n0");
    push_decimal(&mut text, 10);
    assert_eq!(text, "n010");
    push_decimal(&mut text, 4_294_967_295);
    assert_eq!(text, "n0104294967295");
    for n in [7_u32, 42, 99, 100, 12_345, 1_000_000] {
        let mut text = String::new();
        push_decimal(&mut text, n);
        assert_eq!(text, n.to_string());
    }
}

#[test]
fn indices_keep_their_position() {
    assert_eq!(FuncIndex::new(7).index(), 7);
    assert_eq!(FuncIndex::new(7).as_u32(), 7);
    assert_eq!(GlobalIndex::new(4_294_967_294).index(), 4_294_967_294);
    assert_eq!(GlobalIndex::new(4_294_967_294).as_u32(), 4_294_967_294);
    assert_ne!(FuncIndex::new(0), FuncIndex::new(1));
}

#[test]
fn symbols_are_equal_by_text() {
    let foo = Symbol::intern("foo");
    assert_eq!(foo, Symbol::intern("foo"));
    assert_eq!(foo, foo.clone());
    assert_ne!(foo, Symbol::intern("bar"));
    assert_eq!(foo.as_str(), "foo");
}

#[test]
fn name_maps_keep_the_last_name() {
    let mut names: NameMap<FuncIndex> = NameMap::new();
    assert!(names.is_empty());
    assert_eq!(names.insert(FuncIndex::new(4), Symbol::intern("a")), None);
    assert_eq!(
        names.insert(FuncIndex::new(4), Symbol::intern("b")),
        Some(Symbol::intern("a"))
    );
    assert!(!names.is_empty());
    assert_eq!(names.get(&FuncIndex::new(4)), Some(&Symbol::intern("b")));
    assert_eq!(names.get(&FuncIndex::new(5)), None);
}

#[test]
fn of_several_names_for_one_function_the_last_one_stays() {
    let module = module_with_func_names(&[(1, "first"), (0, "other"), (1, "second")]);
    assert_eq!(linked(&module, 1), "second");
    assert_eq!(linked(&module, 0), "other");
    assert_eq!(linked(&module, 2), "func2");
}

#[test]
fn globals_get_consecutive_indices() {
    let mut table = GlobalTable::new();
    assert_eq!(table.len(), 0);
    let counter = Global { ty: WasmType::I32, mutability: true };
    let limit = Global { ty: WasmType::I64, mutability: false };
    let a = table.push(counter);
    let b = table.push(limit);
    assert_eq!((a.as_u32(), b.as_u32()), (0, 1));
    assert_eq!(table.len(), 2);
    assert_eq!(table.get(a), Some(&counter));
    assert_eq!(table.get(b), Some(&limit));
    assert_eq!(table.get(GlobalIndex::new(2)), None);
}

#[test]
fn unnamed_globals_get_a_synthesized_name() {
    let mut module = Module::default();
    assert_eq!(module.global_name(GlobalIndex::new(12)).as_str(), "global12");
    module
        .name_section
        .globals_names
        .insert(GlobalIndex::new(12), Symbol::intern("__stack_pointer"));
    assert_eq!(module.global_name(GlobalIndex::new(12)).as_str(), "__stack_pointer");
    assert_eq!(module.global_name(GlobalIndex::new(11)).as_str(), "global11");
}

#[test]
fn stub_names_are_paths_in_a_reserved_namespace() {
    assert!(is_linker_stub_name("intrinsics::felt::add"));
    assert!(is_linker_stub_name("miden::protocol::active_account::get_id"));
    assert!(is_linker_stub_name("intrinsics::"));
    assert!(!is_linker_stub_name("intrinsics"));
    assert!(!is_linker_stub_name("intrinsics:"));
    assert!(!is_linker_stub_name("my_intrinsics::felt::add"));
    assert!(!is_linker_stub_name("miden_base::felt::add"));
    assert!(!is_linker_stub_name(""));
}

#[test]
fn a_stub_name_that_is_not_shared_is_kept() {
    let mut module =
        module_with_func_names(&[(0, "intrinsics::felt::add"), (1, "foo"), (2, "foo")]);
    module.sanitize_duplicate_func_names().unwrap();
    assert_eq!(linked(&module, 0), "intrinsics::felt::add");
    assert_eq!(linked(&module, 1), "foo_func1");
    assert_eq!(linked(&module, 2), "foo_func2");
}

#[test]
fn the_first_shared_stub_name_is_reported_and_nothing_changes() {
    let mut module = module_with_func_names(&[
        (0, "foo"),
        (1, "foo"),
        (5, "intrinsics::felt::add"),
        (3, "miden::core::mem::pipe"),
        (7, "intrinsics::felt::add"),
        (9, "miden::core::mem::pipe"),
    ]);

    let err = module.sanitize_duplicate_func_names().unwrap_err();

    assert_eq!(
        err.to_string(),
        "several functions are named `miden::core::mem::pipe`, which identifies an intrinsic or \
         Miden ABI linker stub"
    );
    assert!(matches!(err, WasmError::DuplicateLinkerStub { .. }));
    assert!(module.linkage_renames.is_empty());
    assert_eq!(linked(&module, 0), "foo");
    assert_eq!(linked(&module, 1), "foo");
}

#[test]
fn an_empty_shared_name_is_extended() {
    let mut module = module_with_func_names(&[(0, ""), (10, "")]);
    module.sanitize_duplicate_func_names().unwrap();
    assert_eq!(linked(&module, 0), "_func0");
    assert_eq!(linked(&module, 10), "_func10");
    assert_eq!(module.source_func_name(FuncIndex::new(10)).as_str(), "");
}

#[test]
fn a_shared_name_does_not_block_a_linkage_name() {
    let mut module =
        module_with_func_names(&[(0, "foo"), (1, "foo"), (2, "foo_func0"), (3, "foo_func0")]);
    module.sanitize_duplicate_func_names().unwrap();
    assert_eq!(linked(&module, 0), "foo_func0");
    assert_eq!(linked(&module, 1), "foo_func1");
    assert_eq!(linked(&module, 2), "foo_func0_func2");
    assert_eq!(linked(&module, 3), "foo_func0_func3");
}

#[test]
fn sanitized_functions_are_linked_apart() {
    let mut module = module_with_func_names(&[
        (0, "a"),
        (1, "a"),
        (11, "a"),
        (2, "a_func1"),
        (3, "a_func1_"),
        (4, "a_func1"),
        (5, "b"),
        (6, "b_func"),
        (7, "b_func"),
        (12, "func8"),
    ]);
    let global = module.globals.push(Global { ty: WasmType::F64, mutability: true });
    module.name_section.globals_names.insert(global, Symbol::intern("a_func0"));

    module.sanitize_duplicate_func_names().unwrap();

    let mut names: Vec<String> = (0..13).filter(|i| *i != 8).map(|i| linked(&module, i)).collect();
    assert_eq!(names[0], "a_func0_");
    assert_eq!(names[11], "func8");
    assert!(names.iter().all(|name| name != "a_func0"));
    names.sort();
    names.dedup();
    assert_eq!(names.len(), 12);
    // A function that bears the name synthesized for an unnamed one is not told apart from it
    assert_eq!(linked(&module, 8), linked(&module, 12));
}

#[test]
fn sanitizing_again_changes_nothing() {
    let mut module = module_with_func_names(&[(0, "foo"), (1, "foo"), (2, "foo_func1")]);
    module.sanitize_duplicate_func_names().unwrap();
    let once: Vec<String> = (0..4).map(|i| linked(&module, i)).collect();
    module.sanitize_duplicate_func_names().unwrap();
    let twice: Vec<String> = (0..4).map(|i| linked(&module, i)).collect();
    assert_eq!(once, ["foo_func0", "foo_func1_", "foo_func1", "func3"]);
    assert_eq!(once, twice);
}

#[test]
fn linkage_names_follow_a_changed_name_section() {
    let mut module = module_with_func_names(&[(0, "foo"), (1, "foo")]);
    module.sanitize_duplicate_func_names().unwrap();
    assert_eq!(linked(&module, 0), "foo_func0");

    module.name_section.func_names.insert(FuncIndex::new(1), Symbol::intern("bar"));
    module.sanitize_duplicate_func_names().unwrap();
    assert!(module.linkage_renames.is_empty());
    assert_eq!(linked(&module, 0), "foo");
    assert_eq!(linked(&module, 1), "bar");
}

#[test]
fn the_order_of_the_names_does_not_matter() {
    let mut a = module_with_func_names(&[(0, "x"), (1, "x"), (2, "x_func0")]);
    let mut b = module_with_func_names(&[(2, "x_func0"), (1, "x"), (0, "x")]);
    a.sanitize_duplicate_func_names().unwrap();
    b.sanitize_duplicate_func_names().unwrap();
    for i in 0..3 {
        assert_eq!(linked(&a, i), linked(&b, i));
    }
    assert_eq!(linked(&a, 0), "x_func0_");
}
