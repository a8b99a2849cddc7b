//! What holds of the names of a module and of frontend metadata as a whole.

use crate::decimal::{decimal, is_digit, lemma_decimal_digits, lemma_decimal_injective};
use crate::error::WasmError;
use crate::linkage::{
    candidate, is_padding, is_shared, is_survivor, lemma_padding, names_global, padding,
};
use crate::linker_stubs::names_linker_stub;
use crate::metadata::{all_lifted, is_lifted, lemma_merged_push, merged, FrontendMetadata};
use crate::module::{
    func_names_of, sanitizes, synthesized_func_name, synthesized_global_name, Module,
};
use crate::parsed::ParsedModule;
use vstd::prelude::*;

verus! {

/// The number of trailing underscores, the index and the name can be read off a linkage name, so
/// that different functions never get the same one.
pub proof fn law_candidates_are_distinct(
    a: Seq<char>,
    i: u32,
    k: nat,
    b: Seq<char>,
    j: u32,
    l: nat,
)
    requires
        candidate(a, i, k) == candidate(b, j, l),
    ensures
        a == b,
        i == j,
        k == l,
{
    let text = candidate(a, i, k);
    let n = text.len() as int;
    let di = decimal(i as nat);
    let dj = decimal(j as nat);
    reveal_strlit("_func");
    lemma_decimal_digits(i as nat);
    lemma_decimal_digits(j as nat);
    // Behind the last digit there are only underscores.
    assert(text[n - 1 - k] == di.last());
    assert(text[n - 1 - l] == dj.last());
    if k < l {
        assert(text[n - 1 - k] == '_');
    }
    if l < k {
        assert(text[n - 1 - l] == '_');
    }
    // In front of the first digit stands a letter.
    let m = n - k;
    assert(text[m - di.len() - 1] == 'c');
    assert(text[m - dj.len() - 1] == 'c');
    if di.len() < dj.len() {
        assert(is_digit(dj[dj.len() - di.len() - 1]));
        assert(text[m - di.len() - 1] == dj[dj.len() - di.len() - 1]);
    }
    if dj.len() < di.len() {
        assert(is_digit(di[di.len() - dj.len() - 1]));
        assert(text[m - dj.len() - 1] == di[di.len() - dj.len() - 1]);
    }
    assert(text.subrange(m - di.len(), m) =~= di);
    assert(text.subrange(m - dj.len(), m) =~= dj);
    lemma_decimal_injective(i as nat, j as nat);
    assert(text.subrange(0, a.len() as int) =~= a);
    assert(text.subrange(0, b.len() as int) =~= b);
}

/// A linkage name holds an underscore, a synthesized name none.
pub proof fn law_candidates_are_not_synthesized(a: Seq<char>, i: u32, k: nat, j: u32)
    ensures
        candidate(a, i, k) != synthesized_func_name(j),
        candidate(a, i, k) != synthesized_global_name(j),
{
    reveal_strlit("_func");
    reveal_strlit("func");
    reveal_strlit("global");
    lemma_decimal_digits(j as nat);
    let text = candidate(a, i, k);
    assert(text[a.len() as int] == '_');
    let func = synthesized_func_name(j);
    let global = synthesized_global_name(j);
    assert forall|n: int| 0 <= n < func.len() implies func[n] != '_' by {
        if n >= 4 {
            assert(func[n] == decimal(j as nat)[n - 4]);
        }
    }
    assert forall|n: int| 0 <= n < global.len() implies global[n] != '_' by {
        if n >= 6 {
            assert(global[n] == decimal(j as nat)[n - 6]);
        }
    }
}

/// Functions without a name get different names, and so do globals without a name.
pub proof fn law_synthesized_names_are_distinct(i: u32, j: u32)
    requires
        i != j,
    ensures
        synthesized_func_name(i) != synthesized_func_name(j),
        synthesized_global_name(i) != synthesized_global_name(j),
{
    let func = synthesized_func_name(i);
    let global = synthesized_global_name(i);
    if func == synthesized_func_name(j) {
        assert(func.skip("func"@.len() as int) =~= decimal(i as nat));
        assert(func.skip("func"@.len() as int) =~= decimal(j as nat));
        lemma_decimal_injective(i as nat, j as nat);
    }
    if global == synthesized_global_name(j) {
        assert(global.skip("global"@.len() as int) =~= decimal(i as nat));
        assert(global.skip("global"@.len() as int) =~= decimal(j as nat));
        lemma_decimal_injective(i as nat, j as nat);
    }
}

/// Once a module is sanitized, no two functions that have a name are linked under the same name.
pub proof fn law_named_functions_are_linked_apart(module: Module, i: u32, j: u32)
    requires
        module.is_sanitized(),
        module.name_section.func_names@.contains_key(i),
        module.name_section.func_names@.contains_key(j),
        i != j,
    ensures
        module.spec_func_name(i) != module.spec_func_name(j),
{
    let funcs = module.name_section.func_names@;
    let globals = module.name_section.globals_names@;
    module.name_section.func_names.lemma_finite();
    module.name_section.globals_names.lemma_finite();
    lemma_padding(funcs, globals, i);
    lemma_padding(funcs, globals, j);
    if module.spec_func_name(i) == module.spec_func_name(j) {
        if is_shared(funcs, i) && is_shared(funcs, j) {
            law_candidates_are_distinct(
                funcs[i],
                i,
                padding(funcs, globals, i),
                funcs[j],
                j,
                padding(funcs, globals, j),
            );
        } else if is_shared(funcs, i) {
            assert(is_survivor(funcs, funcs[j]));
        } else if is_shared(funcs, j) {
            assert(is_survivor(funcs, funcs[i]));
        } else {
            assert(is_shared(funcs, i));
        }
    }
}

/// Once a module is sanitized, two functions are linked under the same name only if the name
/// section gives one of them, and no other function, the very name that is synthesized for the
/// other one, which it leaves unnamed.
pub proof fn law_functions_are_linked_apart(module: Module, i: u32, j: u32)
    requires
        module.is_sanitized(),
        i != j,
        module.spec_func_name(i) == module.spec_func_name(j),
    ensures
        takes_synthesized_name(module, i, j) || takes_synthesized_name(module, j, i),
{
    let funcs = module.name_section.func_names@;
    let globals = module.name_section.globals_names@;
    if funcs.contains_key(i) && funcs.contains_key(j) {
        law_named_functions_are_linked_apart(module, i, j);
    } else if funcs.contains_key(i) {
        law_candidates_are_not_synthesized(funcs[i], i, padding(funcs, globals, i), j);
    } else if funcs.contains_key(j) {
        law_candidates_are_not_synthesized(funcs[j], j, padding(funcs, globals, j), i);
    } else {
        law_synthesized_names_are_distinct(i, j);
    }
}

/// Whether the function `i`, and no other, is named as the unnamed function `j` would be.
pub open spec fn takes_synthesized_name(module: Module, i: u32, j: u32) -> bool {
    &&& module.name_section.func_names@.contains_key(i)
    &&& !is_shared(module.name_section.func_names@, i)
    &&& module.name_section.func_names@[i] == synthesized_func_name(j)
    &&& !module.name_section.func_names@.contains_key(j)
}

/// Once a module is sanitized, a renamed function is linked under a name that no global has.
pub proof fn law_renamed_functions_avoid_globals(module: Module, i: u32, g: u32)
    requires
        module.is_sanitized(),
        module.linkage_renames@.contains_key(i),
    ensures
        module.spec_func_name(i) != module.spec_global_name(g),
{
    let funcs = module.name_section.func_names@;
    let globals = module.name_section.globals_names@;
    module.name_section.func_names.lemma_finite();
    module.name_section.globals_names.lemma_finite();
    lemma_padding(funcs, globals, i);
    if globals.contains_key(g) {
        assert(names_global(globals, globals[g]));
    } else {
        law_candidates_are_not_synthesized(funcs[i], i, padding(funcs, globals, i), g);
    }
}

/// Once a module is sanitized, a function that shares its name is linked under that name, its
/// index and the least number of underscores that keeps it apart from the names in use.
pub proof fn law_shared_names_are_extended(module: Module, i: u32)
    requires
        module.is_sanitized(),
        is_shared(module.name_section.func_names@, i),
    ensures
        exists|k: nat| #[trigger]
            is_padding(
                module.name_section.func_names@,
                module.name_section.globals_names@,
                i,
                k,
            ) && module.spec_func_name(i) == candidate(module.spec_source_func_name(i), i, k),
        module.spec_source_func_name(i).is_prefix_of(module.spec_func_name(i)),
        module.spec_func_name(i) != module.spec_source_func_name(i),
{
    let funcs = module.name_section.func_names@;
    let globals = module.name_section.globals_names@;
    module.name_section.func_names.lemma_finite();
    module.name_section.globals_names.lemma_finite();
    lemma_padding(funcs, globals, i);
    let k = padding(funcs, globals, i);
    reveal_strlit("_func");
    assert(is_padding(funcs, globals, i, k));
    assert(candidate(funcs[i], i, k).subrange(0, funcs[i].len() as int) =~= funcs[i]);
    assert(candidate(funcs[i], i, k).len() > funcs[i].len());
}

/// Once a module is sanitized, a function that shares its name with no other, or has none, is
/// linked under the name it has in the source program.
pub proof fn law_other_names_are_kept(module: Module, i: u32)
    requires
        module.is_sanitized(),
        !is_shared(module.name_section.func_names@, i),
    ensures
        !module.linkage_renames@.contains_key(i),
        module.spec_func_name(i) == module.spec_source_func_name(i),
{
}

/// A module without shared names is sanitized without renaming anything.
pub proof fn law_unique_names_need_no_renaming(
    before: Module,
    after: Module,
    outcome: Result<(), WasmError>,
)
    requires
        sanitizes(before, after, outcome),
        forall|i: u32| !is_shared(before.name_section.func_names@, i),
    ensures
        outcome is Ok,
        after.linkage_renames@ == Map::<u32, Seq<char>>::empty(),
        forall|i: u32| #[trigger] after.spec_func_name(i) == before.spec_source_func_name(i),
{
    if outcome is Ok {
        assert(after.linkage_renames@ =~= Map::<u32, Seq<char>>::empty());
    }
}

/// Sanitizing, whether it succeeds or not, changes the source name of no function and the name
/// of no global.
pub proof fn law_sanitizing_keeps_source_names(
    before: Module,
    after: Module,
    outcome: Result<(), WasmError>,
    i: u32,
)
    requires
        sanitizes(before, after, outcome),
    ensures
        after.name_section == before.name_section,
        after.spec_source_func_name(i) == before.spec_source_func_name(i),
        after.spec_global_name(i) == before.spec_global_name(i),
{
}

/// A module is refused exactly if a shared name identifies a linker stub.
pub proof fn law_shared_stub_names_are_refused(
    before: Module,
    after: Module,
    outcome: Result<(), WasmError>,
)
    requires
        sanitizes(before, after, outcome),
    ensures
        outcome is Err <==> before.shares_stub_name(),
        outcome is Err ==> after == before,
{
}

/// Sanitizing a sanitized module again succeeds and leaves every name as it is.
pub proof fn law_sanitizing_is_idempotent(
    before: Module,
    once: Module,
    twice: Module,
    outcome: Result<(), WasmError>,
)
    requires
        sanitizes(before, once, Ok(())),
        sanitizes(once, twice, outcome),
    ensures
        outcome is Ok,
        twice.name_section == once.name_section,
        twice.linkage_renames@ == once.linkage_renames@,
        forall|i: u32| #[trigger] twice.spec_func_name(i) == once.spec_func_name(i),
{
}

/// In a module that sanitizing accepts, linker stubs are linked under the names that identify
/// them, and no other function is linked under such a name.
pub proof fn law_linker_stubs_stay_recognisable(before: Module, after: Module, i: u32)
    requires
        sanitizes(before, after, Ok(())),
    ensures
        names_linker_stub(after.spec_func_name(i)) <==> names_linker_stub(
            before.spec_source_func_name(i),
        ),
        names_linker_stub(before.spec_source_func_name(i)) ==> after.spec_func_name(i)
            == before.spec_source_func_name(i),
{
    let funcs = before.name_section.func_names@;
    if is_shared(funcs, i) {
        let k = padding(funcs, before.name_section.globals_names@, i);
        lemma_candidate_names_stub(funcs[i], i, k, "intrinsics::"@);
        lemma_candidate_names_stub(funcs[i], i, k, "miden::"@);
    }
}

/// A namespace, which holds no underscore, encloses a linkage name only if it encloses the name
/// that the linkage name extends.
proof fn lemma_candidate_names_stub(name: Seq<char>, i: u32, k: nat, namespace: Seq<char>)
    requires
        namespace == "intrinsics::"@ || namespace == "miden::"@,
    ensures
        namespace.is_prefix_of(candidate(name, i, k)) ==> namespace.is_prefix_of(name),
{
    reveal_strlit("_func");
    reveal_strlit("intrinsics::");
    reveal_strlit("miden::");
    let text = candidate(name, i, k);
    assert(forall|n: int| 0 <= n < namespace.len() ==> namespace[n] != '_');
    if namespace.is_prefix_of(text) {
        assert(forall|n: int| 0 <= n < namespace.len() ==> namespace[n] == text[n]);
        if name.len() < namespace.len() {
            assert(text[name.len() as int] == '_');
        }
        assert(name.subrange(0, namespace.len() as int) =~= namespace);
    }
}

/// The linkage names depend on the names alone, not on the linkage names that were there before.
pub proof fn law_linkage_names_depend_on_names_alone(
    a: Module,
    b: Module,
    after_a: Module,
    after_b: Module,
)
    requires
        a.name_section.func_names@ == b.name_section.func_names@,
        a.name_section.globals_names@ == b.name_section.globals_names@,
        sanitizes(a, after_a, Ok(())),
        sanitizes(b, after_b, Ok(())),
    ensures
        after_a.linkage_renames@ == after_b.linkage_renames@,
        forall|i: u32| #[trigger] after_a.spec_func_name(i) == after_b.spec_func_name(i),
{
}

/// Whether `n` is the last position in `names` that gives the function `i` a name.
pub open spec fn names_last(names: Seq<(u32, &str)>, i: u32, n: int) -> bool {
    &&& 0 <= n < names.len()
    &&& names[n].0 == i
    &&& forall|m: int| n < m < names.len() ==> (#[trigger] names[m]).0 != i
}

/// Of the names that are given to a function one after the other, the last one stays; a function
/// that is given none has none.
pub proof fn law_last_func_name_stays(names: Seq<(u32, &str)>, i: u32)
    ensures
        forall|n: int| #[trigger]
            names_last(names, i, n) ==> func_names_of(names).contains_key(i) && func_names_of(
                names,
            )[i] == names[n].1@,
        (forall|n: int| 0 <= n < names.len() ==> (#[trigger] names[n]).0 != i)
            ==> !func_names_of(names).contains_key(i),
    decreases names.len(),
{
    if names.len() > 0 {
        let rest = names.drop_last();
        law_last_func_name_stays(rest, i);
        assert forall|n: int| #[trigger] names_last(names, i, n) implies func_names_of(
            names,
        ).contains_key(i) && func_names_of(names)[i] == names[n].1@ by {
            if n < rest.len() {
                assert(names[names.len() - 1].0 != i);
                assert(names_last(rest, i, n)) by {
                    assert forall|m: int| n < m < rest.len() implies (#[trigger] rest[m]).0
                        != i by {
                        assert(names[m].0 != i);
                    }
                }
            }
        }
        if forall|n: int| 0 <= n < names.len() ==> (#[trigger] names[n]).0 != i {
            assert(names[names.len() - 1].0 != i);
            assert forall|n: int| 0 <= n < rest.len() implies (#[trigger] rest[n]).0 != i by {
                assert(names[n].0 != i);
            }
        }
    }
}

/// The metadata of two groups of modules in one list is that of the first, then that of the
/// second.
pub proof fn law_merging_concatenates(a: Seq<ParsedModule>, b: Seq<ParsedModule>)
    ensures
        merged(a + b) == merged(a) + merged(b),
    decreases b.len(),
{
    if b.len() == 0 {
        assert(a + b =~= a);
        assert(merged(b) =~= Seq::<FrontendMetadata>::empty());
    } else {
        let rest = b.drop_last();
        law_merging_concatenates(a, rest);
        lemma_merged_push(a + rest, b.last());
        lemma_merged_push(rest, b.last());
        assert(a + b =~= (a + rest).push(b.last()));
        assert(b =~= rest.push(b.last()));
        assert(merged(a + b) =~= merged(a) + merged(b));
    }
}

/// The merged list holds the entries of the modules and nothing else.
pub proof fn law_merging_keeps_every_entry(modules: Seq<ParsedModule>, entry: FrontendMetadata)
    ensures
        merged(modules).contains(entry) <==> exists|n: int|
            0 <= n < modules.len() && #[trigger] modules[n].component_frontend_metadata@.contains(
                entry,
            ),
    decreases modules.len(),
{
    if modules.len() > 0 {
        let rest = modules.drop_last();
        let last = modules.last().component_frontend_metadata@;
        law_merging_keeps_every_entry(rest, entry);
        lemma_merged_push(rest, modules.last());
        assert(modules =~= rest.push(modules.last()));
        if merged(modules).contains(entry) {
            let p = merged(modules).index_of(entry);
            if p < merged(rest).len() {
                assert(merged(rest)[p] == entry);
                let n = choose|n: int|
                    0 <= n < rest.len()
                        && #[trigger] rest[n].component_frontend_metadata@.contains(entry);
                assert(modules[n].component_frontend_metadata@.contains(entry));
            } else {
                assert(last[p - merged(rest).len()] == entry);
                assert(modules[modules.len() - 1].component_frontend_metadata@.contains(entry));
            }
        }
        if exists|n: int|
            0 <= n < modules.len() && #[trigger] modules[n].component_frontend_metadata@.contains(
                entry,
            ) {
            let n = choose|n: int|
                0 <= n < modules.len()
                    && #[trigger] modules[n].component_frontend_metadata@.contains(entry);
            if n < rest.len() {
                assert(rest[n].component_frontend_metadata@.contains(entry));
                let p = merged(rest).index_of(entry);
                assert(merged(modules)[p] == entry);
            } else {
                let p = last.index_of(entry);
                assert(merged(modules)[merged(rest).len() + p] == entry);
            }
        }
    } else {
        assert(merged(modules) =~= Seq::<FrontendMetadata>::empty());
    }
}

/// Exports that are lifted in addition never make valid metadata invalid.
pub proof fn law_more_exports_stay_valid(
    metadata: Seq<FrontendMetadata>,
    lifted: Set<Seq<char>>,
    more: Set<Seq<char>>,
)
    requires
        all_lifted(metadata, lifted),
        lifted.subset_of(more),
    ensures
        all_lifted(metadata, more),
{
}

/// Merged metadata is valid exactly if that of each module is.
pub proof fn law_merged_metadata_is_valid_module_by_module(
    modules: Seq<ParsedModule>,
    lifted: Set<Seq<char>>,
)
    ensures
        all_lifted(merged(modules), lifted) <==> forall|n: int|
            0 <= n < modules.len() ==> all_lifted(
                (#[trigger] modules[n]).component_frontend_metadata@,
                lifted,
            ),
    decreases modules.len(),
{
    if modules.len() == 0 {
        assert(merged(modules) =~= Seq::<FrontendMetadata>::empty());
    } else {
        let rest = modules.drop_last();
        let last = modules.last().component_frontend_metadata@;
        law_merged_metadata_is_valid_module_by_module(rest, lifted);
        lemma_merged_push(rest, modules.last());
        assert(modules =~= rest.push(modules.last()));
        let all = merged(modules);
        if all_lifted(all, lifted) {
            assert forall|n: int| 0 <= n < merged(rest).len() implies is_lifted(
                #[trigger] merged(rest)[n],
                lifted,
            ) by {
                assert(is_lifted(all[n], lifted));
            }
            assert forall|n: int| 0 <= n < last.len() implies is_lifted(
                #[trigger] last[n],
                lifted,
            ) by {
                assert(is_lifted(all[merged(rest).len() + n], lifted));
            }
            assert forall|n: int| 0 <= n < modules.len() implies all_lifted(
                (#[trigger] modules[n]).component_frontend_metadata@,
                lifted,
            ) by {
                if n < rest.len() {
                    assert(rest[n] == modules[n]);
                }
            }
        }
        if forall|n: int|
            0 <= n < modules.len() ==> all_lifted(
                (#[trigger] modules[n]).component_frontend_metadata@,
                lifted,
            ) {
            assert forall|n: int| 0 <= n < rest.len() implies all_lifted(
                (#[trigger] rest[n]).component_frontend_metadata@,
                lifted,
            ) by {
                assert(rest[n] == modules[n]);
            }
            assert(all_lifted(modules[modules.len() - 1].component_frontend_metadata@, lifted));
            assert(all_lifted(all, lifted));
        }
    }
}

} // verus!
