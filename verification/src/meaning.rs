//! What the operations of this crate mean: laws that speak of the inputs themselves, the name
//! section, the fields of metadata and the literal texts, and of the results.

use crate::decimal::{decimal, lemma_decimal_digits};
use crate::error::WasmError;
use crate::linkage::{
    candidate, is_padding, is_shared, is_survivor, is_taken, lemma_padding, names_global, padding,
    underscores,
};
use crate::linker_stubs::names_linker_stub;
use crate::metadata::{all_lifted, is_first_missing, is_lifted, merged, FrontendMetadata};
use crate::module::{sanitizes, Module};
use crate::parsed::ParsedModule;
use crate::symbol::Symbol;
use vstd::prelude::*;

verus! {

/// The number that `digits` denotes when it is read in base ten.
pub open spec fn number_read(digits: Seq<char>) -> int
    decreases digits.len(),
{
    if digits.len() == 0 {
        0
    } else {
        10 * number_read(digits.drop_last()) + (digits.last() as int - '0' as int)
    }
}

/// Whether `digits` is how `n` is written in base ten: at least one digit, nothing but digits, no
/// leading zero, and the number that is read is `n`.
pub open spec fn is_numeral(digits: Seq<char>, n: int) -> bool {
    &&& digits.len() > 0
    &&& forall|p: int| 0 <= p < digits.len() ==> '0' <= #[trigger] digits[p] <= '9'
    &&& digits[0] == '0' ==> digits.len() == 1
    &&& number_read(digits) == n
}

/// A rendered number reads back as that number.
pub proof fn law_decimals_read_back(n: nat)
    ensures
        is_numeral(decimal(n), n as int),
    decreases n,
{
    lemma_decimal_digits(n);
    assert(number_read(Seq::<char>::empty()) == 0);
    if n >= 10 {
        law_decimals_read_back(n / 10);
        lemma_decimal_digits(n / 10);
        assert(decimal(n).drop_last() =~= decimal(n / 10));
        if decimal(n)[0] == '0' {
            assert(decimal(n / 10)[0] == '0');
            assert(decimal(n / 10).drop_last() =~= Seq::<char>::empty());
            assert(number_read(decimal(n / 10)) == 0);
        }
    } else {
        assert(decimal(n).drop_last() =~= Seq::<char>::empty());
    }
}

/// A number below ten is rendered as one digit, and a further digit goes behind the rendering of
/// the number in front of it.
pub proof fn law_decimals_grow_digit_by_digit(n: nat, d: nat)
    requires
        d < 10,
    ensures
        decimal(d).len() == 1,
        decimal(d)[0] as int == '0' as int + d,
        n > 0 ==> decimal(10 * n + d) == decimal(n) + decimal(d),
{
    if n > 0 {
        assert((10 * n + d) / 10 == n);
        assert((10 * n + d) % 10 == d);
        assert(decimal(10 * n + d) =~= decimal(n) + decimal(d));
    }
}

/// A number is written in base ten in one way only.
pub proof fn law_numerals_are_unique(a: Seq<char>, b: Seq<char>, n: int)
    requires
        is_numeral(a, n),
        is_numeral(b, n),
    ensures
        a == b,
    decreases a.len(),
{
    lemma_read_is_natural(a.drop_last());
    lemma_read_is_natural(b.drop_last());
    assert('0' <= a[a.len() - 1] <= '9');
    assert('0' <= b[b.len() - 1] <= '9');
    assert(a.last() == b.last());
    assert(number_read(a.drop_last()) == number_read(b.drop_last()));
    if a.len() > 1 && b.len() > 1 {
        law_numerals_are_unique(a.drop_last(), b.drop_last(), number_read(a.drop_last()));
        assert(a =~= a.drop_last().push(a.last()));
        assert(b =~= b.drop_last().push(b.last()));
    } else if a.len() > 1 {
        lemma_read_is_positive(a.drop_last());
        assert(b.drop_last() =~= Seq::<char>::empty());
    } else if b.len() > 1 {
        lemma_read_is_positive(b.drop_last());
        assert(a.drop_last() =~= Seq::<char>::empty());
    } else {
        assert(a =~= b);
    }
}

proof fn lemma_read_is_natural(digits: Seq<char>)
    requires
        forall|p: int| 0 <= p < digits.len() ==> '0' <= #[trigger] digits[p] <= '9',
    ensures
        number_read(digits) >= 0,
    decreases digits.len(),
{
    if digits.len() > 0 {
        assert('0' <= digits[digits.len() - 1] <= '9');
        lemma_read_is_natural(digits.drop_last());
    }
}

proof fn lemma_read_is_positive(digits: Seq<char>)
    requires
        digits.len() > 0,
        digits[0] != '0',
        forall|p: int| 0 <= p < digits.len() ==> '0' <= #[trigger] digits[p] <= '9',
    ensures
        number_read(digits) > 0,
    decreases digits.len(),
{
    assert('0' <= digits[digits.len() - 1] <= '9');
    assert(number_read(Seq::<char>::empty()) == 0);
    if digits.len() > 1 {
        lemma_read_is_positive(digits.drop_last());
    } else {
        assert(digits.drop_last() =~= Seq::<char>::empty());
    }
}

/// A function that the name section names has that name in the source program; another one is
/// called `func` and its own index in base ten.
pub proof fn law_source_names(module: Module, i: u32)
    ensures
        module.name_section.func_names@.contains_key(i) ==> module.spec_source_func_name(i)
            == module.name_section.func_names@[i],
        !module.name_section.func_names@.contains_key(i) ==> exists|digits: Seq<char>| #[trigger]
            is_numeral(digits, i as int) && module.spec_source_func_name(i) == "func"@ + digits,
{
    law_decimals_read_back(i as nat);
}

/// A function is linked under its linkage name where it has one; without it, under the name that
/// the name section gives it; and without that, as `func` and its own index in base ten.
pub proof fn law_linked_names(module: Module, i: u32)
    ensures
        module.linkage_renames@.contains_key(i) ==> module.spec_func_name(i)
            == module.linkage_renames@[i],
        !module.linkage_renames@.contains_key(i) && module.name_section.func_names@.contains_key(i)
            ==> module.spec_func_name(i) == module.name_section.func_names@[i],
        !module.linkage_renames@.contains_key(i) && !module.name_section.func_names@.contains_key(i)
            ==> exists|digits: Seq<char>| #[trigger]
            is_numeral(digits, i as int) && module.spec_func_name(i) == "func"@ + digits,
{
    law_decimals_read_back(i as nat);
}

/// A global that the name section names has that name; another one is called `global` and its own
/// index in base ten.
pub proof fn law_global_names(module: Module, g: u32)
    ensures
        module.name_section.globals_names@.contains_key(g) ==> module.spec_global_name(g)
            == module.name_section.globals_names@[g],
        !module.name_section.globals_names@.contains_key(g) ==> exists|digits: Seq<char>| #[trigger]
            is_numeral(digits, g as int) && module.spec_global_name(g) == "global"@ + digits,
{
    law_decimals_read_back(g as nat);
}

/// An empty module has no globals, names nothing and renames nothing.
pub proof fn law_empty_modules_name_nothing(module: Module, i: u32)
    requires
        module.is_empty_module(),
    ensures
        module.globals@.len() == 0,
        !module.name_section.func_names@.contains_key(i),
        !module.name_section.globals_names@.contains_key(i),
        !module.linkage_renames@.contains_key(i),
{
}

/// Whether two functions have the name `text`.
pub open spec fn occurs_twice(funcs: Map<u32, Seq<char>>, text: Seq<char>) -> bool {
    exists|i: u32, j: u32|
        i != j && #[trigger] funcs.contains_key(i) && #[trigger] funcs.contains_key(j) && funcs[i]
            == text && funcs[j] == text
}

/// Whether some function has the name `text`, and only one, or some global has it.
pub open spec fn stays_in_use(
    funcs: Map<u32, Seq<char>>,
    globals: Map<u32, Seq<char>>,
    text: Seq<char>,
) -> bool {
    ||| !occurs_twice(funcs, text) && exists|i: u32| #[trigger]
        funcs.contains_key(i) && funcs[i] == text
    ||| exists|g: u32| #[trigger] globals.contains_key(g) && globals[g] == text
}

proof fn lemma_stays_in_use(
    funcs: Map<u32, Seq<char>>,
    globals: Map<u32, Seq<char>>,
    text: Seq<char>,
)
    ensures
        is_taken(funcs, globals, text) <==> stays_in_use(funcs, globals, text),
{
    if is_survivor(funcs, text) {
        let i = choose|i: u32| #[trigger]
            funcs.contains_key(i) && !is_shared(funcs, i) && funcs[i] == text;
        if occurs_twice(funcs, text) {
            let (a, b) = choose|a: u32, b: u32|
                a != b && #[trigger] funcs.contains_key(a) && #[trigger] funcs.contains_key(b)
                    && funcs[a] == text && funcs[b] == text;
            assert(is_shared(funcs, i));
        }
        assert(funcs.contains_key(i) && funcs[i] == text);
    }
    if !occurs_twice(funcs, text) && exists|i: u32| #[trigger]
        funcs.contains_key(i) && funcs[i] == text {
        let i = choose|i: u32| #[trigger] funcs.contains_key(i) && funcs[i] == text;
        assert(!is_shared(funcs, i));
        assert(is_survivor(funcs, text));
    }
    assert(names_global(globals, text) <==> exists|g: u32| #[trigger]
        globals.contains_key(g) && globals[g] == text);
}

/// Whether `linked` is `source`, then `_func`, then `index` in base ten, then underscores: just as
/// many as it takes, for `linked` is a name that does not stay in use, and with fewer underscores
/// it would be one that does.
pub open spec fn is_linkage_name(
    funcs: Map<u32, Seq<char>>,
    globals: Map<u32, Seq<char>>,
    source: Seq<char>,
    index: int,
    linked: Seq<char>,
) -> bool {
    exists|digits: Seq<char>, tail: Seq<char>|
        {
            &&& #[trigger] is_numeral(digits, index)
            &&& linked == #[trigger] (source + "_func"@ + digits + tail)
            &&& forall|p: int| 0 <= p < tail.len() ==> #[trigger] tail[p] == '_'
            &&& !stays_in_use(funcs, globals, linked)
            &&& forall|n: int|
                0 <= n < tail.len() ==> #[trigger] stays_in_use(
                    funcs,
                    globals,
                    linked.take(source.len() + "_func"@.len() + digits.len() + n),
                )
        }
}

/// Two functions of the same name, in a module that is accepted, are each linked under that name,
/// `_func`, their own index in base ten, and the fewest underscores that make the name free.
pub proof fn law_shared_names_are_numbered(before: Module, after: Module, i: u32, j: u32)
    requires
        sanitizes(before, after, Ok(())),
        i != j,
        before.name_section.func_names@.contains_key(i),
        before.name_section.func_names@.contains_key(j),
        before.name_section.func_names@[i] == before.name_section.func_names@[j],
    ensures
        after.linkage_renames@.contains_key(i),
        after.spec_func_name(i) == after.linkage_renames@[i],
        is_linkage_name(
            before.name_section.func_names@,
            before.name_section.globals_names@,
            before.name_section.func_names@[i],
            i as int,
            after.linkage_renames@[i],
        ),
{
    let funcs = before.name_section.func_names@;
    let globals = before.name_section.globals_names@;
    let source = funcs[i];
    before.name_section.func_names.lemma_finite();
    before.name_section.globals_names.lemma_finite();
    lemma_padding(funcs, globals, i);
    let k = padding(funcs, globals, i);
    let linked = candidate(source, i, k);
    let digits = decimal(i as nat);
    let tail = underscores(k);
    assert(is_shared(funcs, i));
    assert(after.linkage_renames@[i] == linked);
    law_decimals_read_back(i as nat);
    assert(is_padding(funcs, globals, i, k));
    assert(is_numeral(digits, i as int));
    assert(linked == source + "_func"@ + digits + tail);
    lemma_stays_in_use(funcs, globals, linked);
    assert forall|n: int| 0 <= n < tail.len() implies #[trigger] stays_in_use(
        funcs,
        globals,
        linked.take(source.len() + "_func"@.len() + digits.len() + n),
    ) by {
        let shorter = candidate(source, i, n as nat);
        assert(linked.take(source.len() + "_func"@.len() + digits.len() + n) =~= shorter);
        lemma_stays_in_use(funcs, globals, shorter);
    }
}

/// A function that shares its name with no other, or has none, is not renamed: in a module that is
/// accepted it is linked under the name that the name section gives it.
pub proof fn law_unshared_names_are_kept(before: Module, after: Module, i: u32)
    requires
        sanitizes(before, after, Ok(())),
        forall|j: u32|
            j != i && #[trigger] before.name_section.func_names@.contains_key(j)
                && before.name_section.func_names@.contains_key(i)
                ==> before.name_section.func_names@[j] != before.name_section.func_names@[i],
    ensures
        !after.linkage_renames@.contains_key(i),
        before.name_section.func_names@.contains_key(i) ==> after.spec_func_name(i)
            == before.name_section.func_names@[i],
        !before.name_section.func_names@.contains_key(i) ==> exists|digits: Seq<char>| #[trigger]
            is_numeral(digits, i as int) && after.spec_func_name(i) == "func"@ + digits,
{
    assert(!is_shared(before.name_section.func_names@, i));
    law_decimals_read_back(i as nat);
}

/// Whatever sanitizing reports, the globals and the name section stay as they are; and where it
/// reports an error, so do the linkage names.
pub proof fn law_sanitizing_changes_linkage_names_alone(
    before: Module,
    after: Module,
    outcome: Result<(), WasmError>,
)
    requires
        sanitizes(before, after, outcome),
    ensures
        after.globals == before.globals,
        after.name_section == before.name_section,
        outcome is Err ==> after.linkage_renames == before.linkage_renames,
{
}

/// Whether `text` is a path in the namespace of the intrinsics or in that of the Miden ABI.
pub open spec fn is_reserved(text: Seq<char>) -> bool {
    ||| exists|rest: Seq<char>| text == #[trigger] ("intrinsics::"@ + rest)
    ||| exists|rest: Seq<char>| text == #[trigger] ("miden::"@ + rest)
}

/// A function is a linker stub exactly if its name is `intrinsics::` or `miden::` and any text.
pub proof fn law_reserved_names_are_stub_names(text: Seq<char>)
    ensures
        names_linker_stub(text) <==> is_reserved(text),
{
    let intrinsics = "intrinsics::"@;
    let miden = "miden::"@;
    if intrinsics.is_prefix_of(text) {
        assert(text =~= intrinsics + text.skip(intrinsics.len() as int));
    }
    if miden.is_prefix_of(text) {
        assert(text =~= miden + text.skip(miden.len() as int));
    }
    if exists|rest: Seq<char>| text == #[trigger] (intrinsics + rest) {
        assert(text.subrange(0, intrinsics.len() as int) =~= intrinsics);
    }
    if exists|rest: Seq<char>| text == #[trigger] (miden + rest) {
        assert(text.subrange(0, miden.len() as int) =~= miden);
    }
}

/// A module in which two functions are both named `intrinsics::` and the same text, or both
/// `miden::` and the same text, is refused and left as it is.
pub proof fn law_modules_with_shared_stubs_are_refused(
    before: Module,
    after: Module,
    outcome: Result<(), WasmError>,
    i: u32,
    j: u32,
    text: Seq<char>,
)
    requires
        sanitizes(before, after, outcome),
        i != j,
        before.name_section.func_names@.contains_key(i),
        before.name_section.func_names@.contains_key(j),
        before.name_section.func_names@[i] == before.name_section.func_names@[j],
        before.name_section.func_names@[i] == "intrinsics::"@ + text
            || before.name_section.func_names@[i] == "miden::"@ + text,
    ensures
        outcome is Err,
        after == before,
{
    let name = before.name_section.func_names@[i];
    assert(is_reserved(name));
    law_reserved_names_are_stub_names(name);
    assert(is_shared(before.name_section.func_names@, i));
}

/// Whether the function `i` has a reserved name, and another function has the same.
pub open spec fn is_ambiguous_stub(funcs: Map<u32, Seq<char>>, i: u32) -> bool {
    &&& funcs.contains_key(i)
    &&& is_reserved(funcs[i])
    &&& exists|j: u32| j != i && #[trigger] funcs.contains_key(j) && funcs[j] == funcs[i]
}

/// A module is refused only because functions share a reserved name, and the error holds the name
/// of the one with the least index.
pub proof fn law_refusals_report_the_first_shared_stub(
    before: Module,
    after: Module,
    error: WasmError,
)
    requires
        sanitizes(before, after, Err(error)),
    ensures
        exists|i: u32|
            {
                &&& #[trigger] is_ambiguous_stub(before.name_section.func_names@, i)
                &&& error matches WasmError::DuplicateLinkerStub { name }
                &&& name@ == before.name_section.func_names@[i]
                &&& forall|f: u32|
                    f < i ==> !#[trigger] is_ambiguous_stub(before.name_section.func_names@, f)
            },
{
    let funcs = before.name_section.func_names@;
    assert forall|f: u32| #[trigger] is_ambiguous_stub(funcs, f) <==> is_shared(funcs, f)
        && names_linker_stub(funcs[f]) by {
        law_reserved_names_are_stub_names(funcs[f]);
    }
    let i = choose|i: u32| #[trigger]
        crate::linkage::is_first_shared_stub(funcs, i) && error->name@ == funcs[i];
    assert(is_ambiguous_stub(funcs, i));
    assert forall|f: u32| f < i implies !#[trigger] is_ambiguous_stub(funcs, f) by {
        if is_shared(funcs, f) {
            assert(!names_linker_stub(funcs[f]));
        }
    }
}

/// The parts of an entry are those it was made of.
pub proof fn law_entries_hold_their_parts(method: String, export: String)
    ensures
        ({
            let auth = FrontendMetadata::AuthScript { method_path: method, export_name: export };
            &&& auth.spec_attribute() == "#[auth_script]"@
            &&& auth.spec_method_path() == method@
            &&& auth.spec_export_name() == export@
        }),
        ({
            let procedure = FrontendMetadata::AccountProcedure {
                method_path: method,
                export_name: export,
            };
            &&& procedure.spec_attribute() == "#[account_procedure]"@
            &&& procedure.spec_method_path() == method@
            &&& procedure.spec_export_name() == export@
        }),
{
}

/// Whether the export of `entry`, by its own field, is a member of `lifted`.
pub open spec fn has_its_export_in(entry: FrontendMetadata, lifted: Set<Seq<char>>) -> bool {
    match entry {
        FrontendMetadata::AuthScript { export_name, .. } => lifted.contains(export_name@),
        FrontendMetadata::AccountProcedure { export_name, .. } => lifted.contains(export_name@),
    }
}

/// Metadata passes exactly if the export of every entry is a member of the lifted exports.
pub proof fn law_valid_metadata_has_every_export(
    metadata: Seq<FrontendMetadata>,
    lifted: Set<Seq<char>>,
)
    ensures
        all_lifted(metadata, lifted) <==> forall|n: int|
            0 <= n < metadata.len() ==> has_its_export_in(#[trigger] metadata[n], lifted),
        forall|n: int|
            0 <= n < metadata.len() && !has_its_export_in(#[trigger] metadata[n], lifted)
                ==> !all_lifted(metadata, lifted),
{
    assert forall|n: int| 0 <= n < metadata.len() implies is_lifted(#[trigger] metadata[n], lifted)
        == has_its_export_in(metadata[n], lifted) by {}
}

/// The entry that is reported is one whose export is no member of the lifted exports, and those of
/// all entries in front of it are members.
pub proof fn law_reported_entry_is_the_first_without_export(
    metadata: Seq<FrontendMetadata>,
    lifted: Set<Seq<char>>,
    n: int,
)
    ensures
        is_first_missing(metadata, lifted, n) <==> {
            &&& 0 <= n < metadata.len()
            &&& !has_its_export_in(metadata[n], lifted)
            &&& forall|m: int| 0 <= m < n ==> has_its_export_in(#[trigger] metadata[m], lifted)
        },
{
    assert forall|m: int| 0 <= m < metadata.len() implies is_lifted(#[trigger] metadata[m], lifted)
        == has_its_export_in(metadata[m], lifted) by {}
}

/// The metadata of one module is merged as it stands.
pub proof fn law_merging_one_module_changes_nothing(module: ParsedModule)
    ensures
        merged(seq![module]) == module.component_frontend_metadata@,
        merged(Seq::<ParsedModule>::empty()) == Seq::<FrontendMetadata>::empty(),
{
    let none = Seq::<ParsedModule>::empty();
    crate::metadata::lemma_merged_push(none, module);
    assert(seq![module] =~= none.push(module));
    assert(merged(none) =~= Seq::<FrontendMetadata>::empty());
}

/// Whether `part` occurs in `text`.
pub open spec fn occurs_in(part: Seq<char>, text: Seq<char>) -> bool {
    exists|front: Seq<char>, back: Seq<char>| text == #[trigger] (front + part + back)
}

/// The text of an error about a stub name quotes the name and says what it identifies.
pub proof fn law_stub_errors_quote_the_name(name: Symbol)
    ensures
        occurs_in(
            "`"@ + name@ + "`"@,
            (WasmError::DuplicateLinkerStub { name }).message(),
        ),
        occurs_in(
            "identifies an intrinsic or Miden ABI linker stub"@,
            (WasmError::DuplicateLinkerStub { name }).message(),
        ),
{
    reveal_strlit("several functions are named `");
    reveal_strlit("several functions are named ");
    reveal_strlit("`, which identifies an intrinsic or Miden ABI linker stub");
    reveal_strlit(", which identifies an intrinsic or Miden ABI linker stub");
    reveal_strlit("identifies an intrinsic or Miden ABI linker stub");
    reveal_strlit("`, which ");
    reveal_strlit("`");
    let text = (WasmError::DuplicateLinkerStub { name }).message();
    assert(text =~= "several functions are named "@ + ("`"@ + name@ + "`"@)
        + ", which identifies an intrinsic or Miden ABI linker stub"@);
    assert(text =~= ("several functions are named `"@ + name@ + "`, which "@)
        + "identifies an intrinsic or Miden ABI linker stub"@ + Seq::<char>::empty());
}

/// The text of an error about a missing export quotes the attribute, the path and the export.
pub proof fn law_export_errors_quote_the_entry(method: String, export: String)
    ensures
        occurs_in(
            "failed to find the component export marked with `#[auth_script]`: `"@ + method@ + "`"@,
            missing(FrontendMetadata::AuthScript { method_path: method, export_name: export }),
        ),
        occurs_in(
            "expected lifted export `"@ + export@ + "`"@,
            missing(FrontendMetadata::AuthScript { method_path: method, export_name: export }),
        ),
        occurs_in(
            "failed to find the component export marked with `#[account_procedure]`: `"@ + method@
                + "`"@,
            missing(FrontendMetadata::AccountProcedure {
                method_path: method,
                export_name: export,
            }),
        ),
        occurs_in(
            "expected lifted export `"@ + export@ + "`"@,
            missing(FrontendMetadata::AccountProcedure {
                method_path: method,
                export_name: export,
            }),
        ),
{
    reveal_strlit("failed to find the component export marked with `");
    reveal_strlit("failed to find the component export marked with `#[auth_script]`: `");
    reveal_strlit("failed to find the component export marked with `#[account_procedure]`: `");
    reveal_strlit("#[auth_script]");
    reveal_strlit("#[account_procedure]");
    reveal_strlit("`: `");
    reveal_strlit("`");
    reveal_strlit("`, ");
    reveal_strlit(", expected lifted export `");
    reveal_strlit("`, expected lifted export `");
    reveal_strlit("expected lifted export `");
    let close = "`"@;
    let wanted = "expected lifted export `"@ + export@ + close;
    let behind = ", expected lifted export `"@ + export@ + close;
    let none = Seq::<char>::empty();
    let a = missing(FrontendMetadata::AuthScript { method_path: method, export_name: export });
    let a_path = "failed to find the component export marked with `#[auth_script]`: `"@ + method@;
    assert(a =~= none + (a_path + close) + behind);
    assert(a =~= (a_path + "`, "@) + wanted + none);
    let p = missing(
        FrontendMetadata::AccountProcedure { method_path: method, export_name: export },
    );
    let p_path = "failed to find the component export marked with `#[account_procedure]`: `"@
        + method@;
    assert(p =~= none + (p_path + close) + behind);
    assert(p =~= (p_path + "`, "@) + wanted + none);
}

/// The texts of two errors about stub names differ in the names alone.
pub proof fn law_stub_errors_differ_in_the_name_alone(a: Symbol, b: Symbol)
    ensures
        exists|front: Seq<char>, back: Seq<char>|
            (WasmError::DuplicateLinkerStub { name: a }).message() == #[trigger] (front + a@ + back)
                && (WasmError::DuplicateLinkerStub { name: b }).message() == front + b@ + back,
{
    let front = "several functions are named `"@;
    let back = "`, which identifies an intrinsic or Miden ABI linker stub"@;
    assert((WasmError::DuplicateLinkerStub { name: a }).message() == front + a@ + back);
    assert((WasmError::DuplicateLinkerStub { name: b }).message() == front + b@ + back);
}

/// The texts of two errors about missing exports differ in the attribute, the path and the export
/// alone.
pub proof fn law_export_errors_differ_in_the_entry_alone(
    method: String,
    export: String,
    other_method: String,
    other_export: String,
)
    ensures
        exists|front: Seq<char>, second: Seq<char>, third: Seq<char>, back: Seq<char>|
            {
                &&& missing(
                    FrontendMetadata::AuthScript { method_path: method, export_name: export },
                ) == #[trigger] (front + "#[auth_script]"@ + second + method@ + third + export@
                    + back)
                &&& missing(
                    FrontendMetadata::AccountProcedure {
                        method_path: other_method,
                        export_name: other_export,
                    },
                ) == front + "#[account_procedure]"@ + second + other_method@ + third
                    + other_export@ + back
            },
{
    let front = "failed to find the component export marked with `"@;
    let second = "`: `"@;
    let third = "`, expected lifted export `"@;
    let back = "`"@;
    assert(missing(FrontendMetadata::AuthScript { method_path: method, export_name: export })
        == front + "#[auth_script]"@ + second + method@ + third + export@ + back);
}

/// The text of the error about the missing export of `metadata`.
pub open spec fn missing(metadata: FrontendMetadata) -> Seq<char> {
    (WasmError::MissingLiftedExport { metadata }).message()
}

/// Symbols compare equal exactly if their texts are the same.
pub proof fn law_symbols_are_equal_by_text(a: Symbol, b: Symbol)
    ensures
        vstd::std_specs::cmp::PartialEqSpec::eq_spec(&a, &b) <==> a@ == b@,
{
}

} // verus!
