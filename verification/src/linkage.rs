//! Linkage names for functions that share their name with another function.
//!
//! The name section of a module may give several functions the same name. Such functions are
//! renamed: a function named `foo` with index 2 gets the linkage name `foo_func2`, and as many
//! trailing underscores as it takes not to collide with a name that stays in use.

use crate::decimal::{decimal, push_decimal};
use crate::entity::{FuncIndex, GlobalIndex};
use crate::linker_stubs::{is_linker_stub_name, names_linker_stub};
use crate::names::{lists_names, NameMap};
use crate::symbol::Symbol;
use vstd::hash_set::StringHashSet;
use vstd::prelude::*;

verus! {

/// Whether the function `i` has a name that another function has too.
pub open spec fn is_shared(funcs: Map<u32, Seq<char>>, i: u32) -> bool {
    &&& funcs.contains_key(i)
    &&& exists|j: u32| j != i && #[trigger] funcs.contains_key(j) && funcs[j] == funcs[i]
}

/// Whether `text` is the name of a function that shares it with no other.
pub open spec fn is_survivor(funcs: Map<u32, Seq<char>>, text: Seq<char>) -> bool {
    exists|i: u32| #[trigger] funcs.contains_key(i) && !is_shared(funcs, i) && funcs[i] == text
}

/// Whether `text` is the name of a global.
pub open spec fn names_global(globals: Map<u32, Seq<char>>, text: Seq<char>) -> bool {
    exists|g: u32| #[trigger] globals.contains_key(g) && globals[g] == text
}

/// Whether `text` stays in use as a name, so that no renamed function may have it.
pub open spec fn is_taken(
    funcs: Map<u32, Seq<char>>,
    globals: Map<u32, Seq<char>>,
    text: Seq<char>,
) -> bool {
    is_survivor(funcs, text) || names_global(globals, text)
}

/// A run of `k` underscores.
pub open spec fn underscores(k: nat) -> Seq<char> {
    Seq::new(k, |n: int| '_')
}

/// The linkage name with `k` trailing underscores for the function `i` named `name`.
pub open spec fn candidate(name: Seq<char>, i: u32, k: nat) -> Seq<char> {
    name + "_func"@ + decimal(i as nat) + underscores(k)
}

/// Whether `k` is the least number of trailing underscores that frees the linkage name of the
/// function `i`.
pub open spec fn is_padding(
    funcs: Map<u32, Seq<char>>,
    globals: Map<u32, Seq<char>>,
    i: u32,
    k: nat,
) -> bool {
    &&& !is_taken(funcs, globals, candidate(funcs[i], i, k))
    &&& forall|j: nat| j < k ==> is_taken(funcs, globals, #[trigger] candidate(funcs[i], i, j))
}

/// The least number of trailing underscores that frees the linkage name of the function `i`.
pub open spec fn padding(
    funcs: Map<u32, Seq<char>>,
    globals: Map<u32, Seq<char>>,
    i: u32,
) -> nat {
    choose|k: nat| is_padding(funcs, globals, i, k)
}

/// The linkage name of the function `i`, which shares its name.
pub open spec fn unique_name(
    funcs: Map<u32, Seq<char>>,
    globals: Map<u32, Seq<char>>,
    i: u32,
) -> Seq<char> {
    candidate(funcs[i], i, padding(funcs, globals, i))
}

/// The linkage names of the functions that share their name with another function.
pub open spec fn unique_names(
    funcs: Map<u32, Seq<char>>,
    globals: Map<u32, Seq<char>>,
) -> Map<u32, Seq<char>> {
    Map::new(|i: u32| is_shared(funcs, i), |i: u32| unique_name(funcs, globals, i))
}

/// Whether `i` is the first function with a shared name that identifies a linker stub.
pub open spec fn is_first_shared_stub(funcs: Map<u32, Seq<char>>, i: u32) -> bool {
    &&& is_shared(funcs, i)
    &&& names_linker_stub(funcs[i])
    &&& forall|j: u32| j < i && #[trigger] is_shared(funcs, j) ==> !names_linker_stub(funcs[j])
}

/// A length that no name in `names` exceeds.
pub open spec fn length_bound(names: Map<u32, Seq<char>>) -> nat {
    choose|b: nat| bounds_lengths(names, b)
}

/// Whether no name in `names` is longer than `b`.
pub open spec fn bounds_lengths(names: Map<u32, Seq<char>>, b: nat) -> bool {
    forall|i: u32| #[trigger] names.contains_key(i) ==> names[i].len() <= b
}

/// The names of a finite map have a greatest length.
pub proof fn lemma_length_bound(names: Map<u32, Seq<char>>)
    requires
        names.dom().finite(),
    ensures
        bounds_lengths(names, length_bound(names)),
{
    lemma_lengths_bounded(names);
}

proof fn lemma_lengths_bounded(names: Map<u32, Seq<char>>)
    requires
        names.dom().finite(),
    ensures
        exists|b: nat| bounds_lengths(names, b),
    decreases names.dom().len(),
{
    if names.dom().len() == 0 {
        assert(bounds_lengths(names, 0)) by {
            assert(names.dom() =~= Set::<u32>::empty());
        }
    } else {
        let i = names.dom().choose();
        let rest = names.remove(i);
        lemma_lengths_bounded(rest);
        let b = choose|b: nat| bounds_lengths(rest, b);
        let c = if b < names[i].len() {
            names[i].len()
        } else {
            b
        };
        assert forall|j: u32| #[trigger] names.contains_key(j) implies names[j].len() <= c by {
            if j != i {
                assert(rest.contains_key(j));
            }
        }
        assert(bounds_lengths(names, c));
    }
}

/// Some number of trailing underscores frees the linkage name, and only one is the least.
pub proof fn lemma_padding(
    funcs: Map<u32, Seq<char>>,
    globals: Map<u32, Seq<char>>,
    i: u32,
)
    requires
        funcs.dom().finite(),
        globals.dom().finite(),
    ensures
        is_padding(funcs, globals, i, padding(funcs, globals, i)),
        forall|k: nat| #[trigger]
            is_padding(funcs, globals, i, k) ==> k == padding(funcs, globals, i),
{
    lemma_length_bound(funcs);
    lemma_length_bound(globals);
    let long = length_bound(funcs) + length_bound(globals) + 1;
    assert(candidate(funcs[i], i, long).len() >= long);
    assert(!is_taken(funcs, globals, candidate(funcs[i], i, long)));
    lemma_least_padding(funcs, globals, i, long);
    let p = padding(funcs, globals, i);
    assert forall|k: nat| #[trigger] is_padding(funcs, globals, i, k) implies k == p by {
        if k < p {
            assert(is_taken(funcs, globals, candidate(funcs[i], i, k)));
        } else if p < k {
            assert(is_taken(funcs, globals, candidate(funcs[i], i, p)));
        }
    }
}

proof fn lemma_least_padding(
    funcs: Map<u32, Seq<char>>,
    globals: Map<u32, Seq<char>>,
    i: u32,
    k: nat,
)
    requires
        !is_taken(funcs, globals, candidate(funcs[i], i, k)),
    ensures
        exists|p: nat| is_padding(funcs, globals, i, p),
    decreases k,
{
    if !is_padding(funcs, globals, i, k) {
        let j = choose|j: nat|
            j < k && !is_taken(funcs, globals, #[trigger] candidate(funcs[i], i, j));
        lemma_least_padding(funcs, globals, i, j);
    }
}

/// The names that several functions share.
fn shared_names(funcs: &NameMap<FuncIndex>) -> (shared: StringHashSet)
    ensures
        forall|text: Seq<char>| #[trigger]
            shared@.contains(text) <==> exists|i: u32| #[trigger]
                is_shared(funcs@, i) && funcs@[i] == text,
{
    let list = funcs.entries();
    let mut seen = StringHashSet::new();
    let mut shared = StringHashSet::new();
    let mut n: usize = 0;
    while n < list.len()
        invariant
            n <= list@.len(),
            lists_names(list@, funcs@),
            forall|text: Seq<char>| #[trigger]
                seen@.contains(text) <==> exists|a: int|
                    0 <= a < n && #[trigger] list@[a].1@ == text,
            forall|text: Seq<char>| #[trigger]
                shared@.contains(text) <==> exists|a: int, b: int|
                    0 <= a < b < n && #[trigger] list@[a].1@ == text && #[trigger] list@[b].1@
                        == text,
        decreases list@.len() - n,
    {
        let text = list[n].1.as_str();
        if !seen.insert(text.to_owned()) {
            shared.insert(text.to_owned());
        }
        n += 1;
    }
    proof {
        assert forall|text: Seq<char>| #[trigger] shared@.contains(text) implies exists|i: u32|
            #[trigger] is_shared(funcs@, i) && funcs@[i] == text by {
            let (a, b) = choose|a: int, b: int|
                0 <= a < b < n && #[trigger] list@[a].1@ == text && #[trigger] list@[b].1@ == text;
            assert(funcs@.contains_key(list@[a].0) && funcs@.contains_key(list@[b].0));
            assert(is_shared(funcs@, list@[a].0));
        }
        assert forall|i: u32| #[trigger] is_shared(funcs@, i) implies shared@.contains(
            funcs@[i],
        ) by {
            let j = choose|j: u32|
                j != i && #[trigger] funcs@.contains_key(j) && funcs@[j] == funcs@[i];
            let a = choose|a: int| 0 <= a < list@.len() && #[trigger] list@[a].0 == i;
            let b = choose|b: int| 0 <= b < list@.len() && #[trigger] list@[b].0 == j;
            assert(list@[a].1@ == funcs@[i] && list@[b].1@ == funcs@[i]);
        }
    }
    shared
}

/// The names that stay in use when the functions that share a name are renamed.
fn taken_names(
    funcs: &NameMap<FuncIndex>,
    globals: &NameMap<GlobalIndex>,
    shared: &StringHashSet,
) -> (taken: StringHashSet)
    requires
        forall|text: Seq<char>| #[trigger]
            shared@.contains(text) <==> exists|i: u32| #[trigger]
                is_shared(funcs@, i) && funcs@[i] == text,
    ensures
        forall|text: Seq<char>| #[trigger]
            taken@.contains(text) <==> is_taken(funcs@, globals@, text),
{
    let mut taken = StringHashSet::new();
    let list = funcs.entries();
    let mut n: usize = 0;
    while n < list.len()
        invariant
            n <= list@.len(),
            lists_names(list@, funcs@),
            forall|text: Seq<char>| #[trigger]
                taken@.contains(text) <==> !shared@.contains(text) && exists|a: int|
                    0 <= a < n && #[trigger] list@[a].1@ == text,
        decreases list@.len() - n,
    {
        let text = list[n].1.as_str();
        if !shared.contains(text) {
            taken.insert(text.to_owned());
        }
        n += 1;
    }
    proof {
        assert forall|text: Seq<char>| #[trigger] taken@.contains(text) implies is_survivor(
            funcs@,
            text,
        ) by {
            let a = choose|a: int| 0 <= a < n && #[trigger] list@[a].1@ == text;
            assert(funcs@.contains_key(list@[a].0));
            assert(!is_shared(funcs@, list@[a].0));
        }
        assert forall|text: Seq<char>| is_survivor(funcs@, text) implies #[trigger] taken@.contains(
            text,
        ) by {
            let i = choose|i: u32| #[trigger]
                funcs@.contains_key(i) && !is_shared(funcs@, i) && funcs@[i] == text;
            let a = choose|a: int| 0 <= a < list@.len() && #[trigger] list@[a].0 == i;
            assert(list@[a].1@ == text);
            if shared@.contains(text) {
                let j = choose|j: u32| #[trigger] is_shared(funcs@, j) && funcs@[j] == text;
                assert(funcs@.contains_key(j));
                assert(is_shared(funcs@, i));
            }
        }
    }
    let list = globals.entries();
    let mut n: usize = 0;
    while n < list.len()
        invariant
            n <= list@.len(),
            lists_names(list@, globals@),
            forall|text: Seq<char>| #[trigger]
                taken@.contains(text) <==> is_survivor(funcs@, text) || exists|a: int|
                    0 <= a < n && #[trigger] list@[a].1@ == text,
        decreases list@.len() - n,
    {
        taken.insert(list[n].1.as_str().to_owned());
        n += 1;
    }
    proof {
        assert forall|text: Seq<char>| (exists|a: int|
            0 <= a < n && #[trigger] list@[a].1@ == text) <==> #[trigger] names_global(
            globals@,
            text,
        ) by {
            if exists|a: int| 0 <= a < n && #[trigger] list@[a].1@ == text {
                let a = choose|a: int| 0 <= a < n && #[trigger] list@[a].1@ == text;
                assert(globals@.contains_key(list@[a].0));
            }
            if names_global(globals@, text) {
                let g = choose|g: u32| #[trigger] globals@.contains_key(g) && globals@[g] == text;
                let a = choose|a: int| 0 <= a < list@.len() && #[trigger] list@[a].0 == g;
                assert(list@[a].1@ == text);
            }
        }
    }
    taken
}

/// The linkage name of the function `i`, which has the name `name`.
fn free_name(
    funcs: &NameMap<FuncIndex>,
    globals: &NameMap<GlobalIndex>,
    taken: &StringHashSet,
    i: u32,
    name: &Symbol,
) -> (text: String)
    requires
        forall|text: Seq<char>| #[trigger]
            taken@.contains(text) <==> is_taken(funcs@, globals@, text),
        funcs@[i] == name@,
    ensures
        text@ == unique_name(funcs@, globals@, i),
{
    let mut text = name.as_str().to_owned();
    text.append("_func");
    push_decimal(&mut text, i);
    let ghost mut k: nat = 0;
    let ghost bound = length_bound(funcs@) + length_bound(globals@);
    proof {
        funcs.lemma_finite();
        globals.lemma_finite();
        lemma_length_bound(funcs@);
        lemma_length_bound(globals@);
        assert(text@ =~= candidate(name@, i, 0));
    }
    while taken.contains(text.as_str())
        invariant
            forall|text: Seq<char>| #[trigger]
                taken@.contains(text) <==> is_taken(funcs@, globals@, text),
            bounds_lengths(funcs@, length_bound(funcs@)),
            bounds_lengths(globals@, length_bound(globals@)),
            bound == length_bound(funcs@) + length_bound(globals@),
            funcs@[i] == name@,
            text@ == candidate(name@, i, k),
            forall|j: nat|
                j < k ==> is_taken(funcs@, globals@, #[trigger] candidate(funcs@[i], i, j)),
        decreases bound + 1 - text@.len(),
    {
        assert(text@.len() <= bound);
        proof {
            reveal_strlit("_");
            assert(underscores(k + 1) =~= underscores(k) + "_"@);
            k = k + 1;
        }
        text.append("_");
        assert(text@ =~= candidate(name@, i, k));
    }
    proof {
        assert(is_padding(funcs@, globals@, i, k));
        lemma_padding(funcs@, globals@, i);
    }
    text
}

/// The first function with a shared name that identifies a linker stub: its name.
pub(crate) fn first_shared_stub(funcs: &NameMap<FuncIndex>) -> (stub: Option<Symbol>)
    ensures
        match stub {
            Some(name) => exists|i: u32| #[trigger]
                is_first_shared_stub(funcs@, i) && funcs@[i] == name@,
            None => forall|i: u32| #[trigger]
                is_shared(funcs@, i) ==> !names_linker_stub(funcs@[i]),
        },
{
    let shared = shared_names(funcs);
    let list = funcs.entries();
    let mut n: usize = 0;
    while n < list.len()
        invariant
            n <= list@.len(),
            lists_names(list@, funcs@),
            forall|text: Seq<char>| #[trigger]
                shared@.contains(text) <==> exists|i: u32| #[trigger]
                    is_shared(funcs@, i) && funcs@[i] == text,
            forall|a: int|
                0 <= a < n && is_shared(funcs@, (#[trigger] list@[a]).0) ==> !names_linker_stub(
                    list@[a].1@,
                ),
        decreases list@.len() - n,
    {
        let name = list[n].1;
        if shared.contains(name.as_str()) && is_linker_stub_name(name.as_str()) {
            proof {
                let i = list@[n as int].0;
                lemma_shared_name(funcs@, i);
                assert forall|j: u32| j < i && #[trigger] is_shared(funcs@, j) implies
                    !names_linker_stub(funcs@[j]) by {
                    let a = choose|a: int| 0 <= a < list@.len() && #[trigger] list@[a].0 == j;
                    assert(a < n);
                }
                assert(is_first_shared_stub(funcs@, i));
            }
            return Some(name.clone());
        }
        n += 1;
    }
    proof {
        assert forall|i: u32| #[trigger] is_shared(funcs@, i) implies !names_linker_stub(
            funcs@[i],
        ) by {
            let a = choose|a: int| 0 <= a < list@.len() && #[trigger] list@[a].0 == i;
            assert(is_shared(funcs@, list@[a].0));
        }
    }
    None
}

/// A function whose name is shared by some function shares it too.
proof fn lemma_shared_name(funcs: Map<u32, Seq<char>>, i: u32)
    requires
        funcs.contains_key(i),
        exists|j: u32| #[trigger] is_shared(funcs, j) && funcs[j] == funcs[i],
    ensures
        is_shared(funcs, i),
{
    let j = choose|j: u32| #[trigger] is_shared(funcs, j) && funcs[j] == funcs[i];
    assert(funcs.contains_key(j));
}

/// The linkage names of the functions that share their name with another function.
pub(crate) fn renamed_functions(
    funcs: &NameMap<FuncIndex>,
    globals: &NameMap<GlobalIndex>,
) -> (renames: NameMap<FuncIndex>)
    ensures
        renames@ == unique_names(funcs@, globals@),
{
    let shared = shared_names(funcs);
    let taken = taken_names(funcs, globals, &shared);
    let list = funcs.entries();
    let mut renames: NameMap<FuncIndex> = NameMap::new();
    let mut n: usize = 0;
    while n < list.len()
        invariant
            n <= list@.len(),
            lists_names(list@, funcs@),
            forall|text: Seq<char>| #[trigger]
                shared@.contains(text) <==> exists|i: u32| #[trigger]
                    is_shared(funcs@, i) && funcs@[i] == text,
            forall|text: Seq<char>| #[trigger]
                taken@.contains(text) <==> is_taken(funcs@, globals@, text),
            forall|i: u32| #[trigger]
                renames@.contains_key(i) <==> is_shared(funcs@, i) && exists|a: int|
                    0 <= a < n && #[trigger] list@[a].0 == i,
            forall|i: u32| #[trigger]
                renames@.contains_key(i) ==> renames@[i] == unique_name(funcs@, globals@, i),
        decreases list@.len() - n,
    {
        let i: u32 = list[n].0;
        let name = list[n].1;
        assert(funcs@.contains_key(i) && funcs@[i] == name@);
        if shared.contains(name.as_str()) {
            proof {
                lemma_shared_name(funcs@, i);
            }
            let text = free_name(funcs, globals, &taken, i, name);
            renames.set(i, Symbol::from_string(text));
        }
        n += 1;
    }
    assert(renames@ =~= unique_names(funcs@, globals@));
    renames
}

} // verus!
