//! Linker stubs: functions that the frontend replaces by what their name stands for.

use vstd::prelude::*;

verus! {

/// Whether a function of this name is a linker stub: its name is a path in the namespace of the
/// compiler intrinsics or in that of the Miden ABI.
pub open spec fn names_linker_stub(name: Seq<char>) -> bool {
    "intrinsics::"@.is_prefix_of(name) || "miden::"@.is_prefix_of(name)
}

/// The characters of `text`.
fn chars_of(text: &str) -> (chars: Vec<char>)
    ensures
        chars@ == text@,
{
    let mut chars: Vec<char> = Vec::new();
    for c in it: text.chars()
        invariant
            it.seq() == text@,
            chars@ == text@.take(it.index()),
    {
        chars.push(c);
    }
    chars
}

/// Whether `text` starts with `prefix`.
fn starts_with(text: &Vec<char>, prefix: &str) -> (starts: bool)
    ensures
        starts == prefix@.is_prefix_of(text@),
{
    let wanted = chars_of(prefix);
    if wanted.len() > text.len() {
        return false;
    }
    let mut n: usize = 0;
    while n < wanted.len()
        invariant
            wanted@ == prefix@,
            n <= wanted@.len() <= text@.len(),
            forall|m: int| 0 <= m < n ==> wanted@[m] == text@[m],
        decreases wanted@.len() - n,
    {
        if wanted[n] != text[n] {
            assert(text@.subrange(0, prefix@.len() as int)[n as int] != prefix@[n as int]);
            return false;
        }
        n += 1;
    }
    assert(text@.subrange(0, prefix@.len() as int) =~= prefix@);
    true
}

/// Whether a function named `name` is a linker stub.
pub fn is_linker_stub_name(name: &str) -> (stub: bool)
    ensures
        stub == names_linker_stub(name@),
{
    let chars = chars_of(name);
    starts_with(&chars, "intrinsics::") || starts_with(&chars, "miden::")
}

} // verus!
