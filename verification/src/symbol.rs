//! Symbols: the names that the frontend gives to functions and globals.

use vstd::prelude::*;

verus! {

/// An immutable name. Two symbols are equal exactly when their text is.
#[derive(Debug, Eq)]
pub struct Symbol {
    text: String,
}

impl View for Symbol {
    type V = Seq<char>;

    closed spec fn view(&self) -> Seq<char> {
        self.text@
    }
}

impl Symbol {
    /// The symbol with the given text.
    pub fn intern(text: &str) -> (symbol: Symbol)
        ensures
            symbol@ == text@,
    {
        Symbol { text: text.to_owned() }
    }

    /// The symbol whose text is `text`.
    pub(crate) fn from_string(text: String) -> (symbol: Symbol)
        ensures
            symbol@ == text@,
    {
        Symbol { text }
    }

    /// The text of this symbol.
    pub fn as_str(&self) -> (text: &str)
        ensures
            text@ == self@,
    {
        self.text.as_str()
    }
}

impl Clone for Symbol {
    fn clone(&self) -> (copy: Symbol)
        ensures
            copy@ == self@,
    {
        Symbol { text: self.text.clone() }
    }
}

impl PartialEq for Symbol {
    fn eq(&self, other: &Symbol) -> (equal: bool) {
        self.text == other.text
    }
}

impl vstd::std_specs::cmp::PartialEqSpecImpl for Symbol {
    open spec fn obeys_eq_spec() -> bool {
        true
    }

    open spec fn eq_spec(&self, other: &Symbol) -> bool {
        self@ == other@
    }
}

} // verus!
