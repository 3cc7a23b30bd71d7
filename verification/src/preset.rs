//! How a preset list and the user's additions to it become one list.

use vstd::prelude::*;

verus! {

/// The merge of layered settings.
pub struct Preset;

impl Preset {
    /// One list out of three: what was prepended, then the base list, then
    /// what was appended, each in its own order. Nothing is dropped and
    /// nothing is reordered.
    pub fn mix<T>(prepend: Vec<T>, base: Vec<T>, append: Vec<T>) -> (all: Vec<T>)
        ensures
            all@ == prepend@ + base@ + append@,
    {
        let mut all = prepend;
        let mut base = base;
        let mut append = append;
        all.append(&mut base);
        all.append(&mut append);
        all
    }
}

} // verus!
