use vstd::prelude::*;
use vstd::std_specs::cmp::PartialEqSpec;
use std::sync::Arc;

verus! {

/// Compare `old` and `new` by value; return `old` if equal, otherwise `new`.
///
/// Keeping the old `Arc` when nothing changed lets consumers detect "no
/// change" cheaply by pointer comparison.
pub fn replace_equal_deep<T: PartialEq>(old: Arc<T>, new: Arc<T>) -> (r: Arc<T>)
    ensures
        r == old || r == new,
        T::obeys_eq_spec() ==> r == (if (*old).eq_spec(&*new) { old } else { new }),
{
    if *old == *new {
        old
    } else {
        new
    }
}

} // verus!
