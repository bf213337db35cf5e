use vstd::prelude::*;

verus! {

/// Overwrite one element of a vector.
pub fn vec_set<T>(v: &mut Vec<T>, i: usize, value: T)
    requires
        i < old(v)@.len(),
    ensures
        final(v)@ == old(v)@.update(i as int, value),
{
    let slot = &mut v[i];
    *slot = value;
}

} // verus!
