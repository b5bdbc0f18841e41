use vstd::prelude::*;

verus! {

/// Copy `from` onto the front of `to`; the tail of `to` past `from.len()`
/// is left as it was.
pub fn copy_bytes(from: &[u8], to: &mut [u8])
    requires
        from@.len() <= old(to)@.len(),
    ensures
        final(to)@.len() == old(to)@.len(),
        final(to)@.subrange(0, from@.len() as int) == from@,
        forall|j: int|
            from@.len() <= j < old(to)@.len() ==> final(to)@[j] == old(to)@[j],
{
    let mut i: usize = 0;
    while i < from.len()
        invariant
            i <= from@.len() <= to@.len(),
            to@.len() == old(to)@.len(),
            forall|j: int| 0 <= j < i ==> to@[j] == from@[j],
            forall|j: int| from@.len() <= j < to@.len() ==> to@[j] == old(to)@[j],
        decreases from@.len() - i,
    {
        to[i] = from[i];
        i += 1;
    }
    assert(to@.subrange(0, from@.len() as int) =~= from@);
}

} // verus!
