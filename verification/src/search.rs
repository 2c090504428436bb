//! Finding the first of several.

use vstd::prelude::*;

verus! {

/// The index of the first element of `s` that `wanted` holds of.
pub open spec fn first_where<T>(s: Seq<T>, wanted: spec_fn(T) -> bool) -> Option<int>
    decreases s.len(),
{
    if s.len() == 0 {
        None
    } else {
        match first_where(s.drop_last(), wanted) {
            Some(i) => Some(i),
            None => if wanted(s.last()) {
                Some(s.len() - 1)
            } else {
                None
            },
        }
    }
}

/// What [`first_where`] finds is wanted, and nothing before it is; where it
/// finds nothing, nothing is wanted.
pub proof fn first_where_is_first<T>(s: Seq<T>, wanted: spec_fn(T) -> bool)
    ensures
        match first_where(s, wanted) {
            Some(i) => {
                &&& 0 <= i < s.len()
                &&& wanted(s[i])
                &&& forall|j: int| 0 <= j < i ==> !wanted(#[trigger] s[j])
            },
            None => forall|j: int| 0 <= j < s.len() ==> !wanted(#[trigger] s[j]),
        },
    decreases s.len(),
{
    if s.len() > 0 {
        first_where_is_first(s.drop_last(), wanted);
        assert forall|j: int| 0 <= j < s.len() - 1 implies s[j] == #[trigger] s.drop_last()[j] by {}
        match first_where(s.drop_last(), wanted) {
            Some(i) => {
                assert forall|j: int| 0 <= j < i implies !wanted(#[trigger] s[j]) by {
                    assert(!wanted(s.drop_last()[j]));
                }
            },
            None => {
                assert forall|j: int| 0 <= j < s.len() - 1 implies !wanted(#[trigger] s[j]) by {
                    assert(!wanted(s.drop_last()[j]));
                }
            },
        }
    }
}

} // verus!
