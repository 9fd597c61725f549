//! Lookup of a value among the values of enum variants, as the generated
//! conversions do it: an `if`/`else` chain (or a `match`) over the variants in
//! order, the first one that matches winning.

use vstd::prelude::*;

verus! {

/// The position of the first element equal to `x`, if any.
pub open spec fn first_index<T>(values: Seq<T>, x: T) -> Option<int>
    decreases values.len(),
{
    if values.len() == 0 {
        None
    } else {
        match first_index(values.drop_last(), x) {
            Some(i) => Some(i),
            None => if values.last() == x {
                Some(values.len() - 1)
            } else {
                None
            },
        }
    }
}

/// No two elements are equal.
pub open spec fn distinct<T>(values: Seq<T>) -> bool {
    forall|a: int, b: int| 0 <= a < b < values.len() ==> values[a] != values[b]
}

/// Looking up the value at a position gives back that position when the
/// values are distinct, and looking up a value that no element has gives none.
pub proof fn lemma_first_index<T>(values: Seq<T>, i: int, x: T)
    requires
        distinct(values),
    ensures
        0 <= i < values.len() ==> first_index(values, values[i]) == Some(i),
        (forall|k: int| 0 <= k < values.len() ==> values[k] != x) ==> first_index(values, x) is None,
    decreases values.len(),
{
    if values.len() > 0 {
        let init = values.drop_last();
        assert(distinct(init)) by {
            assert forall|a: int, b: int| 0 <= a < b < init.len() implies init[a] != init[b] by {
                assert(init[a] == values[a] && init[b] == values[b]);
            }
        }
        lemma_first_index(init, i, x);
        if 0 <= i < values.len() - 1 {
            assert(init[i] == values[i]);
        } else if i == values.len() - 1 {
            lemma_first_index(init, 0, values[i]);
            assert forall|k: int| 0 <= k < init.len() implies init[k] != values[i] by {
                assert(init[k] == values[k]);
            }
        }
        if forall|k: int| 0 <= k < values.len() ==> values[k] != x {
            assert forall|k: int| 0 <= k < init.len() implies init[k] != x by {
                assert(init[k] == values[k]);
            }
            assert(values[values.len() - 1] != x);
        }
    }
}

} // verus!
