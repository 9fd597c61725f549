//! Re-spanning generated tokens so that compiler errors in them point at a
//! piece of the user's source: the first generated token takes the span of
//! the first token of that piece, every later token the span of its last
//! token. When the piece has no tokens, the call site is used for both.

use vstd::prelude::*;

verus! {

/// The span the generated token at position `i` gets.
pub open spec fn respanned<S>(source: Seq<S>, call_site: S, i: int) -> S {
    if source.len() == 0 {
        call_site
    } else if i == 0 {
        source[0]
    } else {
        source.last()
    }
}

/// The spans for `count` generated tokens, given the spans of the tokens of
/// the source piece.
pub fn respan_spans<S: Copy>(count: usize, source: &Vec<S>, call_site: S) -> (r: Vec<S>)
    ensures
        r@.len() == count,
        forall|i: int| 0 <= i < count ==> #[trigger] r@[i] == respanned(source@, call_site, i),
{
    let mut first = call_site;
    let mut last = call_site;
    let mut k: usize = 0;
    while k < source.len()
        invariant
            0 <= k <= source@.len(),
            k == 0 ==> first == call_site && last == call_site,
            k > 0 ==> first == source@[0] && last == source@[k - 1],
        decreases source@.len() - k,
    {
        if k == 0 {
            first = source[k];
        }
        last = source[k];
        k = k + 1;
    }
    let mut r: Vec<S> = Vec::new();
    let mut i: usize = 0;
    while i < count
        invariant
            0 <= i <= count,
            r@.len() == i,
            source@.len() == 0 ==> first == call_site && last == call_site,
            source@.len() > 0 ==> first == source@[0] && last == source@.last(),
            forall|j: int| 0 <= j < i ==> #[trigger] r@[j] == respanned(source@, call_site, j),
        decreases count - i,
    {
        if i == 0 {
            r.push(first);
        } else {
            r.push(last);
        }
        i = i + 1;
    }
    r
}

} // verus!
