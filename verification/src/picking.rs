//! Facts about picking elements out of a sequence.

use vstd::prelude::*;

verus! {

/// Picking from elements of which each one is kept leaves them all.
pub proof fn lemma_filter_all<A>(s: Seq<A>, keep: spec_fn(A) -> bool)
    requires
        forall|i: int| 0 <= i < s.len() ==> keep(#[trigger] s[i]),
    ensures
        s.filter(keep) == s,
    decreases s.len(),
{
    reveal(Seq::filter);
    if s.len() > 0 {
        let init = s.drop_last();
        lemma_filter_all(init, keep);
    }
}

/// Picking twice is picking once what both keep.
pub proof fn lemma_filter_twice<A>(
    s: Seq<A>,
    first: spec_fn(A) -> bool,
    second: spec_fn(A) -> bool,
    both: spec_fn(A) -> bool,
)
    requires
        forall|i: int| 0 <= i < s.len() ==> both(#[trigger] s[i]) == (first(s[i]) && second(s[i])),
    ensures
        s.filter(first).filter(second) == s.filter(both),
    decreases s.len(),
{
    reveal(Seq::filter);
    if s.len() > 0 {
        let init = s.drop_last();
        let last = s.last();
        lemma_filter_twice(init, first, second, both);
        if first(last) {
            let once = init.filter(first).push(last);
            assert(once.drop_last() =~= init.filter(first));
        }
    }
}

/// Picking from place `i` on is picking from behind it, with the element
/// at `i` in front where it is kept.
pub proof fn lemma_filter_from<A>(s: Seq<A>, i: int, keep: spec_fn(A) -> bool)
    requires
        0 <= i < s.len(),
    ensures
        s.skip(i).filter(keep) == if keep(s[i]) {
            seq![s[i]] + s.skip(i + 1).filter(keep)
        } else {
            s.skip(i + 1).filter(keep)
        },
{
    let one = seq![s[i]];
    assert(s.skip(i) =~= one + s.skip(i + 1));
    Seq::filter_distributes_over_add(one, s.skip(i + 1), keep);
    assert(one.filter(keep) =~= if keep(s[i]) {
        one
    } else {
        Seq::<A>::empty()
    }) by {
        reveal_with_fuel(Seq::filter, 2);
    }
}

} // verus!
