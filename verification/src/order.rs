//! One sequence inside another: what is left of a sequence when some of its
//! items are taken out and the others keep their order, and what a test
//! keeps of a sequence in particular.

use vstd::prelude::*;

verus! {

/// `at` shows `part` inside `whole`: it names, for each item of `part`, a
/// position of `whole` at which that item stands, and the positions rise.
pub open spec fn embeds_at<A>(part: Seq<A>, whole: Seq<A>, at: Seq<int>) -> bool {
    &&& at.len() == part.len()
    &&& forall|i: int|
        0 <= i < at.len() ==> 0 <= #[trigger] at[i] < whole.len() && whole[at[i]] == part[i]
    &&& forall|i: int, j: int| 0 <= i < j < at.len() ==> at[i] < at[j]
}

/// `at` shows that `part` is what `test` keeps of `whole`: `part` stands
/// inside `whole` at the positions `at`, and these are the positions of the
/// items of `whole` that pass `test`, all of them and no others.
pub open spec fn keeps_at<A>(
    part: Seq<A>,
    whole: Seq<A>,
    test: spec_fn(A) -> bool,
    at: Seq<int>,
) -> bool {
    &&& embeds_at(part, whole, at)
    &&& forall|k: int| 0 <= k < whole.len() ==> (#[trigger] at.contains(k) <==> test(whole[k]))
}

/// `part` is `whole` with some of its items left out and the others in their
/// order.
pub open spec fn is_subsequence_of<A>(part: Seq<A>, whole: Seq<A>) -> bool {
    exists|at: Seq<int>| embeds_at(part, whole, at)
}

/// What a narrow test keeps of `items` stands inside what a wider test
/// keeps of them. Returns positions that show it.
pub proof fn lemma_filter_embeds<A>(
    items: Seq<A>,
    narrow: spec_fn(A) -> bool,
    wide: spec_fn(A) -> bool,
) -> (at: Seq<int>)
    requires
        forall|i: int| 0 <= i < items.len() && narrow(#[trigger] items[i]) ==> wide(items[i]),
    ensures
        embeds_at(items.filter(narrow), items.filter(wide), at),
    decreases items.len(),
{
    reveal(Seq::filter);
    if items.len() == 0 {
        Seq::empty()
    } else {
        let front = items.drop_last();
        let shown = lemma_filter_embeds(front, narrow, wide);
        if narrow(items.last()) {
            shown.push(front.filter(wide).len() as int)
        } else {
            shown
        }
    }
}

/// A test that every item passes keeps them all.
pub proof fn lemma_filter_keeps_all<A>(items: Seq<A>, test: spec_fn(A) -> bool)
    requires
        forall|i: int| 0 <= i < items.len() ==> test(#[trigger] items[i]),
    ensures
        items.filter(test) == items,
    decreases items.len(),
{
    reveal(Seq::filter);
    if items.len() > 0 {
        let front = items.drop_last();
        lemma_filter_keeps_all(front, test);
    }
}

/// What a test keeps of `items` stands inside `items`, at the positions of
/// the items that pass the test. Returns those positions.
pub proof fn lemma_filter_positions<A>(items: Seq<A>, test: spec_fn(A) -> bool) -> (at: Seq<int>)
    ensures
        keeps_at(items.filter(test), items, test, at),
    decreases items.len(),
{
    reveal(Seq::filter);
    if items.len() == 0 {
        Seq::empty()
    } else {
        let front = items.drop_last();
        let end = front.len() as int;
        let shown = lemma_filter_positions(front, test);
        let at = if test(items.last()) {
            shown.push(end)
        } else {
            shown
        };
        assert forall|k: int| 0 <= k < items.len() implies (#[trigger] at.contains(k) <==> test(
            items[k],
        )) by {
            if k < end {
                if shown.contains(k) {
                    let i = choose|i: int| 0 <= i < shown.len() && shown[i] == k;
                    assert(at[i] == k);
                }
            } else if test(items.last()) {
                assert(at[shown.len() as int] == k);
            }
        }
        at
    }
}

} // verus!
