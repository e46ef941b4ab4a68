//! Facts about sequences.

use vstd::prelude::*;

verus! {

/// A choice contains exactly the values that were there and meet the condition.
pub proof fn lemma_filter_holds<A>(values: Seq<A>, pred: spec_fn(A) -> bool, value: A)
    ensures
        values.filter(pred).contains(value) <==> values.contains(value) && pred(value),
{
    let chosen = values.filter(pred);
    if chosen.contains(value) {
        values.lemma_filter_contains_rev(pred, value);
        let i = choose|i: int| 0 <= i < chosen.len() && chosen[i] == value;
        values.lemma_filter_pred(pred, i);
    }
    if values.contains(value) && pred(value) {
        let i = choose|i: int| 0 <= i < values.len() && values[i] == value;
        values.lemma_filter_contains(pred, i);
    }
}

/// A condition that implies an earlier one chooses the same with or without it.
pub proof fn lemma_filter_twice<A>(
    values: Seq<A>,
    first: spec_fn(A) -> bool,
    second: spec_fn(A) -> bool,
)
    requires
        forall|value: A| #[trigger] second(value) ==> first(value),
    ensures
        values.filter(first).filter(second) == values.filter(second),
    decreases values.len(),
{
    reveal(Seq::filter);
    if values.len() > 0 {
        let front = values.drop_last();
        let last = values.last();
        lemma_filter_twice(front, first, second);
        assert(values =~= front.push(last));
        front.lemma_filter_push(last, first);
        front.lemma_filter_push(last, second);
        front.filter(first).lemma_filter_push(last, second);
    }
}

/// A choice among different values is one of different values.
pub proof fn lemma_filter_distinct<A>(values: Seq<A>, pred: spec_fn(A) -> bool)
    requires
        values.no_duplicates(),
    ensures
        values.filter(pred).no_duplicates(),
    decreases values.len(),
{
    reveal(Seq::filter);
    if values.len() > 0 {
        let front = values.drop_last();
        let last = values.last();
        lemma_filter_distinct(front, pred);
        front.lemma_filter_push(last, pred);
        assert(values =~= front.push(last));
        let chosen = front.filter(pred);
        if pred(last) {
            let all = chosen.push(last);
            assert forall|i: int, j: int| 0 <= i < j < all.len() implies all[i] != all[j] by {
                if j == chosen.len() {
                    assert(chosen.contains(chosen[i]));
                    lemma_filter_holds(front, pred, chosen[i]);
                    let k = choose|k: int| 0 <= k < front.len() && front[k] == chosen[i];
                    assert(values[k] != values[values.len() - 1]);
                } else {
                    assert(chosen[i] != chosen[j]);
                }
            }
        }
    }
}

/// A condition that nothing meets chooses nothing.
pub proof fn lemma_filter_none<A>(values: Seq<A>, pred: spec_fn(A) -> bool)
    requires
        forall|value: A| values.contains(value) ==> !#[trigger] pred(value),
    ensures
        values.filter(pred) == Seq::<A>::empty(),
{
    let chosen = values.filter(pred);
    if chosen.len() > 0 {
        assert(chosen.contains(chosen[0]));
        lemma_filter_holds(values, pred, chosen[0]);
    }
    assert(chosen =~= Seq::empty());
}

/// A condition that implies another chooses no more than that.
pub proof fn lemma_filter_fewer<A>(
    values: Seq<A>,
    narrow: spec_fn(A) -> bool,
    wide: spec_fn(A) -> bool,
)
    requires
        forall|value: A| #[trigger] narrow(value) ==> wide(value),
    ensures
        values.filter(narrow).len() <= values.filter(wide).len(),
    decreases values.len(),
{
    reveal(Seq::filter);
    if values.len() > 0 {
        let front = values.drop_last();
        lemma_filter_fewer(front, narrow, wide);
        front.lemma_filter_push(values.last(), narrow);
        front.lemma_filter_push(values.last(), wide);
        assert(values =~= front.push(values.last()));
    }
}

/// Putting together what is put together for each value is the same in one step as in two.
pub proof fn lemma_flat_flat<A, B, C>(
    values: Seq<A>,
    f: spec_fn(A) -> Seq<B>,
    g: spec_fn(B) -> Seq<C>,
)
    ensures
        values.flat_map(f).flat_map(g) == values.flat_map(|value: A| f(value).flat_map(g)),
    decreases values.len(),
{
    let both = |value: A| f(value).flat_map(g);
    if values.len() == 0 {
        assert(values.map_values(f) =~= Seq::empty());
        assert(values.map_values(both) =~= Seq::empty());
        assert(Seq::<B>::empty().map_values(g) =~= Seq::empty());
    } else {
        let front = values.drop_last();
        let last = values.last();
        lemma_flat_flat(front, f, g);
        front.lemma_flat_map_push(f, last);
        front.lemma_flat_map_push(both, last);
        assert(values =~= front.push(last));
        lemma_flat_joined(front.flat_map(f), f(last), g);
    }
}

/// What is put together for two lists after each other comes after each other.
pub proof fn lemma_flat_joined<A, B>(first: Seq<A>, second: Seq<A>, f: spec_fn(A) -> Seq<B>)
    ensures
        (first + second).flat_map(f) == first.flat_map(f) + second.flat_map(f),
    decreases second.len(),
{
    if second.len() == 0 {
        assert(first + second =~= first);
        assert(second.map_values(f) =~= Seq::empty());
        assert(first.flat_map(f) + second.flat_map(f) =~= first.flat_map(f));
    } else {
        let front = second.drop_last();
        let last = second.last();
        lemma_flat_joined(first, front, f);
        front.lemma_flat_map_push(f, last);
        (first + front).lemma_flat_map_push(f, last);
        assert(second =~= front.push(last));
        assert(first + second =~= (first + front).push(last));
        assert(first.flat_map(f) + second.flat_map(f) =~= (first.flat_map(f) + front.flat_map(f))
            + f(last));
    }
}

/// Values that are replaced first can be replaced on the way.
pub proof fn lemma_map_flat<A, B, C>(values: Seq<A>, h: spec_fn(A) -> B, f: spec_fn(B) -> Seq<C>)
    ensures
        values.map_values(h).flat_map(f) == values.flat_map(|value: A| f(h(value))),
{
    assert(values.map_values(h).map_values(f) =~= values.map_values(|value: A| f(h(value))));
}

/// A choice of values, each replaced by another, puts one value or none together for each.
pub proof fn lemma_choice_is_flat<A, B>(
    values: Seq<A>,
    pred: spec_fn(A) -> bool,
    g: spec_fn(A) -> B,
)
    ensures
        values.filter(pred).map_values(g) == values.flat_map(
            |value: A|
                if pred(value) {
                    seq![g(value)]
                } else {
                    Seq::<B>::empty()
                },
        ),
    decreases values.len(),
{
    let f = |value: A|
        if pred(value) {
            seq![g(value)]
        } else {
            Seq::<B>::empty()
        };
    reveal(Seq::filter);
    if values.len() == 0 {
        assert(values.map_values(f) =~= Seq::empty());
        assert(values.filter(pred).map_values(g) =~= Seq::empty());
    } else {
        let front = values.drop_last();
        let last = values.last();
        lemma_choice_is_flat(front, pred, g);
        front.lemma_filter_push(last, pred);
        front.lemma_flat_map_push(f, last);
        assert(values =~= front.push(last));
        assert(values.filter(pred).map_values(g) =~= front.filter(pred).map_values(g) + f(last));
    }
}

/// Values each replaced by another put one value together for each.
pub proof fn lemma_map_is_flat<A, B>(values: Seq<A>, g: spec_fn(A) -> B)
    ensures
        values.map_values(g) == values.flat_map(|value: A| seq![g(value)]),
    decreases values.len(),
{
    let f = |value: A| seq![g(value)];
    if values.len() == 0 {
        assert(values.map_values(f) =~= Seq::empty());
        assert(values.map_values(g) =~= Seq::empty());
    } else {
        let front = values.drop_last();
        let last = values.last();
        lemma_map_is_flat(front, g);
        front.lemma_flat_map_push(f, last);
        assert(values =~= front.push(last));
        assert(values.map_values(g) =~= front.map_values(g) + f(last));
    }
}

} // verus!
