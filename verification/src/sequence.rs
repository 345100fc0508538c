//! Sequences with gaps, and sums.

use vstd::prelude::*;

verus! {

/// The values that are there, in order.
pub open spec fn kept<A>(values: Seq<Option<A>>) -> Seq<A>
    decreases values.len(),
{
    if values.len() == 0 {
        Seq::empty()
    } else {
        match values.last() {
            Some(value) => kept(values.drop_last()).push(value),
            None => kept(values.drop_last()),
        }
    }
}

/// Reading one more row keeps its value after the values before it, or nothing.
pub proof fn lemma_kept_push<A>(values: Seq<Option<A>>, i: int)
    requires
        0 <= i < values.len(),
    ensures
        kept(values.take(i + 1)) == (match values[i] {
            Some(value) => kept(values.take(i)).push(value),
            None => kept(values.take(i)),
        }),
{
    assert(values.take(i + 1).drop_last() =~= values.take(i));
}

/// The values of two sequences, one after the other, are those of the first and then
/// those of the second.
pub proof fn lemma_kept_joined<A>(a: Seq<Option<A>>, b: Seq<Option<A>>)
    ensures
        kept(a + b) == kept(a) + kept(b),
    decreases b.len(),
{
    if b.len() == 0 {
        assert(a + b =~= a);
        assert(kept(a) + kept(b) =~= kept(a));
    } else {
        assert((a + b).drop_last() =~= a + b.drop_last());
        lemma_kept_joined(a, b.drop_last());
        assert(kept(a + b) =~= kept(a) + kept(b));
    }
}

/// A value that is there is kept, and nothing stands for one that is not.
pub proof fn law_kept_of_one<A>(value: Option<A>)
    ensures
        value is Some ==> kept(seq![value]) == seq![value->0],
        value is None ==> kept(seq![value]) == Seq::<A>::empty(),
{
    let none = Seq::<Option<A>>::empty();
    assert(seq![value].drop_last() =~= none);
    assert(seq![value].last() == value);
    assert(kept(none) =~= Seq::<A>::empty());
    if value is Some {
        assert(kept(seq![value]) =~= seq![value->0]);
    }
}

/// The sum of the values.
pub open spec fn total(values: Seq<nat>) -> nat
    decreases values.len(),
{
    if values.len() == 0 {
        0
    } else {
        total(values.drop_last()) + values.last()
    }
}

/// One more value adds itself to the sum, which starts at zero.
pub proof fn law_sums(values: Seq<nat>, value: nat)
    ensures
        total(Seq::empty()) == 0,
        total(values.push(value)) == total(values) + value,
{
    assert(values.push(value).drop_last() =~= values);
}

/// The sum of the first values is no more than the sum of all.
pub proof fn lemma_total_grows(values: Seq<nat>, i: int)
    requires
        0 <= i <= values.len(),
    ensures
        total(values.take(i)) <= total(values),
    decreases values.len() - i,
{
    if i == values.len() {
        assert(values.take(i) =~= values);
    } else {
        lemma_total_grows(values, i + 1);
        assert(values.take(i + 1).drop_last() =~= values.take(i));
    }
}

} // verus!
