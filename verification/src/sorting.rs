//! A stable sort over a relation that the element type states.

use vstd::prelude::*;

verus! {

/// Values that a stable sort can put in order.
pub trait Ranked: Sized {
    /// `self` may stand before `other`.
    spec fn not_after(self, other: Self) -> bool;

    /// Whether `self` may stand before `other`.
    fn is_not_after(&self, other: &Self) -> (result: bool)
        ensures
            result == self.not_after(*other),
    ;

    /// Of two values, one may stand before the other.
    proof fn lemma_total(left: Self, right: Self)
        ensures
            left.not_after(right) || right.not_after(left),
    ;

    /// What may stand before a value may stand before all that the value may stand before.
    proof fn lemma_transitive(first: Self, second: Self, third: Self)
        requires
            first.not_after(second),
            second.not_after(third),
        ensures
            first.not_after(third),
    ;
}

/// `items` with `item` put behind the last of them that may stand before it.
pub open spec fn with_inserted<T: Ranked>(items: Seq<T>, item: T) -> Seq<T>
    decreases items.len(),
{
    if items.len() == 0 || items.last().not_after(item) {
        items.push(item)
    } else {
        with_inserted(items.drop_last(), item).push(items.last())
    }
}

/// `items` in order; those that may stand on either side of each other stay as they were.
pub open spec fn in_order<T: Ranked>(items: Seq<T>) -> Seq<T>
    decreases items.len(),
{
    if items.len() == 0 {
        items
    } else {
        with_inserted(in_order(items.drop_last()), items.last())
    }
}

/// Each item may stand before all that follow it.
pub open spec fn is_sorted<T: Ranked>(items: Seq<T>) -> bool {
    forall|i: int, j: int|
        0 <= i < j < items.len() ==> (#[trigger] items[i]).not_after(#[trigger] items[j])
}

proof fn lemma_insert_at<T: Ranked>(items: Seq<T>, item: T, at: int)
    requires
        0 <= at <= items.len(),
        at > 0 ==> items[at - 1].not_after(item),
        forall|i: int| at <= i < items.len() ==> !(#[trigger] items[i]).not_after(item),
    ensures
        with_inserted(items, item) == items.insert(at, item),
    decreases items.len(),
{
    if items.len() == at {
        assert(items.insert(at, item) == items.push(item));
    } else {
        let shorter = items.drop_last();
        assert forall|i: int| at <= i < shorter.len() implies !(#[trigger] shorter[i]).not_after(
            item,
        ) by {
            assert(shorter[i] == items[i]);
        }
        lemma_insert_at(shorter, item, at);
        assert(shorter.insert(at, item).push(items.last()) == items.insert(at, item));
    }
}

/// Puts `items` in order; those that may stand on either side of each other stay as they were.
pub fn sort<T: Ranked>(items: Vec<T>) -> (sorted: Vec<T>)
    ensures
        sorted@ == in_order(items@),
{
    let ghost all = items@;
    let mut sorted: Vec<T> = Vec::new();
    let mut done: usize = 0;
    let mut rest = items;
    let total: usize = rest.len();
    assert(all.take(0) == Seq::<T>::empty());
    assert(all.skip(0) == all);
    while done < total
        invariant
            done <= total,
            total == all.len(),
            rest@ == all.skip(done as int),
            sorted@ == in_order(all.take(done as int)),
        decreases total - done,
    {
        let item = rest.remove(0);
        assert(item == all[done as int]);
        assert(rest@ == all.skip(done + 1));
        let mut at: usize = sorted.len();
        while at > 0 && !sorted[at - 1].is_not_after(&item)
            invariant
                at <= sorted@.len(),
                forall|i: int| at <= i < sorted@.len() ==> !(#[trigger] sorted@[i]).not_after(item),
            decreases at,
        {
            at -= 1;
        }
        proof {
            lemma_insert_at(sorted@, item, at as int);
            assert(all.take(done + 1).drop_last() == all.take(done as int));
        }
        sorted.insert(at, item);
        done += 1;
    }
    assert(all.take(total as int) == all);
    sorted
}

/// Where `with_inserted` puts the item.
spec fn place<T: Ranked>(items: Seq<T>, item: T) -> int
    decreases items.len(),
{
    if items.len() == 0 || items.last().not_after(item) {
        items.len() as int
    } else {
        place(items.drop_last(), item)
    }
}

proof fn lemma_place<T: Ranked>(items: Seq<T>, item: T)
    ensures
        0 <= place(items, item) <= items.len(),
        place(items, item) > 0 ==> items[place(items, item) - 1].not_after(item),
        forall|i: int|
            place(items, item) <= i < items.len() ==> !(#[trigger] items[i]).not_after(item),
    decreases items.len(),
{
    if items.len() > 0 && !items.last().not_after(item) {
        let shorter = items.drop_last();
        lemma_place(shorter, item);
        assert forall|i: int| place(items, item) <= i < items.len() implies !(
        #[trigger] items[i]).not_after(item) by {
            if i < shorter.len() {
                assert(items[i] == shorter[i]);
            }
        }
    }
}

proof fn lemma_inserted_sorted<T: Ranked>(items: Seq<T>, item: T)
    requires
        is_sorted(items),
    ensures
        is_sorted(with_inserted(items, item)),
        with_inserted(items, item).to_multiset() =~= items.to_multiset().insert(item),
        with_inserted(items, item).len() == items.len() + 1,
{
    let at = place(items, item);
    let result = with_inserted(items, item);
    lemma_place(items, item);
    lemma_insert_at(items, item, at);
    vstd::seq_lib::to_multiset_insert(items, at, item);
    assert forall|i: int, j: int| 0 <= i < j < result.len() implies (
    #[trigger] result[i]).not_after(#[trigger] result[j]) by {
        let left = if i < at { i } else { i - 1 };
        let right = if j < at { j } else { j - 1 };
        if j == at {
            if i < at - 1 {
                assert(items[i].not_after(items[at - 1]));
                T::lemma_transitive(items[i], items[at - 1], item);
            }
        } else if i == at {
            assert(!items[right].not_after(item));
            T::lemma_total(items[right], item);
        } else {
            assert(items[left].not_after(items[right]));
        }
    }
}

/// Putting a sequence in order yields a sorted sequence of the same items.
pub proof fn lemma_in_order<T: Ranked>(items: Seq<T>)
    ensures
        is_sorted(in_order(items)),
        in_order(items).to_multiset() == items.to_multiset(),
        in_order(items).len() == items.len(),
    decreases items.len(),
{
    broadcast use vstd::seq_lib::group_to_multiset_ensures;

    if items.len() > 0 {
        let shorter = items.drop_last();
        lemma_in_order(shorter);
        lemma_inserted_sorted(in_order(shorter), items.last());
        assert(items == shorter.push(items.last()));
        assert(in_order(items).to_multiset() =~= items.to_multiset());
    }
}

/// Whatever is read off each item, a sequence put in order yields as often as before.
pub proof fn lemma_in_order_mapped<T: Ranked, U>(items: Seq<T>, read: spec_fn(T) -> U)
    ensures
        in_order(items).map_values(read).to_multiset() == items.map_values(read).to_multiset(),
    decreases items.len(),
{
    broadcast use vstd::seq_lib::group_to_multiset_ensures;

    if items.len() > 0 {
        let shorter = items.drop_last();
        let item = items.last();
        let before = in_order(shorter);
        let at = place(before, item);
        lemma_in_order_mapped(shorter, read);
        lemma_place(before, item);
        lemma_insert_at(before, item, at);
        assert(in_order(items).map_values(read) =~= before.map_values(read).insert(
            at,
            read(item),
        ));
        vstd::seq_lib::to_multiset_insert(before.map_values(read), at, read(item));
        assert(items.map_values(read) =~= shorter.map_values(read).push(read(item)));
        assert(in_order(items).map_values(read).to_multiset() =~= items.map_values(
            read,
        ).to_multiset());
    }
}

/// The two may stand on either side of each other.
pub open spec fn tied<T: Ranked>(left: T, right: T) -> bool {
    left.not_after(right) && right.not_after(left)
}

proof fn lemma_insertion_keeps_ties<T: Ranked>(items: Seq<T>, item: T, pivot: T)
    ensures
        with_inserted(items, item).filter(|other: T| tied(other, pivot)) == if tied(item, pivot) {
            items.filter(|other: T| tied(other, pivot)).push(item)
        } else {
            items.filter(|other: T| tied(other, pivot))
        },
    decreases items.len(),
{
    broadcast use Seq::lemma_filter_push;

    let ties = |other: T| tied(other, pivot);
    reveal(Seq::filter);
    if !(items.len() == 0 || items.last().not_after(item)) {
        lemma_insertion_keeps_ties(items.drop_last(), item, pivot);
        assert(items =~= items.drop_last().push(items.last()));
        if tied(items.last(), pivot) && tied(item, pivot) {
            T::lemma_transitive(items.last(), pivot, item);
        }
    }
}

/// Items that may stand on either side of each other stay in the order in which they came.
pub proof fn lemma_in_order_keeps_ties<T: Ranked>(items: Seq<T>, pivot: T)
    ensures
        in_order(items).filter(|other: T| tied(other, pivot)) == items.filter(
            |other: T| tied(other, pivot),
        ),
    decreases items.len(),
{
    broadcast use Seq::lemma_filter_push;

    if items.len() > 0 {
        lemma_in_order_keeps_ties(items.drop_last(), pivot);
        lemma_insertion_keeps_ties(in_order(items.drop_last()), items.last(), pivot);
        assert(items =~= items.drop_last().push(items.last()));
    }
}

} // verus!
