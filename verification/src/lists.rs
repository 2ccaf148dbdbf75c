//! Looking through a list in order.

use vstd::prelude::*;

verus! {

/// The first item at or after `from` that is wanted.
pub open spec fn first_from<T>(items: Seq<T>, wanted: spec_fn(T) -> bool, from: int) -> Option<T>
    decreases items.len() - from,
{
    if from < 0 || from >= items.len() {
        None
    } else if wanted(items[from]) {
        Some(items[from])
    } else {
        first_from(items, wanted, from + 1)
    }
}

/// The first item that is wanted.
pub open spec fn first_where<T>(items: Seq<T>, wanted: spec_fn(T) -> bool) -> Option<T> {
    first_from(items, wanted, 0)
}

/// What [`first_where`] finds is wanted and stands in the list; when it finds
/// nothing, nothing in the list is wanted.
pub proof fn first_where_is_wanted<T>(items: Seq<T>, wanted: spec_fn(T) -> bool)
    ensures
        first_where(items, wanted) matches Some(item) ==> wanted(item) && items.contains(item),
        first_where(items, wanted) is None ==> forall|i: int|
            0 <= i < items.len() ==> !wanted(#[trigger] items[i]),
{
    lemma_first_from(items, wanted, 0);
}

proof fn lemma_first_from<T>(items: Seq<T>, wanted: spec_fn(T) -> bool, from: int)
    requires
        0 <= from,
    ensures
        first_from(items, wanted, from) matches Some(item) ==> wanted(item) && items.contains(item),
        first_from(items, wanted, from) is None ==> forall|i: int|
            from <= i < items.len() ==> !wanted(#[trigger] items[i]),
    decreases items.len() - from,
{
    if from < items.len() {
        lemma_first_from(items, wanted, from + 1);
        assert(items.contains(items[from]));
    }
}

/// The wanted items of a list, in order.
pub open spec fn all_where<T>(items: Seq<T>, wanted: spec_fn(T) -> bool) -> Seq<T>
    decreases items.len(),
{
    if items.len() == 0 {
        Seq::empty()
    } else if wanted(items.last()) {
        all_where(items.drop_last(), wanted).push(items.last())
    } else {
        all_where(items.drop_last(), wanted)
    }
}

/// [`all_where`] keeps every item that is wanted and no other.
pub proof fn all_where_keeps_what_is_wanted<T>(items: Seq<T>, wanted: spec_fn(T) -> bool)
    ensures
        forall|item: T| #[trigger]
            all_where(items, wanted).contains(item) <==> items.contains(item) && wanted(item),
    decreases items.len(),
{
    let kept = all_where(items, wanted);
    if items.len() > 0 {
        let rest = items.drop_last();
        let before = all_where(rest, wanted);
        all_where_keeps_what_is_wanted(rest, wanted);
        assert forall|item: T| #[trigger] kept.contains(item) <==> items.contains(item) && wanted(
            item,
        ) by {
            if kept.contains(item) {
                let i = choose|i: int| 0 <= i < kept.len() && kept[i] == item;
                if i < before.len() {
                    assert(before[i] == item);
                    assert(before.contains(item));
                    let j = choose|j: int| 0 <= j < rest.len() && rest[j] == item;
                    assert(items[j] == item);
                } else {
                    assert(items[items.len() - 1] == item);
                }
            }
            if items.contains(item) && wanted(item) {
                let i = choose|i: int| 0 <= i < items.len() && items[i] == item;
                if i < rest.len() {
                    assert(rest[i] == item);
                    assert(before.contains(item));
                    let j = choose|j: int| 0 <= j < before.len() && before[j] == item;
                    assert(kept[j] == item);
                } else {
                    assert(kept[before.len() as int] == item);
                }
            }
        }
    }
}

/// What [`first_where`] finds comes first: nothing before it is wanted.
pub proof fn first_where_comes_first<T>(items: Seq<T>, wanted: spec_fn(T) -> bool) -> (at: int)
    ensures
        match first_where(items, wanted) {
            Some(item) => {
                &&& 0 <= at < items.len()
                &&& items[at] == item
                &&& wanted(items[at])
                &&& forall|earlier: int| 0 <= earlier < at ==> !wanted(#[trigger] items[earlier])
            },
            None => forall|i: int| 0 <= i < items.len() ==> !wanted(#[trigger] items[i]),
        },
{
    lemma_comes_first(items, wanted, 0)
}

proof fn lemma_comes_first<T>(items: Seq<T>, wanted: spec_fn(T) -> bool, from: int) -> (at: int)
    requires
        0 <= from,
    ensures
        match first_from(items, wanted, from) {
            Some(item) => {
                &&& from <= at < items.len()
                &&& items[at] == item
                &&& wanted(items[at])
                &&& forall|earlier: int| from <= earlier < at ==> !wanted(#[trigger] items[earlier])
            },
            None => forall|i: int| from <= i < items.len() ==> !wanted(#[trigger] items[i]),
        },
    decreases items.len() - from,
{
    if from >= items.len() || wanted(items[from]) {
        from
    } else {
        lemma_comes_first(items, wanted, from + 1)
    }
}

/// [`all_where`] goes item by item and keeps the order: what it keeps of two
/// lists together is what it keeps of the one and then of the other, and of one
/// item it keeps that item exactly when it is wanted.
pub proof fn all_where_goes_item_by_item<T>(
    items: Seq<T>,
    more: Seq<T>,
    item: T,
    wanted: spec_fn(T) -> bool,
)
    ensures
        all_where(items + more, wanted) == all_where(items, wanted) + all_where(more, wanted),
        all_where(seq![item], wanted) == if wanted(item) {
            seq![item]
        } else {
            Seq::<T>::empty()
        },
    decreases more.len(),
{
    let one = seq![item];
    assert(one.drop_last() =~= Seq::<T>::empty());
    assert(all_where(one.drop_last(), wanted) =~= Seq::<T>::empty());
    assert(Seq::<T>::empty().push(item) =~= one);
    let both = items + more;
    if more.len() == 0 {
        assert(both =~= items);
        assert(all_where(more, wanted) =~= Seq::<T>::empty());
        assert(all_where(items, wanted) + all_where(more, wanted) =~= all_where(items, wanted));
    } else {
        all_where_goes_item_by_item(items, more.drop_last(), item, wanted);
        assert(both.drop_last() =~= items + more.drop_last());
        assert(both.last() == more.last());
        assert(all_where(both, wanted) =~= all_where(items, wanted) + all_where(more, wanted));
    }
}

} // verus!
