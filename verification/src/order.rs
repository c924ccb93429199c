//! The order in which records are shown: most urgent first, and among
//! records of one priority the one that was added first.

use crate::item::{ItemView, TodoItem};
use crate::json::item_views;
use vstd::prelude::*;

verus! {

/// No record comes before a more urgent one.
pub open spec fn is_descending(items: Seq<ItemView>) -> bool {
    forall|i: int, j: int|
        0 <= i < j < items.len() ==> (#[trigger] items[i]).priority >= (#[trigger] items[j]).priority
}

/// The records of one priority, in the order of the list.
pub open spec fn of_priority(items: Seq<ItemView>, priority: i16) -> Seq<ItemView> {
    items.filter(|item: ItemView| item.priority == priority)
}

/// `sorted` holds the records of `items` by falling priority, those of one
/// priority in the order in which `items` holds them.
pub open spec fn is_stable_sort_of(sorted: Seq<ItemView>, items: Seq<ItemView>) -> bool {
    &&& is_descending(sorted)
    &&& forall|priority: i16| #[trigger] of_priority(sorted, priority) == of_priority(items, priority)
}

/// A copy of the records by falling priority; records of one priority keep
/// their order.
pub fn sorted_by_priority(items: &Vec<TodoItem>) -> (sorted: Vec<TodoItem>)
    ensures
        is_stable_sort_of(item_views(sorted@), item_views(items@)),
        sorted@.len() == items@.len(),
{
    let ghost all = item_views(items@);
    let mut sorted: Vec<TodoItem> = Vec::new();
    let mut index: usize = 0;
    proof {
        assert(all.take(0) =~= Seq::<ItemView>::empty());
        assert(item_views(sorted@) =~= Seq::<ItemView>::empty());
    }
    while index < items.len()
        invariant
            index <= items.len(),
            all == item_views(items@),
            sorted@.len() == index,
            is_stable_sort_of(item_views(sorted@), all.take(index as int)),
        decreases items.len() - index,
    {
        let item = items[index].clone();
        let ghost before = item_views(sorted@);
        let mut place: usize = 0;
        while place < sorted.len() && sorted[place].priority() >= item.priority()
            invariant
                place <= sorted.len(),
                before == item_views(sorted@),
                forall|earlier: int|
                    0 <= earlier < place ==> (#[trigger] before[earlier]).priority
                        >= item@.priority,
            decreases sorted.len() - place,
        {
            place += 1;
        }
        proof {
            assert forall|later: int| place <= later < before.len() implies (
            #[trigger] before[later]).priority < item@.priority by {
                assert(before[place as int].priority < item@.priority);
                if later > place {
                    assert(before[place as int].priority >= before[later].priority);
                }
            }
            assert(all.take(index + 1) =~= all.take(index as int).push(item@));
            assert forall|priority: i16| #[trigger]
                of_priority(before.insert(place as int, item@), priority) == of_priority(
                    all.take(index + 1),
                    priority,
                ) by {
                lemma_insert_keeps_order(before, place as int, item@, priority);
                lemma_push_keeps_order(all.take(index as int), item@, priority);
                assert(of_priority(before, priority) == of_priority(
                    all.take(index as int),
                    priority,
                ));
            }
            lemma_insert_keeps_descending(before, place as int, item@);
        }
        sorted.insert(place, item);
        assert(item_views(sorted@) =~= before.insert(place as int, item@));
        index += 1;
    }
    assert(all.take(index as int) =~= all);
    sorted
}

/// A record put behind every record that is at least as urgent and before
/// every record that is less urgent leaves the list in falling order.
pub proof fn lemma_insert_keeps_descending(sorted: Seq<ItemView>, place: int, item: ItemView)
    requires
        0 <= place <= sorted.len(),
        is_descending(sorted),
        forall|earlier: int| 0 <= earlier < place ==> (#[trigger] sorted[earlier]).priority
            >= item.priority,
        forall|later: int| place <= later < sorted.len() ==> (#[trigger] sorted[later]).priority
            < item.priority,
    ensures
        is_descending(sorted.insert(place, item)),
{
    let grown = sorted.insert(place, item);
    sorted.insert_ensures(place, item);
    assert forall|i: int, j: int| 0 <= i < j < grown.len() implies (#[trigger] grown[i]).priority
        >= (#[trigger] grown[j]).priority by {
        if i < place {
            assert(grown[i] == sorted[i]);
        } else if i > place {
            assert(grown[i] == sorted[i - 1]);
        }
        if j < place {
            assert(grown[j] == sorted[j]);
        } else if j > place {
            assert(grown[j] == sorted[j - 1]);
        }
    }
}

/// A record put before records that are all less urgent comes last among
/// the records of its own priority, and the records of every other priority
/// stay as they are.
pub proof fn lemma_insert_keeps_order(
    sorted: Seq<ItemView>,
    place: int,
    item: ItemView,
    priority: i16,
)
    requires
        0 <= place <= sorted.len(),
        forall|later: int| place <= later < sorted.len() ==> (#[trigger] sorted[later]).priority
            < item.priority,
    ensures
        of_priority(sorted.insert(place, item), priority) == if priority == item.priority {
            of_priority(sorted, priority).push(item)
        } else {
            of_priority(sorted, priority)
        },
{
    let of_that = |other: ItemView| other.priority == priority;
    let head = sorted.take(place);
    let tail = sorted.skip(place);
    assert(sorted.insert(place, item) =~= head.push(item) + tail);
    assert(sorted =~= head + tail);
    Seq::filter_distributes_over_add(head.push(item), tail, of_that);
    Seq::filter_distributes_over_add(head, tail, of_that);
    lemma_push_keeps_order(head, item, priority);
    if priority == item.priority {
        tail.lemma_all_neg_filter_empty(of_that);
        assert(of_priority(sorted, priority) =~= head.filter(of_that));
        assert(of_priority(sorted.insert(place, item), priority) =~= head.filter(of_that).push(
            item,
        ));
    }
}

/// A record added at the end comes last among the records of its own
/// priority, and the records of every other priority stay as they are.
pub proof fn lemma_push_keeps_order(items: Seq<ItemView>, item: ItemView, priority: i16)
    ensures
        of_priority(items.push(item), priority) == if priority == item.priority {
            of_priority(items, priority).push(item)
        } else {
            of_priority(items, priority)
        },
{
    reveal(Seq::filter);
    assert(items.push(item).drop_last() =~= items);
}

/// A list that holds a record of some priority has a record among those of
/// that priority, and only such a list has.
pub proof fn lemma_priority_is_present(items: Seq<ItemView>, priority: i16)
    ensures
        of_priority(items, priority).len() > 0 <==> exists|index: int|
            0 <= index < items.len() && (#[trigger] items[index]).priority == priority,
    decreases items.len(),
{
    reveal(Seq::filter);
    if items.len() > 0 {
        let shorter = items.drop_last();
        lemma_priority_is_present(shorter, priority);
        if of_priority(items, priority).len() > 0 {
            if items.last().priority == priority {
                assert(items[items.len() - 1].priority == priority);
            } else {
                let index = choose|index: int|
                    0 <= index < shorter.len() && (#[trigger] shorter[index]).priority
                        == priority;
                assert(items[index].priority == priority);
            }
        }
        if exists|index: int|
            0 <= index < items.len() && (#[trigger] items[index]).priority == priority {
            let index = choose|index: int|
                0 <= index < items.len() && (#[trigger] items[index]).priority == priority;
            if index < shorter.len() {
                assert(shorter[index].priority == priority);
            }
        }
    }
}

/// The order is fixed by the rule: two lists by falling priority that hold
/// the same records of each priority in the same order are the same list.
pub proof fn lemma_order_is_unique(one: Seq<ItemView>, other: Seq<ItemView>)
    requires
        is_descending(one),
        is_descending(other),
        forall|priority: i16| #[trigger] of_priority(one, priority) == of_priority(other, priority),
    ensures
        one == other,
    decreases one.len(),
{
    if one.len() == 0 {
        if other.len() > 0 {
            let priority = other[0].priority;
            lemma_priority_is_present(other, priority);
            lemma_priority_is_present(one, priority);
            assert(of_priority(one, priority) == of_priority(other, priority));
        }
        assert(one =~= other);
    } else {
        let last = one.last();
        let priority = last.priority;
        let one_rest = one.drop_last();
        assert(one =~= one_rest.push(last));
        lemma_priority_is_present(one, priority);
        lemma_priority_is_present(other, priority);
        assert(one[one.len() - 1].priority == priority);
        assert(of_priority(one, priority) == of_priority(other, priority));
        let at = choose|index: int|
            0 <= index < other.len() && (#[trigger] other[index]).priority == priority;
        let other_last = other.last();
        let other_rest = other.drop_last();
        assert(other =~= other_rest.push(other_last));
        assert(other[at].priority >= other[other.len() - 1].priority);
        if other_last.priority < priority {
            let lower = other_last.priority;
            lemma_priority_is_present(other, lower);
            lemma_priority_is_present(one, lower);
            assert(other[other.len() - 1].priority == lower);
            assert(of_priority(one, lower) == of_priority(other, lower));
            let index = choose|index: int|
                0 <= index < one.len() && (#[trigger] one[index]).priority == lower;
            assert(one[index].priority >= one[one.len() - 1].priority);
        }
        assert(other_last.priority == priority);
        assert forall|class: i16| #[trigger]
            of_priority(one_rest, class) == of_priority(other_rest, class) by {
            lemma_push_keeps_order(one_rest, last, class);
            lemma_push_keeps_order(other_rest, other_last, class);
            assert(of_priority(one, class) == of_priority(other, class));
            if class == priority {
                let left = of_priority(one_rest, class);
                let right = of_priority(other_rest, class);
                assert(left.push(last) == right.push(other_last));
                assert(left =~= left.push(last).drop_last());
                assert(right =~= right.push(other_last).drop_last());
            }
        }
        assert(last == other_last) by {
            lemma_push_keeps_order(one_rest, last, priority);
            lemma_push_keeps_order(other_rest, other_last, priority);
            let left = of_priority(one_rest, priority);
            let right = of_priority(other_rest, priority);
            assert(left.push(last) == right.push(other_last));
            assert(left.push(last).last() == last);
            assert(right.push(other_last).last() == other_last);
        }
        assert(is_descending(one_rest)) by {
            assert forall|i: int, j: int| 0 <= i < j < one_rest.len() implies (
            #[trigger] one_rest[i]).priority >= (#[trigger] one_rest[j]).priority by {
                assert(one[i].priority >= one[j].priority);
            }
        }
        assert(is_descending(other_rest)) by {
            assert forall|i: int, j: int| 0 <= i < j < other_rest.len() implies (
            #[trigger] other_rest[i]).priority >= (#[trigger] other_rest[j]).priority by {
                assert(other[i].priority >= other[j].priority);
            }
        }
        lemma_order_is_unique(one_rest, other_rest);
    }
}

/// Sorting has one answer: any two lists that each are a stable sort of the
/// same records are equal.
pub proof fn lemma_stable_sort_is_unique(
    one: Seq<ItemView>,
    other: Seq<ItemView>,
    items: Seq<ItemView>,
)
    requires
        is_stable_sort_of(one, items),
        is_stable_sort_of(other, items),
    ensures
        one == other,
{
    assert forall|priority: i16| #[trigger]
        of_priority(one, priority) == of_priority(other, priority) by {
        assert(of_priority(one, priority) == of_priority(items, priority));
        assert(of_priority(other, priority) == of_priority(items, priority));
    }
    lemma_order_is_unique(one, other);
}

} // verus!
