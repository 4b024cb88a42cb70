//! What holds of the list whatever is done to it, proved over the model.

use crate::model::{
    after_all, appended, ascending, distinct_ids, has_id, keeps, next_id, removed, toggled, Step,
};
use crate::todo::TodoView;
use vstd::prelude::*;

verus! {

/// Identifiers that grow strictly are pairwise distinct.
pub proof fn lemma_ascending_ids_are_distinct(items: Seq<TodoView>)
    requires
        ascending(items),
    ensures
        distinct_ids(items),
{
}

/// The next identifier is larger than every identifier in the list, so no
/// entry of the list carries it.
pub proof fn lemma_next_id_is_fresh(items: Seq<TodoView>)
    requires
        ascending(items),
    ensures
        next_id(items) >= 1,
        forall|i: int| 0 <= i < items.len() ==> (#[trigger] items[i]).id < next_id(items),
        !has_id(items, next_id(items)),
{
    if items.len() > 0 {
        let last = items.len() - 1;
        assert forall|i: int| 0 <= i < items.len() implies (#[trigger] items[i]).id < next_id(
            items,
        ) by {
            if i < last {
                assert(items[i].id < items[last].id);
            }
        }
    }
}

/// Appending keeps the identifiers ascending.
pub proof fn lemma_appended_is_ascending(items: Seq<TodoView>, name: Seq<char>)
    requires
        ascending(items),
    ensures
        ascending(appended(items, name)),
{
    lemma_next_id_is_fresh(items);
}

/// Toggling keeps the identifiers ascending.
pub proof fn lemma_toggled_is_ascending(items: Seq<TodoView>, id: nat)
    requires
        ascending(items),
    ensures
        ascending(toggled(items, id)),
{
}

/// Removing an identifier that no entry carries changes nothing.
pub proof fn lemma_removed_absent(items: Seq<TodoView>, id: nat)
    requires
        !has_id(items, id),
    ensures
        removed(items, id) == items,
    decreases items.len(),
{
    reveal(Seq::filter);
    if items.len() > 0 {
        let front = items.drop_last();
        assert(!has_id(front, id)) by {
            if has_id(front, id) {
                let i = choose|i: int| 0 <= i < front.len() && (#[trigger] front[i]).id == id;
                assert(items[i].id == id);
            }
        }
        lemma_removed_absent(front, id);
        assert(items.last().id != id) by {
            assert(items[items.len() - 1].id != id);
        }
        assert(front.push(items.last()) =~= items);
    }
}

/// In a list with ascending identifiers, removing the identifier of the
/// entry at `index` removes that entry and no other.
pub proof fn lemma_removed_at(items: Seq<TodoView>, index: int)
    requires
        ascending(items),
        0 <= index < items.len(),
    ensures
        removed(items, items[index].id) == items.remove(index),
    decreases items.len(),
{
    let id = items[index].id;
    let front = items.drop_last();
    let last = items.last();
    assert(front.push(last) =~= items);
    front.lemma_filter_push(last, keeps(id));
    if index == items.len() - 1 {
        assert(!has_id(front, id)) by {
            if has_id(front, id) {
                let i = choose|i: int| 0 <= i < front.len() && (#[trigger] front[i]).id == id;
                assert(items[i].id < items[index].id);
            }
        }
        lemma_removed_absent(front, id);
        assert(items.remove(index) =~= front);
    } else {
        assert(items[index].id < items[items.len() - 1].id);
        assert(ascending(front)) by {
            assert forall|i: int, j: int| 0 <= i < j < front.len() implies (#[trigger] front[i]).id
                < (#[trigger] front[j]).id by {
                assert(items[i].id < items[j].id);
            }
            assert forall|i: int| 0 <= i < front.len() implies (#[trigger] front[i]).id >= 1 by {
                assert(items[i].id >= 1);
            }
        }
        lemma_removed_at(front, index);
        assert(front[index].id == id);
        assert(front.remove(index).push(last) =~= items.remove(index));
    }
}

/// Removing keeps the identifiers ascending.
pub proof fn lemma_removed_is_ascending(items: Seq<TodoView>, id: nat)
    requires
        ascending(items),
    ensures
        ascending(removed(items, id)),
{
    if has_id(items, id) {
        let index = choose|i: int| 0 <= i < items.len() && (#[trigger] items[i]).id == id;
        lemma_removed_at(items, index);
        let rest = items.remove(index);
        // The entry at `i` of the rest stood at `i`, or behind the gap at `i + 1`.
        assert forall|i: int, j: int| 0 <= i < j < rest.len() implies (#[trigger] rest[i]).id
            < (#[trigger] rest[j]).id by {
            let from_i = if i < index { i } else { i + 1 };
            let from_j = if j < index { j } else { j + 1 };
            assert(items[from_i].id < items[from_j].id);
        }
        assert forall|i: int| 0 <= i < rest.len() implies (#[trigger] rest[i]).id >= 1 by {
            let from_i = if i < index { i } else { i + 1 };
            assert(items[from_i].id >= 1);
        }
    } else {
        lemma_removed_absent(items, id);
    }
}

/// Whatever steps are taken from the empty list, and however many of them
/// have been taken so far, the identifiers in the list are ascending and
/// therefore pairwise distinct.
pub proof fn lemma_ids_stay_distinct(steps: Seq<Step>)
    ensures
        forall|n: int|
            0 <= n <= steps.len() ==> ascending(#[trigger] after_all(steps.take(n)))
                && distinct_ids(after_all(steps.take(n))),
{
    assert forall|n: int| 0 <= n <= steps.len() implies ascending(
        #[trigger] after_all(steps.take(n)),
    ) && distinct_ids(after_all(steps.take(n))) by {
        lemma_after_all_is_ascending(steps.take(n));
        lemma_ascending_ids_are_distinct(after_all(steps.take(n)));
    }
}

/// A run of steps from the empty list ends in a list with ascending
/// identifiers.
pub proof fn lemma_after_all_is_ascending(steps: Seq<Step>)
    ensures
        ascending(after_all(steps)),
    decreases steps.len(),
{
    if steps.len() > 0 {
        let before = after_all(steps.drop_last());
        lemma_after_all_is_ascending(steps.drop_last());
        match steps.last() {
            Step::Add(name) => lemma_appended_is_ascending(before, name),
            Step::Toggle(id) => lemma_toggled_is_ascending(before, id),
            Step::Delete(id) => lemma_removed_is_ascending(before, id),
        }
    }
}

/// Toggling the same identifier twice gives the list back: the entry's flag
/// returns to what it was, and no other entry changes.
pub proof fn lemma_toggle_twice(items: Seq<TodoView>, id: nat)
    ensures
        toggled(toggled(items, id), id) == items,
{
    assert(toggled(toggled(items, id), id) =~= items);
}

/// Toggling an identifier that no entry carries changes nothing, and
/// neither does deleting it.
pub proof fn lemma_unknown_id_changes_nothing(items: Seq<TodoView>, id: nat)
    requires
        !has_id(items, id),
    ensures
        toggled(items, id) == items,
        removed(items, id) == items,
{
    assert(toggled(items, id) =~= items);
    lemma_removed_absent(items, id);
}

/// After a deletion no entry carries the deleted identifier, and deleting
/// it once more changes nothing.
pub proof fn lemma_delete_is_final(items: Seq<TodoView>, id: nat)
    ensures
        !has_id(removed(items, id), id),
        removed(removed(items, id), id) == removed(items, id),
{
    let rest = removed(items, id);
    assert(!has_id(rest, id)) by {
        if has_id(rest, id) {
            let i = choose|i: int| 0 <= i < rest.len() && (#[trigger] rest[i]).id == id;
            items.lemma_filter_pred(keeps(id), i);
        }
    }
    lemma_removed_absent(rest, id);
}

/// Deleting an identifier that an entry carries makes the list shorter by
/// exactly one.
pub proof fn lemma_delete_removes_one(items: Seq<TodoView>, id: nat)
    requires
        ascending(items),
        has_id(items, id),
    ensures
        removed(items, id).len() == items.len() - 1,
{
    let index = choose|i: int| 0 <= i < items.len() && (#[trigger] items[i]).id == id;
    lemma_removed_at(items, index);
}

/// Deleting the entry that was just added, by the identifier it received,
/// gives back the list as it was before: one entry fewer, none of them with
/// that identifier. Deleting it a second time changes nothing.
pub proof fn lemma_delete_undoes_add(items: Seq<TodoView>, name: Seq<char>)
    requires
        ascending(items),
    ensures
        ({
            let id = next_id(items);
            let added = appended(items, name);
            let rest = removed(added, id);
            &&& has_id(added, id)
            &&& rest == items
            &&& rest.len() == added.len() - 1
            &&& !has_id(rest, id)
            &&& removed(rest, id) == rest
        }),
{
    let id = next_id(items);
    let added = appended(items, name);
    assert(added[items.len() as int].id == id);
    lemma_next_id_is_fresh(items);
    items.lemma_filter_push(added[items.len() as int], keeps(id));
    lemma_removed_absent(items, id);
    lemma_delete_is_final(added, id);
}

} // verus!
