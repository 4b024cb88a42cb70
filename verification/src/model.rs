//! The list as a mathematical value: a sequence of [`TodoView`], the three
//! steps that change it, and the shape that every list keeps.

use crate::todo::TodoView;
use vstd::prelude::*;

verus! {

/// Whether some entry of `items` carries the identifier `id`.
pub open spec fn has_id(items: Seq<TodoView>, id: nat) -> bool {
    exists|i: int| 0 <= i < items.len() && (#[trigger] items[i]).id == id
}

/// No two entries carry the same identifier.
pub open spec fn distinct_ids(items: Seq<TodoView>) -> bool {
    forall|i: int, j: int|
        0 <= i < j < items.len() ==> (#[trigger] items[i]).id != (#[trigger] items[j]).id
}

/// Identifiers are positive and grow strictly from the front of the list to
/// its back. Every list that the three steps can produce has this shape.
pub open spec fn ascending(items: Seq<TodoView>) -> bool {
    &&& forall|i: int| 0 <= i < items.len() ==> (#[trigger] items[i]).id >= 1
    &&& forall|i: int, j: int|
        0 <= i < j < items.len() ==> (#[trigger] items[i]).id < (#[trigger] items[j]).id
}

/// The identifier that the next new entry receives: 1 in an empty list,
/// otherwise one more than the identifier of the last entry. It is larger
/// than every identifier in the list, but not than every identifier that was
/// ever given out: deleting the last entry frees its identifier.
pub open spec fn next_id(items: Seq<TodoView>) -> nat {
    if items.len() == 0 {
        1
    } else {
        items.last().id + 1
    }
}

/// `items` with one new entry at the back: it carries the next identifier
/// and the text `name`, and is not done.
pub open spec fn appended(items: Seq<TodoView>, name: Seq<char>) -> Seq<TodoView> {
    items.push(TodoView { id: next_id(items), name: name, done: false })
}

/// `item` with its completion flag inverted if it carries `id`, and `item`
/// itself otherwise.
pub open spec fn flipped(item: TodoView, id: nat) -> TodoView {
    if item.id == id {
        TodoView { id: item.id, name: item.name, done: !item.done }
    } else {
        item
    }
}

/// `items` with the completion flag of each entry that carries `id`
/// inverted; length, order and every other field are kept.
pub open spec fn toggled(items: Seq<TodoView>, id: nat) -> Seq<TodoView> {
    Seq::new(items.len(), |i: int| flipped(items[i], id))
}

/// The test that an entry passes when it does not carry `id`.
pub open spec fn keeps(id: nat) -> spec_fn(TodoView) -> bool {
    |item: TodoView| item.id != id
}

/// `items` without the entries that carry `id`; the others stay in order.
pub open spec fn removed(items: Seq<TodoView>, id: nat) -> Seq<TodoView> {
    items.filter(keeps(id))
}

/// One change to a list: a new entry with a text, the toggling of an
/// identifier, or the deletion of an identifier.
pub enum Step {
    Add(Seq<char>),
    Toggle(nat),
    Delete(nat),
}

/// `items` after one step.
pub open spec fn after(items: Seq<TodoView>, step: Step) -> Seq<TodoView> {
    match step {
        Step::Add(name) => appended(items, name),
        Step::Toggle(id) => toggled(items, id),
        Step::Delete(id) => removed(items, id),
    }
}

/// The list that a run of steps builds from the empty list.
pub open spec fn after_all(steps: Seq<Step>) -> Seq<TodoView>
    decreases steps.len(),
{
    if steps.len() == 0 {
        Seq::empty()
    } else {
        after(after_all(steps.drop_last()), steps.last())
    }
}

} // verus!
