//! One entry of the list and its mathematical model.

use vstd::prelude::*;

verus! {

/// What a [`Todo`] stands for in contracts: its identifier as a natural
/// number, its text as a sequence of characters, and its completion flag.
pub struct TodoView {
    pub id: nat,
    pub name: Seq<char>,
    pub done: bool,
}

/// One entry of the list.
#[derive(Debug, PartialEq, Eq)]
pub struct Todo {
    /// Identifier, unique among the entries of the list that holds this one.
    pub id: usize,
    /// The text that the user typed.
    pub name: String,
    /// Whether the entry has been marked as completed.
    pub done: bool,
}

impl View for Todo {
    type V = TodoView;

    open spec fn view(&self) -> TodoView {
        TodoView { id: self.id as nat, name: self.name@, done: self.done }
    }
}

impl Todo {
    /// Whether deleting is offered for this entry: only an entry that is
    /// done can be deleted by the user.
    pub fn can_delete(&self) -> (offered: bool)
        ensures
            offered == self.done,
    {
        self.done
    }

    /// The caption of the control that toggles this entry. It names what
    /// the toggle will do: "Done" on an open entry, "Undo" on a done one.
    pub fn toggle_label(&self) -> (label: &'static str)
        ensures
            label@ == if self.done {
                "Undo"@
            } else {
                "Done"@
            },
    {
        if self.done {
            "Undo"
        } else {
            "Done"
        }
    }
}

/// The model of a run of entries: the model of each, in the same order.
pub open spec fn views(items: Seq<Todo>) -> Seq<TodoView> {
    items.map_values(|item: Todo| item@)
}

impl Clone for Todo {
    /// A copy that is equal to this entry in every field.
    fn clone(&self) -> (copy: Todo)
        ensures
            copy == *self,
    {
        Todo { id: self.id, name: self.name.clone(), done: self.done }
    }
}

} // verus!
