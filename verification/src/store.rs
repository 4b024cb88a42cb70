//! The list and the operations that read and change it.

use crate::laws::{
    lemma_appended_is_ascending, lemma_ascending_ids_are_distinct, lemma_removed_is_ascending,
    lemma_toggled_is_ascending,
};
use crate::model::{appended, ascending, distinct_ids, keeps, next_id, removed, toggled};
use crate::todo::{views, Todo, TodoView};
use vstd::prelude::*;

verus! {

/// An ordered list of entries. Entries stay in the order in which they were
/// added, and their identifiers are positive and strictly ascending, hence
/// pairwise distinct.
#[derive(Debug, PartialEq, Eq)]
pub struct TodoList {
    list: Vec<Todo>,
}

impl View for TodoList {
    type V = Seq<TodoView>;

    closed spec fn view(&self) -> Seq<TodoView> {
        views(self.list@)
    }
}

impl TodoList {
    #[verifier::type_invariant]
    spec fn well_formed(&self) -> bool {
        ascending(views(self.list@))
    }

    /// An empty list.
    pub fn new() -> (todo_list: TodoList)
        ensures
            todo_list@ == Seq::<TodoView>::empty(),
    {
        TodoList { list: Vec::new() }
    }

    /// The entries, oldest first. Their identifiers are positive, ascending
    /// and pairwise distinct.
    pub fn list(&self) -> (items: &Vec<Todo>)
        ensures
            views(items@) == self@,
            items@.len() == self@.len(),
            forall|i: int| 0 <= i < items@.len() ==> (#[trigger] items@[i])@ == self@[i],
            ascending(self@),
            distinct_ids(self@),
    {
        proof {
            use_type_invariant(self);
            lemma_ascending_ids_are_distinct(self@);
        }
        &self.list
    }

    /// The identifier that the next new entry would receive: 1 in an empty
    /// list, otherwise one more than the identifier of the last entry.
    /// `None` if that number does not fit the machine's word.
    ///
    /// Only the last entry counts. After it has been deleted, the next new
    /// entry receives its identifier again.
    pub fn next_id(&self) -> (id: Option<usize>)
        ensures
            id == if next_id(self@) <= usize::MAX {
                Some(next_id(self@) as usize)
            } else {
                None::<usize>
            },
    {
        let len: usize = self.list.len();
        if len == 0 {
            Some(1)
        } else {
            self.list[len - 1].id.checked_add(1)
        }
    }

    /// Appends a new entry with the text `name`, not done, under the next
    /// identifier. The text is taken as it is, blank or not.
    pub fn add_todo(&mut self, name: String)
        requires
            next_id(old(self)@) <= usize::MAX,
        ensures
            final(self)@ == appended(old(self)@, name@),
            ascending(final(self)@),
    {
        proof {
            use_type_invariant(&*self);
            lemma_appended_is_ascending(self@, name@);
        }
        let id: usize = self.next_id().unwrap();
        let new_todo = Todo { id, name, done: false };
        let mut list = self.list.clone();
        assert(list@ =~= self.list@);
        list.push(new_todo);
        assert(views(list@) =~= appended(views(self.list@), name@));
        self.list = list;
    }

    /// Inverts the completion flag of the entry that carries `id`. Without
    /// such an entry the list stays as it is.
    pub fn todo_done(&mut self, id: usize)
        ensures
            final(self)@ == toggled(old(self)@, id as nat),
            ascending(final(self)@),
    {
        proof {
            use_type_invariant(&*self);
            lemma_toggled_is_ascending(self@, id as nat);
        }
        let mut new_list: Vec<Todo> = Vec::new();
        let mut i: usize = 0;
        while i < self.list.len()
            invariant
                i <= self.list.len(),
                new_list.len() == i,
                forall|k: int|
                    0 <= k < i ==> (#[trigger] new_list[k])@ == toggled(
                        views(self.list@),
                        id as nat,
                    )[k],
            decreases self.list.len() - i,
        {
            let t = &self.list[i];
            let done = if t.id == id {
                !t.done
            } else {
                t.done
            };
            new_list.push(Todo { id: t.id, name: t.name.clone(), done });
            i += 1;
        }
        assert(views(new_list@) =~= toggled(views(self.list@), id as nat));
        self.list = new_list;
    }

    /// Removes the entry that carries `id`; the others keep their order.
    /// Without such an entry the list stays as it is.
    pub fn delete_todo(&mut self, id: usize)
        ensures
            final(self)@ == removed(old(self)@, id as nat),
            ascending(final(self)@),
    {
        proof {
            use_type_invariant(&*self);
            lemma_removed_is_ascending(self@, id as nat);
        }
        let ghost before = views(self.list@);
        let mut new_list: Vec<Todo> = Vec::new();
        let mut i: usize = 0;
        while i < self.list.len()
            invariant
                i <= self.list.len(),
                before == views(self.list@),
                views(new_list@) == removed(before.take(i as int), id as nat),
            decreases self.list.len() - i,
        {
            let t = &self.list[i];
            proof {
                before.lemma_take_succ_push(i as int);
                before.take(i as int).lemma_filter_push(before[i as int], keeps(id as nat));
            }
            if t.id != id {
                new_list.push(t.clone());
                assert(views(new_list@) =~= removed(before.take(i as int), id as nat).push(t@));
            }
            i += 1;
        }
        assert(before.take(i as int) =~= before);
        self.list = new_list;
    }
}

impl Clone for TodoList {
    /// A list with the same entries in the same order.
    fn clone(&self) -> (copy: TodoList)
        ensures
            copy@ == self@,
    {
        proof {
            use_type_invariant(self);
        }
        let list = self.list.clone();
        assert(list@ =~= self.list@);
        TodoList { list }
    }
}

} // verus!
