//! The rule of the input line: a text is taken into the list only if it
//! holds something other than white space, and taking it empties the line.

use crate::model::{appended, next_id};
use crate::store::TodoList;
use vstd::prelude::*;

verus! {

/// Whether the standard library counts `c` as white space: the answer of
/// `char::is_whitespace` for `c`.
pub uninterp spec fn white_space(c: char) -> bool;

/// The standard library's `char::is_whitespace`, taken on trust: its answer
/// depends on the character alone and is what [`white_space`] names. Which
/// characters it accepts is left to the standard library.
pub assume_specification[ char::is_whitespace ](c: char) -> (r: bool)
    ensures
        r == white_space(c),
;

/// A text is blank if it holds nothing but white space; the empty text is
/// blank.
pub open spec fn blank(text: Seq<char>) -> bool {
    forall|i: int| 0 <= i < text.len() ==> white_space(#[trigger] text[i])
}

/// Whether `text` is blank: whether trimming it would leave nothing.
pub fn is_blank(text: &str) -> (r: bool)
    ensures
        r == blank(text@),
{
    for c in it: text.chars()
        invariant
            it.seq() == text@,
            forall|k: int| 0 <= k < it.index() ==> white_space(#[trigger] text@[k]),
    {
        if !c.is_whitespace() {
            return false;
        }
    }
    true
}

/// Moves the text of the input line into the list: the text, exactly as it
/// stands in the line, becomes a new entry at the back, and the line is
/// left empty.
pub fn take_input(input: &mut String, todo_list: &mut TodoList)
    requires
        next_id(old(todo_list)@) <= usize::MAX,
    ensures
        final(input)@ == Seq::<char>::empty(),
        final(todo_list)@ == appended(old(todo_list)@, old(input)@),
{
    let mut name = String::new();
    std::mem::swap(&mut name, input);
    todo_list.add_todo(name);
}

/// A request to add the text of the input line. A blank line is ignored:
/// line and list stay as they are. Any other text is moved into the list as
/// [`take_input`] does.
pub fn submit(input: &mut String, todo_list: &mut TodoList)
    requires
        next_id(old(todo_list)@) <= usize::MAX,
    ensures
        blank(old(input)@) ==> *final(input) == *old(input),
        blank(old(input)@) ==> *final(todo_list) == *old(todo_list),
        !blank(old(input)@) ==> final(input)@ == Seq::<char>::empty(),
        !blank(old(input)@) ==> final(todo_list)@ == appended(old(todo_list)@, old(input)@),
{
    if !is_blank(input.as_str()) {
        take_input(input, todo_list);
    }
}

/// A key press in the input line. The Enter key requests to add the text,
/// as [`submit`] does; any other key leaves line and list as they are.
pub fn on_enter(enter: bool, input: &mut String, todo_list: &mut TodoList)
    requires
        enter ==> next_id(old(todo_list)@) <= usize::MAX,
    ensures
        !enter || blank(old(input)@) ==> *final(input) == *old(input),
        !enter || blank(old(input)@) ==> *final(todo_list) == *old(todo_list),
        enter && !blank(old(input)@) ==> final(input)@ == Seq::<char>::empty(),
        enter && !blank(old(input)@) ==> final(todo_list)@ == appended(
            old(todo_list)@,
            old(input)@,
        ),
{
    if enter {
        submit(input, todo_list);
    }
}

} // verus!
