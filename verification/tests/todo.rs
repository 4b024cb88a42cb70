use todo_list::todo::Todo;

#[test]
fn clone_of_an_entry_keeps_every_field() {
    let entry = Todo { id: 7, name: "Water plants".to_string(), done: true };
    let copy = entry.clone();
    assert_eq!(copy, entry);
    assert_eq!(copy.id, 7);
    assert_eq!(copy.name, "Water plants");
    assert!(copy.done);
}

#[test]
fn entries_differ_by_any_field() {
    let entry = Todo { id: 1, name: "a".to_string(), done: false };
    assert_ne!(entry, Todo { id: 2, name: "a".to_string(), done: false });
    assert_ne!(entry, Todo { id: 1, name: "b".to_string(), done: false });
    assert_ne!(entry, Todo { id: 1, name: "a".to_string(), done: true });
}

#[test]
fn only_a_done_entry_can_be_deleted() {
    let open = Todo { id: 1, name: "a".to_string(), done: false };
    let done = Todo { id: 2, name: "b".to_string(), done: true };
    assert!(!open.can_delete());
    assert!(done.can_delete());
}

#[test]
fn toggle_label_names_the_next_state() {
    let open = Todo { id: 1, name: "a".to_string(), done: false };
    let done = Todo { id: 2, name: "b".to_string(), done: true };
    assert_eq!(open.toggle_label(), "Done");
    assert_eq!(done.toggle_label(), "Undo");
}
