use todo_list::input::{is_blank, on_enter, submit};
use todo_list::store::TodoList;
use todo_list::todo::Todo;

fn todo(id: usize, name: &str, done: bool) -> Todo {
    Todo { id, name: name.to_string(), done }
}

#[test]
fn empty_text_is_blank() {
    assert!(is_blank(""));
}

#[test]
fn white_space_is_blank() {
    assert!(is_blank(" "));
    assert!(is_blank("   "));
    assert!(is_blank("\t"));
    assert!(is_blank("\n"));
    assert!(is_blank(" \t\r\n "));
    assert!(is_blank("\u{a0}"));
    assert!(is_blank("\u{2003}\u{3000}"));
}

#[test]
fn text_is_not_blank() {
    assert!(!is_blank("a"));
    assert!(!is_blank("Buy milk"));
    assert!(!is_blank("  a"));
    assert!(!is_blank("a  "));
    assert!(!is_blank("  a  "));
    assert!(!is_blank(" \t x \n "));
    assert!(!is_blank("\u{200b}"));
    assert!(!is_blank("søren"));
}

#[test]
fn blank_agrees_with_trimming() {
    let samples = [
        "", " ", "a", " a", "a ", "\t\n", "\u{a0}", "\u{a0}x", "\u{1680}", "\u{180e}", "\u{200b}",
        "\u{2028}\u{2029}", "\u{202f}\u{205f}", "\u{feff}", "0", "_", "\u{0}",
    ];
    for text in samples {
        assert_eq!(is_blank(text), text.trim().is_empty(), "{:?}", text);
    }
}

#[test]
fn submit_adds_the_text_and_clears_the_line() {
    let mut todo_list = TodoList::new();
    let mut input = "Buy milk".to_string();
    submit(&mut input, &mut todo_list);
    assert_eq!(input, "");
    assert_eq!(todo_list.list(), &vec![todo(1, "Buy milk", false)]);

    input.push_str("Walk dog");
    submit(&mut input, &mut todo_list);
    assert_eq!(input, "");
    assert_eq!(
        todo_list.list(),
        &vec![todo(1, "Buy milk", false), todo(2, "Walk dog", false)]
    );
}

#[test]
fn submit_keeps_the_text_untrimmed() {
    let mut todo_list = TodoList::new();
    let mut input = "  Buy milk ".to_string();
    submit(&mut input, &mut todo_list);
    assert_eq!(input, "");
    assert_eq!(todo_list.list(), &vec![todo(1, "  Buy milk ", false)]);
}

#[test]
fn submit_ignores_an_empty_line() {
    let mut todo_list = TodoList::new();
    todo_list.add_todo("a".to_string());
    let before = todo_list.clone();
    let mut input = String::new();
    submit(&mut input, &mut todo_list);
    assert_eq!(input, "");
    assert_eq!(todo_list, before);
}

#[test]
fn submit_ignores_white_space() {
    let mut todo_list = TodoList::new();
    todo_list.add_todo("a".to_string());
    let before = todo_list.clone();
    let mut input = " \t ".to_string();
    submit(&mut input, &mut todo_list);
    assert_eq!(input, " \t ");
    assert_eq!(todo_list, before);
}

#[test]
fn enter_adds_the_text_and_clears_the_line() {
    let mut todo_list = TodoList::new();
    let mut input = "Buy milk".to_string();
    on_enter(true, &mut input, &mut todo_list);
    assert_eq!(input, "");
    assert_eq!(todo_list.list(), &vec![todo(1, "Buy milk", false)]);
}

#[test]
fn enter_on_a_blank_line_changes_nothing() {
    let mut todo_list = TodoList::new();
    let mut input = "   ".to_string();
    on_enter(true, &mut input, &mut todo_list);
    assert_eq!(input, "   ");
    assert!(todo_list.list().is_empty());

    let mut empty = String::new();
    on_enter(true, &mut empty, &mut todo_list);
    assert_eq!(empty, "");
    assert!(todo_list.list().is_empty());
}

#[test]
fn other_keys_change_nothing() {
    let mut todo_list = TodoList::new();
    todo_list.add_todo("a".to_string());
    let before = todo_list.clone();
    let mut input = "Buy milk".to_string();
    on_enter(false, &mut input, &mut todo_list);
    assert_eq!(input, "Buy milk");
    assert_eq!(todo_list, before);

    let mut blank = " ".to_string();
    on_enter(false, &mut blank, &mut todo_list);
    assert_eq!(blank, " ");
    assert_eq!(todo_list, before);
}
