use todo_list::command::{dispatch, entries_for};
use todo_list::error::TodoError;
use todo_list::item::TodoItem;
use todo_list::order::sorted_by_priority;
use todo_list::selector::{Action, Key, Outcome, Phase, Selector};
use todo_list::store::TodoList;

fn item(name: &str, content: &str, priority: i16) -> TodoItem {
    TodoItem::new(name.to_string(), content.to_string(), priority)
}

fn three() -> Vec<TodoItem> {
    vec![item("a", "", 1), item("b", "", 2), item("c", "", 3)]
}

fn shown(count: usize, rows: usize) -> Selector {
    let mut items = Vec::new();
    for index in 0..count {
        items.push(item(&format!("item {}", index), "", 0));
    }
    let mut selector = Selector::new(entries_for(&items, Action::Nothing), rows);
    assert!(selector.begin(Ok(())).is_ok());
    selector
}

#[test]
fn a_new_pick_list_is_idle() {
    let selector = Selector::new(entries_for(&three(), Action::Nothing), 4);
    assert_eq!(selector.count(), 3);
    assert_eq!(selector.phase(), Phase::Idle);
    assert_eq!(selector.outcome(), Outcome::Pending);
    assert_eq!(selector.candidate(1).name(), "b");
}

#[test]
fn an_idle_pick_list_ignores_keys() {
    let mut selector = Selector::new(entries_for(&three(), Action::Nothing), 4);
    selector.press(Key::Down);
    selector.press(Key::Enter);
    assert_eq!(selector.phase(), Phase::Idle);
}

#[test]
fn a_pick_list_starts_on_its_first_candidate() {
    let selector = shown(3, 4);
    assert_eq!(selector.phase(), Phase::Active(0));
    assert_eq!(selector.outcome(), Outcome::Pending);
}

#[test]
fn a_pick_list_without_candidates_is_called_off_at_once() {
    let selector = shown(0, 4);
    assert_eq!(selector.phase(), Phase::Cancelled);
    assert_eq!(selector.outcome(), Outcome::Cancelled);
}

#[test]
fn a_terminal_that_cannot_be_prepared_is_an_input_error() {
    let mut selector = Selector::new(entries_for(&three(), Action::Nothing), 4);
    match selector.begin(Err("not a terminal".to_string())) {
        Err(TodoError::Input(message)) => assert_eq!(message, "not a terminal"),
        _ => panic!("an input error was expected"),
    }
    assert_eq!(selector.phase(), Phase::Cancelled);
    assert!(selector.begin(Ok(())).is_ok());
    assert_eq!(selector.phase(), Phase::Cancelled);
}

#[test]
fn downs_and_enter_confirm_the_index_modulo_the_count() {
    for count in 1..6usize {
        for downs in 0..14usize {
            let mut selector = shown(count, 3);
            let mut keys = vec![Key::Down; downs];
            keys.push(Key::Enter);
            selector.press_all(&keys);
            assert_eq!(selector.phase(), Phase::Confirmed(downs % count));
            assert_eq!(selector.outcome(), Outcome::Selected(downs % count, Action::Nothing));
        }
    }
}

#[test]
fn downs_and_escape_call_the_choice_off() {
    for downs in 0..5usize {
        let mut selector = shown(3, 3);
        let mut keys = vec![Key::Down; downs];
        keys.push(Key::Escape);
        selector.press_all(&keys);
        assert_eq!(selector.phase(), Phase::Cancelled);
        assert_eq!(selector.outcome(), Outcome::Cancelled);
    }
}

#[test]
fn up_from_the_first_candidate_leads_to_the_last() {
    let mut selector = shown(4, 3);
    selector.press(Key::Up);
    assert_eq!(selector.phase(), Phase::Active(3));
    selector.press(Key::Up);
    assert_eq!(selector.phase(), Phase::Active(2));
    selector.press(Key::Down);
    selector.press(Key::Down);
    assert_eq!(selector.phase(), Phase::Active(0));
}

#[test]
fn other_keys_leave_the_cursor_where_it_is() {
    let mut selector = shown(4, 3);
    selector.press(Key::Down);
    selector.press(Key::Other);
    assert_eq!(selector.phase(), Phase::Active(1));
}

#[test]
fn a_pick_list_that_has_ended_ignores_keys() {
    let mut selector = shown(3, 3);
    selector.press_all(&vec![Key::Down, Key::Enter, Key::Down, Key::Up, Key::Escape, Key::Enter]);
    assert_eq!(selector.phase(), Phase::Confirmed(1));
    let mut other = shown(3, 3);
    other.press_all(&vec![Key::Escape, Key::Down, Key::Enter]);
    assert_eq!(other.phase(), Phase::Cancelled);
    assert!(other.begin(Ok(())).is_ok());
    assert_eq!(other.phase(), Phase::Cancelled);
}

#[test]
fn the_window_shows_everything_that_fits() {
    let selector = shown(3, 5);
    assert_eq!(selector.window(), (0, 3));
    let exact = shown(3, 3);
    assert_eq!(exact.window(), (0, 3));
}

#[test]
fn the_window_follows_the_cursor() {
    let mut selector = shown(10, 4);
    assert_eq!(selector.window(), (0, 4));
    selector.press_all(&vec![Key::Down; 2]);
    assert_eq!(selector.window(), (0, 4));
    selector.press(Key::Down);
    assert_eq!(selector.window(), (1, 5));
    selector.press_all(&vec![Key::Down; 4]);
    assert_eq!(selector.window(), (5, 9));
    selector.press_all(&vec![Key::Down; 2]);
    assert_eq!(selector.phase(), Phase::Active(9));
    assert_eq!(selector.window(), (6, 10));
}

#[test]
fn a_window_of_one_row_shows_the_candidate_under_the_cursor() {
    let mut selector = shown(3, 1);
    assert_eq!(selector.window(), (0, 1));
    selector.press(Key::Down);
    assert_eq!(selector.window(), (1, 2));
    selector.press(Key::Down);
    assert_eq!(selector.window(), (2, 3));
}

#[test]
fn a_window_without_rows_shows_nothing() {
    let selector = shown(3, 0);
    let (start, end) = selector.window();
    assert_eq!(start, end);
}

#[test]
fn entries_keep_the_order_of_the_records() {
    let entries = entries_for(&three(), Action::Delete);
    assert_eq!(entries.len(), 3);
    assert_eq!(entries[0].0.name(), "a");
    assert_eq!(entries[2].0.name(), "c");
    assert!(entries.iter().all(|entry| entry.1 == Action::Delete));
}

#[test]
fn confirming_a_candidate_bound_to_a_deletion_deletes_it() {
    let mut list = TodoList::new();
    for record in three() {
        list.add_item(record);
    }
    let mut selector = Selector::new(entries_for(list.analysis(), Action::Delete), 1);
    assert!(selector.begin(Ok(())).is_ok());
    selector.press_all(&vec![Key::Down, Key::Enter]);
    assert_eq!(dispatch(&mut list, &selector), Some(1));
    assert_eq!(list.len(), 2);
    assert_eq!(list.analysis()[0].name(), "a");
    assert_eq!(list.analysis()[1].name(), "c");
}

#[test]
fn confirming_a_candidate_bound_to_nothing_leaves_the_list() {
    let mut list = TodoList::new();
    for record in three() {
        list.add_item(record);
    }
    let mut selector = Selector::new(entries_for(list.analysis(), Action::Nothing), 4);
    assert!(selector.begin(Ok(())).is_ok());
    selector.press_all(&vec![Key::Up, Key::Enter]);
    assert_eq!(dispatch(&mut list, &selector), Some(2));
    assert_eq!(list.len(), 3);
}

#[test]
fn a_choice_that_was_called_off_leaves_the_list() {
    let mut list = TodoList::new();
    for record in three() {
        list.add_item(record);
    }
    let mut selector = Selector::new(entries_for(list.analysis(), Action::Delete), 4);
    assert!(selector.begin(Ok(())).is_ok());
    selector.press_all(&vec![Key::Down, Key::Escape]);
    assert_eq!(dispatch(&mut list, &selector), None);
    assert_eq!(list.len(), 3);
    let pending = Selector::new(entries_for(list.analysis(), Action::Delete), 4);
    assert_eq!(dispatch(&mut list, &pending), None);
    assert_eq!(list.len(), 3);
}

#[test]
fn records_are_sorted_by_falling_priority() {
    let records = vec![item("low", "", -5), item("high", "", 9), item("mid", "", 2)];
    let sorted = sorted_by_priority(&records);
    let names: Vec<&str> = sorted.iter().map(|record| record.name()).collect();
    assert_eq!(names, vec!["high", "mid", "low"]);
}

#[test]
fn records_of_one_priority_keep_their_order() {
    let records = vec![
        item("b1", "", 1),
        item("a1", "", 2),
        item("b2", "", 1),
        item("a2", "", 2),
        item("b3", "", 1),
        item("c", "", -1),
    ];
    let sorted = sorted_by_priority(&records);
    let names: Vec<&str> = sorted.iter().map(|record| record.name()).collect();
    assert_eq!(names, vec!["a1", "a2", "b1", "b2", "b3", "c"]);
    assert_eq!(records.len(), 6);
}

#[test]
fn sorting_no_records_gives_none() {
    assert!(sorted_by_priority(&Vec::new()).is_empty());
}
