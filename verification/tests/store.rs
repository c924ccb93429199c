use todo_list::error::TodoError;
use todo_list::file::{clear_steps, io_outcome, replace_steps, FileStep};
use todo_list::item::TodoItem;
use todo_list::store::TodoList;

fn item(name: &str, content: &str, priority: i16) -> TodoItem {
    TodoItem::new(name.to_string(), content.to_string(), priority)
}

fn list_of(items: Vec<TodoItem>) -> TodoList {
    let mut list = TodoList::new();
    for record in items {
        assert!(list.add_item(record));
    }
    list
}

fn names(list: &TodoList) -> Vec<String> {
    list.analysis().iter().map(|record| record.name().to_string()).collect()
}

/// A file in memory: its bytes and the place of the next write.
fn perform(bytes: &mut Vec<u8>, position: &mut usize, steps: &[FileStep]) {
    for step in steps {
        match step {
            FileStep::Flush => {}
            FileStep::Truncate => bytes.clear(),
            FileStep::Rewind => *position = 0,
            FileStep::Write(data) => {
                if data.is_empty() {
                    continue;
                }
                if bytes.len() < *position {
                    bytes.resize(*position, 0);
                }
                for (offset, byte) in data.iter().enumerate() {
                    if *position + offset < bytes.len() {
                        bytes[*position + offset] = *byte;
                    } else {
                        bytes.push(*byte);
                    }
                }
                *position += data.len();
            }
        }
    }
}

#[test]
fn a_new_list_is_empty() {
    let list = TodoList::new();
    assert_eq!(list.len(), 0);
    assert!(list.is_empty());
    assert!(list.analysis().is_empty());
}

#[test]
fn the_default_list_is_empty() {
    let list = TodoList::default();
    assert_eq!(list.len(), 0);
    assert!(list.is_empty());
}

#[test]
fn adding_the_same_record_twice_keeps_one() {
    let mut list = TodoList::new();
    assert!(list.add_item(item("Buy milk", "2%", 1)));
    assert!(!list.add_item(item("Buy milk", "2%", 1)));
    assert_eq!(list.len(), 1);
}

#[test]
fn a_record_that_differs_in_one_field_is_added() {
    let mut list = TodoList::new();
    assert!(list.add_item(item("Buy milk", "2%", 1)));
    assert!(list.add_item(item("Buy milk!", "2%", 1)));
    assert!(list.add_item(item("Buy milk", "3%", 1)));
    assert!(list.add_item(item("Buy milk", "2%", 2)));
    assert_eq!(list.len(), 4);
    assert!(!list.add_item(item("Buy milk", "3%", 1)));
    assert_eq!(list.len(), 4);
}

#[test]
fn records_stay_in_the_order_in_which_they_were_added() {
    let list = list_of(vec![item("c", "", 1), item("a", "", 3), item("b", "", 2)]);
    assert_eq!(names(&list), vec!["c", "a", "b"]);
}

#[test]
fn a_search_finds_the_keyword_anywhere_in_the_name_in_either_case() {
    let list = list_of(vec![item("Todo", "", 0), item("Donate", "", 0), item("Homework", "", 0)]);
    let found = list.find_items_by_name("do");
    assert_eq!(found.len(), 2);
    assert_eq!(found[0].name(), "Todo");
    assert_eq!(found[1].name(), "Donate");
}

#[test]
fn a_search_sets_the_case_of_the_keyword_aside() {
    let list = list_of(vec![item("Todo", "", 0), item("Donate", "", 0), item("Homework", "", 0)]);
    let found = list.find_items_by_name("WORK");
    assert_eq!(found.len(), 1);
    assert_eq!(found[0].name(), "Homework");
}

#[test]
fn a_search_for_the_empty_keyword_finds_every_record() {
    let list = list_of(vec![item("Todo", "", 0), item("", "", 1)]);
    assert_eq!(list.find_items_by_name("").len(), 2);
}

#[test]
fn a_search_without_match_finds_nothing() {
    let list = list_of(vec![item("Todo", "", 0), item("Donate", "", 0)]);
    assert!(list.find_items_by_name("xyz").is_empty());
    assert!(list.find_first_by_name("xyz").is_none());
    assert!(TodoList::new().find_items_by_name("a").is_empty());
}

#[test]
fn a_search_does_not_look_into_the_content() {
    let list = list_of(vec![item("Todo", "homework", 0)]);
    assert!(list.find_items_by_name("home").is_empty());
}

#[test]
fn the_first_match_of_a_search_is_the_first_in_the_list() {
    let list = list_of(vec![item("Homework", "", 0), item("Todo", "", 0), item("Donate", "", 0)]);
    assert_eq!(list.find_first_by_name("do").unwrap().name(), "Todo");
    assert_eq!(list.find_first_by_name("o").unwrap().name(), "Homework");
}

#[test]
fn deleting_by_name_removes_the_first_record_of_that_name_only() {
    let mut list = list_of(vec![
        item("a", "first", 1),
        item("dup", "one", 1),
        item("b", "second", 1),
        item("dup", "two", 2),
        item("dup", "three", 3),
    ]);
    list.del_by_name("dup".to_string());
    assert_eq!(list.len(), 4);
    assert_eq!(names(&list), vec!["a", "b", "dup", "dup"]);
    assert_eq!(list.analysis()[2].content(), "two");
    assert_eq!(list.analysis()[3].content(), "three");
}

#[test]
fn deleting_asks_for_the_exact_name() {
    let mut list = list_of(vec![item("Todo", "", 0), item("todo", "", 0)]);
    list.del_by_name("tod".to_string());
    list.del_by_name("TODO".to_string());
    assert_eq!(list.len(), 2);
    list.del_by_name("todo".to_string());
    assert_eq!(names(&list), vec!["Todo"]);
}

#[test]
fn deleting_a_name_that_no_record_has_changes_nothing() {
    let mut list = list_of(vec![item("a", "", 0), item("b", "", 0)]);
    list.del_by_name("c".to_string());
    assert_eq!(names(&list), vec!["a", "b"]);
    let mut empty = TodoList::new();
    empty.del_by_name("c".to_string());
    assert!(empty.is_empty());
}

#[test]
fn an_empty_file_opens_as_an_empty_list() {
    assert_eq!(TodoList::open("").unwrap().len(), 0);
}

#[test]
fn a_file_of_white_space_opens_as_an_empty_list() {
    assert_eq!(TodoList::open(" \n\t \r\n").unwrap().len(), 0);
}

#[test]
fn a_file_with_records_opens_as_these_records() {
    let content = "[{\"name\":\"Buy milk\",\"content\":\"2%\",\"priority\":1},\
                   {\"name\":\"Call\",\"content\":\"mum\",\"priority\":5}]\n";
    let list = TodoList::open(content).unwrap();
    assert_eq!(list.len(), 2);
    assert!(list.analysis()[0] == item("Buy milk", "2%", 1));
    assert!(list.analysis()[1] == item("Call", "mum", 5));
}

#[test]
fn a_file_may_hold_the_same_record_twice() {
    let content = "[{\"name\":\"a\",\"content\":\"b\",\"priority\":1},\
                   {\"name\":\"a\",\"content\":\"b\",\"priority\":1}]";
    assert_eq!(TodoList::open(content).unwrap().len(), 2);
}

#[test]
fn a_file_that_is_not_json_fails_with_a_format_error_that_holds_its_content() {
    match TodoList::open("not json") {
        Err(TodoError::Format(message)) => {
            assert!(message.contains("not json"));
            assert_eq!(
                message,
                "invalid todo list: expected ident at line 1 column 2 (content: not json)"
            );
        }
        _ => panic!("a format error was expected"),
    }
}

#[test]
fn a_file_that_breaks_the_schema_fails_with_a_format_error() {
    let content = "[{\"name\":\"a\",\"content\":\"b\"}]";
    match TodoList::open(content) {
        Err(TodoError::Format(message)) => {
            assert_eq!(
                message,
                format!("invalid todo list: missing field `priority` (content: {})", content)
            );
        }
        _ => panic!("a format error was expected"),
    }
}

#[test]
fn the_steps_of_a_clear_are_flush_cut_rewind() {
    let steps = clear_steps();
    assert_eq!(steps.len(), 3);
    assert!(matches!(steps[0], FileStep::Flush));
    assert!(matches!(steps[1], FileStep::Truncate));
    assert!(matches!(steps[2], FileStep::Rewind));
}

#[test]
fn the_steps_of_a_replacement_are_cut_rewind_write() {
    let steps = replace_steps(vec![1, 2, 3]);
    assert_eq!(steps.len(), 3);
    assert!(matches!(steps[0], FileStep::Truncate));
    assert!(matches!(steps[1], FileStep::Rewind));
    match &steps[2] {
        FileStep::Write(data) => assert_eq!(data, &vec![1u8, 2, 3]),
        _ => panic!("a write was expected"),
    }
}

#[test]
fn clearing_a_list_of_three_records_empties_list_and_file() {
    let mut list = list_of(vec![item("a", "", 1), item("b", "", 2), item("c", "", 3)]);
    let mut bytes = b"[stale content of the file]".to_vec();
    let mut position = bytes.len();
    perform(&mut bytes, &mut position, &clear_steps());
    assert!(list.clear(Ok(())).is_ok());
    assert_eq!(list.len(), 0);
    assert!(bytes.is_empty());
    assert_eq!(position, 0);
    perform(&mut bytes, &mut position, &list.save_to_file().unwrap());
    assert_eq!(bytes, b"[]".to_vec());
}

#[test]
fn clearing_twice_is_the_same_as_clearing_once() {
    let mut list = list_of(vec![item("a", "", 1), item("b", "", 2)]);
    let mut bytes = b"[{\"old\":true}]".to_vec();
    let mut position = 3;
    for _ in 0..2 {
        perform(&mut bytes, &mut position, &clear_steps());
        assert!(list.clear(Ok(())).is_ok());
        assert!(list.is_empty());
        assert!(bytes.is_empty());
        perform(&mut bytes, &mut position, &list.save_to_file().unwrap());
        assert_eq!(bytes, b"[]".to_vec());
    }
}

#[test]
fn a_clear_that_fails_on_the_file_is_an_io_error_and_keeps_the_records() {
    let mut list = list_of(vec![item("a", "", 1), item("b", "", 2)]);
    match list.clear(Err("disk full".to_string())) {
        Err(TodoError::Io(message)) => assert_eq!(message, "disk full"),
        _ => panic!("an I/O error was expected"),
    }
    assert_eq!(list.len(), 2);
}

#[test]
fn a_failure_on_the_file_becomes_an_io_error() {
    assert!(io_outcome(Ok(())).is_ok());
    match io_outcome(Err("permission denied".to_string())) {
        Err(TodoError::Io(message)) => assert_eq!(message, "permission denied"),
        _ => panic!("an I/O error was expected"),
    }
}

#[test]
fn saving_replaces_the_whole_file_by_the_json_of_the_list() {
    let list = list_of(vec![item("Buy milk", "2%", 1)]);
    let mut bytes = vec![b'x'; 500];
    let mut position = 250;
    perform(&mut bytes, &mut position, &list.save_to_file().unwrap());
    assert_eq!(
        String::from_utf8(bytes).unwrap(),
        "[{\"name\":\"Buy milk\",\"content\":\"2%\",\"priority\":1}]"
    );
}

#[test]
fn saving_and_opening_again_gives_the_same_records_in_the_same_order() {
    let list = list_of(vec![
        item("Buy milk", "2%", 1),
        item("Call \"mum\"", "on\nSunday \u{2764}", -7),
        item("", "", 0),
    ]);
    let mut bytes = b"[]".to_vec();
    let mut position = 2;
    perform(&mut bytes, &mut position, &list.save_to_file().unwrap());
    let again = TodoList::open(&String::from_utf8(bytes).unwrap()).unwrap();
    assert_eq!(again.len(), list.len());
    for index in 0..list.len() {
        assert!(again.analysis()[index] == list.analysis()[index]);
    }
}

#[test]
fn a_failure_is_rendered_with_its_kind() {
    assert_eq!(TodoError::Io("disk full".to_string()).render(), "I/O error: disk full");
    assert_eq!(TodoError::Format("bad".to_string()).render(), "format error: bad");
    assert_eq!(TodoError::Input("no tty".to_string()).render(), "input error: no tty");
    assert_eq!(TodoError::Input("no tty".to_string()).message(), "no tty");
}
