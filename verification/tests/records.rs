use todo_list::command::new_item;
use todo_list::decimal::decimal_string;
use todo_list::fingerprint::calculate_hash;
use todo_list::item::TodoItem;

fn item(name: &str, content: &str, priority: i16) -> TodoItem {
    TodoItem::new(name.to_string(), content.to_string(), priority)
}

#[test]
fn a_record_hands_back_its_fields() {
    let record = item("Buy milk", "2%", 1);
    assert_eq!(record.name(), "Buy milk");
    assert_eq!(record.content(), "2%");
    assert_eq!(record.priority(), 1);
}

#[test]
fn a_record_is_rendered_on_three_lines() {
    let record = item("Buy milk", "2%", 1);
    assert_eq!(record.render(), "Item: Buy milk\nContent: 2%\n(Priority: 1)");
}

#[test]
fn a_negative_priority_is_rendered_with_its_sign() {
    let record = item("Later", "", -12);
    assert_eq!(record.render(), "Item: Later\nContent: \n(Priority: -12)");
}

#[test]
fn records_are_equal_when_all_three_fields_are() {
    assert!(item("a", "b", 1) == item("a", "b", 1));
    assert!(item("a", "b", 1) != item("x", "b", 1));
    assert!(item("a", "b", 1) != item("a", "x", 1));
    assert!(item("a", "b", 1) != item("a", "b", 2));
}

#[test]
fn a_copy_of_a_record_equals_it() {
    let record = item("Todo", "text", 7);
    let copy = record.clone();
    assert!(copy == record);
    assert_eq!(copy.name(), "Todo");
    assert_eq!(copy.content(), "text");
    assert_eq!(copy.priority(), 7);
}

#[test]
fn decimal_notation_of_small_and_extreme_numbers() {
    assert_eq!(decimal_string(0), "0");
    assert_eq!(decimal_string(7), "7");
    assert_eq!(decimal_string(10), "10");
    assert_eq!(decimal_string(105), "105");
    assert_eq!(decimal_string(-1), "-1");
    assert_eq!(decimal_string(-90), "-90");
    assert_eq!(decimal_string(32767), "32767");
    assert_eq!(decimal_string(-32768), "-32768");
}

#[test]
fn decimal_notation_agrees_with_the_standard_library() {
    let mut value: i16 = i16::MIN;
    loop {
        assert_eq!(decimal_string(value), format!("{}", value));
        if value > i16::MAX - 97 {
            break;
        }
        value += 97;
    }
}

#[test]
fn equal_records_have_the_same_hash() {
    let one = item("Buy milk", "2%", 1);
    let other = item("Buy milk", "2%", 1);
    assert_eq!(calculate_hash(&one), calculate_hash(&other));
    assert_eq!(calculate_hash(&one), calculate_hash(&one.clone()));
}

#[test]
fn records_that_differ_in_one_field_have_different_hashes() {
    let base = calculate_hash(&item("Buy milk", "2%", 1));
    assert_ne!(base, calculate_hash(&item("Buy milk!", "2%", 1)));
    assert_ne!(base, calculate_hash(&item("Buy milk", "3%", 1)));
    assert_ne!(base, calculate_hash(&item("Buy milk", "2%", 2)));
    assert_ne!(base, calculate_hash(&item("Buy milk", "2%", -1)));
}

#[test]
fn a_record_without_name_and_priority_gets_the_defaults() {
    let record = new_item(None, "water the plants".to_string(), None);
    assert_eq!(record.name(), "Untitled");
    assert_eq!(record.content(), "water the plants");
    assert_eq!(record.priority(), 0);
}

#[test]
fn a_record_with_name_and_priority_keeps_them() {
    let record = new_item(Some("Plants".to_string()), "water".to_string(), Some(-3));
    assert_eq!(record.name(), "Plants");
    assert_eq!(record.content(), "water");
    assert_eq!(record.priority(), -3);
}
