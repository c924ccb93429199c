use todo_list::command::{confirms, exit_code, follow_up, follow_up_for, Ending, FollowUp};
use todo_list::error::TodoError;
use todo_list::path::{choose_fix, default_path, fix, PathFix};

#[test]
fn the_letter_y_confirms() {
    assert!(confirms("y"));
    assert!(confirms("Y"));
    assert!(confirms("  y \n"));
    assert!(confirms("\tY\r\n"));
}

#[test]
fn anything_else_does_not_confirm() {
    assert!(!confirms(""));
    assert!(!confirms("\n"));
    assert!(!confirms("n"));
    assert!(!confirms("yes"));
    assert!(!confirms("y y"));
    assert!(!confirms("N"));
}

#[test]
fn one_shows_two_deletes_the_rest_cancels() {
    assert_eq!(follow_up_for(Some(1)), FollowUp::Show);
    assert_eq!(follow_up_for(Some(2)), FollowUp::Delete);
    assert_eq!(follow_up_for(Some(0)), FollowUp::Cancel);
    assert_eq!(follow_up_for(Some(3)), FollowUp::Cancel);
    assert_eq!(follow_up_for(Some(u64::MAX)), FollowUp::Cancel);
    assert_eq!(follow_up_for(None), FollowUp::Cancel);
}

#[test]
fn an_answer_is_read_as_a_number() {
    assert_eq!(follow_up("1"), FollowUp::Show);
    assert_eq!(follow_up(" 1\n"), FollowUp::Show);
    assert_eq!(follow_up("+1"), FollowUp::Show);
    assert_eq!(follow_up("001"), FollowUp::Show);
    assert_eq!(follow_up("2\r\n"), FollowUp::Delete);
    assert_eq!(follow_up("3"), FollowUp::Cancel);
    assert_eq!(follow_up(""), FollowUp::Cancel);
    assert_eq!(follow_up("one"), FollowUp::Cancel);
    assert_eq!(follow_up("1 2"), FollowUp::Cancel);
    assert_eq!(follow_up("-1"), FollowUp::Cancel);
    assert_eq!(follow_up("1.0"), FollowUp::Cancel);
}

#[test]
fn a_command_that_was_done_or_called_off_ends_with_zero() {
    assert_eq!(exit_code(&Ending::Done), 0);
    assert_eq!(exit_code(&Ending::Cancelled), 0);
}

#[test]
fn a_command_that_failed_or_found_nothing_ends_with_one() {
    assert_eq!(exit_code(&Ending::NoMatch), 1);
    assert_eq!(exit_code(&Ending::Failed(TodoError::Io("gone".to_string()))), 1);
    assert_eq!(exit_code(&Ending::Failed(TodoError::Format("bad".to_string()))), 1);
    assert_eq!(exit_code(&Ending::Failed(TodoError::Input("no tty".to_string()))), 1);
}

#[test]
fn a_directory_stands_for_the_file_in_it() {
    assert_eq!(choose_fix(true, None), PathFix::AppendFileName);
    assert_eq!(choose_fix(true, Some("todo")), PathFix::AppendFileName);
    assert_eq!(fix("/tmp/lists".to_string(), true), Some("/tmp/lists/todo.todo".to_string()));
    assert_eq!(fix("lists.todo".to_string(), true), Some("lists.todo/todo.todo".to_string()));
}

#[test]
fn a_file_with_the_extension_is_taken_as_it_is() {
    assert_eq!(choose_fix(false, Some("todo")), PathFix::Keep);
    assert_eq!(fix("/tmp/my.todo".to_string(), false), Some("/tmp/my.todo".to_string()));
    assert_eq!(fix("a.b.todo".to_string(), false), Some("a.b.todo".to_string()));
}

#[test]
fn a_file_without_the_extension_gets_it() {
    assert_eq!(choose_fix(false, None), PathFix::SetExtension);
    assert_eq!(choose_fix(false, Some("txt")), PathFix::SetExtension);
    assert_eq!(choose_fix(false, Some("TODO")), PathFix::SetExtension);
    assert_eq!(fix("/tmp/my".to_string(), false), Some("/tmp/my.todo".to_string()));
    assert_eq!(fix("/tmp/my.txt".to_string(), false), Some("/tmp/my.todo".to_string()));
    assert_eq!(fix("notes.tar.gz".to_string(), false), Some("notes.tar.todo".to_string()));
    assert_eq!(fix(".todo".to_string(), false), Some(".todo.todo".to_string()));
}

#[test]
fn the_default_file_lies_in_the_data_directory() {
    assert_eq!(
        default_path("/home/user/.local/share"),
        Some("/home/user/.local/share/todo.todo".to_string())
    );
}
