use crock::input::{trim, TaskInput, TaskInputError, TaskInputFocus};

fn typed(content: &str, time: &str) -> TaskInput {
    let mut input = TaskInput::new();
    input.set_focused_value(content.to_string());
    input.switch_focus();
    input.set_focused_value(time.to_string());
    input
}

#[test]
fn a_complete_dialog_gives_a_trimmed_task_and_clears() {
    let mut input = typed("  write report \t", " 25m ");
    let task = input.get_task().unwrap();
    assert_eq!(task.content, "write report");
    assert_eq!(task.millis, 1_500_000);
    assert_eq!(input.content(), "");
    assert_eq!(input.time(), "");
    assert_eq!(input.focus(), TaskInputFocus::Content);
}

#[test]
fn an_empty_description_is_refused() {
    let mut input = typed("   ", "25m");
    assert!(matches!(input.get_task(), Err(TaskInputError::EmptyContent)));
    assert_eq!(input.content(), "   ");
    assert_eq!(input.time(), "25m");
    assert_eq!(input.focus(), TaskInputFocus::Time);
}

#[test]
fn an_empty_duration_is_refused() {
    let mut input = typed("read", "\u{3000}");
    assert!(matches!(input.get_task(), Err(TaskInputError::EmptyTime)));
    assert_eq!(input.content(), "read");
}

#[test]
fn the_description_is_checked_first() {
    let mut input = typed("", "");
    assert!(matches!(input.get_task(), Err(TaskInputError::EmptyContent)));
}

#[test]
fn a_duration_that_is_not_a_time_reads_as_zero() {
    let mut input = typed("nap", "soon");
    let task = input.get_task().unwrap();
    assert_eq!(task.millis, 0);
}

#[test]
fn switching_focus_twice_changes_nothing() {
    let mut input = TaskInput::new();
    assert_eq!(input.focus(), TaskInputFocus::Content);
    input.switch_focus();
    assert_eq!(input.focus(), TaskInputFocus::Time);
    input.switch_focus();
    assert_eq!(input.focus(), TaskInputFocus::Content);
}

#[test]
fn edits_go_to_the_focused_field() {
    let mut input = TaskInput::new();
    input.set_focused_value("a".to_string());
    assert_eq!(input.focused_value(), "a");
    input.switch_focus();
    input.set_focused_value("5s".to_string());
    assert_eq!(input.content(), "a");
    assert_eq!(input.time(), "5s");
}

#[test]
fn trim_removes_unicode_white_space_at_both_ends_only() {
    assert_eq!(trim("\u{a0} a b \u{2003}\n"), "a b");
    assert_eq!(trim(" \t "), "");
    assert_eq!(trim("x"), "x");
}

#[test]
fn error_messages() {
    assert_eq!(TaskInputError::EmptyContent.message(), "empty content");
    assert_eq!(TaskInputError::EmptyTime.message(), "empty time");
    let parse_error = "x".parse::<f64>().unwrap_err();
    assert_eq!(TaskInputError::InvalidTime(parse_error).message(), "invalid time");
}
