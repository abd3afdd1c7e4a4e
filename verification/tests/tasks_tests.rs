use crock::app::TaskPaneAppAction;
use crock::tasks::{Task, TaskPane, TaskPaneState};

fn task(content: &str, millis: i64) -> Task {
    Task { content: content.to_string(), millis }
}

fn names(tasks: &[Task]) -> Vec<String> {
    tasks.iter().map(|t| t.content.clone()).collect()
}

fn pane(contents: &[&str]) -> (TaskPane, TaskPaneState) {
    TaskPane::new(contents.iter().map(|c| task(c, 60_000)).collect())
}

fn replay(state: &mut TaskPaneState, sent: Vec<TaskPaneAppAction>) {
    for action in sent {
        state.apply(action);
    }
}

fn same(pane: &TaskPane, state: &TaskPaneState) -> bool {
    names(pane.tasks()) == names(&state.tasks)
        && pane.current_task_idx() == state.current_task_idx
        && pane.focused_task_idx() == state.focused_task_idx
}

#[test]
fn a_new_pane_has_nothing_running_or_focused() {
    let (p, s) = pane(&["a", "b"]);
    assert_eq!(names(p.tasks()), vec!["a", "b"]);
    assert_eq!(p.current_task_idx(), None);
    assert_eq!(p.focused_task_idx(), None);
    assert!(same(&p, &s));
}

#[test]
fn focus_moves_and_wraps_around() {
    let (mut p, _) = pane(&["a", "b", "c"]);
    p.focus_on_next(1);
    assert_eq!(p.focused_task_idx(), Some(0));
    p.focus_on_next(1);
    assert_eq!(p.focused_task_idx(), Some(1));
    p.focus_on_next(-1);
    p.focus_on_next(-1);
    assert_eq!(p.focused_task_idx(), Some(2));
    let sent = p.focus_on_next(1);
    assert_eq!(p.focused_task_idx(), Some(0));
    assert!(matches!(sent.as_slice(), [TaskPaneAppAction::UpdateFocusedTask(Some(0))]));
}

#[test]
fn focus_back_and_forth_returns() {
    let (mut p, _) = pane(&["a", "b", "c"]);
    p.focus_on_next(1);
    p.focus_on_next(7);
    assert_eq!(p.focused_task_idx(), Some(1));
    p.focus_on_next(-7);
    assert_eq!(p.focused_task_idx(), Some(0));
}

#[test]
fn focus_in_an_empty_pane_is_cleared_silently() {
    let (mut p, _) = pane(&[]);
    let sent = p.focus_on_next(1);
    assert!(sent.is_empty());
    assert_eq!(p.focused_task_idx(), None);
}

#[test]
fn inserting_goes_after_the_focus_and_takes_it() {
    let (mut p, mut s) = pane(&["a", "b"]);
    let sent = p.insert_task(task("x", 1));
    assert_eq!(names(p.tasks()), vec!["x", "a", "b"]);
    assert_eq!(p.focused_task_idx(), Some(0));
    replay(&mut s, sent);
    assert!(same(&p, &s));
    let sent = p.insert_task(task("y", 1));
    assert_eq!(names(p.tasks()), vec!["x", "y", "a", "b"]);
    assert_eq!(p.focused_task_idx(), Some(1));
    assert!(matches!(
        sent.as_slice(),
        [TaskPaneAppAction::UpdateTasks(_), TaskPaneAppAction::UpdateFocusedTask(Some(1))]
    ));
    replay(&mut s, sent);
    assert!(same(&p, &s));
}

#[test]
fn deleting_a_task_just_inserted_restores_the_list() {
    let (mut p, _) = pane(&["a", "b", "c"]);
    p.focus_on_next(1);
    p.focus_on_next(1);
    p.insert_task(task("x", 1));
    assert_eq!(names(p.tasks()), vec!["a", "b", "x", "c"]);
    p.delete_focused_task();
    assert_eq!(names(p.tasks()), vec!["a", "b", "c"]);
    assert_eq!(p.focused_task_idx(), Some(2));
}

#[test]
fn deleting_the_last_task_moves_the_focus_back() {
    let (mut p, mut s) = pane(&["a", "b"]);
    replay(&mut s, p.focus_on_next(-1));
    assert_eq!(p.focused_task_idx(), Some(0));
    replay(&mut s, p.focus_on_next(-1));
    assert_eq!(p.focused_task_idx(), Some(1));
    let sent = p.delete_focused_task();
    assert_eq!(names(p.tasks()), vec!["a"]);
    assert_eq!(p.focused_task_idx(), Some(0));
    replay(&mut s, sent);
    assert_eq!(names(&s.tasks), vec!["a"]);
    let sent = p.delete_focused_task();
    assert!(p.tasks().is_empty());
    assert_eq!(p.focused_task_idx(), None);
    replay(&mut s, sent);
    assert!(same(&p, &s));
}

#[test]
fn deleting_the_running_task_stops_it() {
    let (mut p, mut s) = pane(&["a", "b"]);
    p.focus_on_next(1);
    replay(&mut s, p.set_focused_task_current());
    assert_eq!(p.current_task_idx(), Some(0));
    let sent = p.delete_focused_task();
    assert_eq!(p.current_task_idx(), None);
    assert!(matches!(
        sent.as_slice(),
        [
            TaskPaneAppAction::UpdateCurrentTask(None),
            TaskPaneAppAction::UpdateFocusedTask(Some(0)),
            TaskPaneAppAction::UpdateTasks(_)
        ]
    ));
    replay(&mut s, sent);
    assert!(same(&p, &s));
}

#[test]
fn deleting_without_focus_only_clears_a_missing_current() {
    let (mut p, _) = pane(&["a"]);
    let sent = p.delete_focused_task();
    assert!(matches!(sent.as_slice(), [TaskPaneAppAction::UpdateCurrentTask(None)]));
    assert_eq!(names(p.tasks()), vec!["a"]);
}

#[test]
fn setting_the_focused_task_current_announces_only_changes() {
    let (mut p, _) = pane(&["a", "b"]);
    p.focus_on_next(1);
    p.focus_on_next(1);
    let sent = p.set_focused_task_current();
    assert_eq!(p.current_task_idx(), Some(1));
    assert!(matches!(sent.as_slice(), [TaskPaneAppAction::UpdateCurrentTask(Some(1))]));
    assert!(p.set_focused_task_current().is_empty());
}

#[test]
fn replacing_the_focused_task() {
    let (mut p, mut s) = pane(&["a", "b"]);
    replay(&mut s, p.focus_on_next(1));
    replay(&mut s, p.set_focused_task_current());
    assert!(same(&p, &s));
    let sent = p.replace_focused_task(task("z", 5));
    assert_eq!(names(p.tasks()), vec!["z", "b"]);
    assert_eq!(p.tasks()[0].millis, 5);
    assert_eq!(p.current_task_idx(), None);
    replay(&mut s, sent);
    assert!(same(&p, &s));
}

#[test]
fn replacing_without_focus_does_nothing() {
    let (mut p, _) = pane(&["a"]);
    assert!(p.replace_focused_task(task("z", 5)).is_empty());
    assert_eq!(names(p.tasks()), vec!["a"]);
}

#[test]
fn finishing_cycles_through_the_tasks() {
    let (mut p, _) = pane(&["a", "b", "c"]);
    p.finish_current_task();
    assert_eq!(p.current_task_idx(), Some(0));
    p.finish_current_task();
    p.finish_current_task();
    assert_eq!(p.current_task_idx(), Some(2));
    let sent = p.finish_current_task();
    assert_eq!(p.current_task_idx(), Some(0));
    assert!(matches!(sent.as_slice(), [TaskPaneAppAction::UpdateCurrentTask(Some(0))]));
}

#[test]
fn finishing_in_an_empty_pane_clears_silently() {
    let (mut p, _) = pane(&[]);
    assert!(p.finish_current_task().is_empty());
    assert_eq!(p.current_task_idx(), None);
}

#[test]
fn the_first_task_runs_when_none_did() {
    let (mut p, _) = pane(&["a", "b"]);
    let (pair, sent) = p.get_current_and_next_tasks_to_run();
    let (current, next) = pair.unwrap();
    assert_eq!(current.content, "a");
    assert_eq!(next.content, "b");
    assert_eq!(p.current_task_idx(), Some(0));
    assert!(matches!(sent.as_slice(), [TaskPaneAppAction::UpdateCurrentTask(Some(0))]));
}

#[test]
fn the_next_task_wraps_around() {
    let (mut p, _) = pane(&["a", "b"]);
    p.finish_current_task();
    p.finish_current_task();
    let (pair, sent) = p.get_current_and_next_tasks_to_run();
    let (current, next) = pair.unwrap();
    assert_eq!(current.content, "b");
    assert_eq!(next.content, "a");
    assert!(sent.is_empty());
}

#[test]
fn a_single_task_is_its_own_next() {
    let (mut p, _) = pane(&["a"]);
    let (current, next) = p.get_current_and_next_tasks_to_run().0.unwrap();
    assert_eq!(current.content, "a");
    assert_eq!(next.content, "a");
}

#[test]
fn no_tasks_no_pair() {
    let (mut p, _) = pane(&[]);
    let (pair, sent) = p.get_current_and_next_tasks_to_run();
    assert!(pair.is_none());
    assert!(sent.is_empty());
}

#[test]
fn a_stale_running_index_is_reported() {
    let (mut p, _) = pane(&["a", "b", "c"]);
    p.finish_current_task();
    p.finish_current_task();
    p.finish_current_task();
    assert!(p.current_in_range());
    p.focus_on_next(1);
    p.delete_focused_task();
    assert_eq!(p.current_task_idx(), Some(2));
    assert!(!p.current_in_range());
}

#[test]
fn rows_show_position_description_duration_and_marks() {
    let (mut p, mut s) = TaskPane::new(vec![task("write", 1_500_000), task("rest", 5_500)]);
    replay(&mut s, p.focus_on_next(1));
    replay(&mut s, p.focus_on_next(1));
    replay(&mut s, p.finish_current_task());
    let rows = s.rows();
    assert_eq!(rows.len(), 2);
    assert_eq!(rows[0].number, " 1. ");
    assert_eq!(rows[0].content, "write");
    assert_eq!(rows[0].duration, " (25min)");
    assert!(rows[0].is_current);
    assert!(!rows[0].is_focused);
    assert_eq!(rows[1].number, " 2. ");
    assert_eq!(rows[1].duration, " (5.5s)");
    assert!(!rows[1].is_current);
    assert!(rows[1].is_focused);
}

#[test]
fn rows_number_two_digit_positions_without_padding() {
    let tasks: Vec<Task> = (0..10).map(|i| task(&format!("t{i}"), 1_000)).collect();
    let (_, s) = TaskPane::new(tasks);
    let rows = s.rows();
    assert_eq!(rows[8].number, " 9. ");
    assert_eq!(rows[9].number, "10. ");
}

#[test]
fn cloning_a_task_keeps_it() {
    let t = task("a", 7);
    let c = t.clone();
    assert_eq!(c.content, "a");
    assert_eq!(c.millis, 7);
}
