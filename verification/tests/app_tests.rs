use crock::app::{
    centered_rect, finished_message, App, AppAction, Area, ClockAppAction, Effect, FrontPane, Key,
    TaskPaneAppAction,
};
use crock::tasks::Task;

fn task(content: &str, millis: i64) -> Task {
    Task { content: content.to_string(), millis }
}

fn app_with(tasks: &[(&str, i64)]) -> App {
    App::new(tasks.iter().map(|(c, m)| task(c, *m)).collect())
}

/// Feeds the queue's own messages back, as the message loop would.
fn deliver(app: &mut App, effects: Vec<Effect>) -> Vec<Effect> {
    let mut other = Vec::new();
    let mut queue: Vec<AppAction> = Vec::new();
    for e in effects {
        match e {
            Effect::Send(a) => queue.push(a),
            e => other.push(e),
        }
    }
    while !queue.is_empty() {
        let a = queue.remove(0);
        for e in app.handle_action(a) {
            match e {
                Effect::Send(a) => queue.push(a),
                e => other.push(e),
            }
        }
    }
    other
}

#[test]
fn a_new_app_shows_the_clock_paused() {
    let app = app_with(&[("a", 1_000)]);
    assert!(app.is_running());
    assert_eq!(app.front_pane(), FrontPane::Clock);
    assert!(app.clock_state().is_paused);
    assert_eq!(app.clock_state().status_label(), " PAUSED ");
    assert!(app.clock_state().current_task.is_none());
    assert_eq!(app.task_pane_state().tasks.len(), 1);
}

#[test]
fn q_on_the_clock_quits() {
    let mut app = app_with(&[]);
    assert!(app.handle_event(Key::Char('q')).is_empty());
    assert!(!app.is_running());
}

#[test]
fn question_mark_toggles_help() {
    let mut app = app_with(&[]);
    app.handle_event(Key::Char('?'));
    assert_eq!(app.front_pane(), FrontPane::Help);
    app.handle_event(Key::Char('x'));
    assert_eq!(app.front_pane(), FrontPane::Help);
    app.handle_event(Key::Char('?'));
    assert_eq!(app.front_pane(), FrontPane::Clock);
}

#[test]
fn q_closes_help_and_question_mark_opens_it_from_the_task_list() {
    let mut app = app_with(&[]);
    app.handle_event(Key::Char('?'));
    app.handle_event(Key::Char('q'));
    assert_eq!(app.front_pane(), FrontPane::Clock);
    assert!(app.is_running());
    app.handle_event(Key::Char('e'));
    app.handle_event(Key::Char('?'));
    assert_eq!(app.front_pane(), FrontPane::Help);
}

#[test]
fn escape_twice_reaches_the_clock() {
    let mut app = app_with(&[]);
    app.handle_event(Key::Char('e'));
    app.handle_event(Key::Char('a'));
    assert_eq!(app.front_pane(), FrontPane::AddTask);
    app.handle_event(Key::Esc);
    assert_eq!(app.front_pane(), FrontPane::TaskPane);
    app.handle_event(Key::Esc);
    assert_eq!(app.front_pane(), FrontPane::Clock);
}

#[test]
fn p_toggles_pause_on_screen_and_asks_the_timer() {
    let mut app = app_with(&[]);
    let effects = app.handle_event(Key::Char('p'));
    assert!(matches!(effects.as_slice(), [Effect::TogglePause]));
    assert!(!app.clock_state().is_paused);
    assert_eq!(app.clock_state().status_label(), " RUNNING ");
    app.handle_event(Key::Char('p'));
    assert!(app.clock_state().is_paused);
}

#[test]
fn t_stops_the_task() {
    let mut app = app_with(&[]);
    assert!(matches!(app.handle_event(Key::Char('t')).as_slice(), [Effect::StopTask]));
}

#[test]
fn r_starts_the_first_task() {
    let mut app = app_with(&[("write", 1_500_000), ("rest", 300_000)]);
    assert!(app.accepts_key(Key::Char('r')));
    let effects = app.handle_event(Key::Char('r'));
    match effects.as_slice() {
        [Effect::Send(AppAction::TaskPane(TaskPaneAppAction::UpdateCurrentTask(Some(0)))), Effect::StartTask(t)] => {
            assert_eq!(t.content, "write")
        }
        _ => panic!("unexpected effects"),
    }
    let cs = app.clock_state();
    assert!(!cs.is_paused);
    assert_eq!(cs.status_label(), " RUNNING ");
    assert_eq!(cs.current_task.as_ref().unwrap().content, "write");
    assert_eq!(cs.next_task.as_ref().unwrap().content, "rest");
    let (content, duration) = cs.next_task_label().unwrap();
    assert_eq!(content, "rest");
    assert_eq!(duration, " (5min)");
}

#[test]
fn r_without_tasks_starts_nothing() {
    let mut app = app_with(&[]);
    assert!(app.handle_event(Key::Char('r')).is_empty());
}

#[test]
fn adding_a_task_through_the_dialog() {
    let mut app = app_with(&[]);
    app.handle_event(Key::Char('e'));
    app.handle_event(Key::Char('a'));
    assert!(matches!(app.handle_event(Key::Char('w')).as_slice(), [Effect::EditInput]));
    app.edit_input(" write ".to_string());
    app.handle_event(Key::Tab);
    app.edit_input("25m".to_string());
    let effects = app.handle_event(Key::Enter);
    assert_eq!(app.front_pane(), FrontPane::TaskPane);
    assert_eq!(app.task_input().content(), "");
    assert!(deliver(&mut app, effects).is_empty());
    let state = app.task_pane_state();
    assert_eq!(state.tasks.len(), 1);
    assert_eq!(state.tasks[0].content, "write");
    assert_eq!(state.tasks[0].millis, 1_500_000);
    assert_eq!(state.focused_task_idx, Some(0));
    assert_eq!(state.current_task_idx, Some(0));
    assert_eq!(app.clock_state().current_task.as_ref().unwrap().content, "write");
}

#[test]
fn an_incomplete_dialog_stays_open() {
    let mut app = app_with(&[]);
    app.handle_event(Key::Char('e'));
    app.handle_event(Key::Char('a'));
    app.edit_input("write".to_string());
    assert!(app.handle_event(Key::Enter).is_empty());
    assert_eq!(app.front_pane(), FrontPane::AddTask);
    assert_eq!(app.task_input().content(), "write");
}

#[test]
fn editing_the_focused_task() {
    let mut app = app_with(&[("a", 1_000), ("b", 2_000)]);
    app.handle_event(Key::Char('e'));
    let e = app.handle_event(Key::Char('j'));
    deliver(&mut app, e);
    app.handle_event(Key::Char('r'));
    assert_eq!(app.front_pane(), FrontPane::EditTask);
    app.edit_input("c".to_string());
    app.handle_event(Key::Tab);
    app.edit_input("3s".to_string());
    let e = app.handle_event(Key::Enter);
    deliver(&mut app, e);
    let names: Vec<String> = app.task_pane_state().tasks.iter().map(|t| t.content.clone()).collect();
    assert_eq!(names, vec!["c", "b"]);
}

#[test]
fn enter_in_the_task_list_makes_the_focused_task_current() {
    let mut app = app_with(&[("a", 1_000), ("b", 2_000)]);
    app.handle_event(Key::Char('e'));
    let e = app.handle_event(Key::Char('j'));
    deliver(&mut app, e);
    let e = app.handle_event(Key::Char('j'));
    deliver(&mut app, e);
    let e = app.handle_event(Key::Enter);
    deliver(&mut app, e);
    assert_eq!(app.task_pane_state().current_task_idx, Some(1));
    assert_eq!(app.task_pane().current_task_idx(), Some(1));
}

#[test]
fn k_moves_focus_up_and_d_deletes() {
    let mut app = app_with(&[("a", 1_000), ("b", 2_000)]);
    app.handle_event(Key::Char('e'));
    let e = app.handle_event(Key::Char('k'));
    deliver(&mut app, e);
    let e = app.handle_event(Key::Char('k'));
    deliver(&mut app, e);
    assert_eq!(app.task_pane_state().focused_task_idx, Some(1));
    let e = app.handle_event(Key::Char('d'));
    deliver(&mut app, e);
    assert_eq!(app.task_pane_state().tasks.len(), 1);
    assert_eq!(app.task_pane_state().tasks[0].content, "a");
}

#[test]
fn a_finished_task_notifies_and_moves_on() {
    let mut app = app_with(&[("write", 1_500_000), ("rest", 300_000)]);
    let e = app.handle_event(Key::Char('r'));
    deliver(&mut app, e);
    app.handle_action(AppAction::Clock(ClockAppAction::UpdateSecondsLeft(2_000)));
    assert_eq!(app.clock_state().time_label().unwrap(), "2s");
    let effects = app.handle_action(AppAction::Clock(ClockAppAction::TimerFinished(Some(task(
        "write", 1_500_000,
    )))));
    match effects.as_slice() {
        [Effect::Notify(text)] => {
            assert_eq!(text, "Task: write is finished, you've been on it for 25min")
        }
        _ => panic!("expected a notification"),
    }
    assert_eq!(app.task_pane().current_task_idx(), Some(0));
    assert!(app.clock_state().is_paused);
    let effects = app.handle_notification(true);
    deliver(&mut app, effects);
    let cs = app.clock_state();
    assert!(cs.is_paused);
    assert!(cs.millis_left.is_none());
    assert!(cs.time_label().is_none());
    assert_eq!(cs.current_task.as_ref().unwrap().content, "rest");
    assert_eq!(cs.next_task.as_ref().unwrap().content, "write");
    assert_eq!(app.task_pane_state().current_task_idx, Some(1));
}

#[test]
fn a_failed_notification_keeps_the_task() {
    let mut app = app_with(&[("write", 1_500_000), ("rest", 300_000)]);
    let e = app.handle_event(Key::Char('r'));
    deliver(&mut app, e);
    app.handle_action(AppAction::Clock(ClockAppAction::TimerFinished(Some(task("write", 1)))));
    assert!(app.handle_notification(false).is_empty());
    assert_eq!(app.task_pane().current_task_idx(), Some(0));
    assert_eq!(app.clock_state().current_task.as_ref().unwrap().content, "write");
}

#[test]
fn r_again_restarts_the_running_task() {
    let mut app = app_with(&[("write", 1_500_000), ("rest", 300_000)]);
    let e = app.handle_event(Key::Char('r'));
    deliver(&mut app, e);
    let effects = app.handle_event(Key::Char('r'));
    match effects.as_slice() {
        [Effect::StartTask(t)] => assert_eq!(t.content, "write"),
        _ => panic!("expected a restart"),
    }
}

#[test]
fn a_stopped_timer_only_pauses_the_clock() {
    let mut app = app_with(&[("write", 1_500_000)]);
    app.handle_action(AppAction::Clock(ClockAppAction::UpdateSecondsLeft(2_000)));
    let effects = app.handle_action(AppAction::Clock(ClockAppAction::TimerFinished(None)));
    assert!(effects.is_empty());
    assert!(app.clock_state().is_paused);
    assert!(app.clock_state().millis_left.is_none());
}

#[test]
fn an_interrupt_message_stops_the_task() {
    let mut app = app_with(&[]);
    let effects = app.handle_action(AppAction::TaskPane(TaskPaneAppAction::InterruptCurrentTask));
    assert!(matches!(effects.as_slice(), [Effect::StopTask]));
}

#[test]
fn finished_message_text() {
    assert_eq!(
        finished_message(&task("read", 5_400_000)),
        "Task: read is finished, you've been on it for 1h30min"
    );
}

#[test]
fn centered_rect_takes_the_middle() {
    let area = centered_rect(60, 20, Area { x: 0, y: 0, width: 100, height: 50 });
    assert_eq!(area, Area { x: 20, y: 20, width: 60, height: 10 });
    let full = centered_rect(100, 100, Area { x: 3, y: 4, width: 10, height: 10 });
    assert_eq!(full, Area { x: 3, y: 4, width: 10, height: 10 });
}
