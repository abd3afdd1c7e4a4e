//! The clock screen's state.
use crate::tasks::{duration_label, Task, TaskView};
use crate::utils::{format_time, time_text};
use vstd::prelude::*;
use vstd::string::StringExecFns;

pub mod error;
pub mod timer;

verus! {

/// What the clock screen shows: time left (milliseconds), whether the timer
/// is paused, the running task and the task after it.
#[derive(Debug)]
pub struct ClockState {
    pub millis_left: Option<i64>,
    pub is_paused: bool,
    pub current_task: Option<Task>,
    pub next_task: Option<Task>,
}

/// What the clock screen holds.
pub struct ClockStateView {
    pub millis_left: Option<i64>,
    pub is_paused: bool,
    pub current_task: Option<TaskView>,
    pub next_task: Option<TaskView>,
}

/// What an optional task holds.
pub open spec fn task_option_view(t: Option<Task>) -> Option<TaskView> {
    match t {
        Some(t) => Some(t@),
        None => None,
    }
}

impl View for ClockState {
    type V = ClockStateView;

    open spec fn view(&self) -> ClockStateView {
        ClockStateView {
            millis_left: self.millis_left,
            is_paused: self.is_paused,
            current_task: task_option_view(self.current_task),
            next_task: task_option_view(self.next_task),
        }
    }
}

impl ClockStateView {
    /// A paused clock, with no time shown and no tasks.
    pub open spec fn initial() -> ClockStateView {
        ClockStateView { millis_left: None, is_paused: true, current_task: None, next_task: None }
    }
}

impl ClockState {
    /// The status shown in the top bar.
    pub fn status_label(&self) -> (text: &'static str)
        ensures
            self.is_paused ==> text@ == " PAUSED "@,
            !self.is_paused ==> text@ == " RUNNING "@,
    {
        if self.is_paused {
            " PAUSED "
        } else {
            " RUNNING "
        }
    }

    /// The big countdown: the time left, shown while a task runs and the
    /// clock has reported a time.
    pub fn time_label(&self) -> (text: Option<String>)
        ensures
            text is Some <==> (self.current_task is Some && self.millis_left is Some),
            text matches Some(t) ==> t@ == time_text(self.millis_left->0 as int),
    {
        match (&self.current_task, self.millis_left) {
            (Some(_), Some(left)) => Some(format_time(left)),
            _ => None,
        }
    }

    /// The "next up" line: the next task's description and its duration in
    /// brackets.
    pub fn next_task_label(&self) -> (label: Option<(String, String)>)
        ensures
            label is Some <==> self.next_task is Some,
            label matches Some((content, duration)) ==> content@ == self.next_task->0.content@
                && duration@ == duration_label(self.next_task->0.millis),
    {
        match &self.next_task {
            Some(next) => {
                let mut duration = String::new();
                duration.append(" (");
                let time = format_time(next.millis);
                duration.append(time.as_str());
                duration.append(")");
                proof {
                    reveal_strlit(" (");
                    reveal_strlit(")");
                    assert(duration@ =~= duration_label(next.millis));
                }
                Some((next.content.clone(), duration))
            },
            None => None,
        }
    }
    /// A paused clock, with no time shown and no tasks.
    pub fn new() -> (s: ClockState)
        ensures
            s@ == ClockStateView::initial(),
    {
        ClockState { millis_left: None, is_paused: true, current_task: None, next_task: None }
    }
}

} // verus!
