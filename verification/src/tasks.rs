//! The task queue: which tasks there are, which one runs, which one has focus.
//!
//! `TaskPane` holds the queue itself.  Each operation returns the messages it
//! announces (in the order it announces them); `TaskPaneState` is the copy of
//! the queue that the screen draws, and it is kept up to date only by those
//! messages.
use crate::app::{PaneMessage, TaskPaneAppAction};
use crate::utils::{decimal, format_time, push_decimal, time_text};
use vstd::prelude::*;

verus! {

/// A task: what to work on, and for how long (in milliseconds).
#[derive(Debug)]
pub struct Task {
    pub content: String,
    pub millis: i64,
}

/// What a task holds.
pub struct TaskView {
    pub content: Seq<char>,
    pub millis: i64,
}

impl View for Task {
    type V = TaskView;

    open spec fn view(&self) -> TaskView {
        TaskView { content: self.content@, millis: self.millis }
    }
}

/// The tasks of a list, task by task.
pub open spec fn task_views(tasks: Seq<Task>) -> Seq<TaskView> {
    tasks.map_values(|t: Task| t@)
}

/// What a pair of tasks holds.
pub open spec fn pair_view(pair: Option<(Task, Task)>) -> Option<(TaskView, TaskView)> {
    match pair {
        Some((a, b)) => Some((a@, b@)),
        None => None,
    }
}

impl Clone for Task {
    fn clone(&self) -> (res: Self)
        ensures
            res == *self,
    {
        Task { content: self.content.clone(), millis: self.millis }
    }
}

/// The tasks, the index of the running task and the index of the focused task.
pub struct PaneModel {
    pub tasks: Seq<TaskView>,
    pub current: Option<usize>,
    pub focused: Option<usize>,
}

impl PaneModel {
    /// The focused index, when there is one, names a task.
    pub open spec fn wf(self) -> bool {
        self.focused matches Some(f) ==> f < self.tasks.len()
    }

    /// The running index, when there is one, names a task, or there are no
    /// tasks at all.
    pub open spec fn current_in_range(self) -> bool {
        self.tasks.len() > 0 ==> (self.current matches Some(c) ==> c < self.tasks.len())
    }

    /// What a copy of the queue becomes when it receives `m`.
    pub open spec fn apply(self, m: PaneMessage) -> PaneModel {
        match m {
            PaneMessage::UpdateTasks(tasks) => PaneModel { tasks, ..self },
            PaneMessage::UpdateCurrentTask(c) => PaneModel { current: c, ..self },
            PaneMessage::UpdateFocusedTask(f) => PaneModel { focused: f, ..self },
            PaneMessage::InterruptCurrentTask => self,
        }
    }

    /// What a copy of the queue becomes when it receives `ms`, in order.
    pub open spec fn apply_all(self, ms: Seq<PaneMessage>) -> PaneModel
        decreases ms.len(),
    {
        if ms.len() == 0 {
            self
        } else {
            self.apply(ms[0]).apply_all(ms.drop_first())
        }
    }

    /// Makes the focused task the running one, announcing the change when
    /// there is one.
    pub open spec fn set_focused_task_current(self) -> (PaneModel, Seq<PaneMessage>) {
        if self.current != self.focused {
            (
                PaneModel { current: self.focused, ..self },
                seq![PaneMessage::UpdateCurrentTask(self.focused)],
            )
        } else {
            (self, seq![])
        }
    }

    /// Moves the running index to the next task, wrapping around; with no
    /// tasks, clears it without a message.
    pub open spec fn finish_current_task(self) -> (PaneModel, Seq<PaneMessage>) {
        if self.tasks.len() == 0 {
            (PaneModel { current: None, ..self }, seq![])
        } else {
            let next: usize = match self.current {
                Some(i) => ((i + 1) % (self.tasks.len() as int)) as usize,
                None => 0,
            };
            (
                PaneModel { current: Some(next), ..self },
                seq![PaneMessage::UpdateCurrentTask(Some(next))],
            )
        }
    }

    /// Replaces the focused task by `task`; when it was the running task, no
    /// task runs any more.
    pub open spec fn replace_focused_task(self, task: TaskView) -> (PaneModel, Seq<PaneMessage>) {
        match self.focused {
            Some(f) => {
                let tasks = self.tasks.update(f as int, task);
                if self.current == Some(f) {
                    (
                        PaneModel { tasks, current: None, ..self },
                        seq![
                            PaneMessage::UpdateCurrentTask(None),
                            PaneMessage::UpdateTasks(tasks),
                        ],
                    )
                } else {
                    (PaneModel { tasks, ..self }, seq![PaneMessage::UpdateTasks(tasks)])
                }
            },
            None => (self, seq![]),
        }
    }

    /// Where `insert_task` puts a new task: after the focused one, or first.
    pub open spec fn insert_index(self) -> usize {
        match self.focused {
            Some(f) => (f + 1) as usize,
            None => 0,
        }
    }

    /// Inserts `task` after the focused task (or first) and focuses it.
    pub open spec fn insert_task(self, task: TaskView) -> (PaneModel, Seq<PaneMessage>) {
        let i = self.insert_index();
        let tasks = self.tasks.insert(i as int, task);
        (
            PaneModel { tasks, focused: Some(i), ..self },
            seq![PaneMessage::UpdateTasks(tasks), PaneMessage::UpdateFocusedTask(Some(i))],
        )
    }

    /// Moves the focus `offset` places, wrapping around the queue; focuses the
    /// first task when none had focus; with no tasks, clears the focus.
    pub open spec fn focus_on_next(self, offset: isize) -> (PaneModel, Seq<PaneMessage>) {
        if self.tasks.len() == 0 {
            (PaneModel { focused: None, ..self }, seq![])
        } else {
            let next: usize = match self.focused {
                Some(i) => ((i + offset) % (self.tasks.len() as int)) as usize,
                None => 0,
            };
            (
                PaneModel { focused: Some(next), ..self },
                seq![PaneMessage::UpdateFocusedTask(Some(next))],
            )
        }
    }

    /// The focus after deleting the focused task `f`: the same place, or the
    /// new last task, or none when the queue became empty.
    pub open spec fn focus_after_delete(self, f: usize) -> Option<usize> {
        if self.tasks.len() <= 1 {
            None
        } else if f < self.tasks.len() - 1 {
            Some(f)
        } else {
            Some((self.tasks.len() - 2) as usize)
        }
    }

    /// Deletes the focused task.  When the running index equals the focused
    /// one (both absent included), it is cleared first.
    pub open spec fn delete_focused_task(self) -> (PaneModel, Seq<PaneMessage>) {
        let (cleared, first) = if self.current == self.focused {
            (PaneModel { current: None, ..self }, seq![PaneMessage::UpdateCurrentTask(None)])
        } else {
            (self, Seq::<PaneMessage>::empty())
        };
        match self.focused {
            Some(f) => {
                let tasks = self.tasks.remove(f as int);
                let focus = self.focus_after_delete(f);
                (
                    PaneModel { tasks, focused: focus, ..cleared },
                    first + seq![
                        PaneMessage::UpdateFocusedTask(focus),
                        PaneMessage::UpdateTasks(tasks),
                    ],
                )
            },
            None => (cleared, first),
        }
    }

    /// The running index once a task is to run: the first task when none ran.
    pub open spec fn run_index(self) -> usize {
        match self.current {
            Some(c) => c,
            None => 0,
        }
    }

    /// The running task and the one after it (wrapping around), making the
    /// first task the running one when none was; nothing when there are no
    /// tasks.
    pub open spec fn current_and_next(self) -> (PaneModel, Option<(TaskView, TaskView)>, Seq<PaneMessage>) {
        if self.tasks.len() == 0 {
            (self, None, seq![])
        } else {
            let i = self.run_index();
            let next = (i + 1) % (self.tasks.len() as int);
            let pair = Some((self.tasks[i as int], self.tasks[next]));
            if self.current is None {
                (
                    PaneModel { current: Some(0), ..self },
                    pair,
                    seq![PaneMessage::UpdateCurrentTask(Some(0))],
                )
            } else {
                (self, pair, seq![])
            }
        }
    }
}

/// The copy of the queue that the screen draws.
#[derive(Debug)]
pub struct TaskPaneState {
    pub tasks: Vec<Task>,
    pub current_task_idx: Option<usize>,
    pub focused_task_idx: Option<usize>,
}

impl View for TaskPaneState {
    type V = PaneModel;

    open spec fn view(&self) -> PaneModel {
        PaneModel {
            tasks: task_views(self.tasks@),
            current: self.current_task_idx,
            focused: self.focused_task_idx,
        }
    }
}

impl TaskPaneState {
    /// Takes in one message from the queue.
    pub fn apply(&mut self, action: TaskPaneAppAction)
        ensures
            final(self)@ == old(self)@.apply(action@),
    {
        match action {
            TaskPaneAppAction::UpdateTasks(tasks) => self.tasks = tasks,
            TaskPaneAppAction::UpdateCurrentTask(c) => self.current_task_idx = c,
            TaskPaneAppAction::UpdateFocusedTask(f) => self.focused_task_idx = f,
            TaskPaneAppAction::InterruptCurrentTask => {},
        }
    }
}

/// One line of the task list as the screen shows it: the position
/// (`" 1. "`), the description, the duration (`" (25min)"`), and whether the
/// task runs and whether it has focus.
#[derive(Debug)]
pub struct TaskRow {
    pub number: String,
    pub content: String,
    pub duration: String,
    pub is_current: bool,
    pub is_focused: bool,
}

/// The position `n` right-aligned in two columns, then `". "`.
pub open spec fn number_label(n: nat) -> Seq<char> {
    (if n < 10 {
        seq![' '] + decimal(n)
    } else {
        decimal(n)
    }) + seq!['.', ' ']
}

/// A duration in brackets after a space.
pub open spec fn duration_label(millis: i64) -> Seq<char> {
    seq![' ', '('] + time_text(millis as int) + seq![')']
}

/// `row` shows task `i` of `state`.
pub open spec fn shows_row(state: PaneModel, i: int, row: TaskRow) -> bool {
    &&& row.number@ == number_label((i + 1) as nat)
    &&& row.content@ == state.tasks[i].content
    &&& row.duration@ == duration_label(state.tasks[i].millis)
    &&& row.is_current == (state.current == Some(i as usize))
    &&& row.is_focused == (state.focused == Some(i as usize))
}

impl TaskPaneState {
    /// The lines of the task list, one per task, in order.
    pub fn rows(&self) -> (rows: Vec<TaskRow>)
        ensures
            rows@.len() == self@.tasks.len(),
            forall|i: int| 0 <= i < rows@.len() ==> shows_row(self@, i, #[trigger] rows@[i]),
    {
        let mut rows: Vec<TaskRow> = Vec::new();
        let mut i: usize = 0;
        while i < self.tasks.len()
            invariant
                i <= self.tasks@.len(),
                rows@.len() == i,
                forall|k: int| 0 <= k < i ==> shows_row(self@, k, #[trigger] rows@[k]),
            decreases self.tasks.len() - i,
        {
            let task = &self.tasks[i];
            let mut number: Vec<char> = Vec::new();
            if i + 1 < 10 {
                number.push(' ');
            }
            push_decimal(&mut number, (i + 1) as u64);
            number.push('.');
            number.push(' ');
            let mut duration: Vec<char> = Vec::new();
            duration.push(' ');
            duration.push('(');
            let time = crate::text::chars_of(format_time(task.millis).as_str());
            let mut k: usize = 0;
            while k < time.len()
                invariant
                    k <= time.len(),
                    duration@ == seq![' ', '('] + time@.take(k as int),
                decreases time.len() - k,
            {
                duration.push(time[k]);
                proof {
                    assert(time@.take(k as int).push(time@[k as int]) =~= time@.take(k + 1));
                }
                k += 1;
            }
            duration.push(')');
            let row = TaskRow {
                number: crate::text::string_of(&number),
                content: task.content.clone(),
                duration: crate::text::string_of(&duration),
                is_current: self.current_task_idx == Some(i),
                is_focused: self.focused_task_idx == Some(i),
            };
            proof {
                assert(time@.take(time@.len() as int) =~= time@);
                assert(row.number@ =~= number_label((i + 1) as nat));
                assert(row.duration@ =~= duration_label(self.tasks@[i as int].millis));
                assert(self@.tasks[i as int] == self.tasks@[i as int]@);
            }
            rows.push(row);
            i += 1;
        }
        rows
    }
}

/// The task queue.
#[derive(Debug)]
pub struct TaskPane {
    tasks: Vec<Task>,
    current_task_idx: Option<usize>,
    focused_task_idx: Option<usize>,
}

impl View for TaskPane {
    type V = PaneModel;

    closed spec fn view(&self) -> PaneModel {
        PaneModel {
            tasks: task_views(self.tasks@),
            current: self.current_task_idx,
            focused: self.focused_task_idx,
        }
    }
}

/// A copy of `tasks`, task for task.
pub fn clone_tasks(tasks: &Vec<Task>) -> (res: Vec<Task>)
    ensures
        res@ == tasks@,
{
    let mut res: Vec<Task> = Vec::new();
    let mut i: usize = 0;
    while i < tasks.len()
        invariant
            i <= tasks.len(),
            res@ == tasks@.take(i as int),
        decreases tasks.len() - i,
    {
        res.push(tasks[i].clone());
        proof {
            assert(tasks@.take(i as int).push(tasks@[i as int]) =~= tasks@.take(i + 1));
        }
        i += 1;
    }
    proof {
        assert(tasks@.take(tasks.len() as int) =~= tasks@);
    }
    res
}

impl TaskPane {
    /// A queue of `tasks`, nothing running or focused, and its screen copy.
    pub fn new(tasks: Vec<Task>) -> (res: (TaskPane, TaskPaneState))
        ensures
            res.0@ == (PaneModel { tasks: task_views(tasks@), current: None, focused: None }),
            res.1@ == res.0@,
            res.0@.wf(),
    {
        (
            TaskPane { tasks: clone_tasks(&tasks), current_task_idx: None, focused_task_idx: None },
            TaskPaneState { tasks, current_task_idx: None, focused_task_idx: None },
        )
    }

    pub fn tasks(&self) -> (res: &Vec<Task>)
        ensures
            task_views(res@) == self@.tasks,
    {
        &self.tasks
    }

    pub fn current_task_idx(&self) -> (res: Option<usize>)
        ensures
            res == self@.current,
    {
        self.current_task_idx
    }

    pub fn focused_task_idx(&self) -> (res: Option<usize>)
        ensures
            res == self@.focused,
    {
        self.focused_task_idx
    }

    /// Whether the running index names a task (or there are no tasks), which
    /// `get_current_and_next_tasks_to_run` needs.
    pub fn current_in_range(&self) -> (b: bool)
        ensures
            b == self@.current_in_range(),
    {
        match self.current_task_idx {
            Some(c) => self.tasks.len() == 0 || c < self.tasks.len(),
            None => true,
        }
    }

    pub fn set_focused_task_current(&mut self) -> (sent: Vec<TaskPaneAppAction>)
        requires
            old(self)@.wf(),
        ensures
            (final(self)@, messages(sent@)) == old(self)@.set_focused_task_current(),
            final(self)@.wf(),
    {
        let mut sent = Vec::new();
        if self.current_task_idx != self.focused_task_idx {
            self.current_task_idx = self.focused_task_idx;
            sent.push(TaskPaneAppAction::UpdateCurrentTask(self.current_task_idx));
        }
        proof {
            assert(messages(sent@) =~= old(self)@.set_focused_task_current().1);
        }
        sent
    }

    pub fn finish_current_task(&mut self) -> (sent: Vec<TaskPaneAppAction>)
        requires
            old(self)@.wf(),
            old(self)@.current matches Some(c) ==> c < usize::MAX,
        ensures
            (final(self)@, messages(sent@)) == old(self)@.finish_current_task(),
            final(self)@.wf(),
            final(self)@.current_in_range(),
    {
        let mut sent = Vec::new();
        if self.tasks.len() == 0 {
            self.current_task_idx = None;
        } else {
            let next_idx = match self.current_task_idx {
                Some(idx) => (idx + 1) % self.tasks.len(),
                None => 0,
            };
            self.current_task_idx = Some(next_idx);
            sent.push(TaskPaneAppAction::UpdateCurrentTask(self.current_task_idx));
        }
        proof {
            assert(messages(sent@) =~= old(self)@.finish_current_task().1);
        }
        sent
    }

    pub fn replace_focused_task(&mut self, task: Task) -> (sent: Vec<TaskPaneAppAction>)
        requires
            old(self)@.wf(),
        ensures
            (final(self)@, messages(sent@)) == old(self)@.replace_focused_task(task@),
            final(self)@.wf(),
    {
        let mut sent = Vec::new();
        if let Some(focused_idx) = self.focused_task_idx {
            if self.current_task_idx == Some(focused_idx) {
                self.current_task_idx = None;
                sent.push(TaskPaneAppAction::UpdateCurrentTask(None));
            }
            let ghost tv = task@;
            self.tasks.set(focused_idx, task);
            proof {
                assert(task_views(self.tasks@) =~= task_views(old(self).tasks@).update(
                    focused_idx as int,
                    tv,
                ));
            }
            sent.push(TaskPaneAppAction::UpdateTasks(clone_tasks(&self.tasks)));
        }
        proof {
            assert(messages(sent@) =~= old(self)@.replace_focused_task(task@).1);
        }
        sent
    }

    pub fn insert_task(&mut self, task: Task) -> (sent: Vec<TaskPaneAppAction>)
        requires
            old(self)@.wf(),
        ensures
            (final(self)@, messages(sent@)) == old(self)@.insert_task(task@),
            final(self)@.wf(),
    {
        let n = self.tasks.len();
        let insert_idx = match self.focused_task_idx {
            Some(idx) => {
                assert(idx < n);
                idx + 1
            },
            None => 0,
        };
        let ghost tv = task@;
        self.tasks.insert(insert_idx, task);
        proof {
            assert(task_views(self.tasks@) =~= task_views(old(self).tasks@).insert(
                insert_idx as int,
                tv,
            ));
        }
        self.focused_task_idx = Some(insert_idx);
        let mut sent = Vec::new();
        sent.push(TaskPaneAppAction::UpdateTasks(clone_tasks(&self.tasks)));
        sent.push(TaskPaneAppAction::UpdateFocusedTask(self.focused_task_idx));
        proof {
            assert(messages(sent@) =~= old(self)@.insert_task(task@).1);
        }
        sent
    }

    pub fn focus_on_next(&mut self, offset: isize) -> (sent: Vec<TaskPaneAppAction>)
        requires
            old(self)@.wf(),
            old(self)@.tasks.len() <= isize::MAX,
            old(self)@.focused matches Some(i) ==> isize::MIN <= i + offset <= isize::MAX,
        ensures
            (final(self)@, messages(sent@)) == old(self)@.focus_on_next(offset),
            final(self)@.wf(),
    {
        let mut sent = Vec::new();
        let n = self.tasks.len();
        if n == 0 {
            self.focused_task_idx = None;
        } else {
            let next_idx = match self.focused_task_idx {
                Some(idx) => wrap_index(idx, offset, n),
                None => 0,
            };
            self.focused_task_idx = Some(next_idx);
            sent.push(TaskPaneAppAction::UpdateFocusedTask(self.focused_task_idx));
        }
        proof {
            assert(messages(sent@) =~= old(self)@.focus_on_next(offset).1);
        }
        sent
    }

    pub fn delete_focused_task(&mut self) -> (sent: Vec<TaskPaneAppAction>)
        requires
            old(self)@.wf(),
        ensures
            (final(self)@, messages(sent@)) == old(self)@.delete_focused_task(),
            final(self)@.wf(),
    {
        let mut sent = Vec::new();
        if self.current_task_idx == self.focused_task_idx {
            self.current_task_idx = None;
            sent.push(TaskPaneAppAction::UpdateCurrentTask(None));
        }
        if let Some(focused_idx) = self.focused_task_idx {
            self.tasks.remove(focused_idx);
            proof {
                assert(task_views(self.tasks@) =~= task_views(old(self).tasks@).remove(
                    focused_idx as int,
                ));
            }
            let new_focused_idx = if self.tasks.len() == 0 {
                None
            } else if focused_idx < self.tasks.len() - 1 {
                Some(focused_idx)
            } else {
                Some(self.tasks.len() - 1)
            };
            self.focused_task_idx = new_focused_idx;
            sent.push(TaskPaneAppAction::UpdateFocusedTask(new_focused_idx));
            sent.push(TaskPaneAppAction::UpdateTasks(clone_tasks(&self.tasks)));
        }
        proof {
            assert(messages(sent@) =~= old(self)@.delete_focused_task().1);
        }
        sent
    }

    pub fn get_current_and_next_tasks_to_run(&mut self) -> (res: (
        Option<(Task, Task)>,
        Vec<TaskPaneAppAction>,
    ))
        requires
            old(self)@.wf(),
            old(self)@.current_in_range(),
        ensures
            (final(self)@, pair_view(res.0), messages(res.1@)) == old(self)@.current_and_next(),
            final(self)@.wf(),
            final(self)@.current_in_range(),
    {
        let mut sent = Vec::new();
        let n = self.tasks.len();
        if n == 0 {
            proof {
                assert(messages(sent@) =~= old(self)@.current_and_next().2);
            }
            (None, sent)
        } else {
            if self.current_task_idx.is_none() {
                self.current_task_idx = Some(0);
                sent.push(TaskPaneAppAction::UpdateCurrentTask(self.current_task_idx));
            }
            let idx = match self.current_task_idx {
                Some(i) => i,
                None => 0,
            };
            let next_idx = (idx + 1) % n;
            let pair = (self.tasks[idx].clone(), self.tasks[next_idx].clone());
            proof {
                assert(messages(sent@) =~= old(self)@.current_and_next().2);
            }
            (Some(pair), sent)
        }
    }
}

/// What a list of sent actions says, message by message.
pub open spec fn messages(sent: Seq<TaskPaneAppAction>) -> Seq<PaneMessage> {
    sent.map_values(|a: TaskPaneAppAction| a@)
}

/// `(i + offset)` wrapped into `0..n`.
fn wrap_index(i: usize, offset: isize, n: usize) -> (r: usize)
    requires
        i < n,
        n <= isize::MAX,
        isize::MIN <= i + offset <= isize::MAX,
    ensures
        r == (i + offset) % (n as int),
        r < n,
{
    if offset >= 0 {
        let o = (offset as usize) % n;
        let r = (i + o) % n;
        proof {
            assert((i + offset) % (n as int) == (i + o) % (n as int)) by {
                vstd::arithmetic::div_mod::lemma_add_mod_noop_right(i as int, offset as int, n as int);
                vstd::arithmetic::div_mod::lemma_add_mod_noop_right(i as int, o as int, n as int);
            }
        }
        r
    } else {
        let magnitude: usize = ((-(offset + 1)) as usize) + 1;
        let o = magnitude % n;
        let r = (i + (n - o)) % n;
        proof {
            let ni = n as int;
            assert((i + offset) % ni == (i + (ni - o)) % ni) by {
                assert(offset == -(magnitude as int));
                vstd::arithmetic::div_mod::lemma_fundamental_div_mod(magnitude as int, ni);
                let q = (magnitude as int) / ni;
                assert(i + offset == ni * (-(q + 1)) + (i + (ni - o))) by (nonlinear_arith)
                    requires
                        magnitude == ni * q + o,
                        offset == -(magnitude as int),
                ;
                vstd::arithmetic::div_mod::lemma_mod_multiples_vanish(-(q + 1), i + (ni - o), ni);
            }
        }
        r
    }
}

// ---------------------------------------------------------------------------
// Laws of the queue.
// ---------------------------------------------------------------------------

proof fn lemma_apply_two(m: PaneModel, a: PaneMessage, b: PaneMessage)
    ensures
        m.apply_all(seq![a]) == m.apply(a),
        m.apply_all(seq![a, b]) == m.apply(a).apply(b),
{
    assert(seq![a].drop_first() =~= Seq::<PaneMessage>::empty());
    assert(m.apply(a).apply_all(Seq::<PaneMessage>::empty()) == m.apply(a));
    assert(seq![a, b].drop_first() =~= seq![b]);
    assert(seq![b].drop_first() =~= Seq::<PaneMessage>::empty());
    assert(m.apply(a).apply_all(seq![b]) == m.apply(a).apply(b).apply_all(Seq::<PaneMessage>::empty()));
}

proof fn lemma_apply_three(m: PaneModel, a: PaneMessage, b: PaneMessage, c: PaneMessage)
    ensures
        m.apply_all(seq![a, b, c]) == m.apply(a).apply(b).apply(c),
{
    assert(seq![a, b, c].drop_first() =~= seq![b, c]);
    lemma_apply_two(m.apply(a), b, c);
}

/// Taking in two lists of messages one after the other is taking in both.
pub proof fn lemma_apply_all_append(m: PaneModel, a: Seq<PaneMessage>, b: Seq<PaneMessage>)
    ensures
        m.apply_all(a + b) == m.apply_all(a).apply_all(b),
    decreases a.len(),
{
    if a.len() == 0 {
        assert(a + b =~= b);
    } else {
        assert((a + b).drop_first() =~= a.drop_first() + b);
        lemma_apply_all_append(m.apply(a[0]), a.drop_first(), b);
    }
}

/// The screen copy stays true: a copy equal to the queue before an operation,
/// once it has received the messages the operation sent, equals the queue
/// after it.  The one operation that changes the queue without saying so is
/// `finish_current_task` on an empty queue that still has a running index,
/// which is left out.
pub proof fn lemma_messages_keep_copy_true(pane: PaneModel, task: TaskView, offset: isize)
    requires
        pane.wf(),
    ensures
        pane.apply_all(pane.set_focused_task_current().1) == pane.set_focused_task_current().0,
        !(pane.tasks.len() == 0 && pane.current is Some) ==> pane.apply_all(
            pane.finish_current_task().1,
        ) == pane.finish_current_task().0,
        pane.apply_all(pane.replace_focused_task(task).1) == pane.replace_focused_task(task).0,
        pane.apply_all(pane.insert_task(task).1) == pane.insert_task(task).0,
        pane.apply_all(pane.focus_on_next(offset).1) == pane.focus_on_next(offset).0,
        pane.apply_all(pane.delete_focused_task().1) == pane.delete_focused_task().0,
        pane.current_in_range() ==> pane.apply_all(pane.current_and_next().2)
            == pane.current_and_next().0,
{
    let e = Seq::<PaneMessage>::empty();
    assert(pane.apply_all(e) == pane);
    // set_focused_task_current
    lemma_apply_two(pane, PaneMessage::UpdateCurrentTask(pane.focused), PaneMessage::InterruptCurrentTask);
    if pane.current == pane.focused {
        assert(pane.set_focused_task_current().1 =~= e);
    }
    // finish_current_task
    if pane.tasks.len() > 0 {
        let r = pane.finish_current_task();
        lemma_apply_two(pane, r.1[0], PaneMessage::InterruptCurrentTask);
        assert(r.1 =~= seq![r.1[0]]);
    } else if pane.current is None {
        assert(pane.finish_current_task().1 =~= e);
        assert(pane.finish_current_task().0 =~= pane);
    }
    // replace_focused_task
    if let Some(f) = pane.focused {
        let tasks = pane.tasks.update(f as int, task);
        lemma_apply_two(pane, PaneMessage::UpdateCurrentTask(None), PaneMessage::UpdateTasks(tasks));
        lemma_apply_two(pane, PaneMessage::UpdateTasks(tasks), PaneMessage::InterruptCurrentTask);
    } else {
        assert(pane.replace_focused_task(task).1 =~= e);
    }
    // insert_task
    {
        let i = pane.insert_index();
        let tasks = pane.tasks.insert(i as int, task);
        lemma_apply_two(pane, PaneMessage::UpdateTasks(tasks), PaneMessage::UpdateFocusedTask(Some(i)));
    }
    // focus_on_next
    if pane.tasks.len() > 0 {
        let r = pane.focus_on_next(offset);
        lemma_apply_two(pane, r.1[0], PaneMessage::InterruptCurrentTask);
        assert(r.1 =~= seq![r.1[0]]);
    } else {
        assert(pane.focus_on_next(offset).1 =~= e);
        assert(pane.focus_on_next(offset).0 =~= pane);
    }
    // delete_focused_task
    {
        let r = pane.delete_focused_task();
        if let Some(f) = pane.focused {
            let tasks = pane.tasks.remove(f as int);
            let focus = pane.focus_after_delete(f);
            if pane.current == pane.focused {
                assert(r.1 =~= seq![
                    PaneMessage::UpdateCurrentTask(None),
                    PaneMessage::UpdateFocusedTask(focus),
                    PaneMessage::UpdateTasks(tasks),
                ]);
                lemma_apply_three(
                    pane,
                    PaneMessage::UpdateCurrentTask(None),
                    PaneMessage::UpdateFocusedTask(focus),
                    PaneMessage::UpdateTasks(tasks),
                );
            } else {
                assert(r.1 =~= seq![
                    PaneMessage::UpdateFocusedTask(focus),
                    PaneMessage::UpdateTasks(tasks),
                ]);
                lemma_apply_two(pane, PaneMessage::UpdateFocusedTask(focus), PaneMessage::UpdateTasks(tasks));
            }
        } else {
            if pane.current == pane.focused {
                assert(r.1 =~= seq![PaneMessage::UpdateCurrentTask(None)]);
                lemma_apply_two(pane, PaneMessage::UpdateCurrentTask(None), PaneMessage::InterruptCurrentTask);
            } else {
                assert(r.1 =~= e);
            }
        }
    }
    // current_and_next
    if pane.tasks.len() > 0 && pane.current is None {
        lemma_apply_two(pane, PaneMessage::UpdateCurrentTask(Some(0)), PaneMessage::InterruptCurrentTask);
    } else {
        assert(pane.current_and_next().2 =~= e);
    }
}

/// Moving the focus forward and then back by the same offset puts it back
/// on the task it was on.
pub proof fn lemma_focus_back_and_forth(pane: PaneModel, offset: isize)
    requires
        pane.wf(),
        0 < pane.tasks.len() <= isize::MAX,
        pane.focused is Some,
        offset > isize::MIN,
        isize::MIN <= pane.focused->0 + offset <= isize::MAX,
    ensures
        pane.focus_on_next(offset).0.focus_on_next((-offset) as isize).0 == pane,
{
    let n = pane.tasks.len() as int;
    let i = pane.focused->0 as int;
    let j = (i + offset) % n;
    vstd::arithmetic::div_mod::lemma_add_mod_noop_right(j, -offset, n);
    vstd::arithmetic::div_mod::lemma_add_mod_noop(i + offset, -offset as int, n);
    vstd::arithmetic::div_mod::lemma_mod_twice(i + offset, n);
    vstd::arithmetic::div_mod::lemma_small_mod(i as nat, n as nat);
    assert((j - offset) % n == i);
    let neg = (-offset) as isize;
    let p1 = pane.focus_on_next(offset).0;
    assert(p1.focused == Some(j as usize));
    assert(p1.tasks == pane.tasks);
    let p2 = p1.focus_on_next(neg).0;
    assert((j + neg) % n == i);
    assert(p2.focused == Some(i as usize));
    assert(p2.focused == pane.focused);
    assert(p2.tasks == pane.tasks);
    assert(p2.current == pane.current);
}

/// The queue after finishing the running task `k` times in a row.
pub open spec fn finished_times(pane: PaneModel, k: nat) -> PaneModel
    decreases k,
{
    if k == 0 {
        pane
    } else {
        finished_times(pane.finish_current_task().0, (k - 1) as nat)
    }
}

/// Finishing tasks goes round the queue: after `k` finishes, the task `k`
/// places further on runs, and the tasks are unchanged.
pub proof fn lemma_finishing_goes_round(pane: PaneModel, k: nat)
    requires
        pane.wf(),
        0 < pane.tasks.len() <= usize::MAX,
        pane.current matches Some(c) && c < pane.tasks.len(),
    ensures
        finished_times(pane, k).current == Some(
            ((pane.current->0 + k) % (pane.tasks.len() as int)) as usize,
        ),
        finished_times(pane, k).tasks == pane.tasks,
    decreases k,
{
    let n = pane.tasks.len() as int;
    let c = pane.current->0 as int;
    if k > 0 {
        let p1 = pane.finish_current_task().0;
        let c1 = (c + 1) % n;
        vstd::arithmetic::div_mod::lemma_mod_bound(c + 1, n);
        assert(p1.current == Some(c1 as usize));
        lemma_finishing_goes_round(p1, (k - 1) as nat);
        assert((c1 + (k - 1)) % n == (c + k) % n) by {
            vstd::arithmetic::div_mod::lemma_add_mod_noop_right((k - 1) as int, c + 1, n);
        }
    } else {
        vstd::arithmetic::div_mod::lemma_small_mod(c as nat, n as nat);
    }
}

/// After as many finishes as there are tasks, the same task runs again.
pub proof fn lemma_full_round(pane: PaneModel)
    requires
        pane.wf(),
        0 < pane.tasks.len() <= usize::MAX,
        pane.current matches Some(c) && c < pane.tasks.len(),
    ensures
        finished_times(pane, pane.tasks.len()).current == pane.current,
{
    let n = pane.tasks.len() as int;
    let c = pane.current->0 as int;
    lemma_finishing_goes_round(pane, pane.tasks.len());
    vstd::arithmetic::div_mod::lemma_mod_add_multiples_vanish(c, n);
    vstd::arithmetic::div_mod::lemma_small_mod(c as nat, n as nat);
}

/// The pair to run: the running task and the task right after it in the
/// queue (the first task after the last).  When no task ran, the first task
/// becomes the running one.  The task after it is the one that finishing the
/// running task makes current next.
pub proof fn lemma_current_and_next_is_the_next_task(pane: PaneModel)
    requires
        pane.wf(),
        0 < pane.tasks.len() <= usize::MAX,
        pane.current_in_range(),
    ensures
        ({
            let n = pane.tasks.len() as int;
            let i: int = match pane.current {
                Some(c) => c as int,
                None => 0,
            };
            let (after, pair, _) = pane.current_and_next();
            let next_up = pane.tasks[(i + 1) % n];
            &&& after.current == Some(i as usize)
            &&& after.tasks == pane.tasks
            &&& after.focused == pane.focused
            &&& pair == Some((pane.tasks[i], next_up))
            &&& next_up == pane.tasks[after.finish_current_task().0.current->0 as int]
            &&& (i + 1 < n ==> next_up == pane.tasks[i + 1])
            &&& (i + 1 == n ==> next_up == pane.tasks[0])
        }),
{
    let n = pane.tasks.len() as int;
    let i: int = match pane.current {
        Some(c) => c as int,
        None => 0,
    };
    vstd::arithmetic::div_mod::lemma_mod_bound(i + 1, n);
    if i + 1 < n {
        vstd::arithmetic::div_mod::lemma_small_mod((i + 1) as nat, n as nat);
    } else {
        vstd::arithmetic::div_mod::lemma_mod_self_0(n);
    }
}

/// Adding a task puts it right after the focused task (first, when nothing
/// has focus), keeps every other task in order, and focuses the new task;
/// the running index is left as it was.
pub proof fn lemma_insert_goes_after_focus(pane: PaneModel, task: TaskView)
    requires
        pane.wf(),
        pane.tasks.len() <= usize::MAX,
    ensures
        ({
            let (after, _) = pane.insert_task(task);
            &&& after.tasks.len() == pane.tasks.len() + 1
            &&& after.current == pane.current
            &&& match pane.focused {
                Some(f) => {
                    &&& after.tasks == pane.tasks.subrange(0, f + 1) + seq![task]
                        + pane.tasks.subrange(f + 1, pane.tasks.len() as int)
                    &&& after.focused == Some((f + 1) as usize)
                    &&& after.tasks[f + 1] == task
                    &&& after.tasks[f as int] == pane.tasks[f as int]
                },
                None => {
                    &&& after.tasks == seq![task] + pane.tasks
                    &&& after.focused == Some(0usize)
                },
            }
        }),
{
    let (after, _) = pane.insert_task(task);
    match pane.focused {
        Some(f) => {
            assert(after.tasks =~= pane.tasks.subrange(0, f + 1) + seq![task] + pane.tasks.subrange(
                f + 1,
                pane.tasks.len() as int,
            ));
        },
        None => {
            assert(after.tasks =~= seq![task] + pane.tasks);
        },
    }
}

/// Enter makes the focused task the running one, whatever ran before; the
/// change is announced exactly when the running index changed, and the
/// tasks and the focus stay as they were.
pub proof fn lemma_focused_becomes_current(pane: PaneModel)
    ensures
        pane.set_focused_task_current().0.current == pane.focused,
        pane.set_focused_task_current().0.tasks == pane.tasks,
        pane.set_focused_task_current().0.focused == pane.focused,
        pane.set_focused_task_current().1.len() == 0 <==> pane.current == pane.focused,
        pane.current != pane.focused ==> pane.set_focused_task_current().1 == seq![
            PaneMessage::UpdateCurrentTask(pane.focused),
        ],
{
}

/// Finishing moves the running index one task on, round to the first after
/// the last (the first task when none ran), and changes nothing else.
pub proof fn lemma_finish_moves_one_on(pane: PaneModel)
    requires
        0 < pane.tasks.len() <= usize::MAX,
        pane.current matches Some(c) ==> c < pane.tasks.len(),
    ensures
        ({
            let after = pane.finish_current_task().0;
            let n = pane.tasks.len() as int;
            &&& after.tasks == pane.tasks
            &&& after.focused == pane.focused
            &&& pane.current is None ==> after.current == Some(0usize)
            &&& (pane.current matches Some(c) && c + 1 < n) ==> after.current == Some(
                (pane.current->0 + 1) as usize,
            )
            &&& (pane.current matches Some(c) && c + 1 == n) ==> after.current == Some(0usize)
        }),
{
    let n = pane.tasks.len() as int;
    if let Some(c) = pane.current {
        if c + 1 < n {
            vstd::arithmetic::div_mod::lemma_small_mod((c + 1) as nat, n as nat);
        } else {
            vstd::arithmetic::div_mod::lemma_mod_self_0(n);
        }
    }
}

/// Moving the focus by `offset` lands on a task, exactly `offset` places on
/// round the queue (a whole number of rounds apart); with no focus it lands
/// on the first task; tasks and running index stay.
pub proof fn lemma_focus_moves_by_offset(pane: PaneModel, offset: isize)
    requires
        pane.wf(),
        0 < pane.tasks.len() <= usize::MAX,
    ensures
        ({
            let after = pane.focus_on_next(offset).0;
            let n = pane.tasks.len() as int;
            &&& after.tasks == pane.tasks
            &&& after.current == pane.current
            &&& after.focused matches Some(g) && g < n
            &&& pane.focused is None ==> after.focused == Some(0usize)
            &&& pane.focused matches Some(f) ==> (f + offset - after.focused->0) % n == 0
        }),
{
    let n = pane.tasks.len() as int;
    if let Some(f) = pane.focused {
        let x = f + offset;
        vstd::arithmetic::div_mod::lemma_fundamental_div_mod(x, n);
        vstd::arithmetic::div_mod::lemma_mod_bound(x, n);
        let k = x / n;
        assert(x % n + k * n == x) by (nonlinear_arith)
            requires
                x == n * (x / n) + x % n,
                k == x / n,
        ;
        assert(pane.focus_on_next(offset).0.focused->0 + k * n == f + offset);
        vstd::arithmetic::div_mod::lemma_mod_multiples_basic(k, n);
    }
}

/// Deleting takes out exactly the focused task, keeping the others in
/// order; the focus stays on the same place, or moves to the new last task,
/// or goes when the queue is empty; a running index equal to the focus is
/// cleared, any other is left as it was.
pub proof fn lemma_delete_takes_out_focused(pane: PaneModel)
    requires
        pane.wf(),
        pane.focused is Some,
    ensures
        ({
            let f = pane.focused->0 as int;
            let n = pane.tasks.len() as int;
            let after = pane.delete_focused_task().0;
            &&& after.tasks == pane.tasks.subrange(0, f) + pane.tasks.subrange(f + 1, n)
            &&& after.tasks.len() == n - 1
            &&& (n == 1 ==> after.focused is None)
            &&& (f < n - 1 ==> after.focused == Some(f as usize))
            &&& (n > 1 && f == n - 1 ==> after.focused == Some((n - 2) as usize))
            &&& (pane.current == pane.focused ==> after.current is None)
            &&& (pane.current != pane.focused ==> after.current == pane.current)
        }),
{
    let f = pane.focused->0 as int;
    let n = pane.tasks.len() as int;
    assert(pane.delete_focused_task().0.tasks =~= pane.tasks.subrange(0, f) + pane.tasks.subrange(
        f + 1,
        n,
    ));
}

/// Replacing changes exactly the focused task into the new one; a running
/// index on it is cleared, any other stays; without focus nothing changes.
pub proof fn lemma_replace_changes_focused_only(pane: PaneModel, task: TaskView)
    requires
        pane.wf(),
    ensures
        ({
            let after = pane.replace_focused_task(task).0;
            &&& after.tasks.len() == pane.tasks.len()
            &&& after.focused == pane.focused
            &&& match pane.focused {
                Some(f) => {
                    &&& after.tasks[f as int] == task
                    &&& forall|k: int|
                        0 <= k < pane.tasks.len() && k != f ==> after.tasks[k] == pane.tasks[k]
                    &&& (pane.current == Some(f) ==> after.current is None)
                    &&& (pane.current != Some(f) ==> after.current == pane.current)
                },
                None => after == pane,
            }
        }),
{
}

/// Deleting a task just inserted gives back the task list as it was.
pub proof fn lemma_insert_then_delete(pane: PaneModel, task: TaskView)
    requires
        pane.wf(),
    ensures
        pane.insert_task(task).0.delete_focused_task().0.tasks == pane.tasks,
{
    let i = pane.insert_index();
    assert(pane.tasks.insert(i as int, task).remove(i as int) =~= pane.tasks);
}

} // verus!
