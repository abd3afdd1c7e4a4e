//! The application: which pane is in front, and what keys and messages do.
use crate::clock::{task_option_view, ClockState, ClockStateView};
use crate::input::{TaskInput, TaskInputView};
use crate::tasks::{lemma_apply_all_append, lemma_messages_keep_copy_true, lemma_current_and_next_is_the_next_task, lemma_focus_moves_by_offset, lemma_insert_goes_after_focus, lemma_focused_becomes_current, task_views, PaneModel, Task, TaskPane, TaskPaneState, TaskView};
use crate::utils::{format_time, time_text};
use vstd::prelude::*;
use ratatui::layout::{Constraint, Layout, Rect};
use vstd::string::StringExecFns;

verus! {

/// The pane that the screen shows.
#[derive(Debug, Clone, Copy, PartialEq, Eq, Structural)]
pub enum FrontPane {
    Clock,
    AddTask,
    EditTask,
    TaskPane,
    Help,
}

/// A message to the application, from the task queue or from the clock.
#[derive(Debug)]
pub enum AppAction {
    TaskPane(TaskPaneAppAction),
    Clock(ClockAppAction),
}

/// A message from the task queue.
#[derive(Debug)]
pub enum TaskPaneAppAction {
    UpdateTasks(Vec<Task>),
    UpdateCurrentTask(Option<usize>),
    UpdateFocusedTask(Option<usize>),
    InterruptCurrentTask,
}

/// A message from the clock: the time left (milliseconds), or that the timer
/// finished (with the task it ran, when it ran to the end).
#[derive(Debug)]
pub enum ClockAppAction {
    UpdateSecondsLeft(i64),
    TimerFinished(Option<Task>),
}

/// What a message from the task queue says.
pub enum PaneMessage {
    UpdateTasks(Seq<TaskView>),
    UpdateCurrentTask(Option<usize>),
    UpdateFocusedTask(Option<usize>),
    InterruptCurrentTask,
}

impl View for TaskPaneAppAction {
    type V = PaneMessage;

    open spec fn view(&self) -> PaneMessage {
        match self {
            TaskPaneAppAction::UpdateTasks(tasks) => PaneMessage::UpdateTasks(task_views(tasks@)),
            TaskPaneAppAction::UpdateCurrentTask(c) => PaneMessage::UpdateCurrentTask(*c),
            TaskPaneAppAction::UpdateFocusedTask(f) => PaneMessage::UpdateFocusedTask(*f),
            TaskPaneAppAction::InterruptCurrentTask => PaneMessage::InterruptCurrentTask,
        }
    }
}

/// What a message from the clock says.
pub enum ClockMessage {
    UpdateSecondsLeft(i64),
    TimerFinished(Option<TaskView>),
}

impl View for ClockAppAction {
    type V = ClockMessage;

    open spec fn view(&self) -> ClockMessage {
        match self {
            ClockAppAction::UpdateSecondsLeft(m) => ClockMessage::UpdateSecondsLeft(*m),
            ClockAppAction::TimerFinished(t) => ClockMessage::TimerFinished(task_option_view(*t)),
        }
    }
}

/// What a message to the application says.
pub enum ActionModel {
    TaskPane(PaneMessage),
    Clock(ClockMessage),
}

impl View for AppAction {
    type V = ActionModel;

    open spec fn view(&self) -> ActionModel {
        match self {
            AppAction::TaskPane(m) => ActionModel::TaskPane(m@),
            AppAction::Clock(m) => ActionModel::Clock(m@),
        }
    }
}

/// A key press, as far as the application tells keys apart.
#[derive(Debug, Clone, Copy, PartialEq, Eq, Structural)]
pub enum Key {
    Char(char),
    Enter,
    Tab,
    Esc,
    Other,
}

/// Work that handling a key or a message leaves to the outside.
#[derive(Debug)]
pub enum Effect {
    /// Put this message on the application's own message queue.
    Send(AppAction),
    /// Start the clock afresh on the given task, ending any run that goes on;
    /// it counts while other work goes on.
    StartTask(Task),
    /// Pause the timer, or let it count again.
    TogglePause,
    /// Stop the timer and announce that it finished without a task.
    StopTask,
    /// Show a desktop notification with this text.
    Notify(String),
    /// Hand the key to the focused field of the task dialog.
    EditInput,
}

/// What an effect asks for.
pub enum EffectModel {
    Send(ActionModel),
    StartTask(TaskView),
    TogglePause,
    StopTask,
    Notify(Seq<char>),
    EditInput,
}

impl View for Effect {
    type V = EffectModel;

    open spec fn view(&self) -> EffectModel {
        match self {
            Effect::Send(a) => EffectModel::Send(a@),
            Effect::StartTask(t) => EffectModel::StartTask(t@),
            Effect::TogglePause => EffectModel::TogglePause,
            Effect::StopTask => EffectModel::StopTask,
            Effect::Notify(text) => EffectModel::Notify(text@),
            Effect::EditInput => EffectModel::EditInput,
        }
    }
}

/// What a list of effects asks for, in order.
pub open spec fn effect_views(effects: Seq<Effect>) -> Seq<EffectModel> {
    effects.map_values(|e: Effect| e@)
}

/// Sending each of the task queue's messages to the application.
pub open spec fn sends(ms: Seq<PaneMessage>) -> Seq<EffectModel> {
    ms.map_values(|m: PaneMessage| EffectModel::Send(ActionModel::TaskPane(m)))
}

/// The notification shown when a task's time is up.
pub open spec fn finished_text(task: TaskView) -> Seq<char> {
    "Task: "@ + task.content + " is finished, you've been on it for "@ + time_text(
        task.millis as int,
    )
}

/// What the application holds.
pub struct AppModel {
    pub is_running: bool,
    pub front_pane: FrontPane,
    pub pane: PaneModel,
    pub pane_state: PaneModel,
    pub clock_state: ClockStateView,
    pub input: TaskInputView,
}

impl AppModel {
    /// The clock screen shows the running task and the next one, when the
    /// queue has them; otherwise it keeps what it showed.
    pub open spec fn show_pair(
        cs: ClockStateView,
        pair: Option<(TaskView, TaskView)>,
    ) -> ClockStateView {
        match pair {
            Some((c, n)) => ClockStateView { current_task: Some(c), next_task: Some(n), ..cs },
            None => cs,
        }
    }

    /// The keys the application can take in this state without failing: the
    /// queue is well formed, and starting a task needs its running index to
    /// name a task.
    pub open spec fn accepts_key(self, key: Key) -> bool {
        &&& self.pane.wf()
        &&& self.pane.tasks.len() <= isize::MAX
        &&& (self.front_pane == FrontPane::Clock && key == Key::Char('r'))
            ==> self.pane.current_in_range()
    }

    /// What a key does.
    pub open spec fn on_key(self, key: Key) -> (AppModel, Seq<EffectModel>) {
        match self.front_pane {
            FrontPane::Clock => match key {
                Key::Char('q') => (AppModel { is_running: false, ..self }, seq![]),
                Key::Char('r') => {
                    let (pane, pair, ms) = self.pane.current_and_next();
                    match pair {
                        Some((c, n)) => (
                            AppModel {
                                pane,
                                clock_state: ClockStateView {
                                    current_task: Some(c),
                                    next_task: Some(n),
                                    is_paused: false,
                                    ..self.clock_state
                                },
                                ..self
                            },
                            sends(ms).push(EffectModel::StartTask(c)),
                        ),
                        None => (AppModel { pane, ..self }, sends(ms)),
                    }
                },
                Key::Char('?') => (AppModel { front_pane: FrontPane::Help, ..self }, seq![]),
                Key::Char('p') => (
                    AppModel {
                        clock_state: ClockStateView {
                            is_paused: !self.clock_state.is_paused,
                            ..self.clock_state
                        },
                        ..self
                    },
                    seq![EffectModel::TogglePause],
                ),
                Key::Char('t') => (self, seq![EffectModel::StopTask]),
                Key::Char('e') => (AppModel { front_pane: FrontPane::TaskPane, ..self }, seq![]),
                _ => (self, seq![]),
            },
            FrontPane::AddTask | FrontPane::EditTask => match key {
                Key::Enter => if self.input.complete() {
                    let task = self.input.task();
                    let (pane, ms) = if self.front_pane == FrontPane::AddTask {
                        self.pane.insert_task(task)
                    } else {
                        self.pane.replace_focused_task(task)
                    };
                    (
                        AppModel {
                            pane,
                            input: TaskInputView::cleared(),
                            front_pane: FrontPane::TaskPane,
                            ..self
                        },
                        sends(ms),
                    )
                } else {
                    (self, seq![])
                },
                Key::Tab => (AppModel { input: self.input.switched(), ..self }, seq![]),
                Key::Esc => (AppModel { front_pane: FrontPane::TaskPane, ..self }, seq![]),
                _ => (self, seq![EffectModel::EditInput]),
            },
            FrontPane::Help => match key {
                Key::Esc | Key::Char('?') | Key::Char('q') => (
                    AppModel { front_pane: FrontPane::Clock, ..self },
                    seq![],
                ),
                _ => (self, seq![]),
            },
            FrontPane::TaskPane => match key {
                Key::Char('a') => (AppModel { front_pane: FrontPane::AddTask, ..self }, seq![]),
                Key::Char('e') | Key::Char('r') => (
                    AppModel { front_pane: FrontPane::EditTask, ..self },
                    seq![],
                ),
                Key::Char('d') => {
                    let (pane, ms) = self.pane.delete_focused_task();
                    (AppModel { pane, ..self }, sends(ms))
                },
                Key::Char('j') => {
                    let (pane, ms) = self.pane.focus_on_next(1);
                    (AppModel { pane, ..self }, sends(ms))
                },
                Key::Char('k') => {
                    let (pane, ms) = self.pane.focus_on_next(-1isize);
                    (AppModel { pane, ..self }, sends(ms))
                },
                Key::Enter => {
                    let (pane, ms) = self.pane.set_focused_task_current();
                    (AppModel { pane, ..self }, sends(ms))
                },
                Key::Char('q') | Key::Esc => (
                    AppModel { front_pane: FrontPane::Clock, ..self },
                    seq![],
                ),
                Key::Char('?') => (AppModel { front_pane: FrontPane::Help, ..self }, seq![]),
                _ => (self, seq![]),
            },
        }
    }

    /// The outcomes of a notification the application can take: the queue is
    /// well formed, and moving on needs the running index to have a successor.
    pub open spec fn accepts_notification(self, shown: bool) -> bool {
        &&& self.pane.wf()
        &&& shown ==> (self.pane.current matches Some(c) ==> c < usize::MAX)
    }

    /// What the outcome of a finished task's notification does: once it was
    /// shown, the queue moves on to the next task and the clock screen shows
    /// it and the one after; when it failed, nothing changes.
    pub open spec fn on_notification(self, shown: bool) -> (AppModel, Seq<EffectModel>) {
        if shown {
            let (p1, m1) = self.pane.finish_current_task();
            let (p2, pair, m2) = p1.current_and_next();
            let shown_clock = match pair {
                Some((c, n)) => ClockStateView {
                    current_task: Some(c),
                    next_task: Some(n),
                    ..self.clock_state
                },
                None => ClockStateView { current_task: None, next_task: None, ..self.clock_state },
            };
            (AppModel { pane: p2, clock_state: shown_clock, ..self }, sends(m1) + sends(m2))
        } else {
            (self, seq![])
        }
    }

    /// The messages the application can take in this state without failing:
    /// the queue is well formed, and new tasks need the running index to name
    /// a task.
    pub open spec fn accepts_action(self, action: ActionModel) -> bool {
        &&& self.pane.wf()
        &&& (action matches ActionModel::TaskPane(PaneMessage::UpdateTasks(_))
            ==> self.pane.current_in_range())
    }

    /// What a message does.
    pub open spec fn on_action(self, action: ActionModel) -> (AppModel, Seq<EffectModel>) {
        match action {
            ActionModel::Clock(ClockMessage::UpdateSecondsLeft(m)) => (
                AppModel {
                    clock_state: ClockStateView { millis_left: Some(m), ..self.clock_state },
                    ..self
                },
                seq![],
            ),
            ActionModel::Clock(ClockMessage::TimerFinished(task)) => {
                let stopped = ClockStateView {
                    millis_left: None,
                    is_paused: true,
                    ..self.clock_state
                };
                match task {
                    None => (AppModel { clock_state: stopped, ..self }, seq![]),
                    Some(t) => (
                        AppModel { clock_state: stopped, ..self },
                        seq![EffectModel::Notify(finished_text(t))],
                    ),
                }
            },
            ActionModel::TaskPane(PaneMessage::UpdateTasks(tasks)) => {
                let (pane, pair, ms) = self.pane.current_and_next();
                (
                    AppModel {
                        pane_state: PaneModel { tasks, ..self.pane_state },
                        pane,
                        clock_state: AppModel::show_pair(self.clock_state, pair),
                        ..self
                    },
                    sends(ms),
                )
            },
            ActionModel::TaskPane(PaneMessage::InterruptCurrentTask) => (
                self,
                seq![EffectModel::StopTask],
            ),
            ActionModel::TaskPane(PaneMessage::UpdateCurrentTask(c)) => (
                AppModel { pane_state: PaneModel { current: c, ..self.pane_state }, ..self },
                seq![],
            ),
            ActionModel::TaskPane(PaneMessage::UpdateFocusedTask(f)) => (
                AppModel { pane_state: PaneModel { focused: f, ..self.pane_state }, ..self },
                seq![],
            ),
        }
    }
}

/// The application's state: which pane is in front, the task queue and its
/// screen copy, the clock screen, and the task dialog.
#[derive(Debug)]
pub struct App {
    is_running: bool,
    front_pane: FrontPane,
    task_pane: TaskPane,
    task_pane_state: TaskPaneState,
    clock_state: ClockState,
    task_input: TaskInput,
}

impl View for App {
    type V = AppModel;

    closed spec fn view(&self) -> AppModel {
        AppModel {
            is_running: self.is_running,
            front_pane: self.front_pane,
            pane: self.task_pane@,
            pane_state: self.task_pane_state@,
            clock_state: self.clock_state@,
            input: self.task_input@,
        }
    }
}

/// Appends each of the task queue's messages as a message to send.
fn push_sends(effects: &mut Vec<Effect>, sent: Vec<TaskPaneAppAction>)
    ensures
        effect_views(final(effects)@) == effect_views(old(effects)@) + sends(
            crate::tasks::messages(sent@),
        ),
{
    let ghost all = sent@;
    let mut rest = sent;
    let total = rest.len();
    let mut i: usize = 0;
    while rest.len() > 0
        invariant
            all.len() == total,
            i + rest@.len() == all.len(),
            rest@ == all.subrange(i as int, all.len() as int),
            effect_views(effects@) == effect_views(old(effects)@) + sends(
                crate::tasks::messages(all.take(i as int)),
            ),
        decreases rest.len(),
    {
        let m = rest.remove(0);
        proof {
            assert(m == all[i as int]);
            assert(rest@ =~= all.subrange(i + 1, all.len() as int));
        }
        let ghost before = effects@;
        effects.push(Effect::Send(AppAction::TaskPane(m)));
        proof {
            assert(effect_views(effects@) =~= effect_views(before).push(
                EffectModel::Send(ActionModel::TaskPane(all[i as int]@)),
            ));
            assert(sends(crate::tasks::messages(all.take(i + 1))) =~= sends(
                crate::tasks::messages(all.take(i as int)),
            ).push(EffectModel::Send(ActionModel::TaskPane(all[i as int]@))));
            assert(effect_views(effects@) =~= effect_views(old(effects)@) + sends(
                crate::tasks::messages(all.take(i + 1)),
            ));
        }
        i += 1;
    }
    proof {
        assert(all.take(i as int) =~= all);
    }
}

/// The text of the notification shown when `task`'s time is up.
pub fn finished_message(task: &Task) -> (text: String)
    ensures
        text@ == finished_text(task@),
{
    let mut text = String::new();
    text.append("Task: ");
    text.append(task.content.as_str());
    text.append(" is finished, you've been on it for ");
    let time = format_time(task.millis);
    text.append(time.as_str());
    proof {
        assert(text@ =~= finished_text(task@));
    }
    text
}

impl App {
    /// The application at start: running, the clock in front, the preset
    /// tasks in the queue with nothing running or focused, a paused clock and
    /// an empty dialog.
    pub fn new(tasks: Vec<Task>) -> (app: App)
        ensures
            app@ == (AppModel {
                is_running: true,
                front_pane: FrontPane::Clock,
                pane: PaneModel { tasks: task_views(tasks@), current: None, focused: None },
                pane_state: PaneModel { tasks: task_views(tasks@), current: None, focused: None },
                clock_state: ClockStateView::initial(),
                input: TaskInputView::cleared(),
            }),
            app@.pane.wf(),
    {
        let (task_pane, task_pane_state) = TaskPane::new(tasks);
        App {
            is_running: true,
            front_pane: FrontPane::Clock,
            task_pane,
            task_pane_state,
            clock_state: ClockState::new(),
            task_input: TaskInput::new(),
        }
    }

    pub fn is_running(&self) -> (b: bool)
        ensures
            b == self@.is_running,
    {
        self.is_running
    }

    pub fn front_pane(&self) -> (p: FrontPane)
        ensures
            p == self@.front_pane,
    {
        self.front_pane
    }

    pub fn task_pane(&self) -> (p: &TaskPane)
        ensures
            p@ == self@.pane,
    {
        &self.task_pane
    }

    pub fn task_pane_state(&self) -> (s: &TaskPaneState)
        ensures
            s@ == self@.pane_state,
    {
        &self.task_pane_state
    }

    pub fn clock_state(&self) -> (s: &ClockState)
        ensures
            s@ == self@.clock_state,
    {
        &self.clock_state
    }

    pub fn task_input(&self) -> (i: &TaskInput)
        ensures
            i@ == self@.input,
    {
        &self.task_input
    }

    /// The focused field of the task dialog now reads `value`.
    pub fn edit_input(&mut self, value: String)
        ensures
            final(self)@ == (AppModel { input: old(self)@.input.edited(value@), ..old(self)@ }),
    {
        self.task_input.set_focused_value(value);
    }

    /// Whether `key` can be taken now (see `AppModel::accepts_key`).
    pub fn accepts_key(&self, key: Key) -> (b: bool)
        requires
            self@.pane.wf(),
            self@.pane.tasks.len() <= isize::MAX,
        ensures
            b == self@.accepts_key(key),
    {
        match (self.front_pane, key) {
            (FrontPane::Clock, Key::Char('r')) => self.task_pane.current_in_range(),
            _ => true,
        }
    }

    /// Handles a key press.
    pub fn handle_event(&mut self, key: Key) -> (effects: Vec<Effect>)
        requires
            old(self)@.accepts_key(key),
        ensures
            (final(self)@, effect_views(effects@)) == old(self)@.on_key(key),
            final(self)@.pane.wf(),
    {
        let mut effects: Vec<Effect> = Vec::new();
        match self.front_pane {
            FrontPane::Clock => match key {
                Key::Char('q') => self.is_running = false,
                Key::Char('r') => {
                    let (pair, sent) = self.task_pane.get_current_and_next_tasks_to_run();
                    push_sends(&mut effects, sent);
                    if let Some((current_task, next_task)) = pair {
                        self.clock_state.current_task = Some(current_task.clone());
                        self.clock_state.next_task = Some(next_task);
                        self.clock_state.is_paused = false;
                        effects.push(Effect::StartTask(current_task));
                    }
                },
                Key::Char('?') => self.front_pane = FrontPane::Help,
                Key::Char('p') => {
                    self.clock_state.is_paused = !self.clock_state.is_paused;
                    effects.push(Effect::TogglePause);
                },
                Key::Char('t') => effects.push(Effect::StopTask),
                Key::Char('e') => self.front_pane = FrontPane::TaskPane,
                _ => {},
            },
            FrontPane::AddTask | FrontPane::EditTask => match key {
                Key::Enter => {
                    if let Ok(task) = self.task_input.get_task() {
                        let sent = if self.front_pane == FrontPane::AddTask {
                            self.task_pane.insert_task(task)
                        } else {
                            self.task_pane.replace_focused_task(task)
                        };
                        push_sends(&mut effects, sent);
                        self.front_pane = FrontPane::TaskPane;
                    }
                },
                Key::Tab => self.task_input.switch_focus(),
                Key::Esc => self.front_pane = FrontPane::TaskPane,
                _ => effects.push(Effect::EditInput),
            },
            FrontPane::Help => match key {
                Key::Esc | Key::Char('?') | Key::Char('q') => self.front_pane = FrontPane::Clock,
                _ => {},
            },
            FrontPane::TaskPane => match key {
                Key::Char('a') => self.front_pane = FrontPane::AddTask,
                Key::Char('e') | Key::Char('r') => self.front_pane = FrontPane::EditTask,
                Key::Char('d') => {
                    let sent = self.task_pane.delete_focused_task();
                    push_sends(&mut effects, sent);
                },
                Key::Char('j') => {
                    let sent = self.task_pane.focus_on_next(1);
                    push_sends(&mut effects, sent);
                },
                Key::Char('k') => {
                    let sent = self.task_pane.focus_on_next(-1);
                    push_sends(&mut effects, sent);
                },
                Key::Enter => {
                    let sent = self.task_pane.set_focused_task_current();
                    push_sends(&mut effects, sent);
                },
                Key::Char('q') | Key::Esc => self.front_pane = FrontPane::Clock,
                Key::Char('?') => self.front_pane = FrontPane::Help,
                _ => {},
            },
        }
        proof {
            assert(effect_views(effects@) =~= old(self)@.on_key(key).1);
        }
        effects
    }

    /// Takes in whether the notification of a finished task was shown; once
    /// it was, moves the queue on.
    pub fn handle_notification(&mut self, shown: bool) -> (effects: Vec<Effect>)
        requires
            old(self)@.accepts_notification(shown),
        ensures
            (final(self)@, effect_views(effects@)) == old(self)@.on_notification(shown),
            final(self)@.pane.wf(),
    {
        let mut effects: Vec<Effect> = Vec::new();
        if shown {
            let sent = self.task_pane.finish_current_task();
            push_sends(&mut effects, sent);
            let (pair, sent) = self.task_pane.get_current_and_next_tasks_to_run();
            push_sends(&mut effects, sent);
            match pair {
                Some((current_task, next_task)) => {
                    self.clock_state.current_task = Some(current_task);
                    self.clock_state.next_task = Some(next_task);
                },
                None => {
                    self.clock_state.current_task = None;
                    self.clock_state.next_task = None;
                },
            }
        }
        proof {
            assert(effect_views(effects@) =~= old(self)@.on_notification(shown).1);
        }
        effects
    }

    /// Handles a message from the task queue or the clock.
    pub fn handle_action(&mut self, action: AppAction) -> (effects: Vec<Effect>)
        requires
            old(self)@.accepts_action(action@),
        ensures
            (final(self)@, effect_views(effects@)) == old(self)@.on_action(action@),
            final(self)@.pane.wf(),
    {
        let ghost a = action@;
        let mut effects: Vec<Effect> = Vec::new();
        match action {
            AppAction::Clock(ClockAppAction::UpdateSecondsLeft(m)) => {
                self.clock_state.millis_left = Some(m);
            },
            AppAction::Clock(ClockAppAction::TimerFinished(task)) => {
                self.clock_state.millis_left = None;
                self.clock_state.is_paused = true;
                if let Some(task) = task {
                    effects.push(Effect::Notify(finished_message(&task)));
                }
            },
            AppAction::TaskPane(TaskPaneAppAction::UpdateTasks(tasks)) => {
                self.task_pane_state.tasks = tasks;
                let (pair, sent) = self.task_pane.get_current_and_next_tasks_to_run();
                push_sends(&mut effects, sent);
                if let Some((current_task, next_task)) = pair {
                    self.clock_state.current_task = Some(current_task);
                    self.clock_state.next_task = Some(next_task);
                }
            },
            AppAction::TaskPane(TaskPaneAppAction::InterruptCurrentTask) => {
                effects.push(Effect::StopTask);
            },
            AppAction::TaskPane(TaskPaneAppAction::UpdateCurrentTask(c)) => {
                self.task_pane_state.current_task_idx = c;
            },
            AppAction::TaskPane(TaskPaneAppAction::UpdateFocusedTask(f)) => {
                self.task_pane_state.focused_task_idx = f;
            },
        }
        proof {
            assert(effect_views(effects@) =~= old(self)@.on_action(a).1);
        }
        effects
    }
}

/// The task-queue messages among `effects`, in order.
pub open spec fn pane_messages(effects: Seq<EffectModel>) -> Seq<PaneMessage>
    decreases effects.len(),
{
    if effects.len() == 0 {
        Seq::empty()
    } else {
        let first = match effects[0] {
            EffectModel::Send(ActionModel::TaskPane(m)) => seq![m],
            _ => Seq::empty(),
        };
        first + pane_messages(effects.drop_first())
    }
}

/// The screen copy of the queue, once it has taken in the queue's messages
/// `pending` that are still on their way to it, equals the queue.
pub open spec fn copy_true(m: AppModel, pending: Seq<PaneMessage>) -> bool {
    m.pane_state.apply_all(pending) == m.pane
}

proof fn lemma_pane_messages_append(a: Seq<EffectModel>, b: Seq<EffectModel>)
    ensures
        pane_messages(a + b) == pane_messages(a) + pane_messages(b),
    decreases a.len(),
{
    if a.len() == 0 {
        assert(a + b =~= b);
        assert(pane_messages(a) + pane_messages(b) =~= pane_messages(b));
    } else {
        assert((a + b).drop_first() =~= a.drop_first() + b);
        lemma_pane_messages_append(a.drop_first(), b);
        assert((a + b)[0] == a[0]);
        assert(pane_messages(a + b) =~= pane_messages(a) + pane_messages(b));
    }
}

proof fn lemma_pane_messages_sends(ms: Seq<PaneMessage>)
    ensures
        pane_messages(sends(ms)) == ms,
    decreases ms.len(),
{
    if ms.len() == 0 {
        assert(sends(ms).len() == 0);
    } else {
        assert(sends(ms).drop_first() =~= sends(ms.drop_first()));
        lemma_pane_messages_sends(ms.drop_first());
        assert(ms =~= seq![ms[0]] + ms.drop_first());
    }
}

/// A single effect that is not a message to the queue carries none.
proof fn lemma_pane_messages_single(x: EffectModel)
    requires
        !(x is Send && x->Send_0 is TaskPane),
    ensures
        pane_messages(seq![x]) == Seq::<PaneMessage>::empty(),
{
    let e = seq![x];
    assert(e.drop_first() =~= Seq::<EffectModel>::empty());
    assert(e[0] == x);
    assert(pane_messages(e.drop_first()) == Seq::<PaneMessage>::empty());
    match x {
        EffectModel::Send(a) => {
            assert(!(a is TaskPane));
        },
        _ => {},
    }
    assert(pane_messages(e) =~= Seq::<PaneMessage>::empty());
}

proof fn lemma_pane_messages_empty()
    ensures
        pane_messages(Seq::<EffectModel>::empty()) == Seq::<PaneMessage>::empty(),
{
}

/// Keys keep the screen copy true: when the copy, after the messages still on
/// their way, equals the queue, then after a key it does so with the
/// messages the key sent added to the way.
pub proof fn lemma_keys_keep_copy_true(m: AppModel, key: Key, pending: Seq<PaneMessage>)
    requires
        m.accepts_key(key),
        copy_true(m, pending),
    ensures
        copy_true(m.on_key(key).0, pending + pane_messages(m.on_key(key).1)),
{
    let (m2, e) = m.on_key(key);
    lemma_messages_keep_copy_true(m.pane, m.input.task(), 1);
    lemma_messages_keep_copy_true(m.pane, m.input.task(), -1isize);
    lemma_pane_messages_empty();
    lemma_pane_messages_single(EffectModel::TogglePause);
    lemma_pane_messages_single(EffectModel::StopTask);
    lemma_pane_messages_single(EffectModel::EditInput);
    // The messages the key sent, and the queue after it.
    let ms: Seq<PaneMessage> = pane_messages(e);
    assert(m2.pane_state == m.pane_state);
    assert(m.pane.apply_all(ms) == m2.pane) by {
        match m.front_pane {
            FrontPane::Clock => {
                if key == Key::Char('r') {
                    let (p, pair, sent) = m.pane.current_and_next();
                    lemma_pane_messages_sends(sent);
                    if let Some((c, n)) = pair {
                        lemma_pane_messages_single(EffectModel::StartTask(c));
                        lemma_pane_messages_append(sends(sent), seq![EffectModel::StartTask(c)]);
                        assert(sends(sent).push(EffectModel::StartTask(c)) =~= sends(sent) + seq![
                            EffectModel::StartTask(c),
                        ]);
                    }
                }
            },
            FrontPane::AddTask | FrontPane::EditTask => {
                if key == Key::Enter && m.input.complete() {
                    if m.front_pane == FrontPane::AddTask {
                        lemma_pane_messages_sends(m.pane.insert_task(m.input.task()).1);
                    } else {
                        lemma_pane_messages_sends(m.pane.replace_focused_task(m.input.task()).1);
                    }
                }
            },
            FrontPane::Help => {},
            FrontPane::TaskPane => {
                lemma_pane_messages_sends(m.pane.delete_focused_task().1);
                lemma_pane_messages_sends(m.pane.focus_on_next(1).1);
                lemma_pane_messages_sends(m.pane.focus_on_next(-1isize).1);
                lemma_pane_messages_sends(m.pane.set_focused_task_current().1);
            },
        }
    }
    lemma_apply_all_append(m.pane_state, pending, ms);
}

/// Messages keep the screen copy true: handling the first message still on
/// its way (or a message from the clock) leaves the copy true, with the
/// messages the handling sent added to the way.
pub proof fn lemma_actions_keep_copy_true(m: AppModel, action: ActionModel, pending: Seq<PaneMessage>)
    requires
        m.accepts_action(action),
        copy_true(m, pending),
        action is TaskPane ==> pending.len() > 0 && pending[0] == action->TaskPane_0,
    ensures
        copy_true(
            m.on_action(action).0,
            (if action is TaskPane {
                pending.drop_first()
            } else {
                pending
            }) + pane_messages(m.on_action(action).1),
        ),
{
    let (m2, e) = m.on_action(action);
    lemma_pane_messages_empty();
    lemma_pane_messages_single(EffectModel::StopTask);
    match action {
        ActionModel::TaskPane(msg) => {
            let rest = pending.drop_first();
            assert(m.pane_state.apply_all(pending) == m.pane_state.apply(msg).apply_all(rest));
            match msg {
                PaneMessage::UpdateTasks(ts) => {
                    lemma_messages_keep_copy_true(m.pane, m.input.task(), 1);
                    let sent = m.pane.current_and_next().2;
                    lemma_pane_messages_sends(sent);
                    assert(m2.pane_state == m.pane_state.apply(msg));
                    lemma_apply_all_append(m2.pane_state, rest, sent);
                },
                PaneMessage::InterruptCurrentTask => {
                    assert(m2.pane_state == m.pane_state.apply(msg));
                    assert(rest + Seq::<PaneMessage>::empty() =~= rest);
                },
                _ => {
                    assert(m2.pane_state == m.pane_state.apply(msg));
                    assert(rest + Seq::<PaneMessage>::empty() =~= rest);
                },
            }
        },
        ActionModel::Clock(c) => {
            match c {
                ClockMessage::TimerFinished(Some(t)) => {
                    lemma_pane_messages_single(EffectModel::Notify(finished_text(t)));
                },
                _ => {},
            }
            assert(pending + Seq::<PaneMessage>::empty() =~= pending);
        },
    }
}

/// The outcome of a notification keeps the screen copy true, with the
/// messages it sent added to the way.  Left out: an empty queue that still
/// has a running index, which `finish_current_task` clears without a message.
pub proof fn lemma_notification_keeps_copy_true(m: AppModel, shown: bool, pending: Seq<PaneMessage>)
    requires
        m.accepts_notification(shown),
        copy_true(m, pending),
        !(m.pane.tasks.len() == 0 && m.pane.current is Some),
    ensures
        copy_true(m.on_notification(shown).0, pending + pane_messages(m.on_notification(shown).1)),
{
    lemma_pane_messages_empty();
    if shown {
        let (p1, m1) = m.pane.finish_current_task();
        let (p2, pair, m2) = p1.current_and_next();
        lemma_messages_keep_copy_true(m.pane, m.input.task(), 1);
        if m.pane.tasks.len() > 0 {
            if let Some(c) = m.pane.current {
                vstd::arithmetic::div_mod::lemma_mod_bound(c + 1, m.pane.tasks.len() as int);
            }
        }
        assert(p1.wf() && p1.current_in_range());
        lemma_messages_keep_copy_true(p1, m.input.task(), 1);
        lemma_pane_messages_sends(m1);
        lemma_pane_messages_sends(m2);
        lemma_pane_messages_append(sends(m1), sends(m2));
        lemma_apply_all_append(m.pane_state, pending, m1 + m2);
        lemma_apply_all_append(m.pane_state.apply_all(pending), m1, m2);
    } else {
        assert(pending + Seq::<PaneMessage>::empty() =~= pending);
    }
}

/// Something that reaches the application: a key, the delivery of the first
/// queue message still on its way, a message from the clock, or the outcome
/// of a notification.
pub enum AppEvent {
    Key(Key),
    Deliver,
    Clock(ClockMessage),
    Notified(bool),
}

/// The application and the queue messages on their way after `ev`; the
/// messages the step sends join the end of the way.
pub open spec fn event_step(m: AppModel, pending: Seq<PaneMessage>, ev: AppEvent) -> (
    AppModel,
    Seq<PaneMessage>,
) {
    match ev {
        AppEvent::Key(k) => {
            let (m2, e) = m.on_key(k);
            (m2, pending + pane_messages(e))
        },
        AppEvent::Deliver => {
            let (m2, e) = m.on_action(ActionModel::TaskPane(pending[0]));
            (m2, pending.drop_first() + pane_messages(e))
        },
        AppEvent::Clock(c) => {
            let (m2, e) = m.on_action(ActionModel::Clock(c));
            (m2, pending + pane_messages(e))
        },
        AppEvent::Notified(shown) => {
            let (m2, e) = m.on_notification(shown);
            (m2, pending + pane_messages(e))
        },
    }
}

/// The step can be taken: the application accepts it, a delivery has a
/// message to deliver, and a notification's outcome does not meet an empty
/// queue that still has a running index.
pub open spec fn event_ok(m: AppModel, pending: Seq<PaneMessage>, ev: AppEvent) -> bool {
    match ev {
        AppEvent::Key(k) => m.accepts_key(k),
        AppEvent::Deliver => pending.len() > 0 && m.accepts_action(
            ActionModel::TaskPane(pending[0]),
        ),
        AppEvent::Clock(c) => m.accepts_action(ActionModel::Clock(c)),
        AppEvent::Notified(shown) => m.accepts_notification(shown) && !(m.pane.tasks.len() == 0
            && m.pane.current is Some),
    }
}

/// The application and the messages on their way after the events `evs`.
pub open spec fn run_events(m: AppModel, pending: Seq<PaneMessage>, evs: Seq<AppEvent>) -> (
    AppModel,
    Seq<PaneMessage>,
)
    decreases evs.len(),
{
    if evs.len() == 0 {
        (m, pending)
    } else {
        let (m2, p2) = event_step(m, pending, evs[0]);
        run_events(m2, p2, evs.drop_first())
    }
}

/// Every event of `evs` can be taken when it comes.
pub open spec fn run_ok(m: AppModel, pending: Seq<PaneMessage>, evs: Seq<AppEvent>) -> bool
    decreases evs.len(),
{
    if evs.len() == 0 {
        true
    } else {
        let (m2, p2) = event_step(m, pending, evs[0]);
        event_ok(m, pending, evs[0]) && run_ok(m2, p2, evs.drop_first())
    }
}

/// The screen copy of the queue stays true over a whole run: when it holds
/// at the start (as it does for a new application, with nothing on its way),
/// then after any sequence of keys, deliveries, clock messages and
/// notification outcomes that can each be taken, the copy, after the
/// messages still on their way, equals the queue; once they are all
/// delivered, it equals the queue itself.
pub proof fn lemma_copy_true_over_run(m: AppModel, pending: Seq<PaneMessage>, evs: Seq<AppEvent>)
    requires
        copy_true(m, pending),
        run_ok(m, pending, evs),
    ensures
        copy_true(run_events(m, pending, evs).0, run_events(m, pending, evs).1),
        run_events(m, pending, evs).1.len() == 0 ==> run_events(m, pending, evs).0.pane_state
            == run_events(m, pending, evs).0.pane,
    decreases evs.len(),
{
    if evs.len() > 0 {
        let ev = evs[0];
        match ev {
            AppEvent::Key(k) => lemma_keys_keep_copy_true(m, k, pending),
            AppEvent::Deliver => lemma_actions_keep_copy_true(
                m,
                ActionModel::TaskPane(pending[0]),
                pending,
            ),
            AppEvent::Clock(c) => lemma_actions_keep_copy_true(m, ActionModel::Clock(c), pending),
            AppEvent::Notified(shown) => lemma_notification_keeps_copy_true(m, shown, pending),
        }
        let (m2, p2) = event_step(m, pending, ev);
        lemma_copy_true_over_run(m2, p2, evs.drop_first());
    } else if pending.len() == 0 {
        assert(m.pane_state.apply_all(pending) == m.pane_state);
    }
}

/// Only `q` on the clock quits: every other key, on every screen, leaves the
/// application running as it was.
pub proof fn lemma_only_q_on_clock_quits(m: AppModel, key: Key)
    ensures
        m.on_key(key).0.is_running == (m.is_running && !(m.front_pane == FrontPane::Clock && key
            == Key::Char('q'))),
{
}

/// The keys that only change screens do just that: nothing else changes and
/// no work is asked for.  Escape and `q` go back (to the clock from the task
/// list and the help, to the task list from the dialog); `?` opens the help
/// from the clock and the task list and closes it again; `e` opens the task
/// list from the clock; `a`, `e` and `r` open the dialog from the task list.
pub proof fn lemma_screen_keys(m: AppModel)
    ensures
        m.front_pane == FrontPane::TaskPane ==> {
            &&& m.on_key(Key::Char('q')) == (AppModel { front_pane: FrontPane::Clock, ..m }, Seq::<
                EffectModel,
            >::empty())
            &&& m.on_key(Key::Esc) == (AppModel { front_pane: FrontPane::Clock, ..m }, Seq::<
                EffectModel,
            >::empty())
            &&& m.on_key(Key::Char('?')) == (AppModel { front_pane: FrontPane::Help, ..m }, Seq::<
                EffectModel,
            >::empty())
            &&& m.on_key(Key::Char('a')) == (AppModel { front_pane: FrontPane::AddTask, ..m }, Seq::<
                EffectModel,
            >::empty())
            &&& m.on_key(Key::Char('e')) == (AppModel { front_pane: FrontPane::EditTask, ..m }, Seq::<
                EffectModel,
            >::empty())
            &&& m.on_key(Key::Char('r')) == (AppModel { front_pane: FrontPane::EditTask, ..m }, Seq::<
                EffectModel,
            >::empty())
        },
        m.front_pane == FrontPane::Help ==> {
            &&& m.on_key(Key::Char('q')) == (AppModel { front_pane: FrontPane::Clock, ..m }, Seq::<
                EffectModel,
            >::empty())
            &&& m.on_key(Key::Esc) == (AppModel { front_pane: FrontPane::Clock, ..m }, Seq::<
                EffectModel,
            >::empty())
            &&& m.on_key(Key::Char('?')) == (AppModel { front_pane: FrontPane::Clock, ..m }, Seq::<
                EffectModel,
            >::empty())
        },
        m.front_pane == FrontPane::Clock ==> {
            &&& m.on_key(Key::Char('q')) == (AppModel { is_running: false, ..m }, Seq::<
                EffectModel,
            >::empty())
            &&& m.on_key(Key::Char('?')) == (AppModel { front_pane: FrontPane::Help, ..m }, Seq::<
                EffectModel,
            >::empty())
            &&& m.on_key(Key::Char('e')) == (AppModel { front_pane: FrontPane::TaskPane, ..m }, Seq::<
                EffectModel,
            >::empty())
            &&& m.on_key(Key::Char('t')) == (m, seq![EffectModel::StopTask])
            &&& m.on_key(Key::Char('p')).0.clock_state.is_paused == !m.clock_state.is_paused
            &&& m.on_key(Key::Char('p')).1 == seq![EffectModel::TogglePause]
        },
        (m.front_pane == FrontPane::AddTask || m.front_pane == FrontPane::EditTask) ==> {
            &&& m.on_key(Key::Esc) == (AppModel { front_pane: FrontPane::TaskPane, ..m }, Seq::<
                EffectModel,
            >::empty())
            &&& m.on_key(Key::Tab).0 == (AppModel { input: m.input.switched(), ..m })
            &&& m.on_key(Key::Char('q')) == (m, seq![EffectModel::EditInput])
        },
{
}

/// `r` on the clock runs the current task (the first when none ran) and shows
/// it and the task right after it in the queue; the clock shows it running,
/// and the last thing asked for is to start the clock on that task.
pub proof fn lemma_r_runs_current_and_shows_next(m: AppModel)
    requires
        m.front_pane == FrontPane::Clock,
        m.pane.wf(),
        0 < m.pane.tasks.len() <= usize::MAX,
        m.pane.current_in_range(),
    ensures
        ({
            let n = m.pane.tasks.len() as int;
            let i: int = match m.pane.current {
                Some(c) => c as int,
                None => 0,
            };
            let (after, e) = m.on_key(Key::Char('r'));
            &&& after.pane.current == Some(i as usize)
            &&& after.clock_state.current_task == Some(m.pane.tasks[i])
            &&& after.clock_state.next_task == Some(m.pane.tasks[(i + 1) % n])
            &&& !after.clock_state.is_paused
            &&& e.len() > 0 && e.last() == EffectModel::StartTask(m.pane.tasks[i])
            &&& after.front_pane == FrontPane::Clock
            &&& after.is_running == m.is_running
        }),
{
    lemma_current_and_next_is_the_next_task(m.pane);
}

/// In the task list `j` moves the focus one task on and `k` one task back
/// (round the queue), Enter makes the focused task the running one, and none
/// of them changes the screen or the tasks.
pub proof fn lemma_task_list_keys(m: AppModel)
    requires
        m.front_pane == FrontPane::TaskPane,
        m.pane.wf(),
        0 < m.pane.tasks.len() <= isize::MAX,
    ensures
        ({
            let n = m.pane.tasks.len() as int;
            let j = m.on_key(Key::Char('j')).0;
            let k = m.on_key(Key::Char('k')).0;
            let enter = m.on_key(Key::Enter).0;
            &&& j.front_pane == FrontPane::TaskPane && j.pane.tasks == m.pane.tasks
            &&& k.front_pane == FrontPane::TaskPane && k.pane.tasks == m.pane.tasks
            &&& (m.pane.focused matches Some(f) ==> (f + 1 - j.pane.focused->0) % n == 0)
            &&& (m.pane.focused matches Some(f) ==> (f - 1 - k.pane.focused->0) % n == 0)
            &&& j.pane.focused matches Some(g) && g < n
            &&& k.pane.focused matches Some(g) && g < n
            &&& enter.pane.current == m.pane.focused
            &&& enter.pane.tasks == m.pane.tasks
            &&& enter.front_pane == FrontPane::TaskPane
        }),
{
    lemma_focus_moves_by_offset(m.pane, 1);
    lemma_focus_moves_by_offset(m.pane, -1isize);
    lemma_focused_becomes_current(m.pane);
}

/// Confirming a complete dialog to add a task puts the typed task (trimmed
/// description, read duration) right after the focused task, focuses it and
/// goes back to the task list with the dialog cleared.
pub proof fn lemma_dialog_adds_after_focus(m: AppModel)
    requires
        m.front_pane == FrontPane::AddTask,
        m.pane.wf(),
        m.pane.tasks.len() <= usize::MAX,
        m.input.complete(),
    ensures
        ({
            let after = m.on_key(Key::Enter).0;
            let t = after.pane.tasks[after.pane.focused->0 as int];
            &&& after.front_pane == FrontPane::TaskPane
            &&& after.input == TaskInputView::cleared()
            &&& after.pane.tasks.len() == m.pane.tasks.len() + 1
            &&& after.pane.focused == Some(m.pane.insert_index())
            &&& t.content == crate::input::trimmed(m.input.content)
            &&& t.millis == crate::utils::parsed_millis(crate::input::trimmed(m.input.time))
            &&& (m.pane.focused matches Some(f) ==> after.pane.focused == Some((f + 1) as usize))
            &&& (m.pane.focused is None ==> after.pane.focused == Some(0usize))
        }),
{
    lemma_insert_goes_after_focus(m.pane, m.input.task());
}

/// `?` opens the help pane from the clock, and `?` again closes it: the
/// application is back where it was, and neither key asked for any work.
pub proof fn lemma_help_toggles(m: AppModel)
    requires
        m.front_pane == FrontPane::Clock,
    ensures
        m.on_key(Key::Char('?')).0.front_pane == FrontPane::Help,
        m.on_key(Key::Char('?')).0.on_key(Key::Char('?')).0 == m,
        m.on_key(Key::Char('?')).1.len() == 0,
        m.on_key(Key::Char('?')).0.on_key(Key::Char('?')).1.len() == 0,
{
}

/// Escape, pressed twice, brings the clock to the front from any pane and
/// changes nothing else.
pub proof fn lemma_escape_twice_reaches_clock(m: AppModel)
    ensures
        m.on_key(Key::Esc).0.on_key(Key::Esc).0 == (AppModel { front_pane: FrontPane::Clock, ..m }),
        m.on_key(Key::Esc).1.len() == 0,
        m.on_key(Key::Esc).0.on_key(Key::Esc).1.len() == 0,
{
}

/// Pausing twice gives the clock screen back as it was, and asks the timer
/// to toggle twice.
pub proof fn lemma_pause_twice(m: AppModel)
    requires
        m.front_pane == FrontPane::Clock,
    ensures
        m.on_key(Key::Char('p')).0.on_key(Key::Char('p')).0 == m,
        m.on_key(Key::Char('p')).1 == seq![EffectModel::TogglePause],
{
}

/// A rectangle of terminal cells.
#[derive(Debug, Clone, Copy, PartialEq, Eq, Structural)]
pub struct Area {
    pub x: u16,
    pub y: u16,
    pub width: u16,
    pub height: u16,
}

/// The middle one of the three rows into which ratatui's layout solver splits
/// `area` when the rows take `top`, `middle` and `bottom` percent of it
/// (which add up to at most 100).
pub uninterp spec fn middle_row(area: Area, top: u16, middle: u16, bottom: u16) -> Area;

/// The middle one of the three columns into which ratatui's layout solver
/// splits `area` when the columns take `left`, `middle` and `right` percent
/// (which add up to at most 100).
pub uninterp spec fn middle_column(area: Area, left: u16, middle: u16, right: u16) -> Area;

/// `ratatui::layout::Layout::vertical` with three percentage constraints,
/// then `Layout::split`; the middle part.  Trusted: `split` gives one part
/// per constraint, so the middle one exists; with percentages that add up to
/// at most 100 every one of them is met and the rest goes to the last gap, so
/// the result depends on the area and the constraints alone (with more, the
/// solver picks among equal splits at random, so such calls are excluded);
/// and the solver's
/// required constraints keep every part between the area's top and bottom,
/// with the area's columns.
#[verifier::external_body]
fn split_middle_row(area: Area, top: u16, middle: u16, bottom: u16) -> (part: Area)
    requires
        top + middle + bottom <= 100,
    ensures
        part == middle_row(area, top, middle, bottom),
        part.x == area.x,
        part.width == area.width,
        area.y <= part.y,
        part.y + part.height <= area.y + area.height,
{
    let rect = Rect { x: area.x, y: area.y, width: area.width, height: area.height };
    let parts = Layout::vertical(
        [Constraint::Percentage(top), Constraint::Percentage(middle), Constraint::Percentage(bottom)],
    ).split(rect);
    Area { x: parts[1].x, y: parts[1].y, width: parts[1].width, height: parts[1].height }
}

/// `ratatui::layout::Layout::horizontal` with three percentage constraints,
/// then `Layout::split`; the middle part.  Trusted as `split_middle_row`:
/// every part lies between the area's left and right edges, with its rows.
#[verifier::external_body]
fn split_middle_column(area: Area, left: u16, middle: u16, right: u16) -> (part: Area)
    requires
        left + middle + right <= 100,
    ensures
        part == middle_column(area, left, middle, right),
        part.y == area.y,
        part.height == area.height,
        area.x <= part.x,
        part.x + part.width <= area.x + area.width,
{
    let rect = Rect { x: area.x, y: area.y, width: area.width, height: area.height };
    let parts = Layout::horizontal(
        [Constraint::Percentage(left), Constraint::Percentage(middle), Constraint::Percentage(right)],
    ).split(rect);
    Area { x: parts[1].x, y: parts[1].y, width: parts[1].width, height: parts[1].height }
}

/// The part of `r` centred in it that takes `percent_x` percent of its width
/// and `percent_y` percent of its height: the middle of three rows
/// (the rest split evenly above and below), then the middle of three columns
/// of that row.  The result lies inside `r`.
pub fn centered_rect(percent_x: u16, percent_y: u16, r: Area) -> (area: Area)
    requires
        percent_x <= 100,
        percent_y <= 100,
    ensures
        area == middle_column(
            middle_row(r, ((100 - percent_y) / 2) as u16, percent_y, ((100 - percent_y) / 2) as u16),
            ((100 - percent_x) / 2) as u16,
            percent_x,
            ((100 - percent_x) / 2) as u16,
        ),
        r.x <= area.x,
        area.x + area.width <= r.x + r.width,
        r.y <= area.y,
        area.y + area.height <= r.y + r.height,
{
    let margin_y = (100 - percent_y) / 2;
    let row = split_middle_row(r, margin_y, percent_y, margin_y);
    let margin_x = (100 - percent_x) / 2;
    split_middle_column(row, margin_x, percent_x, margin_x)
}

} // verus!
