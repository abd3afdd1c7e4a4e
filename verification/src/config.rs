//! Tasks preset in the configuration file.
use crate::tasks::Task;
use crate::utils::{parse_time, parsed_millis};
use vstd::prelude::*;

verus! {

/// The configuration: the tasks to start with.
#[derive(Debug)]
pub struct Config {
    pub tasks: Vec<ConfigTask>,
}

/// A preset task: its description and its duration in the time grammar.
#[derive(Debug)]
pub struct ConfigTask {
    pub desc: String,
    pub time: String,
}

impl Config {
    /// A configuration without tasks.
    pub fn new() -> (c: Config)
        ensures
            c.tasks@.len() == 0,
    {
        Config { tasks: Vec::new() }
    }
}

impl Task {
    /// The task a preset describes.
    pub fn from_config(value: &ConfigTask) -> (task: Task)
        ensures
            task.content@ == value.desc@,
            task.millis == parsed_millis(value.time@),
    {
        Task { content: value.desc.clone(), millis: parse_time(value.time.as_str()) }
    }
}

/// The tasks that the presets describe, in order.
pub fn config_tasks(config: &Config) -> (tasks: Vec<Task>)
    ensures
        tasks@.len() == config.tasks@.len(),
        forall|i: int|
            0 <= i < tasks@.len() ==> (#[trigger] tasks@[i]).content@ == config.tasks@[i].desc@
                && tasks@[i].millis == parsed_millis(config.tasks@[i].time@),
{
    let mut tasks: Vec<Task> = Vec::new();
    let mut i: usize = 0;
    while i < config.tasks.len()
        invariant
            i <= config.tasks.len(),
            tasks@.len() == i,
            forall|k: int|
                0 <= k < i ==> (#[trigger] tasks@[k]).content@ == config.tasks@[k].desc@
                    && tasks@[k].millis == parsed_millis(config.tasks@[k].time@),
        decreases config.tasks.len() - i,
    {
        tasks.push(Task::from_config(&config.tasks[i]));
        i += 1;
    }
    tasks
}

} // verus!
