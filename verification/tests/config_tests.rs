use crock::config::{config_tasks, Config, ConfigTask};
use crock::tasks::Task;

#[test]
fn presets_become_tasks_in_order() {
    let config = Config {
        tasks: vec![
            ConfigTask { desc: "write".to_string(), time: "25min".to_string() },
            ConfigTask { desc: "break".to_string(), time: "5m".to_string() },
        ],
    };
    let tasks = config_tasks(&config);
    assert_eq!(tasks.len(), 2);
    assert_eq!(tasks[0].content, "write");
    assert_eq!(tasks[0].millis, 1_500_000);
    assert_eq!(tasks[1].content, "break");
    assert_eq!(tasks[1].millis, 300_000);
}

#[test]
fn an_empty_configuration_has_no_tasks() {
    assert!(config_tasks(&Config::new()).is_empty());
}

#[test]
fn a_preset_keeps_its_description_untrimmed() {
    let task = Task::from_config(&ConfigTask { desc: " a ".to_string(), time: "1h".to_string() });
    assert_eq!(task.content, " a ");
    assert_eq!(task.millis, 3_600_000);
}
