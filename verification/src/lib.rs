//! Verified core of a terminal Pomodoro timer and task queue.

pub mod text;

pub mod utils;
pub mod app;
pub mod tasks;
pub mod clock;
pub mod config;
pub mod help;
pub mod input;
