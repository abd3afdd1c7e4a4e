use crock::clock::error::TimerError;
use crock::clock::timer::{Timer, TimerStep};

#[test]
fn a_run_counts_down_a_second_per_tick() {
    let mut timer = Timer::new();
    let run = timer.start_run(2_500).unwrap();
    assert_eq!(timer.step(run), TimerStep::Tick(1_500));
    assert_eq!(timer.step(run), TimerStep::Tick(500));
    assert_eq!(timer.step(run), TimerStep::Tick(-500));
    assert_eq!(timer.step(run), TimerStep::Finished);
    assert!(!timer.is_running());
    assert_eq!(timer.step(run), TimerStep::Ended);
}

#[test]
fn a_paused_timer_waits() {
    let mut timer = Timer::new();
    let run = timer.start_run(3_000).unwrap();
    timer.pause_run();
    assert_eq!(timer.step(run), TimerStep::Wait);
    assert_eq!(timer.left_millis(), 3_000);
    timer.continue_run();
    assert_eq!(timer.step(run), TimerStep::Tick(2_000));
}

#[test]
fn a_counting_timer_refuses_a_new_start() {
    let mut timer = Timer::new();
    timer.start_run(3_000).unwrap();
    assert_eq!(timer.start_run(10_000), Err(TimerError::StillRunning));
    assert_eq!(timer.left_millis(), 3_000);
    assert!(timer.is_running());
}

#[test]
fn a_restart_replaces_the_counting_run() {
    let mut timer = Timer::new();
    let first = timer.start_run(3_000).unwrap();
    assert_eq!(timer.step(first), TimerStep::Tick(2_000));
    let second = timer.restart_run(10_000);
    assert_ne!(first, second);
    assert_eq!(timer.step(first), TimerStep::Ended);
    assert_eq!(timer.left_millis(), 10_000);
    assert_eq!(timer.step(second), TimerStep::Tick(9_000));
}

#[test]
fn a_stopped_run_stays_ended_even_when_let_go_on() {
    let mut timer = Timer::new();
    let run = timer.start_run(3_000).unwrap();
    timer.stop_run();
    assert_eq!(timer.left_millis(), 0);
    assert!(!timer.is_running());
    timer.continue_run();
    assert_eq!(timer.step(run), TimerStep::Ended);
    timer.toggle_pause();
    assert_eq!(timer.step(run), TimerStep::Ended);
}

#[test]
fn a_stopped_timer_accepts_a_new_run() {
    let mut timer = Timer::new();
    timer.start_run(3_000).unwrap();
    timer.stop_run();
    let run = timer.start_run(10_000).unwrap();
    assert_eq!(timer.left_millis(), 10_000);
    assert_eq!(timer.step(run), TimerStep::Tick(9_000));
}

#[test]
fn a_finished_timer_accepts_a_new_run() {
    let mut timer = Timer::new();
    let run = timer.start_run(500).unwrap();
    assert_eq!(timer.step(run), TimerStep::Tick(-500));
    assert_eq!(timer.step(run), TimerStep::Finished);
    assert!(timer.start_run(1_000).is_ok());
}

#[test]
fn toggling_pause_twice_changes_nothing() {
    let mut timer = Timer::new();
    timer.start_run(3_000).unwrap();
    timer.toggle_pause();
    assert!(!timer.is_running());
    timer.toggle_pause();
    assert!(timer.is_running());
}

#[test]
fn a_zero_length_run_finishes_at_once() {
    let mut timer = Timer::new();
    let run = timer.start_run(0).unwrap();
    assert_eq!(timer.step(run), TimerStep::Finished);
}

#[test]
fn timer_error_message() {
    assert_eq!(TimerError::StillRunning.message(), "timer is still running");
}
