//! Tests for the task registry, the tick decisions, the control plane and
//! the shutdown condition.

use periodic::registry::{ControlEntry, TaskStateDb, TickAction};
use periodic::task::TaskMode;

fn entry(name: &str, mode: TaskMode) -> ControlEntry {
    ControlEntry {
        name: String::from(name),
        mode,
    }
}

#[test]
fn test_registry_registers_and_finds_tasks() {
    let mut db = TaskStateDb::new(false);
    assert!(!db.contains_task("alpha"));
    db.add_new_task("alpha", 1);
    db.add_new_task("beta", 2);
    assert!(db.contains_task("alpha"));
    assert!(db.contains_task("beta"));
    assert!(!db.contains_task("gamma"));
    assert_eq!(db.get_task_mode("alpha"), TaskMode::Run);
    assert_eq!(db.count_runnable(), 2);
}

#[test]
fn test_registry_duplicate_registration_is_noop() {
    let mut db = TaskStateDb::new(false);
    db.add_new_task("alpha", 1);
    assert!(db.init_process_if_allowed("alpha"));
    // A second registration must not reset the counter or add an entry.
    db.add_new_task("alpha", 1);
    assert_eq!(db.count_runnable(), 1);
    assert!(!db.init_process_if_allowed("alpha"));
}

#[test]
fn test_concurrency_cap_is_enforced() {
    let mut db = TaskStateDb::new(false);
    db.add_new_task("alpha", 2);
    assert!(db.init_process_if_allowed("alpha"));
    assert!(db.init_process_if_allowed("alpha"));
    // The cap is reached: no further invocation is admitted.
    assert!(!db.init_process_if_allowed("alpha"));
    assert!(!db.init_process_if_allowed("alpha"));
    // One invocation ends; exactly one slot opens again.
    db.cleanup_failed_process("alpha");
    assert!(db.init_process_if_allowed("alpha"));
    assert!(!db.init_process_if_allowed("alpha"));
}

#[test]
fn test_begin_and_end_balance() {
    let mut db = TaskStateDb::new(false);
    db.add_new_task("alpha", 1);
    // Successful launch: begin, record the pid, finish on termination.
    assert!(db.init_process_if_allowed("alpha"));
    db.start_process(4711);
    let still_running = db.finish_process("alpha", 4711, );
    assert_eq!(still_running, 0);
    // The registry is back where it started: a new invocation is admitted.
    assert!(db.init_process_if_allowed("alpha"));
    // Spawn failure: the counter is released immediately and synchronously.
    db.cleanup_failed_process("alpha");
    assert!(db.init_process_if_allowed("alpha"));
}

#[test]
fn test_finish_process_reports_remaining() {
    let mut db = TaskStateDb::new(false);
    db.add_new_task("alpha", 3);
    assert!(db.init_process_if_allowed("alpha"));
    assert!(db.init_process_if_allowed("alpha"));
    assert!(db.init_process_if_allowed("alpha"));
    db.start_process(11);
    db.start_process(12);
    db.start_process(13);
    assert_eq!(db.finish_process("alpha", 12), 2);
    assert_eq!(db.finish_process("alpha", 11), 1);
    assert_eq!(db.finish_process("alpha", 13), 0);
}

#[test]
fn test_stop_returns_active_pid_snapshot() {
    let mut db = TaskStateDb::new(false);
    db.add_new_task("alpha", 2);
    assert!(db.init_process_if_allowed("alpha"));
    assert!(db.init_process_if_allowed("alpha"));
    db.start_process(100);
    db.start_process(200);
    assert_eq!(db.set_all_task_modes(TaskMode::Pause), None);
    assert_eq!(db.set_all_task_modes(TaskMode::Run), None);
    let pids = db.set_all_task_modes(TaskMode::Stop);
    assert_eq!(pids, Some(vec![100, 200]));
    assert!(!db.propagates_to_children());
    assert!(TaskStateDb::new(true).propagates_to_children());
}

#[test]
fn test_pause_then_run_restores_eligibility() {
    let mut db = TaskStateDb::new(false);
    db.add_new_task("alpha", 1);
    assert!(db.init_process_if_allowed("alpha"));
    db.set_all_task_modes(TaskMode::Pause);
    assert_eq!(db.get_task_mode("alpha"), TaskMode::Pause);
    db.set_all_task_modes(TaskMode::Run);
    // Eligible again, and the counter was not altered: the single slot is
    // still taken.
    assert_eq!(db.get_task_mode("alpha"), TaskMode::Run);
    assert_eq!(db.handle_tick("alpha"), TickAction::AtMaxConcurrent);
    assert_eq!(db.finish_process("alpha", 0), 0);
    assert_eq!(db.handle_tick("alpha"), TickAction::Invoke);
}

#[test]
fn test_tick_actions_follow_mode() {
    let mut db = TaskStateDb::new(false);
    db.add_new_task("alpha", 1);
    db.set_task_mode("alpha", TaskMode::Pause);
    assert_eq!(db.handle_tick("alpha"), TickAction::SkipPaused);
    db.set_task_mode("alpha", TaskMode::Stop);
    assert_eq!(db.handle_tick("alpha"), TickAction::SkipStopped);
    db.set_task_mode("alpha", TaskMode::Run);
    assert_eq!(db.handle_tick("alpha"), TickAction::Invoke);
    assert_eq!(db.handle_tick("alpha"), TickAction::AtMaxConcurrent);
}

#[test]
fn test_count_runnable_terminal_condition() {
    let mut db = TaskStateDb::new(false);
    db.add_new_task("alpha", 1);
    db.add_new_task("beta", 1);
    assert_eq!(db.count_runnable(), 2);
    // A stopped task with a running invocation is still runnable.
    assert!(db.init_process_if_allowed("alpha"));
    db.set_all_task_modes(TaskMode::Stop);
    assert_eq!(db.count_runnable(), 1);
    // Draining the last invocation reaches the terminal condition.
    db.finish_process("alpha", 1);
    assert_eq!(db.count_runnable(), 0);
}

#[test]
fn test_control_file_updates_modes() {
    let mut db = TaskStateDb::new(false);
    db.add_new_task("alpha", 1);
    db.add_new_task("beta", 1);
    let entries = vec![
        entry("alpha", TaskMode::Pause),
        entry("beta", TaskMode::Stop),
    ];
    db.set_task_modes_from_control_file(&entries);
    assert_eq!(db.get_task_mode("alpha"), TaskMode::Pause);
    assert_eq!(db.get_task_mode("beta"), TaskMode::Stop);
    // The later of two entries for one task wins.
    let entries = vec![entry("alpha", TaskMode::Stop), entry("alpha", TaskMode::Run)];
    db.set_task_modes_from_control_file(&entries);
    assert_eq!(db.get_task_mode("alpha"), TaskMode::Run);
}

#[test]
fn test_control_file_unknown_name_has_no_effect() {
    let mut db = TaskStateDb::new(false);
    db.add_new_task("alpha", 1);
    let entries = vec![entry("ghost", TaskMode::Stop)];
    db.set_task_modes_from_control_file(&entries);
    assert_eq!(db.get_task_mode("alpha"), TaskMode::Run);
    assert!(!db.contains_task("ghost"));
    assert_eq!(db.count_runnable(), 1);
}

#[test]
fn test_monitor_step_applies_entries_and_reports_done() {
    let mut db = TaskStateDb::new(false);
    db.add_new_task("alpha", 1);
    let no_entries: Vec<ControlEntry> = Vec::new();
    assert!(!db.monitor_step(&no_entries));
    let entries = vec![entry("alpha", TaskMode::Stop)];
    assert!(db.monitor_step(&entries));
}
