use archway::engine::{CheckpointAction, JobEngine};
use archway::jobs::{JobInfo, JobStatus};
use archway::store::JobStore;

fn make_job(uuid: &str, behavior: &str) -> JobInfo {
    JobInfo {
        job_name: format!("job {uuid}"),
        uuid: uuid.to_string(),
        file_behavior: behavior.to_string(),
        input_dirs: Vec::new(),
        output_dir: "/out".to_string(),
        output_device: "special:any".to_string(),
        copies: 1,
        portable: false,
        new_folder: true,
        file_filters: Vec::new(),
        triggers: Vec::new(),
        version: 1,
    }
}

fn store_with(jobs: Vec<JobInfo>) -> JobStore {
    let mut store = JobStore::new();
    store.set_all_jobs(jobs);
    store
}

#[test]
fn copy_job_has_four_steps_and_move_job_five() {
    let store = store_with(vec![make_job("c1", "copy"), make_job("m1", "move")]);
    let mut engine = JobEngine::new();
    assert!(engine.start_job(&store, "c1".to_string()));
    assert!(engine.start_job(&store, "m1".to_string()));
    let statuses = engine.get_all_job_statuses();
    let copy_status = statuses.iter().find(|s| s.job.uuid == "c1").unwrap();
    let move_status = statuses.iter().find(|s| s.job.uuid == "m1").unwrap();
    assert_eq!(copy_status.total_steps, 4);
    assert_eq!(move_status.total_steps, 5);
}

#[test]
fn second_start_is_refused_while_first_run_lives() {
    let store = store_with(vec![make_job("u1", "copy")]);
    let mut engine = JobEngine::new();
    assert!(engine.start_job(&store, "u1".to_string()));
    assert!(!engine.start_job(&store, "u1".to_string()));
    let statuses = engine.get_all_job_statuses();
    assert_eq!(statuses.len(), 1);
    assert_eq!(statuses[0].job.uuid, "u1");
    assert!(!statuses[0].completed);
}

#[test]
fn start_after_completion_replaces_the_stale_status() {
    let store = store_with(vec![make_job("u1", "copy")]);
    let mut engine = JobEngine::new();
    assert!(engine.start_job(&store, "u1".to_string()));
    engine.complete_job("u1", 4, "done".to_string());
    assert!(engine.start_job(&store, "u1".to_string()));
    let statuses = engine.get_all_job_statuses();
    assert_eq!(statuses.len(), 1);
    assert!(!statuses[0].completed);
}

#[test]
fn fresh_status_fields() {
    let store = store_with(vec![make_job("u1", "copy")]);
    let mut engine = JobEngine::new();
    engine.start_job(&store, "u1".to_string());
    let statuses = engine.get_all_job_statuses();
    assert_eq!(statuses[0].step, 0);
    assert_eq!(statuses[0].step_title, "Initializing Job");
    assert_eq!(statuses[0].last_action, "Starting job...");
    assert!(statuses[0].success);
    assert!(!statuses[0].completed);
    assert_eq!(engine.get_job_update("u1".to_string()), "running");
}

#[test]
fn unknown_job_reads_not_running() {
    let engine = JobEngine::new();
    assert_eq!(engine.get_job_update("nobody".to_string()), "not_running");
}

#[test]
fn stop_request_clears_command_and_fails_the_run() {
    let store = store_with(vec![make_job("u1", "copy")]);
    let mut engine = JobEngine::new();
    engine.start_job(&store, "u1".to_string());
    engine.set_job_update("u1".to_string(), "stop_requested".to_string());
    let action = engine.handle_pause_stop("u1".to_string());
    assert!(action == CheckpointAction::Stopped);
    // command state cleared: neither paused nor running
    assert_eq!(engine.get_job_update("u1".to_string()), "not_running");
    let statuses = engine.get_all_job_statuses();
    assert!(statuses[0].completed);
    assert!(!statuses[0].success);
    assert_eq!(statuses[0].step_title, "Job Stopped");
}

#[test]
fn pause_request_turns_into_waiting() {
    let store = store_with(vec![make_job("u1", "copy")]);
    let mut engine = JobEngine::new();
    engine.start_job(&store, "u1".to_string());
    engine.set_job_update("u1".to_string(), "pause_requested".to_string());
    assert!(engine.handle_pause_stop("u1".to_string()) == CheckpointAction::Wait);
    assert_eq!(engine.get_job_update("u1".to_string()), "paused");
    // still paused: keep waiting
    assert!(engine.handle_pause_stop("u1".to_string()) == CheckpointAction::Wait);
    // resumed: proceed
    engine.set_job_update("u1".to_string(), "running".to_string());
    assert!(engine.handle_pause_stop("u1".to_string()) == CheckpointAction::Proceed);
}

#[test]
fn clear_completed_removes_only_finished_runs() {
    let store = store_with(vec![make_job("a", "copy"), make_job("b", "copy")]);
    let mut engine = JobEngine::new();
    engine.start_job(&store, "a".to_string());
    engine.start_job(&store, "b".to_string());
    engine.complete_job("a", 4, "done".to_string());
    engine.clear_completed_jobs();
    let statuses = engine.get_all_job_statuses();
    assert_eq!(statuses.len(), 1);
    assert_eq!(statuses[0].job.uuid, "b");
}

#[test]
fn active_count_ignores_completed_runs() {
    let store = store_with(vec![make_job("a", "copy"), make_job("b", "copy")]);
    let mut engine = JobEngine::new();
    assert_eq!(engine.get_active_jobs(), 0);
    engine.start_job(&store, "a".to_string());
    engine.start_job(&store, "b".to_string());
    assert_eq!(engine.get_active_jobs(), 2);
    engine.complete_job("b", 4, "done".to_string());
    assert_eq!(engine.get_active_jobs(), 1);
}

#[test]
fn clear_job_removes_the_entry() {
    let store = store_with(vec![make_job("a", "copy")]);
    let mut engine = JobEngine::new();
    engine.start_job(&store, "a".to_string());
    assert!(engine.clear_job("a"));
    assert!(!engine.clear_job("a"));
    assert!(engine.get_all_job_statuses().is_empty());
}

#[test]
fn update_status_rewrites_reported_fields() {
    let store = store_with(vec![make_job("a", "copy")]);
    let mut engine = JobEngine::new();
    engine.start_job(&store, "a".to_string());
    engine.update_job_status(
        "a",
        3,
        "Copying Files".to_string(),
        "Copying file: x (1/2)".to_string(),
        true,
        false,
        500,
    );
    let statuses = engine.get_all_job_statuses();
    assert_eq!(statuses[0].step, 3);
    assert_eq!(statuses[0].step_title, "Copying Files");
    assert_eq!(statuses[0].progress_permille, 500);
    engine.update_last_action("a", "Copied file: x (2/2)".to_string());
    engine.update_job_progress("a", 1000);
    let statuses = engine.get_all_job_statuses();
    assert_eq!(statuses[0].last_action, "Copied file: x (2/2)");
    assert_eq!(statuses[0].progress_permille, 1000);
}

#[test]
fn fail_job_is_terminal_and_clears_the_command() {
    let store = store_with(vec![make_job("a", "copy")]);
    let mut engine = JobEngine::new();
    engine.start_job(&store, "a".to_string());
    engine.fail_job("a", 2, "Job failed.".to_string(), "Drive does not exist.".to_string());
    let statuses = engine.get_all_job_statuses();
    assert!(statuses[0].completed);
    assert!(!statuses[0].success);
    assert_eq!(statuses[0].step_title, "Job failed.");
    assert_eq!(engine.get_job_update("a".to_string()), "not_running");
}

#[test]
fn indeterminate_progress_is_the_negative_sentinel() {
    let status = JobStatus {
        job: make_job("a", "copy"),
        step: 1,
        total_steps: 4,
        step_title: "Indexing Files".to_string(),
        last_action: "Getting all input folders...".to_string(),
        success: true,
        completed: false,
        progress_permille: -1,
    };
    assert_eq!(status.progress_permille, -1);
}
