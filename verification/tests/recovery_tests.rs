use archway::engine::JobEngine;
use archway::jobs::JobInfo;
use archway::recovery::{
    load_manifest, recovery_action, recovery_allowed, verify_manifest, ManifestStatus,
    RecoveryAction, RecoveryState,
};
use archway::store::JobStore;

#[test]
fn valid_manifest_passes() {
    let text = r#"[["/backup/a.txt", "/home/a.txt"], ["/backup/b.txt", "/home/b.txt"]]"#;
    assert!(verify_manifest(text) == ManifestStatus::Valid);
    let entries = load_manifest(text).unwrap();
    assert_eq!(entries.len(), 2);
    assert_eq!(entries[0][0], "/backup/a.txt");
    assert_eq!(entries[1][1], "/home/b.txt");
}

#[test]
fn entry_with_wrong_arity_is_rejected_without_panicking() {
    let three = r#"[["/a", "/b", "/c"]]"#;
    assert!(verify_manifest(three) == ManifestStatus::InvalidEntry);
    assert!(load_manifest(three).is_none());
    let one = r#"[["/a"]]"#;
    assert!(verify_manifest(one) == ManifestStatus::InvalidEntry);
    let empty_entry = r#"[[]]"#;
    assert!(verify_manifest(empty_entry) == ManifestStatus::InvalidEntry);
}

#[test]
fn empty_path_strings_are_rejected() {
    let text = r#"[["", "/dest"]]"#;
    assert!(verify_manifest(text) == ManifestStatus::InvalidEntry);
}

#[test]
fn non_json_text_is_unreadable() {
    assert!(verify_manifest("not json at all") == ManifestStatus::Unreadable);
    assert!(verify_manifest(r#"{"a": 1}"#) == ManifestStatus::Unreadable);
    assert!(load_manifest("[1, 2]").is_none());
}

#[test]
fn status_messages_are_well_formed() {
    assert_eq!(ManifestStatus::Valid.message(), "Valid");
    assert!(ManifestStatus::InvalidEntry.message().starts_with("Error:"));
    assert!(ManifestStatus::Unreadable.message().starts_with("Error:"));
}

#[test]
fn missing_source_is_logged_not_copied() {
    let action = recovery_action("Overwrite Existing Files", false, true, None, Some(5));
    assert!(action == RecoveryAction::LogMissingSource);
}

#[test]
fn missing_destination_is_always_restored() {
    for policy in ["Skip Existing Files", "Overwrite Existing Files", "Keep Most Recently Updated Files"] {
        let action = recovery_action(policy, true, false, Some(1), None);
        assert!(action == RecoveryAction::CopyToNew);
    }
}

#[test]
fn skip_policy_keeps_existing_destinations() {
    let action = recovery_action("Skip Existing Files", true, true, Some(9), Some(1));
    assert!(action == RecoveryAction::Skip);
}

#[test]
fn overwrite_policy_always_overwrites_existing() {
    let action = recovery_action("Overwrite Existing Files", true, true, Some(1), Some(9));
    assert!(action == RecoveryAction::Overwrite);
}

#[test]
fn keep_most_recent_overwrites_only_strictly_newer_sources() {
    let policy = "Keep Most Recently Updated Files";
    assert!(recovery_action(policy, true, true, Some(10), Some(5)) == RecoveryAction::Overwrite);
    // equal modification times must not overwrite
    assert!(recovery_action(policy, true, true, Some(7), Some(7)) == RecoveryAction::Skip);
    assert!(recovery_action(policy, true, true, Some(3), Some(8)) == RecoveryAction::Skip);
    assert!(recovery_action(policy, true, true, None, Some(8)) == RecoveryAction::Skip);
    assert!(recovery_action(policy, true, true, Some(3), None) == RecoveryAction::Overwrite);
}

#[test]
fn recovery_state_tracks_progress_and_logs() {
    let mut state = RecoveryState::new();
    assert_eq!(state.progress_permille, -1);
    state.set_progress(1, 4);
    assert_eq!(state.progress_permille, 250);
    state.push_log("Could not recover /dest, original missing: /src".to_string());
    state.mark_complete();
    assert_eq!(state.progress_permille, 1000);
    let logs = state.get_recovery_logs();
    assert_eq!(logs.len(), 1);
    assert!(logs[0].contains("/dest"));
    state.clear_recovery_status();
    assert_eq!(state.progress_permille, -1);
    assert!(state.get_recovery_logs().is_empty());
}

#[test]
fn recovery_waits_for_live_jobs() {
    let mut store = JobStore::new();
    store.set_all_jobs(vec![JobInfo {
        job_name: "j".to_string(),
        uuid: "j1".to_string(),
        file_behavior: "copy".to_string(),
        input_dirs: Vec::new(),
        output_dir: "/out".to_string(),
        output_device: "special:any".to_string(),
        copies: 1,
        portable: false,
        new_folder: true,
        file_filters: Vec::new(),
        triggers: Vec::new(),
        version: 1,
    }]);
    let mut engine = JobEngine::new();
    assert!(recovery_allowed(&engine));
    engine.start_job(&store, "j1".to_string());
    assert!(!recovery_allowed(&engine));
    engine.complete_job("j1", 4, "done".to_string());
    assert!(recovery_allowed(&engine));
}
