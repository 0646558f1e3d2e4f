use archway::drives::{
    get_root_drive, identity_string, resolve_identity, upsert_job_in_marker, IdentityResolution,
    MarkerRead,
};
use archway::health::{job_failed_notification, HealthMap};
use archway::jobs::{DriveInfoFile, InputFile, JobInfo};
use archway::logging::{job_log, log_error, log_info};
use archway::pipeline::resolve_input_roots;
use archway::settings::{fill_default_settings, SettingsJSON};
use archway::store::JobStore;
use archway::strings::{parse_u8, u32_to_string};

fn make_job(uuid: &str) -> JobInfo {
    JobInfo {
        job_name: format!("job {uuid}"),
        uuid: uuid.to_string(),
        file_behavior: "copy".to_string(),
        input_dirs: Vec::new(),
        output_dir: "/out".to_string(),
        output_device: "special:any".to_string(),
        copies: 1,
        portable: false,
        new_folder: true,
        file_filters: Vec::new(),
        triggers: Vec::new(),
        version: 1,
    }
}

#[test]
fn store_roundtrip_and_removal() {
    let mut store = JobStore::new();
    assert!(store.set_all_jobs(vec![make_job("a"), make_job("b")]));
    assert_eq!(store.get_all_jobs().len(), 2);
    assert_eq!(store.get_job_by_uuid("b").uuid, "b");
    assert!(store.remove_job_by_uuid("a"));
    assert!(!store.remove_job_by_uuid("a"));
    assert_eq!(store.get_all_jobs().len(), 1);
}

#[test]
fn upsert_replaces_by_uuid() {
    let mut store = JobStore::new();
    store.upsert_job(make_job("a"));
    let mut edited = make_job("a");
    edited.job_name = "renamed".to_string();
    store.upsert_job(edited);
    assert_eq!(store.get_all_jobs().len(), 1);
    assert_eq!(store.get_job_by_uuid("a").job_name, "renamed");
    store.upsert_job(make_job("b"));
    assert_eq!(store.get_all_jobs().len(), 2);
}

#[test]
fn setup_job_resolves_the_this_volume_wildcard() {
    let mut store = JobStore::new();
    let mut job = make_job("a");
    job.output_device = "special:thisdrive".to_string();
    assert!(!store.setup_job(job.clone(), None));
    assert!(store.get_all_jobs().is_empty());
    assert!(!store.setup_job(job.clone(), Some(String::new())));
    assert!(store.setup_job(job, Some("vol-9".to_string())));
    assert_eq!(store.get_job_by_uuid("a").output_device, "vol-9");
}

#[test]
fn setup_job_keeps_concrete_devices() {
    let mut store = JobStore::new();
    let mut job = make_job("a");
    job.output_device = "vol-1".to_string();
    assert!(store.setup_job(job, None));
    assert_eq!(store.get_job_by_uuid("a").output_device, "vol-1");
}

#[test]
fn root_drive_of_windows_and_unix_paths() {
    assert_eq!(get_root_drive("C:\\Users\\me"), Some("C:".to_string()));
    assert_eq!(get_root_drive("d:/data"), Some("d:".to_string()));
    assert_eq!(get_root_drive("/mnt/backup"), Some("/".to_string()));
    assert_eq!(get_root_drive("relative/path"), None);
    assert_eq!(get_root_drive(""), None);
}

#[test]
fn identity_is_kept_generated_or_refused() {
    let existing = resolve_identity(MarkerRead::Parsed(DriveInfoFile {
        uuid: "vol-1".to_string(),
        jobs: Vec::new(),
    }));
    assert_eq!(identity_string(&existing), "vol-1");

    let created = resolve_identity(MarkerRead::Absent);
    match &created {
        IdentityResolution::Created { identity, marker } => {
            assert_eq!(identity, &marker.uuid);
            assert!(marker.jobs.is_empty());
            // a freshly generated identity is a hyphenated uuid
            assert_eq!(identity.len(), 36);
        },
        _ => panic!("a missing marker must create an identity"),
    }
    assert!(!identity_string(&created).is_empty());

    let unreadable = resolve_identity(MarkerRead::Unreadable);
    assert_eq!(identity_string(&unreadable), "");
}

#[test]
fn fresh_identities_differ_between_calls() {
    let a = identity_string(&resolve_identity(MarkerRead::Absent));
    let b = identity_string(&resolve_identity(MarkerRead::Absent));
    assert_ne!(a, b);
}

#[test]
fn marker_upsert_replaces_or_appends() {
    let mut marker = DriveInfoFile { uuid: "vol".to_string(), jobs: vec![make_job("a")] };
    let mut edited = make_job("a");
    edited.job_name = "new name".to_string();
    upsert_job_in_marker(&mut marker, &edited);
    assert_eq!(marker.jobs.len(), 1);
    assert_eq!(marker.jobs[0].job_name, "new name");
    upsert_job_in_marker(&mut marker, &make_job("b"));
    assert_eq!(marker.jobs.len(), 2);
    assert_eq!(marker.uuid, "vol");
}

#[test]
fn health_records_are_stamped() {
    let mut health = HealthMap::new();
    assert_eq!(health.get_job_health_by_uuid("a"), "none");
    assert!(health.set_job_health_by_uuid("a", "good"));
    let value = health.get_job_health_by_uuid("a");
    assert!(value.starts_with("good/"), "got {value}");
    health.set_job_health_by_uuid("a", "bad");
    assert!(health.get_job_health_by_uuid("a").starts_with("bad/"));
    assert_eq!(health.get_all_job_health().len(), 1);
}

#[test]
fn health_map_replacement() {
    let mut health = HealthMap::new();
    assert!(health.set_all_job_health(vec![
        ("a".to_string(), "good/2024".to_string()),
        ("b".to_string(), "bad/2024".to_string()),
    ]));
    assert_eq!(health.get_job_health_by_uuid("b"), "bad/2024");
}

#[test]
fn failed_jobs_are_recorded_and_announced() {
    let mut health = HealthMap::new();
    let note = job_failed_notification(&mut health, "u1", "Weekly photos");
    assert_eq!(note.title, "Job Failed: Weekly photos");
    assert_eq!(note.body, "The job has failed. See status for details.");
    assert!(health.get_job_health_by_uuid("u1").starts_with("bad/"));
}

#[test]
fn settings_defaults_fill_missing_fields_only() {
    let mut empty = SettingsJSON { run_on_startup: None, log_level: None };
    fill_default_settings(&mut empty);
    assert_eq!(empty.run_on_startup, Some(true));
    assert_eq!(empty.log_level.as_deref(), Some("low"));

    let mut set = SettingsJSON { run_on_startup: Some(false), log_level: Some("high".to_string()) };
    fill_default_settings(&mut set);
    assert_eq!(set.run_on_startup, Some(false));
    assert_eq!(set.log_level.as_deref(), Some("high"));
}

#[test]
fn log_levels_gate_job_messages() {
    // per-file messages only at the high setting
    assert!(job_log("u", "copied x", "FILE", "high".to_string()).is_some());
    assert!(job_log("u", "copied x", "FILE", "medium".to_string()).is_none());
    assert!(job_log("u", "copied x", "FILE", "low".to_string()).is_none());
    // per-step messages at anything above low
    assert!(job_log("u", "step done", "STEP", "medium".to_string()).is_some());
    assert!(job_log("u", "step done", "STEP", "low".to_string()).is_none());
    // errors always pass, as errors
    let err = job_log("u", "boom", "ERROR", "low".to_string()).unwrap();
    assert_eq!(err.msg_type, "ERROR");
    assert_eq!(err.log, "job-u");
    // anything else is information
    let info = job_log("u", "note", "OTHER", "low".to_string()).unwrap();
    assert_eq!(info.msg_type, "INFO");
}

#[test]
fn log_events_carry_their_fields() {
    let info = log_info("archway", "started");
    assert_eq!((info.log.as_str(), info.body.as_str(), info.msg_type.as_str()),
               ("archway", "started", "INFO"));
    let err = log_error("archway", "failed");
    assert_eq!(err.msg_type, "ERROR");
}

#[test]
fn input_roots_resolve_custom_paths_verbatim() {
    let inputs = vec![
        InputFile { path_type: "custom".to_string(), path: "/data/photos".to_string() },
        InputFile { path_type: "custom".to_string(), path: "/data/music".to_string() },
    ];
    let roots = resolve_input_roots(&inputs).unwrap();
    assert_eq!(roots, vec!["/data/photos".to_string(), "/data/music".to_string()]);
    let unknown = vec![InputFile {
        path_type: "library".to_string(),
        path: "no-such-library".to_string(),
    }];
    assert!(resolve_input_roots(&unknown).is_none());
}

#[test]
fn decimal_helpers_roundtrip() {
    assert_eq!(u32_to_string(0).as_str(), "0");
    assert_eq!(u32_to_string(31).as_str(), "31");
    assert_eq!(u32_to_string(4_294_967_295).as_str(), "4294967295");
    assert_eq!(parse_u8("0"), Some(0));
    assert_eq!(parse_u8("31"), Some(31));
    assert_eq!(parse_u8("255"), Some(255));
    assert_eq!(parse_u8("256"), None);
    assert_eq!(parse_u8(""), None);
    assert_eq!(parse_u8("1a"), None);
}
