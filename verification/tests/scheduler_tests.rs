use archway::drives::{newly_connected, DriveSnapshot};
use archway::jobs::{JobInfo, JobTrigger, TriggerTraits};
use archway::scheduler::{
    connection_triggered_jobs, hour_label, jobs_available_for_import, time_triggered_jobs,
    weekday_label, ConnectedDrive, LocalTime,
};
use archway::store::JobStore;

fn base_job(uuid: &str) -> JobInfo {
    JobInfo {
        job_name: format!("job {uuid}"),
        uuid: uuid.to_string(),
        file_behavior: "copy".to_string(),
        input_dirs: Vec::new(),
        output_dir: "/mnt/backup/archive".to_string(),
        output_device: "special:any".to_string(),
        copies: 1,
        portable: false,
        new_folder: true,
        file_filters: Vec::new(),
        triggers: Vec::new(),
        version: 1,
    }
}

fn time_trigger(event: &str, labels: &[&str]) -> JobTrigger {
    JobTrigger {
        trigger_type: "time".to_string(),
        traits: TriggerTraits {
            time: Some(labels.iter().map(|s| s.to_string()).collect()),
            event: Some(event.to_string()),
        },
    }
}

fn connection_trigger() -> JobTrigger {
    JobTrigger {
        trigger_type: "event".to_string(),
        traits: TriggerTraits { time: None, event: Some("device-connection".to_string()) },
    }
}

fn at(hour: u8, minute: u8, day: u8, weekday: u8) -> LocalTime {
    LocalTime { hour, minute, day, weekday }
}

#[test]
fn hourly_fires_on_the_zero_minute_only() {
    let mut job = base_job("h");
    job.triggers.push(time_trigger("hourly", &[]));
    let jobs = vec![job];
    assert_eq!(time_triggered_jobs(&jobs, at(9, 0, 15, 2)), vec!["h".to_string()]);
    assert!(time_triggered_jobs(&jobs, at(9, 30, 15, 2)).is_empty());
}

#[test]
fn daily_fires_at_its_hour_label() {
    let mut job = base_job("d");
    job.triggers.push(time_trigger("daily", &["3 PM"]));
    let jobs = vec![job];
    assert_eq!(time_triggered_jobs(&jobs, at(15, 0, 1, 0)), vec!["d".to_string()]);
    assert!(time_triggered_jobs(&jobs, at(16, 0, 1, 0)).is_empty());
    assert!(time_triggered_jobs(&jobs, at(15, 1, 1, 0)).is_empty());
}

#[test]
fn weekly_also_requires_the_weekday() {
    let mut job = base_job("w");
    job.triggers.push(time_trigger("weekly", &["Friday", "12 AM"]));
    let jobs = vec![job];
    assert_eq!(time_triggered_jobs(&jobs, at(0, 0, 3, 4)), vec!["w".to_string()]);
    assert!(time_triggered_jobs(&jobs, at(0, 0, 3, 3)).is_empty());
}

#[test]
fn monthly_also_requires_the_day_of_month() {
    let mut job = base_job("m");
    job.triggers.push(time_trigger("monthly", &["15", "11 PM"]));
    let jobs = vec![job];
    assert_eq!(time_triggered_jobs(&jobs, at(23, 0, 15, 6)), vec!["m".to_string()]);
    assert!(time_triggered_jobs(&jobs, at(23, 0, 14, 6)).is_empty());
}

#[test]
fn hour_and_weekday_labels() {
    assert_eq!(hour_label(0), "12 AM");
    assert_eq!(hour_label(12), "12 PM");
    assert_eq!(hour_label(23), "11 PM");
    assert_eq!(weekday_label(0), "Monday");
    assert_eq!(weekday_label(6), "Sunday");
}

#[test]
fn any_volume_job_fires_when_a_drive_mounts_under_its_root() {
    let mut job = base_job("c1");
    job.triggers.push(connection_trigger());
    let jobs = vec![job];
    let drives = vec![ConnectedDrive {
        mount_point: "/mnt/backup".to_string(),
        identity: "id-1".to_string(),
    }];
    // the job's output root "/" prefixes the new drive's mount point
    assert_eq!(connection_triggered_jobs(&jobs, &drives), vec!["c1".to_string()]);
}

#[test]
fn device_bound_job_fires_only_for_its_identity() {
    let mut job = base_job("c2");
    job.output_device = "vol-42".to_string();
    job.triggers.push(connection_trigger());
    let jobs = vec![job];
    let matching = vec![ConnectedDrive {
        mount_point: "/media/x".to_string(),
        identity: "vol-42".to_string(),
    }];
    let other = vec![ConnectedDrive {
        mount_point: "/media/x".to_string(),
        identity: "vol-7".to_string(),
    }];
    assert_eq!(connection_triggered_jobs(&jobs, &matching), vec!["c2".to_string()]);
    assert!(connection_triggered_jobs(&jobs, &other).is_empty());
}

#[test]
fn jobs_without_connection_trigger_never_fire_on_connection() {
    let jobs = vec![base_job("t")];
    let drives = vec![ConnectedDrive {
        mount_point: "/media/x".to_string(),
        identity: "id".to_string(),
    }];
    assert!(connection_triggered_jobs(&jobs, &drives).is_empty());
}

#[test]
fn newly_connected_is_the_set_difference_by_tuple() {
    let snap = |mount: &str, name: &str| DriveSnapshot {
        mount_point: mount.to_string(),
        name: name.to_string(),
    };
    let before = vec![snap("/", "root"), snap("/media/a", "A")];
    let after = vec![snap("/", "root"), snap("/media/a", "Renamed"), snap("/media/b", "B")];
    let fresh = newly_connected(&before, &after);
    let mounts: Vec<&str> = fresh.iter().map(|d| d.mount_point.as_str()).collect();
    // a relabeled volume counts as newly connected: tuples compare exactly
    assert_eq!(mounts, vec!["/media/a", "/media/b"]);
}

#[test]
fn import_is_offered_only_for_unknown_uuids() {
    let mut store = JobStore::new();
    store.set_all_jobs(vec![base_job("known")]);
    let marker_known = vec![base_job("known")];
    let marker_new = vec![base_job("known"), base_job("fresh")];
    assert!(!jobs_available_for_import(&marker_known, &store));
    assert!(jobs_available_for_import(&marker_new, &store));
}
