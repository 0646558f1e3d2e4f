use archway::jobs::{FileFilter, FilterTraits};
use archway::pipeline::{
    check_older_than, check_output_volume, compare_files, expand_extensions, filter_files,
    job_dir_name, plan_copies, plan_rotation, slot_dir_name, verify_files, FileCheck, FileRecord,
    OutputCheck, RotationPlan, VerifyDecision,
};

fn strings(items: &[&str]) -> Vec<String> {
    items.iter().map(|s| s.to_string()).collect()
}

fn record(path: &str, size: u64) -> FileRecord {
    FileRecord { path: path.to_string(), size: Some(size), last_access: Some(0) }
}

fn extension_filter(entries: &[&str]) -> FileFilter {
    FileFilter {
        filter_type: "extension".to_string(),
        traits: FilterTraits { size: None, period: None, extensions: Some(strings(entries)) },
    }
}

fn size_filter(threshold_mb: u64) -> FileFilter {
    FileFilter {
        filter_type: "size".to_string(),
        traits: FilterTraits { size: Some(threshold_mb), period: None, extensions: None },
    }
}

fn age_filter(period: &str) -> FileFilter {
    FileFilter {
        filter_type: "last-used".to_string(),
        traits: FilterTraits { size: None, period: Some(period.to_string()), extensions: None },
    }
}

#[test]
fn documents_category_keeps_pdf_case_insensitively() {
    let files = vec![record("a.pdf", 1), record("b.exe", 1), record("c.PDF", 1)];
    let filters = vec![extension_filter(&["documents-category"])];
    let kept = filter_files(&files, &filters, 0);
    let names: Vec<&str> = kept.iter().map(|f| f.path.as_str()).collect();
    assert_eq!(names, vec!["a.pdf", "c.PDF"]);
}

#[test]
fn expand_extensions_appends_category_sets() {
    let expanded = expand_extensions(&strings(&["log", "music-category"]));
    assert_eq!(expanded[0], "log");
    assert_eq!(expanded[1], "music-category");
    assert!(expanded.iter().any(|e| e == "mp3"));
    assert!(expanded.iter().any(|e| e == "flac"));
    assert_eq!(expanded.len(), 2 + 7);
}

#[test]
fn literal_extension_entries_are_honored() {
    let files = vec![record("notes.log", 1), record("core.bin", 1)];
    let filters = vec![extension_filter(&["log", "documents-category"])];
    let kept = filter_files(&files, &filters, 0);
    assert_eq!(kept.len(), 1);
    assert_eq!(kept[0].path, "notes.log");
}

#[test]
fn minimum_size_filter_uses_whole_megabytes() {
    let files = vec![record("small.dat", 4_999_999), record("big.dat", 5_242_880)];
    let filters = vec![size_filter(5)];
    let kept = filter_files(&files, &filters, 0);
    assert_eq!(kept.len(), 1);
    assert_eq!(kept[0].path, "big.dat");
}

#[test]
fn file_without_size_is_excluded_by_size_filter() {
    let files = vec![FileRecord { path: "gone.dat".to_string(), size: None, last_access: None }];
    let kept = filter_files(&files, &vec![size_filter(0)], 0);
    assert!(kept.is_empty());
}

#[test]
fn age_filter_keeps_only_files_older_than_period() {
    let week = 7 * 24 * 60 * 60;
    let now = 100 * week;
    let old_file = FileRecord {
        path: "old.txt".to_string(),
        size: Some(1),
        last_access: Some(now - 2 * week),
    };
    let new_file = FileRecord {
        path: "new.txt".to_string(),
        size: Some(1),
        last_access: Some(now - week / 2),
    };
    let kept = filter_files(&vec![old_file, new_file], &vec![age_filter("week")], now);
    assert_eq!(kept.len(), 1);
    assert_eq!(kept[0].path, "old.txt");
}

#[test]
fn check_older_than_is_strict() {
    let week = 7 * 24 * 60 * 60;
    assert!(!check_older_than(week, 0, "week"));
    assert!(check_older_than(week + 1, 0, "week"));
    // an unrecognized period keeps nothing at any realistic clock
    assert!(!check_older_than(2_000_000_000, 0, "unknown-period"));
}

#[test]
fn every_filter_must_pass() {
    let files = vec![record("a.pdf", 10_000_000), record("b.pdf", 1)];
    let filters = vec![extension_filter(&["pdf"]), size_filter(5)];
    let kept = filter_files(&files, &filters, 0);
    assert_eq!(kept.len(), 1);
    assert_eq!(kept[0].path, "a.pdf");
}

#[test]
fn filters_applied_one_at_a_time_match_the_one_shot_pass() {
    let files = vec![
        record("a.pdf", 10_000_000),
        record("b.pdf", 1),
        record("c.exe", 10_000_000),
    ];
    let filters = vec![extension_filter(&["pdf"]), size_filter(5)];
    let one_shot = filter_files(&files, &filters, 0);
    let mut stepwise = files;
    for filter in &filters {
        stepwise = filter_files(&stepwise, &vec![filter.clone()], 0);
    }
    let a: Vec<&str> = one_shot.iter().map(|f| f.path.as_str()).collect();
    let b: Vec<&str> = stepwise.iter().map(|f| f.path.as_str()).collect();
    assert_eq!(a, b);
    assert_eq!(a, vec!["a.pdf"]);
}

#[test]
fn destination_preserves_structure_under_root_segment() {
    let plans = plan_copies(
        &strings(&["/src/A/x/y.txt"]),
        &strings(&["/src/A"]),
        "/out/job123",
    );
    assert_eq!(plans.len(), 1);
    assert_eq!(plans[0].0, "/src/A/x/y.txt");
    assert_eq!(plans[0].1, "/out/job123/A/x/y.txt");
}

#[test]
fn longest_matching_root_wins() {
    let plans = plan_copies(
        &strings(&["/src/A/deep/file.txt"]),
        &strings(&["/src/A", "/src/A/deep"]),
        "/out",
    );
    assert_eq!(plans[0].1, "/out/deep/file.txt");
}

#[test]
fn backslash_roots_keep_their_final_segment() {
    let plans = plan_copies(
        &strings(&["C:\\data\\photos/2021/a.jpg"]),
        &strings(&["C:\\data\\photos"]),
        "/out",
    );
    assert_eq!(plans[0].1, "/out/photos/2021/a.jpg");
}

#[test]
fn rotation_fills_free_slots_then_rotates() {
    // three runs of the same job with a retention of two copies
    assert!(plan_rotation(&vec![false, false]) == RotationPlan::UseSlot(1));
    assert!(plan_rotation(&vec![true, false]) == RotationPlan::UseSlot(2));
    // all slots occupied: shift down, discard slot 0, reuse the top
    // slot — exactly two numbered directories remain, the oldest gone
    assert!(plan_rotation(&vec![true, true]) == RotationPlan::RotateAndUse);
}

#[test]
fn output_directory_names_are_job_scoped() {
    assert_eq!(job_dir_name("u-1").as_str(), "archway-u-1");
    assert_eq!(slot_dir_name("u-1", 2).as_str(), "archway-u-1-2");
    assert_eq!(slot_dir_name("u-1", 10).as_str(), "archway-u-1-10");
}

#[test]
fn output_checks_follow_their_order() {
    // detached volume fails first
    assert!(check_output_volume("special:any", true, false, "", false)
        == OutputCheck::DriveMissing);
    // a bound device needs a readable, matching identity
    assert!(check_output_volume("vol-1", true, true, "", true)
        == OutputCheck::IdentityUnreadable);
    assert!(check_output_volume("vol-1", true, true, "vol-2", true)
        == OutputCheck::IdentityMismatch);
    // the any-volume wildcard skips the identity checks
    assert!(check_output_volume("special:any", true, true, "", true)
        == OutputCheck::Ready { create_output: false });
    // an absent output directory needs permission to create it
    assert!(check_output_volume("vol-1", false, true, "vol-1", false)
        == OutputCheck::OutputMissing);
    assert!(check_output_volume("vol-1", true, true, "vol-1", false)
        == OutputCheck::Ready { create_output: true });
}

#[test]
fn compare_files_matches_equal_content_only() {
    let original: Vec<u8> = b"hello backup world".to_vec();
    let copied = original.clone();
    assert!(compare_files(&original, &copied));
    let mut altered = original.clone();
    altered[3] ^= 1;
    assert!(!compare_files(&original, &altered));
}

#[test]
fn altered_byte_fails_verification_and_blocks_deletion() {
    let original: Vec<u8> = b"precious data".to_vec();
    let mut altered = original.clone();
    altered[0] ^= 1;
    let good = compare_files(&original, &original.clone());
    let bad = compare_files(&original, &altered);
    let checks = vec![
        ("/out/a.txt".to_string(), if good { FileCheck::Match } else { FileCheck::Mismatch }),
        ("/out/b.txt".to_string(), if bad { FileCheck::Match } else { FileCheck::Mismatch }),
    ];
    // even for a moving job, a failed file means no deletion stage
    match verify_files("move", 2, &checks) {
        VerifyDecision::Failed(failed) => assert_eq!(failed, vec!["/out/b.txt".to_string()]),
        _ => panic!("verification must fail with the altered file named"),
    }
}

#[test]
fn verification_success_routes_by_behavior() {
    let checks = vec![("/out/a".to_string(), FileCheck::Match)];
    assert!(matches!(verify_files("move", 1, &checks), VerifyDecision::Delete));
    assert!(matches!(verify_files("copy", 1, &checks), VerifyDecision::Complete));
}

#[test]
fn verification_requires_matching_counts() {
    let checks = vec![("/out/a".to_string(), FileCheck::Match)];
    assert!(matches!(verify_files("copy", 2, &checks), VerifyDecision::CountMismatch));
}

#[test]
fn missing_output_file_is_a_failure() {
    let checks = vec![("/out/a".to_string(), FileCheck::Missing)];
    match verify_files("copy", 1, &checks) {
        VerifyDecision::Failed(failed) => assert_eq!(failed.len(), 1),
        _ => panic!("a missing output must fail verification"),
    }
}
