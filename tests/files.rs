use dd_backup::file_info::{synced_from, CopyJob, FileInfo};
use dd_backup::probe::ExportPathState;
use dd_backup::text_order::text_before;
use dd_backup::timestamp::{last_edited_text, probed_time_text, time_text_or_now, ModifiedTime};

fn s(text: &str) -> String {
    text.to_string()
}

fn record(name: &str, edited: &str, export: &str) -> FileInfo {
    FileInfo::new(s(name), s(edited), s(export))
}

fn pairs(jobs: &[CopyJob]) -> Vec<(String, String)> {
    jobs.iter().map(|j| (j.from.clone(), j.to.clone())).collect()
}

#[test]
fn backup_filename_dashes_the_time() {
    let f = record("a.txt", "2024-01-02 03:04:05", "");
    assert_eq!(f.backup_filename(), "2024-01-02-03-04-05_a.txt");
}

#[test]
fn backup_filename_is_deterministic() {
    let f = record("a.txt", "2024-01-02 03:04:05", "");
    let g = record("a.txt", "2024-01-02 03:04:05", "/elsewhere");
    assert_eq!(f.backup_filename(), f.backup_filename());
    assert_eq!(f.backup_filename(), g.backup_filename());
}

#[test]
fn backup_filename_changes_with_time() {
    let f = record("a.txt", "2024-01-02 03:04:05", "");
    let g = record("a.txt", "2024-01-02 03:04:06", "");
    assert_ne!(f.backup_filename(), g.backup_filename());
}

#[test]
fn backup_filename_cannot_tell_separators_apart() {
    let f = record("a.txt", "2024-01-02 03:04:05", "");
    let g = record("a.txt", "2024-01-02-03-04-05", "");
    assert_eq!(f.backup_filename(), g.backup_filename());
}

#[test]
fn backup_filename_of_empty_time() {
    let f = record("a.txt", "", "");
    assert_eq!(f.backup_filename(), "_a.txt");
}

#[test]
fn new_record_has_flags_off() {
    let f = FileInfo::new(s("n"), s("t"), s("e"));
    assert_eq!(f.name, "n");
    assert_eq!(f.last_edited, "t");
    assert_eq!(f.export_path, "e");
    assert!(!f.synced && !f.remove_allowed && !f.export_valid);
    let e = FileInfo::empty();
    assert!(e.name.is_empty() && e.last_edited.is_empty() && e.export_path.is_empty());
    assert!(!e.synced && !e.remove_allowed && !e.export_valid);
}

#[test]
fn record_from_path_takes_the_final_component() {
    let f = FileInfo::from_path(&s("/nonexistent/dir/report.txt"), None).unwrap();
    assert_eq!(f.name, "report.txt");
    assert!(f.export_path.is_empty());
    assert!(!f.synced && !f.remove_allowed && !f.export_valid);
    assert_eq!(f.last_edited.chars().count(), 19);
    assert!(FileInfo::from_path(&s("/"), None).is_none());
}

#[test]
fn source_and_backup_paths() {
    let f = record("a.txt", "2024-01-02 03:04:05", "");
    assert_eq!(f.source_path(&s("/src/")), "/src/a.txt");
    assert_eq!(f.backup_path(&s("/bak")), "/bak/2024-01-02-03-04-05_a.txt");
}

#[test]
fn empty_export_path_is_valid() {
    let mut f = record("a.txt", "2024-01-02 03:04:05", "");
    f.refresh_export_valid();
    assert!(f.export_valid);
}

#[test]
fn export_path_under_missing_directory_is_not_valid() {
    let mut f = record("a.txt", "t", "/nonexistent/deeply/nested/name.txt");
    f.export_valid = true;
    f.refresh_export_valid();
    assert!(!f.export_valid);
}

#[test]
fn export_path_to_existing_directory_is_valid() {
    let mut f = record("a.txt", "t", "/tmp");
    f.refresh_export_valid();
    assert!(f.export_valid);
}

#[test]
fn empty_backup_directory_is_never_synced() {
    let mut f = record("a.txt", "2024-01-02 03:04:05", "");
    f.synced = true;
    f.refresh_synced(&s(""));
    assert!(!f.synced);
    f.synced = true;
    f.refresh_synced(&s("/nonexistent/backups"));
    assert!(!f.synced);
}

#[test]
fn refresh_metadata_with_failed_probe_uses_current_time() {
    let mut f = record("a.txt", "", "");
    f.refresh_metadata(None, &s(""));
    assert_eq!(f.last_edited.chars().count(), 19);
    assert!(!f.synced);
    assert!(f.export_valid);
    assert_eq!(f.name, "a.txt");
}

#[test]
fn refresh_last_edited_formats_the_probed_time() {
    let mut f = record("a.txt", "", "");
    f.refresh_last_edited(Some(ModifiedTime { secs: 1_700_000_000, nanos: 0 }));
    let text = f.last_edited.clone();
    assert_eq!(text.chars().count(), 19);
    assert!(text.starts_with("2023-11-1"));
    assert_eq!(&text[4..5], "-");
    assert_eq!(&text[10..11], " ");
    assert_eq!(&text[13..14], ":");
}

#[test]
fn time_out_of_range_falls_back_to_now() {
    let text = last_edited_text(Some(ModifiedTime { secs: i64::MAX, nanos: 0 }));
    assert_eq!(text.chars().count(), 19);
    assert!(!text.starts_with("2023-11-1"));
}

#[test]
fn plan_for_export_directory_copies_inside_it() {
    let f = record("a.txt", "2024-01-02 03:04:05", "/tmp");
    assert_eq!(ExportPathState::new(&f.export_path), ExportPathState::AsDirectoryPath);
    let jobs = f.sync_plan(&s("/nonexistent/src"), &s(""));
    assert_eq!(pairs(&jobs), vec![(s("/nonexistent/src/a.txt"), s("/tmp/a.txt"))]);
}

#[test]
fn plan_for_missing_export_directory_makes_no_export_copy() {
    let f = record("a.txt", "2024-01-02 03:04:05", "/nonexistent/deeply/nested/name.txt");
    let jobs = f.sync_plan(&s("/nonexistent/src"), &s(""));
    assert!(jobs.is_empty());
}

#[test]
fn plan_with_valid_backup_directory_makes_a_backup_copy() {
    let f = record("a.txt", "2024-01-02 03:04:05", "");
    let jobs = f.sync_plan(&s("/src"), &s("/tmp"));
    assert_eq!(
        pairs(&jobs),
        vec![(s("/src/a.txt"), s("/tmp/2024-01-02-03-04-05_a.txt"))]
    );
}

#[test]
fn two_syncs_with_same_time_target_the_same_backup() {
    let f = record("a.txt", "2024-01-02 03:04:05", "");
    let first = pairs(&f.sync_plan(&s("/src"), &s("/tmp")));
    let second = pairs(&f.sync_plan(&s("/src"), &s("/tmp")));
    assert_eq!(first, second);
    assert_eq!(first.len(), 1);
}

#[test]
fn plan_given_checks() {
    let f = record("a.txt", "2024-01-02 03:04:05", "/out/copy.txt");
    let all = f.plan_copies(&s("/src"), &s("/bak"), true, ExportPathState::AsFilePath);
    assert_eq!(
        pairs(&all),
        vec![
            (s("/src/a.txt"), s("/bak/2024-01-02-03-04-05_a.txt")),
            (s("/src/a.txt"), s("/out/copy.txt")),
        ]
    );
    let dir = f.plan_copies(&s("/src"), &s("/bak"), false, ExportPathState::AsDirectoryPath);
    assert_eq!(pairs(&dir), vec![(s("/src/a.txt"), s("/out/copy.txt/a.txt"))]);
    let none = f.plan_copies(&s("/src"), &s("/bak"), false, ExportPathState::Invalid);
    assert!(none.is_empty());
}

#[test]
fn text_order_by_character() {
    assert!(text_before("2024-01-02", "2024-01-03"));
    assert!(!text_before("2024-01-03", "2024-01-02"));
    assert!(!text_before("same", "same"));
    assert!(text_before("ab", "abc"));
    assert!(text_before("", "a"));
    assert!(!text_before("a", ""));
}

#[test]
fn time_text_falls_back_to_now_only_without_probe() {
    assert_eq!(time_text_or_now(Some(s("2020-01-01 00:00:00"))), "2020-01-01 00:00:00");
    let now = time_text_or_now(None);
    assert_eq!(now.chars().count(), 19);
    assert!(now.as_str() > "2025");
    assert_eq!(probed_time_text(None), None);
    assert_eq!(probed_time_text(Some(ModifiedTime { secs: i64::MAX, nanos: 0 })), None);
    assert!(probed_time_text(Some(ModifiedTime { secs: 1_700_000_000, nanos: 0 }))
        .unwrap()
        .starts_with("2023-11-1"));
}

#[test]
fn time_text_holds_only_time_characters() {
    let text = last_edited_text(Some(ModifiedTime { secs: 0, nanos: 0 }));
    assert!(!text.is_empty());
    assert!(text.chars().all(|c| c.is_ascii_digit() || "-+ :".contains(c)));
}

#[test]
fn sync_rule_needs_directory_and_copy() {
    assert!(synced_from(true, true));
    assert!(!synced_from(true, false));
    assert!(!synced_from(false, true));
    assert!(!synced_from(false, false));
}

#[test]
fn record_from_plain_paths_is_named_by_last_segment() {
    assert_eq!(FileInfo::from_path(&s("report.txt"), None).unwrap().name, "report.txt");
    assert_eq!(FileInfo::from_path(&s("./a/b.tar.gz"), None).unwrap().name, "b.tar.gz");
    assert_eq!(FileInfo::from_path(&s("/x//y"), None).unwrap().name, "y");
    assert!(FileInfo::from_path(&s(".."), None).is_none());
}
