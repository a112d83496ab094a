use dd_backup::app::{App, FileMessage};
use dd_backup::directory::DirectoryInfo;
use dd_backup::file_info::FileInfo;
use dd_backup::save_data::{restore_app, save_data_of, SaveData, SaveDirectoryData, SaveFileData};
use dd_backup::timestamp::ModifiedTime;
use dd_backup::user_data::UserData;

fn s(text: &str) -> String {
    text.to_string()
}

fn record(name: &str, edited: &str, export: &str) -> FileInfo {
    FileInfo::new(s(name), s(edited), s(export))
}

fn names(dir: &DirectoryInfo) -> Vec<String> {
    dir.files.iter().map(|f| f.name.clone()).collect()
}

#[test]
fn touch_or_insert_ignores_case() {
    let mut data = UserData::new();
    data.touch_directory_or_insert("/Data/Photos").backup_directory = s("/bak");
    let again = data.touch_directory_or_insert("/data/PHOTOS");
    assert_eq!(again.path, "/Data/Photos");
    assert_eq!(again.backup_directory, "/bak");
    assert_eq!(data.directories.len(), 1);
}

#[test]
fn touch_or_insert_creates_unpaired_directory() {
    let mut data = UserData::new();
    let dir = data.touch_directory_or_insert("/a");
    assert_eq!(dir.path, "/a");
    assert!(dir.backup_directory.is_empty());
    assert!(dir.files.is_empty());
    data.touch_directory_or_insert("/b");
    assert_eq!(data.directories.len(), 2);
}

#[test]
fn find_and_touch_ignore_case() {
    let mut data = UserData::new();
    data.add_directory(DirectoryInfo::new(s("/tmp/Alpha"), s("")));
    data.add_directory(DirectoryInfo::new(s("/tmp/beta"), s("")));
    assert_eq!(data.find_directory("/TMP/ALPHA").unwrap().path, "/tmp/Alpha");
    assert_eq!(data.find_directory("/tmp/BETA").unwrap().path, "/tmp/beta");
    assert!(data.find_directory("/tmp/gamma").is_none());
    data.touch_directory("/TMP/BETA").unwrap().backup_directory = s("/x");
    assert_eq!(data.directories[1].backup_directory, "/x");
    assert!(data.touch_directory("/nowhere").is_none());
}

#[test]
fn first_of_two_equal_paths_is_found() {
    let mut data = UserData::new();
    data.add_directory(DirectoryInfo::new(s("/A"), s("first")));
    data.add_directory(DirectoryInfo::new(s("/a"), s("second")));
    assert_eq!(data.find_directory("/a").unwrap().backup_directory, "first");
}

#[test]
fn touch_file_out_of_range_is_none() {
    let mut dir = DirectoryInfo::new(s("/d"), s(""));
    dir.add_file(record("a", "t", ""));
    assert!(dir.touch_file(1).is_none());
    dir.touch_file(0).unwrap().export_path = s("/e");
    assert_eq!(dir.files[0].export_path, "/e");
}

#[test]
fn remove_file_by_position() {
    let mut dir = DirectoryInfo::new(s("/d"), s(""));
    dir.add_file(record("a", "t", ""));
    dir.add_file(record("b", "t", ""));
    assert!(dir.remove_file(5).is_none());
    assert_eq!(dir.remove_file(0).unwrap().name, "a");
    assert_eq!(names(&dir), vec![s("b")]);
}

#[test]
fn duplicate_names_are_kept() {
    let mut dir = DirectoryInfo::new(s("/d"), s(""));
    dir.add_file(record("a", "t", ""));
    dir.add_file(record("a", "t", "/x"));
    assert_eq!(dir.files.len(), 2);
}

#[test]
fn sort_puts_newest_first_and_keeps_ties_in_order() {
    let mut dir = DirectoryInfo::new(s("/d"), s(""));
    dir.add_file(record("old", "2020-01-01 00:00:00", ""));
    dir.add_file(record("new", "2024-05-05 10:00:00", ""));
    dir.add_file(record("tie1", "2022-02-02 02:02:02", ""));
    dir.add_file(record("tie2", "2022-02-02 02:02:02", ""));
    dir.sort_files_by_last_edited();
    assert_eq!(names(&dir), vec![s("new"), s("tie1"), s("tie2"), s("old")]);
}

#[test]
fn sort_of_empty_list() {
    let mut dir = DirectoryInfo::new(s("/d"), s(""));
    dir.sort_files_by_last_edited();
    assert!(dir.files.is_empty());
}

#[test]
fn refresh_files_keeps_names_and_clears_sync_without_backup() {
    let mut dir = DirectoryInfo::new(s("/nonexistent/src"), s(""));
    let mut f = record("a.txt", "", "");
    f.synced = true;
    f.remove_allowed = true;
    dir.add_file(f);
    dir.add_file(record("b.txt", "", "/nonexistent/deeply/nested/name.txt"));
    dir.refresh_files(&vec![Some(ModifiedTime { secs: 1_700_000_000, nanos: 0 })]);
    assert_eq!(names(&dir), vec![s("a.txt"), s("b.txt")]);
    assert!(!dir.files[0].synced);
    assert!(dir.files[0].remove_allowed);
    assert!(dir.files[0].export_valid);
    assert!(!dir.files[1].export_valid);
    assert!(dir.files[0].last_edited.starts_with("2023-11-1"));
    assert_eq!(dir.files[1].last_edited.chars().count(), 19);
}

#[test]
fn change_current_directory_checks_it() {
    let mut app = App::new();
    app.change_current_directory(s("/tmp"));
    assert!(app.current_directory_valid);
    app.change_current_directory(s("/nonexistent/dir"));
    assert!(!app.current_directory_valid);
    assert_eq!(app.current_directory, "/nonexistent/dir");
    app.change_current_directory(s("x"));
    assert!(!app.current_directory_valid);
}

#[test]
fn dropping_a_missing_file_changes_nothing() {
    let mut app = App::new();
    assert!(!app.add_dropped_file(&s("/nonexistent/a.txt"), None));
    assert!(app.user_data.directories.is_empty());
    assert!(!app.add_dropped_file(&s("/tmp"), None));
}

#[test]
fn file_messages_edit_the_current_directory() {
    let mut app = App::new();
    app.change_current_directory(s("/nonexistent/src"));
    let dir = app.user_data.touch_directory_or_insert("/nonexistent/src");
    dir.add_file(record("a.txt", "t", ""));
    dir.add_file(record("b.txt", "t", ""));
    app.apply_file_message(0, FileMessage::ExportPathInput(s("/nonexistent/x/y.txt")));
    assert_eq!(app.user_data.directories[0].files[0].export_path, "/nonexistent/x/y.txt");
    assert!(!app.user_data.directories[0].files[0].export_valid);
    app.apply_file_message(0, FileMessage::ExportPathInput(s("")));
    assert!(app.user_data.directories[0].files[0].export_valid);
    app.apply_file_message(1, FileMessage::Remove);
    assert_eq!(app.user_data.directories[0].files.len(), 2);
    app.apply_file_message(1, FileMessage::RemoveAllowedToggled(true));
    assert!(app.user_data.directories[0].files[1].remove_allowed);
    app.apply_file_message(1, FileMessage::Remove);
    assert_eq!(names(&app.user_data.directories[0]), vec![s("a.txt")]);
    app.apply_file_message(7, FileMessage::Remove);
    app.apply_file_message(0, FileMessage::Sync);
    app.apply_file_message(0, FileMessage::IgnoreInput(s("x")));
    app.apply_file_message(0, FileMessage::ExportPathSubmit);
    assert_eq!(names(&app.user_data.directories[0]), vec![s("a.txt")]);
}

fn sample_catalog() -> App {
    let mut app = App::new();
    app.change_current_directory(s("/nonexistent/one"));
    let one = app.user_data.touch_directory_or_insert("/nonexistent/one");
    one.backup_directory = s("/nonexistent/bak");
    one.add_file(record("a.txt", "2021-01-01 00:00:00", ""));
    one.add_file(record("b.txt", "2022-01-01 00:00:00", "/nonexistent/out"));
    let two = app.user_data.touch_directory_or_insert("/nonexistent/two");
    two.add_file(record("c.txt", "2020-01-01 00:00:00", "x"));
    app
}

fn identities(app: &App) -> Vec<(String, String, Vec<(String, String)>)> {
    app.user_data
        .directories
        .iter()
        .map(|d| {
            let mut files: Vec<(String, String)> =
                d.files.iter().map(|f| (f.name.clone(), f.export_path.clone())).collect();
            files.sort();
            (d.path.clone(), d.backup_directory.clone(), files)
        })
        .collect()
}

#[test]
fn save_keeps_only_chosen_fields() {
    let app = sample_catalog();
    let saved = save_data_of(&app);
    assert_eq!(saved.current_directory, "/nonexistent/one");
    assert_eq!(saved.directories.len(), 2);
    assert_eq!(saved.directories[0].path, "/nonexistent/one");
    assert_eq!(saved.directories[0].backup_directory, "/nonexistent/bak");
    assert_eq!(saved.directories[0].files[1].name, "b.txt");
    assert_eq!(saved.directories[0].files[1].export, "/nonexistent/out");
    assert_eq!(saved.directories[1].files[0].export, "x");
}

#[test]
fn save_then_restore_round_trip() {
    let app = sample_catalog();
    let saved = save_data_of(&app);
    let mut loaded = restore_app(&saved);
    loaded.refresh_all(&Vec::new());
    assert_eq!(loaded.current_directory, "/nonexistent/one");
    assert!(!loaded.current_directory_valid);
    assert_eq!(identities(&loaded), identities(&app));
}

#[test]
fn restore_of_missing_file_falls_back_to_now() {
    let saved = SaveData {
        current_directory: s(""),
        directories: vec![SaveDirectoryData {
            path: s("/nonexistent/src"),
            backup_directory: s(""),
            files: vec![SaveFileData { name: s("a.txt"), export: s("") }],
        }],
    };
    let mut app = restore_app(&saved);
    app.refresh_all(&vec![vec![None]]);
    let f = &app.user_data.directories[0].files[0];
    assert_eq!(f.name, "a.txt");
    assert_eq!(f.last_edited.chars().count(), 19);
    assert!(!f.synced);
    assert!(f.export_valid);
}

#[test]
fn restore_merges_directories_equal_up_to_case() {
    let saved = SaveData {
        current_directory: s("/x"),
        directories: vec![
            SaveDirectoryData {
                path: s("/Src"),
                backup_directory: s("/b1"),
                files: vec![SaveFileData { name: s("a"), export: s("") }],
            },
            SaveDirectoryData {
                path: s("/src"),
                backup_directory: s("/b2"),
                files: vec![SaveFileData { name: s("b"), export: s("") }],
            },
        ],
    };
    let app = restore_app(&saved);
    assert_eq!(app.user_data.directories.len(), 1);
    assert_eq!(app.user_data.directories[0].path, "/Src");
    assert_eq!(app.user_data.directories[0].backup_directory, "/b2");
    assert_eq!(names(&app.user_data.directories[0]), vec![s("a"), s("b")]);
}

#[test]
fn restore_sorts_files_newest_first() {
    let saved = SaveData {
        current_directory: s(""),
        directories: vec![SaveDirectoryData {
            path: s("/nonexistent/src"),
            backup_directory: s(""),
            files: vec![
                SaveFileData { name: s("old"), export: s("") },
                SaveFileData { name: s("new"), export: s("") },
            ],
        }],
    };
    let mut app = restore_app(&saved);
    app.refresh_all(&vec![vec![
        Some(ModifiedTime { secs: 1_000_000_000, nanos: 0 }),
        Some(ModifiedTime { secs: 1_700_000_000, nanos: 0 }),
    ]]);
    assert_eq!(names(&app.user_data.directories[0]), vec![s("new"), s("old")]);
}

#[test]
fn saved_file_converts_both_ways() {
    let f = record("a.txt", "t", "/e");
    let saved = SaveFileData::from_file(&f);
    assert_eq!(saved.name, "a.txt");
    assert_eq!(saved.export, "/e");
    let back = saved.into_file();
    assert_eq!(back.name, "a.txt");
    assert_eq!(back.export_path, "/e");
    assert!(back.last_edited.is_empty());
}

#[test]
fn dropped_file_rule_given_probes() {
    let mut app = App::new();
    assert!(!app.add_file_given(false, Some(s("/nonexistent/d")), Some(record("a", "t", ""))));
    assert!(!app.add_file_given(true, None, Some(record("a", "t", ""))));
    assert!(!app.add_file_given(true, Some(s("/nonexistent/d")), None));
    assert!(app.user_data.directories.is_empty());
    assert!(app.current_directory.is_empty());
    assert!(app.add_file_given(true, Some(s("/nonexistent/d")), Some(record("a", "t", ""))));
    assert!(app.add_file_given(true, Some(s("/NONEXISTENT/D")), Some(record("b", "t", ""))));
    assert_eq!(app.current_directory, "/NONEXISTENT/D");
    assert_eq!(app.user_data.directories.len(), 1);
    assert_eq!(names(&app.user_data.directories[0]), vec![s("a"), s("b")]);
}

#[test]
fn opening_a_directory_registers_it_only_when_valid() {
    let mut app = App::new();
    assert!(!app.open_directory(s("/nonexistent/dir")));
    assert_eq!(app.current_directory, "/nonexistent/dir");
    assert!(app.user_data.directories.is_empty());
    assert!(app.open_directory(s("/tmp")));
    assert_eq!(app.user_data.find_directory("/tmp").unwrap().path, "/tmp");
}

#[test]
fn backup_directory_is_set_only_for_a_valid_current_directory() {
    let mut app = App::new();
    app.change_current_directory(s("/nonexistent/dir"));
    assert!(!app.set_backup_directory(s("/bak")));
    assert!(app.user_data.directories.is_empty());
    app.change_current_directory(s("/tmp"));
    assert!(app.set_backup_directory(s("/bak")));
    assert_eq!(app.user_data.directories.len(), 1);
    assert_eq!(app.user_data.directories[0].path, "/tmp");
    assert_eq!(app.user_data.directories[0].backup_directory, "/bak");
    assert!(app.set_backup_directory(s("/bak2")));
    assert_eq!(app.user_data.directories.len(), 1);
    assert_eq!(app.user_data.directories[0].backup_directory, "/bak2");
}
