//! The flat form of the catalog that is saved between sessions, and the
//! rebuilding of the catalog from it.

use vstd::prelude::*;
use vstd::multiset::Multiset;
use crate::app::{dir_key, App};
use crate::directory::{file_key, file_keys, DirectoryInfo};
use crate::file_info::FileInfo;
use crate::probe::long_enough_for_directory;
use crate::user_data::{
    distinct_directories, has_path, lemma_path_index_first,
    lemma_touch_or_insert_keeps_paths_distinct, path_index, paths_of, same_up_to_case, touch_index,
};

verus! {

broadcast use vstd::seq_lib::group_to_multiset_ensures;

/// Where the saved form is kept, relative to the program's directory.
pub const SAVE_PATH: &'static str = "save.yaml";

/// A saved file: only what the user chose. Everything else is derived again
/// on load.
#[derive(Debug, Clone)]
pub struct SaveFileData {
    pub name: String,
    pub export: String,
}

/// A saved directory.
#[derive(Debug, Clone)]
pub struct SaveDirectoryData {
    pub path: String,
    pub backup_directory: String,
    pub files: Vec<SaveFileData>,
}

/// The whole saved state.
#[derive(Debug, Clone)]
pub struct SaveData {
    pub current_directory: String,
    pub directories: Vec<SaveDirectoryData>,
}

pub open spec fn saved_file_key(f: SaveFileData) -> (Seq<char>, Seq<char>) {
    (f.name@, f.export@)
}

/// A directory as it is listed in the saved form: path, backup directory,
/// and its files' names and export paths in order.
pub open spec fn listing(d: DirectoryInfo) -> (Seq<char>, Seq<char>, Seq<(Seq<char>, Seq<char>)>) {
    (d.path@, d.backup_directory@, d.files@.map_values(|f: FileInfo| file_key(f)))
}

pub open spec fn saved_listing(s: SaveDirectoryData) -> (
    Seq<char>,
    Seq<char>,
    Seq<(Seq<char>, Seq<char>)>,
) {
    (s.path@, s.backup_directory@, s.files@.map_values(|f: SaveFileData| saved_file_key(f)))
}

pub open spec fn saved_file_keys(files: Seq<SaveFileData>) -> Multiset<(Seq<char>, Seq<char>)> {
    files.map_values(|f: SaveFileData| saved_file_key(f)).to_multiset()
}

pub open spec fn key_path(k: (Seq<char>, Seq<char>, Multiset<(Seq<char>, Seq<char>)>)) -> Seq<char> {
    k.0
}

/// The directories a load rebuilds from `saved`, by path, backup directory
/// and files: each saved directory is looked up by path ignoring case; a
/// found one takes the saved backup directory and gains the saved files, and
/// otherwise the saved directory is appended.
pub open spec fn restored_keys(saved: Seq<SaveDirectoryData>) -> Seq<
    (Seq<char>, Seq<char>, Multiset<(Seq<char>, Seq<char>)>),
>
    decreases saved.len(),
{
    if saved.len() == 0 {
        Seq::empty()
    } else {
        let acc = restored_keys(saved.drop_last());
        let s = saved.last();
        let i = path_index(acc.map_values(|k: (Seq<char>, Seq<char>, Multiset<(Seq<char>, Seq<char>)>)| key_path(k)), s.path@);
        if i < acc.len() {
            acc.update(i, (acc[i].0, s.backup_directory@, acc[i].2.add(saved_file_keys(s.files@))))
        } else {
            acc.push((s.path@, s.backup_directory@, saved_file_keys(s.files@)))
        }
    }
}

/// A file record not yet refreshed from the filesystem.
pub open spec fn unrefreshed(f: FileInfo) -> bool {
    f.last_edited@.len() == 0 && !f.synced && !f.export_valid && !f.remove_allowed
}

impl SaveFileData {
    /// The saved form of a file: its name and export path.
    pub fn from_file(file: &FileInfo) -> (r: Self)
        ensures
            r.name@ == file.name@,
            r.export@ == file.export_path@,
    {
        SaveFileData { name: file.name.clone(), export: file.export_path.clone() }
    }

    /// A file record with the saved name and export path, not yet refreshed.
    pub fn into_file(self) -> (r: FileInfo)
        ensures
            r.name == self.name,
            r.export_path == self.export,
            unrefreshed(r),
    {
        FileInfo::new(self.name, String::new(), self.export)
    }
}

/// The saved form of the session: the current directory, and each directory
/// with its backup directory and its files' names and export paths.
pub fn save_data_of(app: &App) -> (r: SaveData)
    ensures
        r.current_directory@ == app.current_directory@,
        r.directories@.map_values(|s: SaveDirectoryData| saved_listing(s))
            == app.user_data.directories@.map_values(|d: DirectoryInfo| listing(d)),
{
    let dirs = &app.user_data.directories;
    let mut saved: Vec<SaveDirectoryData> = Vec::new();
    let mut i: usize = 0;
    while i < dirs.len()
        invariant
            i <= dirs@.len(),
            saved@.len() == i,
            forall|k: int| 0 <= k < i ==> #[trigger] saved_listing(saved@[k]) == listing(dirs@[k]),
        decreases dirs@.len() - i,
    {
        let dir = &dirs[i];
        let mut files: Vec<SaveFileData> = Vec::new();
        let mut j: usize = 0;
        while j < dir.files.len()
            invariant
                j <= dir.files@.len(),
                files@.len() == j,
                forall|k: int|
                    0 <= k < j ==> #[trigger] saved_file_key(files@[k]) == file_key(dir.files@[k]),
            decreases dir.files@.len() - j,
        {
            files.push(SaveFileData::from_file(&dir.files[j]));
            j = j + 1;
        }
        let entry = SaveDirectoryData {
            path: dir.path.clone(),
            backup_directory: dir.backup_directory.clone(),
            files,
        };
        assert(entry.files@.map_values(|f: SaveFileData| saved_file_key(f)) =~= dir.files@.map_values(
            |f: FileInfo| file_key(f),
        ));
        saved.push(entry);
        i = i + 1;
    }
    assert(saved@.map_values(|s: SaveDirectoryData| saved_listing(s)) =~= dirs@.map_values(
        |d: DirectoryInfo| listing(d),
    ));
    SaveData { current_directory: app.current_directory.clone(), directories: saved }
}

/// Every file of every directory is still unrefreshed.
pub open spec fn all_unrefreshed(dirs: Seq<DirectoryInfo>) -> bool {
    forall|i: int, k: int|
        0 <= i < dirs.len() && 0 <= k < dirs[i].files@.len() ==> unrefreshed(
            #[trigger] dirs[i].files@[k],
        )
}

/// The saved files as unrefreshed file records, in order.
fn files_from_saved(saved: &Vec<SaveFileData>) -> (r: Vec<FileInfo>)
    ensures
        r@.map_values(|f: FileInfo| file_key(f)) == saved@.map_values(
            |f: SaveFileData| saved_file_key(f),
        ),
        forall|k: int| 0 <= k < r@.len() ==> unrefreshed(#[trigger] r@[k]),
{
    let mut files: Vec<FileInfo> = Vec::new();
    let mut j: usize = 0;
    while j < saved.len()
        invariant
            j <= saved@.len(),
            files@.len() == j,
            forall|k: int|
                0 <= k < j ==> #[trigger] file_key(files@[k]) == saved_file_key(saved@[k]),
            forall|k: int| 0 <= k < j ==> unrefreshed(#[trigger] files@[k]),
        decreases saved@.len() - j,
    {
        let record = FileInfo::new(saved[j].name.clone(), String::new(), saved[j].export.clone());
        files.push(record);
        j = j + 1;
    }
    assert(files@.map_values(|f: FileInfo| file_key(f)) =~= saved@.map_values(
        |f: SaveFileData| saved_file_key(f),
    ));
    files
}

/// Rebuilds the session from its saved form: the saved current directory
/// (checked again), and the directories as `restored_keys` describes, with
/// every file unrefreshed. `App::refresh_all` then derives the rest.
pub fn restore_app(data: &SaveData) -> (r: App)
    ensures
        r.current_directory@ == data.current_directory@,
        r.current_directory_valid ==> long_enough_for_directory(data.current_directory@),
        r.user_data.directories@.map_values(|d: DirectoryInfo| dir_key(d)) == restored_keys(
            data.directories@,
        ),
        all_unrefreshed(r.user_data.directories@),
        distinct_directories(r.user_data.directories@),
{
    let mut app = App::new();
    app.change_current_directory(data.current_directory.clone());
    let saved = &data.directories;
    let mut i: usize = 0;
    assert(app.user_data.directories@.map_values(|d: DirectoryInfo| dir_key(d)) =~= Seq::empty());
    assert(saved@.subrange(0, 0) =~= Seq::empty());
    while i < saved.len()
        invariant
            i <= saved@.len(),
            app.current_directory@ == data.current_directory@,
            app.current_directory_valid ==> long_enough_for_directory(data.current_directory@),
            app.user_data.directories@.map_values(|d: DirectoryInfo| dir_key(d)) == restored_keys(
                saved@.subrange(0, i as int),
            ),
            all_unrefreshed(app.user_data.directories@),
            distinct_directories(app.user_data.directories@),
        decreases saved@.len() - i,
    {
        let s = &saved[i];
        let mut files = files_from_saved(&s.files);
        let ghost old_dirs = app.user_data.directories@;
        let ghost keys = old_dirs.map_values(|d: DirectoryInfo| dir_key(d));
        let ghost new_files = files@;
        let dir = app.user_data.touch_directory_or_insert(s.path.as_str());
        dir.backup_directory = s.backup_directory.clone();
        dir.files.append(&mut files);
        proof {
            lemma_path_index_first(paths_of(old_dirs), s.path@);
            let prefix = saved@.subrange(0, i + 1);
            assert(prefix.drop_last() =~= saved@.subrange(0, i as int));
            assert(prefix.last() == *s);
            assert(keys.map_values(|k: (Seq<char>, Seq<char>, Multiset<(Seq<char>, Seq<char>)>)| key_path(k)) =~= paths_of(old_dirs));
            let t = touch_index(old_dirs, s.path@);
            let dirs1 = app.user_data.directories@;
            lemma_touch_or_insert_keeps_paths_distinct(old_dirs, s.path@, dirs1[t]);
            assert(file_keys(new_files) == saved_file_keys(s.files@));
            if t < old_dirs.len() {
                let rec = dirs1[t];
                assert(rec.files@ == old_dirs[t].files@ + new_files);
                assert(rec.files@.map_values(|f: FileInfo| file_key(f)) =~= old_dirs[t].files@.map_values(
                    |f: FileInfo| file_key(f),
                ) + new_files.map_values(|f: FileInfo| file_key(f)));
                vstd::seq_lib::lemma_multiset_commutative(
                    old_dirs[t].files@.map_values(|f: FileInfo| file_key(f)),
                    new_files.map_values(|f: FileInfo| file_key(f)),
                );
                assert(dirs1.map_values(|d: DirectoryInfo| dir_key(d)) =~= restored_keys(prefix));
            } else {
                let rec = dirs1[t];
                assert(rec.files@ =~= new_files);
                assert(dirs1.map_values(|d: DirectoryInfo| dir_key(d)) =~= restored_keys(prefix));
            }
            assert forall|a: int, k: int|
                0 <= a < dirs1.len() && 0 <= k < dirs1[a].files@.len() implies unrefreshed(
                #[trigger] dirs1[a].files@[k],
            ) by {
                if a == t {
                    if t < old_dirs.len() && k < old_dirs[t].files@.len() {
                        assert(dirs1[a].files@[k] == old_dirs[t].files@[k]);
                    } else if t < old_dirs.len() {
                        assert(dirs1[a].files@[k] == new_files[k - old_dirs[t].files@.len()]);
                    } else {
                        assert(dirs1[a].files@[k] == new_files[k]);
                    }
                } else {
                    assert(dirs1[a] == old_dirs[a]);
                }
            }
        }
        i = i + 1;
    }
    assert(saved@.subrange(0, saved@.len() as int) =~= saved@);
    app
}

/// Saving a catalog whose paths differ up to case, and rebuilding from what
/// was saved, gives back each directory's path and backup directory in
/// order, and each directory's files by name and export path.
pub proof fn lemma_save_restore_round_trip(dirs: Seq<DirectoryInfo>, saved: Seq<SaveDirectoryData>)
    requires
        distinct_directories(dirs),
        saved.map_values(|s: SaveDirectoryData| saved_listing(s)) == dirs.map_values(
            |d: DirectoryInfo| listing(d),
        ),
    ensures
        restored_keys(saved) == dirs.map_values(|d: DirectoryInfo| dir_key(d)),
    decreases dirs.len(),
{
    assert(saved.len() == dirs.len()) by {
        assert(saved.map_values(|s: SaveDirectoryData| saved_listing(s)).len() == saved.len());
    }
    if dirs.len() == 0 {
        assert(dirs.map_values(|d: DirectoryInfo| dir_key(d)) =~= Seq::empty());
    } else {
        let n = dirs.len() - 1;
        let dirs0 = dirs.drop_last();
        let saved0 = saved.drop_last();
        assert(saved0.map_values(|s: SaveDirectoryData| saved_listing(s)) =~= dirs0.map_values(
            |d: DirectoryInfo| listing(d),
        )) by {
            assert forall|k: int| 0 <= k < n implies saved_listing(#[trigger] saved0[k]) == listing(
                dirs0[k],
            ) by {
                assert(saved.map_values(|s: SaveDirectoryData| saved_listing(s))[k] == dirs.map_values(
                    |d: DirectoryInfo| listing(d),
                )[k]);
            }
        }
        lemma_save_restore_round_trip(dirs0, saved0);
        let acc = restored_keys(saved0);
        let s = saved.last();
        let d = dirs.last();
        assert(saved.map_values(|s: SaveDirectoryData| saved_listing(s))[n] == dirs.map_values(
            |d: DirectoryInfo| listing(d),
        )[n]);
        assert(saved_listing(s) == listing(d));
        let paths = acc.map_values(|k: (Seq<char>, Seq<char>, Multiset<(Seq<char>, Seq<char>)>)| key_path(k));
        assert forall|k: int| 0 <= k < paths.len() implies !same_up_to_case(#[trigger] paths[k], s.path@) by {
            assert(paths[k] == dirs[k].path@);
        }
        assert(!has_path(paths, s.path@));
        assert(saved.drop_last() == saved0);
        assert(saved_file_keys(s.files@) == file_keys(d.files@));
        assert(restored_keys(saved) =~= dirs.map_values(|d: DirectoryInfo| dir_key(d)));
    }
}

} // verus!
