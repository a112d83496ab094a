//! The state a session works on: the current directory and the catalog.

use vstd::prelude::*;
use vstd::multiset::Multiset;
use crate::directory::{
    chosen_part, file_key, file_keys, lemma_permuted_member, newest_first, settled, DirectoryInfo,
};
use crate::file_info::FileInfo;
use crate::probe::{get_directory_of_file, is_valid_directory, is_valid_file, long_enough_for_directory};
use crate::user_data::{
    has_directory, lemma_path_index_first, paths_of, touch_index, touched_dirs,
};
use crate::path_text::is_run_of;
use crate::timestamp::{is_time_text, ModifiedTime};
use crate::user_data::UserData;

verus! {

/// The current directory, whether it is valid, and every tracked directory.
#[derive(Debug)]
pub struct App {
    pub current_directory: String,
    pub current_directory_valid: bool,
    pub user_data: UserData,
}

/// What the user did to one file of the current directory.
#[derive(Debug, Clone)]
pub enum FileMessage {
    IgnoreInput(String),
    Sync,
    ExportPathInput(String),
    ExportPathSubmit,
    Remove,
    RemoveAllowedToggled(bool),
}

/// A directory's path, backup directory, and the saved identities of its
/// files without their order.
pub open spec fn dir_key(d: DirectoryInfo) -> (Seq<char>, Seq<char>, Multiset<(Seq<char>, Seq<char>)>) {
    (d.path@, d.backup_directory@, file_keys(d.files@))
}

/// `new_dirs` is `old_dirs` after the record `f` was added to the directory
/// `cur`, got or inserted: that directory keeps its path and backup directory
/// (a new one has path `cur` and none) and gains `f` at the end of its files.
pub open spec fn added_file(
    old_dirs: Seq<DirectoryInfo>,
    cur: Seq<char>,
    new_dirs: Seq<DirectoryInfo>,
    f: FileInfo,
) -> bool {
    let t = touch_index(old_dirs, cur);
    let rec = new_dirs[t];
    &&& 0 <= t < new_dirs.len()
    &&& rec.files@.last() == f
    &&& new_dirs == touched_dirs(old_dirs, cur, rec)
    &&& rec.files@.len() > 0
    &&& has_directory(old_dirs, cur) ==> {
        &&& rec.path == old_dirs[t].path
        &&& rec.backup_directory == old_dirs[t].backup_directory
        &&& rec.files@.drop_last() == old_dirs[t].files@
    }
    &&& !has_directory(old_dirs, cur) ==> {
        &&& rec.path@ == cur
        &&& rec.backup_directory@.len() == 0
        &&& rec.files@.len() == 1
    }
}

/// `new_dir` is `old_dir` after `message` about its file `index`: a new
/// export path is set and checked again (an empty one is valid), the removal
/// permission is set, or the file is taken off the list when its removal is
/// permitted. Anything else, or an index past the end, changes nothing.
pub open spec fn message_applied(
    old_dir: DirectoryInfo,
    new_dir: DirectoryInfo,
    index: int,
    message: FileMessage,
) -> bool {
    let files = old_dir.files@;
    &&& new_dir.path == old_dir.path
    &&& new_dir.backup_directory == old_dir.backup_directory
    &&& if 0 <= index < files.len() {
        let f = files[index];
        match message {
            FileMessage::ExportPathInput(p) => {
                let g = new_dir.files@[index];
                &&& new_dir.files@ == files.update(index, g)
                &&& g.export_path == p
                &&& g.name == f.name
                &&& g.last_edited == f.last_edited
                &&& g.synced == f.synced
                &&& g.remove_allowed == f.remove_allowed
                &&& p@.len() == 0 ==> g.export_valid
                &&& g.export_valid ==> p@.len() == 0 || long_enough_for_directory(p@)
            },
            FileMessage::RemoveAllowedToggled(allowed) => new_dir.files@ == files.update(
                index,
                FileInfo { remove_allowed: allowed, ..f },
            ),
            FileMessage::Remove => if f.remove_allowed {
                new_dir.files@ == files.remove(index)
            } else {
                new_dir.files@ == files
            },
            _ => new_dir.files@ == files,
        }
    } else {
        new_dir.files@ == files
    }
}

/// A record after a refresh: settled against `backup_directory`, with the
/// name, export path and removal permission of one of `old_files`.
pub open spec fn refreshed_from(
    f: FileInfo,
    backup_directory: Seq<char>,
    old_files: Seq<FileInfo>,
) -> bool {
    &&& settled(f, backup_directory)
    &&& exists|j: int| 0 <= j < old_files.len() && chosen_part(f) == chosen_part(#[trigger] old_files[j])
}

/// `new_dirs` is `old_dirs` after a get-or-insert of `name` whose record
/// was left as `rec`: the found record, or a new one with path `name`, no
/// backup directory and no files, appended.
pub open spec fn touched_as(
    old_dirs: Seq<DirectoryInfo>,
    name: Seq<char>,
    new_dirs: Seq<DirectoryInfo>,
    rec: DirectoryInfo,
) -> bool {
    let t = touch_index(old_dirs, name);
    &&& 0 <= t < new_dirs.len()
    &&& new_dirs[t] == rec
    &&& new_dirs == touched_dirs(old_dirs, name, rec)
}

impl App {
    /// No current directory and an empty catalog.
    pub fn new() -> (r: Self)
        ensures
            r.current_directory@.len() == 0,
            !r.current_directory_valid,
            r.user_data.directories@.len() == 0,
    {
        App {
            current_directory: String::new(),
            current_directory_valid: false,
            user_data: UserData::new(),
        }
    }

    /// Makes `current_directory` current and checks whether it is a valid
    /// directory.
    pub fn change_current_directory(&mut self, current_directory: String)
        ensures
            final(self).current_directory == current_directory,
            final(self).current_directory_valid ==> long_enough_for_directory(
                current_directory@,
            ),
            final(self).user_data == old(self).user_data,
    {
        self.current_directory = current_directory;
        self.current_directory_valid = is_valid_directory(&self.current_directory);
    }

    /// Opens `directory`: it becomes current and is checked; a valid one is
    /// got or inserted in the catalog. The result says whether it is valid,
    /// in which case its files are due a refresh.
    pub fn open_directory(&mut self, directory: String) -> (r: bool)
        ensures
            final(self).current_directory == directory,
            r == final(self).current_directory_valid,
            r ==> long_enough_for_directory(directory@),
            !r ==> final(self).user_data == old(self).user_data,
            r && has_directory(old(self).user_data.directories@, directory@)
                ==> final(self).user_data.directories@ == old(self).user_data.directories@,
            r && !has_directory(old(self).user_data.directories@, directory@) ==> {
                let rec = final(self).user_data.directories@.last();
                &&& final(self).user_data.directories@ == old(self).user_data.directories@.push(rec)
                &&& rec.path@ == directory@
                &&& rec.backup_directory@.len() == 0
                &&& rec.files@.len() == 0
            },
    {
        self.change_current_directory(directory);
        if !self.current_directory_valid {
            return false;
        }
        proof {
            lemma_path_index_first(paths_of(self.user_data.directories@), self.current_directory@);
        }
        let ghost old_dirs = self.user_data.directories@;
        self.user_data.touch_directory_or_insert(self.current_directory.as_str());
        proof {
            let cur = self.current_directory@;
            if has_directory(old_dirs, cur) {
                assert(old_dirs.update(touch_index(old_dirs, cur), old_dirs[touch_index(old_dirs, cur)])
                    =~= old_dirs);
            }
        }
        true
    }

    /// Pairs the current directory with `backup_directory`, getting or
    /// inserting it in the catalog; nothing changes when the current
    /// directory is not valid. The result says whether the pairing was made,
    /// in which case the directory's files are due a refresh.
    pub fn set_backup_directory(&mut self, backup_directory: String) -> (r: bool)
        ensures
            r == old(self).current_directory_valid,
            !r ==> *final(self) == *old(self),
            final(self).current_directory == old(self).current_directory,
            final(self).current_directory_valid == old(self).current_directory_valid,
            r ==> {
                let old_dirs = old(self).user_data.directories@;
                let cur = old(self).current_directory@;
                let rec = final(self).user_data.directories@[touch_index(old_dirs, cur)];
                &&& touched_as(old_dirs, cur, final(self).user_data.directories@, rec)
                &&& rec.backup_directory == backup_directory
                &&& has_directory(old_dirs, cur) ==> rec.path == old_dirs[touch_index(
                    old_dirs,
                    cur,
                )].path && rec.files == old_dirs[touch_index(old_dirs, cur)].files
                &&& !has_directory(old_dirs, cur) ==> rec.path@ == cur && rec.files@.len() == 0
            },
    {
        if !self.current_directory_valid {
            return false;
        }
        proof {
            lemma_path_index_first(paths_of(self.user_data.directories@), self.current_directory@);
        }
        let dir = self.user_data.touch_directory_or_insert(self.current_directory.as_str());
        dir.backup_directory = backup_directory;
        true
    }

    /// Tracks the dropped file at `path`: its directory becomes current and
    /// is got or inserted, and a record of the file is appended to it, its
    /// time text from the probed modification time. Nothing changes when
    /// `path` is not an accessible file with a parent directory and a name;
    /// the result says whether the file was added.
    pub fn add_dropped_file(&mut self, path: &String, modified: Option<ModifiedTime>) -> (r: bool)
        ensures
            !r ==> *final(self) == *old(self),
            r ==> {
                let t = touch_index(
                    old(self).user_data.directories@,
                    final(self).current_directory@,
                );
                let f = final(self).user_data.directories@[t].files@.last();
                &&& final(self).current_directory@.len() < path@.len()
                &&& final(self).current_directory@ == path@.subrange(
                    0,
                    final(self).current_directory@.len() as int,
                )
                &&& added_file(
                    old(self).user_data.directories@,
                    final(self).current_directory@,
                    final(self).user_data.directories@,
                    f,
                )
                &&& is_run_of(f.name@, path@)
                &&& is_time_text(f.last_edited@)
                &&& f.export_path@.len() == 0
                &&& !f.synced
                &&& !f.remove_allowed
                &&& !f.export_valid
            },
    {
        let path_is_file = is_valid_file(path);
        let directory = if path_is_file {
            get_directory_of_file(path)
        } else {
            None
        };
        let file = if path_is_file {
            FileInfo::from_path(path, modified)
        } else {
            None
        };
        self.add_file_given(path_is_file, directory, file)
    }

    /// The rule for a dropped file, given whether the dropped path is a file,
    /// the directory holding it, and the record made for it: when all three
    /// are there, the directory becomes current and is got or inserted, and
    /// the record is appended to it; otherwise nothing changes. The result
    /// says whether the record was added.
    pub fn add_file_given(
        &mut self,
        path_is_file: bool,
        directory: Option<String>,
        file: Option<FileInfo>,
    ) -> (r: bool)
        ensures
            r == (path_is_file && directory is Some && file is Some),
            !r ==> *final(self) == *old(self),
            r ==> {
                &&& final(self).current_directory == directory->0
                &&& final(self).current_directory_valid ==> long_enough_for_directory(
                    final(self).current_directory@,
                )
                &&& added_file(
                    old(self).user_data.directories@,
                    final(self).current_directory@,
                    final(self).user_data.directories@,
                    file->0,
                )
            },
    {
        if !path_is_file {
            return false;
        }
        let directory = match directory {
            Some(d) => d,
            None => return false,
        };
        let file = match file {
            Some(f) => f,
            None => return false,
        };
        self.change_current_directory(directory);
        let ghost old_dirs = self.user_data.directories@;
        let ghost added = file;
        let dir = self.user_data.touch_directory_or_insert(self.current_directory.as_str());
        dir.files.push(file);
        proof {
            let cur = self.current_directory@;
            let t = touch_index(old_dirs, cur);
            let rec = self.user_data.directories@[t];
            assert(touched_dirs(old_dirs, cur, rec) == self.user_data.directories@);
            if has_directory(old_dirs, cur) {
                assert(rec.files@.drop_last() =~= old_dirs[t].files@);
            }
            assert(rec.files@.last() == added);
        }
        true
    }

    /// Applies a change the user made to file `index` of the current
    /// directory: a new export path (checked again at once), the removal
    /// permission, or the removal itself, which happens only when permitted.
    /// Syncs go through `FileInfo::sync_plan`, and the other messages change
    /// nothing. Nothing changes when there is no such file.
    pub fn apply_file_message(&mut self, index: usize, message: FileMessage)
        ensures
            final(self).current_directory == old(self).current_directory,
            final(self).current_directory_valid == old(self).current_directory_valid,
            final(self).user_data.directories@.len() == old(self).user_data.directories@.len(),
            !has_directory(old(self).user_data.directories@, old(self).current_directory@)
                ==> *final(self) == *old(self),
            has_directory(old(self).user_data.directories@, old(self).current_directory@)
                ==> message_applied(
                old(self).user_data.directories@[touch_index(
                    old(self).user_data.directories@,
                    old(self).current_directory@,
                )],
                final(self).user_data.directories@[touch_index(
                    old(self).user_data.directories@,
                    old(self).current_directory@,
                )],
                index as int,
                message,
            ),
            forall|i: int|
                0 <= i < old(self).user_data.directories@.len() && i != touch_index(
                    old(self).user_data.directories@,
                    old(self).current_directory@,
                ) ==> #[trigger] final(self).user_data.directories@[i] == old(
                    self,
                ).user_data.directories@[i],
    {
        match self.user_data.touch_directory(self.current_directory.as_str()) {
            Some(dir) => {
                let ghost old_files = dir.files@;
                if index < dir.files.len() {
                    match message {
                        FileMessage::ExportPathInput(p) => {
                            let file = &mut dir.files[index];
                            file.export_path = p;
                            file.refresh_export_valid();
                            assert(dir.files@ =~= old_files.update(index as int, dir.files@[index as int]));
                        },
                        FileMessage::RemoveAllowedToggled(allowed) => {
                            dir.files[index].remove_allowed = allowed;
                            assert(dir.files@ =~= old_files.update(
                                index as int,
                                FileInfo { remove_allowed: allowed, ..old_files[index as int] },
                            ));
                        },
                        FileMessage::Remove => {
                            if dir.files[index].remove_allowed {
                                dir.files.remove(index);
                            }
                        },
                        _ => {},
                    }
                }
            },
            None => {},
        }
    }

    /// Recomputes the derived fields of every file of every directory, then
    /// orders each directory's files newest first. `modified[i][k]` is the
    /// probed modification time of file `k` of directory `i`; a missing entry
    /// counts as a failed probe.
    pub fn refresh_all(&mut self, modified: &Vec<Vec<Option<ModifiedTime>>>)
        ensures
            final(self).current_directory == old(self).current_directory,
            final(self).current_directory_valid == old(self).current_directory_valid,
            final(self).user_data.directories@.len() == old(self).user_data.directories@.len(),
            forall|i: int|
                0 <= i < old(self).user_data.directories@.len() ==> {
                    &&& dir_key(#[trigger] final(self).user_data.directories@[i]) == dir_key(
                        old(self).user_data.directories@[i],
                    )
                    &&& newest_first(final(self).user_data.directories@[i].files@)
                },
            forall|i: int, k: int|
                0 <= i < final(self).user_data.directories@.len() && 0 <= k
                    < final(self).user_data.directories@[i].files@.len() ==> refreshed_from(
                    #[trigger] final(self).user_data.directories@[i].files@[k],
                    final(self).user_data.directories@[i].backup_directory@,
                    old(self).user_data.directories@[i].files@,
                ),
    {
        let n = self.user_data.directories.len();
        let none: Vec<Option<ModifiedTime>> = Vec::new();
        let mut i: usize = 0;
        while i < n
            invariant
                n == self.user_data.directories@.len(),
                n == old(self).user_data.directories@.len(),
                i <= n,
                self.current_directory == old(self).current_directory,
                self.current_directory_valid == old(self).current_directory_valid,
                forall|k: int|
                    i <= k < n ==> #[trigger] self.user_data.directories@[k]
                        == old(self).user_data.directories@[k],
                forall|k: int|
                    0 <= k < i ==> {
                        &&& dir_key(#[trigger] self.user_data.directories@[k]) == dir_key(
                            old(self).user_data.directories@[k],
                        )
                        &&& newest_first(self.user_data.directories@[k].files@)
                    },
                forall|a: int, k: int|
                    0 <= a < i && 0 <= k < self.user_data.directories@[a].files@.len()
                        ==> refreshed_from(
                        #[trigger] self.user_data.directories@[a].files@[k],
                        self.user_data.directories@[a].backup_directory@,
                        old(self).user_data.directories@[a].files@,
                    ),
            decreases n - i,
        {
            let times = if i < modified.len() {
                &modified[i]
            } else {
                &none
            };
            let ghost prior = self.user_data.directories@;
            let ghost before = self.user_data.directories@[i as int];
            self.user_data.directories[i].refresh_files(times);
            let ghost refreshed = self.user_data.directories@[i as int];
            assert(refreshed.files@.map_values(|f: FileInfo| file_key(f)) =~= before.files@.map_values(
                |f: FileInfo| file_key(f),
            )) by {
                assert forall|k: int| 0 <= k < before.files@.len() implies #[trigger] file_key(
                    refreshed.files@[k],
                ) == file_key(before.files@[k]) by {
                    assert(chosen_part(refreshed.files@[k]) == chosen_part(before.files@[k]));
                }
            }
            self.user_data.directories[i].sort_files_by_last_edited();
            proof {
                let sorted = self.user_data.directories@[i as int];
                assert(before == old(self).user_data.directories@[i as int]);
                assert forall|k: int| 0 <= k < sorted.files@.len() implies refreshed_from(
                    #[trigger] sorted.files@[k],
                    sorted.backup_directory@,
                    before.files@,
                ) by {
                    lemma_permuted_member(sorted.files@, refreshed.files@, k);
                    let j = choose|j: int|
                        0 <= j < refreshed.files@.len() && refreshed.files@[j] == sorted.files@[k];
                    assert(chosen_part(refreshed.files@[j]) == chosen_part(before.files@[j]));
                }
                assert forall|a: int, k: int|
                    0 <= a < i + 1 && 0 <= k < self.user_data.directories@[a].files@.len()
                        implies refreshed_from(
                        #[trigger] self.user_data.directories@[a].files@[k],
                        self.user_data.directories@[a].backup_directory@,
                        old(self).user_data.directories@[a].files@,
                    ) by {
                    if a != i {
                        assert(self.user_data.directories@[a] == prior[a]);
                    }
                }
            }
            i = i + 1;
        }
    }
}

} // verus!
