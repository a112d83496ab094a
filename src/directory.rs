//! One tracked source directory and its files.

use vstd::prelude::*;
use vstd::multiset::Multiset;
use crate::file_info::FileInfo;
use crate::probe::long_enough_for_directory;
use crate::text_order::{
    lemma_text_less_asymmetric, lemma_text_less_total, lemma_text_less_transitive, text_before,
    text_less,
};
use crate::timestamp::{is_time_text, ModifiedTime};

verus! {

broadcast use vstd::seq_lib::group_to_multiset_ensures;

/// A watched directory, its backup directory, and the files tracked in it.
#[derive(Debug, Clone)]
pub struct DirectoryInfo {
    /// The directory's path; directories are told apart by it, ignoring case.
    pub path: String,
    /// Where backup copies go; empty when no backup is set up.
    pub backup_directory: String,
    /// The tracked files, in the order they were added or sorted into.
    pub files: Vec<FileInfo>,
}

/// Newest first: no file's time text comes before that of a file after it.
pub open spec fn newest_first(files: Seq<FileInfo>) -> bool {
    forall|i: int, j: int|
        0 <= i < j < files.len() ==> !text_less(
            #[trigger] files[i].last_edited@,
            #[trigger] files[j].last_edited@,
        )
}

/// The first position from `j` on whose time text comes before `t`, or the
/// end of the list.
pub open spec fn first_older(sorted: Seq<FileInfo>, t: Seq<char>, j: int) -> int
    decreases sorted.len() - j,
{
    if j >= sorted.len() {
        sorted.len() as int
    } else if text_less(sorted[j].last_edited@, t) {
        j
    } else {
        first_older(sorted, t, j + 1)
    }
}

/// `files` ordered newest first, files of equal time text keeping their
/// order: each file in turn goes before the first one older than it.
pub open spec fn by_newest(files: Seq<FileInfo>) -> Seq<FileInfo>
    decreases files.len(),
{
    if files.len() == 0 {
        files
    } else {
        let sorted = by_newest(files.drop_last());
        sorted.insert(first_older(sorted, files.last().last_edited@, 0), files.last())
    }
}

/// What identifies a file record when it is saved: its name and export path.
pub open spec fn file_key(f: FileInfo) -> (Seq<char>, Seq<char>) {
    (f.name@, f.export_path@)
}

/// The saved identities of a list of files, without their order.
pub open spec fn file_keys(files: Seq<FileInfo>) -> Multiset<(Seq<char>, Seq<char>)> {
    files.map_values(|f: FileInfo| file_key(f)).to_multiset()
}

/// The parts of a file record that the user chose, as opposed to those
/// derived from the filesystem.
pub open spec fn chosen_part(f: FileInfo) -> (Seq<char>, Seq<char>, bool) {
    (f.name@, f.export_path@, f.remove_allowed)
}

/// A refreshed record: its time text has the `last_edited` shape, it is
/// synced only against a plausible backup directory, and its export path is
/// valid when empty and only when empty or plausible.
pub open spec fn settled(f: FileInfo, backup_directory: Seq<char>) -> bool {
    &&& is_time_text(f.last_edited@)
    &&& f.synced ==> long_enough_for_directory(backup_directory)
    &&& f.export_path@.len() == 0 ==> f.export_valid
    &&& f.export_valid ==> f.export_path@.len() == 0 || long_enough_for_directory(f.export_path@)
}

/// A record of one list is a record of another with the same multiset.
pub proof fn lemma_permuted_member(a: Seq<FileInfo>, b: Seq<FileInfo>, k: int)
    requires
        a.to_multiset() == b.to_multiset(),
        0 <= k < a.len(),
    ensures
        exists|j: int| 0 <= j < b.len() && b[j] == a[k],
{
    assert(a.contains(a[k]));
    assert(b.to_multiset().count(a[k]) > 0);
    assert(b.contains(a[k]));
}

impl DirectoryInfo {
    /// A directory with the given path and backup directory and no files.
    pub fn new(name: String, backup_directory: String) -> (r: Self)
        ensures
            r.path == name,
            r.backup_directory == backup_directory,
            r.files@.len() == 0,
    {
        DirectoryInfo { path: name, backup_directory, files: Vec::new() }
    }

    /// Appends `file` to the list.
    pub fn add_file(&mut self, file: FileInfo)
        ensures
            final(self).files@ == old(self).files@.push(file),
            final(self).path == old(self).path,
            final(self).backup_directory == old(self).backup_directory,
    {
        self.files.push(file);
    }

    /// The file at `index`, to change in place; `None` past the end.
    pub fn touch_file(&mut self, index: usize) -> (r: Option<&mut FileInfo>)
        ensures
            index >= old(self).files@.len() ==> r is None && *final(self) == *old(self),
            index < old(self).files@.len() ==> r is Some,
            r matches Some(f) ==> {
                &&& index < old(self).files@.len()
                &&& *f == old(self).files@[index as int]
                &&& final(self).files@ == old(self).files@.update(index as int, *final(f))
                &&& final(self).path == old(self).path
                &&& final(self).backup_directory == old(self).backup_directory
            },
    {
        if index < self.files.len() {
            Some(&mut self.files[index])
        } else {
            None
        }
    }

    /// Takes the file at `index` off the list; `None` past the end. Whether
    /// the user allowed the removal is for the caller to check.
    pub fn remove_file(&mut self, index: usize) -> (r: Option<FileInfo>)
        ensures
            index >= old(self).files@.len() ==> r is None && *final(self) == *old(self),
            index < old(self).files@.len() ==> r == Some(old(self).files@[index as int])
                && final(self).files@ == old(self).files@.remove(index as int),
            final(self).path == old(self).path,
            final(self).backup_directory == old(self).backup_directory,
    {
        if index < self.files.len() {
            Some(self.files.remove(index))
        } else {
            None
        }
    }

    /// Recomputes the derived fields of every file, in order. `modified[i]`
    /// is the probed modification time of file `i`; a missing entry counts
    /// as a failed probe.
    pub fn refresh_files(&mut self, modified: &Vec<Option<ModifiedTime>>)
        ensures
            final(self).path == old(self).path,
            final(self).backup_directory == old(self).backup_directory,
            final(self).files@.len() == old(self).files@.len(),
            forall|i: int|
                0 <= i < old(self).files@.len() ==> {
                    &&& chosen_part(#[trigger] final(self).files@[i]) == chosen_part(
                        old(self).files@[i],
                    )
                    &&& settled(final(self).files@[i], old(self).backup_directory@)
                },
    {
        let backup = self.backup_directory.clone();
        let n = self.files.len();
        let mut i: usize = 0;
        while i < n
            invariant
                n == self.files@.len(),
                n == old(self).files@.len(),
                i <= n,
                backup@ == old(self).backup_directory@,
                self.path == old(self).path,
                self.backup_directory == old(self).backup_directory,
                forall|k: int| i <= k < n ==> #[trigger] self.files@[k] == old(self).files@[k],
                forall|k: int|
                    0 <= k < i ==> {
                        &&& chosen_part(#[trigger] self.files@[k]) == chosen_part(
                            old(self).files@[k],
                        )
                        &&& settled(self.files@[k], backup@)
                    },
            decreases n - i,
        {
            let probed = if i < modified.len() {
                modified[i]
            } else {
                None
            };
            self.files[i].refresh_metadata(probed, &backup);
            i = i + 1;
        }
    }

    /// Orders the files newest first by their time text, files of equal time
    /// keeping their relative order.
    pub fn sort_files_by_last_edited(&mut self)
        ensures
            final(self).files@ == by_newest(old(self).files@),
            newest_first(final(self).files@),
            final(self).files@.to_multiset() == old(self).files@.to_multiset(),
            file_keys(final(self).files@) == file_keys(old(self).files@),
            final(self).path == old(self).path,
            final(self).backup_directory == old(self).backup_directory,
    {
        let mut rest: Vec<FileInfo> = Vec::new();
        std::mem::swap(&mut rest, &mut self.files);
        assert(Seq::<FileInfo>::empty().map_values(|f: FileInfo| file_key(f)) =~= Seq::empty());
        let mut sorted: Vec<FileInfo> = Vec::new();
        let ghost all = rest@;
        let ghost mut taken: int = 0;
        assert(all.subrange(0, 0) =~= Seq::<FileInfo>::empty());
        assert(all.subrange(0, all.len() as int) =~= all);
        while rest.len() > 0
            invariant
                all == old(self).files@,
                0 <= taken <= all.len(),
                rest@ == all.subrange(taken, all.len() as int),
                sorted@ == by_newest(all.subrange(0, taken)),
                newest_first(sorted@),
                sorted@.to_multiset().add(rest@.to_multiset()) == old(self).files@.to_multiset(),
                file_keys(sorted@).add(file_keys(rest@)) == file_keys(old(self).files@),
                self.path == old(self).path,
                self.backup_directory == old(self).backup_directory,
            decreases rest@.len(),
        {
            let ghost rest_before = rest@;
            let file = rest.remove(0);
            assert(rest@.map_values(|f: FileInfo| file_key(f)) =~= rest_before.map_values(
                |f: FileInfo| file_key(f),
            ).remove(0));
            let mut j: usize = 0;
            while j < sorted.len() && !text_before(
                sorted[j].last_edited.as_str(),
                file.last_edited.as_str(),
            )
                invariant
                    j <= sorted@.len(),
                    first_older(sorted@, file.last_edited@, 0) == first_older(
                        sorted@,
                        file.last_edited@,
                        j as int,
                    ),
                    forall|k: int|
                        0 <= k < j ==> !text_less(
                            #[trigger] sorted@[k].last_edited@,
                            file.last_edited@,
                        ),
                decreases sorted@.len() - j,
            {
                j = j + 1;
            }
            let ghost before = sorted@;
            proof {
                let next = all.subrange(0, taken + 1);
                assert(next.drop_last() =~= all.subrange(0, taken));
                assert(next.last() == file);
                assert(rest_before[0] == all[taken]);
                assert(first_older(before, file.last_edited@, j as int) == j);
                taken = taken + 1;
                assert(rest@ =~= all.subrange(taken, all.len() as int));
            }
            sorted.insert(j, file);
            assert(sorted@.map_values(|f: FileInfo| file_key(f)) =~= before.map_values(
                |f: FileInfo| file_key(f),
            ).insert(j as int, file_key(file)));
            proof {
                assert forall|a: int, b: int| 0 <= a < b < sorted@.len() implies !text_less(
                    #[trigger] sorted@[a].last_edited@,
                    #[trigger] sorted@[b].last_edited@,
                ) by {
                    if b == j {
                        assert(sorted@[a] == before[a]);
                        assert(sorted@[b] == file);
                        assert(!text_less(sorted@[a].last_edited@, file.last_edited@));
                    } else if a == j {
                        let x = file.last_edited@;
                        let jk = before[j as int].last_edited@;
                        let bk = before[b - 1].last_edited@;
                        assert(sorted@[b] == before[b - 1]);
                        assert(text_less(jk, x));
                        if b - 1 > j {
                            assert(!text_less(jk, bk));
                            lemma_text_less_total(jk, bk);
                            lemma_text_less_transitive(bk, jk, x);
                        }
                        lemma_text_less_asymmetric(bk, x);
                        assert(sorted@[a] == file);
                    } else {
                        let a0 = if a < j { a } else { a - 1 };
                        let b0 = if b < j { b } else { b - 1 };
                        assert(sorted@[a] == before[a0]);
                        assert(sorted@[b] == before[b0]);
                        assert(a0 < b0);
                    }
                }
            }
        }
        self.files = sorted;
    }
}

} // verus!
