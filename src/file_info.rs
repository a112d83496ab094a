//! One tracked file: its identity and the state derived from the filesystem.

use vstd::prelude::*;
use crate::path_text::{
    append_path, file_name_text, is_run_of, joined, last_segment, plain_last_segment,
};
use crate::probe::{
    classified, is_valid_directory, is_valid_file, long_enough_for_directory, ExportPathState,
};
use crate::timestamp::{is_time_text, last_edited_text, ModifiedTime};

verus! {

/// A tracked file.
#[derive(Debug, Clone)]
pub struct FileInfo {
    /// The file's base name.
    pub name: String,
    /// The file's modification time as text, as of the last refresh.
    pub last_edited: String,
    /// Where a second copy goes: empty, a directory, or a file path.
    pub export_path: String,
    /// Whether a backup copy under the current backup name exists.
    pub synced: bool,
    /// Whether the user allowed the file to be taken off the list.
    pub remove_allowed: bool,
    /// Whether `export_path` can receive a copy (an empty one can).
    pub export_valid: bool,
}

/// A character that cannot stand in a file name on every platform and is
/// replaced in the backup name.
pub open spec fn is_time_separator(c: char) -> bool {
    c == ' ' || c == ':'
}

pub open spec fn dash_for(c: char) -> char {
    if is_time_separator(c) {
        '-'
    } else {
        c
    }
}

/// A time text made safe for file names: spaces and colons become hyphens.
pub open spec fn dashed(s: Seq<char>) -> Seq<char> {
    s.map_values(|c: char| dash_for(c))
}

/// The backup copy's name: the dashed time, an underscore, the file name.
pub open spec fn backup_name(name: Seq<char>, last_edited: Seq<char>) -> Seq<char> {
    dashed(last_edited) + seq!['_'] + name
}

/// A character that the backup name shows as a hyphen.
pub open spec fn shows_as_hyphen(c: char) -> bool {
    c == ' ' || c == ':' || c == '-'
}

/// The two time texts differ other than by separator characters (space,
/// colon, hyphen) standing for one another at the same places.
pub open spec fn times_distinguishable(a: Seq<char>, b: Seq<char>) -> bool {
    a.len() != b.len() || exists|k: int|
        0 <= k < a.len() && a[k] != b[k] && !(shows_as_hyphen(#[trigger] a[k]) && shows_as_hyphen(
            b[k],
        ))
}

/// Two records with the same name and time text have the same backup name.
pub proof fn lemma_backup_name_deterministic(f: FileInfo, g: FileInfo)
    requires
        f.name@ == g.name@,
        f.last_edited@ == g.last_edited@,
    ensures
        backup_name(f.name@, f.last_edited@) == backup_name(g.name@, g.last_edited@),
{
}

/// A change of the time text changes the backup name, so repeated syncs of
/// a modified file leave distinct copies; a change that only swaps spaces,
/// colons and hyphens for one another is not seen.
pub proof fn lemma_backup_name_follows_time(name: Seq<char>, a: Seq<char>, b: Seq<char>)
    requires
        times_distinguishable(a, b),
    ensures
        backup_name(name, a) != backup_name(name, b),
{
    if backup_name(name, a) == backup_name(name, b) {
        assert(backup_name(name, a).len() == a.len() + 1 + name.len());
        assert(a.len() == b.len());
        let k = choose|k: int|
            0 <= k < a.len() && a[k] != b[k] && !(shows_as_hyphen(#[trigger] a[k])
                && shows_as_hyphen(b[k]));
        assert(backup_name(name, a)[k] == dash_for(a[k]));
        assert(backup_name(name, b)[k] == dash_for(b[k]));
    }
}

/// Whether the export path is acceptable, given its classification.
pub open spec fn export_acceptable(export_path: Seq<char>, target: ExportPathState) -> bool {
    export_path.len() == 0 || !(target is Invalid)
}

/// The sync rule: a file is synced when the backup directory is valid and
/// the copy under the current backup name exists in it.
pub fn synced_from(backup_is_directory: bool, backup_copy_exists: bool) -> (r: bool)
    ensures
        r == (backup_is_directory && backup_copy_exists),
{
    backup_is_directory && backup_copy_exists
}

/// One copy of a file to make.
#[derive(Debug, Clone)]
pub struct CopyJob {
    pub from: String,
    pub to: String,
}

impl CopyJob {
    pub open spec fn pair(self) -> (Seq<char>, Seq<char>) {
        (self.from@, self.to@)
    }
}

/// The copies a sync makes, as (from, to) pairs: a backup copy when the
/// backup directory is valid, then an export copy by the export path's
/// classification.
pub open spec fn planned_copies(
    file: FileInfo,
    self_directory: Seq<char>,
    backup_directory: Seq<char>,
    backup_is_directory: bool,
    target: ExportPathState,
) -> Seq<(Seq<char>, Seq<char>)> {
    let source = joined(self_directory, file.name@);
    let backup: Seq<(Seq<char>, Seq<char>)> = if backup_is_directory {
        seq![(source, joined(backup_directory, backup_name(file.name@, file.last_edited@)))]
    } else {
        seq![]
    };
    let export: Seq<(Seq<char>, Seq<char>)> = match target {
        ExportPathState::AsDirectoryPath => seq![(source, joined(file.export_path@, file.name@))],
        ExportPathState::AsFilePath => seq![(source, file.export_path@)],
        ExportPathState::Invalid => seq![],
    };
    backup + export
}

fn is_time_separator_char(c: char) -> (r: bool)
    ensures
        r == is_time_separator(c),
{
    c == ' ' || c == ':'
}

/// `s` with spaces and colons turned into hyphens.
fn dash_separators(s: &str) -> (r: String)
    ensures
        r@ == dashed(s@),
{
    let n = s.unicode_len();
    let mut out = String::new();
    let mut run_start: usize = 0;
    let mut i: usize = 0;
    proof {
        reveal_strlit("-");
    }
    while i < n
        invariant
            n == s@.len(),
            run_start <= i <= n,
            out@ == dashed(s@.subrange(0, run_start as int)),
            forall|k: int| run_start <= k < i ==> !is_time_separator(#[trigger] s@[k]),
        decreases n - i,
    {
        if is_time_separator_char(s.get_char(i)) {
            let run = s.substring_char(run_start, i);
            let ghost before = out@;
            out = out.concat(run);
            out = out.concat("-");
            proof {
                reveal_strlit("-");
            }
            assert(out@ =~= before + s@.subrange(run_start as int, i as int) + seq!['-']);
            assert forall|k: int| 0 <= k < i + 1 implies out@[k] == dash_for(s@[k]) by {
                if k < run_start {
                    assert(before[k] == dashed(s@.subrange(0, run_start as int))[k]);
                } else if k < i {
                    assert(out@[k] == s@.subrange(run_start as int, i as int)[k - run_start]);
                }
            }
            assert(out@ =~= dashed(s@.subrange(0, i + 1)));
            run_start = i + 1;
        }
        i = i + 1;
    }
    let run = s.substring_char(run_start, n);
    let ghost before = out@;
    out = out.concat(run);
    assert forall|k: int| 0 <= k < n implies out@[k] == dash_for(s@[k]) by {
        if k < run_start {
            assert(before[k] == dashed(s@.subrange(0, run_start as int))[k]);
        } else {
            assert(out@[k] == s@.subrange(run_start as int, n as int)[k - run_start]);
        }
    }
    assert(out@ =~= dashed(s@.subrange(0, n as int)));
    assert(s@.subrange(0, n as int) =~= s@);
    out
}

impl FileInfo {
    /// A record with every text empty and every flag off.
    pub fn empty() -> (r: Self)
        ensures
            r.name@.len() == 0,
            r.last_edited@.len() == 0,
            r.export_path@.len() == 0,
            !r.synced,
            !r.remove_allowed,
            !r.export_valid,
    {
        FileInfo {
            name: String::new(),
            last_edited: String::new(),
            export_path: String::new(),
            synced: false,
            remove_allowed: false,
            export_valid: false,
        }
    }

    /// A record of the given name, time text and export path, with every flag
    /// off.
    pub fn new(name: String, modified: String, export_path: String) -> (r: Self)
        ensures
            r.name == name,
            r.last_edited == modified,
            r.export_path == export_path,
            !r.synced,
            !r.remove_allowed,
            !r.export_valid,
    {
        FileInfo {
            name,
            last_edited: modified,
            export_path,
            synced: false,
            remove_allowed: false,
            export_valid: false,
        }
    }

    /// A record for the file at `path`, named by the path's final component,
    /// with its time text from the probed modification time (or the current
    /// time when the probe failed); `None` when the path has no final
    /// component. A path with a plain last segment always gets a record.
    pub fn from_path(path: &String, modified: Option<ModifiedTime>) -> (r: Option<Self>)
        ensures
            r matches Some(f) ==> {
                &&& f.export_path@.len() == 0
                &&& !f.synced
                &&& !f.remove_allowed
                &&& !f.export_valid
                &&& is_run_of(f.name@, path@)
                &&& is_time_text(f.last_edited@)
            },
            plain_last_segment(path@) ==> (r matches Some(f) && f.name@ == last_segment(path@)),
    {
        match file_name_text(path) {
            Some(name) => {
                Some(FileInfo {
                name,
                last_edited: last_edited_text(modified),
                export_path: String::new(),
                synced: false,
                remove_allowed: false,
                export_valid: false,
            })
            },
            None => None,
        }
    }

    /// The path of the tracked file inside `self_directory`.
    pub fn source_path(&self, self_directory: &String) -> (r: String)
        ensures
            r@ == joined(self_directory@, self.name@),
    {
        append_path(self_directory, &self.name)
    }

    /// The name of the backup copy for the current time text.
    pub fn backup_filename(&self) -> (r: String)
        ensures
            r@ == backup_name(self.name@, self.last_edited@),
    {
        let date = dash_separators(self.last_edited.as_str());
        proof {
            reveal_strlit("_");
        }
        let with_underscore = date.concat("_");
        let r = with_underscore.concat(self.name.as_str());
        assert(r@ =~= backup_name(self.name@, self.last_edited@));
        r
    }

    /// Where the backup copy goes inside `backup_directory`.
    pub fn backup_path(&self, backup_directory: &String) -> (r: String)
        ensures
            r@ == joined(backup_directory@, backup_name(self.name@, self.last_edited@)),
    {
        let name = self.backup_filename();
        append_path(backup_directory, &name)
    }

    /// Sets the time text from the probed modification time of the file,
    /// falling back to the current time when the probe failed.
    pub fn refresh_last_edited(&mut self, modified: Option<ModifiedTime>)
        ensures
            is_time_text(final(self).last_edited@),
            final(self).name == old(self).name,
            final(self).export_path == old(self).export_path,
            final(self).synced == old(self).synced,
            final(self).remove_allowed == old(self).remove_allowed,
            final(self).export_valid == old(self).export_valid,
    {
        self.last_edited = last_edited_text(modified);
    }

    /// Sets `synced` to whether `backup_directory` is a valid directory
    /// holding a file under the current backup name (see `synced_from`).
    pub fn refresh_synced(&mut self, backup_directory: &String)
        ensures
            final(self).synced ==> long_enough_for_directory(backup_directory@),
            final(self).name == old(self).name,
            final(self).last_edited == old(self).last_edited,
            final(self).export_path == old(self).export_path,
            final(self).remove_allowed == old(self).remove_allowed,
            final(self).export_valid == old(self).export_valid,
    {
        let backup_is_directory = is_valid_directory(backup_directory);
        let backup_copy_exists = if backup_is_directory {
            let path = self.backup_path(backup_directory);
            is_valid_file(&path)
        } else {
            false
        };
        self.synced = synced_from(backup_is_directory, backup_copy_exists);
    }

    /// Sets `export_valid` from the export path: an empty path is valid, any
    /// other is valid unless it classifies as `Invalid`.
    pub fn refresh_export_valid(&mut self)
        ensures
            exists|d: bool, p: bool|
                final(self).export_valid == export_acceptable(
                    old(self).export_path@,
                    classified(d, p),
                ) && (d ==> long_enough_for_directory(old(self).export_path@)) && (p
                    ==> long_enough_for_directory(old(self).export_path@)),
            final(self).name == old(self).name,
            final(self).last_edited == old(self).last_edited,
            final(self).export_path == old(self).export_path,
            final(self).synced == old(self).synced,
            final(self).remove_allowed == old(self).remove_allowed,
    {
        let target = ExportPathState::new(&self.export_path);
        self.export_valid = self.export_path.as_str().unicode_len() == 0 || target.is_valid();
    }

    /// Recomputes every derived field: the time text first, then `synced`
    /// against the new backup name, then `export_valid`.
    pub fn refresh_metadata(&mut self, modified: Option<ModifiedTime>, backup_directory: &String)
        ensures
            final(self).name == old(self).name,
            final(self).export_path == old(self).export_path,
            final(self).remove_allowed == old(self).remove_allowed,
            is_time_text(final(self).last_edited@),
            final(self).synced ==> long_enough_for_directory(backup_directory@),
            old(self).export_path@.len() == 0 ==> final(self).export_valid,
            final(self).export_valid ==> old(self).export_path@.len() == 0
                || long_enough_for_directory(old(self).export_path@),
    {
        self.refresh_last_edited(modified);
        self.refresh_synced(backup_directory);
        self.refresh_export_valid();
    }

    /// The copies a sync makes, given whether the backup directory is valid
    /// and how the export path classifies.
    pub fn plan_copies(
        &self,
        self_directory: &String,
        backup_directory: &String,
        backup_is_directory: bool,
        target: ExportPathState,
    ) -> (r: Vec<CopyJob>)
        ensures
            r@.map_values(|j: CopyJob| j.pair()) == planned_copies(
                *self,
                self_directory@,
                backup_directory@,
                backup_is_directory,
                target,
            ),
    {
        let mut jobs: Vec<CopyJob> = Vec::new();
        if backup_is_directory {
            jobs.push(
                CopyJob { from: self.source_path(self_directory), to: self.backup_path(backup_directory) },
            );
        }
        match target {
            ExportPathState::AsDirectoryPath => {
                jobs.push(
                    CopyJob {
                        from: self.source_path(self_directory),
                        to: append_path(&self.export_path, &self.name),
                    },
                );
            },
            ExportPathState::AsFilePath => {
                jobs.push(
                    CopyJob { from: self.source_path(self_directory), to: self.export_path.clone() },
                );
            },
            ExportPathState::Invalid => {},
        }
        assert(jobs@.map_values(|j: CopyJob| j.pair()) =~= planned_copies(
            *self,
            self_directory@,
            backup_directory@,
            backup_is_directory,
            target,
        ));
        jobs
    }

    /// The copies a sync of this file makes now: the backup copy when
    /// `backup_directory` is a valid directory, and the export copy when the
    /// export path classifies as a directory or a file path.
    pub fn sync_plan(&self, self_directory: &String, backup_directory: &String) -> (r: Vec<CopyJob>)
        ensures
            exists|b: bool, d: bool, p: bool|
                r@.map_values(|j: CopyJob| j.pair()) == planned_copies(
                    *self,
                    self_directory@,
                    backup_directory@,
                    b,
                    classified(d, p),
                ) && (b ==> long_enough_for_directory(backup_directory@)) && (d
                    ==> long_enough_for_directory(self.export_path@)) && (p
                    ==> long_enough_for_directory(self.export_path@)),
    {
        let backup_is_directory = is_valid_directory(backup_directory);
        let target = ExportPathState::new(&self.export_path);
        self.plan_copies(self_directory, backup_directory, backup_is_directory, target)
    }
}

} // verus!
