//! The catalog of tracked directories, looked up by path ignoring case.

use vstd::prelude::*;
use crate::directory::DirectoryInfo;

verus! {

/// What `str::to_lowercase` makes of a text.
pub uninterp spec fn lower_of(s: Seq<char>) -> Seq<char>;

/// Relies on `str::to_lowercase`: the lower-case form of the text, which
/// depends on its characters alone.
#[verifier::external_body]
fn lowercase(s: &str) -> (r: String)
    ensures
        r@ == lower_of(s@),
{
    s.to_lowercase()
}

/// The two texts are the same up to case.
pub open spec fn same_up_to_case(a: Seq<char>, b: Seq<char>) -> bool {
    lower_of(a) == lower_of(b)
}

/// Some path of `paths` is `name`, up to case.
pub open spec fn has_path(paths: Seq<Seq<char>>, name: Seq<char>) -> bool {
    exists|i: int| 0 <= i < paths.len() && same_up_to_case(#[trigger] paths[i], name)
}

/// `i` is the first path of `paths` that is `name`, up to case.
pub open spec fn is_first_path(paths: Seq<Seq<char>>, name: Seq<char>, i: int) -> bool {
    &&& 0 <= i < paths.len()
    &&& same_up_to_case(paths[i], name)
    &&& forall|k: int| 0 <= k < i ==> !same_up_to_case(#[trigger] paths[k], name)
}

/// Where a lookup of `name` lands: the first path that is `name` up to case,
/// or the end of the list, where a new entry is put.
pub open spec fn path_index(paths: Seq<Seq<char>>, name: Seq<char>) -> int {
    if has_path(paths, name) {
        choose|i: int| is_first_path(paths, name, i)
    } else {
        paths.len() as int
    }
}

/// The paths of the directories, in order.
pub open spec fn paths_of(dirs: Seq<DirectoryInfo>) -> Seq<Seq<char>> {
    dirs.map_values(|d: DirectoryInfo| d.path@)
}

/// Some directory of `dirs` is named `name`, up to case.
pub open spec fn has_directory(dirs: Seq<DirectoryInfo>, name: Seq<char>) -> bool {
    has_path(paths_of(dirs), name)
}

/// Where a lookup of `name` in `dirs` lands.
pub open spec fn touch_index(dirs: Seq<DirectoryInfo>, name: Seq<char>) -> int {
    path_index(paths_of(dirs), name)
}

/// The directory list after a get-or-insert of `name`, whose record ends up
/// as `rec`: the found record replaced, or `rec` appended.
pub open spec fn touched_dirs(dirs: Seq<DirectoryInfo>, name: Seq<char>, rec: DirectoryInfo) -> Seq<
    DirectoryInfo,
> {
    if has_directory(dirs, name) {
        dirs.update(touch_index(dirs, name), rec)
    } else {
        dirs.push(rec)
    }
}

/// No two directories have the same path up to case.
pub open spec fn distinct_directories(dirs: Seq<DirectoryInfo>) -> bool {
    forall|i: int, j: int|
        0 <= i < dirs.len() && 0 <= j < dirs.len() && i != j ==> lower_of(
            #[trigger] dirs[i].path@,
        ) != lower_of(#[trigger] dirs[j].path@)
}

/// A first match, when there is a match, exists and is the one
/// `path_index` picks.
pub proof fn lemma_path_index_first(paths: Seq<Seq<char>>, name: Seq<char>)
    ensures
        has_path(paths, name) ==> is_first_path(paths, name, path_index(paths, name)),
        has_path(paths, name) ==> forall|i: int|
            is_first_path(paths, name, i) ==> i == path_index(paths, name),
{
    if has_path(paths, name) {
        let w = choose|i: int| 0 <= i < paths.len() && same_up_to_case(#[trigger] paths[i], name);
        lemma_first_exists(paths, name, w);
        let t = path_index(paths, name);
        assert forall|i: int| is_first_path(paths, name, i) implies i == t by {
            if i < t {
                assert(!same_up_to_case(paths[i], name));
            } else if t < i {
                assert(!same_up_to_case(paths[t], name));
            }
        }
    }
}

proof fn lemma_first_exists(paths: Seq<Seq<char>>, name: Seq<char>, w: int)
    requires
        0 <= w < paths.len(),
        same_up_to_case(paths[w], name),
    ensures
        exists|i: int| is_first_path(paths, name, i),
    decreases w,
{
    if forall|k: int| 0 <= k < w ==> !same_up_to_case(#[trigger] paths[k], name) {
        assert(is_first_path(paths, name, w));
    } else {
        let k = choose|k: int| 0 <= k < w && !!same_up_to_case(#[trigger] paths[k], name);
        lemma_first_exists(paths, name, k);
    }
}

/// Getting or inserting a directory by one name and then by a name equal to
/// it up to case lands on the same record both times, and the second call
/// adds no directory. `rec` is the record as the first call left it, with its
/// path untouched.
pub proof fn lemma_touch_or_insert_ignores_case(
    dirs: Seq<DirectoryInfo>,
    d: Seq<char>,
    d2: Seq<char>,
    rec: DirectoryInfo,
)
    requires
        lower_of(d) == lower_of(d2),
        has_directory(dirs, d) ==> rec.path == dirs[touch_index(dirs, d)].path,
        !has_directory(dirs, d) ==> rec.path@ == d,
    ensures
        has_directory(touched_dirs(dirs, d, rec), d2),
        touch_index(touched_dirs(dirs, d, rec), d2) == touch_index(dirs, d),
        touched_dirs(touched_dirs(dirs, d, rec), d2, rec) == touched_dirs(dirs, d, rec),
{
    let p = paths_of(dirs);
    lemma_path_index_first(p, d);
    let t = touch_index(dirs, d);
    let dirs1 = touched_dirs(dirs, d, rec);
    let p1 = paths_of(dirs1);
    assert(dirs1[t] == rec);
    assert(same_up_to_case(p1[t], d2));
    assert forall|k: int| 0 <= k < t implies !same_up_to_case(#[trigger] p1[k], d2) by {
        assert(dirs1[k] == dirs[k]);
        assert(!same_up_to_case(p[k], d));
    }
    assert(is_first_path(p1, d2, t));
    lemma_path_index_first(p1, d2);
    assert(dirs1.update(t, rec) =~= dirs1);
}

/// Get-or-insert never makes two directories whose paths differ only by
/// case: a catalog without such a pair keeps none, as long as the returned
/// record keeps its path.
pub proof fn lemma_touch_or_insert_keeps_paths_distinct(
    dirs: Seq<DirectoryInfo>,
    name: Seq<char>,
    rec: DirectoryInfo,
)
    requires
        distinct_directories(dirs),
        has_directory(dirs, name) ==> rec.path == dirs[touch_index(dirs, name)].path,
        !has_directory(dirs, name) ==> rec.path@ == name,
    ensures
        distinct_directories(touched_dirs(dirs, name, rec)),
{
    lemma_path_index_first(paths_of(dirs), name);
    let t = touch_index(dirs, name);
    let after = touched_dirs(dirs, name, rec);
    assert forall|i: int, j: int|
        0 <= i < after.len() && 0 <= j < after.len() && i != j implies lower_of(
        #[trigger] after[i].path@,
    ) != lower_of(#[trigger] after[j].path@) by {
        if has_directory(dirs, name) {
            assert(after[i].path == dirs[i].path);
            assert(after[j].path == dirs[j].path);
        } else if i == dirs.len() {
            assert(!same_up_to_case(paths_of(dirs)[j], name));
        } else if j == dirs.len() {
            assert(!same_up_to_case(paths_of(dirs)[i], name));
        }
    }
}

/// All the tracked directories of a user.
#[derive(Debug, Clone)]
pub struct UserData {
    pub directories: Vec<DirectoryInfo>,
}

impl UserData {
    /// A catalog with no directories.
    pub fn new() -> (r: Self)
        ensures
            r.directories@.len() == 0,
    {
        UserData { directories: Vec::new() }
    }

    /// Appends `directory` as it is, without looking for one of the same path.
    pub fn add_directory(&mut self, directory: DirectoryInfo)
        ensures
            final(self).directories@ == old(self).directories@.push(directory),
    {
        self.directories.push(directory);
    }

    /// The index of the first directory named `name` up to case.
    fn directory_index(&self, name: &str) -> (r: Option<usize>)
        ensures
            r is None <==> !has_directory(self.directories@, name@),
            r matches Some(i) ==> i == touch_index(self.directories@, name@) && i
                < self.directories@.len(),
    {
        proof {
            lemma_path_index_first(paths_of(self.directories@), name@);
        }
        let wanted = lowercase(name);
        let n = self.directories.len();
        let mut i: usize = 0;
        while i < n
            invariant
                n == self.directories@.len(),
                i <= n,
                wanted@ == lower_of(name@),
                forall|k: int|
                    0 <= k < i ==> !same_up_to_case(#[trigger] paths_of(self.directories@)[k], name@),
            decreases n - i,
        {
            let lowered = lowercase(self.directories[i].path.as_str());
            if lowered == wanted {
                assert(is_first_path(paths_of(self.directories@), name@, i as int));
                return Some(i);
            }
            i = i + 1;
        }
        None
    }

    /// The first directory named `name` up to case.
    pub fn find_directory(&self, name: &str) -> (r: Option<&DirectoryInfo>)
        ensures
            r is None <==> !has_directory(self.directories@, name@),
            r matches Some(d) ==> *d == self.directories@[touch_index(self.directories@, name@)],
    {
        match self.directory_index(name) {
            Some(i) => Some(&self.directories[i]),
            None => None,
        }
    }

    /// The first directory named `name` up to case, to change in place.
    pub fn touch_directory(&mut self, name: &str) -> (r: Option<&mut DirectoryInfo>)
        ensures
            r is None <==> !has_directory(old(self).directories@, name@),
            r is None ==> *final(self) == *old(self),
            has_directory(old(self).directories@, name@) ==> 0 <= touch_index(
                old(self).directories@,
                name@,
            ) < old(self).directories@.len(),
            r matches Some(d) ==> {
                &&& *d == old(self).directories@[touch_index(old(self).directories@, name@)]
                &&& final(self).directories@ == old(self).directories@.update(
                    touch_index(old(self).directories@, name@),
                    *final(d),
                )
            },
    {
        proof {
            lemma_path_index_first(paths_of(self.directories@), name@);
        }
        match self.directory_index(name) {
            Some(i) => Some(&mut self.directories[i]),
            None => None,
        }
    }

    /// The first directory named `name` up to case, to change in place; when
    /// there is none, a new one with that path and no backup directory is
    /// appended and returned.
    pub fn touch_directory_or_insert(&mut self, name: &str) -> (r: &mut DirectoryInfo)
        ensures
            has_directory(old(self).directories@, name@) ==> 0 <= touch_index(
                old(self).directories@,
                name@,
            ) < old(self).directories@.len(),
            has_directory(old(self).directories@, name@) ==> *r == old(
                self,
            ).directories@[touch_index(old(self).directories@, name@)],
            !has_directory(old(self).directories@, name@) ==> {
                &&& r.path@ == name@
                &&& r.backup_directory@.len() == 0
                &&& r.files@.len() == 0
            },
            final(self).directories@ == touched_dirs(old(self).directories@, name@, *final(r)),
    {
        proof {
            lemma_path_index_first(paths_of(self.directories@), name@);
        }
        match self.directory_index(name) {
            Some(i) => &mut self.directories[i],
            None => {
                let directory = DirectoryInfo::new(String::from_str(name), String::new());
                self.directories.push(directory);
                let last = self.directories.len() - 1;
                &mut self.directories[last]
            },
        }
    }
}

} // verus!
