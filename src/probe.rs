//! Questions put to the filesystem, and the rules built on their answers.

use vstd::prelude::*;
use crate::path_text::{get_parent_path, parent_text};

verus! {

/// Relies on `std::path::Path::is_dir`: whether the path names an accessible
/// directory at the moment of the call. The answer depends on the disk.
#[verifier::external_body]
fn path_is_dir(path: &str) -> (r: bool) {
    std::path::Path::new(path).is_dir()
}

/// Relies on `std::path::Path::is_file`: whether the path names an accessible
/// regular file at the moment of the call. The answer depends on the disk.
#[verifier::external_body]
fn path_is_file(path: &str) -> (r: bool) {
    std::path::Path::new(path).is_file()
}

/// Text of one character or less is taken for unfinished input, never for a
/// directory.
pub open spec fn long_enough_for_directory(path: Seq<char>) -> bool {
    path.len() > 1
}

/// The directory rule, given what the filesystem said of the path.
pub fn accepts_directory(path: &String, exists_as_directory: bool) -> (r: bool)
    ensures
        r == (long_enough_for_directory(path@) && exists_as_directory),
{
    path.as_str().unicode_len() > 1 && exists_as_directory
}

/// Whether `path` names an accessible directory; text of one character or
/// less never does.
pub fn is_valid_directory(path: &String) -> (r: bool)
    ensures
        r ==> long_enough_for_directory(path@),
{
    if path.as_str().unicode_len() <= 1 {
        return false;
    }
    let exists = path_is_dir(path.as_str());
    accepts_directory(path, exists)
}

/// Whether `path` names an accessible regular file.
pub fn is_valid_file(path: &String) -> (r: bool) {
    path_is_file(path.as_str())
}

/// The rule for the directory of a dropped path, given whether the path is
/// a directory, whether it is a file, and its parent: only a file that is
/// not a directory has one, its parent.
pub fn directory_given(path_is_directory: bool, path_is_file: bool, parent: Option<String>) -> (r:
    Option<String>)
    ensures
        r == (if !path_is_directory && path_is_file {
            parent
        } else {
            None
        }),
{
    if path_is_directory {
        None
    } else if path_is_file {
        parent
    } else {
        None
    }
}

/// The directory holding the file at `path`: `None` when the path is a
/// directory, names no accessible file, or has no parent (see
/// `directory_given`).
pub fn get_directory_of_file(path: &String) -> (r: Option<String>)
    ensures
        r matches Some(p) ==> p@.len() < path@.len() && p@ == path@.subrange(0, p@.len() as int),
{
    let is_dir = path_is_dir(path.as_str());
    let is_file = path_is_file(path.as_str());
    let parent = if !is_dir && is_file {
        parent_text(path.as_str())
    } else {
        None
    };
    directory_given(is_dir, is_file, parent)
}

/// How an export path can receive a copy.
#[derive(Debug, Clone, Copy, PartialEq, Eq, Structural)]
pub enum ExportPathState {
    /// Neither the path nor its parent is a directory.
    Invalid,
    /// The path is a directory: the copy goes inside it under the file's name.
    AsDirectoryPath,
    /// The parent is a directory: the copy goes to the path itself.
    AsFilePath,
}

/// The classification, given whether the path and its parent are valid
/// directories.
pub open spec fn classified(path_is_directory: bool, parent_is_directory: bool) -> ExportPathState {
    if path_is_directory {
        ExportPathState::AsDirectoryPath
    } else if parent_is_directory {
        ExportPathState::AsFilePath
    } else {
        ExportPathState::Invalid
    }
}

impl ExportPathState {
    /// The classification rule, given the two directory checks.
    pub fn classify(path_is_directory: bool, parent_is_directory: bool) -> (r: Self)
        ensures
            r == classified(path_is_directory, parent_is_directory),
    {
        if path_is_directory {
            ExportPathState::AsDirectoryPath
        } else if parent_is_directory {
            ExportPathState::AsFilePath
        } else {
            ExportPathState::Invalid
        }
    }

    /// Classifies `path` by asking the filesystem about it and its parent.
    pub fn new(path: &String) -> (r: Self)
        ensures
            exists|d: bool, p: bool|
                r == classified(d, p) && (d ==> long_enough_for_directory(path@)) && (p
                    ==> long_enough_for_directory(path@)),
    {
        let is_dir = is_valid_directory(path);
        if is_dir {
            return Self::classify(true, false);
        }
        let parent = get_parent_path(path);
        let parent_is_dir = is_valid_directory(&parent);
        Self::classify(false, parent_is_dir)
    }

    /// Whether a copy can go there at all.
    pub fn is_valid(&self) -> (r: bool)
        ensures
            r == !(*self is Invalid),
    {
        match self {
            ExportPathState::Invalid => false,
            _ => true,
        }
    }
}

} // verus!
