//! The result of a file search and the kinds of files it can look for.

use crate::error::ShellError;
use crate::fs::FileMeta;
use crate::text::strings_view;
use vstd::prelude::*;

verus! {

/// The result of a file search: an error, nothing found, or the paths found.
#[derive(Debug, PartialEq)]
pub enum FindFilesResult {
    /// The search failed.
    Failed(ShellError),
    /// Nothing was found.
    Nothing,
    /// The paths found.
    Found(Vec<String>),
}

/// The view of a search result: `None` for nothing found, the error's
/// message, or the paths found.
pub open spec fn find_view(r: FindFilesResult) -> Option<Result<Seq<Seq<char>>, Seq<char>>> {
    match r {
        FindFilesResult::Failed(e) => Some(Err(e.message_spec())),
        FindFilesResult::Nothing => None,
        FindFilesResult::Found(v) => Some(Ok(strings_view(v@))),
    }
}

impl FindFilesResult {
    /// The paths found; the search must have found some.
    pub fn unwrap(self) -> (res: Vec<String>)
        requires
            self is Found,
        ensures
            self matches FindFilesResult::Found(v) && res == v,
    {
        match self {
            FindFilesResult::Found(r) => r,
            FindFilesResult::Nothing => {
                proof {
                    assert(false);
                }
                Vec::new()
            },
            FindFilesResult::Failed(_) => {
                proof {
                    assert(false);
                }
                Vec::new()
            },
        }
    }

    /// Whether the search found paths.
    pub fn is_some(&self) -> (res: bool)
        ensures
            res == self is Found,
    {
        matches!(self, FindFilesResult::Found(_))
    }
}

/// A kind of file to look for.
#[derive(Clone, Copy, Debug)]
pub enum FileType {
    File,
    SymLink,
    Executable,
    Dir,
}

/// Whether metadata `m` is of the kind `t`.
pub open spec fn type_holds(t: FileType, m: FileMeta) -> bool {
    match t {
        FileType::File => m.is_file,
        FileType::SymLink => m.is_symlink,
        FileType::Executable => m.is_file && (m.mode & 0o111u32) != 0,
        FileType::Dir => m.is_dir,
    }
}

impl FileType {
    /// Whether a file with `metadata` is of this kind.
    pub fn holds(&self, metadata: &FileMeta) -> (res: bool)
        ensures
            res == type_holds(*self, *metadata),
    {
        match self {
            FileType::File => metadata.is_file,
            FileType::SymLink => metadata.is_symlink,
            FileType::Executable => metadata.is_file && (metadata.mode & 0o111u32) != 0,
            FileType::Dir => metadata.is_dir,
        }
    }
}

} // verus!
