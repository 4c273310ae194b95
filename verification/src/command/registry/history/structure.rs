//! A request of the `history` builtin to read or write a history file.

use crate::error::ShellError;
use crate::text::str_eq;
use vstd::prelude::*;

verus! {

/// What a loader does with its file.
#[derive(Clone, Copy, Debug)]
pub enum Operation {
    /// Read the file into the history (`-r`).
    Download,
    /// Write the history to the file (`-w`, `-a`).
    Upload(UploadMode),
}

/// How an upload treats the file that is there.
#[derive(Clone, Copy, Debug)]
pub enum UploadMode {
    /// Replace the file's content (`-w`).
    Rewrite,
    /// Add the records not yet written to it (`-a`).
    Append,
}

/// The operation that a history flag asks for, if it is one of
/// `-r`, `-w`, `-a`.
pub open spec fn flag_operation(flag: Seq<char>) -> Option<Operation> {
    if flag == "-r"@ {
        Some(Operation::Download)
    } else if flag == "-w"@ {
        Some(Operation::Upload(UploadMode::Rewrite))
    } else if flag == "-a"@ {
        Some(Operation::Upload(UploadMode::Append))
    } else {
        None
    }
}

impl Operation {
    /// The operation of a history flag; any other flag is not supported.
    pub fn try_from(flag: &str) -> (res: Result<Operation, ShellError>)
        ensures
            match flag_operation(flag@) {
                Some(op) => res == Ok::<Operation, ShellError>(op),
                None => res == Err::<Operation, ShellError>(ShellError::NotSupported),
            },
    {
        if str_eq(flag, "-r") {
            Ok(Operation::Download)
        } else if str_eq(flag, "-w") {
            Ok(Operation::Upload(UploadMode::Rewrite))
        } else if str_eq(flag, "-a") {
            Ok(Operation::Upload(UploadMode::Append))
        } else {
            Err(ShellError::NotSupported)
        }
    }
}

/// A file path together with what to do with it.
pub struct Loader {
    file_path: String,
    operation: Operation,
}

impl View for Loader {
    type V = (Seq<char>, Operation);

    closed spec fn view(&self) -> (Seq<char>, Operation) {
        (self.file_path@, self.operation)
    }
}

impl Loader {
    /// A loader of `file_path` for the operation of `flag`; fails on a
    /// flag other than `-r`, `-w`, `-a`.
    pub fn try_new(file_path: String, flag: &str) -> (res: Result<Loader, ShellError>)
        ensures
            res is Ok <==> flag_operation(flag@) is Some,
            res matches Ok(l) ==> l@ == (file_path@, flag_operation(flag@)->0),
            res matches Err(e) ==> e is NotSupported,
    {
        match Operation::try_from(flag) {
            Ok(operation) => Ok(Loader { file_path, operation }),
            Err(e) => Err(e),
        }
    }

    /// The path of the file.
    pub fn get_file_path(&self) -> (res: &str)
        ensures
            res@ == self@.0,
    {
        self.file_path.as_str()
    }

    /// Whether the loader reads the file.
    pub fn is_download(&self) -> (res: bool)
        ensures
            res == (self@.1 is Download),
    {
        match self.operation {
            Operation::Download => true,
            _ => false,
        }
    }

    /// Whether the loader appends to the file.
    pub fn is_upload_append(&self) -> (res: bool)
        ensures
            res == (self@.1 == Operation::Upload(UploadMode::Append)),
    {
        match self.operation {
            Operation::Upload(UploadMode::Append) => true,
            _ => false,
        }
    }
}

} // verus!
