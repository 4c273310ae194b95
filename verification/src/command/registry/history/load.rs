//! A history file request whose operations compare with `==`.

use crate::error::ShellError;
use crate::text::str_eq;
use vstd::prelude::*;

verus! {

/// What a loader does with its file.
pub enum Operation {
    /// Read the file into the history (`-r`).
    Download,
    /// Write the history to the file (`-w`, `-a`).
    Upload(UploadMode),
}

/// How an upload treats the file that is there.
pub enum UploadMode {
    /// Replace the file's content (`-w`).
    Rewrite,
    /// Add the records not yet written to it (`-a`).
    Append,
}

impl PartialEq for UploadMode {
    fn eq(&self, other: &UploadMode) -> (res: bool) {
        match (self, other) {
            (UploadMode::Rewrite, UploadMode::Rewrite) => true,
            (UploadMode::Append, UploadMode::Append) => true,
            _ => false,
        }
    }
}

impl vstd::std_specs::cmp::PartialEqSpecImpl for UploadMode {
    open spec fn obeys_eq_spec() -> bool {
        true
    }

    open spec fn eq_spec(&self, other: &UploadMode) -> bool {
        match (self, other) {
            (UploadMode::Rewrite, UploadMode::Rewrite) => true,
            (UploadMode::Append, UploadMode::Append) => true,
            _ => false,
        }
    }
}

impl PartialEq for Operation {
    fn eq(&self, other: &Operation) -> (res: bool) {
        match (self, other) {
            (Operation::Download, Operation::Download) => true,
            (Operation::Upload(a), Operation::Upload(b)) => a == b,
            _ => false,
        }
    }
}

impl vstd::std_specs::cmp::PartialEqSpecImpl for Operation {
    open spec fn obeys_eq_spec() -> bool {
        true
    }

    open spec fn eq_spec(&self, other: &Operation) -> bool {
        match (self, other) {
            (Operation::Download, Operation::Download) => true,
            (
                Operation::Upload(UploadMode::Rewrite),
                Operation::Upload(UploadMode::Rewrite),
            ) => true,
            (Operation::Upload(UploadMode::Append), Operation::Upload(UploadMode::Append)) => true,
            _ => false,
        }
    }
}

/// The kind of request that a history flag asks for: 0 for `-r`, 1 for
/// `-w`, 2 for `-a`, none for any other flag.
pub open spec fn flag_kind(flag: Seq<char>) -> Option<int> {
    if flag == "-r"@ {
        Some(0)
    } else if flag == "-w"@ {
        Some(1)
    } else if flag == "-a"@ {
        Some(2)
    } else {
        None
    }
}

/// The kind of an operation, numbered as in `flag_kind`.
pub open spec fn operation_kind(op: Operation) -> int {
    match op {
        Operation::Download => 0,
        Operation::Upload(UploadMode::Rewrite) => 1,
        Operation::Upload(UploadMode::Append) => 2,
    }
}

impl Operation {
    /// The operation of a history flag; any other flag is not supported.
    pub fn try_from(flag: &str) -> (res: Result<Operation, ShellError>)
        ensures
            match flag_kind(flag@) {
                Some(k) => res matches Ok(op) && operation_kind(op) == k,
                None => res matches Err(e) && e is NotSupported,
            },
    {
        if str_eq(flag, "-r") {
            Ok(Operation::Download)
        } else if str_eq(flag, "-w") {
            Ok(Operation::Upload(UploadMode::Rewrite))
        } else if str_eq(flag, "-a") {
            Ok(Operation::Upload(UploadMode::Append))
        } else {
            Err(ShellError::NotSupported)
        }
    }
}

/// A file path together with what to do with it.
pub struct Loader {
    file_path: String,
    operation: Operation,
}

impl View for Loader {
    type V = (Seq<char>, int);

    closed spec fn view(&self) -> (Seq<char>, int) {
        (self.file_path@, operation_kind(self.operation))
    }
}

impl Loader {
    /// A loader of `file_path` for the operation of `flag`; fails on a
    /// flag other than `-r`, `-w`, `-a`.
    pub fn try_new(file_path: String, flag: &str) -> (res: Result<Loader, ShellError>)
        ensures
            res is Ok <==> flag_kind(flag@) is Some,
            res matches Ok(l) ==> l@ == (file_path@, flag_kind(flag@)->0),
            res matches Err(e) ==> e is NotSupported,
    {
        let loader = Loader { file_path, operation: Operation::try_from(flag)? };
        Ok(loader)
    }

    /// The path of the file.
    pub fn get_file_path(&self) -> (res: &str)
        ensures
            res@ == self@.0,
    {
        self.file_path.as_str()
    }

    /// Whether the loader reads the file.
    pub fn is_download(&self) -> (res: bool)
        ensures
            res == (self@.1 == 0),
    {
        self.operation == Operation::Download
    }

    /// Whether the loader appends to the file.
    pub fn is_upload_append(&self) -> (res: bool)
        ensures
            res == (self@.1 == 2),
    {
        self.operation == Operation::Upload(UploadMode::Append)
    }
}

} // verus!
