//! The errors that the library reports.

use vstd::prelude::*;

verus! {

/// An error of the shell library, each with the message the shell prints for it.
#[derive(Debug, PartialEq)]
pub enum ShellError {
    /// A history flag that is not one of `-r`, `-w`, `-a`.
    NotSupported,
    /// History arguments that do not form a valid request.
    IncorrectArguments,
    /// A pipeline without any command.
    EmptyParseds,
    /// A command run natively that is not a builtin.
    NotBuiltin,
    /// A file search without any directory to search.
    SearchPathsEmpty,
    /// A search directory that cannot be read; holds its path.
    DirInvalid(String),
    /// A directory entry whose metadata cannot be read; holds its name.
    MetadataReading(String),
    /// A process wrote standard output that is not UTF-8.
    StdoutReading,
    /// A process wrote standard error that is not UTF-8.
    StderrReading,
    /// Bytes to echo that are not UTF-8.
    FromUtf8,
}

impl ShellError {
    /// The message of the error.
    pub open spec fn message_spec(&self) -> Seq<char> {
        match self {
            ShellError::NotSupported => "not supported"@,
            ShellError::IncorrectArguments => "incorrect arguments"@,
            ShellError::EmptyParseds => "empty parseds"@,
            ShellError::NotBuiltin => "not builtin"@,
            ShellError::SearchPathsEmpty => "search paths is empty"@,
            ShellError::DirInvalid(path) => path@ + ": dir is invalid"@,
            ShellError::MetadataReading(name) => name@ + ": metadata reading error"@,
            ShellError::StdoutReading => "stdout reading error"@,
            ShellError::StderrReading => "stderr reading error"@,
            ShellError::FromUtf8 => "from_utf8 error"@,
        }
    }

    /// The message of the error, as the shell prints it.
    pub fn message(&self) -> (res: String)
        ensures
            res@ == self.message_spec(),
    {
        match self {
            ShellError::NotSupported => "not supported".to_owned(),
            ShellError::IncorrectArguments => "incorrect arguments".to_owned(),
            ShellError::EmptyParseds => "empty parseds".to_owned(),
            ShellError::NotBuiltin => "not builtin".to_owned(),
            ShellError::SearchPathsEmpty => "search paths is empty".to_owned(),
            ShellError::DirInvalid(path) => {
                let mut res = path.clone();
                res.append(": dir is invalid");
                res
            },
            ShellError::MetadataReading(name) => {
                let mut res = name.clone();
                res.append(": metadata reading error");
                res
            },
            ShellError::StdoutReading => "stdout reading error".to_owned(),
            ShellError::StderrReading => "stderr reading error".to_owned(),
            ShellError::FromUtf8 => "from_utf8 error".to_owned(),
        }
    }
}

} // verus!
