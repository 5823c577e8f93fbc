//! Numbered error categories.
use vstd::prelude::*;

use crate::text::{trim, trim_str};

verus! {

/// The closed set of failure categories, each with a stable code.
#[derive(Debug, Clone, Copy, PartialEq, Eq, Structural)]
pub enum ErrorCode {
    /// E001: root directory does not exist
    RootNotFound,
    /// E002: path is not a directory
    NotADirectory,
    /// E003: failed to determine current directory
    CurrentDirFailed,
    /// E004: findmnt command not found
    FindmntNotFound,
    /// E005: findmnt command failed
    FindmntFailed,
    /// E006: no filesystems found under root
    NoFilesystems,
}

/// The code text of each category.
pub open spec fn code_text(c: ErrorCode) -> Seq<char> {
    match c {
        ErrorCode::RootNotFound => "E001"@,
        ErrorCode::NotADirectory => "E002"@,
        ErrorCode::CurrentDirFailed => "E003"@,
        ErrorCode::FindmntNotFound => "E004"@,
        ErrorCode::FindmntFailed => "E005"@,
        ErrorCode::NoFilesystems => "E006"@,
    }
}

impl ErrorCode {
    /// The numeric code as text (e.g. "E001").
    pub fn code(&self) -> (r: &'static str)
        ensures
            r@ == code_text(*self),
    {
        match self {
            ErrorCode::RootNotFound => "E001",
            ErrorCode::NotADirectory => "E002",
            ErrorCode::CurrentDirFailed => "E003",
            ErrorCode::FindmntNotFound => "E004",
            ErrorCode::FindmntFailed => "E005",
            ErrorCode::NoFilesystems => "E006",
        }
    }

    /// A short description of the category.
    pub fn description(&self) -> (r: &'static str)
        ensures
            r@ == description_text(*self),
    {
        match self {
            ErrorCode::RootNotFound => "root directory does not exist",
            ErrorCode::NotADirectory => "path is not a directory",
            ErrorCode::CurrentDirFailed => "failed to determine current directory",
            ErrorCode::FindmntNotFound => "findmnt command not found",
            ErrorCode::FindmntFailed => "findmnt command failed",
            ErrorCode::NoFilesystems => "no filesystems found",
        }
    }
}

/// The short description of each category.
pub open spec fn description_text(c: ErrorCode) -> Seq<char> {
    match c {
        ErrorCode::RootNotFound => "root directory does not exist"@,
        ErrorCode::NotADirectory => "path is not a directory"@,
        ErrorCode::CurrentDirFailed => "failed to determine current directory"@,
        ErrorCode::FindmntNotFound => "findmnt command not found"@,
        ErrorCode::FindmntFailed => "findmnt command failed"@,
        ErrorCode::NoFilesystems => "no filesystems found"@,
    }
}

/// A failure with its category and a message giving the context.
#[derive(Debug)]
pub struct RecfstabError {
    pub code: ErrorCode,
    pub message: String,
}

/// `a`, then `b`.
fn concat2(a: &str, b: &str) -> (r: String)
    ensures
        r@ == a@ + b@,
{
    let mut r = a.to_owned();
    r.append(b);
    r
}

/// `a`, then `b`, then `c`.
fn concat3(a: &str, b: &str, c: &str) -> (r: String)
    ensures
        r@ == a@ + b@ + c@,
{
    let mut r = a.to_owned();
    r.append(b);
    r.append(c);
    r
}

impl RecfstabError {
    /// Create an error with the given code and message.
    pub fn new(code: ErrorCode, message: String) -> (r: Self)
        ensures
            r.code == code,
            r.message@ == message@,
    {
        RecfstabError { code, message }
    }

    /// The scan root does not exist.
    pub fn root_not_found(path: &str) -> (r: Self)
        ensures
            r.code == ErrorCode::RootNotFound,
            r.message@ == "root directory '"@ + path@ + "' does not exist"@,
    {
        Self::new(ErrorCode::RootNotFound, concat3("root directory '", path, "' does not exist"))
    }

    /// The scan root is not a directory.
    pub fn not_a_directory(path: &str) -> (r: Self)
        ensures
            r.code == ErrorCode::NotADirectory,
            r.message@ == "'"@ + path@ + "' is not a directory"@,
    {
        Self::new(ErrorCode::NotADirectory, concat3("'", path, "' is not a directory"))
    }

    /// The scan root could not be canonicalised; `detail` describes why.
    pub fn current_dir_failed(detail: &str) -> (r: Self)
        ensures
            r.code == ErrorCode::CurrentDirFailed,
            r.message@ == "failed to determine current directory: "@ + detail@,
    {
        Self::new(
            ErrorCode::CurrentDirFailed,
            concat2("failed to determine current directory: ", detail),
        )
    }

    /// The mount-table utility could not be started; `detail` says why.
    pub fn findmnt_not_found(detail: &str) -> (r: Self)
        ensures
            r.code == ErrorCode::FindmntNotFound,
            r.message@ == "findmnt command not found (is util-linux installed?): "@
                + detail@,
    {
        Self::new(
            ErrorCode::FindmntNotFound,
            concat2("findmnt command not found (is util-linux installed?): ", detail),
        )
    }

    /// The mount-table utility exited with failure, printing `stderr`.
    pub fn findmnt_failed(stderr: &str) -> (r: Self)
        ensures
            r.code == ErrorCode::FindmntFailed,
            stderr@.len() == 0 ==> r.message@ == "findmnt failed: "@ + "unknown error"@,
            stderr@.len() > 0 ==> r.message@ == "findmnt failed: "@ + trim(stderr@),
    {
        let detail = if stderr.is_empty() {
            "unknown error"
        } else {
            trim_str(stderr)
        };
        Self::new(ErrorCode::FindmntFailed, concat2("findmnt failed: ", detail))
    }

    /// No filesystem was found under the scan root.
    pub fn no_filesystems(root: &str) -> (r: Self)
        ensures
            r.code == ErrorCode::NoFilesystems,
            r.message@ == "no filesystems found under '"@ + root@
                + "' (make sure target filesystems are mounted)"@,
    {
        Self::new(
            ErrorCode::NoFilesystems,
            concat3(
                "no filesystems found under '",
                root,
                "' (make sure target filesystems are mounted)",
            ),
        )
    }

    /// The error as the user sees it: `CODE: message`.
    pub fn to_string(&self) -> (r: String)
        ensures
            r@ == code_text(self.code) + ": "@ + self.message@,
    {
        concat3(self.code.code(), ": ", self.message.as_str())
    }
}

} // verus!
