//! The error taxonomy shared by every tool operation, and the uniform
//! translation of operating-system failures into it.

use vstd::prelude::*;

verus! {

/// One typed failure of a tool operation.
///
/// Every variant but `StringNotFound` carries the path or message the failure
/// is about; `Io` carries the text of an operating-system error that fits no
/// more specific variant.
#[derive(Debug)]
pub enum FileToolError {
    Io(String),
    FileNotFound(String),
    PermissionDenied(String),
    InvalidPath(String),
    StringNotFound,
}

/// Holds when `e` is `FileNotFound` carrying exactly the text `path`.
pub open spec fn is_file_not_found(e: FileToolError, path: Seq<char>) -> bool {
    e matches FileToolError::FileNotFound(p) && p@ == path
}

/// Holds when `e` is `PermissionDenied` carrying exactly the text `path`.
pub open spec fn is_permission_denied(e: FileToolError, path: Seq<char>) -> bool {
    e matches FileToolError::PermissionDenied(p) && p@ == path
}

/// Holds when `e` is `InvalidPath` carrying exactly the text `msg`.
pub open spec fn is_invalid_path(e: FileToolError, msg: Seq<char>) -> bool {
    e matches FileToolError::InvalidPath(p) && p@ == msg
}

/// Holds when `e` is `Io` carrying exactly the text `msg`.
pub open spec fn is_io_error(e: FileToolError, msg: Seq<char>) -> bool {
    e matches FileToolError::Io(m) && m@ == msg
}

impl FileToolError {
    /// What `message` returns, variant by variant.
    pub open spec fn message_spec(&self) -> Seq<char> {
        match self {
            FileToolError::Io(m) => "IO error: "@ + m@,
            FileToolError::FileNotFound(p) => "File not found: "@ + p@,
            FileToolError::PermissionDenied(p) => "Permission denied: "@ + p@,
            FileToolError::InvalidPath(p) => "Invalid path: "@ + p@,
            FileToolError::StringNotFound => "String not found in file"@,
        }
    }

    /// The human-readable message for this error.
    pub fn message(&self) -> (r: String)
        ensures
            r@ == self.message_spec(),
    {
        match self {
            FileToolError::Io(m) => String::from_str("IO error: ").concat(m.as_str()),
            FileToolError::FileNotFound(p) => String::from_str("File not found: ").concat(
                p.as_str(),
            ),
            FileToolError::PermissionDenied(p) => String::from_str(
                "Permission denied: ",
            ).concat(p.as_str()),
            FileToolError::InvalidPath(p) => String::from_str("Invalid path: ").concat(p.as_str()),
            FileToolError::StringNotFound => String::from_str("String not found in file"),
        }
    }
}

/// Translates an operating-system failure uniformly: an access refusal
/// becomes `PermissionDenied` for the path at hand, anything else `Io`
/// carrying the error's own text.
pub fn classify_io_error(path: &str, permission_denied: bool, message: String) -> (r:
    FileToolError)
    ensures
        permission_denied ==> is_permission_denied(r, path@),
        !permission_denied ==> is_io_error(r, message@),
{
    if permission_denied {
        FileToolError::PermissionDenied(String::from_str(path))
    } else {
        FileToolError::Io(message)
    }
}

/// The existence gate that every path-taking operation applies first:
/// a missing path is `FileNotFound` for that path, and nothing else fails here.
pub fn require_exists(path: &str, exists: bool) -> (r: Result<(), FileToolError>)
    ensures
        exists <==> r is Ok,
        !exists ==> (r matches Err(e) && is_file_not_found(e, path@)),
{
    if exists {
        Ok(())
    } else {
        Err(FileToolError::FileNotFound(String::from_str(path)))
    }
}

} // verus!
