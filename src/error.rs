use vstd::prelude::*;

verus! {

/// The closed set of ways a run can fail.
#[derive(Debug, Clone, Copy, PartialEq, Eq, Structural)]
pub enum FinderError {
    /// The input is not a URL, names another host than `github.com`, or has
    /// fewer than two path segments.
    InvalidUrl,
    /// The archive could not be fetched.
    Download,
    /// The fetched bytes are not a readable zip archive.
    Archive,
    /// A file or directory could not be created, read or written.
    Io,
    /// The directory walk could not read an entry.
    Traversal,
}

impl FinderError {
    /// A short message naming the kind of failure.
    pub fn message(&self) -> (r: String)
        ensures
            r@ == error_message(*self),
    {
        match self {
            FinderError::InvalidUrl => String::from_str("invalid GitHub URL"),
            FinderError::Download => String::from_str("download failed"),
            FinderError::Archive => String::from_str("unreadable zip archive"),
            FinderError::Io => String::from_str("file system error"),
            FinderError::Traversal => String::from_str("directory walk failed"),
        }
    }
}

pub open spec fn error_message(e: FinderError) -> Seq<char> {
    match e {
        FinderError::InvalidUrl => "invalid GitHub URL"@,
        FinderError::Download => "download failed"@,
        FinderError::Archive => "unreadable zip archive"@,
        FinderError::Io => "file system error"@,
        FinderError::Traversal => "directory walk failed"@,
    }
}

} // verus!
