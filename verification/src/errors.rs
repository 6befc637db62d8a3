//! Error taxonomy of the editor core: a cancelled picker dialog, or a
//! classified I/O failure reported by the filesystem gateway.

use vstd::prelude::*;

verus! {

/// Classification of an I/O failure, mirroring the interesting cases of the
/// operating system's error kinds. Anything the core does not distinguish
/// falls under `Other`.
#[derive(Debug, Clone, Copy, PartialEq, Eq, Structural)]
pub enum IoErrorKind {
    NotFound,
    PermissionDenied,
    AlreadyExists,
    InvalidData,
    Other,
}

/// An error surfaced to the document state: either the user closed a picker
/// dialog (not a fault), or an I/O operation failed.
#[derive(Debug, Clone, Copy, PartialEq, Eq, Structural)]
pub enum Error {
    DialogClosed,
    IoError(IoErrorKind),
}

/// The status-line text for an I/O error kind.
pub open spec fn kind_text(k: IoErrorKind) -> Seq<char> {
    match k {
        IoErrorKind::NotFound => "file not found"@,
        IoErrorKind::PermissionDenied => "permission denied"@,
        IoErrorKind::AlreadyExists => "already exists"@,
        IoErrorKind::InvalidData => "invalid data"@,
        IoErrorKind::Other => "i/o error"@,
    }
}

/// The descriptive text for an error.
pub open spec fn error_text(e: Error) -> Seq<char> {
    match e {
        Error::DialogClosed => "dialog closed"@,
        Error::IoError(k) => kind_text(k),
    }
}

impl IoErrorKind {
    /// Human-readable message for this error kind.
    pub fn message(&self) -> (r: String)
        ensures
            r@ == kind_text(*self),
    {
        match self {
            IoErrorKind::NotFound => "file not found".to_owned(),
            IoErrorKind::PermissionDenied => "permission denied".to_owned(),
            IoErrorKind::AlreadyExists => "already exists".to_owned(),
            IoErrorKind::InvalidData => "invalid data".to_owned(),
            IoErrorKind::Other => "i/o error".to_owned(),
        }
    }
}

impl Error {
    /// Human-readable message for this error.
    pub fn message(&self) -> (r: String)
        ensures
            r@ == error_text(*self),
    {
        match self {
            Error::DialogClosed => "dialog closed".to_owned(),
            Error::IoError(k) => k.message(),
        }
    }
}

} // verus!
