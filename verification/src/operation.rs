//! What a run asks of the file system.
//!
//! The library decides what has to be created, copied and written, and in
//! which order. Doing it is left to the caller, who reports a refusal back and
//! gets the failure to raise.

use crate::error::{GenerationError, GenerationErrorView};
use vstd::prelude::*;
use vstd::string::StringExecFns;

verus! {

/// One change to the file system.
#[derive(Debug, PartialEq, Eq)]
pub enum FileOperation {
    /// Create the directory and the missing directories above it. It is no
    /// failure if the directory exists.
    CreateDirAll { path: String },
    /// Create the directory. It is a failure if anything exists at the path.
    CreateDir { path: String },
    /// Copy the file at `from`, byte for byte, to the new file `to`.
    CopyFile { from: String, to: String },
    /// Write `content` to the new file at `path`.
    WriteFile { path: String, content: String },
}

/// The mathematical content of a [`FileOperation`].
pub enum FileOperationView {
    CreateDirAll { path: Seq<char> },
    CreateDir { path: Seq<char> },
    CopyFile { from: Seq<char>, to: Seq<char> },
    WriteFile { path: Seq<char>, content: Seq<char> },
}

impl FileOperationView {
    /// The path that the operation creates.
    pub open spec fn target(self) -> Seq<char> {
        match self {
            FileOperationView::CreateDirAll { path } => path,
            FileOperationView::CreateDir { path } => path,
            FileOperationView::CopyFile { from, to } => to,
            FileOperationView::WriteFile { path, content } => path,
        }
    }

    /// The failure to raise when the file system refuses the operation:
    /// a conflict if something is in the way at the target, else an
    /// input/output failure. For a copy the latter names both files, as
    /// either may be at fault.
    pub open spec fn failure(self, already_exists: bool, cause: Seq<char>) -> GenerationErrorView {
        if already_exists {
            GenerationErrorView::OutputConflict { path: self.target() }
        } else {
            match self {
                FileOperationView::CopyFile { from, to } => GenerationErrorView::CopyFile {
                    from,
                    to,
                    cause,
                },
                _ => GenerationErrorView::Io { path: self.target(), cause },
            }
        }
    }
}

impl View for FileOperation {
    type V = FileOperationView;

    open spec fn view(&self) -> FileOperationView {
        match self {
            FileOperation::CreateDirAll { path } => FileOperationView::CreateDirAll { path: path@ },
            FileOperation::CreateDir { path } => FileOperationView::CreateDir { path: path@ },
            FileOperation::CopyFile { from, to } => FileOperationView::CopyFile {
                from: from@,
                to: to@,
            },
            FileOperation::WriteFile { path, content } => FileOperationView::WriteFile {
                path: path@,
                content: content@,
            },
        }
    }
}

impl DeepView for FileOperation {
    type V = FileOperationView;

    open spec fn deep_view(&self) -> FileOperationView {
        self@
    }
}

impl FileOperation {
    /// The path that the operation creates.
    pub fn target(&self) -> (path: &str)
        ensures
            path@ == self@.target(),
    {
        match self {
            FileOperation::CreateDirAll { path } => path.as_str(),
            FileOperation::CreateDir { path } => path.as_str(),
            FileOperation::CopyFile { from, to } => to.as_str(),
            FileOperation::WriteFile { path, content } => path.as_str(),
        }
    }

    /// The failure to raise when the file system refuses the operation.
    /// `already_exists` tells that something is in the way at the target;
    /// `cause` is what the file system said.
    pub fn failure(&self, already_exists: bool, cause: &str) -> (error: GenerationError)
        ensures
            error@ == self@.failure(already_exists, cause@),
    {
        if already_exists {
            GenerationError::OutputConflict { path: String::from_str(self.target()) }
        } else {
            match self {
                FileOperation::CopyFile { from, to } => GenerationError::CopyFile {
                    from: from.clone(),
                    to: to.clone(),
                    cause: String::from_str(cause),
                },
                _ => GenerationError::Io {
                    path: String::from_str(self.target()),
                    cause: String::from_str(cause),
                },
            }
        }
    }
}

} // verus!
