//! What the shell asks of the host's filesystem, and what the host answers.
//!
//! The library decides which of these to ask for; performing them is left to
//! the program around it.

use vstd::prelude::*;
use crate::host_path::HostPath;
use crate::text;

verus! {

/// Append or truncate when writing a redirection target.
#[derive(Clone, Copy, Debug, PartialEq, Eq, Structural)]
pub enum AppendMode {
    /// Truncate the file before writing.
    Truncate,
    /// Append to the end of the file.
    Append,
}

/// One operation on the host's filesystem.
#[derive(Debug, PartialEq, Eq)]
pub enum FsAction {
    /// The names of a directory's entries.
    ReadDirectory(HostPath),
    /// The first bytes of a file, no more than `limit`; all of them without
    /// a limit.
    ReadFile {
        /// The file.
        path: HostPath,
        /// The most bytes.
        limit: Option<usize>,
    },
    /// Create a directory.
    CreateDirectory(HostPath),
    /// Remove an empty directory.
    RemoveDirectory(HostPath),
    /// Remove a file.
    RemoveFile(HostPath),
    /// Copy a file.
    CopyFile {
        /// The source.
        from: HostPath,
        /// The destination.
        to: HostPath,
    },
    /// Rename a file or directory.
    Rename {
        /// The source.
        from: HostPath,
        /// The destination.
        to: HostPath,
    },
    /// The position of the first of some paths that is a file.
    FindFile(Vec<String>),
    /// Write bytes to a file, which is created where it does not exist.
    WriteFile {
        /// The file.
        path: HostPath,
        /// Whether to truncate it or to append to it.
        mode: AppendMode,
        /// What to write.
        bytes: Vec<u8>,
    },
}

/// What an [`FsAction`] denotes.
pub enum ActionModel {
    /// List a directory.
    ReadDirectory(Seq<Seq<char>>),
    /// Read a file up to a limit.
    ReadFile(Seq<Seq<char>>, Option<usize>),
    /// Create a directory.
    CreateDirectory(Seq<Seq<char>>),
    /// Remove an empty directory.
    RemoveDirectory(Seq<Seq<char>>),
    /// Remove a file.
    RemoveFile(Seq<Seq<char>>),
    /// Copy the first to the second.
    CopyFile(Seq<Seq<char>>, Seq<Seq<char>>),
    /// Rename the first to the second.
    Rename(Seq<Seq<char>>, Seq<Seq<char>>),
    /// Find the first file.
    FindFile(Seq<Seq<char>>),
    /// Write a file.
    WriteFile(Seq<Seq<char>>, AppendMode, Seq<u8>),
}

impl View for FsAction {
    type V = ActionModel;

    open spec fn view(&self) -> ActionModel {
        match self {
            FsAction::ReadDirectory(path) => ActionModel::ReadDirectory(path@),
            FsAction::ReadFile { path, limit } => ActionModel::ReadFile(path@, *limit),
            FsAction::CreateDirectory(path) => ActionModel::CreateDirectory(path@),
            FsAction::RemoveDirectory(path) => ActionModel::RemoveDirectory(path@),
            FsAction::RemoveFile(path) => ActionModel::RemoveFile(path@),
            FsAction::CopyFile { from, to } => ActionModel::CopyFile(from@, to@),
            FsAction::Rename { from, to } => ActionModel::Rename(from@, to@),
            FsAction::FindFile(candidates) => ActionModel::FindFile(text::texts(candidates@)),
            FsAction::WriteFile { path, mode, bytes } => ActionModel::WriteFile(
                path@,
                *mode,
                bytes@,
            ),
        }
    }
}

/// The host's answer to an [`FsAction`]. A failure is the host's message.
#[derive(Debug, PartialEq, Eq)]
pub enum FsReply {
    /// The names of the entries: for `ReadDirectory`.
    Names(Result<Vec<String>, String>),
    /// Bytes: for `ReadFile`.
    Bytes(Result<Vec<u8>, String>),
    /// Whether it was done: for what changes the filesystem.
    Done(Result<(), String>),
    /// The position that was found: for `FindFile`.
    Found(Option<usize>),
}

/// What an [`FsReply`] denotes.
pub enum ReplyModel {
    /// Names.
    Names(Result<Seq<Seq<char>>, Seq<char>>),
    /// Bytes.
    Bytes(Result<Seq<u8>, Seq<char>>),
    /// Whether it was done.
    Done(Result<(), Seq<char>>),
    /// The position that was found.
    Found(Option<usize>),
}

impl View for FsReply {
    type V = ReplyModel;

    open spec fn view(&self) -> ReplyModel {
        match self {
            FsReply::Names(Ok(names)) => ReplyModel::Names(Ok(text::texts(names@))),
            FsReply::Names(Err(error)) => ReplyModel::Names(Err(error@)),
            FsReply::Bytes(Ok(bytes)) => ReplyModel::Bytes(Ok(bytes@)),
            FsReply::Bytes(Err(error)) => ReplyModel::Bytes(Err(error@)),
            FsReply::Done(Ok(())) => ReplyModel::Done(Ok(())),
            FsReply::Done(Err(error)) => ReplyModel::Done(Err(error@)),
            FsReply::Found(position) => ReplyModel::Found(*position),
        }
    }
}

} // verus!
