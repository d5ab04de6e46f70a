//! The operation bridge: every named operation, its typed arguments, and
//! the uniform success/failure outcome the caller across the dispatch
//! boundary receives.
//!
//! Native error detail is erased to a human-readable message; callers can
//! display it but not branch on it, which is the deliberate shape of the
//! contract. The adapter functions translate plain native outcomes, as the
//! host hands them over, into the same uniform shape.

use vstd::prelude::*;

use crate::environment::ProcessEnv;
use crate::environment::pairs_view;
use crate::errors::OpError;
use crate::filesystem::FileSystem;
use crate::filesystem::dir_created;
use crate::filesystem::file_copied;
use crate::filesystem::file_removed;
use crate::filesystem::file_written;
use crate::filesystem::tree_removed;
use crate::path::FsPath;

verus! {

/// One operation invocation with its typed arguments.
pub enum Request {
    /// List the immediate entries of the directory.
    ReadDir { path: FsPath },
    /// Create the directory (single level).
    CreateDir { path: FsPath },
    /// Remove the directory and everything inside it.
    RemoveDirAll { path: FsPath },
    /// Report whether anything stands at the path.
    PathExists { path: FsPath },
    /// Read the whole file.
    ReadFile { path: FsPath },
    /// Create or overwrite the file with the bytes.
    WriteFile { path: FsPath, bytes: Vec<u8> },
    /// Remove the file.
    RemoveFile { path: FsPath },
    /// Copy the file at `from` onto `to`.
    CopyFile { from: FsPath, to: FsPath },
    /// Resolve the running executable's path.
    CurrentExe,
    /// Snapshot every environment variable.
    EnvVars,
}

/// A successful operation's payload.
#[derive(Debug, PartialEq, Eq)]
pub enum Payload {
    /// The operation only changes state.
    Empty,
    /// An existence answer.
    Flag(bool),
    /// A file's contents.
    Bytes(Vec<u8>),
    /// A directory's immediate entries.
    Entries(Vec<FsPath>),
    /// An environment snapshot.
    Variables(Vec<(String, String)>),
    /// A single textual value.
    Text(String),
}

/// The uniform result contract: a typed payload, or a rendered message.
#[derive(Debug, PartialEq, Eq)]
pub enum Outcome {
    /// The operation succeeded with this payload.
    Success(Payload),
    /// The operation failed; the message describes why, without structure.
    Failure(String),
}

/// Routes one request to its operation and adapts the result to the
/// uniform outcome.
pub fn dispatch(fs: &mut FileSystem, env: &ProcessEnv, req: Request) -> (r: Outcome)
    requires
        old(fs).wf(),
        env.wf(),
    ensures
        final(fs).wf(),
        match req {
            Request::ReadDir { path } => match old(fs).list_error(path@) {
                None => *final(fs) == *old(fs) && (r matches Outcome::Success(p) && p matches
                    Payload::Entries(es) && old(fs).valid_listing(
                    path@,
                    es@.map_values(|e: FsPath| e@),
                )),
                Some(e) => *final(fs) == *old(fs) && (r matches Outcome::Failure(m) && m@
                    == e.message_spec()),
            },
            Request::CreateDir { path } => match old(fs).create_dir_error(path@) {
                None => dir_created(*old(fs), *final(fs), path@) && r == Outcome::Success(
                    Payload::Empty,
                ),
                Some(e) => *final(fs) == *old(fs) && (r matches Outcome::Failure(m) && m@
                    == e.message_spec()),
            },
            Request::RemoveDirAll { path } => match old(fs).remove_dir_error(path@) {
                None => tree_removed(*old(fs), *final(fs), path@) && r == Outcome::Success(
                    Payload::Empty,
                ),
                Some(e) => *final(fs) == *old(fs) && (r matches Outcome::Failure(m) && m@
                    == e.message_spec()),
            },
            Request::PathExists { path } => *final(fs) == *old(fs) && r == Outcome::Success(
                Payload::Flag(old(fs).exists_at(path@)),
            ),
            Request::ReadFile { path } => match old(fs).read_result(path@) {
                Ok(bytes) => *final(fs) == *old(fs) && (r matches Outcome::Success(p)
                    && p matches Payload::Bytes(b) && b@ == bytes),
                Err(e) => *final(fs) == *old(fs) && (r matches Outcome::Failure(m) && m@
                    == e.message_spec()),
            },
            Request::WriteFile { path, bytes } => match old(fs).write_error(path@) {
                None => file_written(*old(fs), *final(fs), path@, bytes@) && r
                    == Outcome::Success(Payload::Empty),
                Some(e) => *final(fs) == *old(fs) && (r matches Outcome::Failure(m) && m@
                    == e.message_spec()),
            },
            Request::RemoveFile { path } => match old(fs).remove_file_error(path@) {
                None => file_removed(*old(fs), *final(fs), path@) && r == Outcome::Success(
                    Payload::Empty,
                ),
                Some(e) => *final(fs) == *old(fs) && (r matches Outcome::Failure(m) && m@
                    == e.message_spec()),
            },
            Request::CopyFile { from, to } => match old(fs).copy_error(from@, to@) {
                None => file_copied(*old(fs), *final(fs), from@, to@) && r == Outcome::Success(
                    Payload::Empty,
                ),
                Some(e) => *final(fs) == *old(fs) && (r matches Outcome::Failure(m) && m@
                    == e.message_spec()),
            },
            Request::CurrentExe => *final(fs) == *old(fs) && match env.exe_view() {
                Some(s) => r matches Outcome::Success(p) && p matches Payload::Text(t) && t@ == s,
                None => r matches Outcome::Failure(m) && m@
                    == OpError::Unresolvable.message_spec(),
            },
            Request::EnvVars => *final(fs) == *old(fs) && (r matches Outcome::Success(p)
                && p matches Payload::Variables(vs) && env.valid_snapshot(pairs_view(vs@))),
        },
{
    match req {
        Request::ReadDir { path } => match fs.list_dir(&path) {
            Ok(entries) => Outcome::Success(Payload::Entries(entries)),
            Err(e) => Outcome::Failure(e.message()),
        },
        Request::CreateDir { path } => match fs.create_dir(&path) {
            Ok(()) => Outcome::Success(Payload::Empty),
            Err(e) => Outcome::Failure(e.message()),
        },
        Request::RemoveDirAll { path } => match fs.remove_dir_all(&path) {
            Ok(()) => Outcome::Success(Payload::Empty),
            Err(e) => Outcome::Failure(e.message()),
        },
        Request::PathExists { path } => Outcome::Success(Payload::Flag(fs.path_exists(&path))),
        Request::ReadFile { path } => match fs.read_file(&path) {
            Ok(bytes) => Outcome::Success(Payload::Bytes(bytes)),
            Err(e) => Outcome::Failure(e.message()),
        },
        Request::WriteFile { path, bytes } => match fs.write_file(&path, &bytes) {
            Ok(()) => Outcome::Success(Payload::Empty),
            Err(e) => Outcome::Failure(e.message()),
        },
        Request::RemoveFile { path } => match fs.remove_file(&path) {
            Ok(()) => Outcome::Success(Payload::Empty),
            Err(e) => Outcome::Failure(e.message()),
        },
        Request::CopyFile { from, to } => match fs.copy_file(&from, &to) {
            Ok(()) => Outcome::Success(Payload::Empty),
            Err(e) => Outcome::Failure(e.message()),
        },
        Request::CurrentExe => match env.current_exe() {
            Ok(text) => Outcome::Success(Payload::Text(text)),
            Err(e) => Outcome::Failure(e.message()),
        },
        Request::EnvVars => Outcome::Success(Payload::Variables(env.vars_snapshot())),
    }
}

/// Adapts a native empty-success outcome, already rendered by the host, to
/// the uniform contract.
pub fn empty_outcome(r: Result<(), String>) -> (o: Outcome)
    ensures
        match r {
            Ok(()) => o == Outcome::Success(Payload::Empty),
            Err(m) => o == Outcome::Failure(m),
        },
{
    match r {
        Ok(()) => Outcome::Success(Payload::Empty),
        Err(m) => Outcome::Failure(m),
    }
}

/// Adapts a native existence answer to the uniform contract.
pub fn flag_outcome(flag: bool) -> (o: Outcome)
    ensures
        o == Outcome::Success(Payload::Flag(flag)),
{
    Outcome::Success(Payload::Flag(flag))
}

/// Adapts a native whole-file read to the uniform contract.
pub fn bytes_outcome(r: Result<Vec<u8>, String>) -> (o: Outcome)
    ensures
        match r {
            Ok(bytes) => o == Outcome::Success(Payload::Bytes(bytes)),
            Err(m) => o == Outcome::Failure(m),
        },
{
    match r {
        Ok(bytes) => Outcome::Success(Payload::Bytes(bytes)),
        Err(m) => Outcome::Failure(m),
    }
}

/// Adapts a native directory listing to the uniform contract.
pub fn entries_outcome(r: Result<Vec<FsPath>, String>) -> (o: Outcome)
    ensures
        match r {
            Ok(entries) => o == Outcome::Success(Payload::Entries(entries)),
            Err(m) => o == Outcome::Failure(m),
        },
{
    match r {
        Ok(entries) => Outcome::Success(Payload::Entries(entries)),
        Err(m) => Outcome::Failure(m),
    }
}

/// Adapts a native textual answer to the uniform contract.
pub fn text_outcome(r: Result<String, String>) -> (o: Outcome)
    ensures
        match r {
            Ok(text) => o == Outcome::Success(Payload::Text(text)),
            Err(m) => o == Outcome::Failure(m),
        },
{
    match r {
        Ok(text) => Outcome::Success(Payload::Text(text)),
        Err(m) => Outcome::Failure(m),
    }
}

/// Adapts a native environment enumeration to the uniform contract.
pub fn variables_outcome(r: Result<Vec<(String, String)>, String>) -> (o: Outcome)
    ensures
        match r {
            Ok(vars) => o == Outcome::Success(Payload::Variables(vars)),
            Err(m) => o == Outcome::Failure(m),
        },
{
    match r {
        Ok(vars) => Outcome::Success(Payload::Variables(vars)),
        Err(m) => Outcome::Failure(m),
    }
}

} // verus!
