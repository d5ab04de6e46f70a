//! The registration table: a fixed mapping from stable operation names to
//! operations, consulted by the dispatch layer.

use vstd::prelude::*;

verus! {

/// Every operation the call surface exposes.
#[derive(Clone, Copy, Debug, PartialEq, Eq, Structural)]
pub enum Operation {
    /// List a directory's immediate entries.
    ReadDir,
    /// Create a single directory level.
    CreateDir,
    /// Remove a directory and everything inside it.
    RemoveDirAll,
    /// Report whether anything stands at a path.
    PathExists,
    /// Read a whole file.
    ReadFile,
    /// Create or overwrite a file with given bytes.
    WriteFile,
    /// Remove a file.
    RemoveFile,
    /// Copy one file onto another path.
    CopyFile,
    /// Resolve the running executable's path.
    CurrentExe,
    /// Snapshot every environment variable.
    EnvVars,
}

/// The operation registered under `name`, if any.
pub open spec fn lookup_spec(name: Seq<char>) -> Option<Operation> {
    if name == "fs_read_dir"@ {
        Some(Operation::ReadDir)
    } else if name == "fs_create_dir"@ {
        Some(Operation::CreateDir)
    } else if name == "fs_remove_dir_all"@ {
        Some(Operation::RemoveDirAll)
    } else if name == "fs_path_exists"@ {
        Some(Operation::PathExists)
    } else if name == "fs_read_file"@ {
        Some(Operation::ReadFile)
    } else if name == "fs_write_file"@ {
        Some(Operation::WriteFile)
    } else if name == "fs_remove_file"@ {
        Some(Operation::RemoveFile)
    } else if name == "fs_copy_file"@ {
        Some(Operation::CopyFile)
    } else if name == "env_current_exe"@ {
        Some(Operation::CurrentExe)
    } else if name == "env_vars"@ {
        Some(Operation::EnvVars)
    } else {
        None
    }
}

/// Resolves an operation name against the registration table.
pub fn lookup_operation(name: &str) -> (r: Option<Operation>)
    ensures
        r == lookup_spec(name@),
{
    let owned: String = name.to_owned();
    if owned == String::from_str("fs_read_dir") {
        Some(Operation::ReadDir)
    } else if owned == String::from_str("fs_create_dir") {
        Some(Operation::CreateDir)
    } else if owned == String::from_str("fs_remove_dir_all") {
        Some(Operation::RemoveDirAll)
    } else if owned == String::from_str("fs_path_exists") {
        Some(Operation::PathExists)
    } else if owned == String::from_str("fs_read_file") {
        Some(Operation::ReadFile)
    } else if owned == String::from_str("fs_write_file") {
        Some(Operation::WriteFile)
    } else if owned == String::from_str("fs_remove_file") {
        Some(Operation::RemoveFile)
    } else if owned == String::from_str("fs_copy_file") {
        Some(Operation::CopyFile)
    } else if owned == String::from_str("env_current_exe") {
        Some(Operation::CurrentExe)
    } else if owned == String::from_str("env_vars") {
        Some(Operation::EnvVars)
    } else {
        None
    }
}

} // verus!
