use fsbridge::bridge::Outcome;
use fsbridge::bridge::Payload;
use fsbridge::bridge::Request;
use fsbridge::bridge::bytes_outcome;
use fsbridge::bridge::dispatch;
use fsbridge::bridge::empty_outcome;
use fsbridge::bridge::entries_outcome;
use fsbridge::bridge::flag_outcome;
use fsbridge::bridge::text_outcome;
use fsbridge::bridge::variables_outcome;
use fsbridge::environment::ProcessEnv;
use fsbridge::errors::OpError;
use fsbridge::filesystem::FileSystem;
use fsbridge::path::FsPath;
use fsbridge::registry::Operation;
use fsbridge::registry::lookup_operation;

fn path(segments: &[&str]) -> FsPath {
    let segs: Vec<String> = segments.iter().map(|s| s.to_string()).collect();
    FsPath::new(segs)
}

#[test]
fn snapshot_after_set_includes_exact_value() {
    let mut env = ProcessEnv::new();
    env.set_var(&"HOME_DIR".to_string(), &"/home/u".to_string());
    env.set_var(&"LANG_TAG".to_string(), &"en".to_string());
    let snap = env.vars_snapshot();
    assert!(snap.contains(&("HOME_DIR".to_string(), "/home/u".to_string())));
    assert!(snap.contains(&("LANG_TAG".to_string(), "en".to_string())));
    assert_eq!(snap.len(), 2);
}

#[test]
fn snapshot_after_unset_excludes_the_name() {
    let mut env = ProcessEnv::new();
    env.set_var(&"TEMP_KEY".to_string(), &"1".to_string());
    env.set_var(&"OTHER".to_string(), &"2".to_string());
    env.unset_var(&"TEMP_KEY".to_string());
    let snap = env.vars_snapshot();
    assert!(snap.iter().all(|pair| pair.0 != "TEMP_KEY"));
    assert!(snap.contains(&("OTHER".to_string(), "2".to_string())));
    assert_eq!(snap.len(), 1);
}

#[test]
fn set_var_overwrites_previous_value() {
    let mut env = ProcessEnv::new();
    env.set_var(&"K".to_string(), &"old".to_string());
    env.set_var(&"K".to_string(), &"new".to_string());
    let snap = env.vars_snapshot();
    assert_eq!(snap.len(), 1);
    assert!(snap.contains(&("K".to_string(), "new".to_string())));
}

#[test]
fn unset_absent_name_changes_nothing() {
    let mut env = ProcessEnv::new();
    env.set_var(&"A".to_string(), &"1".to_string());
    env.unset_var(&"NOT_THERE".to_string());
    assert_eq!(env.vars_snapshot().len(), 1);
}

#[test]
fn current_exe_reports_resolution() {
    let mut env = ProcessEnv::new();
    assert_eq!(env.current_exe().unwrap_err(), OpError::Unresolvable);
    env.set_exe(Some("/usr/bin/app".to_string()));
    assert_eq!(env.current_exe().unwrap(), "/usr/bin/app");
    env.set_exe(None);
    assert_eq!(env.current_exe().unwrap_err(), OpError::Unresolvable);
}

#[test]
fn lookup_resolves_every_registered_name() {
    assert_eq!(lookup_operation("fs_read_dir"), Some(Operation::ReadDir));
    assert_eq!(lookup_operation("fs_create_dir"), Some(Operation::CreateDir));
    assert_eq!(
        lookup_operation("fs_remove_dir_all"),
        Some(Operation::RemoveDirAll)
    );
    assert_eq!(lookup_operation("fs_path_exists"), Some(Operation::PathExists));
    assert_eq!(lookup_operation("fs_read_file"), Some(Operation::ReadFile));
    assert_eq!(lookup_operation("fs_write_file"), Some(Operation::WriteFile));
    assert_eq!(lookup_operation("fs_remove_file"), Some(Operation::RemoveFile));
    assert_eq!(lookup_operation("fs_copy_file"), Some(Operation::CopyFile));
    assert_eq!(
        lookup_operation("env_current_exe"),
        Some(Operation::CurrentExe)
    );
    assert_eq!(lookup_operation("env_vars"), Some(Operation::EnvVars));
    assert_eq!(lookup_operation("fs_rename"), None);
    assert_eq!(lookup_operation(""), None);
}

#[test]
fn dispatch_round_trips_a_file() {
    let mut fs = FileSystem::new();
    let env = ProcessEnv::new();
    let written = dispatch(
        &mut fs,
        &env,
        Request::WriteFile { path: path(&["doc"]), bytes: vec![9u8, 8u8] },
    );
    assert_eq!(written, Outcome::Success(Payload::Empty));
    let read = dispatch(&mut fs, &env, Request::ReadFile { path: path(&["doc"]) });
    assert_eq!(read, Outcome::Success(Payload::Bytes(vec![9u8, 8u8])));
}

#[test]
fn dispatch_reports_existence() {
    let mut fs = FileSystem::new();
    let env = ProcessEnv::new();
    let absent = dispatch(&mut fs, &env, Request::PathExists { path: path(&["x"]) });
    assert_eq!(absent, Outcome::Success(Payload::Flag(false)));
    let made = dispatch(&mut fs, &env, Request::CreateDir { path: path(&["x"]) });
    assert_eq!(made, Outcome::Success(Payload::Empty));
    let present = dispatch(&mut fs, &env, Request::PathExists { path: path(&["x"]) });
    assert_eq!(present, Outcome::Success(Payload::Flag(true)));
}

#[test]
fn dispatch_failure_carries_the_message() {
    let mut fs = FileSystem::new();
    let env = ProcessEnv::new();
    let r = dispatch(&mut fs, &env, Request::ReadFile { path: path(&["gone"]) });
    assert_eq!(r, Outcome::Failure("entry not found".to_string()));
    let r2 = dispatch(&mut fs, &env, Request::CreateDir { path: FsPath::root() });
    assert_eq!(r2, Outcome::Failure("entry already exists".to_string()));
}

#[test]
fn dispatch_lists_created_entries() {
    let mut fs = FileSystem::new();
    let env = ProcessEnv::new();
    let made = dispatch(&mut fs, &env, Request::CreateDir { path: path(&["sub"]) });
    assert_eq!(made, Outcome::Success(Payload::Empty));
    let listed = dispatch(&mut fs, &env, Request::ReadDir { path: FsPath::root() });
    assert_eq!(
        listed,
        Outcome::Success(Payload::Entries(vec![path(&["sub"])]))
    );
}

#[test]
fn dispatch_removes_trees_and_files() {
    let mut fs = FileSystem::new();
    let env = ProcessEnv::new();
    dispatch(&mut fs, &env, Request::CreateDir { path: path(&["d"]) });
    dispatch(
        &mut fs,
        &env,
        Request::WriteFile { path: path(&["d", "f"]), bytes: vec![1u8] },
    );
    dispatch(&mut fs, &env, Request::WriteFile { path: path(&["g"]), bytes: vec![] });
    let removed = dispatch(&mut fs, &env, Request::RemoveDirAll { path: path(&["d"]) });
    assert_eq!(removed, Outcome::Success(Payload::Empty));
    let gone = dispatch(&mut fs, &env, Request::PathExists { path: path(&["d", "f"]) });
    assert_eq!(gone, Outcome::Success(Payload::Flag(false)));
    let removed_file = dispatch(&mut fs, &env, Request::RemoveFile { path: path(&["g"]) });
    assert_eq!(removed_file, Outcome::Success(Payload::Empty));
}

#[test]
fn dispatch_copies_files() {
    let mut fs = FileSystem::new();
    let env = ProcessEnv::new();
    dispatch(
        &mut fs,
        &env,
        Request::WriteFile { path: path(&["src"]), bytes: vec![4u8, 4u8] },
    );
    let copied = dispatch(
        &mut fs,
        &env,
        Request::CopyFile { from: path(&["src"]), to: path(&["dst"]) },
    );
    assert_eq!(copied, Outcome::Success(Payload::Empty));
    let read = dispatch(&mut fs, &env, Request::ReadFile { path: path(&["dst"]) });
    assert_eq!(read, Outcome::Success(Payload::Bytes(vec![4u8, 4u8])));
}

#[test]
fn dispatch_answers_environment_queries() {
    let mut fs = FileSystem::new();
    let mut env = ProcessEnv::new();
    env.set_var(&"ONE".to_string(), &"1".to_string());
    env.set_exe(Some("/bin/tool".to_string()));
    let exe = dispatch(&mut fs, &env, Request::CurrentExe);
    assert_eq!(exe, Outcome::Success(Payload::Text("/bin/tool".to_string())));
    let vars = dispatch(&mut fs, &env, Request::EnvVars);
    assert_eq!(
        vars,
        Outcome::Success(Payload::Variables(vec![("ONE".to_string(), "1".to_string())]))
    );
    env.set_exe(None);
    let unresolved = dispatch(&mut fs, &env, Request::CurrentExe);
    assert_eq!(
        unresolved,
        Outcome::Failure("executable path cannot be resolved".to_string())
    );
}

#[test]
fn adapters_wrap_native_outcomes() {
    assert_eq!(empty_outcome(Ok(())), Outcome::Success(Payload::Empty));
    assert_eq!(
        empty_outcome(Err("boom".to_string())),
        Outcome::Failure("boom".to_string())
    );
    assert_eq!(flag_outcome(true), Outcome::Success(Payload::Flag(true)));
    assert_eq!(
        bytes_outcome(Ok(vec![1u8])),
        Outcome::Success(Payload::Bytes(vec![1u8]))
    );
    assert_eq!(
        bytes_outcome(Err("no".to_string())),
        Outcome::Failure("no".to_string())
    );
    assert_eq!(
        entries_outcome(Ok(vec![path(&["e"])])),
        Outcome::Success(Payload::Entries(vec![path(&["e"])]))
    );
    assert_eq!(
        text_outcome(Ok("t".to_string())),
        Outcome::Success(Payload::Text("t".to_string()))
    );
    assert_eq!(
        variables_outcome(Ok(vec![("a".to_string(), "b".to_string())])),
        Outcome::Success(Payload::Variables(vec![("a".to_string(), "b".to_string())]))
    );
}
