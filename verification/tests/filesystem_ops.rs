use fsbridge::errors::OpError;
use fsbridge::filesystem::FileSystem;
use fsbridge::path::FsPath;
use fsbridge::path::parent_path;
use fsbridge::path::path_eq;
use fsbridge::path::path_is_child_of;
use fsbridge::path::path_is_prefix;

fn path(segments: &[&str]) -> FsPath {
    let segs: Vec<String> = segments.iter().map(|s| s.to_string()).collect();
    FsPath::new(segs)
}

#[test]
fn root_path_is_empty() {
    let root = FsPath::root();
    assert_eq!(root.depth(), 0);
    assert_eq!(root, path(&[]));
}

#[test]
fn path_helpers_agree() {
    let a = path(&["home", "user"]);
    let b = path(&["home", "user"]);
    let c = path(&["home", "user", "notes.txt"]);
    assert!(path_eq(&a, &b));
    assert!(!path_eq(&a, &c));
    assert!(path_is_prefix(&a, &c));
    assert!(!path_is_prefix(&c, &a));
    assert!(path_is_child_of(&c, &a));
    assert!(!path_is_child_of(&a, &c));
    assert_eq!(parent_path(&c), a);
    let cloned = a.clone();
    assert_eq!(cloned, a);
}

#[test]
fn push_segment_extends() {
    let mut p = FsPath::root();
    p.push_segment("etc".to_string());
    p.push_segment("hosts".to_string());
    assert_eq!(p, path(&["etc", "hosts"]));
    assert_eq!(p.depth(), 2);
}

#[test]
fn fresh_tree_has_only_root() {
    let fs = FileSystem::new();
    assert!(fs.path_exists(&FsPath::root()));
    assert!(fs.dir_exists(&FsPath::root()));
    assert!(!fs.path_exists(&path(&["anything"])));
}

#[test]
fn create_dir_then_list_parent_includes_it() {
    let mut fs = FileSystem::new();
    assert!(fs.create_dir(&path(&["work"])).is_ok());
    let entries = fs.list_dir(&FsPath::root()).unwrap();
    assert_eq!(entries.len(), 1);
    assert_eq!(entries[0], path(&["work"]));
}

#[test]
fn list_dir_names_each_entry_exactly_once() {
    let mut fs = FileSystem::new();
    assert!(fs.create_dir(&path(&["a"])).is_ok());
    assert!(fs.create_dir(&path(&["b"])).is_ok());
    assert!(fs.create_dir(&path(&["a", "inner"])).is_ok());
    assert!(fs.write_file(&path(&["note"]), &vec![1u8]).is_ok());
    let entries = fs.list_dir(&FsPath::root()).unwrap();
    assert_eq!(entries.len(), 3);
    assert!(entries.contains(&path(&["a"])));
    assert!(entries.contains(&path(&["b"])));
    assert!(entries.contains(&path(&["note"])));
    for i in 0..entries.len() {
        for j in 0..entries.len() {
            if i != j {
                assert_ne!(entries[i], entries[j]);
            }
        }
    }
    let inner = fs.list_dir(&path(&["a"])).unwrap();
    assert_eq!(inner, vec![path(&["a", "inner"])]);
}

#[test]
fn list_dir_errors() {
    let mut fs = FileSystem::new();
    assert_eq!(fs.list_dir(&path(&["missing"])).unwrap_err(), OpError::NotFound);
    assert!(fs.write_file(&path(&["plain"]), &vec![]).is_ok());
    assert_eq!(fs.list_dir(&path(&["plain"])).unwrap_err(), OpError::NotADirectory);
}

#[test]
fn create_dir_is_single_level() {
    let mut fs = FileSystem::new();
    assert_eq!(
        fs.create_dir(&path(&["a", "b"])).unwrap_err(),
        OpError::NotFound
    );
    assert!(fs.create_dir(&path(&["a"])).is_ok());
    assert!(fs.create_dir(&path(&["a", "b"])).is_ok());
    assert_eq!(fs.create_dir(&path(&["a"])).unwrap_err(), OpError::AlreadyExists);
    assert_eq!(fs.create_dir(&FsPath::root()).unwrap_err(), OpError::AlreadyExists);
}

#[test]
fn write_then_read_returns_exact_bytes() {
    let mut fs = FileSystem::new();
    let p = path(&["data.bin"]);
    let bytes: Vec<u8> = vec![0u8, 255u8, 17u8, 0u8, 128u8];
    assert!(fs.write_file(&p, &bytes).is_ok());
    assert_eq!(fs.read_file(&p).unwrap(), bytes);
}

#[test]
fn write_then_read_round_trips_empty() {
    let mut fs = FileSystem::new();
    let p = path(&["empty"]);
    assert!(fs.write_file(&p, &Vec::new()).is_ok());
    assert_eq!(fs.read_file(&p).unwrap(), Vec::<u8>::new());
}

#[test]
fn write_overwrites_unconditionally() {
    let mut fs = FileSystem::new();
    let p = path(&["f"]);
    assert!(fs.write_file(&p, &vec![1u8, 2u8]).is_ok());
    assert!(fs.write_file(&p, &vec![9u8]).is_ok());
    assert_eq!(fs.read_file(&p).unwrap(), vec![9u8]);
}

#[test]
fn write_file_errors() {
    let mut fs = FileSystem::new();
    assert_eq!(
        fs.write_file(&path(&["no_dir", "f"]), &vec![]).unwrap_err(),
        OpError::NotFound
    );
    assert!(fs.create_dir(&path(&["d"])).is_ok());
    assert_eq!(
        fs.write_file(&path(&["d"]), &vec![]).unwrap_err(),
        OpError::IsADirectory
    );
    assert_eq!(
        fs.write_file(&FsPath::root(), &vec![]).unwrap_err(),
        OpError::IsADirectory
    );
}

#[test]
fn read_file_errors() {
    let mut fs = FileSystem::new();
    assert_eq!(fs.read_file(&path(&["gone"])).unwrap_err(), OpError::NotFound);
    assert!(fs.create_dir(&path(&["d"])).is_ok());
    assert_eq!(fs.read_file(&path(&["d"])).unwrap_err(), OpError::IsADirectory);
}

#[test]
fn path_exists_tracks_lifecycle() {
    let mut fs = FileSystem::new();
    let d = path(&["dir"]);
    let f = path(&["file"]);
    assert!(!fs.path_exists(&d));
    assert!(!fs.path_exists(&f));
    assert!(fs.create_dir(&d).is_ok());
    assert!(fs.write_file(&f, &vec![3u8]).is_ok());
    assert!(fs.path_exists(&d));
    assert!(fs.path_exists(&f));
    assert!(fs.remove_file(&f).is_ok());
    assert!(!fs.path_exists(&f));
    assert!(fs.remove_dir_all(&d).is_ok());
    assert!(!fs.path_exists(&d));
}

#[test]
fn remove_file_errors() {
    let mut fs = FileSystem::new();
    assert_eq!(fs.remove_file(&path(&["none"])).unwrap_err(), OpError::NotFound);
    assert!(fs.create_dir(&path(&["d"])).is_ok());
    assert_eq!(fs.remove_file(&path(&["d"])).unwrap_err(), OpError::IsADirectory);
}

#[test]
fn copy_then_read_destination_matches_source() {
    let mut fs = FileSystem::new();
    let src = path(&["orig"]);
    let dst = path(&["dup"]);
    let bytes: Vec<u8> = vec![5u8, 0u8, 200u8];
    assert!(fs.write_file(&src, &bytes).is_ok());
    assert!(fs.copy_file(&src, &dst).is_ok());
    assert_eq!(fs.read_file(&dst).unwrap(), bytes);
    assert_eq!(fs.read_file(&src).unwrap(), bytes);
}

#[test]
fn copy_overwrites_destination() {
    let mut fs = FileSystem::new();
    let src = path(&["a"]);
    let dst = path(&["b"]);
    assert!(fs.write_file(&src, &vec![1u8]).is_ok());
    assert!(fs.write_file(&dst, &vec![2u8, 3u8]).is_ok());
    assert!(fs.copy_file(&src, &dst).is_ok());
    assert_eq!(fs.read_file(&dst).unwrap(), vec![1u8]);
}

#[test]
fn copy_file_errors() {
    let mut fs = FileSystem::new();
    assert_eq!(
        fs.copy_file(&path(&["none"]), &path(&["out"])).unwrap_err(),
        OpError::NotFound
    );
    assert!(fs.create_dir(&path(&["d"])).is_ok());
    assert_eq!(
        fs.copy_file(&path(&["d"]), &path(&["out"])).unwrap_err(),
        OpError::IsADirectory
    );
    assert!(fs.write_file(&path(&["f"]), &vec![7u8]).is_ok());
    assert_eq!(
        fs.copy_file(&path(&["f"]), &path(&["d"])).unwrap_err(),
        OpError::IsADirectory
    );
    assert_eq!(
        fs.copy_file(&path(&["f"]), &path(&["no_dir", "out"])).unwrap_err(),
        OpError::NotFound
    );
}

#[test]
fn remove_dir_all_leaves_no_trace_and_spares_siblings() {
    let mut fs = FileSystem::new();
    assert!(fs.create_dir(&path(&["keep"])).is_ok());
    assert!(fs.write_file(&path(&["keep", "safe"]), &vec![42u8]).is_ok());
    assert!(fs.create_dir(&path(&["drop"])).is_ok());
    assert!(fs.create_dir(&path(&["drop", "sub"])).is_ok());
    assert!(fs.write_file(&path(&["drop", "top"]), &vec![1u8]).is_ok());
    assert!(fs.write_file(&path(&["drop", "sub", "deep"]), &vec![2u8]).is_ok());
    assert!(fs.remove_dir_all(&path(&["drop"])).is_ok());
    assert!(!fs.path_exists(&path(&["drop"])));
    assert!(!fs.path_exists(&path(&["drop", "sub"])));
    assert!(!fs.path_exists(&path(&["drop", "top"])));
    assert!(!fs.path_exists(&path(&["drop", "sub", "deep"])));
    assert!(fs.path_exists(&path(&["keep"])));
    assert_eq!(fs.read_file(&path(&["keep", "safe"])).unwrap(), vec![42u8]);
}

#[test]
fn remove_dir_all_errors() {
    let mut fs = FileSystem::new();
    assert_eq!(
        fs.remove_dir_all(&path(&["none"])).unwrap_err(),
        OpError::NotFound
    );
    assert!(fs.write_file(&path(&["f"]), &vec![]).is_ok());
    assert_eq!(
        fs.remove_dir_all(&path(&["f"])).unwrap_err(),
        OpError::NotADirectory
    );
}

#[test]
fn remove_dir_all_on_root_clears_the_tree() {
    let mut fs = FileSystem::new();
    assert!(fs.create_dir(&path(&["a"])).is_ok());
    assert!(fs.write_file(&path(&["a", "f"]), &vec![1u8]).is_ok());
    assert!(fs.remove_dir_all(&FsPath::root()).is_ok());
    assert!(fs.path_exists(&FsPath::root()));
    assert!(!fs.path_exists(&path(&["a"])));
    assert!(!fs.path_exists(&path(&["a", "f"])));
    assert_eq!(fs.list_dir(&FsPath::root()).unwrap(), Vec::<FsPath>::new());
}

#[test]
fn error_messages_render() {
    assert_eq!(OpError::NotFound.message(), "entry not found");
    assert_eq!(OpError::AlreadyExists.message(), "entry already exists");
    assert_eq!(OpError::IsADirectory.message(), "entry is a directory");
    assert_eq!(OpError::NotADirectory.message(), "entry is not a directory");
    assert_eq!(
        OpError::Unresolvable.message(),
        "executable path cannot be resolved"
    );
}
