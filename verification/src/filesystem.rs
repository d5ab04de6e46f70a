//! The modeled tree of directories and files, with one exec function per
//! filesystem operation of the call surface.
//!
//! Every operation carries an exact contract: the precise inputs on which it
//! succeeds, the error kind every failing input produces, and how the tree
//! changes. The root directory always exists and cannot be removed; every
//! other directory and every file lies directly inside an existing
//! directory.

use vstd::prelude::*;

use crate::errors::OpError;
use crate::path::FsPath;
use crate::path::is_child_path;
use crate::path::lemma_prefix_of_parent;
use crate::path::parent_of;
use crate::path::parent_path;
use crate::path::path_eq;
use crate::path::path_is_child_of;
use crate::path::path_is_prefix;

verus! {

/// An in-memory tree of directories and files.
pub struct FileSystem {
    /// Every directory except the root, in no particular order.
    pub dirs: Vec<FsPath>,
    /// Every file, with its contents, in no particular order.
    pub files: Vec<(FsPath, Vec<u8>)>,
}

impl FileSystem {
    /// Whether `p` is a directory of the tree. The root always is.
    pub open spec fn is_dir(self, p: Seq<Seq<char>>) -> bool {
        p.len() == 0 || exists|i: int|
            0 <= i < self.dirs@.len() && #[trigger] self.dirs@[i]@ == p
    }

    /// Whether `p` is a file of the tree.
    pub open spec fn is_file(self, p: Seq<Seq<char>>) -> bool {
        exists|i: int| 0 <= i < self.files@.len() && #[trigger] self.files@[i].0@ == p
    }

    /// Whether anything (directory or file) stands at `p`.
    pub open spec fn exists_at(self, p: Seq<Seq<char>>) -> bool {
        self.is_dir(p) || self.is_file(p)
    }

    /// The contents of the file at `p` (meaningful only when `is_file(p)`).
    pub open spec fn file_content(self, p: Seq<Seq<char>>) -> Seq<u8> {
        let i = choose|i: int|
            0 <= i < self.files@.len() && #[trigger] self.files@[i].0@ == p;
        self.files@[i].1@
    }

    /// Well-formedness: paths are listed once, no path is both a file and a
    /// directory, the root is implicit, and every entry's parent is a
    /// directory of the tree.
    pub open spec fn wf(self) -> bool {
        &&& forall|i: int, j: int|
            0 <= i < j < self.dirs@.len() ==> #[trigger] self.dirs@[i]@ != #[trigger] self.dirs@[j]@
        &&& forall|i: int, j: int|
            0 <= i < j < self.files@.len()
                ==> #[trigger] self.files@[i].0@ != #[trigger] self.files@[j].0@
        &&& forall|i: int, j: int|
            0 <= i < self.dirs@.len() && 0 <= j < self.files@.len()
                ==> #[trigger] self.dirs@[i]@ != #[trigger] self.files@[j].0@
        &&& forall|i: int| 0 <= i < self.dirs@.len() ==> (#[trigger] self.dirs@[i]@).len() > 0
        &&& forall|i: int|
            0 <= i < self.files@.len() ==> (#[trigger] self.files@[i].0@).len() > 0
        &&& forall|i: int|
            0 <= i < self.dirs@.len() ==> self.is_dir(parent_of(#[trigger] self.dirs@[i]@))
        &&& forall|i: int|
            0 <= i < self.files@.len() ==> self.is_dir(parent_of(#[trigger] self.files@[i].0@))
    }

    /// A fresh tree holding only the root directory.
    pub fn new() -> (r: FileSystem)
        ensures
            r.wf(),
            forall|q: Seq<Seq<char>>| #[trigger] r.is_dir(q) == (q.len() == 0),
            forall|q: Seq<Seq<char>>| !(#[trigger] r.is_file(q)),
    {
        FileSystem { dirs: Vec::new(), files: Vec::new() }
    }

    /// Index of `p` among the directories, if it is one.
    fn find_dir_index(&self, p: &FsPath) -> (r: Option<usize>)
        ensures
            match r {
                Some(i) => i < self.dirs@.len() && self.dirs@[i as int]@ == p@,
                None => forall|i: int|
                    0 <= i < self.dirs@.len() ==> #[trigger] self.dirs@[i]@ != p@,
            },
    {
        let mut i: usize = 0;
        while i < self.dirs.len()
            invariant
                i <= self.dirs@.len(),
                forall|k: int| 0 <= k < i ==> #[trigger] self.dirs@[k]@ != p@,
            decreases self.dirs@.len() - i,
        {
            if path_eq(&self.dirs[i], p) {
                return Some(i);
            }
            i = i + 1;
        }
        None
    }

    /// Index of `p` among the files, if it is one.
    fn find_file_index(&self, p: &FsPath) -> (r: Option<usize>)
        ensures
            match r {
                Some(i) => i < self.files@.len() && self.files@[i as int].0@ == p@,
                None => forall|i: int|
                    0 <= i < self.files@.len() ==> #[trigger] self.files@[i].0@ != p@,
            },
    {
        let mut i: usize = 0;
        while i < self.files.len()
            invariant
                i <= self.files@.len(),
                forall|k: int| 0 <= k < i ==> #[trigger] self.files@[k].0@ != p@,
            decreases self.files@.len() - i,
        {
            if path_eq(&self.files[i].0, p) {
                return Some(i);
            }
            i = i + 1;
        }
        None
    }

    /// Whether `p` is a directory of the tree.
    pub fn dir_exists(&self, path: &FsPath) -> (r: bool)
        ensures
            r == self.is_dir(path@),
    {
        if path.depth() == 0 {
            return true;
        }
        self.find_dir_index(path).is_some()
    }

    /// Whether `p` is a file of the tree.
    pub fn file_exists(&self, path: &FsPath) -> (r: bool)
        ensures
            r == self.is_file(path@),
    {
        self.find_file_index(path).is_some()
    }

    /// Whether anything stands at `path`. Never fails, for any input.
    pub fn path_exists(&self, path: &FsPath) -> (r: bool)
        ensures
            r == self.exists_at(path@),
    {
        self.dir_exists(path) || self.file_exists(path)
    }

    /// What reading `p` yields: its contents, or the exact error kind.
    pub open spec fn read_result(self, p: Seq<Seq<char>>) -> Result<Seq<u8>, OpError> {
        if self.is_file(p) {
            Ok(self.file_content(p))
        } else if self.is_dir(p) {
            Err(OpError::IsADirectory)
        } else {
            Err(OpError::NotFound)
        }
    }

    /// Why writing `p` fails, if it does.
    pub open spec fn write_error(self, p: Seq<Seq<char>>) -> Option<OpError> {
        if self.is_dir(p) {
            Some(OpError::IsADirectory)
        } else if !self.is_dir(parent_of(p)) {
            Some(OpError::NotFound)
        } else {
            None
        }
    }

    /// Why creating directory `p` fails, if it does.
    pub open spec fn create_dir_error(self, p: Seq<Seq<char>>) -> Option<OpError> {
        if self.exists_at(p) {
            Some(OpError::AlreadyExists)
        } else if !self.is_dir(parent_of(p)) {
            Some(OpError::NotFound)
        } else {
            None
        }
    }

    /// Why removing file `p` fails, if it does.
    pub open spec fn remove_file_error(self, p: Seq<Seq<char>>) -> Option<OpError> {
        if self.is_file(p) {
            None
        } else if self.is_dir(p) {
            Some(OpError::IsADirectory)
        } else {
            Some(OpError::NotFound)
        }
    }

    /// Why removing the directory tree at `p` fails, if it does.
    pub open spec fn remove_dir_error(self, p: Seq<Seq<char>>) -> Option<OpError> {
        if self.is_dir(p) {
            None
        } else if self.is_file(p) {
            Some(OpError::NotADirectory)
        } else {
            Some(OpError::NotFound)
        }
    }

    /// Why listing directory `p` fails, if it does.
    pub open spec fn list_error(self, p: Seq<Seq<char>>) -> Option<OpError> {
        if self.is_dir(p) {
            None
        } else if self.is_file(p) {
            Some(OpError::NotADirectory)
        } else {
            Some(OpError::NotFound)
        }
    }

    /// Why copying `from` onto `to` fails, if it does.
    pub open spec fn copy_error(self, from: Seq<Seq<char>>, to: Seq<Seq<char>>) -> Option<
        OpError,
    > {
        match self.read_result(from) {
            Err(e) => Some(e),
            Ok(_) => self.write_error(to),
        }
    }

    /// `entries` lists exactly the immediate entries of directory `p`, each
    /// exactly once.
    pub open spec fn valid_listing(
        self,
        p: Seq<Seq<char>>,
        entries: Seq<Seq<Seq<char>>>,
    ) -> bool {
        &&& forall|k1: int, k2: int|
            0 <= k1 < k2 < entries.len() ==> #[trigger] entries[k1] != #[trigger] entries[k2]
        &&& forall|k: int|
            0 <= k < entries.len() ==> self.exists_at(#[trigger] entries[k]) && is_child_path(
                entries[k],
                p,
            )
        &&& forall|q: Seq<Seq<char>>|
            #[trigger] self.exists_at(q) && is_child_path(q, p) ==> entries.contains(q)
    }

    /// Reads the whole file at `path`.
    pub fn read_file(&self, path: &FsPath) -> (r: Result<Vec<u8>, OpError>)
        requires
            self.wf(),
        ensures
            match r {
                Ok(bytes) => self.read_result(path@) == Ok::<Seq<u8>, OpError>(bytes@),
                Err(e) => self.read_result(path@) == Err::<Seq<u8>, OpError>(e),
            },
    {
        match self.find_file_index(path) {
            Some(i) => {
                let bytes = clone_bytes(&self.files[i].1);
                proof {
                    let j = choose|j: int|
                        0 <= j < self.files@.len() && #[trigger] self.files@[j].0@ == path@;
                    assert(self.files@[j].0@ == self.files@[i as int].0@);
                    assert(j == i as int);
                }
                Ok(bytes)
            },
            None => {
                if self.dir_exists(path) {
                    Err(OpError::IsADirectory)
                } else {
                    Err(OpError::NotFound)
                }
            },
        }
    }

    /// Writes `bytes` to the file at `path`, creating or overwriting it.
    pub fn write_file(&mut self, path: &FsPath, bytes: &Vec<u8>) -> (r: Result<(), OpError>)
        requires
            old(self).wf(),
        ensures
            final(self).wf(),
            match r {
                Ok(()) => old(self).write_error(path@) is None && file_written(
                    *old(self),
                    *final(self),
                    path@,
                    bytes@,
                ),
                Err(e) => old(self).write_error(path@) == Some(e) && *final(self) == *old(self),
            },
    {
        if self.dir_exists(path) {
            return Err(OpError::IsADirectory);
        }
        proof {
            assert(path@.len() > 0);
        }
        let parent = parent_path(path);
        if !self.dir_exists(&parent) {
            return Err(OpError::NotFound);
        }
        let entry = (path.clone(), clone_bytes(bytes));
        let ghost pre = *self;
        match self.find_file_index(path) {
            Some(i) => {
                let _ = self.files.remove(i);
                self.files.push(entry);
                proof {
                    pre.files@.remove_ensures(i as int);
                    assert forall|k: int| 0 <= k < pre.files@.remove(i as int).len()
                        implies #[trigger] pre.files@.remove(i as int)[k].0@ != path@ by {
                        if k < i {
                            assert(pre.files@.remove(i as int)[k] == pre.files@[k]);
                        } else {
                            assert(pre.files@.remove(i as int)[k] == pre.files@[k + 1]);
                        }
                    }
                    assert forall|k: int| 0 <= k < pre.files@.remove(i as int).len()
                        implies pre.files@.contains(
                        #[trigger] pre.files@.remove(i as int)[k],
                    ) by {
                        if k < i {
                            assert(pre.files@[k] == pre.files@.remove(i as int)[k]);
                        } else {
                            assert(pre.files@[k + 1] == pre.files@.remove(i as int)[k]);
                        }
                    }
                    assert forall|j: int|
                        0 <= j < pre.files@.len() && (#[trigger] pre.files@[j]).0@ != path@
                        implies pre.files@.remove(i as int).contains(pre.files@[j]) by {
                        if j < i {
                            assert(pre.files@.remove(i as int)[j] == pre.files@[j]);
                        } else {
                            assert(j != i);
                            assert(pre.files@.remove(i as int)[j - 1] == pre.files@[j]);
                        }
                    }
                    assert forall|k1: int, k2: int|
                        0 <= k1 < k2 < pre.files@.remove(i as int).len() implies #[trigger] pre
                        .files@.remove(i as int)[k1].0@ != #[trigger] pre.files@.remove(
                        i as int,
                    )[k2].0@ by {
                        let j1: int = if k1 < i {
                            k1
                        } else {
                            k1 + 1
                        };
                        let j2: int = if k2 < i {
                            k2
                        } else {
                            k2 + 1
                        };
                        assert(pre.files@.remove(i as int)[k1] == pre.files@[j1]);
                        assert(pre.files@.remove(i as int)[k2] == pre.files@[j2]);
                    }
                    lemma_write_frames(pre, *self, pre.files@.remove(i as int), path@, bytes@);
                }
            },
            None => {
                self.files.push(entry);
                proof {
                    assert forall|k: int| 0 <= k < pre.files@.len() implies pre.files@.contains(
                        #[trigger] pre.files@[k],
                    ) by {
                        assert(pre.files@[k] == pre.files@[k]);
                    }
                    lemma_write_frames(pre, *self, pre.files@, path@, bytes@);
                }
            },
        }
        Ok(())
    }

    /// Creates the directory at `path`; its parent must already exist.
    pub fn create_dir(&mut self, path: &FsPath) -> (r: Result<(), OpError>)
        requires
            old(self).wf(),
        ensures
            final(self).wf(),
            match r {
                Ok(()) => old(self).create_dir_error(path@) is None && dir_created(
                    *old(self),
                    *final(self),
                    path@,
                ),
                Err(e) => old(self).create_dir_error(path@) == Some(e) && *final(self) == *old(
                    self,
                ),
            },
    {
        if self.dir_exists(path) || self.file_exists(path) {
            return Err(OpError::AlreadyExists);
        }
        proof {
            assert(path@.len() > 0);
        }
        let parent = parent_path(path);
        if !self.dir_exists(&parent) {
            return Err(OpError::NotFound);
        }
        let ghost pre = *self;
        self.dirs.push(path.clone());
        proof {
            assert forall|q: Seq<Seq<char>>| q != path@ implies #[trigger] self.is_dir(q)
                == pre.is_dir(q) by {
                if self.is_dir(q) && q.len() > 0 {
                    let k = choose|k: int|
                        0 <= k < self.dirs@.len() && #[trigger] self.dirs@[k]@ == q;
                    assert(self.dirs@[k] == pre.dirs@[k]);
                }
                if pre.is_dir(q) && q.len() > 0 {
                    let k = choose|k: int|
                        0 <= k < pre.dirs@.len() && #[trigger] pre.dirs@[k]@ == q;
                    assert(self.dirs@[k]@ == q);
                }
            }
            assert(self.dirs@[self.dirs@.len() - 1]@ == path@);
            assert(self.is_dir(path@));
            assert forall|k: int| 0 <= k < self.dirs@.len() implies self.is_dir(
                parent_of(#[trigger] self.dirs@[k]@),
            ) by {
                if k < pre.dirs@.len() {
                    assert(self.dirs@[k] == pre.dirs@[k]);
                    assert(pre.is_dir(parent_of(pre.dirs@[k]@)));
                } else {
                    assert(self.dirs@[k]@ == path@);
                    assert(pre.is_dir(parent_of(path@)));
                }
            }
            assert forall|k: int| 0 <= k < self.files@.len() implies self.is_dir(
                parent_of(#[trigger] self.files@[k].0@),
            ) by {
                assert(pre.is_dir(parent_of(pre.files@[k].0@)));
            }
        }
        Ok(())
    }

    /// Removes the file at `path`.
    pub fn remove_file(&mut self, path: &FsPath) -> (r: Result<(), OpError>)
        requires
            old(self).wf(),
        ensures
            final(self).wf(),
            match r {
                Ok(()) => old(self).remove_file_error(path@) is None && file_removed(
                    *old(self),
                    *final(self),
                    path@,
                ),
                Err(e) => old(self).remove_file_error(path@) == Some(e) && *final(self) == *old(
                    self,
                ),
            },
    {
        let ghost pre = *self;
        match self.find_file_index(path) {
            Some(i) => {
                let _ = self.files.remove(i);
                proof {
                    lemma_remove_entry_frames(pre, *self, i as int, path@);
                }
                Ok(())
            },
            None => {
                if self.dir_exists(path) {
                    Err(OpError::IsADirectory)
                } else {
                    Err(OpError::NotFound)
                }
            },
        }
    }
    /// Removes the directory at `path` together with everything inside it.
    pub fn remove_dir_all(&mut self, path: &FsPath) -> (r: Result<(), OpError>)
        requires
            old(self).wf(),
        ensures
            final(self).wf(),
            match r {
                Ok(()) => old(self).remove_dir_error(path@) is None && tree_removed(
                    *old(self),
                    *final(self),
                    path@,
                ),
                Err(e) => old(self).remove_dir_error(path@) == Some(e) && *final(self) == *old(
                    self,
                ),
            },
    {
        if !self.dir_exists(path) {
            if self.file_exists(path) {
                return Err(OpError::NotADirectory);
            }
            return Err(OpError::NotFound);
        }
        let ghost pre = *self;
        let mut i: usize = 0;
        while i < self.dirs.len()
            invariant
                pre.wf(),
                i <= self.dirs@.len(),
                self.files == pre.files,
                forall|k: int| 0 <= k < i ==> !path@.is_prefix_of(#[trigger] self.dirs@[k]@),
                forall|k: int|
                    0 <= k < self.dirs@.len() ==> pre.dirs@.contains(#[trigger] self.dirs@[k]),
                forall|j: int|
                    0 <= j < pre.dirs@.len() && !path@.is_prefix_of((#[trigger] pre.dirs@[j])@)
                        ==> self.dirs@.contains(pre.dirs@[j]),
                forall|k1: int, k2: int|
                    0 <= k1 < k2 < self.dirs@.len() ==> #[trigger] self.dirs@[k1]@
                        != #[trigger] self.dirs@[k2]@,
            decreases self.dirs@.len() - i,
        {
            if path_is_prefix(path, &self.dirs[i]) {
                let ghost cur = self.dirs@;
                let _ = self.dirs.remove(i);
                proof {
                    cur.remove_ensures(i as int);
                    assert forall|j: int|
                        0 <= j < pre.dirs@.len() && !path@.is_prefix_of(
                            (#[trigger] pre.dirs@[j])@,
                        ) implies self.dirs@.contains(pre.dirs@[j]) by {
                        let k0 = choose|k0: int|
                            0 <= k0 < cur.len() && #[trigger] cur[k0] == pre.dirs@[j];
                        assert(k0 != i);
                        if k0 < i {
                            assert(self.dirs@[k0] == pre.dirs@[j]);
                        } else {
                            assert(self.dirs@[k0 - 1] == pre.dirs@[j]);
                        }
                    }
                    assert forall|k1: int, k2: int|
                        0 <= k1 < k2 < self.dirs@.len() implies #[trigger] self.dirs@[k1]@
                        != #[trigger] self.dirs@[k2]@ by {
                        let j1: int = if k1 < i {
                            k1
                        } else {
                            k1 + 1
                        };
                        let j2: int = if k2 < i {
                            k2
                        } else {
                            k2 + 1
                        };
                        assert(self.dirs@[k1] == cur[j1]);
                        assert(self.dirs@[k2] == cur[j2]);
                    }
                }
            } else {
                i = i + 1;
            }
        }
        let ghost mid = *self;
        let mut j: usize = 0;
        while j < self.files.len()
            invariant
                pre.wf(),
                j <= self.files@.len(),
                self.dirs == mid.dirs,
                forall|k: int| 0 <= k < j ==> !path@.is_prefix_of(#[trigger] self.files@[k].0@),
                forall|k: int|
                    0 <= k < self.files@.len() ==> pre.files@.contains(#[trigger] self.files@[k]),
                forall|jj: int|
                    0 <= jj < pre.files@.len() && !path@.is_prefix_of(
                        (#[trigger] pre.files@[jj]).0@,
                    ) ==> self.files@.contains(pre.files@[jj]),
                forall|k1: int, k2: int|
                    0 <= k1 < k2 < self.files@.len() ==> #[trigger] self.files@[k1].0@
                        != #[trigger] self.files@[k2].0@,
            decreases self.files@.len() - j,
        {
            if path_is_prefix(path, &self.files[j].0) {
                let ghost cur = self.files@;
                let _ = self.files.remove(j);
                proof {
                    cur.remove_ensures(j as int);
                    assert forall|jj: int|
                        0 <= jj < pre.files@.len() && !path@.is_prefix_of(
                            (#[trigger] pre.files@[jj]).0@,
                        ) implies self.files@.contains(pre.files@[jj]) by {
                        let k0 = choose|k0: int|
                            0 <= k0 < cur.len() && #[trigger] cur[k0] == pre.files@[jj];
                        assert(k0 != j);
                        if k0 < j {
                            assert(self.files@[k0] == pre.files@[jj]);
                        } else {
                            assert(self.files@[k0 - 1] == pre.files@[jj]);
                        }
                    }
                    assert forall|k1: int, k2: int|
                        0 <= k1 < k2 < self.files@.len() implies #[trigger] self.files@[k1].0@
                        != #[trigger] self.files@[k2].0@ by {
                        let j1: int = if k1 < j {
                            k1
                        } else {
                            k1 + 1
                        };
                        let j2: int = if k2 < j {
                            k2
                        } else {
                            k2 + 1
                        };
                        assert(self.files@[k1] == cur[j1]);
                        assert(self.files@[k2] == cur[j2]);
                    }
                }
            } else {
                j = j + 1;
            }
        }
        proof {
            lemma_tree_removed(pre, *self, path@);
        }
        Ok(())
    }

    /// Lists the immediate entries of the directory at `path`.
    pub fn list_dir(&self, path: &FsPath) -> (r: Result<Vec<FsPath>, OpError>)
        requires
            self.wf(),
        ensures
            match r {
                Ok(entries) => self.list_error(path@) is None && self.valid_listing(
                    path@,
                    entries@.map_values(|e: FsPath| e@),
                ),
                Err(e) => self.list_error(path@) == Some(e),
            },
    {
        if !self.dir_exists(path) {
            if self.file_exists(path) {
                return Err(OpError::NotADirectory);
            }
            return Err(OpError::NotFound);
        }
        let mut entries: Vec<FsPath> = Vec::new();
        let mut i: usize = 0;
        while i < self.dirs.len()
            invariant
                self.wf(),
                i <= self.dirs@.len(),
                forall|k: int|
                    0 <= k < entries@.len() ==> is_child_path(
                        (#[trigger] entries@[k])@,
                        path@,
                    ),
                forall|k: int|
                    0 <= k < entries@.len() ==> dir_views_has(
                        self.dirs@,
                        i as int,
                        (#[trigger] entries@[k])@,
                    ),
                forall|j: int|
                    0 <= j < i && is_child_path((#[trigger] self.dirs@[j])@, path@)
                        ==> entry_views_has(entries@, self.dirs@[j]@),
                forall|k1: int, k2: int|
                    0 <= k1 < k2 < entries@.len() ==> #[trigger] entries@[k1]@
                        != #[trigger] entries@[k2]@,
            decreases self.dirs@.len() - i,
        {
            if path_is_child_of(&self.dirs[i], path) {
                let ghost before = entries@;
                entries.push(self.dirs[i].clone());
                proof {
                    assert(entries@[before.len() as int]@ == self.dirs@[i as int]@);
                    assert(entry_views_has(entries@, self.dirs@[i as int]@));
                    assert forall|v: Seq<Seq<char>>| entry_views_has(before, v)
                        implies #[trigger] entry_views_has(entries@, v) by {
                        let k = choose|k: int| 0 <= k < before.len() && (#[trigger] before[k])@ == v;
                        assert((entries@[k])@ == v);
                    }
                    assert forall|k1: int, k2: int|
                        0 <= k1 < k2 < entries@.len() implies #[trigger] entries@[k1]@
                        != #[trigger] entries@[k2]@ by {
                        if k2 == before.len() {
                            let j0 = choose|j0: int|
                                0 <= j0 < i && #[trigger] self.dirs@[j0]@ == entries@[k1]@;
                            assert(self.dirs@[j0]@ != self.dirs@[i as int]@);
                        }
                    }
                }
            }
            i = i + 1;
        }
        let ghost n_dirs = entries@.len() as int;
        let mut j: usize = 0;
        while j < self.files.len()
            invariant
                self.wf(),
                j <= self.files@.len(),
                0 <= n_dirs <= entries@.len(),
                forall|k: int|
                    0 <= k < entries@.len() ==> is_child_path(
                        (#[trigger] entries@[k])@,
                        path@,
                    ),
                forall|k: int|
                    0 <= k < n_dirs ==> dir_views_has(
                        self.dirs@,
                        self.dirs@.len() as int,
                        (#[trigger] entries@[k])@,
                    ),
                forall|jd: int|
                    0 <= jd < self.dirs@.len() && is_child_path(
                        (#[trigger] self.dirs@[jd])@,
                        path@,
                    ) ==> entry_views_has(entries@, self.dirs@[jd]@),
                forall|k: int|
                    n_dirs <= k < entries@.len() ==> file_views_has(
                        self.files@,
                        j as int,
                        (#[trigger] entries@[k])@,
                    ),
                forall|jf: int|
                    0 <= jf < j && is_child_path((#[trigger] self.files@[jf]).0@, path@)
                        ==> entry_views_has(entries@, self.files@[jf].0@),
                forall|k1: int, k2: int|
                    0 <= k1 < k2 < entries@.len() ==> #[trigger] entries@[k1]@
                        != #[trigger] entries@[k2]@,
            decreases self.files@.len() - j,
        {
            if path_is_child_of(&self.files[j].0, path) {
                let ghost before = entries@;
                entries.push(self.files[j].0.clone());
                proof {
                    assert(entries@[before.len() as int]@ == self.files@[j as int].0@);
                    assert(entry_views_has(entries@, self.files@[j as int].0@));
                    assert forall|v: Seq<Seq<char>>| entry_views_has(before, v)
                        implies #[trigger] entry_views_has(entries@, v) by {
                        let k = choose|k: int| 0 <= k < before.len() && (#[trigger] before[k])@ == v;
                        assert((entries@[k])@ == v);
                    }
                    assert forall|k1: int, k2: int|
                        0 <= k1 < k2 < entries@.len() implies #[trigger] entries@[k1]@
                        != #[trigger] entries@[k2]@ by {
                        if k2 == before.len() {
                            if k1 < n_dirs {
                                let j0 = choose|j0: int|
                                    0 <= j0 < self.dirs@.len() && #[trigger] self.dirs@[j0]@
                                        == entries@[k1]@;
                                assert(self.dirs@[j0]@ != self.files@[j as int].0@);
                            } else {
                                let j0 = choose|j0: int|
                                    0 <= j0 < j && #[trigger] self.files@[j0].0@ == entries@[k1]@;
                                assert(self.files@[j0].0@ != self.files@[j as int].0@);
                            }
                        }
                    }
                }
            }
            j = j + 1;
        }
        proof {
            let views = entries@.map_values(|e: FsPath| e@);
            assert forall|k1: int, k2: int| 0 <= k1 < k2 < views.len() implies #[trigger] views[k1]
                != #[trigger] views[k2] by {
                assert(views[k1] == entries@[k1]@);
                assert(views[k2] == entries@[k2]@);
            }
            assert forall|k: int| 0 <= k < views.len() implies self.exists_at(#[trigger] views[k])
                && is_child_path(views[k], path@) by {
                assert(views[k] == entries@[k]@);
                if k < n_dirs {
                    let j0 = choose|j0: int|
                        0 <= j0 < self.dirs@.len() && #[trigger] self.dirs@[j0]@ == entries@[k]@;
                    assert(self.is_dir(views[k]));
                } else {
                    let j0 = choose|j0: int|
                        0 <= j0 < self.files@.len() && #[trigger] self.files@[j0].0@
                            == entries@[k]@;
                    assert(self.is_file(views[k]));
                }
            }
            assert forall|q: Seq<Seq<char>>|
                #[trigger] self.exists_at(q) && is_child_path(q, path@) implies views.contains(
                q,
            ) by {
                if q.len() > 0 {
                    if self.is_dir(q) {
                        let j0 = choose|j0: int|
                            0 <= j0 < self.dirs@.len() && #[trigger] self.dirs@[j0]@ == q;
                        assert(entry_views_has(entries@, q));
                    } else {
                        let j0 = choose|j0: int|
                            0 <= j0 < self.files@.len() && #[trigger] self.files@[j0].0@ == q;
                        assert(entry_views_has(entries@, q));
                    }
                    let k = choose|k: int|
                        0 <= k < entries@.len() && (#[trigger] entries@[k])@ == q;
                    assert(views[k] == q);
                }
            }
        }
        Ok(entries)
    }

    /// Copies the file at `from` onto `to`, overwriting whatever file stood
    /// there.
    pub fn copy_file(&mut self, from: &FsPath, to: &FsPath) -> (r: Result<(), OpError>)
        requires
            old(self).wf(),
        ensures
            final(self).wf(),
            match r {
                Ok(()) => old(self).copy_error(from@, to@) is None && file_copied(
                    *old(self),
                    *final(self),
                    from@,
                    to@,
                ),
                Err(e) => old(self).copy_error(from@, to@) == Some(e) && *final(self) == *old(
                    self,
                ),
            },
    {
        let bytes = match self.read_file(from) {
            Ok(b) => b,
            Err(e) => {
                return Err(e);
            },
        };
        match self.write_file(to, &bytes) {
            Ok(()) => Ok(()),
            Err(e) => Err(e),
        }
    }
}

/// Whether one of the first `n` directory entries has view `v`.
pub open spec fn dir_views_has(s: Seq<FsPath>, n: int, v: Seq<Seq<char>>) -> bool {
    exists|j: int| 0 <= j < n && j < s.len() && (#[trigger] s[j])@ == v
}

/// Whether one of the first `n` file entries has path view `v`.
pub open spec fn file_views_has(s: Seq<(FsPath, Vec<u8>)>, n: int, v: Seq<Seq<char>>) -> bool {
    exists|j: int| 0 <= j < n && j < s.len() && (#[trigger] s[j]).0@ == v
}

/// Whether some listed entry has view `v`.
pub open spec fn entry_views_has(s: Seq<FsPath>, v: Seq<Seq<char>>) -> bool {
    exists|k: int| 0 <= k < s.len() && (#[trigger] s[k])@ == v
}

/// How a successful recursive removal relates the new tree to the old:
/// everything at or below `p` is gone, and nothing else changed.
pub open spec fn tree_removed(pre: FileSystem, post: FileSystem, p: Seq<Seq<char>>) -> bool {
    &&& forall|q: Seq<Seq<char>>|
        #[trigger] post.is_dir(q) == (q.len() == 0 || (pre.is_dir(q) && !p.is_prefix_of(q)))
    &&& forall|q: Seq<Seq<char>>|
        #[trigger] post.is_file(q) == (pre.is_file(q) && !p.is_prefix_of(q))
    &&& forall|q: Seq<Seq<char>>|
        post.is_file(q) ==> #[trigger] post.file_content(q) == pre.file_content(q)
}

/// How a successful copy relates the new tree to the old: `to` now holds
/// exactly the contents of `from`, which itself is untouched.
pub open spec fn file_copied(
    pre: FileSystem,
    post: FileSystem,
    from: Seq<Seq<char>>,
    to: Seq<Seq<char>>,
) -> bool {
    &&& pre.is_file(from)
    &&& file_written(pre, post, to, pre.file_content(from))
    &&& post.is_file(from)
    &&& post.file_content(from) == pre.file_content(from)
}

/// Closing proof for `remove_dir_all`: from the loop invariants on the kept
/// entries to `tree_removed` and well-formedness.
#[verifier::rlimit(100)]
proof fn lemma_tree_removed(pre: FileSystem, post: FileSystem, p: Seq<Seq<char>>)
    requires
        pre.wf(),
        forall|k: int| 0 <= k < post.dirs@.len() ==> !p.is_prefix_of(#[trigger] post.dirs@[k]@),
        forall|k: int| 0 <= k < post.dirs@.len() ==> pre.dirs@.contains(#[trigger] post.dirs@[k]),
        forall|j: int|
            0 <= j < pre.dirs@.len() && !p.is_prefix_of((#[trigger] pre.dirs@[j])@)
                ==> post.dirs@.contains(pre.dirs@[j]),
        forall|k1: int, k2: int|
            0 <= k1 < k2 < post.dirs@.len() ==> #[trigger] post.dirs@[k1]@ != #[trigger] post
                .dirs@[k2]@,
        forall|k: int| 0 <= k < post.files@.len() ==> !p.is_prefix_of(#[trigger] post.files@[k].0@),
        forall|k: int|
            0 <= k < post.files@.len() ==> pre.files@.contains(#[trigger] post.files@[k]),
        forall|j: int|
            0 <= j < pre.files@.len() && !p.is_prefix_of((#[trigger] pre.files@[j]).0@)
                ==> post.files@.contains(pre.files@[j]),
        forall|k1: int, k2: int|
            0 <= k1 < k2 < post.files@.len() ==> #[trigger] post.files@[k1].0@ != #[trigger] post
                .files@[k2].0@,
    ensures
        post.wf(),
        tree_removed(pre, post, p),
{
    assert forall|q: Seq<Seq<char>>| #[trigger] post.is_dir(q) == (q.len() == 0 || (pre.is_dir(q)
        && !p.is_prefix_of(q))) by {
        if post.is_dir(q) && q.len() > 0 {
            let k = choose|k: int| 0 <= k < post.dirs@.len() && #[trigger] post.dirs@[k]@ == q;
            let j = choose|j: int|
                0 <= j < pre.dirs@.len() && #[trigger] pre.dirs@[j] == post.dirs@[k];
            assert(pre.dirs@[j]@ == q);
        }
        if q.len() > 0 && pre.is_dir(q) && !p.is_prefix_of(q) {
            let j = choose|j: int| 0 <= j < pre.dirs@.len() && #[trigger] pre.dirs@[j]@ == q;
            let k = choose|k: int|
                0 <= k < post.dirs@.len() && #[trigger] post.dirs@[k] == pre.dirs@[j];
            assert(post.dirs@[k]@ == q);
        }
    }
    assert forall|q: Seq<Seq<char>>| #[trigger] post.is_file(q) == (pre.is_file(q)
        && !p.is_prefix_of(q)) by {
        if post.is_file(q) {
            let k = choose|k: int| 0 <= k < post.files@.len() && #[trigger] post.files@[k].0@ == q;
            let j = choose|j: int|
                0 <= j < pre.files@.len() && #[trigger] pre.files@[j] == post.files@[k];
            assert(pre.files@[j].0@ == q);
        }
        if pre.is_file(q) && !p.is_prefix_of(q) {
            let j = choose|j: int| 0 <= j < pre.files@.len() && #[trigger] pre.files@[j].0@ == q;
            let k = choose|k: int|
                0 <= k < post.files@.len() && #[trigger] post.files@[k] == pre.files@[j];
            assert(post.files@[k].0@ == q);
        }
    }
    assert forall|q: Seq<Seq<char>>| post.is_file(q) implies #[trigger] post.file_content(q)
        == pre.file_content(q) by {
        let k = choose|k: int| 0 <= k < post.files@.len() && #[trigger] post.files@[k].0@ == q;
        let j = choose|j: int|
            0 <= j < pre.files@.len() && #[trigger] pre.files@[j] == post.files@[k];
        let kc = choose|kc: int| 0 <= kc < post.files@.len() && #[trigger] post.files@[kc].0@ == q;
        assert(kc == k);
        let jc = choose|jc: int| 0 <= jc < pre.files@.len() && #[trigger] pre.files@[jc].0@ == q;
        assert(pre.files@[jc].0@ == pre.files@[j].0@);
        assert(jc == j);
    }
    assert forall|i: int, j: int|
        0 <= i < post.dirs@.len() && 0 <= j < post.files@.len() implies #[trigger] post.dirs@[i]@
        != #[trigger] post.files@[j].0@ by {
        let jd = choose|jd: int|
            0 <= jd < pre.dirs@.len() && #[trigger] pre.dirs@[jd] == post.dirs@[i];
        let jf = choose|jf: int|
            0 <= jf < pre.files@.len() && #[trigger] pre.files@[jf] == post.files@[j];
        assert(pre.dirs@[jd]@ != pre.files@[jf].0@);
    }
    assert forall|i: int| 0 <= i < post.dirs@.len() implies (#[trigger] post.dirs@[i]@).len()
        > 0 by {
        let jd = choose|jd: int|
            0 <= jd < pre.dirs@.len() && #[trigger] pre.dirs@[jd] == post.dirs@[i];
        assert(pre.dirs@[jd]@.len() > 0);
    }
    assert forall|i: int| 0 <= i < post.files@.len() implies (#[trigger] post.files@[i].0@).len()
        > 0 by {
        let jf = choose|jf: int|
            0 <= jf < pre.files@.len() && #[trigger] pre.files@[jf] == post.files@[i];
        assert(pre.files@[jf].0@.len() > 0);
    }
    assert forall|i: int| 0 <= i < post.dirs@.len() implies post.is_dir(
        parent_of(#[trigger] post.dirs@[i]@),
    ) by {
        let d = post.dirs@[i]@;
        let jd = choose|jd: int| 0 <= jd < pre.dirs@.len() && #[trigger] pre.dirs@[jd] == post.dirs@[i];
        assert(pre.is_dir(parent_of(pre.dirs@[jd]@)));
        assert(d.len() > 0);
        if p.is_prefix_of(parent_of(d)) {
            lemma_prefix_of_parent(p, d);
            assert(false);
        }
        assert(pre.is_dir(parent_of(d)) && !p.is_prefix_of(parent_of(d)));
    }
    assert forall|i: int| 0 <= i < post.files@.len() implies post.is_dir(
        parent_of(#[trigger] post.files@[i].0@),
    ) by {
        let d = post.files@[i].0@;
        let jf = choose|jf: int|
            0 <= jf < pre.files@.len() && #[trigger] pre.files@[jf] == post.files@[i];
        assert(pre.is_dir(parent_of(pre.files@[jf].0@)));
        assert(d.len() > 0);
        if p.is_prefix_of(parent_of(d)) {
            lemma_prefix_of_parent(p, d);
            assert(false);
        }
        assert(pre.is_dir(parent_of(d)) && !p.is_prefix_of(parent_of(d)));
    }
}

/// Bytes copied out of or into the tree.
fn clone_bytes(b: &Vec<u8>) -> (r: Vec<u8>)
    ensures
        r@ == b@,
{
    let mut r: Vec<u8> = Vec::new();
    let mut i: usize = 0;
    while i < b.len()
        invariant
            i <= b@.len(),
            r@ =~= b@.subrange(0, i as int),
        decreases b@.len() - i,
    {
        r.push(b[i]);
        proof {
            assert(r@ =~= b@.subrange(0, i + 1 as int));
        }
        i = i + 1;
    }
    proof {
        assert(r@ =~= b@);
    }
    r
}

/// How a successful write relates the new tree to the old: the file stands
/// at `p` with exactly `bytes`, and nothing else changed.
pub open spec fn file_written(
    pre: FileSystem,
    post: FileSystem,
    p: Seq<Seq<char>>,
    bytes: Seq<u8>,
) -> bool {
    &&& post.is_file(p)
    &&& post.file_content(p) == bytes
    &&& forall|q: Seq<Seq<char>>| q != p ==> #[trigger] post.is_file(q) == pre.is_file(q)
    &&& forall|q: Seq<Seq<char>>|
        q != p && pre.is_file(q) ==> #[trigger] post.file_content(q) == pre.file_content(q)
    &&& forall|q: Seq<Seq<char>>| #[trigger] post.is_dir(q) == pre.is_dir(q)
}

/// How a successful directory creation relates the new tree to the old:
/// the directory stands at `p`, and nothing else changed.
pub open spec fn dir_created(pre: FileSystem, post: FileSystem, p: Seq<Seq<char>>) -> bool {
    &&& p.len() > 0
    &&& !pre.exists_at(p)
    &&& post.is_dir(p)
    &&& forall|q: Seq<Seq<char>>| q != p ==> #[trigger] post.is_dir(q) == pre.is_dir(q)
    &&& forall|q: Seq<Seq<char>>| #[trigger] post.is_file(q) == pre.is_file(q)
    &&& forall|q: Seq<Seq<char>>|
        pre.is_file(q) ==> #[trigger] post.file_content(q) == pre.file_content(q)
}

/// How a successful file removal relates the new tree to the old: nothing
/// stands at `p` any more, and nothing else changed.
pub open spec fn file_removed(pre: FileSystem, post: FileSystem, p: Seq<Seq<char>>) -> bool {
    &&& pre.is_file(p)
    &&& !post.is_file(p)
    &&& !post.is_dir(p)
    &&& forall|q: Seq<Seq<char>>| q != p ==> #[trigger] post.is_file(q) == pre.is_file(q)
    &&& forall|q: Seq<Seq<char>>|
        q != p && pre.is_file(q) ==> #[trigger] post.file_content(q) == pre.file_content(q)
    &&& forall|q: Seq<Seq<char>>| #[trigger] post.is_dir(q) == pre.is_dir(q)
}

/// Frame proof shared by the write paths: `post.files` is `mid` (the old
/// files with any entry at `p` removed) plus the new entry at `p`.
#[verifier::rlimit(100)]
proof fn lemma_write_frames(
    pre: FileSystem,
    post: FileSystem,
    mid: Seq<(FsPath, Vec<u8>)>,
    p: Seq<Seq<char>>,
    bytes: Seq<u8>,
)
    requires
        pre.wf(),
        !pre.is_dir(p),
        pre.is_dir(parent_of(p)),
        p.len() > 0,
        post.dirs == pre.dirs,
        forall|k: int| 0 <= k < mid.len() ==> #[trigger] mid[k].0@ != p,
        forall|k: int| 0 <= k < mid.len() ==> pre.files@.contains(#[trigger] mid[k]),
        forall|j: int|
            0 <= j < pre.files@.len() && (#[trigger] pre.files@[j]).0@ != p ==> mid.contains(
                pre.files@[j],
            ),
        forall|k1: int, k2: int|
            0 <= k1 < k2 < mid.len() ==> #[trigger] mid[k1].0@ != #[trigger] mid[k2].0@,
        post.files@.len() == mid.len() + 1,
        forall|k: int| 0 <= k < mid.len() ==> #[trigger] post.files@[k] == mid[k],
        post.files@[mid.len() as int].0@ == p,
        post.files@[mid.len() as int].1@ == bytes,
    ensures
        post.wf(),
        file_written(pre, post, p, bytes),
{
    let n = mid.len() as int;
    assert(post.is_file(p));
    assert forall|q: Seq<Seq<char>>| q != p implies #[trigger] post.is_file(q) == pre.is_file(
        q,
    ) by {
        if post.is_file(q) {
            let k = choose|k: int|
                0 <= k < post.files@.len() && #[trigger] post.files@[k].0@ == q;
            assert(k < n);
            let j = choose|j: int| 0 <= j < pre.files@.len() && mid[k] == #[trigger] pre.files@[j];
            assert(pre.files@[j].0@ == q);
        }
        if pre.is_file(q) {
            let j = choose|j: int| 0 <= j < pre.files@.len() && #[trigger] pre.files@[j].0@ == q;
            let k = choose|k: int| 0 <= k < mid.len() && mid[k] == pre.files@[j];
            assert(post.files@[k].0@ == q);
        }
    }
    assert forall|q: Seq<Seq<char>>| #[trigger] post.is_dir(q) == pre.is_dir(q) by {
        assert(post.dirs@ == pre.dirs@);
    }
    assert forall|k1: int, k2: int| 0 <= k1 < k2 < post.files@.len() implies #[trigger] post
        .files@[k1].0@ != #[trigger] post.files@[k2].0@ by {
        if k2 < n {
        } else {
            assert(post.files@[k1].0@ != p);
        }
    }
    assert(post.file_content(p) == bytes) by {
        let i = choose|i: int| 0 <= i < post.files@.len() && #[trigger] post.files@[i].0@ == p;
        assert(i == n);
    }
    assert forall|q: Seq<Seq<char>>| q != p && pre.is_file(q) implies #[trigger] post.file_content(
        q,
    ) == pre.file_content(q) by {
        let j = choose|j: int| 0 <= j < pre.files@.len() && #[trigger] pre.files@[j].0@ == q;
        let k = choose|k: int| 0 <= k < mid.len() && mid[k] == pre.files@[j];
        let kc = choose|kc: int| 0 <= kc < post.files@.len() && #[trigger] post.files@[kc].0@ == q;
        assert(post.files@[k].0@ == q);
        assert(kc == k);
        let jc = choose|jc: int| 0 <= jc < pre.files@.len() && #[trigger] pre.files@[jc].0@ == q;
        assert(jc == j);
        assert(post.files@[k].1@ == pre.files@[j].1@);
    }
    assert forall|i: int, j: int|
        0 <= i < post.dirs@.len() && 0 <= j < post.files@.len() implies #[trigger] post.dirs@[i]@
        != #[trigger] post.files@[j].0@ by {
        if j == n {
            assert(pre.is_dir(post.dirs@[i]@));
        }
    }
    assert forall|i: int| 0 <= i < post.files@.len() implies (
    #[trigger] post.files@[i].0@).len() > 0 by {
        if i < n {
            let j = choose|j: int| 0 <= j < pre.files@.len() && mid[i] == #[trigger] pre.files@[j];
        }
    }
    assert forall|i: int| 0 <= i < post.dirs@.len() implies post.is_dir(
        parent_of(#[trigger] post.dirs@[i]@),
    ) by {
        assert(pre.is_dir(parent_of(pre.dirs@[i]@)));
    }
    assert forall|i: int| 0 <= i < post.files@.len() implies post.is_dir(
        parent_of(#[trigger] post.files@[i].0@),
    ) by {
        if i < n {
            let j = choose|j: int| 0 <= j < pre.files@.len() && mid[i] == #[trigger] pre.files@[j];
            assert(pre.is_dir(parent_of(pre.files@[j].0@)));
        } else {
            assert(pre.is_dir(parent_of(p)));
        }
    }
}

/// Frame proof for removing the single file entry at index `i`.
proof fn lemma_remove_entry_frames(pre: FileSystem, post: FileSystem, i: int, p: Seq<Seq<char>>)
    requires
        pre.wf(),
        0 <= i < pre.files@.len(),
        pre.files@[i].0@ == p,
        post.dirs == pre.dirs,
        post.files@ == pre.files@.remove(i),
    ensures
        post.wf(),
        file_removed(pre, post, p),
{
    let n = pre.files@.len() as int;
    assert forall|k: int| 0 <= k < post.files@.len() implies #[trigger] post.files@[k] == (
    if k < i {
        pre.files@[k]
    } else {
        pre.files@[k + 1]
    }) by {
        assert(post.files@[k] == pre.files@.remove(i)[k]);
    }
    assert(pre.is_file(p));
    assert forall|q: Seq<Seq<char>>| q != p implies #[trigger] post.is_file(q) == pre.is_file(
        q,
    ) by {
        if post.is_file(q) {
            let k = choose|k: int|
                0 <= k < post.files@.len() && #[trigger] post.files@[k].0@ == q;
            if k < i {
                assert(pre.files@[k].0@ == q);
            } else {
                assert(pre.files@[k + 1].0@ == q);
            }
        }
        if pre.is_file(q) {
            let j = choose|j: int| 0 <= j < pre.files@.len() && #[trigger] pre.files@[j].0@ == q;
            assert(j != i);
            if j < i {
                assert(post.files@[j].0@ == q);
            } else {
                assert(post.files@[j - 1].0@ == q);
            }
        }
    }
    assert(!post.is_file(p)) by {
        if post.is_file(p) {
            let k = choose|k: int|
                0 <= k < post.files@.len() && #[trigger] post.files@[k].0@ == p;
            if k < i {
                assert(pre.files@[k].0@ == p);
                assert(pre.files@[k].0@ != pre.files@[i].0@);
            } else {
                assert(pre.files@[k + 1].0@ == p);
                assert(pre.files@[i].0@ != pre.files@[k + 1].0@);
            }
        }
    }
    assert(!post.is_dir(p)) by {
        assert(post.dirs@ == pre.dirs@);
        if post.is_dir(p) {
            assert(p.len() > 0);
            let k = choose|k: int| 0 <= k < pre.dirs@.len() && #[trigger] pre.dirs@[k]@ == p;
            assert(pre.dirs@[k]@ != pre.files@[i].0@);
        }
    }
    assert forall|q: Seq<Seq<char>>| #[trigger] post.is_dir(q) == pre.is_dir(q) by {
        assert(post.dirs@ == pre.dirs@);
    }
    assert forall|k1: int, k2: int|
        0 <= k1 < k2 < post.files@.len() implies #[trigger] post.files@[k1].0@ != #[trigger] post
        .files@[k2].0@ by {
        let j1: int = if k1 < i {
            k1
        } else {
            k1 + 1
        };
        let j2: int = if k2 < i {
            k2
        } else {
            k2 + 1
        };
        assert(post.files@[k1] == pre.files@[j1]);
        assert(post.files@[k2] == pre.files@[j2]);
    }
    assert forall|q: Seq<Seq<char>>| q != p && pre.is_file(q) implies #[trigger] post.file_content(
        q,
    ) == pre.file_content(q) by {
        let j = choose|j: int| 0 <= j < pre.files@.len() && #[trigger] pre.files@[j].0@ == q;
        assert(j != i);
        let jj: int = if j < i {
            j
        } else {
            j - 1
        };
        assert(post.files@[jj].0@ == q);
        let kc = choose|kc: int| 0 <= kc < post.files@.len() && #[trigger] post.files@[kc].0@ == q;
        assert(kc == jj);
        let jc = choose|jc: int| 0 <= jc < pre.files@.len() && #[trigger] pre.files@[jc].0@ == q;
        assert(jc == j);
    }
    assert forall|i2: int, j2: int|
        0 <= i2 < post.dirs@.len() && 0 <= j2 < post.files@.len() implies #[trigger] post
        .dirs@[i2]@ != #[trigger] post.files@[j2].0@ by {
        if j2 < i {
            assert(pre.dirs@[i2]@ != pre.files@[j2].0@);
        } else {
            assert(pre.dirs@[i2]@ != pre.files@[j2 + 1].0@);
        }
    }
    assert forall|k: int| 0 <= k < post.files@.len() implies (
    #[trigger] post.files@[k].0@).len() > 0 by {}
    assert forall|k: int| 0 <= k < post.dirs@.len() implies post.is_dir(
        parent_of(#[trigger] post.dirs@[k]@),
    ) by {
        assert(pre.is_dir(parent_of(pre.dirs@[k]@)));
    }
    assert forall|k: int| 0 <= k < post.files@.len() implies post.is_dir(
        parent_of(#[trigger] post.files@[k].0@),
    ) by {
        if k < i {
            assert(pre.is_dir(parent_of(pre.files@[k].0@)));
        } else {
            assert(pre.is_dir(parent_of(pre.files@[k + 1].0@)));
        }
    }
}

} // verus!
