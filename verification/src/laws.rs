//! The library's cross-operation guarantees, proved once and for all from
//! the operations' own contracts.
//!
//! Each proof function's `requires` states no more than that the starting
//! state is well-formed and that the relevant operations succeeded, exactly
//! as their `ensures` describe them; the conclusion then holds for every
//! path, byte sequence and variable the operations accept.

use vstd::prelude::*;

use crate::environment::ProcessEnv;
use crate::environment::var_set;
use crate::environment::var_unset;
use crate::errors::OpError;
use crate::filesystem::FileSystem;
use crate::filesystem::dir_created;
use crate::filesystem::file_copied;
use crate::filesystem::file_removed;
use crate::filesystem::file_written;
use crate::filesystem::tree_removed;
use crate::path::is_child_path;
use crate::path::parent_of;

verus! {

/// After creating a directory, listing its parent names the new directory,
/// and every listed entry appears exactly once.
pub proof fn created_dir_is_listed(
    pre: FileSystem,
    post: FileSystem,
    p: Seq<Seq<char>>,
    entries: Seq<Seq<Seq<char>>>,
)
    requires
        pre.wf(),
        dir_created(pre, post, p),
        post.valid_listing(parent_of(p), entries),
    ensures
        entries.contains(p),
        forall|k1: int, k2: int|
            0 <= k1 < k2 < entries.len() ==> #[trigger] entries[k1] != #[trigger] entries[k2],
{
    assert(post.exists_at(p));
    assert(is_child_path(p, parent_of(p)));
}

/// Writing a file and then reading the same path returns exactly the bytes
/// written — for every byte sequence, the empty one included.
pub proof fn written_file_reads_back(
    pre: FileSystem,
    post: FileSystem,
    p: Seq<Seq<char>>,
    bytes: Seq<u8>,
)
    requires
        pre.wf(),
        file_written(pre, post, p, bytes),
    ensures
        post.read_result(p) == Ok::<Seq<u8>, OpError>(bytes),
{
}

/// A path reports as absent before a directory is created there and as
/// present immediately afterwards.
pub proof fn exists_after_create_dir(pre: FileSystem, post: FileSystem, p: Seq<Seq<char>>)
    requires
        pre.wf(),
        dir_created(pre, post, p),
    ensures
        !pre.exists_at(p),
        post.exists_at(p),
{
}

/// A path reports as present immediately after a file is written there.
pub proof fn exists_after_write_file(
    pre: FileSystem,
    post: FileSystem,
    p: Seq<Seq<char>>,
    bytes: Seq<u8>,
)
    requires
        pre.wf(),
        file_written(pre, post, p, bytes),
    ensures
        post.exists_at(p),
{
}

/// A path reports as present before its file is removed and as absent
/// immediately afterwards.
pub proof fn gone_after_remove_file(pre: FileSystem, post: FileSystem, p: Seq<Seq<char>>)
    requires
        pre.wf(),
        file_removed(pre, post, p),
    ensures
        pre.exists_at(p),
        !post.exists_at(p),
{
}

/// A non-root path reports as absent immediately after its directory tree
/// is removed.
pub proof fn gone_after_remove_dir(pre: FileSystem, post: FileSystem, p: Seq<Seq<char>>)
    requires
        pre.wf(),
        tree_removed(pre, post, p),
        p.len() > 0,
    ensures
        !post.exists_at(p),
{
    assert(p.is_prefix_of(p)) by {
        assert(p =~= p.subrange(0, p.len() as int));
    }
}

/// After copying a file, reading the destination returns exactly the bytes
/// the source held, and the source reads back unchanged.
pub proof fn copied_file_reads_back(
    pre: FileSystem,
    post: FileSystem,
    from: Seq<Seq<char>>,
    to: Seq<Seq<char>>,
)
    requires
        pre.wf(),
        file_copied(pre, post, from, to),
    ensures
        post.read_result(to) == Ok::<Seq<u8>, OpError>(pre.file_content(from)),
        post.read_result(from) == pre.read_result(from),
{
}

/// Removing a directory tree leaves no trace of anything at or below it
/// and touches nothing outside it: every other path's presence and every
/// surviving file's contents are exactly as before.
pub proof fn removed_tree_leaves_no_trace(pre: FileSystem, post: FileSystem, p: Seq<Seq<char>>)
    requires
        pre.wf(),
        tree_removed(pre, post, p),
    ensures
        forall|q: Seq<Seq<char>>|
            p.is_prefix_of(q) && q.len() > 0 ==> !(#[trigger] post.exists_at(q)),
        forall|q: Seq<Seq<char>>|
            !p.is_prefix_of(q) ==> #[trigger] post.exists_at(q) == pre.exists_at(q),
        forall|q: Seq<Seq<char>>|
            !p.is_prefix_of(q) && pre.is_file(q) ==> #[trigger] post.file_content(q)
                == pre.file_content(q),
{
    assert forall|q: Seq<Seq<char>>| p.is_prefix_of(q) && q.len() > 0 implies !(
    #[trigger] post.exists_at(q)) by {
        assert(!post.is_dir(q));
        assert(!post.is_file(q));
    }
    assert forall|q: Seq<Seq<char>>| !p.is_prefix_of(q) implies #[trigger] post.exists_at(q)
        == pre.exists_at(q) by {
        assert(post.is_dir(q) == pre.is_dir(q));
        assert(post.is_file(q) == pre.is_file(q));
    }
    assert forall|q: Seq<Seq<char>>| !p.is_prefix_of(q) && pre.is_file(q)
        implies #[trigger] post.file_content(q) == pre.file_content(q) by {
        assert(post.is_file(q));
    }
}

/// A variables snapshot taken right after setting a variable carries that
/// variable with exactly the value set, and under no other value.
pub proof fn snapshot_after_set(
    pre: ProcessEnv,
    post: ProcessEnv,
    name: Seq<char>,
    value: Seq<char>,
    snap: Seq<(Seq<char>, Seq<char>)>,
)
    requires
        pre.wf(),
        var_set(pre, post, name, value),
        post.valid_snapshot(snap),
    ensures
        snap.contains((name, value)),
        forall|k: int|
            0 <= k < snap.len() && (#[trigger] snap[k]).0 == name ==> snap[k].1 == value,
{
    assert(post.has_var(name));
    let k = choose|k: int| 0 <= k < snap.len() && (#[trigger] snap[k]).0 == name;
    assert(snap[k].1 == post.var_value(name));
    assert(snap[k] == (name, value));
}

/// A variables snapshot taken right after unsetting a variable does not
/// carry that name at all.
pub proof fn snapshot_after_unset(
    pre: ProcessEnv,
    post: ProcessEnv,
    name: Seq<char>,
    snap: Seq<(Seq<char>, Seq<char>)>,
)
    requires
        pre.wf(),
        var_unset(pre, post, name),
        post.valid_snapshot(snap),
    ensures
        forall|k: int| 0 <= k < snap.len() ==> (#[trigger] snap[k]).0 != name,
{
    assert forall|k: int| 0 <= k < snap.len() implies (#[trigger] snap[k]).0 != name by {
        assert(post.has_var(snap[k].0));
    }
}

} // verus!
