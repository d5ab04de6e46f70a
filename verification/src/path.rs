//! Paths as sequences of name components.
//!
//! A path is a list of components below the root of the modeled tree; the
//! empty list is the root itself. The view of a path is the sequence of its
//! components' character sequences, so contracts can speak of prefixes,
//! parents and children directly.

use vstd::prelude::*;

verus! {

/// A filesystem path, as the sequence of its name components.
#[derive(Debug, PartialEq, Eq)]
pub struct FsPath {
    pub segments: Vec<String>,
}

impl View for FsPath {
    type V = Seq<Seq<char>>;

    open spec fn view(&self) -> Seq<Seq<char>> {
        self.segments@.map_values(|s: String| s@)
    }
}

/// The path one level up: everything but the last component.
pub open spec fn parent_of(p: Seq<Seq<char>>) -> Seq<Seq<char>> {
    p.subrange(0, p.len() - 1)
}

/// `q` lies directly inside `p`: one component longer, and `p` up to there.
pub open spec fn is_child_path(q: Seq<Seq<char>>, p: Seq<Seq<char>>) -> bool {
    q.len() == p.len() + 1 && parent_of(q) == p
}

impl FsPath {
    /// The root path, an empty component list.
    pub fn root() -> (r: FsPath)
        ensures
            r@ =~= Seq::<Seq<char>>::empty(),
    {
        FsPath { segments: Vec::new() }
    }

    /// Builds a path from its components.
    pub fn new(segments: Vec<String>) -> (r: FsPath)
        ensures
            r@ == segments@.map_values(|s: String| s@),
    {
        FsPath { segments }
    }

    /// How many components the path has.
    pub fn depth(&self) -> (n: usize)
        ensures
            n == self@.len(),
    {
        self.segments.len()
    }

    /// Extends the path by one more component.
    pub fn push_segment(&mut self, segment: String)
        ensures
            final(self)@ =~= old(self)@.push(segment@),
    {
        self.segments.push(segment);
    }
}

impl Clone for FsPath {
    fn clone(&self) -> (r: Self)
        ensures
            r@ == self@,
    {
        let mut segments: Vec<String> = Vec::new();
        let mut i: usize = 0;
        while i < self.segments.len()
            invariant
                i <= self.segments.len(),
                segments@.len() == i as int,
                forall|k: int| 0 <= k < i ==> segments@[k]@ == self.segments@[k]@,
            decreases self.segments.len() - i,
        {
            segments.push(self.segments[i].clone());
            i = i + 1;
        }
        let r = FsPath { segments };
        proof {
            assert(r@ =~= self@);
        }
        r
    }
}

/// Whether two paths have the same components.
pub fn path_eq(a: &FsPath, b: &FsPath) -> (r: bool)
    ensures
        r == (a@ == b@),
{
    if a.segments.len() != b.segments.len() {
        proof {
            assert(a@.len() != b@.len());
        }
        return false;
    }
    let mut i: usize = 0;
    while i < a.segments.len()
        invariant
            i <= a.segments.len(),
            a.segments.len() == b.segments.len(),
            forall|k: int| 0 <= k < i ==> a@[k] == b@[k],
        decreases a.segments.len() - i,
    {
        if !(a.segments[i] == b.segments[i]) {
            proof {
                assert(a@[i as int] != b@[i as int]);
            }
            return false;
        }
        i = i + 1;
    }
    proof {
        assert(a@ =~= b@);
    }
    true
}

/// Whether the components of `p` are an initial segment of those of `q`.
pub fn path_is_prefix(p: &FsPath, q: &FsPath) -> (r: bool)
    ensures
        r == p@.is_prefix_of(q@),
{
    if p.segments.len() > q.segments.len() {
        return false;
    }
    let mut i: usize = 0;
    while i < p.segments.len()
        invariant
            i <= p.segments.len(),
            p.segments.len() <= q.segments.len(),
            forall|k: int| 0 <= k < i ==> p@[k] == q@[k],
        decreases p.segments.len() - i,
    {
        if !(p.segments[i] == q.segments[i]) {
            proof {
                assert(p@[i as int] != q@[i as int]);
                assert(!(p@ =~= q@.subrange(0, p@.len() as int)));
            }
            return false;
        }
        i = i + 1;
    }
    proof {
        assert(p@ =~= q@.subrange(0, p@.len() as int));
    }
    true
}

/// Whether `q` lies directly inside `p`.
pub fn path_is_child_of(q: &FsPath, p: &FsPath) -> (r: bool)
    ensures
        r == is_child_path(q@, p@),
{
    if q.segments.len() == 0 || q.segments.len() - 1 != p.segments.len() {
        return false;
    }
    let r = path_is_prefix(p, q);
    proof {
        if p@.is_prefix_of(q@) {
            assert(parent_of(q@) =~= p@);
        } else {
            if parent_of(q@) == p@ {
                assert(p@ =~= q@.subrange(0, p@.len() as int));
            }
        }
    }
    r
}

/// The path one level up from `p`.
pub fn parent_path(p: &FsPath) -> (r: FsPath)
    requires
        p@.len() > 0,
    ensures
        r@ == parent_of(p@),
{
    let mut segments: Vec<String> = Vec::new();
    let end = p.segments.len() - 1;
    let mut i: usize = 0;
    while i < end
        invariant
            i <= end,
            end < p.segments.len(),
            segments@.len() == i as int,
            forall|k: int| 0 <= k < i ==> segments@[k]@ == p.segments@[k]@,
        decreases end - i,
    {
        segments.push(p.segments[i].clone());
        i = i + 1;
    }
    let r = FsPath { segments };
    proof {
        assert(r@ =~= parent_of(p@));
    }
    r
}

/// A prefix of a path's parent is a prefix of the path itself.
pub proof fn lemma_prefix_of_parent(p: Seq<Seq<char>>, q: Seq<Seq<char>>)
    requires
        q.len() > 0,
        p.is_prefix_of(parent_of(q)),
    ensures
        p.is_prefix_of(q),
{
    assert(p =~= q.subrange(0, p.len() as int));
}

} // verus!
