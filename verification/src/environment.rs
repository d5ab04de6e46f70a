//! The modeled process environment: its variables and the running
//! executable's resolved path.
//!
//! A snapshot of the variables is materialized fresh on each query and
//! reflects the environment exactly at that point; the executable path is
//! either resolved to valid text or reported as unresolvable.

use vstd::prelude::*;

use crate::errors::OpError;

verus! {

/// The process environment: variables and the executable's path, when the
/// latter is resolvable to valid text.
pub struct ProcessEnv {
    /// Each variable with its value; names are unique.
    pub vars: Vec<(String, String)>,
    /// The running executable's path, or `None` when it cannot be resolved
    /// or is not representable as text.
    pub exe: Option<String>,
}

impl ProcessEnv {
    /// Whether a variable of this name is set.
    pub open spec fn has_var(self, name: Seq<char>) -> bool {
        exists|i: int| 0 <= i < self.vars@.len() && (#[trigger] self.vars@[i]).0@ == name
    }

    /// The value of the variable (meaningful only when `has_var(name)`).
    pub open spec fn var_value(self, name: Seq<char>) -> Seq<char> {
        let i = choose|i: int|
            0 <= i < self.vars@.len() && (#[trigger] self.vars@[i]).0@ == name;
        self.vars@[i].1@
    }

    /// The executable path as a character sequence, when resolvable.
    pub open spec fn exe_view(self) -> Option<Seq<char>> {
        match self.exe {
            Some(s) => Some(s@),
            None => None,
        }
    }

    /// Well-formedness: each variable name occurs once.
    pub open spec fn wf(self) -> bool {
        forall|i: int, j: int|
            0 <= i < j < self.vars@.len() ==> (#[trigger] self.vars@[i]).0@
                != (#[trigger] self.vars@[j]).0@
    }

    /// `snap` lists exactly the set variables with their values, each name
    /// once.
    pub open spec fn valid_snapshot(self, snap: Seq<(Seq<char>, Seq<char>)>) -> bool {
        &&& forall|k1: int, k2: int|
            0 <= k1 < k2 < snap.len() ==> (#[trigger] snap[k1]).0 != (#[trigger] snap[k2]).0
        &&& forall|k: int|
            0 <= k < snap.len() ==> self.has_var((#[trigger] snap[k]).0) && self.var_value(
                snap[k].0,
            ) == snap[k].1
        &&& forall|n: Seq<char>|
            #[trigger] self.has_var(n) ==> exists|k: int|
                0 <= k < snap.len() && (#[trigger] snap[k]).0 == n
    }

    /// A fresh environment with no variables and no resolved executable.
    pub fn new() -> (r: ProcessEnv)
        ensures
            r.wf(),
            forall|n: Seq<char>| !(#[trigger] r.has_var(n)),
            r.exe_view() is None,
    {
        ProcessEnv { vars: Vec::new(), exe: None }
    }

    /// Records the executable path as the host resolved it: `None` when the
    /// resolution failed or the path was not valid text.
    pub fn set_exe(&mut self, exe: Option<String>)
        ensures
            final(self).vars == old(self).vars,
            match exe {
                Some(s) => final(self).exe_view() == Some(s@),
                None => final(self).exe_view() is None,
            },
    {
        self.exe = exe;
    }

    /// Index of the variable of this name, if set.
    fn find_var_index(&self, name: &String) -> (r: Option<usize>)
        ensures
            match r {
                Some(i) => i < self.vars@.len() && self.vars@[i as int].0@ == name@,
                None => forall|i: int|
                    0 <= i < self.vars@.len() ==> (#[trigger] self.vars@[i]).0@ != name@,
            },
    {
        let mut i: usize = 0;
        while i < self.vars.len()
            invariant
                i <= self.vars@.len(),
                forall|k: int| 0 <= k < i ==> (#[trigger] self.vars@[k]).0@ != name@,
            decreases self.vars@.len() - i,
        {
            if self.vars[i].0 == *name {
                return Some(i);
            }
            i = i + 1;
        }
        None
    }

    /// Sets (or overwrites) the variable `name` to `value`.
    pub fn set_var(&mut self, name: &String, value: &String)
        requires
            old(self).wf(),
        ensures
            final(self).wf(),
            var_set(*old(self), *final(self), name@, value@),
    {
        let entry = (name.clone(), value.clone());
        let ghost pre = *self;
        match self.find_var_index(name) {
            Some(i) => {
                let _ = self.vars.remove(i);
                self.vars.push(entry);
                proof {
                    pre.vars@.remove_ensures(i as int);
                    assert forall|k: int| 0 <= k < pre.vars@.remove(i as int).len()
                        implies (#[trigger] pre.vars@.remove(i as int)[k]).0@ != name@ by {
                        if k < i {
                            assert(pre.vars@.remove(i as int)[k] == pre.vars@[k]);
                        } else {
                            assert(pre.vars@.remove(i as int)[k] == pre.vars@[k + 1]);
                        }
                    }
                    assert forall|k: int| 0 <= k < pre.vars@.remove(i as int).len()
                        implies pre.vars@.contains(
                        #[trigger] pre.vars@.remove(i as int)[k],
                    ) by {
                        if k < i {
                            assert(pre.vars@[k] == pre.vars@.remove(i as int)[k]);
                        } else {
                            assert(pre.vars@[k + 1] == pre.vars@.remove(i as int)[k]);
                        }
                    }
                    assert forall|j: int|
                        0 <= j < pre.vars@.len() && (#[trigger] pre.vars@[j]).0@ != name@
                        implies pre.vars@.remove(i as int).contains(pre.vars@[j]) by {
                        if j < i {
                            assert(pre.vars@.remove(i as int)[j] == pre.vars@[j]);
                        } else {
                            assert(j != i);
                            assert(pre.vars@.remove(i as int)[j - 1] == pre.vars@[j]);
                        }
                    }
                    assert forall|k1: int, k2: int|
                        0 <= k1 < k2 < pre.vars@.remove(i as int).len()
                        implies (#[trigger] pre.vars@.remove(i as int)[k1]).0@
                        != (#[trigger] pre.vars@.remove(i as int)[k2]).0@ by {
                        let j1: int = if k1 < i {
                            k1
                        } else {
                            k1 + 1
                        };
                        let j2: int = if k2 < i {
                            k2
                        } else {
                            k2 + 1
                        };
                        assert(pre.vars@.remove(i as int)[k1] == pre.vars@[j1]);
                        assert(pre.vars@.remove(i as int)[k2] == pre.vars@[j2]);
                    }
                    lemma_var_inserted(pre, *self, pre.vars@.remove(i as int), name@, value@);
                }
            },
            None => {
                self.vars.push(entry);
                proof {
                    assert forall|k: int| 0 <= k < pre.vars@.len() implies pre.vars@.contains(
                        #[trigger] pre.vars@[k],
                    ) by {
                        assert(pre.vars@[k] == pre.vars@[k]);
                    }
                    lemma_var_inserted(pre, *self, pre.vars@, name@, value@);
                }
            },
        }
    }

    /// Unsets the variable `name`; unsetting an absent name changes nothing.
    pub fn unset_var(&mut self, name: &String)
        requires
            old(self).wf(),
        ensures
            final(self).wf(),
            var_unset(*old(self), *final(self), name@),
    {
        let ghost pre = *self;
        match self.find_var_index(name) {
            Some(i) => {
                let _ = self.vars.remove(i);
                proof {
                    pre.vars@.remove_ensures(i as int);
                    assert forall|m: Seq<char>| m != name@ implies #[trigger] self.has_var(m)
                        == pre.has_var(m) by {
                        if self.has_var(m) {
                            let k = choose|k: int|
                                0 <= k < self.vars@.len() && (#[trigger] self.vars@[k]).0@ == m;
                            if k < i {
                                assert(pre.vars@[k].0@ == m);
                            } else {
                                assert(pre.vars@[k + 1].0@ == m);
                            }
                        }
                        if pre.has_var(m) {
                            let j = choose|j: int|
                                0 <= j < pre.vars@.len() && (#[trigger] pre.vars@[j]).0@ == m;
                            assert(j != i);
                            if j < i {
                                assert(self.vars@[j].0@ == m);
                            } else {
                                assert(self.vars@[j - 1].0@ == m);
                            }
                        }
                    }
                    assert(!self.has_var(name@)) by {
                        if self.has_var(name@) {
                            let k = choose|k: int|
                                0 <= k < self.vars@.len() && (#[trigger] self.vars@[k]).0@
                                    == name@;
                            if k < i {
                                assert(pre.vars@[k].0@ == pre.vars@[i as int].0@);
                            } else {
                                assert(pre.vars@[i as int].0@ == pre.vars@[k + 1].0@);
                            }
                        }
                    }
                    assert forall|k1: int, k2: int|
                        0 <= k1 < k2 < self.vars@.len() implies (#[trigger] self.vars@[k1]).0@
                        != (#[trigger] self.vars@[k2]).0@ by {
                        let j1: int = if k1 < i {
                            k1
                        } else {
                            k1 + 1
                        };
                        let j2: int = if k2 < i {
                            k2
                        } else {
                            k2 + 1
                        };
                        assert(self.vars@[k1] == pre.vars@[j1]);
                        assert(self.vars@[k2] == pre.vars@[j2]);
                    }
                    assert forall|m: Seq<char>| m != name@ && pre.has_var(m)
                        implies #[trigger] self.var_value(m) == pre.var_value(m) by {
                        let j = choose|j: int|
                            0 <= j < pre.vars@.len() && (#[trigger] pre.vars@[j]).0@ == m;
                        assert(j != i);
                        let jj: int = if j < i {
                            j
                        } else {
                            j - 1
                        };
                        assert(self.vars@[jj].0@ == m);
                        let kc = choose|kc: int|
                            0 <= kc < self.vars@.len() && (#[trigger] self.vars@[kc]).0@ == m;
                        assert(kc == jj);
                        let jc = choose|jc: int|
                            0 <= jc < pre.vars@.len() && (#[trigger] pre.vars@[jc]).0@ == m;
                        assert(jc == j);
                    }
                }
            },
            None => {
                proof {
                    assert(!self.has_var(name@));
                }
            },
        }
    }

    /// A fresh copy of every variable with its value, as of this call.
    pub fn vars_snapshot(&self) -> (r: Vec<(String, String)>)
        requires
            self.wf(),
        ensures
            self.valid_snapshot(pairs_view(r@)),
            r@.len() == self.vars@.len(),
    {
        let mut r: Vec<(String, String)> = Vec::new();
        let mut i: usize = 0;
        while i < self.vars.len()
            invariant
                i <= self.vars@.len(),
                r@.len() == i as int,
                forall|k: int|
                    0 <= k < i ==> (#[trigger] r@[k]).0@ == self.vars@[k].0@ && r@[k].1@
                        == self.vars@[k].1@,
            decreases self.vars@.len() - i,
        {
            let pair = (self.vars[i].0.clone(), self.vars[i].1.clone());
            r.push(pair);
            i = i + 1;
        }
        proof {
            let snap = pairs_view(r@);
            assert forall|k1: int, k2: int| 0 <= k1 < k2 < snap.len() implies (
            #[trigger] snap[k1]).0 != (#[trigger] snap[k2]).0 by {
                assert(snap[k1].0 == self.vars@[k1].0@);
                assert(snap[k2].0 == self.vars@[k2].0@);
            }
            assert forall|k: int| 0 <= k < snap.len() implies self.has_var((#[trigger] snap[k]).0)
                && self.var_value(snap[k].0) == snap[k].1 by {
                assert((self.vars@[k]).0@ == snap[k].0);
                let jc = choose|jc: int|
                    0 <= jc < self.vars@.len() && (#[trigger] self.vars@[jc]).0@ == snap[k].0;
                assert(jc == k);
            }
            assert forall|n: Seq<char>| #[trigger] self.has_var(n) implies exists|k: int|
                0 <= k < snap.len() && (#[trigger] snap[k]).0 == n by {
                let j = choose|j: int|
                    0 <= j < self.vars@.len() && (#[trigger] self.vars@[j]).0@ == n;
                assert((snap[j]).0 == n);
            }
        }
        r
    }

    /// The running executable's path, or why it is not available.
    pub fn current_exe(&self) -> (r: Result<String, OpError>)
        ensures
            match r {
                Ok(s) => self.exe_view() == Some(s@),
                Err(e) => self.exe_view() is None && e == OpError::Unresolvable,
            },
    {
        match &self.exe {
            Some(s) => Ok(s.clone()),
            None => Err(OpError::Unresolvable),
        }
    }
}

/// The view of a list of name/value pairs.
pub open spec fn pairs_view(s: Seq<(String, String)>) -> Seq<(Seq<char>, Seq<char>)> {
    s.map_values(|t: (String, String)| (t.0@, t.1@))
}

/// How setting a variable relates the new environment to the old: the
/// variable holds exactly `value`, and nothing else changed.
pub open spec fn var_set(
    pre: ProcessEnv,
    post: ProcessEnv,
    name: Seq<char>,
    value: Seq<char>,
) -> bool {
    &&& post.has_var(name)
    &&& post.var_value(name) == value
    &&& forall|m: Seq<char>| m != name ==> #[trigger] post.has_var(m) == pre.has_var(m)
    &&& forall|m: Seq<char>|
        m != name && pre.has_var(m) ==> #[trigger] post.var_value(m) == pre.var_value(m)
    &&& post.exe_view() == pre.exe_view()
}

/// How unsetting a variable relates the new environment to the old: the
/// variable is gone, and nothing else changed.
pub open spec fn var_unset(pre: ProcessEnv, post: ProcessEnv, name: Seq<char>) -> bool {
    &&& !post.has_var(name)
    &&& forall|m: Seq<char>| m != name ==> #[trigger] post.has_var(m) == pre.has_var(m)
    &&& forall|m: Seq<char>|
        m != name && pre.has_var(m) ==> #[trigger] post.var_value(m) == pre.var_value(m)
    &&& post.exe_view() == pre.exe_view()
}

/// Frame proof shared by the set paths: `post.vars` is `mid` (the old
/// variables with any entry named `name` removed) plus the new entry.
#[verifier::rlimit(100)]
proof fn lemma_var_inserted(
    pre: ProcessEnv,
    post: ProcessEnv,
    mid: Seq<(String, String)>,
    name: Seq<char>,
    value: Seq<char>,
)
    requires
        pre.wf(),
        forall|k: int| 0 <= k < mid.len() ==> (#[trigger] mid[k]).0@ != name,
        forall|k: int| 0 <= k < mid.len() ==> pre.vars@.contains(#[trigger] mid[k]),
        forall|j: int|
            0 <= j < pre.vars@.len() && (#[trigger] pre.vars@[j]).0@ != name ==> mid.contains(
                pre.vars@[j],
            ),
        forall|k1: int, k2: int|
            0 <= k1 < k2 < mid.len() ==> (#[trigger] mid[k1]).0@ != (#[trigger] mid[k2]).0@,
        post.vars@.len() == mid.len() + 1,
        forall|k: int| 0 <= k < mid.len() ==> #[trigger] post.vars@[k] == mid[k],
        post.vars@[mid.len() as int].0@ == name,
        post.vars@[mid.len() as int].1@ == value,
        post.exe == pre.exe,
    ensures
        post.wf(),
        var_set(pre, post, name, value),
{
    let n = mid.len() as int;
    assert(post.has_var(name));
    assert forall|m: Seq<char>| m != name implies #[trigger] post.has_var(m) == pre.has_var(
        m,
    ) by {
        if post.has_var(m) {
            let k = choose|k: int|
                0 <= k < post.vars@.len() && (#[trigger] post.vars@[k]).0@ == m;
            assert(k < n);
            let j = choose|j: int| 0 <= j < pre.vars@.len() && pre.vars@[j] == mid[k];
            assert(pre.vars@[j].0@ == m);
        }
        if pre.has_var(m) {
            let j = choose|j: int| 0 <= j < pre.vars@.len() && (#[trigger] pre.vars@[j]).0@ == m;
            let k = choose|k: int| 0 <= k < mid.len() && mid[k] == pre.vars@[j];
            assert(post.vars@[k].0@ == m);
        }
    }
    assert forall|k1: int, k2: int|
        0 <= k1 < k2 < post.vars@.len() implies (#[trigger] post.vars@[k1]).0@
        != (#[trigger] post.vars@[k2]).0@ by {
        if k2 < n {
        } else {
            assert(post.vars@[k1].0@ != name);
        }
    }
    assert(post.var_value(name) == value) by {
        let i = choose|i: int| 0 <= i < post.vars@.len() && (#[trigger] post.vars@[i]).0@ == name;
        assert(i == n);
    }
    assert forall|m: Seq<char>| m != name && pre.has_var(m) implies #[trigger] post.var_value(m)
        == pre.var_value(m) by {
        let j = choose|j: int| 0 <= j < pre.vars@.len() && (#[trigger] pre.vars@[j]).0@ == m;
        let k = choose|k: int| 0 <= k < mid.len() && mid[k] == pre.vars@[j];
        assert(post.vars@[k].0@ == m);
        let kc = choose|kc: int| 0 <= kc < post.vars@.len() && (#[trigger] post.vars@[kc]).0@ == m;
        assert(kc == k);
        let jc = choose|jc: int| 0 <= jc < pre.vars@.len() && (#[trigger] pre.vars@[jc]).0@ == m;
        assert(jc == j);
        assert(post.vars@[k].1@ == pre.vars@[j].1@);
    }
}

} // verus!
