use vstd::prelude::*;
use crate::errors::StorageError;

verus! {

/// The credential vault: opaque blobs keyed by account name, with at
/// most one entry per name. It models the host's secret store, whose
/// contents live outside the process; the embedding mirrors every
/// mutation into the real store. `available` models the host store
/// being reachable — when it is false every operation surfaces
/// `StorageIo`, the way an absent secret-service daemon would.
#[derive(Debug)]
pub struct Vault {
    pub entries: Vec<(String, String)>,
    pub available: bool,
}

impl Vault {
    pub open spec fn contains_name(&self, name: Seq<char>) -> bool {
        exists|i: int| 0 <= i < self.entries@.len() && self.entries@[i].0@ == name
    }

    /// The credential stored under `name`, if any.
    pub open spec fn spec_get(&self, name: Seq<char>) -> Option<Seq<char>> {
        if self.contains_name(name) {
            let i = choose|i: int| 0 <= i < self.entries@.len() && self.entries@[i].0@ == name;
            Some(self.entries@[i].1@)
        } else {
            None
        }
    }

    pub open spec fn is_available(&self) -> bool {
        self.available
    }

    /// Each name keys at most one entry.
    pub open spec fn wf(&self) -> bool {
        forall|i: int, j: int|
            0 <= i < j < self.entries@.len() ==> self.entries@[i].0@ != self.entries@[j].0@
    }

    pub fn new() -> (v: Vault)
        ensures
            v.wf(),
            v.is_available(),
            v.entries@.len() == 0,
            forall|n: Seq<char>| !v.contains_name(n),
    {
        Vault { entries: Vec::new(), available: true }
    }

    /// Simulate the host secret store becoming unreachable (or
    /// reachable again); every operation fails while it is down.
    pub fn set_available(&mut self, available: bool)
        ensures
            final(self).entries == old(self).entries,
            final(self).is_available() == available,
    {
        self.available = available;
    }

    fn position_of(&self, name: &String) -> (r: Option<usize>)
        ensures
            match r {
                Some(i) => i < self.entries@.len() && self.entries@[i as int].0@ == name@,
                None => !self.contains_name(name@),
            },
    {
        let mut i: usize = 0;
        let n = self.entries.len();
        while i < n
            invariant
                i <= n,
                n == self.entries@.len(),
                forall|j: int| 0 <= j < i ==> self.entries@[j].0@ != name@,
            decreases n - i,
        {
            if self.entries[i].0 == *name {
                return Some(i);
            }
            i = i + 1;
        }
        None
    }

    /// Store `blob` under `name`, replacing any previous credential.
    pub fn store(&mut self, name: &String, blob: String) -> (r: Result<(), StorageError>)
        requires
            old(self).wf(),
        ensures
            final(self).wf(),
            final(self).is_available() == old(self).is_available(),
            r is Ok <==> old(self).is_available(),
            r is Err ==> r == Err::<(), StorageError>(StorageError::StorageIo) && *final(self)
                == *old(self),
            r is Ok ==> final(self).spec_get(name@) == Some(blob@) && forall|n: Seq<char>|
                n != name@ ==> final(self).spec_get(n) == old(self).spec_get(n),
    {
        if !self.available {
            return Err(StorageError::StorageIo);
        }
        let ghost pre = *self;
        match self.position_of(name) {
            Some(i) => {
                let name_copy = self.entries[i].0.clone();
                self.entries.set(i, (name_copy, blob));
                proof {
                    lemma_unique_get(pre, *self, i as int, name@);
                }
            },
            None => {
                self.entries.push((name.clone(), blob));
                proof {
                    lemma_push_get(pre, *self, name@);
                }
            },
        }
        Ok(())
    }

    /// Retrieve the credential stored under `name`.
    pub fn get(&self, name: &String) -> (r: Result<String, StorageError>)
        requires
            self.wf(),
        ensures
            match r {
                Ok(blob) => self.is_available() && self.spec_get(name@) == Some(blob@),
                Err(e) => if !self.is_available() {
                    e == StorageError::StorageIo
                } else {
                    e == StorageError::NotFound && self.spec_get(name@) is None
                },
            },
    {
        if !self.available {
            return Err(StorageError::StorageIo);
        }
        match self.position_of(name) {
            Some(i) => {
                let blob = self.entries[i].1.clone();
                proof {
                    lemma_get_at(*self, i as int, name@);
                }
                Ok(blob)
            },
            None => Err(StorageError::NotFound),
        }
    }

    /// Delete the credential stored under `name`. Deleting a missing
    /// entry succeeds; only an unreachable host store fails.
    pub fn delete(&mut self, name: &String) -> (r: Result<(), StorageError>)
        requires
            old(self).wf(),
        ensures
            final(self).wf(),
            final(self).is_available() == old(self).is_available(),
            r is Ok <==> old(self).is_available(),
            r is Err ==> r == Err::<(), StorageError>(StorageError::StorageIo) && *final(self)
                == *old(self),
            r is Ok ==> final(self).spec_get(name@) is None && forall|n: Seq<char>|
                n != name@ ==> final(self).spec_get(n) == old(self).spec_get(n),
    {
        if !self.available {
            return Err(StorageError::StorageIo);
        }
        let ghost pre = *self;
        match self.position_of(name) {
            Some(i) => {
                self.entries.remove(i);
                proof {
                    lemma_remove_get(pre, *self, i as int, name@);
                }
            },
            None => {
                proof {
                    lemma_absent_get(*self, name@);
                }
            },
        }
        Ok(())
    }
}

proof fn lemma_get_at(v: Vault, i: int, name: Seq<char>)
    requires
        v.wf(),
        0 <= i < v.entries@.len(),
        v.entries@[i].0@ == name,
    ensures
        v.spec_get(name) == Some(v.entries@[i].1@),
{
    assert(v.contains_name(name));
    let j = choose|j: int| 0 <= j < v.entries@.len() && v.entries@[j].0@ == name;
    assert(j == i);
}

proof fn lemma_absent_get(v: Vault, name: Seq<char>)
    requires
        !v.contains_name(name),
    ensures
        v.spec_get(name) is None,
{
}

proof fn lemma_unique_get(pre: Vault, post: Vault, i: int, name: Seq<char>)
    requires
        pre.wf(),
        0 <= i < pre.entries@.len(),
        pre.entries@[i].0@ == name,
        post.entries@.len() == pre.entries@.len(),
        post.entries@[i].0@ == name,
        forall|j: int| 0 <= j < pre.entries@.len() && j != i ==> post.entries@[j] == pre.entries@[j],
    ensures
        post.wf(),
        post.spec_get(name) == Some(post.entries@[i].1@),
        forall|n: Seq<char>| n != name ==> post.spec_get(n) == pre.spec_get(n),
{
    assert forall|a: int, b: int|
        0 <= a < b < post.entries@.len() implies post.entries@[a].0@ != post.entries@[b].0@ by {
        assert(pre.entries@[a].0@ != pre.entries@[b].0@);
    }
    lemma_get_at(post, i, name);
    assert forall|n: Seq<char>| n != name implies post.spec_get(n) == pre.spec_get(n) by {
        if pre.contains_name(n) {
            let j = choose|j: int| 0 <= j < pre.entries@.len() && pre.entries@[j].0@ == n;
            assert(j != i);
            assert(post.entries@[j].0@ == n);
            lemma_get_at(pre, j, n);
            lemma_get_at(post, j, n);
        } else {
            assert(!post.contains_name(n)) by {
                if post.contains_name(n) {
                    let j = choose|j: int|
                        0 <= j < post.entries@.len() && post.entries@[j].0@ == n;
                    assert(pre.entries@[j].0@ == n);
                }
            }
        }
    }
}

proof fn lemma_push_get(pre: Vault, post: Vault, name: Seq<char>)
    requires
        pre.wf(),
        !pre.contains_name(name),
        post.entries@.len() == pre.entries@.len() + 1,
        post.entries@[post.entries@.len() - 1].0@ == name,
        forall|j: int| 0 <= j < pre.entries@.len() ==> post.entries@[j] == pre.entries@[j],
    ensures
        post.wf(),
        post.spec_get(name) == Some(post.entries@[post.entries@.len() - 1].1@),
        forall|n: Seq<char>| n != name ==> post.spec_get(n) == pre.spec_get(n),
{
    let last = post.entries@.len() - 1;
    assert forall|a: int, b: int|
        0 <= a < b < post.entries@.len() implies post.entries@[a].0@ != post.entries@[b].0@ by {
        if b < last {
            assert(pre.entries@[a].0@ != pre.entries@[b].0@);
        } else {
            assert(pre.entries@[a].0@ != name);
        }
    }
    lemma_get_at(post, last, name);
    assert forall|n: Seq<char>| n != name implies post.spec_get(n) == pre.spec_get(n) by {
        if pre.contains_name(n) {
            let j = choose|j: int| 0 <= j < pre.entries@.len() && pre.entries@[j].0@ == n;
            lemma_get_at(pre, j, n);
            lemma_get_at(post, j, n);
        } else {
            assert(!post.contains_name(n)) by {
                if post.contains_name(n) {
                    let j = choose|j: int|
                        0 <= j < post.entries@.len() && post.entries@[j].0@ == n;
                    assert(j != last);
                    assert(pre.entries@[j].0@ == n);
                }
            }
        }
    }
}

proof fn lemma_remove_get(pre: Vault, post: Vault, i: int, name: Seq<char>)
    requires
        pre.wf(),
        0 <= i < pre.entries@.len(),
        pre.entries@[i].0@ == name,
        post.entries@ == pre.entries@.remove(i),
    ensures
        post.wf(),
        post.spec_get(name) is None,
        forall|n: Seq<char>| n != name ==> post.spec_get(n) == pre.spec_get(n),
{
    assert forall|a: int, b: int|
        0 <= a < b < post.entries@.len() implies post.entries@[a].0@ != post.entries@[b].0@ by {
        let a0 = if a < i {
            a
        } else {
            a + 1
        };
        let b0 = if b < i {
            b
        } else {
            b + 1
        };
        assert(post.entries@[a] == pre.entries@[a0]);
        assert(post.entries@[b] == pre.entries@[b0]);
        assert(pre.entries@[a0].0@ != pre.entries@[b0].0@);
    }
    assert(!post.contains_name(name)) by {
        if post.contains_name(name) {
            let j = choose|j: int| 0 <= j < post.entries@.len() && post.entries@[j].0@ == name;
            let j0 = if j < i {
                j
            } else {
                j + 1
            };
            assert(pre.entries@[j0].0@ == name);
            assert(j0 != i ==> pre.entries@[j0].0@ != pre.entries@[i].0@);
        }
    }
    assert forall|n: Seq<char>| n != name implies post.spec_get(n) == pre.spec_get(n) by {
        if pre.contains_name(n) {
            let j = choose|j: int| 0 <= j < pre.entries@.len() && pre.entries@[j].0@ == n;
            assert(j != i);
            let j1 = if j < i {
                j
            } else {
                j - 1
            };
            assert(post.entries@[j1] == pre.entries@[j]);
            lemma_get_at(pre, j, n);
            lemma_get_at(post, j1, n);
        } else {
            assert(!post.contains_name(n)) by {
                if post.contains_name(n) {
                    let j = choose|j: int| 0 <= j < post.entries@.len() && post.entries@[j].0@ == n;
                    let j0 = if j < i {
                        j
                    } else {
                        j + 1
                    };
                    assert(pre.entries@[j0].0@ == n);
                }
            }
        }
    }
}

} // verus!
