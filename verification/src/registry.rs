//! The task-id to logging-channel registry. Entries are inserted by the
//! request that creates a task and removed - at most once - by the request
//! that opens the result stream: a second removal under the same id finds
//! nothing. The registry enforces these semantics in its own interface
//! instead of leaving them to convention; the handles it stores are opaque
//! to it.

use vstd::prelude::*;
use crate::assoc::{
    assoc_get, lemma_assoc_get_found, lemma_assoc_get_absent, lemma_assoc_get_push,
    lemma_assoc_get_remove,
};
use crate::text::str_eq;

verus! {

/// A mapping from task ids to handles, with at most one entry per id.
pub struct Registry<T> {
    entries: Vec<(String, T)>,
}

impl<T> Registry<T> {
    /// The model: the entries, keyed by their id's characters.
    pub closed spec fn view(&self) -> Seq<(Seq<char>, T)> {
        Seq::new(self.entries@.len(), |i: int| (self.entries@[i].0@, self.entries@[i].1))
    }

    /// At most one entry per id.
    pub closed spec fn wf(&self) -> bool {
        forall|i: int, j: int|
            0 <= i < j < self@.len() ==> (#[trigger] self@[i]).0 != (#[trigger] self@[j]).0
    }

    /// An empty registry.
    pub fn new() -> (r: Self)
        ensures
            r.wf(),
            r@.len() == 0,
    {
        Registry { entries: Vec::new() }
    }

    /// The index of the entry keyed `id`, if any.
    fn index_of(&self, id: &str) -> (r: Option<usize>)
        ensures
            match r {
                Some(i) => i < self@.len() && self@[i as int].0 == id@ && (forall|j: int|
                    0 <= j < i ==> (#[trigger] self@[j]).0 != id@),
                None => forall|j: int| 0 <= j < self@.len() ==> (#[trigger] self@[j]).0 != id@,
            },
    {
        let n: usize = self.entries.len();
        let mut i: usize = 0;
        while i < n
            invariant
                n == self.entries@.len(),
                n == self@.len(),
                i <= n,
                forall|j: int| 0 <= j < i ==> (#[trigger] self@[j]).0 != id@,
                forall|j: int| 0 <= j < n ==> (#[trigger] self@[j]).0 == self.entries@[j].0@,
            decreases n - i,
        {
            if str_eq(self.entries[i].0.as_str(), id) {
                return Some(i);
            }
            i = i + 1;
        }
        None
    }

    /// Register a handle under an id. An entry already under that id is
    /// replaced; every other entry is untouched.
    pub fn insert(&mut self, id: String, handle: T)
        requires
            old(self).wf(),
        ensures
            final (self).wf(),
            assoc_get(final (self)@, id@) == Some(handle),
            forall|k: Seq<char>|
                k != id@ ==> #[trigger] assoc_get(final (self)@, k) == assoc_get(old(self)@, k),
    {
        let ghost pre = self@;
        match self.index_of(id.as_str()) {
            Some(i) => {
                proof {
                    lemma_assoc_get_remove(pre, i as int, pre[i as int].0);
                }
                self.entries.remove(i);
                proof {
                    assert(self@ =~= pre.remove(i as int));
                    assert forall|k: Seq<char>| true implies #[trigger] assoc_get(self@, k) == (
                    if k == pre[i as int].0 {
                        None::<T>
                    } else {
                        assoc_get(pre, k)
                    }) by {
                        lemma_assoc_get_remove(pre, i as int, k);
                    }
                }
            },
            None => {
                proof {
                    lemma_assoc_get_absent(pre, id@);
                }
            },
        }
        let ghost mid = self@;
        proof {
            lemma_assoc_get_absent(mid, id@);
        }
        self.entries.push((id, handle));
        proof {
            assert(self@ =~= mid.push((id@, handle)));
            assert forall|k: Seq<char>| true implies #[trigger] assoc_get(self@, k) == (if k
                == id@ {
                Some(handle)
            } else {
                assoc_get(mid, k)
            }) by {
                lemma_assoc_get_push(mid, (id@, handle), k);
            }
            assert forall|i: int, j: int|
                0 <= i < j < self@.len() implies (#[trigger] self@[i]).0 != (
            #[trigger] self@[j]).0 by {
                if j < self@.len() - 1 {
                    assert(self@[i] == mid[i] && self@[j] == mid[j]);
                } else {
                    assert(self@[j].0 == id@);
                    assert(self@[i] == mid[i]);
                }
            }
        }
    }

    /// Take the handle registered under an id, at most once: the entry
    /// leaves the registry with this call, and a second call under the same
    /// id finds nothing. Every other entry is untouched.
    pub fn remove(&mut self, id: &str) -> (r: Option<T>)
        requires
            old(self).wf(),
        ensures
            final (self).wf(),
            r == assoc_get(old(self)@, id@),
            assoc_get(final (self)@, id@) is None,
            forall|k: Seq<char>|
                k != id@ ==> #[trigger] assoc_get(final (self)@, k) == assoc_get(old(self)@, k),
    {
        let ghost pre = self@;
        match self.index_of(id) {
            Some(i) => {
                proof {
                    lemma_assoc_get_found(pre, id@, i as int);
                }
                let (_key, handle) = self.entries.remove(i);
                proof {
                    assert(self@ =~= pre.remove(i as int));
                    assert forall|k: Seq<char>| true implies #[trigger] assoc_get(self@, k) == (
                    if k == id@ {
                        None::<T>
                    } else {
                        assoc_get(pre, k)
                    }) by {
                        lemma_assoc_get_remove(pre, i as int, k);
                    }
                }
                Some(handle)
            },
            None => {
                proof {
                    lemma_assoc_get_absent(pre, id@);
                }
                None
            },
        }
    }
}

} // verus!
