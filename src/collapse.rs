//! Collapse state of a comment thread: the set of comment ids whose replies
//! are hidden, read once when the thread is shown, changed by toggling, and
//! handed back in full for best-effort persistence.
use vstd::prelude::*;

verus! {

/// The persisted collapse record of one thread: the post it belongs to and
/// the ids of its collapsed comments.
#[derive(Debug)]
pub struct CommentRquest {
    pub post_id: i32,
    pub comment_id: Vec<i32>,
}

/// The set `s` after toggling `id`: removed if present, added otherwise.
pub open spec fn toggled(s: Set<i32>, id: i32) -> Set<i32> {
    if s.contains(id) {
        s.remove(id)
    } else {
        s.insert(id)
    }
}

/// Toggling the same comment twice leaves the collapse set as it was.
pub proof fn lemma_toggle_twice(s: Set<i32>, id: i32)
    ensures
        toggled(toggled(s, id), id) == s,
{
    assert(toggled(toggled(s, id), id) =~= s);
}

/// The collapsed comments of one thread.
#[derive(Debug)]
pub struct CollapseStore {
    pub thread_id: i32,
    pub hidden: Vec<i32>,
}

impl CollapseStore {
    /// The ids of the collapsed comments.
    pub open spec fn collapsed(&self) -> Set<i32> {
        self.hidden@.to_set()
    }

    /// The store of thread `thread_id`, from its persisted record if there
    /// is one; empty otherwise.
    pub fn load(thread_id: i32, stored: Option<CommentRquest>) -> (r: CollapseStore)
        ensures
            r.thread_id == thread_id,
            r.collapsed() == match stored {
                Some(rec) => rec.comment_id@.to_set(),
                None => Set::<i32>::empty(),
            },
    {
        match stored {
            Some(rec) => CollapseStore { thread_id, hidden: rec.comment_id },
            None => {
                let r = CollapseStore { thread_id, hidden: Vec::new() };
                assert(r.collapsed() =~= Set::<i32>::empty());
                r
            },
        }
    }

    /// Whether the replies of comment `id` are hidden.
    pub fn is_collapsed(&self, id: i32) -> (r: bool)
        ensures
            r == self.collapsed().contains(id),
    {
        let mut i: usize = 0;
        while i < self.hidden.len()
            invariant
                i <= self.hidden.len(),
                forall|j: int| 0 <= j < i ==> self.hidden@[j] != id,
            decreases self.hidden.len() - i,
        {
            if self.hidden[i] == id {
                return true;
            }
            i = i + 1;
        }
        false
    }

    /// Collapses comment `id` if it is expanded, expands it otherwise.
    pub fn toggle(&mut self, id: i32)
        ensures
            final(self).thread_id == old(self).thread_id,
            final(self).collapsed() == toggled(old(self).collapsed(), id),
    {
        if self.is_collapsed(id) {
            let mut kept: Vec<i32> = Vec::new();
            let mut i: usize = 0;
            while i < self.hidden.len()
                invariant
                    i <= self.hidden.len(),
                    forall|x: i32|
                        kept@.contains(x) <==> (x != id && exists|j: int|
                            0 <= j < i && self.hidden@[j] == x),
                decreases self.hidden.len() - i,
            {
                let x = self.hidden[i];
                let ghost k0 = kept@;
                if x != id {
                    kept.push(x);
                }
                proof {
                    assert forall|y: i32|
                        kept@.contains(y) <==> (y != id && exists|j: int|
                            0 <= j < i + 1 && self.hidden@[j] == y) by {
                        if kept@.contains(y) {
                            if k0.contains(y) {
                                assert(y != id && exists|j: int| 0 <= j < i && self.hidden@[j] == y);
                            } else {
                                let t = choose|t: int| 0 <= t < kept@.len() && kept@[t] == y;
                                assert(t == k0.len());
                                assert(self.hidden@[i as int] == y);
                            }
                        }
                        if y != id && exists|j: int| 0 <= j < i + 1 && self.hidden@[j] == y {
                            let j = choose|j: int| 0 <= j < i + 1 && self.hidden@[j] == y;
                            if j < i {
                                assert(k0.contains(y));
                                let t = choose|t: int| 0 <= t < k0.len() && k0[t] == y;
                                assert(kept@[t] == y);
                            } else {
                                assert(kept@[kept@.len() - 1] == y);
                            }
                        }
                    }
                }
                i = i + 1;
            }
            let ghost before = self.collapsed();
            self.hidden = kept;
            proof {
                assert forall|y: i32| self.collapsed().contains(y) == before.remove(id).contains(y) by {
                    if before.contains(y) && y != id {
                        let j = choose|j: int| 0 <= j < old(self).hidden@.len() && old(self).hidden@[j] == y;
                    }
                }
                assert(self.collapsed() =~= before.remove(id));
            }
        } else {
            let ghost before = self.collapsed();
            self.hidden.push(id);
            proof {
                assert forall|y: i32| self.collapsed().contains(y) == before.insert(id).contains(y) by {
                    if y != id && before.contains(y) {
                        let j = choose|j: int| 0 <= j < old(self).hidden@.len() && old(self).hidden@[j] == y;
                        assert(self.hidden@[j] == y);
                    }
                    if y == id {
                        assert(self.hidden@[self.hidden@.len() - 1] == y);
                    }
                }
                assert(self.collapsed() =~= before.insert(id));
            }
        }
    }

    /// The record to persist after a change: the full set, under the
    /// thread's id.
    pub fn record(&self) -> (r: CommentRquest)
        ensures
            r.post_id == self.thread_id,
            r.comment_id@ == self.hidden@,
    {
        CommentRquest { post_id: self.thread_id, comment_id: self.hidden.clone() }
    }
}

} // verus!
