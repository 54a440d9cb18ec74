//! Registry of running background jobs, so that the UI can cancel them.
//!
//! A job is registered under a fresh id when it starts, can be flagged as
//! cancelled while it runs, and is forgotten when it completes.
use vstd::prelude::*;

use std::sync::atomic::{AtomicBool, Ordering};
use std::sync::Arc;

use crate::text::eq_str;
use crate::trusted::new_uuid_string;

verus! {

/// A cancellation flag that can be shared (cloned) between threads. What a
/// read returns depends on the other threads, so nothing is stated of it.
#[derive(Clone)]
pub struct CancelToken {
    inner: Arc<AtomicBool>,
}

impl CancelToken {
    /// A flag that is not raised.
    pub fn new() -> Self {
        CancelToken { inner: Arc::new(AtomicBool::new(false)) }
    }

    /// Raises the flag.
    pub fn cancel(&self) {
        self.inner.store(true, Ordering::Relaxed);
    }

    /// Reads the flag.
    pub fn is_cancelled(&self) -> bool {
        self.inner.load(Ordering::Relaxed)
    }
}

/// The running jobs, each with its cancellation flag.
pub struct JobRegistry {
    running: Vec<(String, bool)>,
}

/// A job's flag after `start`: registered and not cancelled.
pub open spec fn started(m: Map<Seq<char>, bool>, id: Seq<char>) -> Map<Seq<char>, bool> {
    m.insert(id, false)
}

/// The registry after `cancel`: a registered job is flagged, others are
/// untouched.
pub open spec fn cancelled(m: Map<Seq<char>, bool>, id: Seq<char>) -> Map<Seq<char>, bool> {
    if m.contains_key(id) {
        m.insert(id, true)
    } else {
        m
    }
}

/// Is the job registered and flagged?
pub open spec fn is_flagged(m: Map<Seq<char>, bool>, id: Seq<char>) -> bool {
    m.contains_key(id) && m[id]
}

/// No id occurs twice.
pub open spec fn distinct_ids(s: Seq<(String, bool)>) -> bool {
    forall|i: int, j: int| 0 <= i < j < s.len() ==> (#[trigger] s[i]).0@ != (#[trigger] s[j]).0@
}

/// The map from ids to flags that a list of entries denotes.
pub closed spec fn entries_map(s: Seq<(String, bool)>) -> Map<Seq<char>, bool> {
    Map::new(
        |id: Seq<char>| exists|i: int| 0 <= i < s.len() && (#[trigger] s[i]).0@ == id,
        |id: Seq<char>|
            {
                let i = choose|i: int| 0 <= i < s.len() && (#[trigger] s[i]).0@ == id;
                s[i].1
            },
    )
}

proof fn lemma_entries_at(s: Seq<(String, bool)>, i: int)
    requires
        distinct_ids(s),
        0 <= i < s.len(),
    ensures
        entries_map(s).contains_key(s[i].0@),
        entries_map(s)[s[i].0@] == s[i].1,
        forall|id: Seq<char>| #[trigger] entries_map(s).contains_key(id) <==> exists|k: int|
            0 <= k < s.len() && (#[trigger] s[k]).0@ == id,
{
    let id = s[i].0@;
    assert(s[i].0@ == id);
    let k = choose|k: int| 0 <= k < s.len() && (#[trigger] s[k]).0@ == id;
    if k != i {
        if k < i {
            assert(s[k].0@ != s[i].0@);
        } else {
            assert(s[i].0@ != s[k].0@);
        }
    }
}

impl JobRegistry {
    /// The ids are distinct.
    pub closed spec fn wf(&self) -> bool {
        distinct_ids(self.running@)
    }

    /// The running jobs and their flags.
    pub closed spec fn view(&self) -> Map<Seq<char>, bool> {
        entries_map(self.running@)
    }

    fn position(&self, id: &str) -> (r: Option<usize>)
        requires
            self.wf(),
        ensures
            match r {
                Some(i) => i < self.running@.len() && self.running@[i as int].0@ == id@,
                None => !self.view().contains_key(id@),
            },
    {
        let mut i: usize = 0;
        while i < self.running.len()
            invariant
                i <= self.running@.len(),
                forall|k: int| 0 <= k < i ==> (#[trigger] self.running@[k]).0@ != id@,
            decreases self.running.len() - i,
        {
            if eq_str(self.running[i].0.as_str(), id) {
                return Some(i);
            }
            i += 1;
        }
        None
    }

    /// An empty registry.
    pub fn new() -> (r: Self)
        ensures
            r.wf(),
            r.view() == Map::<Seq<char>, bool>::empty(),
    {
        let r = JobRegistry { running: Vec::new() };
        assert(r.view() =~= Map::<Seq<char>, bool>::empty());
        r
    }

    /// Registers `id` as running and not cancelled (replacing an entry
    /// under the same id).
    fn register(&mut self, id: String)
        requires
            old(self).wf(),
        ensures
            final(self).wf(),
            final(self).view() == started(old(self).view(), id@),
    {
        let ghost before = self.view();
        match self.position(id.as_str()) {
            Some(i) => {
                let ghost old_running = self.running@;
                self.running.set(i, (id, false));
                proof {
                    assert forall|k: int| 0 <= k < self.running@.len() implies (#[trigger] self.running@[k]).0@
                        == old_running[k].0@ by {}
                    assert forall|x: Seq<char>| #[trigger] self.view().contains_key(x) == started(
                        before,
                        id@,
                    ).contains_key(x) by {
                        if started(before, id@).contains_key(x) && x != id@ {
                            let k = choose|k: int|
                                0 <= k < old_running.len() && (#[trigger] old_running[k]).0@ == x;
                            assert(self.running@[k].0@ == x);
                        }
                        if x == id@ {
                            assert(self.running@[i as int].0@ == x);
                        }
                        if self.view().contains_key(x) {
                            let k = choose|k: int|
                                0 <= k < self.running@.len() && (#[trigger] self.running@[k]).0@ == x;
                            assert(old_running[k].0@ == x);
                        }
                    }
                    assert forall|x: Seq<char>| #[trigger] self.view().contains_key(x) implies self.view()[x]
                        == started(before, id@)[x] by {
                        let k = choose|k: int|
                            0 <= k < self.running@.len() && (#[trigger] self.running@[k]).0@ == x;
                        lemma_entries_at(self.running@, k);
                        if x != id@ {
                            lemma_entries_at(old_running, k);
                        }
                    }
                    assert(self.view() =~= started(before, id@));
                }
            },
            None => {
                let ghost old_running = self.running@;
                self.running.push((id, false));
                proof {
                    assert forall|x: Seq<char>| #[trigger] self.view().contains_key(x) == started(
                        before,
                        id@,
                    ).contains_key(x) by {
                        if started(before, id@).contains_key(x) && x != id@ {
                            let k = choose|k: int|
                                0 <= k < old_running.len() && (#[trigger] old_running[k]).0@ == x;
                            assert(self.running@[k].0@ == x);
                        }
                        if x == id@ {
                            assert(self.running@[old_running.len() as int].0@ == x);
                        }
                        if self.view().contains_key(x) && x != id@ {
                            let k = choose|k: int|
                                0 <= k < self.running@.len() && (#[trigger] self.running@[k]).0@ == x;
                            assert(old_running[k].0@ == x);
                        }
                    }
                    assert forall|x: Seq<char>| #[trigger] self.view().contains_key(x) implies self.view()[x]
                        == started(before, id@)[x] by {
                        let k = choose|k: int|
                            0 <= k < self.running@.len() && (#[trigger] self.running@[k]).0@ == x;
                        lemma_entries_at(self.running@, k);
                        if x != id@ {
                            lemma_entries_at(old_running, k);
                        }
                    }
                    assert(self.view() =~= started(before, id@));
                }
            },
        }
    }

    /// Starts a job under a fresh id, which it returns.
    pub fn start(&mut self) -> (id: String)
        requires
            old(self).wf(),
        ensures
            final(self).wf(),
            final(self).view() == started(old(self).view(), id@),
            id@.len() == 36,
    {
        let id = new_uuid_string();
        let r = id.clone();
        self.register(id);
        r
    }

    /// Flags a running job as cancelled; `false` when no job runs under
    /// `id`.
    pub fn cancel(&mut self, id: &str) -> (r: bool)
        requires
            old(self).wf(),
        ensures
            final(self).wf(),
            r == old(self).view().contains_key(id@),
            final(self).view() == cancelled(old(self).view(), id@),
    {
        let ghost before = self.view();
        match self.position(id) {
            Some(i) => {
                proof {
                    lemma_entries_at(self.running@, i as int);
                }
                let ghost old_running = self.running@;
                let key = self.running[i].0.clone();
                self.running.set(i, (key, true));
                proof {
                    assert forall|k: int| 0 <= k < self.running@.len() implies (#[trigger] self.running@[k]).0@
                        == old_running[k].0@ by {}
                    assert forall|x: Seq<char>| #[trigger] self.view().contains_key(x) == before.contains_key(x) by {
                        if before.contains_key(x) {
                            let k = choose|k: int|
                                0 <= k < old_running.len() && (#[trigger] old_running[k]).0@ == x;
                            assert(self.running@[k].0@ == x);
                        }
                        if self.view().contains_key(x) {
                            let k = choose|k: int|
                                0 <= k < self.running@.len() && (#[trigger] self.running@[k]).0@ == x;
                            assert(old_running[k].0@ == x);
                        }
                    }
                    assert forall|x: Seq<char>| #[trigger] self.view().contains_key(x) implies self.view()[x]
                        == cancelled(before, id@)[x] by {
                        let k = choose|k: int|
                            0 <= k < self.running@.len() && (#[trigger] self.running@[k]).0@ == x;
                        lemma_entries_at(self.running@, k);
                        if x != id@ {
                            lemma_entries_at(old_running, k);
                        }
                    }
                    assert(self.view() =~= cancelled(before, id@));
                }
                true
            },
            None => false,
        }
    }

    /// Is the job under `id` running and flagged as cancelled?
    pub fn is_cancelled(&self, id: &str) -> (r: bool)
        requires
            self.wf(),
        ensures
            r == is_flagged(self.view(), id@),
    {
        match self.position(id) {
            Some(i) => {
                proof {
                    lemma_entries_at(self.running@, i as int);
                }
                self.running[i].1
            },
            None => false,
        }
    }

    /// Forgets the job under `id`.
    pub fn complete(&mut self, id: &str)
        requires
            old(self).wf(),
        ensures
            final(self).wf(),
            final(self).view() == old(self).view().remove(id@),
    {
        let ghost before = self.view();
        match self.position(id) {
            Some(i) => {
                let ghost old_running = self.running@;
                self.running.remove(i);
                proof {
                    assert forall|k: int| 0 <= k < self.running@.len() implies (#[trigger] self.running@[k])
                        == old_running[if k < i { k } else { k + 1 }] by {}
                    assert forall|x: Seq<char>| #[trigger] self.view().contains_key(x) == before.remove(id@).contains_key(x) by {
                        if before.remove(id@).contains_key(x) {
                            let k = choose|k: int|
                                0 <= k < old_running.len() && (#[trigger] old_running[k]).0@ == x;
                            assert(k != i);
                            let j = if k < i { k } else { k - 1 };
                            assert(self.running@[j].0@ == x);
                        }
                        if self.view().contains_key(x) {
                            let k = choose|k: int|
                                0 <= k < self.running@.len() && (#[trigger] self.running@[k]).0@ == x;
                            let j = if k < i { k } else { k + 1 };
                            assert(old_running[j].0@ == x);
                            if x == id@ {
                                assert(old_running[i as int].0@ == x);
                            }
                        }
                    }
                    assert forall|x: Seq<char>| #[trigger] self.view().contains_key(x) implies self.view()[x]
                        == before.remove(id@)[x] by {
                        let k = choose|k: int|
                            0 <= k < self.running@.len() && (#[trigger] self.running@[k]).0@ == x;
                        lemma_entries_at(self.running@, k);
                        let j = if k < i { k } else { k + 1 };
                        lemma_entries_at(old_running, j);
                    }
                    assert(self.view() =~= before.remove(id@));
                }
            },
            None => {
                assert(self.view() =~= before.remove(id@));
            },
        }
    }
}

impl Default for JobRegistry {
    /// An empty registry.
    fn default() -> (r: Self)
        ensures
            r.wf(),
            r.view() == Map::<Seq<char>, bool>::empty(),
    {
        JobRegistry::new()
    }
}

/// A job that was just started is running and not cancelled; cancelling
/// it flags it; completing it forgets it, after which it is not cancelled
/// and cannot be cancelled. Other jobs are untouched by each step.
pub proof fn lemma_job_lifecycle(m: Map<Seq<char>, bool>, id: Seq<char>, other: Seq<char>)
    requires
        other != id,
    ensures
        started(m, id).contains_key(id) && !is_flagged(started(m, id), id),
        is_flagged(cancelled(started(m, id), id), id),
        !is_flagged(cancelled(started(m, id), id).remove(id), id),
        !cancelled(started(m, id), id).remove(id).contains_key(id),
        is_flagged(started(m, id), other) == is_flagged(m, other),
        is_flagged(cancelled(m, id), other) == is_flagged(m, other),
        is_flagged(m.remove(id), other) == is_flagged(m, other),
{
}

/// Cancelling is idempotent, and a job that is not running cannot be
/// cancelled.
pub proof fn lemma_cancel_idempotent(m: Map<Seq<char>, bool>, id: Seq<char>)
    ensures
        cancelled(cancelled(m, id), id) == cancelled(m, id),
        !m.contains_key(id) ==> cancelled(m, id) == m && !is_flagged(cancelled(m, id), id),
{
    assert(cancelled(cancelled(m, id), id) =~= cancelled(m, id));
}

} // verus!
