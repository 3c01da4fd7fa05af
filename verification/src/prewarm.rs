//! Supervision of prewarm and cache-refresh workers: at most one per key.

use vstd::prelude::*;

use crate::text::{clone_optional_text, optional_text, same_optional_text};

verus! {

/// What identifies one worker.
pub struct PrewarmKey {
    pub provider: String,
    pub agent_id: String,
    /// Correlation of a scheduled cache refresh.
    pub refresh_id: Option<String>,
}

/// The content of a [`PrewarmKey`].
pub struct PrewarmKeyContent {
    pub provider: Seq<char>,
    pub agent_id: Seq<char>,
    pub refresh_id: Option<Seq<char>>,
}

impl PrewarmKey {
    /// The content of this key.
    pub open spec fn content(self) -> PrewarmKeyContent {
        PrewarmKeyContent {
            provider: self.provider@,
            agent_id: self.agent_id@,
            refresh_id: optional_text(self.refresh_id),
        }
    }

    /// Reports whether two keys are the same.
    pub fn same(&self, other: &PrewarmKey) -> (res: bool)
        ensures
            res == (self.content() == other.content()),
    {
        self.provider == other.provider && self.agent_id == other.agent_id && same_optional_text(
            &self.refresh_id,
            &other.refresh_id,
        )
    }
}

impl Clone for PrewarmKey {
    fn clone(&self) -> (res: Self)
        ensures
            res == *self,
    {
        PrewarmKey {
            provider: self.provider.clone(),
            agent_id: self.agent_id.clone(),
            refresh_id: clone_optional_text(&self.refresh_id),
        }
    }
}

/// Whether a worker with `key` may start beside the running ones.
pub open spec fn admits(
    running: Seq<PrewarmKeyContent>,
    capacity: usize,
    key: PrewarmKeyContent,
) -> bool {
    !running.contains(key) && running.len() < capacity
}

/// The running workers once the one with `key` has ended.
pub open spec fn without_worker(
    running: Seq<PrewarmKeyContent>,
    key: PrewarmKeyContent,
) -> Seq<PrewarmKeyContent> {
    if running.contains(key) {
        running.remove(running.index_of(key))
    } else {
        running
    }
}

/// Running prewarm workers in the order in which they started.
pub struct PrewarmSupervisor {
    running: Vec<PrewarmKey>,
    capacity: usize,
}

impl PrewarmSupervisor {
    /// The keys of the running workers.
    pub closed spec fn view(&self) -> Seq<PrewarmKeyContent> {
        Seq::new(self.running@.len(), |i: int| self.running@[i].content())
    }

    /// How many workers may run at once.
    pub closed spec fn limit(&self) -> usize {
        self.capacity
    }

    /// No key runs twice, and no more workers run than may.
    pub open spec fn wf(&self) -> bool {
        self@.no_duplicates() && self@.len() <= self.limit()
    }

    /// No worker.
    pub fn new(capacity: usize) -> (res: Self)
        ensures
            res.wf(),
            res@ == Seq::<PrewarmKeyContent>::empty(),
            res.limit() == capacity,
    {
        let res = PrewarmSupervisor { running: Vec::new(), capacity };
        assert(res@ =~= Seq::<PrewarmKeyContent>::empty());
        res
    }

    /// Reports whether no worker runs.
    pub fn is_empty(&self) -> (res: bool)
        ensures
            res == (self@.len() == 0),
    {
        self.running.len() == 0
    }

    fn position(&self, key: &PrewarmKey) -> (res: Option<usize>)
        requires
            self.wf(),
        ensures
            match res {
                Some(i) => i < self@.len() && self@[i as int] == key.content() && self@.index_of(
                    key.content(),
                ) == i,
                None => !self@.contains(key.content()),
            },
    {
        let mut i: usize = 0;
        while i < self.running.len()
            invariant
                i <= self.running@.len(),
                self.wf(),
                forall|j: int| 0 <= j < i ==> #[trigger] self@[j] != key.content(),
            decreases self.running@.len() - i,
        {
            if self.running[i].same(key) {
                assert(self@[i as int] == key.content());
                return Some(i);
            }
            i = i + 1;
        }
        None
    }

    /// Registers a worker; a duplicate is refused, and so is one beyond capacity.
    pub fn begin(&mut self, key: PrewarmKey) -> (res: bool)
        requires
            old(self).wf(),
        ensures
            final(self).wf(),
            final(self).limit() == old(self).limit(),
            res == admits(old(self)@, old(self).limit(), key.content()),
            final(self)@ == if res {
                old(self)@.push(key.content())
            } else {
                old(self)@
            },
            !res ==> *final(self) == *old(self),
    {
        if self.position(&key).is_some() {
            return false;
        }
        if self.running.len() >= self.capacity {
            return false;
        }
        let ghost content = key.content();
        self.running.push(key);
        assert(self@ =~= old(self)@.push(content));
        true
    }

    /// Forgets an ended worker.
    pub fn complete(&mut self, key: &PrewarmKey)
        requires
            old(self).wf(),
        ensures
            final(self).wf(),
            final(self).limit() == old(self).limit(),
            final(self)@ == without_worker(old(self)@, key.content()),
    {
        if let Some(i) = self.position(key) {
            let _ = self.running.remove(i);
            assert(self@ =~= old(self)@.remove(i as int));
        }
    }
}

/// An ended worker's key is free again.
pub proof fn an_ended_worker_frees_its_key(
    running: Seq<PrewarmKeyContent>,
    capacity: usize,
    key: PrewarmKeyContent,
)
    requires
        running.no_duplicates(),
        running.len() <= capacity,
        running.contains(key),
    ensures
        !admits(running, capacity, key),
        admits(without_worker(running, key), capacity, key),
{
    let i = running.index_of(key);
    let left = running.remove(i);
    assert forall|j: int| 0 <= j < left.len() implies #[trigger] left[j] != key by {
        if j < i {
            assert(left[j] == running[j]);
        } else {
            assert(left[j] == running[j + 1]);
        }
    }
}

/// A worker starts while its key is free and fewer than the capacity run, and not otherwise.
pub proof fn workers_stay_within_capacity(
    running: Seq<PrewarmKeyContent>,
    capacity: usize,
    key: PrewarmKeyContent,
)
    ensures
        running.contains(key) ==> !admits(running, capacity, key),
        running.len() >= capacity ==> !admits(running, capacity, key),
        !running.contains(key) && running.len() < capacity ==> admits(running, capacity, key),
{
}

/// The end of a worker frees its own key and no other.
pub proof fn only_the_ended_worker_leaves(
    running: Seq<PrewarmKeyContent>,
    key: PrewarmKeyContent,
    other: PrewarmKeyContent,
)
    requires
        running.no_duplicates(),
    ensures
        !without_worker(running, key).contains(key),
        other != key ==> without_worker(running, key).contains(other) == running.contains(other),
        running.contains(key) ==> without_worker(running, key).len() == running.len() - 1,
        !running.contains(key) ==> without_worker(running, key) == running,
{
    if running.contains(key) {
        let at = running.index_of(key);
        let rest = running.remove(at);
        assert forall|i: int| 0 <= i < rest.len() implies rest[i] != key by {
            if i < at {
                assert(rest[i] == running[i]);
            } else {
                assert(rest[i] == running[i + 1]);
            }
        }
        if other != key && running.contains(other) {
            let i = running.index_of(other);
            if i < at {
                assert(rest[i] == other);
            } else {
                assert(rest[i - 1] == other);
            }
        }
        if rest.contains(other) {
            let i = rest.index_of(other);
            if i < at {
                assert(running[i] == other);
            } else {
                assert(running[i + 1] == other);
            }
        }
    }
}

} // verus!
