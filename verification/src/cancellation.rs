//! Cooperative cancellation shared by the main loop and prompt workers.

use vstd::prelude::*;

use crate::names::NameTable;
use crate::prompt::PromptJob;
use crate::retry::next_attempt;

verus! {

/// One registered backend waker, named by its process-local id.
pub struct AbortWakerEntry {
    pub agent_prompt_id: String,
    pub id: u64,
}

/// The ids of the wakers registered for `prompt_id`, in registration order.
pub open spec fn wakers_of(entries: Seq<AbortWakerEntry>, prompt_id: Seq<char>) -> Seq<u64>
    decreases entries.len(),
{
    if entries.len() == 0 {
        Seq::empty()
    } else if entries.last().agent_prompt_id@ == prompt_id {
        wakers_of(entries.drop_last(), prompt_id).push(entries.last().id)
    } else {
        wakers_of(entries.drop_last(), prompt_id)
    }
}

/// The ids of all registered wakers, in registration order.
pub open spec fn all_wakers(entries: Seq<AbortWakerEntry>) -> Seq<u64> {
    Seq::new(entries.len(), |i: int| entries[i].id)
}

/// The entries other than `prompt_id`'s registration `id`.
pub open spec fn without_waker(
    entries: Seq<AbortWakerEntry>,
    prompt_id: Seq<char>,
    id: u64,
) -> Seq<AbortWakerEntry>
    decreases entries.len(),
{
    if entries.len() == 0 {
        Seq::empty()
    } else {
        let rest = without_waker(entries.drop_last(), prompt_id, id);
        if entries.last().agent_prompt_id@ == prompt_id && entries.last().id == id {
            rest
        } else {
            rest.push(entries.last())
        }
    }
}

/// Cancellation markers, registered wakers, and the broadcast generation.
pub struct CancellationState {
    canceled: NameTable<()>,
    wakers: Vec<AbortWakerEntry>,
    next_abort_waker_id: u64,
    retry_cancel_generation: u64,
    shutdown: bool,
}

impl CancellationState {
    /// Prompts with an unconsumed targeted marker.
    pub closed spec fn marked(&self) -> Set<Seq<char>> {
        self.canceled@.dom()
    }

    /// Registered wakers in registration order.
    pub closed spec fn registered(&self) -> Seq<AbortWakerEntry> {
        self.wakers@
    }

    /// The id of the next registration.
    pub closed spec fn next_id(&self) -> u64 {
        self.next_abort_waker_id
    }

    /// The broadcast generation.
    pub closed spec fn generation(&self) -> u64 {
        self.retry_cancel_generation
    }

    /// Whether input ended.
    pub closed spec fn is_shut_down(&self) -> bool {
        self.shutdown
    }

    /// `prompt_id` has been canceled, by target or by shutdown.
    pub open spec fn canceled(&self, prompt_id: Seq<char>) -> bool {
        self.is_shut_down() || self.marked().contains(prompt_id)
    }

    /// Everything but the targeted markers is as in `other`.
    pub open spec fn same_but_marks(&self, other: &CancellationState) -> bool {
        &&& self.registered() == other.registered()
        &&& self.next_id() == other.next_id()
        &&& self.generation() == other.generation()
        &&& self.is_shut_down() == other.is_shut_down()
    }

    /// Nothing canceled.
    pub fn new() -> (res: Self)
        ensures
            res.marked() == Set::<Seq<char>>::empty(),
            res.registered() == Seq::<AbortWakerEntry>::empty(),
            res.next_id() == 0,
            res.generation() == 0,
            !res.is_shut_down(),
    {
        let res = CancellationState {
            canceled: NameTable::new(),
            wakers: Vec::new(),
            next_abort_waker_id: 0,
            retry_cancel_generation: 0,
            shutdown: false,
        };
        assert(res.marked() =~= Set::<Seq<char>>::empty());
        res
    }

    /// Marks one prompt as canceled and returns the wakers to invoke.
    pub fn cancel(&mut self, prompt_id: String) -> (res: Vec<u64>)
        ensures
            final(self).marked() == old(self).marked().insert(prompt_id@),
            final(self).same_but_marks(old(self)),
            res@ == wakers_of(old(self).registered(), prompt_id@),
    {
        let mut woken: Vec<u64> = Vec::new();
        let mut i: usize = 0;
        assert(self.wakers@.take(0) =~= Seq::<AbortWakerEntry>::empty());
        while i < self.wakers.len()
            invariant
                i <= self.wakers@.len(),
                woken@ == wakers_of(self.wakers@.take(i as int), prompt_id@),
            decreases self.wakers@.len() - i,
        {
            if self.wakers[i].agent_prompt_id == prompt_id {
                woken.push(self.wakers[i].id);
            }
            assert(self.wakers@.take(i + 1).drop_last() =~= self.wakers@.take(i as int));
            i = i + 1;
        }
        assert(self.wakers@.take(i as int) =~= self.wakers@);
        self.canceled.insert(prompt_id, ());
        assert(self.marked() =~= old(self).marked().insert(prompt_id@));
        woken
    }

    fn every_waker(&self) -> (res: Vec<u64>)
        ensures
            res@ == all_wakers(self.registered()),
    {
        let mut woken: Vec<u64> = Vec::new();
        let mut i: usize = 0;
        while i < self.wakers.len()
            invariant
                i <= self.wakers@.len(),
                woken@.len() == i,
                forall|j: int| 0 <= j < i ==> #[trigger] woken@[j] == self.wakers@[j].id,
            decreases self.wakers@.len() - i,
        {
            woken.push(self.wakers[i].id);
            i = i + 1;
        }
        assert(woken@ =~= all_wakers(self.wakers@));
        woken
    }

    /// Advances broadcast cancellation and returns every registered waker. A backend that
    /// registers later compares its captured generation and is woken at once.
    pub fn cancel_all(&mut self) -> (res: Vec<u64>)
        ensures
            final(self).generation() == next_attempt(old(self).generation()),
            final(self).marked() == old(self).marked(),
            final(self).registered() == old(self).registered(),
            final(self).next_id() == old(self).next_id(),
            final(self).is_shut_down() == old(self).is_shut_down(),
            res@ == all_wakers(old(self).registered()),
    {
        self.retry_cancel_generation = self.retry_cancel_generation.saturating_add(1);
        self.every_waker()
    }

    /// Cancels everything for good and returns every registered waker.
    pub fn shutdown(&mut self) -> (res: Vec<u64>)
        ensures
            final(self).is_shut_down(),
            final(self).marked() == old(self).marked(),
            final(self).registered() == old(self).registered(),
            final(self).next_id() == old(self).next_id(),
            final(self).generation() == old(self).generation(),
            res@ == all_wakers(old(self).registered()),
    {
        self.shutdown = true;
        self.every_waker()
    }

    /// Consumes a targeted marker; reports whether the prompt is canceled.
    pub fn take_canceled(&mut self, prompt_id: &String) -> (res: bool)
        ensures
            res == old(self).canceled(prompt_id@),
            final(self).marked() == old(self).marked().remove(prompt_id@),
            final(self).same_but_marks(old(self)),
    {
        let marked: bool = match self.canceled.remove(prompt_id.as_str()) {
            Some(_) => true,
            None => false,
        };
        assert(self.marked() =~= old(self).marked().remove(prompt_id@));
        marked || self.shutdown
    }

    /// Reports whether the prompt is canceled, keeping its marker.
    pub fn is_canceled(&self, prompt_id: &String) -> (res: bool)
        ensures
            res == self.canceled(prompt_id@),
    {
        self.shutdown || self.canceled.contains_key(prompt_id.as_str())
    }

    /// The broadcast generation.
    pub fn retry_generation(&self) -> (res: u64)
        ensures
            res == self.generation(),
    {
        self.retry_cancel_generation
    }

    /// Reports whether an attempt captured at `cancel_generation` must stop.
    pub fn is_aborted(&self, prompt_id: &String, cancel_generation: u64) -> (res: bool)
        ensures
            res == self.aborted(prompt_id@, cancel_generation),
    {
        self.retry_cancel_generation != cancel_generation || self.is_canceled(prompt_id)
    }

    /// An attempt captured at `cancel_generation` must stop.
    pub open spec fn aborted(&self, prompt_id: Seq<char>, cancel_generation: u64) -> bool {
        self.generation() != cancel_generation || self.canceled(prompt_id)
    }

    /// Registers one backend waker. Returns its id and whether it must be invoked at once because
    /// its prompt was canceled before the registration.
    pub fn register_abort_waker(&mut self, prompt_id: &String, cancel_generation: u64) -> (res: (
        u64,
        bool,
    ))
        ensures
            res.0 == old(self).next_id(),
            res.1 == old(self).aborted(prompt_id@, cancel_generation),
            final(self).next_id() == next_attempt(old(self).next_id()),
            final(self).registered() == old(self).registered().push(
                (AbortWakerEntry { agent_prompt_id: *prompt_id, id: res.0 }),
            ),
            final(self).marked() == old(self).marked(),
            final(self).generation() == old(self).generation(),
            final(self).is_shut_down() == old(self).is_shut_down(),
    {
        let id: u64 = self.next_abort_waker_id;
        self.next_abort_waker_id = self.next_abort_waker_id.saturating_add(1);
        let call_now: bool = self.is_aborted(prompt_id, cancel_generation);
        self.wakers.push(AbortWakerEntry { agent_prompt_id: prompt_id.clone(), id });
        (id, call_now)
    }

    /// Forgets one registration.
    pub fn unregister_abort_waker(&mut self, prompt_id: &String, id: u64)
        ensures
            final(self).registered() == without_waker(old(self).registered(), prompt_id@, id),
            final(self).marked() == old(self).marked(),
            final(self).next_id() == old(self).next_id(),
            final(self).generation() == old(self).generation(),
            final(self).is_shut_down() == old(self).is_shut_down(),
    {
        let mut retained: Vec<AbortWakerEntry> = Vec::new();
        let mut i: usize = 0;
        let ghost before = self.wakers@;
        assert(before.take(0) =~= Seq::<AbortWakerEntry>::empty());
        while i < self.wakers.len()
            invariant
                i <= before.len(),
                self.wakers@ == before,
                self.canceled == old(self).canceled,
                self.next_abort_waker_id == old(self).next_abort_waker_id,
                self.retry_cancel_generation == old(self).retry_cancel_generation,
                self.shutdown == old(self).shutdown,
                retained@ == without_waker(before.take(i as int), prompt_id@, id),
            decreases before.len() - i,
        {
            let entry = &self.wakers[i];
            if !(entry.agent_prompt_id == *prompt_id && entry.id == id) {
                retained.push(
                    AbortWakerEntry {
                        agent_prompt_id: entry.agent_prompt_id.clone(),
                        id: entry.id,
                    },
                );
            }
            assert(before.take(i + 1).drop_last() =~= before.take(i as int));
            i = i + 1;
        }
        assert(before.take(i as int) =~= before);
        self.wakers = retained;
    }
}

/// A prompt whose marker was just consumed is not canceled again by it: a targeted cancellation
/// ends at most one turn.
pub proof fn marker_is_consumed_once(before: &CancellationState, after: &CancellationState, prompt_id: Seq<char>)
    requires
        after.marked() == before.marked().remove(prompt_id),
        after.same_but_marks(before),
        !before.is_shut_down(),
    ensures
        !after.canceled(prompt_id),
{
}

/// Reports whether a job captured before a broadcast, or canceled since, must close.
pub open spec fn must_close(
    job: PromptJob,
    input_closed: bool,
    current_generation: u64,
    cancellation: &CancellationState,
) -> bool {
    input_closed || job.cancel_generation != current_generation || cancellation.canceled(
        job.agent_prompt_id@,
    )
}

/// A targeted cancellation wakes every waker of its prompt and no other.
pub proof fn cancel_wakes_its_prompt(
    entries: Seq<AbortWakerEntry>,
    prompt_id: Seq<char>,
    id: u64,
)
    ensures
        wakers_of(entries, prompt_id).contains(id) <==> exists|i: int|
            0 <= i < entries.len() && (#[trigger] entries[i]).agent_prompt_id@ == prompt_id
                && entries[i].id == id,
    decreases entries.len(),
{
    let woken = wakers_of(entries, prompt_id);
    if entries.len() == 0 {
        assert(!woken.contains(id));
    } else {
        let init = entries.drop_last();
        let n = init.len() as int;
        let before = wakers_of(init, prompt_id);
        cancel_wakes_its_prompt(init, prompt_id, id);
        if before.contains(id) {
            let i = choose|i: int|
                0 <= i < init.len() && (#[trigger] init[i]).agent_prompt_id@ == prompt_id
                    && init[i].id == id;
            assert(entries[i].id == id);
            let p = before.index_of(id);
            assert(woken[p] == id);
        }
        if entries[n].agent_prompt_id@ == prompt_id && entries[n].id == id {
            assert(woken[woken.len() - 1] == id);
        }
        if woken.contains(id) && !before.contains(id) {
            let p = woken.index_of(id);
            if p < before.len() {
                assert(before[p] == id);
            }
            assert(entries[n].id == id);
        }
        if exists|i: int|
            0 <= i < entries.len() && (#[trigger] entries[i]).agent_prompt_id@ == prompt_id
                && entries[i].id == id {
            let i = choose|i: int|
                0 <= i < entries.len() && (#[trigger] entries[i]).agent_prompt_id@ == prompt_id
                    && entries[i].id == id;
            if i < n {
                assert(init[i].id == id);
            }
        }
    }
}

/// A broadcast wakes every registered waker, each as often as it is registered.
pub proof fn broadcast_wakes_everyone(entries: Seq<AbortWakerEntry>, i: int)
    requires
        0 <= i < entries.len(),
    ensures
        all_wakers(entries).len() == entries.len(),
        all_wakers(entries)[i] == entries[i].id,
{
}

/// Forgetting a registration removes exactly it: no entry of that prompt and id stays, and every
/// other entry does.
pub proof fn only_the_registration_is_forgotten(
    entries: Seq<AbortWakerEntry>,
    prompt_id: Seq<char>,
    id: u64,
    entry: AbortWakerEntry,
)
    ensures
        without_waker(entries, prompt_id, id).contains(entry) <==> entries.contains(entry) && !(
        entry.agent_prompt_id@ == prompt_id && entry.id == id),
        without_waker(entries, prompt_id, id).len() <= entries.len(),
    decreases entries.len(),
{
    let kept = without_waker(entries, prompt_id, id);
    if entries.len() == 0 {
        assert(!kept.contains(entry));
    } else {
        let init = entries.drop_last();
        let n = init.len() as int;
        let rest = without_waker(init, prompt_id, id);
        only_the_registration_is_forgotten(init, prompt_id, id, entry);
        if rest.contains(entry) {
            let p = rest.index_of(entry);
            assert(kept[p] == entry);
            let q = init.index_of(entry);
            assert(entries[q] == entry);
        }
        if kept.contains(entry) && !rest.contains(entry) {
            let p = kept.index_of(entry);
            if p < rest.len() {
                assert(rest[p] == entry);
            }
            assert(entries[n] == entry);
        }
        if entries.contains(entry) && !init.contains(entry) {
            let p = entries.index_of(entry);
            if p < n {
                assert(init[p] == entry);
            }
            if !(entry.agent_prompt_id@ == prompt_id && entry.id == id) {
                assert(kept[kept.len() - 1] == entry);
            }
        }
    }
}

/// A prompt must stop for its own mark, for a shutdown and for a broadcast since it was captured,
/// and for nothing else.
pub proof fn attempts_stop_only_when_canceled(
    cancellation: &CancellationState,
    job: PromptJob,
    input_closed: bool,
    current_generation: u64,
)
    ensures
        must_close(job, input_closed, current_generation, cancellation) <==> input_closed
            || job.cancel_generation != current_generation || cancellation.is_shut_down()
            || cancellation.marked().contains(job.agent_prompt_id@),
        cancellation.aborted(job.agent_prompt_id@, job.cancel_generation)
            <==> job.cancel_generation != cancellation.generation() || cancellation.is_shut_down()
            || cancellation.marked().contains(job.agent_prompt_id@),
{
}

} // verus!
