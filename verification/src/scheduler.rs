//! Delayed-prompt queue and synchronous retry scheduler.
//!
//! Time is always supplied by the caller: the actor around this state only transports commands
//! and waits.

use vstd::prelude::*;

use crate::clock::{later, Moment, Span};
use crate::prompt::PromptJob;
use crate::retry::{
    cooldown_due, cooldown_due_for_job, jitter_is_small_and_positive, next_attempt,
};

verus! {

/// One delayed logical prompt.
pub struct ScheduledPrompt {
    /// Current eligible deadline.
    pub due: Moment,
    /// Prompt-local eligibility before any shared provider cooldown.
    pub independent_due: Moment,
    /// Shared cooldown generation currently constraining this entry.
    pub cooldown_generation: Option<u64>,
    /// Arrival ordinal.
    pub sequence: u64,
    pub job: PromptJob,
}

/// One shared provider cooldown constraining a scheduled prompt.
#[derive(Clone, Copy, Debug, PartialEq, Eq, Structural)]
pub struct CooldownConstraint {
    /// Exact cooldown evidence generation.
    pub generation: u64,
    /// Common provider-contact boundary before prompt-local jitter.
    pub boundary: Moment,
}

/// No logical prompt is parked twice.
pub open spec fn unique_prompts(prompts: Seq<ScheduledPrompt>) -> bool {
    forall|i: int, j: int|
        0 <= i < j < prompts.len() ==> (#[trigger] prompts[i]).job.agent_prompt_id@ != (
        #[trigger] prompts[j]).job.agent_prompt_id@
}

/// Entries stand in arrival order, numbered up to `last`.
pub open spec fn in_arrival_order(prompts: Seq<ScheduledPrompt>, last: u64) -> bool {
    &&& forall|i: int| 0 <= i < prompts.len() ==> (#[trigger] prompts[i]).sequence <= last
    &&& forall|i: int, j: int|
        0 <= i < j < prompts.len() ==> (#[trigger] prompts[i]).sequence < (
        #[trigger] prompts[j]).sequence || prompts[j].sequence == u64::MAX
}

/// `i` holds the earliest deadline, the first to arrive among equals.
pub open spec fn is_earliest(prompts: Seq<ScheduledPrompt>, i: int) -> bool {
    &&& 0 <= i < prompts.len()
    &&& forall|j: int|
        0 <= j < prompts.len() ==> prompts[i].due.nanos <= (#[trigger] prompts[j]).due.nanos
    &&& forall|j: int| 0 <= j < i ==> prompts[i].due.nanos < (#[trigger] prompts[j]).due.nanos
}

/// The position of the earliest deadline, the first to arrive among equals.
pub open spec fn earliest(prompts: Seq<ScheduledPrompt>) -> int {
    choose|i: int| is_earliest(prompts, i)
}

/// There is exactly one earliest entry.
pub proof fn earliest_is_unique(prompts: Seq<ScheduledPrompt>, i: int)
    requires
        is_earliest(prompts, i),
    ensures
        earliest(prompts) == i,
        is_earliest(prompts, earliest(prompts)),
{
    let j = earliest(prompts);
    assert(is_earliest(prompts, j));
    if i < j {
        assert(prompts[j].due.nanos < prompts[i].due.nanos);
    } else if j < i {
        assert(prompts[i].due.nanos < prompts[j].due.nanos);
    }
}

proof fn lemma_earliest_exists(prompts: Seq<ScheduledPrompt>)
    requires
        prompts.len() > 0,
    ensures
        is_earliest(prompts, earliest(prompts)),
    decreases prompts.len(),
{
    let last = prompts.len() - 1;
    if last == 0 {
        earliest_is_unique(prompts, 0);
    } else {
        let before = prompts.drop_last();
        lemma_earliest_exists(before);
        let i = earliest(before);
        assert forall|j: int| 0 <= j < before.len() implies #[trigger] prompts[j]
            == before[j] by {}
        if prompts[last].due.nanos < prompts[i].due.nanos {
            earliest_is_unique(prompts, last);
        } else {
            earliest_is_unique(prompts, i);
        }
    }
}

/// Whether the entry at `i` is the one that owns `prompt_id`.
pub open spec fn parked_at(prompts: Seq<ScheduledPrompt>, prompt_id: Seq<char>, i: int) -> bool {
    0 <= i < prompts.len() && prompts[i].job.agent_prompt_id@ == prompt_id
}

/// Some entry owns `prompt_id`.
pub open spec fn parked(prompts: Seq<ScheduledPrompt>, prompt_id: Seq<char>) -> bool {
    exists|i: int| #[trigger] parked_at(prompts, prompt_id, i)
}

/// The position of the entry that owns `prompt_id`.
pub open spec fn parked_index(prompts: Seq<ScheduledPrompt>, prompt_id: Seq<char>) -> int {
    choose|i: int| parked_at(prompts, prompt_id, i)
}

/// The deadline of a new entry.
pub open spec fn scheduled_due(
    independent_due: Moment,
    cooldown: Option<CooldownConstraint>,
    job: PromptJob,
) -> Moment {
    match cooldown {
        Some(constraint) => later(independent_due, cooldown_due(constraint.boundary, job)),
        None => independent_due,
    }
}

/// The arrival ordinal after `sequence`, saturating.
pub open spec fn next_sequence(sequence: u64) -> u64 {
    if sequence == u64::MAX {
        u64::MAX
    } else {
        (sequence + 1) as u64
    }
}

/// A new entry.
pub open spec fn scheduled_entry(
    independent_due: Moment,
    cooldown: Option<CooldownConstraint>,
    sequence: u64,
    job: PromptJob,
) -> ScheduledPrompt {
    ScheduledPrompt {
        due: scheduled_due(independent_due, cooldown, job),
        independent_due,
        cooldown_generation: match cooldown {
            Some(constraint) => Some(constraint.generation),
            None => None,
        },
        sequence,
        job,
    }
}

/// An entry after newer evidence for its provider: it waits for its own eligibility and for the
/// jittered boundary, and never less than it did before.
pub open spec fn extended_entry(
    entry: ScheduledPrompt,
    provider: Seq<char>,
    due: Moment,
    generation: u64,
) -> ScheduledPrompt {
    if entry.job.prompt.model.provider@ == provider {
        let independent_due = if entry.cooldown_generation is None {
            entry.due
        } else {
            entry.independent_due
        };
        ScheduledPrompt {
            due: later(entry.due, later(independent_due, cooldown_due(due, entry.job))),
            independent_due,
            cooldown_generation: Some(generation),
            ..entry
        }
    } else {
        entry
    }
}

/// An entry after a successful probe of exactly its cooldown generation.
pub open spec fn released_entry(
    entry: ScheduledPrompt,
    provider: Seq<char>,
    generation: u64,
    now: Moment,
) -> ScheduledPrompt {
    if entry.job.prompt.model.provider@ == provider && entry.cooldown_generation == Some(
        generation,
    ) {
        ScheduledPrompt {
            due: later(entry.independent_due, cooldown_due(now, entry.job)),
            cooldown_generation: None,
            ..entry
        }
    } else {
        entry
    }
}

/// Every entry after newer evidence for `provider`.
pub open spec fn extended(
    prompts: Seq<ScheduledPrompt>,
    provider: Seq<char>,
    due: Moment,
    generation: u64,
) -> Seq<ScheduledPrompt> {
    Seq::new(prompts.len(), |i: int| extended_entry(prompts[i], provider, due, generation))
}

/// Every entry after a successful probe of `provider`.
pub open spec fn released(
    prompts: Seq<ScheduledPrompt>,
    provider: Seq<char>,
    generation: u64,
    now: Moment,
) -> Seq<ScheduledPrompt> {
    Seq::new(prompts.len(), |i: int| released_entry(prompts[i], provider, generation, now))
}

/// The jobs of some entries, in order.
pub open spec fn jobs(prompts: Seq<ScheduledPrompt>) -> Seq<PromptJob> {
    Seq::new(prompts.len(), |i: int| prompts[i].job)
}

/// Deterministic delayed-prompt queue owned by the single retry scheduler.
pub struct RetryScheduleQueue {
    prompts: Vec<ScheduledPrompt>,
    sequence: u64,
}

impl RetryScheduleQueue {
    /// The entries in arrival order.
    pub closed spec fn view(&self) -> Seq<ScheduledPrompt> {
        self.prompts@
    }

    /// The last arrival ordinal.
    pub closed spec fn last_sequence(&self) -> u64 {
        self.sequence
    }

    /// Each logical prompt is parked at most once, and entries stand in arrival order.
    pub open spec fn wf(&self) -> bool {
        &&& unique_prompts(self@)
        &&& in_arrival_order(self@, self.last_sequence())
    }

    /// An empty queue.
    pub fn new() -> (res: Self)
        ensures
            res.wf(),
            res@ == Seq::<ScheduledPrompt>::empty(),
            res.last_sequence() == 0,
    {
        RetryScheduleQueue { prompts: Vec::new(), sequence: 0 }
    }

    fn index_of(&self, prompt_id: &String) -> (res: Option<usize>)
        requires
            self.wf(),
        ensures
            match res {
                Some(i) => parked_at(self@, prompt_id@, i as int) && parked_index(
                    self@,
                    prompt_id@,
                ) == i,
                None => !parked(self@, prompt_id@),
            },
    {
        let mut i: usize = 0;
        while i < self.prompts.len()
            invariant
                i <= self.prompts@.len(),
                self.wf(),
                forall|j: int|
                    0 <= j < i ==> (#[trigger] self.prompts@[j]).job.agent_prompt_id@ != prompt_id@,
            decreases self.prompts@.len() - i,
        {
            if self.prompts[i].job.agent_prompt_id == *prompt_id {
                proof {
                    assert(parked_at(self@, prompt_id@, i as int));
                    let j = parked_index(self@, prompt_id@);
                    assert(parked_at(self@, prompt_id@, j));
                    assert(self@[i as int].job.agent_prompt_id@ == self@[j].job.agent_prompt_id@);
                }
                return Some(i);
            }
            i = i + 1;
        }
        None
    }

    /// Adds one logical prompt at its current eligible deadline. A prompt that is already parked
    /// is handed back and the queue keeps the original.
    pub fn schedule(
        &mut self,
        independent_due: Moment,
        cooldown: Option<CooldownConstraint>,
        job: PromptJob,
    ) -> (res: Result<(), PromptJob>)
        requires
            old(self).wf(),
        ensures
            final(self).wf(),
            match res {
                Ok(()) => {
                    &&& !parked(old(self)@, job.agent_prompt_id@)
                    &&& final(self).last_sequence() == next_sequence(old(self).last_sequence())
                    &&& final(self)@ == old(self)@.push(
                        scheduled_entry(
                            independent_due,
                            cooldown,
                            final(self).last_sequence(),
                            job,
                        ),
                    )
                },
                Err(duplicate) => {
                    &&& parked(old(self)@, job.agent_prompt_id@)
                    &&& duplicate == job
                    &&& *final(self) == *old(self)
                },
            },
    {
        if let Some(_) = self.index_of(&job.agent_prompt_id) {
            return Err(job);
        }
        let due: Moment = match cooldown {
            Some(constraint) => independent_due.max(
                cooldown_due_for_job(constraint.boundary, &job),
            ),
            None => independent_due,
        };
        let cooldown_generation: Option<u64> = match cooldown {
            Some(constraint) => Some(constraint.generation),
            None => None,
        };
        self.sequence = self.sequence.saturating_add(1);
        proof {
            assert forall|i: int| 0 <= i < self.prompts@.len() implies (
            #[trigger] self.prompts@[i]).job.agent_prompt_id@ != job.agent_prompt_id@ by {
                if self.prompts@[i].job.agent_prompt_id@ == job.agent_prompt_id@ {
                    assert(parked_at(old(self)@, job.agent_prompt_id@, i));
                }
            }
        }
        self.prompts.push(
            ScheduledPrompt {
                due,
                independent_due,
                cooldown_generation,
                sequence: self.sequence,
                job,
            },
        );
        Ok(())
    }

    fn earliest_index(&self) -> (res: Option<usize>)
        ensures
            match res {
                Some(i) => is_earliest(self@, i as int) && earliest(self@) == i,
                None => self@.len() == 0,
            },
    {
        if self.prompts.len() == 0 {
            return None;
        }
        let mut best: usize = 0;
        let mut i: usize = 1;
        while i < self.prompts.len()
            invariant
                1 <= i <= self.prompts@.len(),
                best < i,
                forall|j: int|
                    0 <= j < i ==> self.prompts@[best as int].due.nanos <= (
                    #[trigger] self.prompts@[j]).due.nanos,
                forall|j: int|
                    0 <= j < best ==> self.prompts@[best as int].due.nanos < (
                    #[trigger] self.prompts@[j]).due.nanos,
            decreases self.prompts@.len() - i,
        {
            if self.prompts[i].due.nanos < self.prompts[best].due.nanos {
                best = i;
            }
            i = i + 1;
        }
        proof {
            earliest_is_unique(self@, best as int);
        }
        Some(best)
    }

    fn take(&mut self, i: usize) -> (res: PromptJob)
        requires
            old(self).wf(),
            i < old(self)@.len(),
        ensures
            final(self).wf(),
            final(self)@ == old(self)@.remove(i as int),
            final(self).last_sequence() == old(self).last_sequence(),
            res == old(self)@[i as int].job,
    {
        let entry = self.prompts.remove(i);
        proof {
            lemma_removal_keeps_order(old(self)@, i as int, self.sequence);
        }
        entry.job
    }

    /// Removes and returns the next prompt when its deadline has arrived.
    pub fn pop_due(&mut self, now: Moment) -> (res: Option<PromptJob>)
        requires
            old(self).wf(),
        ensures
            final(self).wf(),
            final(self).last_sequence() == old(self).last_sequence(),
            res is Some <==> is_due(old(self)@, now),
            match res {
                Some(job) => {
                    &&& is_earliest(old(self)@, earliest(old(self)@))
                    &&& job == old(self)@[earliest(old(self)@)].job
                    &&& final(self)@ == old(self)@.remove(earliest(old(self)@))
                },
                None => *final(self) == *old(self),
            },
    {
        match self.earliest_index() {
            Some(i) => {
                if self.prompts[i].due.nanos > now.nanos {
                    return None;
                }
                assert(is_due(self@, now)) by {
                    assert(self@[i as int].due.nanos <= now.nanos);
                }
                Some(self.take(i))
            },
            None => None,
        }
    }

    /// Returns the earliest deadline, if any.
    pub fn next_due(&self) -> (res: Option<Moment>)
        ensures
            match res {
                Some(due) => is_earliest(self@, earliest(self@)) && due == self@[earliest(
                    self@,
                )].due,
                None => self@.len() == 0,
            },
    {
        match self.earliest_index() {
            Some(i) => Some(self.prompts[i].due),
            None => None,
        }
    }

    /// Removes the delayed instance of one logical prompt.
    pub fn cancel(&mut self, prompt_id: &String) -> (res: Option<PromptJob>)
        requires
            old(self).wf(),
        ensures
            final(self).wf(),
            final(self).last_sequence() == old(self).last_sequence(),
            res == canceled_job(old(self)@, prompt_id@),
            final(self)@ == without(old(self)@, prompt_id@),
    {
        match self.index_of(prompt_id) {
            Some(i) => {
                assert(parked(self@, prompt_id@));
                Some(self.take(i))
            },
            None => None,
        }
    }

    /// Removes every delayed logical prompt.
    pub fn cancel_all(&mut self) -> (res: Vec<PromptJob>)
        requires
            old(self).wf(),
        ensures
            final(self).wf(),
            final(self).last_sequence() == old(self).last_sequence(),
            final(self)@ == Seq::<ScheduledPrompt>::empty(),
            res@ == jobs(old(self)@),
    {
        let mut canceled: Vec<PromptJob> = Vec::new();
        let ghost before = self.prompts@;
        while self.prompts.len() > 0
            invariant
                canceled@.len() + self.prompts@.len() == before.len(),
                self.prompts@ == before.skip(canceled@.len() as int),
                canceled@ == jobs(before.take(canceled@.len() as int)),
                self.sequence == old(self).sequence,
            decreases self.prompts@.len(),
        {
            let entry = self.prompts.remove(0);
            let ghost n = canceled@.len() as int;
            assert(entry == before[n]);
            canceled.push(entry.job);
            assert(self.prompts@ =~= before.skip(n + 1));
            assert(canceled@ =~= jobs(before.take(n + 1)));
        }
        assert(before.take(before.len() as int) =~= before);
        canceled
    }

    /// Monotonically moves same-provider prompts beyond a shared cooldown: no deadline moves
    /// earlier.
    pub fn extend_cooldown(&mut self, provider: &String, due: Moment, generation: u64)
        requires
            old(self).wf(),
        ensures
            final(self).wf(),
            final(self).last_sequence() == old(self).last_sequence(),
            final(self)@ == extended(old(self)@, provider@, due, generation),
    {
        let mut i: usize = 0;
        let ghost before = self.prompts@;
        while i < self.prompts.len()
            invariant
                self.prompts@.len() == before.len(),
                i <= before.len(),
                self.sequence == old(self).sequence,
                forall|j: int|
                    0 <= j < i ==> #[trigger] self.prompts@[j] == extended_entry(
                        before[j],
                        provider@,
                        due,
                        generation,
                    ),
                forall|j: int| i <= j < before.len() ==> #[trigger] self.prompts@[j] == before[j],
            decreases before.len() - i,
        {
            if self.prompts[i].job.prompt.model.provider == *provider {
                let independent_due: Moment = match self.prompts[i].cooldown_generation {
                    None => self.prompts[i].due,
                    Some(_) => self.prompts[i].independent_due,
                };
                let jittered: Moment = cooldown_due_for_job(due, &self.prompts[i].job);
                let entry = &mut self.prompts[i];
                entry.independent_due = independent_due;
                entry.cooldown_generation = Some(generation);
                entry.due = entry.due.max(independent_due.max(jittered));
            }
            i = i + 1;
        }
        assert(self.prompts@ =~= extended(before, provider@, due, generation));
        proof {
            extension_keeps_ownership(before, provider@, due, generation, self.sequence);
        }
    }

    /// Advances only matching provider prompts after an authoritative probe.
    pub fn release_cooldown(&mut self, provider: &String, generation: u64, now: Moment)
        requires
            old(self).wf(),
        ensures
            final(self).wf(),
            final(self).last_sequence() == old(self).last_sequence(),
            final(self)@ == released(old(self)@, provider@, generation, now),
    {
        let mut i: usize = 0;
        let ghost before = self.prompts@;
        while i < self.prompts.len()
            invariant
                self.prompts@.len() == before.len(),
                i <= before.len(),
                self.sequence == old(self).sequence,
                forall|j: int|
                    0 <= j < i ==> #[trigger] self.prompts@[j] == released_entry(
                        before[j],
                        provider@,
                        generation,
                        now,
                    ),
                forall|j: int| i <= j < before.len() ==> #[trigger] self.prompts@[j] == before[j],
            decreases before.len() - i,
        {
            let constrained: bool = match self.prompts[i].cooldown_generation {
                Some(current) => current == generation,
                None => false,
            };
            if self.prompts[i].job.prompt.model.provider == *provider && constrained {
                let jittered: Moment = cooldown_due_for_job(now, &self.prompts[i].job);
                let entry = &mut self.prompts[i];
                entry.cooldown_generation = None;
                entry.due = entry.independent_due.max(jittered);
            }
            i = i + 1;
        }
        assert(self.prompts@ =~= released(before, provider@, generation, now));
        proof {
            release_keeps_ownership(before, provider@, generation, now, self.sequence);
        }
    }

    /// Number of logical prompts currently parked outside the worker pool.
    pub fn len(&self) -> (res: usize)
        ensures
            res == self@.len(),
    {
        self.prompts.len()
    }

    /// The entry at position `i` of the arrival order.
    pub fn entry(&self, i: usize) -> (res: &ScheduledPrompt)
        requires
            i < self@.len(),
        ensures
            *res == self@[i as int],
    {
        &self.prompts[i]
    }
}

/// Some deadline has arrived.
pub open spec fn is_due(prompts: Seq<ScheduledPrompt>, now: Moment) -> bool {
    exists|i: int| 0 <= i < prompts.len() && (#[trigger] prompts[i]).due.nanos <= now.nanos
}

/// The entries without the one that owns `prompt_id`.
pub open spec fn without(prompts: Seq<ScheduledPrompt>, prompt_id: Seq<char>) -> Seq<
    ScheduledPrompt,
> {
    if parked(prompts, prompt_id) {
        prompts.remove(parked_index(prompts, prompt_id))
    } else {
        prompts
    }
}

/// The job of the entry that owns `prompt_id`.
pub open spec fn canceled_job(prompts: Seq<ScheduledPrompt>, prompt_id: Seq<char>) -> Option<
    PromptJob,
> {
    if parked(prompts, prompt_id) {
        Some(prompts[parked_index(prompts, prompt_id)].job)
    } else {
        None
    }
}

proof fn lemma_removal_keeps_order(prompts: Seq<ScheduledPrompt>, i: int, last: u64)
    requires
        unique_prompts(prompts),
        in_arrival_order(prompts, last),
        0 <= i < prompts.len(),
    ensures
        unique_prompts(prompts.remove(i)),
        in_arrival_order(prompts.remove(i), last),
{
    let after = prompts.remove(i);
    assert forall|x: int, y: int| 0 <= x < y < after.len() implies (
    #[trigger] after[x]).job.agent_prompt_id@ != (#[trigger] after[y]).job.agent_prompt_id@ && (
    after[x].sequence < after[y].sequence || after[y].sequence == u64::MAX) by {
        let x2 = if x < i {
            x
        } else {
            x + 1
        };
        let y2 = if y < i {
            y
        } else {
            y + 1
        };
        assert(after[x] == prompts[x2]);
        assert(after[y] == prompts[y2]);
    }
    assert forall|x: int| 0 <= x < after.len() implies (#[trigger] after[x]).sequence <= last by {
        let x2 = if x < i {
            x
        } else {
            x + 1
        };
        assert(after[x] == prompts[x2]);
    }
}

/// Removal is exclusive: whichever of the timer, a manual release, and a cancellation takes a
/// prompt first, no entry is left for the others.
pub proof fn removal_is_exclusive(prompts: Seq<ScheduledPrompt>, i: int)
    requires
        unique_prompts(prompts),
        0 <= i < prompts.len(),
    ensures
        !parked(prompts.remove(i), prompts[i].job.agent_prompt_id@),
        canceled_job(prompts.remove(i), prompts[i].job.agent_prompt_id@) is None,
{
    let id = prompts[i].job.agent_prompt_id@;
    assert forall|j: int| !#[trigger] parked_at(prompts.remove(i), id, j) by {
        if parked_at(prompts.remove(i), id, j) {
            let k = if j < i {
                j
            } else {
                j + 1
            };
            assert(prompts.remove(i)[j] == prompts[k]);
            assert(prompts[k].job.agent_prompt_id@ == prompts[i].job.agent_prompt_id@);
        }
    }
}

/// A second cancellation of one prompt finds nothing and changes nothing.
pub proof fn cancel_moves_exactly_one_job(prompts: Seq<ScheduledPrompt>, prompt_id: Seq<char>)
    requires
        unique_prompts(prompts),
    ensures
        canceled_job(without(prompts, prompt_id), prompt_id) is None,
        without(without(prompts, prompt_id), prompt_id) == without(prompts, prompt_id),
{
    if parked(prompts, prompt_id) {
        let i = parked_index(prompts, prompt_id);
        assert(parked_at(prompts, prompt_id, i));
        removal_is_exclusive(prompts, i);
    }
}

/// Newer evidence moves deadlines only, and only later: every prompt keeps its owner and place,
/// other providers are untouched, a matching prompt waits at least for its own eligibility and for
/// the jittered boundary, and no deadline moves earlier.
pub proof fn extension_keeps_ownership(
    prompts: Seq<ScheduledPrompt>,
    provider: Seq<char>,
    due: Moment,
    generation: u64,
    last: u64,
)
    requires
        unique_prompts(prompts),
        in_arrival_order(prompts, last),
    ensures
        unique_prompts(extended(prompts, provider, due, generation)),
        in_arrival_order(extended(prompts, provider, due, generation), last),
        jobs(extended(prompts, provider, due, generation)) == jobs(prompts),
        forall|i: int|
            0 <= i < prompts.len() ==> (#[trigger] prompts[i]).due.nanos <= extended(
                prompts,
                provider,
                due,
                generation,
            )[i].due.nanos,
        forall|i: int|
            0 <= i < prompts.len() ==> {
                let before = #[trigger] prompts[i];
                let after = extended(prompts, provider, due, generation)[i];
                &&& before.job.prompt.model.provider@ != provider ==> after == before
                &&& before.job.prompt.model.provider@ == provider ==> {
                    &&& after.cooldown_generation == Some(generation)
                    &&& after.independent_due.nanos <= after.due.nanos
                    &&& cooldown_due(due, before.job).nanos <= after.due.nanos
                }
            },
{
    let after = extended(prompts, provider, due, generation);
    assert(jobs(after) =~= jobs(prompts));
    assert forall|x: int, y: int| 0 <= x < y < after.len() implies (
    #[trigger] after[x]).job.agent_prompt_id@ != (#[trigger] after[y]).job.agent_prompt_id@ && (
    after[x].sequence < after[y].sequence || after[y].sequence == u64::MAX) by {
        assert(prompts[x].job.agent_prompt_id@ != prompts[y].job.agent_prompt_id@);
    }
    assert forall|x: int| 0 <= x < after.len() implies (#[trigger] after[x]).sequence <= last by {
        assert(prompts[x].sequence <= last);
    }
}

/// A successful probe releases only prompts of its provider and exact generation, each strictly
/// prompt-owned as before and never before its own eligibility.
pub proof fn release_keeps_ownership(
    prompts: Seq<ScheduledPrompt>,
    provider: Seq<char>,
    generation: u64,
    now: Moment,
    last: u64,
)
    requires
        unique_prompts(prompts),
        in_arrival_order(prompts, last),
    ensures
        unique_prompts(released(prompts, provider, generation, now)),
        in_arrival_order(released(prompts, provider, generation, now), last),
        jobs(released(prompts, provider, generation, now)) == jobs(prompts),
        forall|i: int|
            0 <= i < prompts.len() ==> {
                let before = #[trigger] prompts[i];
                let after = released(prompts, provider, generation, now)[i];
                let matches = before.job.prompt.model.provider@ == provider
                    && before.cooldown_generation == Some(generation);
                &&& !matches ==> after == before
                &&& matches ==> {
                    &&& after.cooldown_generation is None
                    &&& after.independent_due == before.independent_due
                    &&& before.independent_due.nanos <= after.due.nanos
                    &&& cooldown_due(now, before.job).nanos <= after.due.nanos
                }
            },
{
    let after = released(prompts, provider, generation, now);
    assert(jobs(after) =~= jobs(prompts));
    assert forall|x: int, y: int| 0 <= x < y < after.len() implies (
    #[trigger] after[x]).job.agent_prompt_id@ != (#[trigger] after[y]).job.agent_prompt_id@ && (
    after[x].sequence < after[y].sequence || after[y].sequence == u64::MAX) by {
        assert(prompts[x].job.agent_prompt_id@ != prompts[y].job.agent_prompt_id@);
    }
    assert forall|x: int| 0 <= x < after.len() implies (#[trigger] after[x]).sequence <= last by {
        assert(prompts[x].sequence <= last);
    }
}

/// One atomic scheduler mutation.
pub enum SchedulerCommand {
    /// Parks one logical prompt.
    Schedule {
        /// Prompt-local eligibility before shared provider policy.
        independent_due: Moment,
        /// Optional shared provider constraint applied at insertion.
        cooldown: Option<CooldownConstraint>,
        job: PromptJob,
    },
    /// Cancels one logical prompt.
    Cancel(String),
    /// Cancels every logical prompt.
    CancelAll,
    /// Releases one prompt at its user's request.
    RetryNow { request_id: String, agent_prompt_id: String },
    /// Installs newer shared evidence.
    ExtendCooldown { provider: String, due: Moment, generation: u64 },
    /// Removes one exact shared-cooldown generation.
    ReleaseCooldown {
        provider: String,
        generation: u64,
        /// Release instant used as the anti-herd jitter boundary.
        now: Moment,
    },
    /// Interrupts a timer wait after the clock advanced.
    Wake,
}

/// One deterministic output produced by a scheduler mutation.
#[allow(inconsistent_fields)]
pub enum RetrySchedulerAction {
    /// A delayed job became eligible.
    Due(PromptJob),
    /// A delayed job was canceled, with the ownership-count adjustment.
    Canceled {
        /// Logical job whose terminal cancellation must be emitted.
        job: PromptJob,
        /// Number of delayed ownership entries consumed.
        delayed_count: usize,
    },
    /// Result of an exact manual ownership transfer.
    Manual {
        /// Transferred job, or `None` when it was not parked.
        job: Option<PromptJob>,
        request_id: String,
        agent_prompt_id: String,
    },
}

/// The entries after one command.
pub open spec fn stepped(
    prompts: Seq<ScheduledPrompt>,
    last: u64,
    command: SchedulerCommand,
) -> Seq<ScheduledPrompt> {
    match command {
        SchedulerCommand::Schedule { independent_due, cooldown, job } => if parked(
            prompts,
            job.agent_prompt_id@,
        ) {
            without(prompts, job.agent_prompt_id@)
        } else {
            prompts.push(scheduled_entry(independent_due, cooldown, next_sequence(last), job))
        },
        SchedulerCommand::Cancel(prompt_id) => without(prompts, prompt_id@),
        SchedulerCommand::CancelAll => Seq::empty(),
        SchedulerCommand::RetryNow { agent_prompt_id, .. } => without(prompts, agent_prompt_id@),
        SchedulerCommand::ExtendCooldown { provider, due, generation } => extended(
            prompts,
            provider@,
            due,
            generation,
        ),
        SchedulerCommand::ReleaseCooldown { provider, generation, now } => released(
            prompts,
            provider@,
            generation,
            now,
        ),
        SchedulerCommand::Wake => prompts,
    }
}

/// The last arrival ordinal after one command.
pub open spec fn stepped_sequence(
    prompts: Seq<ScheduledPrompt>,
    last: u64,
    command: SchedulerCommand,
) -> u64 {
    match command {
        SchedulerCommand::Schedule { job, .. } => if parked(prompts, job.agent_prompt_id@) {
            last
        } else {
            next_sequence(last)
        },
        _ => last,
    }
}

/// One cancellation action per job.
pub open spec fn cancellations(jobs: Seq<PromptJob>) -> Seq<RetrySchedulerAction> {
    Seq::new(jobs.len(), |i: int| RetrySchedulerAction::Canceled { job: jobs[i], delayed_count: 1 })
}

/// The actions of one command. A duplicate schedule cancels the original once and accounts for
/// both ownership entries.
pub open spec fn step_actions(prompts: Seq<ScheduledPrompt>, command: SchedulerCommand) -> Seq<
    RetrySchedulerAction,
> {
    match command {
        SchedulerCommand::Schedule { job, .. } => match canceled_job(
            prompts,
            job.agent_prompt_id@,
        ) {
            Some(original) => seq![
                RetrySchedulerAction::Canceled { job: original, delayed_count: 2 },
            ],
            None => Seq::empty(),
        },
        SchedulerCommand::Cancel(prompt_id) => match canceled_job(prompts, prompt_id@) {
            Some(job) => seq![RetrySchedulerAction::Canceled { job, delayed_count: 1 }],
            None => Seq::empty(),
        },
        SchedulerCommand::CancelAll => cancellations(jobs(prompts)),
        SchedulerCommand::RetryNow { request_id, agent_prompt_id } => seq![
            RetrySchedulerAction::Manual {
                job: canceled_job(prompts, agent_prompt_id@),
                request_id,
                agent_prompt_id,
            },
        ],
        _ => Seq::empty(),
    }
}

/// The entries that no deadline up to `now` releases.
pub open spec fn advanced(prompts: Seq<ScheduledPrompt>, now: Moment) -> Seq<ScheduledPrompt>
    decreases prompts.len(),
{
    if is_due(prompts, now) && is_earliest(prompts, earliest(prompts)) {
        advanced(prompts.remove(earliest(prompts)), now)
    } else {
        prompts
    }
}

/// The releases of every deadline up to `now`, earliest first.
pub open spec fn advance_actions(prompts: Seq<ScheduledPrompt>, now: Moment) -> Seq<
    RetrySchedulerAction,
>
    decreases prompts.len(),
{
    if is_due(prompts, now) && is_earliest(prompts, earliest(prompts)) {
        seq![RetrySchedulerAction::Due(prompts[earliest(prompts)].job)] + advance_actions(
            prompts.remove(earliest(prompts)),
            now,
        )
    } else {
        Seq::empty()
    }
}

/// The job that an action hands over.
pub open spec fn action_job(action: RetrySchedulerAction) -> Option<PromptJob> {
    match action {
        RetrySchedulerAction::Due(job) => Some(job),
        RetrySchedulerAction::Canceled { job, .. } => Some(job),
        RetrySchedulerAction::Manual { job, .. } => job,
    }
}

/// The jobs that some actions hand over, in order.
pub open spec fn action_jobs(actions: Seq<RetrySchedulerAction>) -> Seq<PromptJob>
    decreases actions.len(),
{
    if actions.len() == 0 {
        Seq::empty()
    } else {
        let rest = action_jobs(actions.drop_first());
        match action_job(actions[0]) {
            Some(job) => seq![job] + rest,
            None => rest,
        }
    }
}

/// Advancing time conserves ownership: every parked job is either released or still parked,
/// exactly once, and nothing due stays parked.
pub proof fn advance_conserves_ownership(prompts: Seq<ScheduledPrompt>, now: Moment)
    ensures
        jobs(prompts).to_multiset() == action_jobs(
            advance_actions(prompts, now),
        ).to_multiset().add(jobs(advanced(prompts, now)).to_multiset()),
        !is_due(advanced(prompts, now), now),
    decreases prompts.len(),
{
    broadcast use vstd::multiset::group_multiset_axioms;

    if is_due(prompts, now) {
        lemma_earliest_exists(prompts);
    }
    if is_due(prompts, now) && is_earliest(prompts, earliest(prompts)) {
        let i = earliest(prompts);
        let rest = prompts.remove(i);
        advance_conserves_ownership(rest, now);
        let released = advance_actions(prompts, now);
        assert(released.drop_first() =~= advance_actions(rest, now));
        assert(action_jobs(released) == seq![prompts[i].job] + action_jobs(
            advance_actions(rest, now),
        ));
        let job = prompts[i].job;
        let later_jobs = action_jobs(advance_actions(rest, now));
        assert(jobs(prompts) =~= jobs(rest).insert(i, job));
        assert(action_jobs(released) =~= later_jobs.insert(0, job));
        vstd::seq_lib::to_multiset_insert(jobs(rest), i, job);
        vstd::seq_lib::to_multiset_insert(later_jobs, 0, job);
        assert(jobs(prompts).to_multiset() =~= action_jobs(released).to_multiset().add(
            jobs(advanced(prompts, now)).to_multiset(),
        ));
    } else {
        Seq::<PromptJob>::empty().to_multiset_ensures();
        assert(jobs(prompts).to_multiset() =~= action_jobs(
            advance_actions(prompts, now),
        ).to_multiset().add(jobs(advanced(prompts, now)).to_multiset()));
    }
}

/// The job that a command parks.
pub open spec fn newly_parked(prompts: Seq<ScheduledPrompt>, command: SchedulerCommand) -> Seq<
    PromptJob,
> {
    match command {
        SchedulerCommand::Schedule { job, .. } => if parked(prompts, job.agent_prompt_id@) {
            Seq::empty()
        } else {
            seq![job]
        },
        _ => Seq::empty(),
    }
}

proof fn lemma_cancellation_jobs(all: Seq<PromptJob>)
    ensures
        action_jobs(cancellations(all)) == all,
    decreases all.len(),
{
    if all.len() > 0 {
        lemma_cancellation_jobs(all.drop_first());
        assert(cancellations(all).drop_first() =~= cancellations(all.drop_first()));
        assert(seq![all[0]] + all.drop_first() =~= all);
    } else {
        assert(action_jobs(cancellations(all)) =~= all);
    }
}

proof fn lemma_taken(prompts: Seq<ScheduledPrompt>, prompt_id: Seq<char>)
    requires
        parked(prompts, prompt_id),
    ensures
        jobs(prompts).to_multiset() == seq![
            canceled_job(prompts, prompt_id)->0,
        ].to_multiset().add(jobs(without(prompts, prompt_id)).to_multiset()),
{
    broadcast use vstd::multiset::group_multiset_axioms;

    let i = parked_index(prompts, prompt_id);
    assert(parked_at(prompts, prompt_id, i));
    let job = prompts[i].job;
    let rest = jobs(without(prompts, prompt_id));
    assert(jobs(prompts) =~= rest.insert(i, job));
    vstd::seq_lib::to_multiset_insert(rest, i, job);
    Seq::<PromptJob>::empty().to_multiset_ensures();
    assert(seq![job] =~= Seq::<PromptJob>::empty().insert(0, job));
    vstd::seq_lib::to_multiset_insert(Seq::<PromptJob>::empty(), 0, job);
    assert(jobs(prompts).to_multiset() =~= seq![job].to_multiset().add(rest.to_multiset()));
}

/// Every command conserves ownership: what was parked, and what it parks, is afterwards either
/// handed over or parked, exactly once.
pub proof fn step_conserves_ownership(
    prompts: Seq<ScheduledPrompt>,
    last: u64,
    command: SchedulerCommand,
)
    ensures
        jobs(prompts).to_multiset().add(newly_parked(prompts, command).to_multiset())
            == action_jobs(step_actions(prompts, command)).to_multiset().add(
            jobs(stepped(prompts, last, command)).to_multiset(),
        ),
{
    broadcast use vstd::multiset::group_multiset_axioms;

    let actions = step_actions(prompts, command);
    let after = stepped(prompts, last, command);
    Seq::<PromptJob>::empty().to_multiset_ensures();
    reveal_with_fuel(action_jobs, 2);
    match command {
        SchedulerCommand::Schedule { job, .. } => {
            if parked(prompts, job.agent_prompt_id@) {
                lemma_taken(prompts, job.agent_prompt_id@);
                assert(action_jobs(actions) =~= seq![
                    canceled_job(prompts, job.agent_prompt_id@)->0,
                ]);
            } else {
                assert(jobs(after) =~= jobs(prompts).insert(prompts.len() as int, job));
                vstd::seq_lib::to_multiset_insert(jobs(prompts), prompts.len() as int, job);
                assert(seq![job] =~= Seq::<PromptJob>::empty().insert(0, job));
                vstd::seq_lib::to_multiset_insert(Seq::<PromptJob>::empty(), 0, job);
            }
        },
        SchedulerCommand::Cancel(prompt_id) => {
            if parked(prompts, prompt_id@) {
                lemma_taken(prompts, prompt_id@);
                assert(action_jobs(actions) =~= seq![canceled_job(prompts, prompt_id@)->0]);
            }
        },
        SchedulerCommand::CancelAll => {
            lemma_cancellation_jobs(jobs(prompts));
            assert(jobs(after) =~= Seq::<PromptJob>::empty());
        },
        SchedulerCommand::RetryNow { agent_prompt_id, .. } => {
            if parked(prompts, agent_prompt_id@) {
                lemma_taken(prompts, agent_prompt_id@);
                assert(action_jobs(actions) =~= seq![canceled_job(prompts, agent_prompt_id@)->0]);
            } else {
                assert(action_jobs(actions) =~= Seq::<PromptJob>::empty());
            }
        },
        _ => {
            assert(jobs(after) =~= jobs(prompts));
        },
    }
    assert(jobs(prompts).to_multiset().add(newly_parked(prompts, command).to_multiset())
        =~= action_jobs(actions).to_multiset().add(jobs(after).to_multiset()));
}

/// The ownership entries that an action consumes.
pub open spec fn consumed(action: RetrySchedulerAction) -> int {
    match action {
        RetrySchedulerAction::Due(_) => 1,
        RetrySchedulerAction::Canceled { delayed_count, .. } => delayed_count as int,
        RetrySchedulerAction::Manual { job, .. } => if job is Some {
            1
        } else {
            0
        },
    }
}

/// The ownership entries that some actions consume.
pub open spec fn consumed_by(actions: Seq<RetrySchedulerAction>) -> int
    decreases actions.len(),
{
    if actions.len() == 0 {
        0
    } else {
        consumed(actions[0]) + consumed_by(actions.drop_first())
    }
}

proof fn lemma_cancellations_consume(all: Seq<PromptJob>)
    ensures
        consumed_by(cancellations(all)) == all.len(),
    decreases all.len(),
{
    if all.len() > 0 {
        lemma_cancellations_consume(all.drop_first());
        assert(cancellations(all).drop_first() =~= cancellations(all.drop_first()));
    }
}

/// The delayed count stays exact: a command that adds one entry to it, and the actions that take
/// entries off it, leave as many as are parked. A duplicate schedule takes off both.
pub proof fn step_accounts_for_delayed_work(
    prompts: Seq<ScheduledPrompt>,
    last: u64,
    command: SchedulerCommand,
)
    ensures
        stepped(prompts, last, command).len() == prompts.len() + if command is Schedule {
            1int
        } else {
            0int
        } - consumed_by(step_actions(prompts, command)),
{
    reveal_with_fuel(consumed_by, 2);
    match command {
        SchedulerCommand::Schedule { job, .. } => {
            if parked(prompts, job.agent_prompt_id@) {
                let i = parked_index(prompts, job.agent_prompt_id@);
                assert(parked_at(prompts, job.agent_prompt_id@, i));
            }
        },
        SchedulerCommand::Cancel(prompt_id) => {
            if parked(prompts, prompt_id@) {
                assert(parked_at(prompts, prompt_id@, parked_index(prompts, prompt_id@)));
            }
        },
        SchedulerCommand::RetryNow { agent_prompt_id, .. } => {
            if parked(prompts, agent_prompt_id@) {
                let i = parked_index(prompts, agent_prompt_id@);
                assert(parked_at(prompts, agent_prompt_id@, i));
            }
        },
        SchedulerCommand::CancelAll => {
            lemma_cancellations_consume(jobs(prompts));
        },
        _ => {},
    }
}

/// A timer boundary reached no later than `admitted_at` precedes the command.
pub open spec fn timer_precedes(
    prompts: Seq<ScheduledPrompt>,
    admitted_at: Moment,
    command: SchedulerCommand,
) -> bool {
    command !is Wake && is_due(prompts, admitted_at)
}

/// Synchronous single-owner retry scheduler state.
pub struct RetrySchedulerState {
    pub queue: RetryScheduleQueue,
}

impl RetrySchedulerState {
    /// A scheduler that owns nothing.
    pub fn new() -> (res: Self)
        ensures
            res.queue.wf(),
            res.queue@ == Seq::<ScheduledPrompt>::empty(),
            res.queue.last_sequence() == 0,
    {
        RetrySchedulerState { queue: RetryScheduleQueue::new() }
    }

    /// Applies one command atomically and returns all immediate ownership actions.
    pub fn step(&mut self, command: SchedulerCommand) -> (res: Vec<RetrySchedulerAction>)
        requires
            old(self).queue.wf(),
        ensures
            final(self).queue.wf(),
            final(self).queue@ == stepped(
                old(self).queue@,
                old(self).queue.last_sequence(),
                command,
            ),
            final(self).queue.last_sequence() == stepped_sequence(
                old(self).queue@,
                old(self).queue.last_sequence(),
                command,
            ),
            res@ == step_actions(old(self).queue@, command),
    {
        let ghost prompts = self.queue@;
        let mut actions: Vec<RetrySchedulerAction> = Vec::new();
        match command {
            SchedulerCommand::Schedule { independent_due, cooldown, job } => {
                match self.queue.schedule(independent_due, cooldown, job) {
                    Ok(()) => {},
                    Err(duplicate) => {
                        if let Some(original) = self.queue.cancel(&duplicate.agent_prompt_id) {
                            actions.push(
                                RetrySchedulerAction::Canceled { job: original, delayed_count: 2 },
                            );
                        }
                    },
                }
            },
            SchedulerCommand::Cancel(prompt_id) => {
                if let Some(job) = self.queue.cancel(&prompt_id) {
                    actions.push(RetrySchedulerAction::Canceled { job, delayed_count: 1 });
                }
            },
            SchedulerCommand::CancelAll => {
                let mut canceled = self.queue.cancel_all();
                let ghost all = canceled@;
                assert(all.skip(0) =~= all);
                while canceled.len() > 0
                    invariant
                        all == jobs(prompts),
                        actions@.len() + canceled@.len() == all.len(),
                        canceled@ == all.skip(actions@.len() as int),
                        actions@ == cancellations(all.take(actions@.len() as int)),
                    decreases canceled@.len(),
                {
                    let ghost n = actions@.len() as int;
                    let job = canceled.remove(0);
                    assert(job == all[n]);
                    actions.push(RetrySchedulerAction::Canceled { job, delayed_count: 1 });
                    assert(canceled@ =~= all.skip(n + 1));
                    assert(actions@ =~= cancellations(all.take(n + 1)));
                }
                assert(all.take(all.len() as int) =~= all);
            },
            SchedulerCommand::RetryNow { request_id, agent_prompt_id } => {
                let job = self.queue.cancel(&agent_prompt_id);
                actions.push(RetrySchedulerAction::Manual { job, request_id, agent_prompt_id });
            },
            SchedulerCommand::ExtendCooldown { provider, due, generation } => {
                self.queue.extend_cooldown(&provider, due, generation);
            },
            SchedulerCommand::ReleaseCooldown { provider, generation, now } => {
                self.queue.release_cooldown(&provider, generation, now);
            },
            SchedulerCommand::Wake => {},
        }
        assert(actions@ =~= step_actions(prompts, command));
        actions
    }

    /// Orders one timestamped mailbox command against the current timer boundary, independent of
    /// when the actor processes it.
    pub fn step_mailbox(&mut self, admitted_at: Moment, command: SchedulerCommand) -> (res: Vec<
        RetrySchedulerAction,
    >)
        requires
            old(self).queue.wf(),
        ensures
            final(self).queue.wf(),
            timer_precedes(old(self).queue@, admitted_at, command) ==> {
                let ready = advanced(old(self).queue@, admitted_at);
                &&& final(self).queue@ == stepped(ready, old(self).queue.last_sequence(), command)
                &&& final(self).queue.last_sequence() == stepped_sequence(
                    ready,
                    old(self).queue.last_sequence(),
                    command,
                )
                &&& res@ == advance_actions(old(self).queue@, admitted_at) + step_actions(
                    ready,
                    command,
                )
            },
            !timer_precedes(old(self).queue@, admitted_at, command) ==> {
                &&& final(self).queue@ == stepped(
                    old(self).queue@,
                    old(self).queue.last_sequence(),
                    command,
                )
                &&& final(self).queue.last_sequence() == stepped_sequence(
                    old(self).queue@,
                    old(self).queue.last_sequence(),
                    command,
                )
                &&& res@ == step_actions(old(self).queue@, command)
            },
    {
        let wake: bool = match &command {
            SchedulerCommand::Wake => true,
            _ => false,
        };
        let timer_first: bool = !wake && match self.next_due() {
            Some(deadline) => deadline.nanos <= admitted_at.nanos,
            None => false,
        };
        proof {
            if timer_first {
                assert(self.queue@[earliest(self.queue@)].due.nanos <= admitted_at.nanos);
            } else if !wake && is_due(self.queue@, admitted_at) {
                let i = choose|i: int|
                    0 <= i < self.queue@.len() && (#[trigger] self.queue@[i]).due.nanos
                        <= admitted_at.nanos;
                assert(self.queue@[earliest(self.queue@)].due.nanos <= self.queue@[i].due.nanos);
            }
        }
        let mut actions: Vec<RetrySchedulerAction> = if timer_first {
            self.advance(admitted_at)
        } else {
            Vec::new()
        };
        let mut stepped = self.step(command);
        actions.append(&mut stepped);
        assert(Seq::<RetrySchedulerAction>::empty() + stepped@ =~= stepped@);
        actions
    }

    /// Advances supplied time and returns every newly eligible job.
    pub fn advance(&mut self, now: Moment) -> (res: Vec<RetrySchedulerAction>)
        requires
            old(self).queue.wf(),
        ensures
            final(self).queue.wf(),
            final(self).queue.last_sequence() == old(self).queue.last_sequence(),
            final(self).queue@ == advanced(old(self).queue@, now),
            res@ == advance_actions(old(self).queue@, now),
            !is_due(final(self).queue@, now),
    {
        let mut actions: Vec<RetrySchedulerAction> = Vec::new();
        let ghost all = advance_actions(self.queue@, now);
        assert(actions@ + all =~= all);
        loop
            invariant
                self.queue.wf(),
                self.queue.last_sequence() == old(self).queue.last_sequence(),
                advanced(self.queue@, now) == advanced(old(self).queue@, now),
                actions@ + advance_actions(self.queue@, now) == all,
            ensures
                !is_due(self.queue@, now),
            decreases self.queue@.len(),
        {
            let ghost before = self.queue@;
            match self.queue.pop_due(now) {
                Some(job) => {
                    actions.push(RetrySchedulerAction::Due(job));
                    assert(actions@ + advance_actions(self.queue@, now) =~= all);
                },
                None => {
                    break;
                },
            }
        }
        assert(actions@ + Seq::<RetrySchedulerAction>::empty() =~= actions@);
        actions
    }

    /// Returns the next timer boundary.
    pub fn next_due(&self) -> (res: Option<Moment>)
        ensures
            match res {
                Some(due) => is_earliest(self.queue@, earliest(self.queue@)) && due
                    == self.queue@[earliest(self.queue@)].due,
                None => self.queue@.len() == 0,
            },
    {
        self.queue.next_due()
    }
}

/// How long to wait for the next due instant: not at all once it has passed; `None` without one.
pub fn wait_until(due: Option<Moment>, now: Moment) -> (res: Option<Span>)
    ensures
        res == match due {
            Some(due) => Some(due.since(now)),
            None => None,
        },
{
    match due {
        Some(due) => Some(due.saturating_duration_since(now)),
        None => None,
    }
}

/// A parked prompt waits for its own time and, under a shared boundary, strictly past it, by at
/// most five seconds; without one it waits for nothing else.
pub proof fn parked_prompt_waits_for_both(
    prompts: Seq<ScheduledPrompt>,
    last: u64,
    independent_due: Moment,
    cooldown: Option<CooldownConstraint>,
    job: PromptJob,
)
    requires
        forall|i: int|
            0 <= i < prompts.len() ==> (#[trigger] prompts[i]).job.agent_prompt_id@
                != job.agent_prompt_id@,
        cooldown matches Some(constraint) ==> constraint.boundary.nanos + 5_000_000_000
            <= 9_223_372_036_854_775_807_999_999_999,
    ensures
        ({
            let command = SchedulerCommand::Schedule { independent_due, cooldown, job };
            let after = stepped(prompts, last, command);
            let entry = after.last();
            &&& after.len() == prompts.len() + 1
            &&& after.drop_last() == prompts
            &&& entry.job == job
            &&& entry.independent_due == independent_due
            &&& independent_due.nanos <= entry.due.nanos
            &&& last < u64::MAX ==> entry.sequence == last + 1 && stepped_sequence(
                prompts,
                last,
                command,
            ) == last + 1
            &&& match cooldown {
                None => entry.due == independent_due && entry.cooldown_generation is None,
                Some(constraint) => {
                    &&& entry.cooldown_generation == Some(constraint.generation)
                    &&& constraint.boundary.nanos < entry.due.nanos
                    &&& entry.due == independent_due || entry.due.nanos
                        <= constraint.boundary.nanos + 5_000_000_000
                },
            }
            &&& step_actions(prompts, command).len() == 0
        }),
{
    assert(!parked(prompts, job.agent_prompt_id@)) by {
        if parked(prompts, job.agent_prompt_id@) {
            let i = choose|i: int| #[trigger] parked_at(prompts, job.agent_prompt_id@, i);
            assert(prompts[i].job.agent_prompt_id@ == job.agent_prompt_id@);
        }
    }
    if let Some(constraint) = cooldown {
        jitter_is_small_and_positive(
            job.agent_prompt_id@,
            next_attempt(job.retry_state.attempts),
        );
    }
    let command = SchedulerCommand::Schedule { independent_due, cooldown, job };
    assert(stepped(prompts, last, command).drop_last() =~= prompts);
}

/// What was not due stays parked as it was: the passing of time takes nothing early.
pub proof fn nothing_is_released_early(
    prompts: Seq<ScheduledPrompt>,
    now: Moment,
    entry: ScheduledPrompt,
)
    requires
        prompts.contains(entry),
        now.nanos < entry.due.nanos,
    ensures
        advanced(prompts, now).contains(entry),
    decreases prompts.len(),
{
    if is_due(prompts, now) && is_earliest(prompts, earliest(prompts)) {
        let first = earliest(prompts);
        let i = prompts.index_of(entry);
        let due = choose|d: int| 0 <= d < prompts.len() && (#[trigger] prompts[d]).due.nanos
            <= now.nanos;
        assert(prompts[first].due.nanos <= prompts[due].due.nanos);
        assert(i != first);
        let rest = prompts.remove(first);
        if i < first {
            assert(rest[i] == entry);
        } else {
            assert(rest[i - 1] == entry);
        }
        nothing_is_released_early(rest, now, entry);
    }
}

/// Due prompts are released in the order of their times, equal ones in the order of their arrival:
/// an entry that no other is due before, and no earlier arrival is due with, goes first.
pub proof fn earliest_is_released_first(prompts: Seq<ScheduledPrompt>, now: Moment, first: int)
    requires
        0 <= first < prompts.len(),
        prompts[first].due.nanos <= now.nanos,
        forall|j: int|
            0 <= j < prompts.len() ==> prompts[first].due.nanos <= (#[trigger] prompts[j]).due.nanos,
        forall|j: int|
            0 <= j < first ==> prompts[first].due.nanos < (#[trigger] prompts[j]).due.nanos,
    ensures
        advance_actions(prompts, now).len() > 0,
        advance_actions(prompts, now)[0] == RetrySchedulerAction::Due(prompts[first].job),
        advance_actions(prompts, now).drop_first() == advance_actions(prompts.remove(first), now),
{
    assert(is_due(prompts, now));
    assert(is_earliest(prompts, first));
    earliest_is_unique(prompts, first);
    let rest = advance_actions(prompts.remove(first), now);
    assert(advance_actions(prompts, now) == seq![RetrySchedulerAction::Due(prompts[first].job)]
        + rest);
    assert(advance_actions(prompts, now).drop_first() =~= rest);
}

/// New evidence moves a prompt of its provider no further than it must: to at most five seconds
/// past the new boundary, or not at all. Its job and its place stay.
pub proof fn extension_moves_no_further(
    entry: ScheduledPrompt,
    provider: Seq<char>,
    due: Moment,
    generation: u64,
)
    requires
        entry.independent_due.nanos <= entry.due.nanos,
        due.nanos + 5_000_000_000 <= 9_223_372_036_854_775_807_999_999_999,
    ensures
        ({
            let after = extended_entry(entry, provider, due, generation);
            &&& after.job == entry.job
            &&& after.sequence == entry.sequence
            &&& entry.due.nanos <= after.due.nanos
            &&& after.due == entry.due || after.due.nanos <= due.nanos + 5_000_000_000
            &&& entry.job.prompt.model.provider@ == provider ==> due.nanos < after.due.nanos
                && after.cooldown_generation == Some(generation)
            &&& entry.job.prompt.model.provider@ == provider && entry.cooldown_generation is Some
                ==> after.independent_due == entry.independent_due
            &&& entry.job.prompt.model.provider@ == provider && entry.cooldown_generation is None
                ==> after.independent_due == entry.due
            &&& entry.job.prompt.model.provider@ != provider ==> after == entry
        }),
{
    jitter_is_small_and_positive(
        entry.job.agent_prompt_id@,
        next_attempt(entry.job.retry_state.attempts),
    );
}

/// Lifting exactly the boundary that held a prompt lets it go at its own time, or shortly after
/// the lifting when that has passed; a prompt held by another generation stays held.
pub proof fn release_returns_to_the_own_time(
    entry: ScheduledPrompt,
    provider: Seq<char>,
    generation: u64,
    now: Moment,
)
    requires
        now.nanos + 5_000_000_000 <= 9_223_372_036_854_775_807_999_999_999,
    ensures
        ({
            let after = released_entry(entry, provider, generation, now);
            let held = entry.job.prompt.model.provider@ == provider && entry.cooldown_generation
                == Some(generation);
            &&& after.job == entry.job
            &&& after.sequence == entry.sequence
            &&& after.independent_due == entry.independent_due
            &&& held ==> {
                &&& after.cooldown_generation is None
                &&& now.nanos < after.due.nanos
                &&& entry.independent_due.nanos <= after.due.nanos
                &&& after.due == entry.independent_due || after.due.nanos <= now.nanos
                    + 5_000_000_000
            }
            &&& !held ==> after == entry
        }),
{
    jitter_is_small_and_positive(
        entry.job.agent_prompt_id@,
        next_attempt(entry.job.retry_state.attempts),
    );
}

/// A request for one prompt is answered about that prompt: a cancellation gives its job back, a
/// manual release hands its job over under the request's id, or says that there is none.
pub proof fn requests_find_their_prompt(
    prompts: Seq<ScheduledPrompt>,
    i: int,
    request_id: String,
    agent_prompt_id: String,
)
    requires
        unique_prompts(prompts),
    ensures
        0 <= i < prompts.len() && prompts[i].job.agent_prompt_id@ == agent_prompt_id@ ==> {
            &&& step_actions(prompts, SchedulerCommand::Cancel(agent_prompt_id)) == seq![
                RetrySchedulerAction::Canceled { job: prompts[i].job, delayed_count: 1 },
            ]
            &&& step_actions(
                prompts,
                SchedulerCommand::RetryNow { request_id, agent_prompt_id },
            ) == seq![
                RetrySchedulerAction::Manual {
                    job: Some(prompts[i].job),
                    request_id,
                    agent_prompt_id,
                },
            ]
            &&& stepped(prompts, 0, SchedulerCommand::Cancel(agent_prompt_id)) == prompts.remove(i)
            &&& stepped(prompts, 0, SchedulerCommand::RetryNow { request_id, agent_prompt_id })
                == prompts.remove(i)
        },
        (forall|j: int|
            0 <= j < prompts.len() ==> (#[trigger] prompts[j]).job.agent_prompt_id@
                != agent_prompt_id@) ==> {
            &&& step_actions(prompts, SchedulerCommand::Cancel(agent_prompt_id)).len() == 0
            &&& step_actions(
                prompts,
                SchedulerCommand::RetryNow { request_id, agent_prompt_id },
            ) == seq![RetrySchedulerAction::Manual { job: None, request_id, agent_prompt_id }]
            &&& stepped(prompts, 0, SchedulerCommand::Cancel(agent_prompt_id)) == prompts
            &&& stepped(prompts, 0, SchedulerCommand::RetryNow { request_id, agent_prompt_id })
                == prompts
        },
{
    let id = agent_prompt_id@;
    if 0 <= i < prompts.len() && prompts[i].job.agent_prompt_id@ == id {
        assert(parked_at(prompts, id, i));
        let found = parked_index(prompts, id);
        assert(parked_at(prompts, id, found));
        if found < i {
            assert(prompts[found].job.agent_prompt_id@ != prompts[i].job.agent_prompt_id@);
        } else if i < found {
            assert(prompts[i].job.agent_prompt_id@ != prompts[found].job.agent_prompt_id@);
        }
    }
    if forall|j: int|
        0 <= j < prompts.len() ==> (#[trigger] prompts[j]).job.agent_prompt_id@ != id {
        assert(!parked(prompts, id)) by {
            if parked(prompts, id) {
                let j = choose|j: int| #[trigger] parked_at(prompts, id, j);
                assert(prompts[j].job.agent_prompt_id@ == id);
            }
        }
    }
}

/// A prompt that is parked already is not parked twice: both claims on it end together, with the
/// job that was parked first.
pub proof fn duplicate_ends_both_claims(
    prompts: Seq<ScheduledPrompt>,
    last: u64,
    i: int,
    independent_due: Moment,
    cooldown: Option<CooldownConstraint>,
    job: PromptJob,
)
    requires
        unique_prompts(prompts),
        0 <= i < prompts.len(),
        prompts[i].job.agent_prompt_id@ == job.agent_prompt_id@,
    ensures
        stepped(prompts, last, SchedulerCommand::Schedule { independent_due, cooldown, job })
            == prompts.remove(i),
        step_actions(prompts, SchedulerCommand::Schedule { independent_due, cooldown, job })
            == seq![RetrySchedulerAction::Canceled { job: prompts[i].job, delayed_count: 2 }],
{
    requests_find_their_prompt(prompts, i, job.agent_prompt_id, job.agent_prompt_id);
    assert(parked_at(prompts, job.agent_prompt_id@, i));
}

/// A broadcast empties the queue and gives every job back once, in the order of arrival.
pub proof fn broadcast_gives_every_job_back(prompts: Seq<ScheduledPrompt>, last: u64, i: int)
    requires
        0 <= i < prompts.len(),
    ensures
        stepped(prompts, last, SchedulerCommand::CancelAll).len() == 0,
        step_actions(prompts, SchedulerCommand::CancelAll).len() == prompts.len(),
        step_actions(prompts, SchedulerCommand::CancelAll)[i] == (RetrySchedulerAction::Canceled {
            job: prompts[i].job,
            delayed_count: 1,
        }),
{
}

/// A prompt that is due when a command was admitted is released before the command is handled;
/// a mere wake-up releases nothing by itself.
pub proof fn due_prompts_precede_the_command(
    prompts: Seq<ScheduledPrompt>,
    admitted_at: Moment,
    command: SchedulerCommand,
    i: int,
)
    ensures
        command is Wake ==> !timer_precedes(prompts, admitted_at, command),
        !(command is Wake) && 0 <= i < prompts.len() && prompts[i].due.nanos <= admitted_at.nanos
            ==> timer_precedes(prompts, admitted_at, command),
        (forall|j: int|
            0 <= j < prompts.len() ==> admitted_at.nanos < (#[trigger] prompts[j]).due.nanos)
            ==> !timer_precedes(prompts, admitted_at, command),
{
}

} // verus!
