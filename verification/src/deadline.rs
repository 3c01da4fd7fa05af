//! Deadlines of correlated prompt credential requests.

use vstd::prelude::*;

use crate::clock::Moment;
use crate::names::NameTable;

verus! {

/// One correlated request deadline.
pub struct PromptCredentialDeadline {
    /// Absolute monotonic deadline.
    pub due: Moment,
    /// Correlation invalidated at the deadline.
    pub request_id: String,
}

/// Commands accepted by the deadline queue.
pub enum PromptCredentialDeadlineCommand {
    /// Arms one already-issued request.
    Schedule { request_id: String, due: Moment },
    /// Invalidates one deadline after a reply or prompt cancellation.
    Cancel(String),
    /// Invalidates every outstanding deadline during shutdown.
    CancelAll,
}

/// The deadline at `i` comes before the one at `j`: it is earlier, or armed first at the same time.
pub open spec fn precedes(deadlines: Seq<PromptCredentialDeadline>, i: int, j: int) -> bool {
    ||| deadlines[i].due.nanos < deadlines[j].due.nanos
    ||| deadlines[i].due.nanos == deadlines[j].due.nanos && i < j
}

/// `i` holds a deadline of `request_id`.
pub open spec fn armed_at(
    deadlines: Seq<PromptCredentialDeadline>,
    request_id: Seq<char>,
    i: int,
) -> bool {
    0 <= i < deadlines.len() && deadlines[i].request_id@ == request_id
}

/// `i` holds the deadline of `request_id` that comes before its other ones.
pub open spec fn is_leading(
    deadlines: Seq<PromptCredentialDeadline>,
    request_id: Seq<char>,
    i: int,
) -> bool {
    &&& armed_at(deadlines, request_id, i)
    &&& forall|j: int| #[trigger]
        armed_at(deadlines, request_id, j) && j != i ==> precedes(deadlines, i, j)
}

/// The position of the deadline at which `request_id` expires.
pub open spec fn leading(deadlines: Seq<PromptCredentialDeadline>, request_id: Seq<char>) -> int {
    choose|i: int| is_leading(deadlines, request_id, i)
}

/// A deadline of `request_id` has arrived.
pub open spec fn is_due(
    deadlines: Seq<PromptCredentialDeadline>,
    request_id: Seq<char>,
    now: Moment,
) -> bool {
    exists|i: int| #[trigger]
        armed_at(deadlines, request_id, i) && deadlines[i].due.nanos <= now.nanos
}

/// The deadlines of all but some requests, in the order of arming.
pub open spec fn kept(
    deadlines: Seq<PromptCredentialDeadline>,
    gone: Set<Seq<char>>,
) -> Seq<PromptCredentialDeadline> {
    deadlines.filter(|deadline: PromptCredentialDeadline| !gone.contains(deadline.request_id@))
}

/// The requests with a deadline that has arrived.
pub open spec fn due_requests(deadlines: Seq<PromptCredentialDeadline>, now: Moment) -> Set<
    Seq<char>,
> {
    Set::new(|request_id: Seq<char>| is_due(deadlines, request_id, now))
}

/// The deadlines of the requests that do not expire up to `now`.
pub open spec fn unexpired(deadlines: Seq<PromptCredentialDeadline>, now: Moment) -> Seq<
    PromptCredentialDeadline,
> {
    kept(deadlines, due_requests(deadlines, now))
}

/// `request_ids` are exactly the requests that expire up to `now`, each once, ordered by deadline
/// and then by arming.
pub open spec fn expires(
    deadlines: Seq<PromptCredentialDeadline>,
    now: Moment,
    request_ids: Seq<Seq<char>>,
) -> bool {
    &&& request_ids.no_duplicates()
    &&& forall|id: Seq<char>| #[trigger] request_ids.contains(id) <==> is_due(deadlines, id, now)
    &&& forall|a: int, b: int|
        0 <= a < b < request_ids.len() ==> precedes(
            deadlines,
            leading(deadlines, #[trigger] request_ids[a]),
            leading(deadlines, #[trigger] request_ids[b]),
        )
}

/// The deadlines after one command.
pub open spec fn commanded(
    deadlines: Seq<PromptCredentialDeadline>,
    command: PromptCredentialDeadlineCommand,
) -> Seq<PromptCredentialDeadline> {
    match command {
        PromptCredentialDeadlineCommand::Schedule { request_id, due } => deadlines.push(
            PromptCredentialDeadline { due, request_id },
        ),
        PromptCredentialDeadlineCommand::Cancel(request_id) => kept(
            deadlines,
            set![request_id@],
        ),
        PromptCredentialDeadlineCommand::CancelAll => Seq::empty(),
    }
}

/// `due` is the earliest deadline, if there is one.
pub open spec fn is_next(deadlines: Seq<PromptCredentialDeadline>, due: Option<Moment>) -> bool {
    match due {
        Some(due) => {
            &&& exists|i: int| 0 <= i < deadlines.len() && (#[trigger] deadlines[i]).due == due
            &&& forall|i: int|
                0 <= i < deadlines.len() ==> due.nanos <= (#[trigger] deadlines[i]).due.nanos
        },
        None => deadlines.len() == 0,
    }
}

/// A request has one leading deadline.
pub proof fn leading_is_unique(
    deadlines: Seq<PromptCredentialDeadline>,
    request_id: Seq<char>,
    i: int,
)
    requires
        is_leading(deadlines, request_id, i),
    ensures
        leading(deadlines, request_id) == i,
{
    let j = leading(deadlines, request_id);
    assert(is_leading(deadlines, request_id, j));
    assert(armed_at(deadlines, request_id, i) && armed_at(deadlines, request_id, j));
}

/// What expires is determined: there is one list of the requests that expire up to `now`.
pub proof fn expiry_is_determined(
    deadlines: Seq<PromptCredentialDeadline>,
    now: Moment,
    one: Seq<Seq<char>>,
    other: Seq<Seq<char>>,
)
    requires
        expires(deadlines, now, one),
        expires(deadlines, now, other),
    ensures
        one == other,
{
    lemma_same_prefix(deadlines, now, one, other, one.len() as int);
    lemma_same_prefix(deadlines, now, other, one, other.len() as int);
    assert(one =~= other);
}

proof fn lemma_same_prefix(
    deadlines: Seq<PromptCredentialDeadline>,
    now: Moment,
    one: Seq<Seq<char>>,
    other: Seq<Seq<char>>,
    n: int,
)
    requires
        expires(deadlines, now, one),
        expires(deadlines, now, other),
        0 <= n <= one.len(),
    ensures
        n <= other.len(),
        forall|i: int| 0 <= i < n ==> #[trigger] one[i] == other[i],
    decreases n,
{
    if n > 0 {
        lemma_same_prefix(deadlines, now, one, other, n - 1);
        let i = n - 1;
        assert(one.contains(one[i]));
        assert(other.contains(one[i]));
        let m = other.index_of(one[i]);
        if m < i {
            assert(one[m] == other[m]);
        } else if m > i {
            assert(one.contains(other[i])) by {
                assert(other.contains(other[i]));
            }
            let k = one.index_of(other[i]);
            if k < i {
                assert(one[k] == other[k]);
            } else if k > i {
                assert(precedes(deadlines, leading(deadlines, one[i]), leading(deadlines, one[k])));
                assert(precedes(
                    deadlines,
                    leading(deadlines, other[i]),
                    leading(deadlines, other[m]),
                ));
            }
        }
    }
}

proof fn lemma_kept_shrinks(
    deadlines: Seq<PromptCredentialDeadline>,
    gone: Set<Seq<char>>,
    i: int,
)
    requires
        0 <= i < deadlines.len(),
        !gone.contains(deadlines[i].request_id@),
    ensures
        kept(deadlines, gone.insert(deadlines[i].request_id@)).len() < kept(deadlines, gone).len(),
    decreases deadlines.len(),
{
    reveal(Seq::filter);
    let id = deadlines[i].request_id@;
    let before = deadlines.drop_last();
    if i < before.len() {
        lemma_kept_shrinks(before, gone, i);
    } else {
        lemma_kept_is_antitone(before, gone, gone.insert(id));
    }
}

proof fn lemma_kept_is_antitone(
    deadlines: Seq<PromptCredentialDeadline>,
    few: Set<Seq<char>>,
    many: Set<Seq<char>>,
)
    requires
        few.subset_of(many),
    ensures
        kept(deadlines, many).len() <= kept(deadlines, few).len(),
    decreases deadlines.len(),
{
    reveal(Seq::filter);
    if deadlines.len() > 0 {
        lemma_kept_is_antitone(deadlines.drop_last(), few, many);
    }
}

/// Contents of texts, in order.
pub open spec fn contents(texts: Seq<String>) -> Seq<Seq<char>> {
    Seq::new(texts.len(), |i: int| texts[i]@)
}

/// Pure earliest-first state of prompt credential deadlines.
pub struct PromptCredentialDeadlineQueue {
    deadlines: Vec<PromptCredentialDeadline>,
}

impl PromptCredentialDeadlineQueue {
    /// The live deadlines in the order of arming.
    pub closed spec fn view(&self) -> Seq<PromptCredentialDeadline> {
        self.deadlines@
    }

    /// No deadline.
    pub fn new() -> (res: Self)
        ensures
            res@ == Seq::<PromptCredentialDeadline>::empty(),
    {
        PromptCredentialDeadlineQueue { deadlines: Vec::new() }
    }

    /// Removes every deadline of some requests.
    fn discard_invalid(&mut self, gone: &NameTable<()>)
        ensures
            final(self)@ == kept(old(self)@, gone@.dom()),
    {
        let ghost all = self.deadlines@;
        let ghost stays = |deadline: PromptCredentialDeadline|
            !gone@.dom().contains(deadline.request_id@);
        let ghost mut seen: int = 0;
        let mut i: usize = 0;
        proof {
            reveal(Seq::filter);
            assert(all.take(0).filter(stays) + all.skip(0) =~= all);
        }
        while i < self.deadlines.len()
            invariant
                0 <= seen <= all.len(),
                i == all.take(seen).filter(stays).len(),
                self.deadlines@ == all.take(seen).filter(stays) + all.skip(seen),
                forall|deadline: PromptCredentialDeadline| #[trigger]
                    stays(deadline) == !gone@.dom().contains(deadline.request_id@),
            decreases self.deadlines@.len() - i,
        {
            let ghost before = self.deadlines@;
            proof {
                reveal(Seq::filter);
                assert(before[i as int] == all[seen]);
                assert(all.take(seen + 1).drop_last() =~= all.take(seen));
                assert(all.take(seen + 1).last() == all[seen]);
                assert(stays(all[seen]) == !gone@.dom().contains(all[seen].request_id@));
            }
            if gone.contains_key(self.deadlines[i].request_id.as_str()) {
                let _ = self.deadlines.remove(i);
            } else {
                i = i + 1;
            }
            proof {
                seen = seen + 1;
                assert(self.deadlines@ =~= all.take(seen).filter(stays) + all.skip(seen));
            }
        }
        assert(all.take(seen) =~= all);
        assert(self.deadlines@ =~= all.filter(stays));
    }

    /// Applies one command.
    pub fn apply(&mut self, command: PromptCredentialDeadlineCommand)
        ensures
            final(self)@ == commanded(old(self)@, command),
    {
        match command {
            PromptCredentialDeadlineCommand::Schedule { request_id, due } => {
                self.deadlines.push(PromptCredentialDeadline { due, request_id });
            },
            PromptCredentialDeadlineCommand::Cancel(request_id) => {
                let ghost id = request_id@;
                let mut gone: NameTable<()> = NameTable::new();
                gone.insert(request_id, ());
                assert(gone@.dom() =~= set![id]);
                self.discard_invalid(&gone);
            },
            PromptCredentialDeadlineCommand::CancelAll => {
                self.deadlines.clear();
            },
        }
    }

    /// The arrived deadline that comes first among the requests outside `taken`.
    fn first_arrived(&self, now: Moment, taken: &NameTable<()>) -> (res: Option<usize>)
        ensures
            match res {
                Some(i) => {
                    &&& i < self@.len()
                    &&& self@[i as int].due.nanos <= now.nanos
                    &&& !taken@.contains_key(self@[i as int].request_id@)
                    &&& forall|j: int|
                        0 <= j < self@.len() && j != i && !taken@.contains_key(
                            (#[trigger] self@[j]).request_id@,
                        ) ==> precedes(self@, i as int, j)
                },
                None => forall|j: int|
                    0 <= j < self@.len() && (#[trigger] self@[j]).due.nanos <= now.nanos
                        ==> taken@.contains_key(self@[j].request_id@),
            },
    {
        let mut best: Option<usize> = None;
        let mut i: usize = 0;
        while i < self.deadlines.len()
            invariant
                i <= self.deadlines@.len(),
                match best {
                    Some(k) => {
                        &&& k < i
                        &&& self@[k as int].due.nanos <= now.nanos
                        &&& !taken@.contains_key(self@[k as int].request_id@)
                        &&& forall|j: int|
                            0 <= j < i && j != k && !taken@.contains_key(
                                (#[trigger] self@[j]).request_id@,
                            ) ==> precedes(self@, k as int, j)
                    },
                    None => forall|j: int|
                        0 <= j < i && (#[trigger] self@[j]).due.nanos <= now.nanos
                            ==> taken@.contains_key(self@[j].request_id@),
                },
            decreases self.deadlines@.len() - i,
        {
            if self.deadlines[i].due.nanos <= now.nanos && !taken.contains_key(
                self.deadlines[i].request_id.as_str(),
            ) {
                let sooner: bool = match best {
                    Some(k) => self.deadlines[i].due.nanos < self.deadlines[k].due.nanos,
                    None => true,
                };
                if sooner {
                    best = Some(i);
                }
            }
            i = i + 1;
        }
        best
    }

    /// Removes and returns all request ids due at `now`.
    pub fn pop_due(&mut self, now: Moment) -> (res: Vec<String>)
        ensures
            expires(old(self)@, now, contents(res@)),
            final(self)@ == unexpired(old(self)@, now),
    {
        let mut due: Vec<String> = Vec::new();
        let mut taken: NameTable<()> = NameTable::new();
        loop
            invariant
                *self == *old(self),
                contents(due@).no_duplicates(),
                forall|id: Seq<char>| #[trigger]
                    contents(due@).contains(id) <==> taken@.contains_key(id),
                forall|id: Seq<char>| #[trigger]
                    taken@.contains_key(id) ==> is_due(self@, id, now),
                forall|a: int|
                    0 <= a < due@.len() ==> is_leading(
                        self@,
                        #[trigger] contents(due@)[a],
                        leading(self@, contents(due@)[a]),
                    ),
                forall|a: int, b: int|
                    0 <= a < b < due@.len() ==> precedes(
                        self@,
                        leading(self@, #[trigger] contents(due@)[a]),
                        leading(self@, #[trigger] contents(due@)[b]),
                    ),
                forall|a: int, j: int|
                    0 <= a < due@.len() && 0 <= j < self@.len() && !taken@.contains_key(
                        (#[trigger] self@[j]).request_id@,
                    ) ==> precedes(self@, leading(self@, #[trigger] contents(due@)[a]), j),
            ensures
                forall|j: int|
                    0 <= j < self@.len() && (#[trigger] self@[j]).due.nanos <= now.nanos
                        ==> taken@.contains_key(self@[j].request_id@),
            decreases kept(self@, taken@.dom()).len(),
        {
            match self.first_arrived(now, &taken) {
                Some(i) => {
                    let id = self.deadlines[i].request_id.clone();
                    let ghost popped = due@;
                    let ghost before = taken@;
                    taken.insert(id.clone(), ());
                    due.push(id);
                    proof {
                        assert(armed_at(self@, id@, i as int));
                        assert(is_leading(self@, id@, i as int));
                        leading_is_unique(self@, id@, i as int);
                        assert(contents(due@) =~= contents(popped).push(id@));
                        assert forall|x: Seq<char>| #[trigger]
                            contents(due@).contains(x) <==> taken@.contains_key(x) by {
                            if contents(popped).contains(x) {
                                let k = contents(popped).index_of(x);
                                assert(contents(due@)[k] == x);
                            }
                            if x == id@ {
                                assert(contents(due@)[popped.len() as int] == x);
                            }
                            if contents(due@).contains(x) && x != id@ {
                                let k = contents(due@).index_of(x);
                                assert(contents(popped)[k] == x);
                            }
                        }
                        assert(!contents(popped).contains(id@));
                        lemma_kept_shrinks(self@, before.dom(), i as int);
                        assert(taken@.dom() =~= before.dom().insert(id@));
                    }
                },
                None => {
                    break;
                },
            }
        }
        proof {
            assert forall|id: Seq<char>| #[trigger]
                contents(due@).contains(id) <==> is_due(self@, id, now) by {
                if is_due(self@, id, now) {
                    let j = choose|j: int| #[trigger]
                        armed_at(self@, id, j) && self@[j].due.nanos <= now.nanos;
                    assert(taken@.contains_key(self@[j].request_id@));
                }
            }
            assert forall|id: Seq<char>| #[trigger]
                taken@.dom().contains(id) == due_requests(self@, now).contains(id) by {
                assert(contents(due@).contains(id) <==> taken@.contains_key(id));
            }
            assert(taken@.dom() =~= due_requests(self@, now));
        }
        self.discard_invalid(&taken);
        due
    }

    /// Returns the earliest still-live deadline.
    pub fn next_due(&self) -> (res: Option<Moment>)
        ensures
            is_next(self@, res),
    {
        let mut best: Option<Moment> = None;
        let mut i: usize = 0;
        while i < self.deadlines.len()
            invariant
                i <= self.deadlines@.len(),
                is_next(self.deadlines@.take(i as int), best),
            decreases self.deadlines@.len() - i,
        {
            let due: Moment = self.deadlines[i].due;
            let ghost before = self.deadlines@.take(i as int);
            let ghost after = self.deadlines@.take(i + 1);
            assert(after =~= before.push(self.deadlines@[i as int]));
            assert(after[i as int].due == due);
            assert(forall|k: int| 0 <= k < i ==> #[trigger] before[k] == after[k]);
            best = match best {
                Some(sooner) => if due.nanos < sooner.nanos {
                    Some(due)
                } else {
                    Some(sooner)
                },
                None => Some(due),
            };
            i = i + 1;
        }
        assert(self.deadlines@.take(i as int) =~= self.deadlines@);
        best
    }
}

/// One step in the life of a queue.
pub enum DeadlineStep {
    /// A command was applied.
    Command(PromptCredentialDeadlineCommand),
    /// The arrived deadlines were popped.
    Pop(Moment),
}

/// The deadlines of a queue that started empty and went through `history`.
pub open spec fn deadlines_after(history: Seq<DeadlineStep>) -> Seq<PromptCredentialDeadline>
    decreases history.len(),
{
    if history.len() == 0 {
        Seq::empty()
    } else {
        let before = deadlines_after(history.drop_last());
        match history.last() {
            DeadlineStep::Command(command) => commanded(before, command),
            DeadlineStep::Pop(now) => unexpired(before, now),
        }
    }
}

/// The step at `k` armed `deadline`.
pub open spec fn arms(
    history: Seq<DeadlineStep>,
    k: int,
    deadline: PromptCredentialDeadline,
) -> bool {
    &&& 0 <= k < history.len()
    &&& history[k] == DeadlineStep::Command(
        PromptCredentialDeadlineCommand::Schedule {
            request_id: deadline.request_id,
            due: deadline.due,
        },
    )
}

/// The step at `k` canceled `request_id` or popped it.
pub open spec fn ends(history: Seq<DeadlineStep>, k: int, request_id: Seq<char>) -> bool {
    match history[k] {
        DeadlineStep::Command(PromptCredentialDeadlineCommand::Cancel(id)) => id@ == request_id,
        DeadlineStep::Command(PromptCredentialDeadlineCommand::CancelAll) => true,
        DeadlineStep::Command(PromptCredentialDeadlineCommand::Schedule { .. }) => false,
        DeadlineStep::Pop(now) => is_due(deadlines_after(history.take(k)), request_id, now),
    }
}

/// The step at `k` armed `deadline`, and no later step canceled or popped its request.
pub open spec fn outstanding(
    history: Seq<DeadlineStep>,
    k: int,
    deadline: PromptCredentialDeadline,
) -> bool {
    &&& arms(history, k, deadline)
    &&& forall|j: int| k < j < history.len() ==> !#[trigger] ends(history, j, deadline.request_id@)
}

/// `steps` are the steps that armed the deadlines of `history`, in order, and they are exactly
/// the outstanding ones.
spec fn tracks(history: Seq<DeadlineStep>, steps: Seq<int>) -> bool {
    let deadlines = deadlines_after(history);
    &&& steps.len() == deadlines.len()
    &&& forall|i: int|
        0 <= i < steps.len() ==> outstanding(history, #[trigger] steps[i], deadlines[i])
    &&& forall|i: int, j: int|
        0 <= i < j < steps.len() ==> #[trigger] steps[i] < #[trigger] steps[j]
    &&& forall|k: int, deadline: PromptCredentialDeadline| #[trigger]
        outstanding(history, k, deadline) ==> steps.contains(k)
}

/// The steps of the deadlines of all but some requests.
spec fn kept_steps(
    deadlines: Seq<PromptCredentialDeadline>,
    steps: Seq<int>,
    gone: Set<Seq<char>>,
) -> Seq<int>
    decreases deadlines.len(),
{
    if deadlines.len() == 0 || steps.len() == 0 {
        Seq::empty()
    } else {
        let before = kept_steps(deadlines.drop_last(), steps.drop_last(), gone);
        if gone.contains(deadlines.last().request_id@) {
            before
        } else {
            before.push(steps.last())
        }
    }
}

/// What was kept at `i` stood at `m` before.
spec fn is_origin(
    deadlines: Seq<PromptCredentialDeadline>,
    steps: Seq<int>,
    gone: Set<Seq<char>>,
    i: int,
    m: int,
) -> bool {
    &&& 0 <= m < steps.len()
    &&& steps[m] == kept_steps(deadlines, steps, gone)[i]
    &&& deadlines[m] == kept(deadlines, gone)[i]
    &&& !gone.contains(deadlines[m].request_id@)
}

spec fn has_origin(
    deadlines: Seq<PromptCredentialDeadline>,
    steps: Seq<int>,
    gone: Set<Seq<char>>,
    i: int,
) -> bool {
    exists|m: int| #[trigger] is_origin(deadlines, steps, gone, i, m)
}

proof fn lemma_kept_steps(
    deadlines: Seq<PromptCredentialDeadline>,
    steps: Seq<int>,
    gone: Set<Seq<char>>,
)
    requires
        deadlines.len() == steps.len(),
        forall|i: int, j: int|
            0 <= i < j < steps.len() ==> #[trigger] steps[i] < #[trigger] steps[j],
    ensures
        kept_steps(deadlines, steps, gone).len() == kept(deadlines, gone).len(),
        forall|i: int, j: int|
            0 <= i < j < kept_steps(deadlines, steps, gone).len() ==> #[trigger] kept_steps(
                deadlines,
                steps,
                gone,
            )[i] < #[trigger] kept_steps(deadlines, steps, gone)[j],
        forall|i: int|
            0 <= i < kept(deadlines, gone).len() ==> #[trigger] has_origin(
                deadlines,
                steps,
                gone,
                i,
            ),
        forall|m: int|
            0 <= m < steps.len() && !gone.contains(deadlines[m].request_id@) ==> kept_steps(
                deadlines,
                steps,
                gone,
            ).contains(#[trigger] steps[m]),
    decreases deadlines.len(),
{
    reveal(Seq::filter);
    if deadlines.len() > 0 {
        let n = deadlines.len() - 1;
        let d = deadlines.drop_last();
        let s = steps.drop_last();
        lemma_kept_steps(d, s, gone);
        let before = kept_steps(d, s, gone);
        let after = kept_steps(deadlines, steps, gone);
        assert forall|i: int| 0 <= i < kept(deadlines, gone).len() implies #[trigger] has_origin(
            deadlines,
            steps,
            gone,
            i,
        ) by {
            if i < before.len() {
                assert(has_origin(d, s, gone, i));
                let m = choose|m: int| #[trigger] is_origin(d, s, gone, i, m);
                assert(is_origin(deadlines, steps, gone, i, m));
            } else {
                assert(is_origin(deadlines, steps, gone, i, n));
            }
        }
        assert forall|i: int, j: int| 0 <= i < j < after.len() implies #[trigger] after[i]
            < #[trigger] after[j] by {
            if j == before.len() {
                assert(has_origin(d, s, gone, i));
                let m = choose|m: int| #[trigger] is_origin(d, s, gone, i, m);
                assert(steps[m] < steps[n]);
            } else {
                assert(before[i] < before[j]);
            }
        }
        assert forall|m: int| 0 <= m < steps.len() && !gone.contains(
            deadlines[m].request_id@,
        ) implies after.contains(#[trigger] steps[m]) by {
            if m < n {
                assert(before.contains(s[m]));
                let k = before.index_of(s[m]);
                assert(after[k] == steps[m]);
            } else {
                assert(after[before.len() as int] == steps[m]);
            }
        }
    }
}

proof fn lemma_history_is_tracked(history: Seq<DeadlineStep>) -> (steps: Seq<int>)
    ensures
        tracks(history, steps),
    decreases history.len(),
{
    if history.len() == 0 {
        Seq::empty()
    } else {
        let past = history.drop_last();
        let last = history.len() - 1;
        let old_steps = lemma_history_is_tracked(past);
        let before = deadlines_after(past);
        assert(history.take(last) =~= past);
        assert forall|j: int, id: Seq<char>| 0 <= j < last implies #[trigger] ends(history, j, id)
            == ends(past, j, id) by {
            assert(history.take(j) =~= past.take(j));
        }
        assert forall|k: int, deadline: PromptCredentialDeadline| k < last implies (
        #[trigger] outstanding(history, k, deadline) <==> outstanding(past, k, deadline) && !ends(
            history,
            last,
            deadline.request_id@,
        )) by {
            if outstanding(history, k, deadline) {
                assert forall|j: int| k < j < past.len() implies !#[trigger] ends(
                    past,
                    j,
                    deadline.request_id@,
                ) by {
                    assert(!ends(history, j, deadline.request_id@));
                }
            }
            if outstanding(past, k, deadline) && !ends(history, last, deadline.request_id@) {
                assert forall|j: int| k < j < history.len() implies !#[trigger] ends(
                    history,
                    j,
                    deadline.request_id@,
                ) by {
                    if j < last {
                        assert(!ends(past, j, deadline.request_id@));
                    }
                }
            }
        }
        match history.last() {
            DeadlineStep::Command(
                PromptCredentialDeadlineCommand::Schedule { request_id, due },
            ) => {
                let steps = old_steps.push(last);
                let armed = PromptCredentialDeadline { due, request_id };
                assert(outstanding(history, last, armed));
                assert forall|i: int| 0 <= i < steps.len() implies outstanding(
                    history,
                    #[trigger] steps[i],
                    deadlines_after(history)[i],
                ) by {
                    if i < old_steps.len() {
                        assert(outstanding(past, old_steps[i], before[i]));
                    }
                }
                assert forall|k: int, deadline: PromptCredentialDeadline| #[trigger]
                    outstanding(history, k, deadline) implies steps.contains(k) by {
                    if k < last {
                        assert(outstanding(past, k, deadline));
                        let m = old_steps.index_of(k);
                        assert(steps[m] == k);
                    } else {
                        assert(steps[old_steps.len() as int] == k);
                    }
                }
                assert forall|i: int, j: int| 0 <= i < j < steps.len() implies #[trigger] steps[i]
                    < #[trigger] steps[j] by {
                    assert(outstanding(past, old_steps[i], before[i]));
                }
                steps
            },
            _ => {
                let gone = match history.last() {
                    DeadlineStep::Command(PromptCredentialDeadlineCommand::Cancel(id)) => set![
                        id@
                    ],
                    DeadlineStep::Pop(now) => due_requests(before, now),
                    _ => Set::full(),
                };
                lemma_kept_steps(before, old_steps, gone);
                let steps = kept_steps(before, old_steps, gone);
                assert forall|id: Seq<char>| #[trigger]
                    ends(history, last, id) == gone.contains(id) by {}
                if gone == Set::<Seq<char>>::full() {
                    lemma_nothing_kept(before, gone);
                }
                assert(deadlines_after(history) =~= kept(before, gone));
                assert forall|i: int| 0 <= i < steps.len() implies outstanding(
                    history,
                    #[trigger] steps[i],
                    deadlines_after(history)[i],
                ) by {
                    assert(has_origin(before, old_steps, gone, i));
                    let m = choose|m: int| #[trigger] is_origin(before, old_steps, gone, i, m);
                    assert(outstanding(past, old_steps[m], before[m]));
                }
                assert forall|k: int, deadline: PromptCredentialDeadline| #[trigger]
                    outstanding(history, k, deadline) implies steps.contains(k) by {
                    assert(k < last);
                    assert(outstanding(past, k, deadline));
                    let m = old_steps.index_of(k);
                    assert(outstanding(past, old_steps[m], before[m]));
                    assert(before[m] == deadline);
                    assert(steps.contains(old_steps[m]));
                }
                steps
            },
        }
    }
}

proof fn lemma_nothing_kept(deadlines: Seq<PromptCredentialDeadline>, gone: Set<Seq<char>>)
    requires
        gone == Set::<Seq<char>>::full(),
    ensures
        kept(deadlines, gone).len() == 0,
    decreases deadlines.len(),
{
    reveal(Seq::filter);
    if deadlines.len() > 0 {
        lemma_nothing_kept(deadlines.drop_last(), gone);
    }
}

/// The step at `k` armed the outstanding deadline of `request_id` that comes before its other ones.
pub open spec fn outstanding_first(
    history: Seq<DeadlineStep>,
    k: int,
    deadline: PromptCredentialDeadline,
    request_id: Seq<char>,
) -> bool {
    &&& outstanding(history, k, deadline)
    &&& deadline.request_id@ == request_id
    &&& forall|l: int, other: PromptCredentialDeadline| #[trigger]
        outstanding(history, l, other) && other.request_id@ == request_id && l != k
            ==> armed_before(k, deadline, l, other)
}

/// A deadline armed at step `k` comes before another one armed at step `l`.
pub open spec fn armed_before(
    k: int,
    deadline: PromptCredentialDeadline,
    l: int,
    other: PromptCredentialDeadline,
) -> bool {
    ||| deadline.due.nanos < other.due.nanos
    ||| deadline.due.nanos == other.due.nanos && k < l
}

/// The first outstanding deadline of one request comes before that of another.
pub open spec fn outstanding_before(
    history: Seq<DeadlineStep>,
    one: Seq<char>,
    other: Seq<char>,
) -> bool {
    exists|
        k: int,
        first: PromptCredentialDeadline,
        l: int,
        second: PromptCredentialDeadline,
    | #[trigger]
        outstanding_first(history, k, first, one) && #[trigger] outstanding_first(
            history,
            l,
            second,
            other,
        ) && armed_before(k, first, l, second)
}

/// Some outstanding deadline of `request_id` has arrived.
pub open spec fn outstanding_due(
    history: Seq<DeadlineStep>,
    request_id: Seq<char>,
    now: Moment,
) -> bool {
    exists|k: int, deadline: PromptCredentialDeadline| #[trigger]
        outstanding(history, k, deadline) && deadline.request_id@ == request_id
            && deadline.due.nanos <= now.nanos
}

/// Whatever commands and pops a queue went through, a pop returns exactly the requests that were
/// armed for an instant up to `now` and neither canceled nor popped since, each once, ordered by
/// deadline and then by arming.
pub proof fn exactly_the_outstanding_requests_expire(
    history: Seq<DeadlineStep>,
    now: Moment,
    request_ids: Seq<Seq<char>>,
)
    requires
        expires(deadlines_after(history), now, request_ids),
    ensures
        request_ids.no_duplicates(),
        forall|id: Seq<char>| #[trigger]
            request_ids.contains(id) <==> outstanding_due(history, id, now),
        forall|a: int, b: int|
            0 <= a < b < request_ids.len() ==> outstanding_before(
                history,
                #[trigger] request_ids[a],
                #[trigger] request_ids[b],
            ),
{
    let deadlines = deadlines_after(history);
    let steps = lemma_history_is_tracked(history);
    assert forall|id: Seq<char>| #[trigger]
        request_ids.contains(id) <==> outstanding_due(history, id, now) by {
        if is_due(deadlines, id, now) {
            let i = choose|i: int| #[trigger]
                armed_at(deadlines, id, i) && deadlines[i].due.nanos <= now.nanos;
            assert(outstanding(history, steps[i], deadlines[i]));
        }
        if outstanding_due(history, id, now) {
            let (k, deadline) = choose|k: int, deadline: PromptCredentialDeadline| #[trigger]
                outstanding(history, k, deadline) && deadline.request_id@ == id
                    && deadline.due.nanos <= now.nanos;
            let i = steps.index_of(k);
            assert(outstanding(history, steps[i], deadlines[i]));
            assert(armed_at(deadlines, id, i));
        }
    }
    assert forall|a: int, b: int| 0 <= a < b < request_ids.len() implies outstanding_before(
        history,
        #[trigger] request_ids[a],
        #[trigger] request_ids[b],
    ) by {
        assert(request_ids.contains(request_ids[a]) && request_ids.contains(request_ids[b]));
        let i = lemma_leading_is_first(history, steps, request_ids[a], now);
        let j = lemma_leading_is_first(history, steps, request_ids[b], now);
        assert(precedes(deadlines, i, j));
        assert(outstanding_first(history, steps[i], deadlines[i], request_ids[a]));
        assert(outstanding_first(history, steps[j], deadlines[j], request_ids[b]));
        if i < j {
            assert(steps[i] < steps[j]);
        }
    }
}

proof fn lemma_leading_exists(
    deadlines: Seq<PromptCredentialDeadline>,
    request_id: Seq<char>,
)
    requires
        exists|i: int| #[trigger] armed_at(deadlines, request_id, i),
    ensures
        is_leading(deadlines, request_id, leading(deadlines, request_id)),
    decreases deadlines.len(),
{
    let n = deadlines.len() - 1;
    let before = deadlines.drop_last();
    if exists|i: int| #[trigger] armed_at(before, request_id, i) {
        lemma_leading_exists(before, request_id);
        let i = leading(before, request_id);
        assert forall|j: int| #[trigger]
            armed_at(deadlines, request_id, j) && j < n implies armed_at(
            before,
            request_id,
            j,
        ) by {}
        if deadlines[n].request_id@ == request_id && deadlines[n].due.nanos
            < deadlines[i].due.nanos {
            assert(is_leading(deadlines, request_id, n));
        } else {
            assert(is_leading(deadlines, request_id, i));
        }
    } else {
        assert forall|j: int| #[trigger] armed_at(deadlines, request_id, j) implies j == n by {
            if j < n {
                assert(armed_at(before, request_id, j));
            }
        }
        assert(is_leading(deadlines, request_id, n));
    }
}

proof fn lemma_leading_is_first(
    history: Seq<DeadlineStep>,
    steps: Seq<int>,
    request_id: Seq<char>,
    now: Moment,
) -> (i: int)
    requires
        tracks(history, steps),
        is_due(deadlines_after(history), request_id, now),
    ensures
        i == leading(deadlines_after(history), request_id),
        0 <= i < steps.len(),
        outstanding_first(history, steps[i], deadlines_after(history)[i], request_id),
{
    let deadlines = deadlines_after(history);
    lemma_leading_exists(deadlines, request_id);
    let i = leading(deadlines, request_id);
    assert(outstanding(history, steps[i], deadlines[i]));
    assert forall|l: int, other: PromptCredentialDeadline| #[trigger]
        outstanding(history, l, other) && other.request_id@ == request_id && l
            != steps[i] implies armed_before(steps[i], deadlines[i], l, other) by {
        let j = steps.index_of(l);
        assert(outstanding(history, steps[j], deadlines[j]));
        assert(deadlines[j] == other);
        assert(armed_at(deadlines, request_id, j));
        assert(precedes(deadlines, i, j));
        if i < j {
            assert(steps[i] < steps[j]);
        }
    }
    i
}

/// A pop leaves nothing due: a second one returns nothing, and the next deadline lies ahead.
pub proof fn pop_leaves_nothing_due(
    deadlines: Seq<PromptCredentialDeadline>,
    now: Moment,
    again: Seq<Seq<char>>,
    next: Option<Moment>,
)
    requires
        expires(unexpired(deadlines, now), now, again),
        is_next(unexpired(deadlines, now), next),
    ensures
        again.len() == 0,
        next is Some ==> next->0.nanos > now.nanos,
{
    let left = unexpired(deadlines, now);
    assert forall|i: int| 0 <= i < left.len() implies (#[trigger] left[i]).due.nanos
        > now.nanos by {
        lemma_kept_is_old(deadlines, due_requests(deadlines, now), i);
        let m = choose|m: int| 0 <= m < deadlines.len() && #[trigger] deadlines[m] == left[i];
        assert(armed_at(deadlines, left[i].request_id@, m));
        assert(!due_requests(deadlines, now).contains(left[i].request_id@));
    }
    if again.len() > 0 {
        assert(again.contains(again[0]));
        assert(is_due(left, again[0], now));
    }
}

proof fn lemma_kept_is_old(
    deadlines: Seq<PromptCredentialDeadline>,
    gone: Set<Seq<char>>,
    i: int,
)
    requires
        0 <= i < kept(deadlines, gone).len(),
    ensures
        !gone.contains(kept(deadlines, gone)[i].request_id@),
        exists|m: int| 0 <= m < deadlines.len() && #[trigger] deadlines[m] == kept(
            deadlines,
            gone,
        )[i],
    decreases deadlines.len(),
{
    reveal(Seq::filter);
    if deadlines.len() > 0 {
        let before = deadlines.drop_last();
        if i < kept(before, gone).len() {
            lemma_kept_is_old(before, gone, i);
            let m = choose|m: int|
                0 <= m < before.len() && #[trigger] before[m] == kept(before, gone)[i];
            assert(deadlines[m] == kept(deadlines, gone)[i]);
        } else {
            assert(deadlines[deadlines.len() - 1] == kept(deadlines, gone)[i]);
        }
    }
}

/// A canceled request owns no deadline, whatever was armed for it before.
pub proof fn canceled_request_has_no_deadline(
    deadlines: Seq<PromptCredentialDeadline>,
    request_id: String,
)
    ensures
        ({
            let left = commanded(deadlines, PromptCredentialDeadlineCommand::Cancel(request_id));
            forall|i: int|
                0 <= i < left.len() ==> (#[trigger] left[i]).request_id@ != request_id@
        }),
{
    let left = kept(deadlines, set![request_id@]);
    assert forall|i: int| 0 <= i < left.len() implies (#[trigger] left[i]).request_id@
        != request_id@ by {
        lemma_kept_is_old(deadlines, set![request_id@], i);
    }
}

} // verus!
