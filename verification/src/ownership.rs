//! Every prompt has exactly one owner.
//!
//! The main loop holds a prompt in the admission line or in the queue. It lets go of one only by
//! placing it: an attempt starts, the retry scheduler takes it, or its terminal is reported.

use vstd::prelude::*;

use crate::admission::{
    first_reader, flight, in_flight, refresh_completed, refresh_failed, timed_out,
    PendingPromptAdmission, PendingPromptAdmissionKind, PromptCredentialAdmissionState,
    PromptOAuthRefreshKey, PromptOAuthRpc, RefreshKey, RefreshStart,
};
use crate::cancellation::{all_wakers, must_close};
use crate::clock::{Moment, Span, NANOS_PER_SEC};
use crate::deadline::PromptCredentialDeadlineCommand;
use crate::event_loop::{
    input_applied, input_end, live_input, message_applied, messages_applied, queue_parked,
    round_ran, round_ran_through, round_settled, settled_through, workers_drained, LoopEnd,
    LoopInput, LoopRound, WorkerMessage,
};
use crate::exchange::{
    network_refresh_finished, observations_replaced, operation_answered, operation_taken,
    refresh_adopted, refresh_given_up, reload_answered, reply_admitted, reply_admitted_at,
    request_expired, requires_reload, storage_answered, waiter_observed, SecretPayload,
};
use crate::oauth::{merged_auth, JwtClaims, OAuthError, OAuthTokenRefresh};
use crate::profiles::{BuiltinProviderProfiles, SecretReply};
use crate::prompt::{
    BackendProfileIdentity, CooldownProbe, Prompt, PromptBackend, PromptJob, ResolvedConfig,
};
use crate::prompts::{
    admission_closed, admission_closed_at, admission_finished, admission_released, admitted_count,
    all_canceled, cancel_notice, credential_deadline, credential_read_effects,
    credential_read_started, deadline_cancellations, first_admitted, first_queued, head_released,
    line_drained, manual_requeued, manual_result, new_job, not_admitted, prompt_canceled,
    prompt_created, queued_closed, queued_count, releases, resolved_started, resolved_started_on,
    retry_released_on, retry_requeued, Snapshot,
};
use crate::quota::{
    fetch_failed, fetch_finished, QuotaCoordinator, QuotaEpoch, QuotaReport, QuotaWindowObservation,
    QUOTA_FETCH_MIN_INTERVAL_SECS,
};
use crate::report::{
    canceled_job_report, committed, identity_changed_report, released_provider, CommitState, Report,
    RetryPromptStatus,
};
use crate::retry::{lookup, merged_cooldown, SharedCooldown};
use crate::routes::{selected_published, Now, PublicationEffects, RouteEffects, Routes};
use crate::runtime::{
    active_cooldown, canceled_admission_effects, canceled_jobs_effects, canceled_prompt_report,
    cooled_count, cooled_effects, dropped_admission_effects, dropped_admissions_effects,
    parked_effects, queue_cooldown, queue_started, queue_started_by, retained_jobs, route_effects,
    started_effects, Effect, PrewarmScope, ProviderRuntime,
};
use crate::scheduler::SchedulerCommand;
use crate::supervise::{
    all_loaded, cache_refresh_requested, prewarm_admitted, prewarm_requested, prewarm_started,
    profile_changed_effects, refresh_deadline, settings_accepted, PrewarmRequest,
};
use crate::upkeep::{
    failure_followed, follows_failure, follows_success, quota_fetch_ended, quota_followed,
    quota_refreshed, refresh_scheduled, with_quota,
};
use crate::worker::{
    attempt_failed, commit_effects, evidence_effects, failure_boundary, failure_effects,
    handed_back, manually_released, offline_route, output_committed, retry_came_due,
    shares_evidence, AttemptFailure,
};

verus! {

/// The prompt that an effect gives a new owner or an end.
pub open spec fn placed_by(effect: Effect) -> Option<Seq<char>> {
    match effect {
        Effect::Report(Report::ResponseFinished(finished)) => Some(finished.agent_prompt_id@),
        Effect::StartPrompt { job, .. } => Some(job.agent_prompt_id@),
        Effect::Scheduler(SchedulerCommand::Schedule { job, .. }) => Some(job.agent_prompt_id@),
        _ => None,
    }
}

/// 1 when `a` is `b`.
pub open spec fn tally(a: Option<Seq<char>>, b: Seq<char>) -> int {
    if a == Some(b) {
        1
    } else {
        0
    }
}

/// How often some effects place `prompt_id`.
pub open spec fn placed(effects: Seq<Effect>, prompt_id: Seq<char>) -> int
    decreases effects.len(),
{
    if effects.len() == 0 {
        0
    } else {
        placed(effects.drop_last(), prompt_id) + tally(placed_by(effects.last()), prompt_id)
    }
}

/// How many prompts some effects hand to the retry scheduler.
pub open spec fn parkings(effects: Seq<Effect>) -> int
    decreases effects.len(),
{
    if effects.len() == 0 {
        0
    } else {
        parkings(effects.drop_last()) + match effects.last() {
            Effect::Scheduler(SchedulerCommand::Schedule { .. }) => 1int,
            _ => 0int,
        }
    }
}

/// The count of parked prompts follows the scheduler: it grew by what was handed over and shrank
/// by the `released` that came back, unless it saturated.
pub open spec fn counts_parked(before: Snapshot, after: Snapshot, released: int) -> bool {
    &&& released == 0 ==> before.0.delayed_count <= after.0.delayed_count
    &&& released <= before.0.delayed_count && after.0.delayed_count < usize::MAX
        ==> after.0.delayed_count - parkings(after.1) == before.0.delayed_count - released
        - parkings(before.1)
}

/// How often the main loop holds `prompt_id`.
pub open spec fn held(runtime: ProviderRuntime, prompt_id: Seq<char>) -> int {
    (queued_count(runtime.prompt_queue@, prompt_id) + admitted_count(
        runtime.admission.admissions@,
        prompt_id,
    )) as int
}

/// How often `prompt_id` is held or was placed.
pub open spec fn accounted(snapshot: Snapshot, prompt_id: Seq<char>) -> int {
    held(snapshot.0, prompt_id) + placed(snapshot.1, prompt_id)
}

/// The prompt that an input hands to the loop.
pub open spec fn brought_by_input(input: LoopInput) -> Option<Seq<char>> {
    match input {
        LoopInput::PromptCreated { prompt, .. } => Some(prompt.agent_prompt_id@),
        _ => None,
    }
}

/// The prompt that a worker notice hands back to the loop, or whose terminal it carries.
pub open spec fn brought_by(message: WorkerMessage) -> Option<Seq<char>> {
    match message {
        WorkerMessage::AttemptFailed(failure) => Some(failure.job.agent_prompt_id@),
        WorkerMessage::RetryDue { job, .. } => Some(job.agent_prompt_id@),
        WorkerMessage::ManualRetry { job: Some(job), .. } => Some(job.agent_prompt_id@),
        WorkerMessage::DelayedCanceled { job, .. } => Some(job.agent_prompt_id@),
        WorkerMessage::Output { report: Report::ResponseFinished(finished), .. } => Some(
            finished.agent_prompt_id@,
        ),
        _ => None,
    }
}

/// How many entries of the retry scheduler a worker notice gives back.
pub open spec fn released_by(message: WorkerMessage) -> int {
    match message {
        WorkerMessage::RetryDue { .. } => 1,
        WorkerMessage::ManualRetry { job: Some(_), .. } => 1,
        WorkerMessage::DelayedCanceled { delayed_count, .. } => delayed_count as int,
        _ => 0,
    }
}

/// How often some worker notices bring `prompt_id`.
pub open spec fn brought(messages: Seq<WorkerMessage>, prompt_id: Seq<char>) -> int
    decreases messages.len(),
{
    if messages.len() == 0 {
        0
    } else {
        brought(messages.drop_last(), prompt_id) + tally(
            brought_by(messages.last()),
            prompt_id,
        )
    }
}

/// How often an input lets go of `prompt_id` unplaced: the end of input forgets the admissions
/// that still wait for a credential.
pub open spec fn forgotten(
    runtime: ProviderRuntime,
    input: LoopInput,
    prompt_id: Seq<char>,
) -> int {
    match input {
        LoopInput::Closed | LoopInput::StopRequested => admitted_count(
            runtime.admission.admissions@,
            prompt_id,
        ) as int,
        _ => 0,
    }
}

proof fn lemma_placed_concatenation(a: Seq<Effect>, b: Seq<Effect>, prompt_id: Seq<char>)
    ensures
        placed(a + b, prompt_id) == placed(a, prompt_id) + placed(b, prompt_id),
        parkings(a + b) == parkings(a) + parkings(b),
    decreases b.len(),
{
    if b.len() == 0 {
        assert(a + b =~= a);
    } else {
        assert((a + b).drop_last() =~= a + b.drop_last());
        lemma_placed_concatenation(a, b.drop_last(), prompt_id);
    }
}

proof fn lemma_placed_push(a: Seq<Effect>, effect: Effect, prompt_id: Seq<char>)
    ensures
        placed(a.push(effect), prompt_id) == placed(a, prompt_id) + tally(
            placed_by(effect),
            prompt_id,
        ),
        parkings(a.push(effect)) == parkings(a) + match effect {
            Effect::Scheduler(SchedulerCommand::Schedule { .. }) => 1int,
            _ => 0int,
        },
{
    assert(a.push(effect).drop_last() =~= a);
}

proof fn lemma_placed_nothing(effects: Seq<Effect>, prompt_id: Seq<char>)
    requires
        forall|i: int| 0 <= i < effects.len() ==> placed_by(#[trigger] effects[i]) is None,
    ensures
        placed(effects, prompt_id) == 0,
        parkings(effects) == 0,
    decreases effects.len(),
{
    if effects.len() > 0 {
        assert(placed_by(effects[effects.len() - 1]) is None);
        assert forall|i: int| 0 <= i < effects.drop_last().len() implies placed_by(
            #[trigger] effects.drop_last()[i],
        ) is None by {
            assert(placed_by(effects[i]) is None);
        }
        lemma_placed_nothing(effects.drop_last(), prompt_id);
    }
}

proof fn lemma_queue_push(queue: Seq<PromptJob>, job: PromptJob, prompt_id: Seq<char>)
    ensures
        queued_count(queue.push(job), prompt_id) == queued_count(queue, prompt_id) + tally(
            Some(job.agent_prompt_id@),
            prompt_id,
        ),
{
    assert(queue.push(job).drop_last() =~= queue);
}

proof fn lemma_queue_remove(queue: Seq<PromptJob>, i: int, prompt_id: Seq<char>)
    requires
        0 <= i < queue.len(),
    ensures
        queued_count(queue, prompt_id) == queued_count(queue.remove(i), prompt_id) + tally(
            Some(queue[i].agent_prompt_id@),
            prompt_id,
        ),
    decreases queue.len(),
{
    if i == queue.len() - 1 {
        assert(queue.remove(i) =~= queue.drop_last());
    } else {
        lemma_queue_remove(queue.drop_last(), i, prompt_id);
        assert(queue.remove(i).drop_last() =~= queue.drop_last().remove(i));
        assert(queue.remove(i).last() == queue.last());
    }
}

proof fn lemma_queue_concatenation(a: Seq<PromptJob>, b: Seq<PromptJob>, prompt_id: Seq<char>)
    ensures
        queued_count(a + b, prompt_id) == queued_count(a, prompt_id) + queued_count(b, prompt_id),
    decreases b.len(),
{
    if b.len() == 0 {
        assert(a + b =~= a);
    } else {
        assert((a + b).drop_last() =~= a + b.drop_last());
        lemma_queue_concatenation(a, b.drop_last(), prompt_id);
    }
}

proof fn lemma_line_remove(line: Seq<PendingPromptAdmission>, i: int, prompt_id: Seq<char>)
    requires
        0 <= i < line.len(),
    ensures
        admitted_count(line, prompt_id) == admitted_count(line.remove(i), prompt_id) + tally(
            Some(line[i].kind.spec_prompt_id()@),
            prompt_id,
        ),
    decreases line.len(),
{
    if i == line.len() - 1 {
        assert(line.remove(i) =~= line.drop_last());
    } else {
        lemma_line_remove(line.drop_last(), i, prompt_id);
        assert(line.remove(i).drop_last() =~= line.drop_last().remove(i));
        assert(line.remove(i).last() == line.last());
    }
}

/// Two lines hold the same prompts, place by place.
spec fn same_line(a: Seq<PendingPromptAdmission>, b: Seq<PendingPromptAdmission>) -> bool {
    &&& a.len() == b.len()
    &&& forall|i: int|
        0 <= i < a.len() ==> (#[trigger] a[i]).kind == (#[trigger] b[i]).kind
}

proof fn lemma_same_line(
    a: Seq<PendingPromptAdmission>,
    b: Seq<PendingPromptAdmission>,
    prompt_id: Seq<char>,
)
    requires
        same_line(a, b),
    ensures
        admitted_count(a, prompt_id) == admitted_count(b, prompt_id),
    decreases a.len(),
{
    if a.len() > 0 {
        assert(same_line(a.drop_last(), b.drop_last()));
        lemma_same_line(a.drop_last(), b.drop_last(), prompt_id);
        assert(a[a.len() - 1].kind == b[b.len() - 1].kind);
    }
}

proof fn lemma_route_places_nothing(effects: RouteEffects, now: Moment, prompt_id: Seq<char>)
    ensures
        placed(route_effects(effects, now), prompt_id) == 0,
        parkings(route_effects(effects, now)) == 0,
{
    lemma_placed_nothing(route_effects(effects, now), prompt_id);
}

proof fn lemma_parking_places(
    job: PromptJob,
    cooldown: SharedCooldown,
    now: Moment,
    prompt_id: Seq<char>,
)
    ensures
        placed(parked_effects(job, cooldown, now), prompt_id) == tally(
            Some(job.agent_prompt_id@),
            prompt_id,
        ),
        parkings(parked_effects(job, cooldown, now)) == 1,
{
    let effects = parked_effects(job, cooldown, now);
    reveal_with_fuel(placed, 3);
    reveal_with_fuel(parkings, 3);
    assert(effects.drop_last().drop_last() =~= Seq::<Effect>::empty());
}

proof fn lemma_closing_places(
    kind: PendingPromptAdmissionKind,
    prompt_id: Seq<char>,
)
    ensures
        placed(canceled_admission_effects(kind), prompt_id) == tally(
            Some(kind.spec_prompt_id()@),
            prompt_id,
        ),
        parkings(canceled_admission_effects(kind)) == 0,
{
    let effects = canceled_admission_effects(kind);
    reveal_with_fuel(placed, 3);
    reveal_with_fuel(parkings, 3);
    assert(effects.drop_last().len() <= 1);
    if effects.len() == 2 {
        assert(effects.drop_last().drop_last() =~= Seq::<Effect>::empty());
    } else {
        assert(effects.drop_last() =~= Seq::<Effect>::empty());
    }
}

proof fn lemma_dropping_places(admission: PendingPromptAdmission, prompt_id: Seq<char>)
    ensures
        placed(dropped_admission_effects(admission), prompt_id) == tally(
            Some(admission.kind.spec_prompt_id()@),
            prompt_id,
        ),
        parkings(dropped_admission_effects(admission)) == 0,
{
    lemma_closing_places(admission.kind, prompt_id);
    if let Some(request_id) = admission.request_id {
        let read = seq![Effect::Deadline(PromptCredentialDeadlineCommand::Cancel(request_id))];
        lemma_placed_nothing(read, prompt_id);
        lemma_placed_concatenation(read, canceled_admission_effects(admission.kind), prompt_id);
    }
}

proof fn lemma_dropping_line_places(line: Seq<PendingPromptAdmission>, prompt_id: Seq<char>)
    ensures
        placed(dropped_admissions_effects(line), prompt_id) == admitted_count(line, prompt_id),
        parkings(dropped_admissions_effects(line)) == 0,
    decreases line.len(),
{
    if line.len() > 0 {
        lemma_dropping_line_places(line.drop_last(), prompt_id);
        lemma_dropping_places(line.last(), prompt_id);
        lemma_placed_concatenation(
            dropped_admissions_effects(line.drop_last()),
            dropped_admission_effects(line.last()),
            prompt_id,
        );
    }
}

proof fn lemma_closing_queue_places(queue: Seq<PromptJob>, prompt_id: Seq<char>)
    ensures
        placed(canceled_jobs_effects(queue), prompt_id) == queued_count(queue, prompt_id),
        parkings(canceled_jobs_effects(queue)) == 0,
    decreases queue.len(),
{
    if queue.len() > 0 {
        lemma_closing_queue_places(queue.drop_last(), prompt_id);
        assert(canceled_jobs_effects(queue).drop_last() =~= canceled_jobs_effects(
            queue.drop_last(),
        ));
    }
}

proof fn lemma_starting_places(
    jobs: Seq<PromptJob>,
    marked: Set<Seq<char>>,
    shut_down: bool,
    prompt_id: Seq<char>,
)
    ensures
        placed(started_effects(jobs, marked, shut_down), prompt_id) == queued_count(
            jobs,
            prompt_id,
        ),
        parkings(started_effects(jobs, marked, shut_down)) == 0,
    decreases jobs.len(),
{
    if jobs.len() > 0 {
        lemma_starting_places(jobs.drop_last(), marked, shut_down, prompt_id);
        let effects = started_effects(jobs, marked, shut_down);
        assert(effects.drop_last() =~= started_effects(jobs.drop_last(), marked, shut_down));
    }
}

proof fn lemma_cooling_places(
    queue: Seq<PromptJob>,
    cooldowns: Map<Seq<char>, SharedCooldown>,
    now: Moment,
    prompt_id: Seq<char>,
)
    ensures
        placed(cooled_effects(queue, cooldowns, now), prompt_id) + queued_count(
            retained_jobs(queue, cooldowns, now),
            prompt_id,
        ) == queued_count(queue, prompt_id),
        retained_jobs(queue, cooldowns, now).len() <= queue.len(),
        parkings(cooled_effects(queue, cooldowns, now)) == cooled_count(queue, cooldowns, now),
    decreases queue.len(),
{
    if queue.len() > 0 {
        lemma_cooling_places(queue.drop_last(), cooldowns, now, prompt_id);
        let kept = retained_jobs(queue.drop_last(), cooldowns, now);
        lemma_queue_push(kept, queue.last(), prompt_id);
        if let Some(cooldown) = queue_cooldown(queue.last(), cooldowns, now) {
            lemma_parking_places(queue.last(), cooldown, now, prompt_id);
            lemma_placed_concatenation(
                cooled_effects(queue.drop_last(), cooldowns, now),
                parked_effects(queue.last(), cooldown, now),
                prompt_id,
            );
        }
    }
}

proof fn lemma_reading_holds(
    before: &ProviderRuntime,
    after: &ProviderRuntime,
    kind: PendingPromptAdmissionKind,
    request_id: String,
    now: Moment,
    effects_before: Seq<Effect>,
    effects_after: Seq<Effect>,
    prompt_id: Seq<char>,
)
    requires
        credential_read_started(
            before,
            after,
            kind,
            request_id,
            now,
            effects_before,
            effects_after,
        ),
    ensures
        accounted((*after, effects_after), prompt_id) == accounted(
            (*before, effects_before),
            prompt_id,
        ) + tally(Some(kind.spec_prompt_id()@), prompt_id),
        counts_parked((*before, effects_before), (*after, effects_after), 0),
{
    let read = credential_read_effects(before, kind.provider(), request_id, now);
    lemma_placed_nothing(read, prompt_id);
    lemma_placed_concatenation(effects_before, read, prompt_id);
}

proof fn lemma_starting_holds(
    before: &ProviderRuntime,
    after: &ProviderRuntime,
    agent_prompt_id: String,
    prompt: Prompt,
    profiles: &BuiltinProviderProfiles,
    now: Now,
    effects_before: Seq<Effect>,
    effects_after: Seq<Effect>,
    prompt_id: Seq<char>,
)
    requires
        resolved_started(
            before,
            after,
            agent_prompt_id,
            prompt,
            profiles,
            now,
            effects_before,
            effects_after,
        ),
    ensures
        accounted((*after, effects_after), prompt_id) == accounted(
            (*before, effects_before),
            prompt_id,
        ) + tally(Some(agent_prompt_id@), prompt_id),
        counts_parked((*before, effects_before), (*after, effects_after), 0),
{
    let (backend, identity, route) = choose|
        backend: PromptBackend,
        identity: Option<BackendProfileIdentity>,
        route: RouteEffects,
    | #[trigger]
        resolved_started_on(
            before,
            after,
            agent_prompt_id,
            prompt,
            profiles,
            now,
            effects_before,
            effects_after,
            backend,
            identity,
            route,
        );
    let job = new_job(before, agent_prompt_id, prompt, backend, identity);
    let routed = effects_before + route_effects(route, now.moment);
    let submitted = Effect::Report(
        Report::PromptSubmitted { agent_prompt_id, originator: prompt.originator },
    );
    let head = routed.push(submitted);
    lemma_route_places_nothing(route, now.moment, prompt_id);
    lemma_placed_concatenation(effects_before, route_effects(route, now.moment), prompt_id);
    lemma_placed_push(routed, submitted, prompt_id);
    match active_cooldown(
        after.routes.shared_cooldowns@,
        prompt.model.provider@,
        now.moment,
    ) {
        Some(cooldown) => {
            lemma_parking_places(job, cooldown, now.moment, prompt_id);
            lemma_placed_concatenation(
                head,
                parked_effects(job, cooldown, now.moment),
                prompt_id,
            );
        },
        None => {
            lemma_queue_push(before.prompt_queue@, job, prompt_id);
            lemma_placed_push(
                head,
                Effect::StartPrompt {
                    job: PromptJob { cooldown_probe: None, ..job },
                    cooldown_probe: job.cooldown_probe,
                },
                prompt_id,
            );
        },
    }
}

proof fn lemma_requeueing_holds(
    before: &ProviderRuntime,
    after: &ProviderRuntime,
    job: PromptJob,
    backend: PromptBackend,
    identity: Option<BackendProfileIdentity>,
    effects_before: Seq<Effect>,
    effects_after: Seq<Effect>,
    prompt_id: Seq<char>,
)
    requires
        retry_requeued(before, after, job, backend, identity, effects_before, effects_after),
    ensures
        accounted((*after, effects_after), prompt_id) == accounted(
            (*before, effects_before),
            prompt_id,
        ) + tally(Some(job.agent_prompt_id@), prompt_id),
        counts_parked((*before, effects_before), (*after, effects_after), 0),
{
    lemma_queue_push(
        before.prompt_queue@,
        PromptJob { backend, profile_identity: identity, ..job },
        prompt_id,
    );
    lemma_placed_push(
        effects_before,
        Effect::Report(identity_changed_report(job)),
        prompt_id,
    );
}

proof fn lemma_manual_requeueing_holds(
    before: &ProviderRuntime,
    after: &ProviderRuntime,
    job: PromptJob,
    backend: PromptBackend,
    identity: Option<BackendProfileIdentity>,
    now: Moment,
    prompt_id: Seq<char>,
)
    requires
        manual_requeued(before, after, job, backend, identity, now),
    ensures
        held(*after, prompt_id) == held(*before, prompt_id) + tally(
            Some(job.agent_prompt_id@),
            prompt_id,
        ),
{
    lemma_queue_push(before.prompt_queue@, after.prompt_queue@.last(), prompt_id);
}

/// Releasing the head of the admission line loses and doubles no prompt.
proof fn lemma_release_accounts(before: Snapshot, after: Snapshot, now: Now, prompt_id: Seq<char>)
    requires
        head_released(before, after, now),
    ensures
        accounted(after, prompt_id) == accounted(before, prompt_id),
        counts_parked(before, after, 0),
{
    let (runtime, effects_before) = before;
    let (result, effects_after) = after;
    let line = runtime.admission.admissions@;
    let head = line[0];
    assert(line.skip(1) =~= line.remove(0));
    lemma_line_remove(line, 0, prompt_id);
    if runtime.input_closed || runtime.cancellation.canceled(head.kind.spec_prompt_id()@) {
        lemma_closing_places(head.kind, prompt_id);
        lemma_placed_concatenation(
            effects_before,
            canceled_admission_effects(head.kind),
            prompt_id,
        );
    } else {
        let taken = ProviderRuntime { admission: result.admission, ..runtime };
        let (routes, publication) = choose|
            routes: Routes,
            publication: PublicationEffects,
        |
            {
                &&& #[trigger] selected_published(
                    &taken.routes,
                    &routes,
                    head.kind.provider(),
                    &head.profiles,
                    head.observations->0,
                    publication,
                )
                &&& admission_released(
                    &(ProviderRuntime { routes, ..taken }),
                    &result,
                    head,
                    now,
                    effects_before.push(Effect::Publication(publication)),
                    effects_after,
                )
            };
        assert(admission_finished(&taken, &result, head, now, effects_before, effects_after));
        let published = ProviderRuntime { routes, ..taken };
        let told = effects_before.push(Effect::Publication(publication));
        lemma_placed_push(effects_before, Effect::Publication(publication), prompt_id);
        match head.kind {
            PendingPromptAdmissionKind::Initial { agent_prompt_id, prompt } => {
                lemma_starting_holds(
                    &published,
                    &result,
                    agent_prompt_id,
                    prompt,
                    &head.profiles,
                    now,
                    told,
                    effects_after,
                    prompt_id,
                );
            },
            _ => {
                let (backend, identity, route) = choose|
                    backend: PromptBackend,
                    identity: Option<BackendProfileIdentity>,
                    route: RouteEffects,
                | #[trigger]
                    retry_released_on(
                        &published,
                        &result,
                        head,
                        now,
                        told,
                        effects_after,
                        backend,
                        identity,
                        route,
                    );
                let routed = ProviderRuntime { routes: result.routes, ..published };
                let resolved = told + route_effects(route, now.moment);
                lemma_route_places_nothing(route, now.moment, prompt_id);
                lemma_placed_concatenation(told, route_effects(route, now.moment), prompt_id);
                match head.kind {
                    PendingPromptAdmissionKind::RetryDue(job) => {
                        lemma_requeueing_holds(
                            &routed,
                            &result,
                            job,
                            backend,
                            identity,
                            resolved,
                            effects_after,
                            prompt_id,
                        );
                    },
                    PendingPromptAdmissionKind::Manual { job, request_id } => {
                        lemma_manual_requeueing_holds(
                            &routed,
                            &result,
                            job,
                            backend,
                            identity,
                            now.moment,
                            prompt_id,
                        );
                        lemma_placed_push(
                            resolved,
                            manual_result(
                                request_id,
                                job.agent_prompt_id,
                                RetryPromptStatus::Accepted,
                            ),
                            prompt_id,
                        );
                    },
                    _ => {},
                }
            },
        }
    }
}

proof fn lemma_releases_account(trace: Seq<Snapshot>, now: Now, prompt_id: Seq<char>)
    requires
        trace.len() > 0,
        releases(trace, now),
    ensures
        accounted(trace.last(), prompt_id) == accounted(trace[0], prompt_id),
        counts_parked(trace[0], trace.last(), 0),
    decreases trace.len(),
{
    if trace.len() > 1 {
        let rest = trace.drop_last();
        assert(releases(rest, now)) by {
            assert forall|k: int| 0 <= k < rest.len() - 1 implies head_released(
                #[trigger] rest[k],
                rest[k + 1],
                now,
            ) by {
                assert(head_released(trace[k], trace[k + 1], now));
            }
        }
        lemma_releases_account(rest, now, prompt_id);
        let n = trace.len() - 2;
        assert(head_released(trace[n], trace[n + 1], now));
        lemma_release_accounts(trace[n], trace[n + 1], now, prompt_id);
    }
}

/// Settling a round loses and doubles no prompt: whoever leaves the line or the queue starts,
/// parks, or closes. The count of parked prompts grows by those that park.
pub proof fn settling_accounts_for_every_prompt(
    before: Snapshot,
    after: Snapshot,
    now: Now,
    prompt_id: Seq<char>,
)
    requires
        round_settled(before, after, now),
    ensures
        accounted(after, prompt_id) == accounted(before, prompt_id),
        counts_parked(before, after, 0),
{
    let (drained, parked) = choose|drained: Snapshot, parked: Snapshot| #[trigger]
        settled_through(before, drained, parked, after, now);
    assert(line_drained(&before.0, &drained.0, now, before.1, drained.1));
    let trace = choose|trace: Seq<Snapshot>|
        {
            &&& trace.len() > 0
            &&& trace[0] == before
            &&& trace.last() == drained
            &&& #[trigger] releases(trace, now)
        };
    lemma_releases_account(trace, now, prompt_id);
    if !drained.0.input_closed {
        assert(queue_parked(drained, parked, now.moment));
        let cooldowns = drained.0.routes.shared_cooldowns@;
        let queue = drained.0.prompt_queue@;
        lemma_cooling_places(queue, cooldowns, now.moment, prompt_id);
        lemma_placed_concatenation(
            drained.1,
            cooled_effects(queue, cooldowns, now.moment),
            prompt_id,
        );
    }
    assert(queue_started(&parked.0, &after.0, parked.1, after.1));
    let taken = choose|taken: int| #[trigger]
        queue_started_by(&parked.0, &after.0, parked.1, after.1, taken);
    let queue = parked.0.prompt_queue@;
    let marked = parked.0.cancellation.marked();
    let shut_down = parked.0.cancellation.is_shut_down();
    lemma_starting_places(queue.take(taken), marked, shut_down, prompt_id);
    lemma_placed_concatenation(
        parked.1,
        started_effects(queue.take(taken), marked, shut_down),
        prompt_id,
    );
    assert(queue.take(taken) + queue.skip(taken) =~= queue);
    lemma_queue_concatenation(queue.take(taken), queue.skip(taken), prompt_id);
}

proof fn lemma_broadcast_accounts(
    before: &ProviderRuntime,
    after: &ProviderRuntime,
    effects_before: Seq<Effect>,
    effects_after: Seq<Effect>,
    prompt_id: Seq<char>,
)
    requires
        all_canceled(before, after, effects_before, effects_after),
    ensures
        accounted((*after, effects_after), prompt_id) == accounted(
            (*before, effects_before),
            prompt_id,
        ),
        counts_parked((*before, effects_before), (*after, effects_after), 0),
{
    let jobs = canceled_jobs_effects(before.prompt_queue@);
    let line = dropped_admissions_effects(before.admission.admissions@);
    let last = Effect::Deadline(PromptCredentialDeadlineCommand::CancelAll);
    let woken = choose|woken: Vec<u64>|
        {
            &&& #[trigger] woken@ == all_wakers(before.cancellation.registered())
            &&& effects_after == (effects_before + seq![
                Effect::CancelPrewarms(PrewarmScope::All),
                Effect::WakeBackends(woken),
                Effect::Scheduler(SchedulerCommand::CancelAll),
            ] + jobs + line).push(last)
        };
    let notice = seq![
        Effect::CancelPrewarms(PrewarmScope::All),
        Effect::WakeBackends(woken),
        Effect::Scheduler(SchedulerCommand::CancelAll),
    ];
    lemma_placed_nothing(notice, prompt_id);
    lemma_placed_concatenation(effects_before, notice, prompt_id);
    lemma_placed_concatenation(effects_before + notice, jobs, prompt_id);
    lemma_placed_concatenation(effects_before + notice + jobs, line, prompt_id);
    lemma_placed_push(effects_before + notice + jobs + line, last, prompt_id);
    lemma_closing_queue_places(before.prompt_queue@, prompt_id);
    lemma_dropping_line_places(before.admission.admissions@, prompt_id);
}

proof fn lemma_cancellation_accounts(
    before: &ProviderRuntime,
    after: &ProviderRuntime,
    canceled: String,
    effects_before: Seq<Effect>,
    effects_after: Seq<Effect>,
    prompt_id: Seq<char>,
)
    requires
        prompt_canceled(before, after, canceled, effects_before, effects_after),
    ensures
        accounted((*after, effects_after), prompt_id) == accounted(
            (*before, effects_before),
            prompt_id,
        ),
        counts_parked((*before, effects_before), (*after, effects_after), 0),
{
    let (woken, middle, queued, admitted) = choose|
        woken: Vec<u64>,
        middle: Seq<Effect>,
        queued: bool,
        admitted: bool,
    |
        {
            &&& #[trigger] queued_closed(
                before.prompt_queue@,
                after.prompt_queue@,
                canceled@,
                cancel_notice(effects_before, woken, canceled),
                middle,
                queued,
            )
            &&& #[trigger] admission_closed(
                &before.admission,
                &after.admission,
                canceled@,
                middle,
                effects_after,
                admitted,
            )
        };
    let notice = seq![
        Effect::CancelPrewarms(PrewarmScope::All),
        Effect::WakeBackends(woken),
        Effect::Scheduler(SchedulerCommand::Cancel(canceled)),
    ];
    lemma_placed_nothing(notice, prompt_id);
    lemma_placed_concatenation(effects_before, notice, prompt_id);
    let told = effects_before + notice;
    let queue = before.prompt_queue@;
    if queued {
        let i = choose|i: int|
            {
                &&& #[trigger] first_queued(queue, canceled@, i)
                &&& after.prompt_queue@ == queue.remove(i)
                &&& middle == told.push(Effect::Report(canceled_job_report(queue[i])))
            };
        lemma_queue_remove(queue, i, prompt_id);
        lemma_placed_push(told, Effect::Report(canceled_job_report(queue[i])), prompt_id);
    }
    let line = before.admission.admissions@;
    if admitted {
        let (i, pruned) = choose|i: int, pruned: Seq<String>|
            first_admitted(line, canceled@, i) && #[trigger] admission_closed_at(
                &before.admission,
                &after.admission,
                i,
                middle,
                effects_after,
                pruned,
            );
        let dropped = dropped_admission_effects(line[i]);
        lemma_line_remove(line, i, prompt_id);
        lemma_dropping_places(line[i], prompt_id);
        lemma_placed_concatenation(middle, dropped, prompt_id);
        lemma_placed_nothing(deadline_cancellations(pruned), prompt_id);
        lemma_placed_concatenation(middle + dropped, deadline_cancellations(pruned), prompt_id);
    } else {
        assert(not_admitted(line, canceled@));
    }
}

proof fn lemma_arrival_accounts(
    before: &ProviderRuntime,
    after: &ProviderRuntime,
    created: Prompt,
    read_id: String,
    now: Now,
    effects_before: Seq<Effect>,
    effects_after: Seq<Effect>,
    prompt_id: Seq<char>,
)
    requires
        prompt_created(before, after, created, read_id, now, effects_before, effects_after),
    ensures
        accounted((*after, effects_after), prompt_id) == accounted(
            (*before, effects_before),
            prompt_id,
        ) + tally(Some(created.agent_prompt_id@), prompt_id),
        counts_parked((*before, effects_before), (*after, effects_after), 0),
{
    let prompt = Prompt { tools_ref: None, ..created };
    let id = created.agent_prompt_id;
    let takeover = Effect::CancelPrewarms(
        PrewarmScope::Agent { provider: prompt.model.provider, agent_id: prompt.agent_id },
    );
    let head = effects_before.push(takeover);
    lemma_placed_push(effects_before, takeover, prompt_id);
    if before.cancellation.canceled(id@) {
        lemma_placed_push(
            effects_before,
            Effect::Report(canceled_prompt_report(id, prompt)),
            prompt_id,
        );
    } else if before.secret_rpc {
        lemma_reading_holds(
            before,
            after,
            PendingPromptAdmissionKind::Initial { agent_prompt_id: id, prompt },
            read_id,
            now.moment,
            head,
            effects_after,
            prompt_id,
        );
    } else {
        let profiles = choose|profiles: BuiltinProviderProfiles|
            {
                &&& #[trigger] before.loads(prompt.model.provider@, &profiles)
                &&& resolved_started(
                    before,
                    after,
                    id,
                    prompt,
                    &profiles,
                    now,
                    head,
                    effects_after,
                )
            };
        lemma_starting_holds(
            before,
            after,
            id,
            prompt,
            &profiles,
            now,
            head,
            effects_after,
            prompt_id,
        );
    }
}

proof fn lemma_giving_up_keeps_line(
    before: &ProviderRuntime,
    after: &ProviderRuntime,
    key: RefreshKey,
    error: Option<OAuthError>,
    now_ms: u64,
)
    requires
        refresh_given_up(before, after, key, error, now_ms),
    ensures
        same_line(before.admission.admissions@, after.admission.admissions@),
        after.prompt_queue == before.prompt_queue,
{
    let line = before.admission.admissions@;
    let left = after.admission.admissions@;
    if in_flight(before.admission.oauth_refreshes@, key) {
        let current = flight(before.admission.oauth_refreshes@, key).current;
        assert forall|i: int| 0 <= i < line.len() implies (#[trigger] line[i]).kind == (
        #[trigger] left[i]).kind by {
            assert(refresh_failed(
                line[i],
                left[i],
                key,
                current.content(),
                now_ms,
            ));
        }
    }
}

proof fn lemma_reload_keeps_line(
    before: &ProviderRuntime,
    after: &ProviderRuntime,
    key: RefreshKey,
    payload: SecretPayload,
    claims: &JwtClaims,
    now_ms: u64,
)
    requires
        reload_answered(before, after, key, payload, claims, now_ms),
    ensures
        same_line(before.admission.admissions@, after.admission.admissions@),
        after.prompt_queue == before.prompt_queue,
{
    match payload {
        SecretPayload::Contents { contents, oauth, .. } => {
            let settled = choose|settled: ProviderRuntime|
                {
                    &&& match oauth {
                        Some(authoritative) => refresh_adopted(
                            before,
                            &settled,
                            key,
                            authoritative,
                            claims,
                        ),
                        None => refresh_given_up(before, &settled, key, None, now_ms),
                    }
                    &&& #[trigger] observations_replaced(
                        before,
                        &settled,
                        after,
                        key,
                        contents@,
                    )
                };
            let line = before.admission.admissions@;
            let offered = settled.admission.admissions@;
            let left = after.admission.admissions@;
            match oauth {
                Some(authoritative) => {
                    assert forall|i: int| 0 <= i < line.len() implies (#[trigger] line[i]).kind
                        == (#[trigger] offered[i]).kind by {
                        assert(refresh_completed(
                            line[i],
                            offered[i],
                            key,
                            authoritative.content(),
                            claims,
                        ));
                    }
                },
                None => {
                    lemma_giving_up_keeps_line(before, &settled, key, None, now_ms);
                },
            }
            assert forall|i: int| 0 <= i < line.len() implies (#[trigger] line[i]).kind == (
            #[trigger] left[i]).kind by {
                assert(line[i].kind == offered[i].kind);
                assert(waiter_observed(
                    line[i],
                    offered[i],
                    left[i],
                    key,
                    contents@,
                ));
            }
        },
        _ => {
            lemma_giving_up_keeps_line(before, after, key, None, now_ms);
        },
    }
}

proof fn lemma_answer_accounts(
    before: &ProviderRuntime,
    after: &ProviderRuntime,
    request_id: String,
    payload: SecretPayload,
    next_id: String,
    claims: &JwtClaims,
    now: Now,
    effects_before: Seq<Effect>,
    effects_after: Seq<Effect>,
    prompt_id: Seq<char>,
)
    requires
        storage_answered(
            before,
            after,
            request_id,
            payload,
            next_id,
            claims,
            now,
            effects_before,
            effects_after,
        ),
    ensures
        accounted((*after, effects_after), prompt_id) == accounted(
            (*before, effects_before),
            prompt_id,
        ),
        counts_parked((*before, effects_before), (*after, effects_after), 0),
{
    let answered = Effect::Deadline(PromptCredentialDeadlineCommand::Cancel(request_id));
    let head = effects_before.push(answered);
    lemma_placed_push(effects_before, answered, prompt_id);
    let line = before.admission.admissions@;
    let left = after.admission.admissions@;
    if before.admission.oauth_rpcs@.contains_key(request_id@) {
        let operation = before.admission.oauth_rpcs@[request_id@];
        let taken = choose|taken: ProviderRuntime|
            {
                &&& #[trigger] operation_taken(before, &taken, request_id@)
                &&& operation_answered(
                    &taken,
                    after,
                    operation,
                    payload,
                    next_id,
                    claims,
                    now,
                    head,
                    effects_after,
                )
            };
        match operation {
            PromptOAuthRpc::CompareAndSwap { key } => {
                if requires_reload(payload) {
                    let request = Effect::ReadCredential { request_id: next_id, path: key.path };
                    let armed = Effect::Deadline(
                        PromptCredentialDeadlineCommand::Schedule {
                            request_id: next_id,
                            due: credential_deadline(now.moment),
                        },
                    );
                    lemma_placed_push(head, request, prompt_id);
                    lemma_placed_push(head.push(request), armed, prompt_id);
                } else {
                    lemma_giving_up_keeps_line(&taken, after, key.content(), None, now.unix_ms);
                    lemma_same_line(line, left, prompt_id);
                }
            },
            PromptOAuthRpc::Reload { key } => {
                lemma_reload_keeps_line(
                    &taken,
                    after,
                    key.content(),
                    payload,
                    claims,
                    now.unix_ms,
                );
                lemma_same_line(line, left, prompt_id);
            },
        }
    } else {
        assert(reply_admitted(
            before,
            after,
            request_id@,
            payload,
            claims,
            now.unix_ms,
            head,
            effects_after,
        ));
        if exists|
            i: int,
            fresh: PromptCredentialAdmissionState,
            staged: PromptCredentialAdmissionState,
            start: Option<RefreshStart>,
        |
            first_reader(line, request_id@, i) && #[trigger] reply_admitted_at(
                before,
                after,
                i,
                payload,
                claims,
                now.unix_ms,
                head,
                effects_after,
                fresh,
                staged,
                start,
            ) {
            let (i, fresh, staged, start) = choose|
                i: int,
                fresh: PromptCredentialAdmissionState,
                staged: PromptCredentialAdmissionState,
                start: Option<RefreshStart>,
            |
                first_reader(line, request_id@, i)
                    && #[trigger] reply_admitted_at(
                    before,
                    after,
                    i,
                    payload,
                    claims,
                    now.unix_ms,
                    head,
                    effects_after,
                    fresh,
                    staged,
                    start,
                );
            assert(same_line(line, left));
            lemma_same_line(line, left, prompt_id);
            if let Some(start) = start {
                lemma_placed_push(head, Effect::RefreshOAuth(start), prompt_id);
            }
        }
    }
}

/// An input loses and doubles no prompt. Only the end of input forgets those that still wait for
/// a credential. The count of parked prompts grows by those that park.
pub proof fn inputs_account_for_every_prompt(
    before: Snapshot,
    after: Snapshot,
    input: LoopInput,
    claims: &JwtClaims,
    now: Now,
    prompt_id: Seq<char>,
)
    requires
        input_applied(before, after, input, claims, now),
    ensures
        accounted(after, prompt_id) + forgotten(before.0, input, prompt_id) == accounted(
            before,
            prompt_id,
        ) + tally(brought_by_input(input), prompt_id),
        counts_parked(before, after, 0),
{
    let (runtime, effects_before) = before;
    let (result, effects_after) = after;
    match input {
        LoopInput::PromptCreated { prompt, read_id } => {
            lemma_arrival_accounts(
                &runtime,
                &result,
                prompt,
                read_id,
                now,
                effects_before,
                effects_after,
                prompt_id,
            );
        },
        LoopInput::CancelPrompt { agent_prompt_id: Some(canceled) } => {
            lemma_cancellation_accounts(
                &runtime,
                &result,
                canceled,
                effects_before,
                effects_after,
                prompt_id,
            );
        },
        LoopInput::CancelPrompt { agent_prompt_id: None } => {
            lemma_broadcast_accounts(&runtime, &result, effects_before, effects_after, prompt_id);
        },
        LoopInput::SessionShutdown => {
            lemma_broadcast_accounts(
                &runtime,
                &result,
                effects_before,
                effects_after.drop_last(),
                prompt_id,
            );
        },
        LoopInput::Storage { request_id, payload, next_id } => {
            lemma_answer_accounts(
                &runtime,
                &result,
                request_id,
                payload,
                next_id,
                claims,
                now,
                effects_before,
                effects_after,
                prompt_id,
            );
        },
        LoopInput::Closed | LoopInput::StopRequested => {
            let woken = choose|woken: Vec<u64>|
                {
                    &&& #[trigger] woken@ == all_wakers(runtime.cancellation.registered())
                    &&& effects_after == effects_before + seq![
                        Effect::CancelPrewarms(PrewarmScope::All),
                        Effect::WakeBackends(woken),
                        Effect::Deadline(PromptCredentialDeadlineCommand::CancelAll),
                        Effect::Scheduler(SchedulerCommand::CancelAll),
                    ]
                };
            let notice = seq![
                Effect::CancelPrewarms(PrewarmScope::All),
                Effect::WakeBackends(woken),
                Effect::Deadline(PromptCredentialDeadlineCommand::CancelAll),
                Effect::Scheduler(SchedulerCommand::CancelAll),
            ];
            lemma_placed_nothing(notice, prompt_id);
            lemma_placed_concatenation(effects_before, notice, prompt_id);
        },
        LoopInput::Disconnected => {
            let woken = choose|woken: Vec<u64>|
                {
                    &&& #[trigger] woken@ == all_wakers(runtime.cancellation.registered())
                    &&& effects_after == effects_before.push(Effect::WakeBackends(woken)).push(
                        Effect::CancelPrewarms(PrewarmScope::All),
                    )
                };
            lemma_placed_push(effects_before, Effect::WakeBackends(woken), prompt_id);
            lemma_placed_push(
                effects_before.push(Effect::WakeBackends(woken)),
                Effect::CancelPrewarms(PrewarmScope::All),
                prompt_id,
            );
        },
        LoopInput::RetryPrompt { request_id, agent_prompt_id: Some(parked) } => {
            lemma_placed_push(
                effects_before,
                Effect::Scheduler(
                    SchedulerCommand::RetryNow { request_id, agent_prompt_id: parked },
                ),
                prompt_id,
            );
        },
        LoopInput::CacheRefreshCanceled { refresh_id } => {
            lemma_placed_push(
                effects_before,
                Effect::CancelPrewarms(PrewarmScope::Refresh(refresh_id)),
                prompt_id,
            );
        },
        LoopInput::Configured { settings, replies } => {
            lemma_settings_account(
                &runtime,
                &result,
                settings,
                replies@,
                effects_before,
                effects_after,
                prompt_id,
            );
        },
        LoopInput::Prewarm { request, config } => {
            lemma_prewarm_accounts(
                &runtime,
                &result,
                request,
                config,
                effects_before,
                effects_after,
                prompt_id,
            );
        },
        LoopInput::CacheRefresh { request, refresh_id, stop_after_millis, config } => {
            lemma_cache_refresh_accounts(
                &runtime,
                &result,
                request,
                refresh_id,
                stop_after_millis,
                config,
                now.moment,
                effects_before,
                effects_after,
                prompt_id,
            );
        },
        _ => {},
    }
}

proof fn lemma_settings_account(
    before: &ProviderRuntime,
    after: &ProviderRuntime,
    settings: BuiltinProviderProfiles,
    replies: Map<Seq<char>, SecretReply>,
    effects_before: Seq<Effect>,
    effects_after: Seq<Effect>,
    prompt_id: Seq<char>,
)
    requires
        settings_accepted(
            before,
            after,
            settings,
            replies,
            effects_before,
            effects_after,
        ),
    ensures
        accounted((*after, effects_after), prompt_id) == accounted(
            (*before, effects_before),
            prompt_id,
        ),
        counts_parked((*before, effects_before), (*after, effects_after), 0),
{
    if !before.configured {
        let (captured, profiles) = choose|
            captured: ProviderRuntime,
            profiles: BuiltinProviderProfiles,
        |
            {
                &&& captured == (ProviderRuntime {
                    settings,
                    configured: true,
                    startup_modes: captured.startup_modes,
                    ..*before
                })
                &&& #[trigger] all_loaded(
                    &captured,
                    after,
                    replies,
                    &profiles,
                    effects_before,
                    effects_after,
                )
            };
        if before.secret_rpc {
            lemma_placed_push(effects_before, effects_after.last(), prompt_id);
        }
    }
}

proof fn lemma_prewarm_start_accounts(
    before: &ProviderRuntime,
    after: &ProviderRuntime,
    request: PrewarmRequest,
    provider: String,
    config: ResolvedConfig,
    refresh_id: Option<String>,
    deadline: Option<Moment>,
    effects_before: Seq<Effect>,
    effects_after: Seq<Effect>,
    prompt_id: Seq<char>,
)
    requires
        prewarm_started(
            before,
            after,
            request,
            provider,
            config,
            refresh_id,
            deadline,
            effects_before,
            effects_after,
        ),
    ensures
        accounted((*after, effects_after), prompt_id) == accounted(
            (*before, effects_before),
            prompt_id,
        ),
        counts_parked((*before, effects_before), (*after, effects_after), 0),
{
    let last = prewarm_admitted(before, request, provider, config, refresh_id, deadline);
    assert(exists|first: bool, second: bool|
        effects_after == effects_before + #[trigger] profile_changed_effects(provider, first)
            + #[trigger] profile_changed_effects(provider, second) + last);
    let (first, second) = choose|first: bool, second: bool|
        effects_after == effects_before + #[trigger] profile_changed_effects(provider, first)
            + #[trigger] profile_changed_effects(provider, second) + last;
    let a = profile_changed_effects(provider, first);
    let b = profile_changed_effects(provider, second);
    lemma_placed_nothing(a, prompt_id);
    lemma_placed_nothing(b, prompt_id);
    lemma_placed_nothing(last, prompt_id);
    lemma_placed_concatenation(effects_before, a, prompt_id);
    lemma_placed_concatenation(effects_before + a, b, prompt_id);
    lemma_placed_concatenation(effects_before + a + b, last, prompt_id);
}

proof fn lemma_prewarm_accounts(
    before: &ProviderRuntime,
    after: &ProviderRuntime,
    request: PrewarmRequest,
    config: Option<ResolvedConfig>,
    effects_before: Seq<Effect>,
    effects_after: Seq<Effect>,
    prompt_id: Seq<char>,
)
    requires
        prewarm_requested(
            before,
            after,
            request,
            config,
            effects_before,
            effects_after,
        ),
    ensures
        accounted((*after, effects_after), prompt_id) == accounted(
            (*before, effects_before),
            prompt_id,
        ),
        counts_parked((*before, effects_before), (*after, effects_after), 0),
{
    if let Some(model) = request.model {
        match config {
            None => {
                let changed = before.routes.prewarm_profile_identities@.contains_key(
                    model.provider@,
                );
                let effects = profile_changed_effects(model.provider, changed);
                lemma_placed_nothing(effects, prompt_id);
                lemma_placed_concatenation(effects_before, effects, prompt_id);
            },
            Some(config) => {
                if !before.routes.shared_cooldowns@.contains_key(model.provider@) {
                    lemma_prewarm_start_accounts(
                        before,
                        after,
                        request,
                        model.provider,
                        config,
                        None,
                        None,
                        effects_before,
                        effects_after,
                        prompt_id,
                    );
                }
            },
        }
    }
}

proof fn lemma_cache_refresh_accounts(
    before: &ProviderRuntime,
    after: &ProviderRuntime,
    request: PrewarmRequest,
    refresh_id: String,
    stop_after_millis: u32,
    config: Option<ResolvedConfig>,
    now: Moment,
    effects_before: Seq<Effect>,
    effects_after: Seq<Effect>,
    prompt_id: Seq<char>,
)
    requires
        cache_refresh_requested(
            before,
            after,
            request,
            refresh_id,
            stop_after_millis,
            config,
            now,
            effects_before,
            effects_after,
        ),
    ensures
        accounted((*after, effects_after), prompt_id) == accounted(
            (*before, effects_before),
            prompt_id,
        ),
        counts_parked((*before, effects_before), (*after, effects_after), 0),
{
    lemma_placed_push(effects_before, effects_after.last(), prompt_id);
    if let (Some(model), Some(config)) = (request.model, config) {
        if !before.routes.shared_cooldowns@.contains_key(model.provider@) {
            lemma_prewarm_start_accounts(
                before,
                after,
                request,
                model.provider,
                config,
                Some(refresh_id),
                Some(refresh_deadline(now, stop_after_millis)),
                effects_before,
                effects_after,
                prompt_id,
            );
        }
    }
}

proof fn lemma_failure_accounts(
    before: &ProviderRuntime,
    after: &ProviderRuntime,
    failure: AttemptFailure,
    now: Moment,
    effects_before: Seq<Effect>,
    effects_after: Seq<Effect>,
    prompt_id: Seq<char>,
)
    requires
        attempt_failed(before, after, failure, now, effects_before, effects_after),
    ensures
        accounted((*after, effects_after), prompt_id) == accounted(
            (*before, effects_before),
            prompt_id,
        ) + tally(Some(failure.job.agent_prompt_id@), prompt_id),
        counts_parked((*before, effects_before), (*after, effects_after), 0),
{
    if must_close(
        failure.job,
        before.input_closed,
        before.cancel_generation,
        &before.cancellation,
    ) {
        lemma_placed_push(effects_before, effects_after.last(), prompt_id);
    } else {
        let provider = failure.job.prompt.model.provider;
        let shared = shares_evidence(
            failure.job,
            failure.decision,
            before.routes.provider_profile_identities@,
        );
        let cooldown = merged_cooldown(
            lookup(before.routes.shared_cooldowns@, provider@),
            (before.routes.shared_cooldown_generation + 1) as u64,
            failure_boundary(failure.job, failure.decision, now),
            failure.decision.class,
        );
        let evidence = if shared {
            Some(cooldown)
        } else {
            None
        };
        let told = if shared {
            evidence_effects(provider, cooldown)
        } else {
            Seq::empty()
        };
        let ended = failure_effects(failure, evidence, now);
        lemma_placed_nothing(told, prompt_id);
        lemma_placed_concatenation(effects_before, told, prompt_id);
        lemma_placed_concatenation(effects_before + told, ended, prompt_id);
        reveal_with_fuel(placed, 3);
        reveal_with_fuel(parkings, 3);
        if ended.len() == 2 {
            assert(ended.drop_last().drop_last() =~= Seq::<Effect>::empty());
        } else {
            assert(ended.drop_last() =~= Seq::<Effect>::empty());
        }
    }
}

proof fn lemma_due_accounts(
    before: &ProviderRuntime,
    after: &ProviderRuntime,
    job: PromptJob,
    read_id: String,
    claims: &JwtClaims,
    now: Now,
    effects_before: Seq<Effect>,
    effects_after: Seq<Effect>,
    prompt_id: Seq<char>,
)
    requires
        retry_came_due(
            before,
            after,
            job,
            read_id,
            claims,
            now,
            effects_before,
            effects_after,
        ),
    ensures
        accounted((*after, effects_after), prompt_id) == accounted(
            (*before, effects_before),
            prompt_id,
        ) + tally(Some(job.agent_prompt_id@), prompt_id),
        counts_parked((*before, effects_before), (*after, effects_after), 1),
{
    let counted = handed_back(before, 1);
    if must_close(
        job,
        before.input_closed,
        before.cancel_generation,
        &before.cancellation,
    ) {
        lemma_placed_push(effects_before, Effect::Report(canceled_job_report(job)), prompt_id);
    } else if before.secret_rpc {
        lemma_reading_holds(
            &counted,
            after,
            PendingPromptAdmissionKind::RetryDue(job),
            read_id,
            now.moment,
            effects_before,
            effects_after,
            prompt_id,
        );
    } else {
        let (profiles, backend, identity, route) = choose|
            profiles: BuiltinProviderProfiles,
            backend: PromptBackend,
            identity: Option<BackendProfileIdentity>,
            route: RouteEffects,
        |
            {
                &&& #[trigger] offline_route(
                    &counted,
                    after,
                    job,
                    claims,
                    now,
                    &profiles,
                    backend,
                    identity,
                    route,
                )
                &&& retry_requeued(
                    &(ProviderRuntime { routes: after.routes, ..counted }),
                    after,
                    job,
                    backend,
                    identity,
                    effects_before + route_effects(route, now.moment),
                    effects_after,
                )
            };
        lemma_route_places_nothing(route, now.moment, prompt_id);
        lemma_placed_concatenation(effects_before, route_effects(route, now.moment), prompt_id);
        lemma_requeueing_holds(
            &(ProviderRuntime { routes: after.routes, ..counted }),
            after,
            job,
            backend,
            identity,
            effects_before + route_effects(route, now.moment),
            effects_after,
            prompt_id,
        );
    }
}

proof fn lemma_manual_accounts(
    before: &ProviderRuntime,
    after: &ProviderRuntime,
    job: Option<PromptJob>,
    request_id: String,
    agent_prompt_id: String,
    read_id: String,
    claims: &JwtClaims,
    now: Now,
    effects_before: Seq<Effect>,
    effects_after: Seq<Effect>,
    prompt_id: Seq<char>,
)
    requires
        manually_released(
            before,
            after,
            job,
            request_id,
            agent_prompt_id,
            read_id,
            claims,
            now,
            effects_before,
            effects_after,
        ),
    ensures
        accounted((*after, effects_after), prompt_id) == accounted(
            (*before, effects_before),
            prompt_id,
        ) + match job {
            Some(job) => tally(Some(job.agent_prompt_id@), prompt_id),
            None => 0,
        },
        counts_parked(
            (*before, effects_before),
            (*after, effects_after),
            if job is Some {
                1
            } else {
                0
            },
        ),
{
    let counted = handed_back(before, 1);
    let refused = manual_result(
        request_id,
        agent_prompt_id,
        RetryPromptStatus::NotParked,
    );
    let accepted = manual_result(
        request_id,
        agent_prompt_id,
        RetryPromptStatus::Accepted,
    );
    match job {
        None => {
            lemma_placed_push(effects_before, refused, prompt_id);
        },
        Some(job) => if must_close(
            job,
            before.input_closed,
            before.cancel_generation,
            &before.cancellation,
        ) {
            let closed = Effect::Report(canceled_job_report(job));
            lemma_placed_push(effects_before, closed, prompt_id);
            lemma_placed_push(effects_before.push(closed), refused, prompt_id);
        } else if before.secret_rpc {
            lemma_reading_holds(
                &counted,
                after,
                PendingPromptAdmissionKind::Manual { job, request_id },
                read_id,
                now.moment,
                effects_before,
                effects_after,
                prompt_id,
            );
        } else {
            let (profiles, backend, identity, route) = choose|
                profiles: BuiltinProviderProfiles,
                backend: PromptBackend,
                identity: Option<BackendProfileIdentity>,
                route: RouteEffects,
            |
                {
                    &&& #[trigger] offline_route(
                        &counted,
                        after,
                        job,
                        claims,
                        now,
                        &profiles,
                        backend,
                        identity,
                        route,
                    )
                    &&& manual_requeued(
                        &(ProviderRuntime { routes: after.routes, ..counted }),
                        after,
                        job,
                        backend,
                        identity,
                        now.moment,
                    )
                    &&& effects_after == (effects_before + route_effects(
                        route,
                        now.moment,
                    )).push(accepted)
                };
            let routed = effects_before + route_effects(route, now.moment);
            lemma_route_places_nothing(route, now.moment, prompt_id);
            lemma_placed_concatenation(
                effects_before,
                route_effects(route, now.moment),
                prompt_id,
            );
            lemma_placed_push(routed, accepted, prompt_id);
            lemma_manual_requeueing_holds(
                &(ProviderRuntime { routes: after.routes, ..counted }),
                after,
                job,
                backend,
                identity,
                now.moment,
                prompt_id,
            );
        },
    }
}

proof fn lemma_expiry_keeps_line(
    before: &ProviderRuntime,
    after: &ProviderRuntime,
    request_id: Seq<char>,
    now_ms: u64,
)
    requires
        request_expired(before, after, request_id, now_ms),
    ensures
        same_line(before.admission.admissions@, after.admission.admissions@),
        after.prompt_queue == before.prompt_queue,
{
    let (expired, key) = choose|
        expired: PromptCredentialAdmissionState,
        key: Option<PromptOAuthRefreshKey>,
    |
        {
            let middle = ProviderRuntime { admission: expired, ..*before };
            &&& #[trigger] timed_out(&before.admission, &expired, request_id, key)
            &&& match key {
                Some(key) => refresh_given_up(&middle, after, key.content(), None, now_ms),
                None => *after == middle,
            }
        };
    let middle = ProviderRuntime { admission: expired, ..*before };
    let line = before.admission.admissions@;
    let left = expired.admissions@;
    assert(same_line(line, left));
    if let Some(key) = key {
        lemma_giving_up_keeps_line(&middle, after, key.content(), None, now_ms);
        assert forall|i: int| 0 <= i < line.len() implies (#[trigger] line[i]).kind == (
        #[trigger] after.admission.admissions@[i]).kind by {
            assert(line[i].kind == left[i].kind);
        }
    }
}

proof fn lemma_refresh_end_accounts(
    before: &ProviderRuntime,
    after: &ProviderRuntime,
    key: PromptOAuthRefreshKey,
    result: Result<OAuthTokenRefresh, OAuthError>,
    request_id: String,
    claims: &JwtClaims,
    now: Now,
    effects_before: Seq<Effect>,
    effects_after: Seq<Effect>,
    prompt_id: Seq<char>,
)
    requires
        network_refresh_finished(
            before,
            after,
            key,
            result,
            request_id,
            claims,
            now,
            effects_before,
            effects_after,
        ),
    ensures
        accounted((*after, effects_after), prompt_id) == accounted(
            (*before, effects_before),
            prompt_id,
        ),
        counts_parked((*before, effects_before), (*after, effects_after), 0),
{
    if in_flight(before.admission.oauth_refreshes@, key.content()) {
        let current = flight(
            before.admission.oauth_refreshes@,
            key.content(),
        ).current;
        let line = before.admission.admissions@;
        let left = after.admission.admissions@;
        match result {
            Ok(tokens) => match merged_auth(current.content(), tokens, claims) {
                Ok(expected) => {
                    assert(effects_after.len() == effects_before.len() + 2);
                    let request = effects_after[effects_after.len() - 2];
                    let armed = effects_after.last();
                    assert(effects_after =~= effects_before.push(request).push(armed));
                    lemma_placed_push(effects_before, request, prompt_id);
                    lemma_placed_push(effects_before.push(request), armed, prompt_id);
                },
                Err(()) => {
                    lemma_giving_up_keeps_line(before, after, key.content(), None, now.unix_ms);
                    lemma_same_line(line, left, prompt_id);
                },
            },
            Err(error) => {
                lemma_giving_up_keeps_line(
                    before,
                    after,
                    key.content(),
                    Some(error),
                    now.unix_ms,
                );
                lemma_same_line(line, left, prompt_id);
            },
        }
    }
}

proof fn lemma_commit_accounts(
    before: &ProviderRuntime,
    after: &ProviderRuntime,
    report: Report,
    dispatch_generation: u64,
    reported: Seq<char>,
    probe: Option<CooldownProbe>,
    now: Moment,
    effects_before: Seq<Effect>,
    effects_after: Seq<Effect>,
    prompt_id: Seq<char>,
)
    requires
        output_committed(
            before,
            after,
            report,
            dispatch_generation,
            reported,
            probe,
            now,
            effects_before,
            effects_after,
        ),
    ensures
        accounted((*after, effects_after), prompt_id) == accounted(
            (*before, effects_before),
            prompt_id,
        ) + tally(placed_by(Effect::Report(report)), prompt_id),
        counts_parked((*before, effects_before), (*after, effects_after), 0),
{
    let commit = CommitState {
        dispatch_generation,
        current_generation: before.cancel_generation,
        input_closed: before.input_closed,
    };
    let current = commit.is_current(&before.cancellation, reported);
    let validated = committed(report, current, reported);
    let released = released_provider(
        validated,
        reported,
        probe,
        before.routes.shared_cooldowns@,
    );
    let effects = commit_effects(
        validated,
        released,
        before.routes.shared_cooldowns@,
        now,
    );
    lemma_placed_concatenation(effects_before, effects, prompt_id);
    reveal_with_fuel(placed, 3);
    reveal_with_fuel(parkings, 3);
    if effects.len() == 2 {
        assert(effects.drop_last().drop_last() =~= Seq::<Effect>::empty());
    } else if effects.len() == 1 {
        assert(effects.drop_last() =~= Seq::<Effect>::empty());
    }
}

proof fn lemma_timer_places_nothing(
    before: &ProviderRuntime,
    after: &ProviderRuntime,
    provider: String,
    epoch: QuotaEpoch,
    delay: Span,
    effects_before: Seq<Effect>,
    effects_after: Seq<Effect>,
    prompt_id: Seq<char>,
)
    requires
        refresh_scheduled(
            before,
            after,
            provider,
            epoch,
            delay,
            effects_before,
            effects_after,
        ),
    ensures
        accounted((*after, effects_after), prompt_id) == accounted(
            (*before, effects_before),
            prompt_id,
        ),
        counts_parked((*before, effects_before), (*after, effects_after), 0),
{
    if effects_after != effects_before {
        lemma_placed_push(effects_before, effects_after.last(), prompt_id);
    }
}

proof fn lemma_quota_failure_accounts(
    before: &ProviderRuntime,
    after: &ProviderRuntime,
    provider: String,
    epoch: QuotaEpoch,
    effects_before: Seq<Effect>,
    effects_after: Seq<Effect>,
    prompt_id: Seq<char>,
)
    requires
        failure_followed(
            before,
            after,
            provider,
            epoch,
            effects_before,
            effects_after,
        ),
    ensures
        accounted((*after, effects_after), prompt_id) == accounted(
            (*before, effects_before),
            prompt_id,
        ),
        counts_parked((*before, effects_before), (*after, effects_after), 0),
{
    if before.routes.quota.in_epoch(provider@, epoch) {
        let delay = choose|delay: Span|
            follows_failure(&before.routes.quota, provider@, delay)
                && #[trigger] refresh_scheduled(
                before,
                after,
                provider,
                epoch,
                delay,
                effects_before,
                effects_after,
            );
        lemma_timer_places_nothing(
            before,
            after,
            provider,
            epoch,
            delay,
            effects_before,
            effects_after,
            prompt_id,
        );
    }
}

proof fn lemma_quota_fetch_accounts(
    before: &ProviderRuntime,
    after: &ProviderRuntime,
    provider: String,
    epoch: QuotaEpoch,
    start: u64,
    observed_at_unix_ms: u64,
    snapshot: Option<Vec<QuotaWindowObservation>>,
    now_ms: u64,
    effects_before: Seq<Effect>,
    effects_after: Seq<Effect>,
    prompt_id: Seq<char>,
)
    requires
        quota_fetch_ended(
            before,
            after,
            provider,
            epoch,
            start,
            observed_at_unix_ms,
            snapshot,
            now_ms,
            effects_before,
            effects_after,
        ),
    ensures
        accounted((*after, effects_after), prompt_id) == accounted(
            (*before, effects_before),
            prompt_id,
        ),
        counts_parked((*before, effects_before), (*after, effects_after), 0),
{
    match snapshot {
        Some(observations) => {
            let (quota, report) = choose|
                quota: QuotaCoordinator,
                report: Option<QuotaReport>,
            |
                {
                    let recorded = with_quota(before, quota);
                    &&& #[trigger] fetch_finished(
                        &before.routes.quota,
                        &quota,
                        provider,
                        epoch,
                        start,
                        observations@,
                        observed_at_unix_ms,
                        report,
                    )
                    &&& match report {
                        Some(report) => exists|delay: Span|
                            follows_success(&quota, provider@, now_ms, delay)
                                && #[trigger] refresh_scheduled(
                                &recorded,
                                after,
                                provider,
                                epoch,
                                delay,
                                effects_before.push(Effect::Quota(report)),
                                effects_after,
                            ),
                        None => failure_followed(
                            &recorded,
                            after,
                            provider,
                            epoch,
                            effects_before,
                            effects_after,
                        ),
                    }
                };
            let recorded = with_quota(before, quota);
            match report {
                Some(report) => {
                    let told = effects_before.push(Effect::Quota(report));
                    let delay = choose|delay: Span|
                        follows_success(&quota, provider@, now_ms, delay)
                            && #[trigger] refresh_scheduled(
                            &recorded,
                            after,
                            provider,
                            epoch,
                            delay,
                            told,
                            effects_after,
                        );
                    lemma_placed_push(effects_before, Effect::Quota(report), prompt_id);
                    lemma_timer_places_nothing(
                        &recorded,
                        after,
                        provider,
                        epoch,
                        delay,
                        told,
                        effects_after,
                        prompt_id,
                    );
                },
                None => {
                    lemma_quota_failure_accounts(
                        &recorded,
                        after,
                        provider,
                        epoch,
                        effects_before,
                        effects_after,
                        prompt_id,
                    );
                },
            }
        },
        None => {
            let quota = choose|quota: QuotaCoordinator|
                {
                    &&& #[trigger] fetch_failed(
                        &before.routes.quota,
                        &quota,
                        provider@,
                        epoch,
                    )
                    &&& failure_followed(
                        &with_quota(before, quota),
                        after,
                        provider,
                        epoch,
                        effects_before,
                        effects_after,
                    )
                };
            lemma_quota_failure_accounts(
                &with_quota(before, quota),
                after,
                provider,
                epoch,
                effects_before,
                effects_after,
                prompt_id,
            );
        },
    }
}

proof fn lemma_quota_refresh_accounts(
    before: &ProviderRuntime,
    after: &ProviderRuntime,
    provider: String,
    config: Option<ResolvedConfig>,
    now: Now,
    effects_before: Seq<Effect>,
    effects_after: Seq<Effect>,
    prompt_id: Seq<char>,
)
    requires
        quota_refreshed(
            before,
            after,
            provider,
            config,
            now,
            effects_before,
            effects_after,
        ),
    ensures
        accounted((*after, effects_after), prompt_id) == accounted(
            (*before, effects_before),
            prompt_id,
        ),
        counts_parked((*before, effects_before), (*after, effects_after), 0),
{
    let delay = Span {
        nanos: (QUOTA_FETCH_MIN_INTERVAL_SECS * NANOS_PER_SEC) as u128,
    };
    match config {
        Some(config) => {
            let (ensured, identity, effects) = choose|
                ensured: ProviderRuntime,
                identity: BackendProfileIdentity,
                effects: RouteEffects,
            |
                {
                    let told = effects_before.push(Effect::Route(effects));
                    &&& #[trigger] quota_followed(
                        before,
                        &ensured,
                        provider,
                        config,
                        identity,
                        now,
                        effects,
                    )
                    &&& if effects.fetch is None && ensured.routes.quota@.contains_key(provider@) {
                        refresh_scheduled(
                            &ensured,
                            after,
                            provider,
                            ensured.routes.quota@[provider@].epoch,
                            delay,
                            told,
                            effects_after,
                        )
                    } else {
                        *after == ensured && effects_after == told
                    }
                };
            let told = effects_before.push(Effect::Route(effects));
            lemma_placed_push(effects_before, Effect::Route(effects), prompt_id);
            if effects.fetch is None && ensured.routes.quota@.contains_key(provider@) {
                lemma_timer_places_nothing(
                    &ensured,
                    after,
                    provider,
                    ensured.routes.quota@[provider@].epoch,
                    delay,
                    told,
                    effects_after,
                    prompt_id,
                );
            }
        },
        None => {
            lemma_placed_push(effects_before, effects_after.last(), prompt_id);
        },
    }
}

/// A worker notice loses and doubles no prompt: a job that comes back waits, parks, or closes,
/// and a worker's terminal is passed on exactly once, canceled or not. The count of parked
/// prompts shrinks by what the scheduler gave back and grows by those that park.
pub proof fn notices_account_for_every_prompt(
    before: Snapshot,
    after: Snapshot,
    message: WorkerMessage,
    claims: &JwtClaims,
    now: Now,
    prompt_id: Seq<char>,
)
    requires
        message_applied(before, after, message, claims, now),
    ensures
        accounted(after, prompt_id) == accounted(before, prompt_id) + tally(
            brought_by(message),
            prompt_id,
        ),
        counts_parked(before, after, released_by(message)),
{
    let (runtime, effects_before) = before;
    let (result, effects_after) = after;
    match message {
        WorkerMessage::OAuthRefreshFinished { key, result: outcome, request_id } => {
            lemma_refresh_end_accounts(
                &runtime,
                &result,
                key,
                outcome,
                request_id,
                claims,
                now,
                effects_before,
                effects_after,
                prompt_id,
            );
        },
        WorkerMessage::CredentialTimeout { request_id } => {
            lemma_expiry_keeps_line(&runtime, &result, request_id@, now.unix_ms);
            lemma_same_line(
                runtime.admission.admissions@,
                result.admission.admissions@,
                prompt_id,
            );
        },
        WorkerMessage::Output { report, dispatch_generation, agent_prompt_id, cooldown_probe } => {
            lemma_commit_accounts(
                &runtime,
                &result,
                report,
                dispatch_generation,
                agent_prompt_id@,
                cooldown_probe,
                now.moment,
                effects_before,
                effects_after,
                prompt_id,
            );
        },
        WorkerMessage::CompactRouteUnavailable { identity, profiles } => {
            if effects_after != effects_before {
                lemma_placed_push(effects_before, effects_after.last(), prompt_id);
            }
        },
        WorkerMessage::PrewarmDone { key, terminal } => {
            if effects_after != effects_before {
                lemma_placed_push(effects_before, effects_after.last(), prompt_id);
            }
        },
        WorkerMessage::AttemptFailed(failure) => {
            lemma_failure_accounts(
                &runtime,
                &result,
                failure,
                now.moment,
                effects_before,
                effects_after,
                prompt_id,
            );
        },
        WorkerMessage::RetryDue { job, read_id } => {
            lemma_due_accounts(
                &runtime,
                &result,
                job,
                read_id,
                claims,
                now,
                effects_before,
                effects_after,
                prompt_id,
            );
        },
        WorkerMessage::ManualRetry { job, request_id, agent_prompt_id, read_id } => {
            lemma_manual_accounts(
                &runtime,
                &result,
                job,
                request_id,
                agent_prompt_id,
                read_id,
                claims,
                now,
                effects_before,
                effects_after,
                prompt_id,
            );
        },
        WorkerMessage::DelayedCanceled { job, delayed_count } => {
            lemma_placed_push(
                effects_before,
                Effect::Report(canceled_job_report(job)),
                prompt_id,
            );
        },
        WorkerMessage::QuotaRolling { .. } => {
            if effects_after != effects_before {
                lemma_placed_push(effects_before, effects_after.last(), prompt_id);
            }
        },
        WorkerMessage::QuotaFetchFinished {
            provider,
            profile_epoch,
            fetch_start_sequence,
            observed_at_unix_ms,
            snapshot,
        } => {
            lemma_quota_fetch_accounts(
                &runtime,
                &result,
                provider,
                profile_epoch,
                fetch_start_sequence,
                observed_at_unix_ms,
                snapshot,
                now.unix_ms,
                effects_before,
                effects_after,
                prompt_id,
            );
        },
        WorkerMessage::QuotaRefreshDue { provider, config } => {
            lemma_quota_refresh_accounts(
                &runtime,
                &result,
                provider,
                config,
                now,
                effects_before,
                effects_after,
                prompt_id,
            );
        },
        _ => {},
    }
}

proof fn lemma_notices_account(
    trace: Seq<Snapshot>,
    messages: Seq<WorkerMessage>,
    claims: &JwtClaims,
    now: Now,
    prompt_id: Seq<char>,
)
    requires
        messages_applied(trace, messages, claims, now),
    ensures
        accounted(trace.last(), prompt_id) == accounted(trace[0], prompt_id) + brought(
            messages.take(trace.len() - 1),
            prompt_id,
        ),
    decreases trace.len(),
{
    let n = trace.len() - 1;
    if n == 0 {
        assert(messages.take(0) =~= Seq::<WorkerMessage>::empty());
    } else {
        let rest = trace.drop_last();
        assert(messages_applied(rest, messages, claims, now)) by {
            assert forall|k: int| 0 <= k < rest.len() - 1 implies message_applied(
                #[trigger] rest[k],
                rest[k + 1],
                messages[k],
                claims,
                now,
            ) by {
                assert(message_applied(trace[k], trace[k + 1], messages[k], claims, now));
            }
        }
        lemma_notices_account(rest, messages, claims, now, prompt_id);
        assert(message_applied(trace[n - 1], trace[n], messages[n - 1], claims, now));
        notices_account_for_every_prompt(
            trace[n - 1],
            trace[n],
            messages[n - 1],
            claims,
            now,
            prompt_id,
        );
        assert(messages.take(n).drop_last() =~= messages.take(n - 1));
    }
}

/// How often a round brings `prompt_id`: its input does while input is open, and its notices do
/// unless the input ends the loop.
pub open spec fn round_brings(
    runtime: ProviderRuntime,
    round: LoopRound,
    prompt_id: Seq<char>,
) -> int {
    match live_input(runtime, round) {
        Some(input) => tally(brought_by_input(input), prompt_id) + if input_end(
            input,
        ) is Some {
            0
        } else {
            brought(round.workers@, prompt_id)
        },
        None => brought(round.workers@, prompt_id),
    }
}

/// How often a round forgets `prompt_id`.
pub open spec fn round_forgets(
    runtime: ProviderRuntime,
    round: LoopRound,
    prompt_id: Seq<char>,
) -> int {
    match live_input(runtime, round) {
        Some(input) => forgotten(runtime, input, prompt_id),
        None => 0,
    }
}

/// A round loses and doubles no prompt: whatever was held or came in is held afterwards, or was
/// placed exactly once. Only the end of input forgets prompts, those that still wait for a
/// credential.
pub proof fn rounds_account_for_every_prompt(
    before: Snapshot,
    after: Snapshot,
    round: LoopRound,
    claims: &JwtClaims,
    end: Option<LoopEnd>,
    prompt_id: Seq<char>,
)
    requires
        round_ran(before, after, round, claims, end),
        end != Some(LoopEnd::EvidenceExhausted),
    ensures
        accounted(after, prompt_id) + round_forgets(before.0, round, prompt_id) == accounted(
            before,
            prompt_id,
        ) + round_brings(before.0, round, prompt_id),
{
    let (applied, drained, exhausted) = choose|
        applied: Snapshot,
        drained: Snapshot,
        exhausted: bool,
    | #[trigger]
        round_ran_through(before, applied, drained, after, round, claims, exhausted, end);
    let input = live_input(before.0, round);
    if let Some(input) = input {
        inputs_account_for_every_prompt(before, applied, input, claims, round.now, prompt_id);
    }
    let ended = match input {
        Some(input) => input_end(input),
        None => None,
    };
    if ended is None {
        assert(workers_drained(applied, drained, round.workers@, claims, round.now, exhausted));
        let messages = round.workers@;
        let trace = choose|trace: Seq<Snapshot>|
            {
                &&& #[trigger] messages_applied(trace, messages, claims, round.now)
                &&& trace[0] == applied
                &&& trace.last() == drained
                &&& trace.len() == messages.len() + 1
            };
        lemma_notices_account(trace, messages, claims, round.now, prompt_id);
        assert(messages.take(messages.len() as int) =~= messages);
        settling_accounts_for_every_prompt(drained, after, round.now, prompt_id);
    }
}

} // verus!
