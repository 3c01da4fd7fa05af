//! Prompt admission in the main loop: arrival, credential reads, FIFO release, and cancellation.

use vstd::prelude::*;

use crate::admission::{
    has_waiter, other_operations, without_flight, PendingPromptAdmission,
    PendingPromptAdmissionKind, PromptCredentialAdmissionState, PromptOAuthRefresh, PromptOAuthRpc,
    RefreshKey,
};
use crate::cancellation::{all_wakers, wakers_of, CancellationState};
use crate::clock::{Moment, Span, NANOS_PER_SEC};
use crate::credentials::CredentialObservation;
use crate::deadline::{contents, PromptCredentialDeadlineCommand};
use crate::names::NameTable;
use crate::profiles::{BuiltinProviderProfiles, ProviderCredential};
use crate::prompt::{
    automatic_retry_identity_matches, materialize_prompt, retry_identity_matches,
    BackendProfileIdentity, ChatGptRetryIdentity, CooldownProbe, Prompt, PromptBackend, PromptJob,
};
use crate::report::{
    canceled_correlated, canceled_job_report, finish_canceled_job, finish_identity_changed_prompt,
    identity_changed_report, ErrorText, Report, RetryPromptStatus, FIRST_ATTEMPT,
};
use crate::retry::{lookup, next_attempt, PromptRetryState, SharedCooldown};
use crate::routes::{
    route_admitted, selected_published, Now, PublicationEffects, RouteEffects, Routes,
};
use crate::runtime::{
    active_cooldown, canceled_admission_answers_everyone, canceled_admission_effects,
    canceled_jobs_effects, canceled_prompt_report, debug_allowed, debug_provider_requests_for,
    dropped_admission_effects, dropped_admissions_effects, emit_route, ends_as_canceled,
    enqueued_or_started, find_active_cooldown, finish_canceled_admission, grown, park_job,
    parked_effects, route_effects, Effect, PrewarmScope, ProviderRuntime,
    PROMPT_CREDENTIAL_RPC_TIMEOUT_SECS,
};
use crate::scheduler::SchedulerCommand;

verus! {

/// The deadline of a credential request sent at `now`.
pub open spec fn credential_deadline(now: Moment) -> Moment {
    now.plus_or_self(
        Span { nanos: (PROMPT_CREDENTIAL_RPC_TIMEOUT_SECS * NANOS_PER_SEC) as u128 },
    )
}

/// The deadline of a credential request sent at `now`.
pub(crate) fn deadline_after(now: Moment) -> (res: Moment)
    ensures
        res == credential_deadline(now),
{
    now.add_or_self(Span::from_secs(PROMPT_CREDENTIAL_RPC_TIMEOUT_SECS))
}

/// The account anchor of a job admitted on `backend`.
pub open spec fn account_anchor(backend: PromptBackend) -> Option<ChatGptRetryIdentity> {
    match backend {
        PromptBackend::Responses(config) => Some(
            ChatGptRetryIdentity { anchor: config.identity.retry_anchor },
        ),
        _ => None,
    }
}

/// The job of a newly admitted prompt.
pub open spec fn new_job(
    runtime: &ProviderRuntime,
    agent_prompt_id: String,
    prompt: Prompt,
    backend: PromptBackend,
    identity: Option<BackendProfileIdentity>,
) -> PromptJob {
    PromptJob {
        agent_prompt_id,
        debug_provider_requests: debug_allowed(
            runtime.session_debug_allowed@,
            prompt.session_id@,
        ),
        prompt,
        backend,
        pinned_chatgpt_identity: account_anchor(backend),
        profile_identity: identity,
        retry_state: PromptRetryState { attempts: 0, previous: 0, current: 0 },
        observed_backend: None,
        cancel_generation: runtime.cancel_generation,
        manual_cooldown_bypass: false,
        cooldown_probe: None,
    }
}

/// What admitting one prompt does once its route is known: the submitted marker is emitted, then
/// the job parks behind an active cooldown, starts, or queues.
pub open spec fn resolved_started_on(
    before: &ProviderRuntime,
    after: &ProviderRuntime,
    agent_prompt_id: String,
    prompt: Prompt,
    profiles: &BuiltinProviderProfiles,
    now: Now,
    effects_before: Seq<Effect>,
    effects_after: Seq<Effect>,
    backend: PromptBackend,
    identity: Option<BackendProfileIdentity>,
    route: RouteEffects,
) -> bool {
    let job = new_job(before, agent_prompt_id, prompt, backend, identity);
    let head = (effects_before + route_effects(route, now.moment)).push(
        Effect::Report(
            Report::PromptSubmitted { agent_prompt_id, originator: prompt.originator },
        ),
    );
    &&& route_admitted(
        &before.routes,
        &after.routes,
        prompt.model,
        profiles,
        now,
        backend,
        identity,
        route,
    )
    &&& match active_cooldown(
        after.routes.shared_cooldowns@,
        prompt.model.provider@,
        now.moment,
    ) {
        Some(cooldown) => {
            &&& effects_after == head + parked_effects(job, cooldown, now.moment)
            &&& *after == (ProviderRuntime {
                routes: after.routes,
                delayed_count: grown(before.delayed_count, 1),
                ..*before
            })
        },
        None => enqueued_or_started(
            &(ProviderRuntime { routes: after.routes, ..*before }),
            after,
            job,
            head,
            effects_after,
        ),
    }
}

/// What admitting one credential-ready prompt does.
pub open spec fn resolved_started(
    before: &ProviderRuntime,
    after: &ProviderRuntime,
    agent_prompt_id: String,
    prompt: Prompt,
    profiles: &BuiltinProviderProfiles,
    now: Now,
    effects_before: Seq<Effect>,
    effects_after: Seq<Effect>,
) -> bool {
    exists|
        backend: PromptBackend,
        identity: Option<BackendProfileIdentity>,
        route: RouteEffects,
    | #[trigger]
        resolved_started_on(
            before,
            after,
            agent_prompt_id,
            prompt,
            profiles,
            now,
            effects_before,
            effects_after,
            backend,
            identity,
            route,
        )
}

/// The storage path of a provider's credential.
pub open spec fn stored_path(
    credentials: Map<Seq<char>, ProviderCredential>,
    provider: Seq<char>,
) -> Option<String> {
    match lookup(credentials, provider) {
        Some(ProviderCredential::Stored(reference)) => Some(reference.path),
        _ => None,
    }
}

/// `admission` holds `kind` at the credential boundary: it waits for the read of a stored
/// credential, and is ready at once when there is none.
pub open spec fn is_new_admission(
    runtime: &ProviderRuntime,
    admission: PendingPromptAdmission,
    kind: PendingPromptAdmissionKind,
    request_id: String,
) -> bool {
    &&& admission.kind == kind
    &&& runtime.loads(kind.provider(), &admission.profiles)
    &&& admission.oauth_refresh is None
    &&& !admission.oauth_forced
    &&& if stored_path(runtime.settings.credential_map(), kind.provider()) is Some {
        admission.request_id == Some(request_id) && admission.observations is None
    } else {
        &&& admission.request_id is None
        &&& match admission.observations {
            Some(observations) => observations@ == Map::<
                Seq<char>,
                CredentialObservation,
            >::empty(),
            None => false,
        }
    }
}

/// The effects of starting the credential read of an admission.
pub open spec fn credential_read_effects(
    runtime: &ProviderRuntime,
    provider: Seq<char>,
    request_id: String,
    now: Moment,
) -> Seq<Effect> {
    match stored_path(runtime.settings.credential_map(), provider) {
        Some(path) => seq![
            Effect::ReadCredential { request_id, path },
            Effect::Deadline(
                PromptCredentialDeadlineCommand::Schedule {
                    request_id,
                    due: credential_deadline(now),
                },
            ),
        ],
        None => Seq::empty(),
    }
}

/// What holding a prompt at the credential boundary does.
pub open spec fn credential_read_started(
    before: &ProviderRuntime,
    after: &ProviderRuntime,
    kind: PendingPromptAdmissionKind,
    request_id: String,
    now: Moment,
    effects_before: Seq<Effect>,
    effects_after: Seq<Effect>,
) -> bool {
    &&& after.admission.admissions@.len() == before.admission.admissions@.len() + 1
    &&& after.admission.admissions@.drop_last() == before.admission.admissions@
    &&& is_new_admission(before, after.admission.admissions@.last(), kind, request_id)
    &&& after.admission.oauth_refreshes == before.admission.oauth_refreshes
    &&& after.admission.oauth_rpcs == before.admission.oauth_rpcs
    &&& *after == (ProviderRuntime { admission: after.admission, ..*before })
    &&& effects_after == effects_before + credential_read_effects(
        before,
        kind.provider(),
        request_id,
        now,
    )
}

/// What the arrival of one prompt does. A prompt canceled before its arrival closes; any other
/// takes over from the agent's prewarm and goes to the credential boundary, which a runtime
/// without secret storage does not have.
pub open spec fn prompt_created(
    before: &ProviderRuntime,
    after: &ProviderRuntime,
    created: Prompt,
    request_id: String,
    now: Now,
    effects_before: Seq<Effect>,
    effects_after: Seq<Effect>,
) -> bool {
    let prompt = Prompt { tools_ref: None, ..created };
    let id = created.agent_prompt_id;
    let head = effects_before.push(
        Effect::CancelPrewarms(
            PrewarmScope::Agent { provider: prompt.model.provider, agent_id: prompt.agent_id },
        ),
    );
    if before.cancellation.canceled(id@) {
        &&& effects_after == effects_before.push(Effect::Report(canceled_prompt_report(id, prompt)))
        &&& after.cancellation.same_but_marks(&before.cancellation)
        &&& after.cancellation.marked() == before.cancellation.marked().remove(id@)
        &&& *after == (ProviderRuntime { cancellation: after.cancellation, ..*before })
    } else if before.secret_rpc {
        credential_read_started(
            before,
            after,
            PendingPromptAdmissionKind::Initial { agent_prompt_id: id, prompt },
            request_id,
            now.moment,
            head,
            effects_after,
        )
    } else {
        exists|profiles: BuiltinProviderProfiles|
            {
                &&& #[trigger] before.loads(prompt.model.provider@, &profiles)
                &&& resolved_started(
                    before,
                    after,
                    id,
                    prompt,
                    &profiles,
                    now,
                    head,
                    effects_after,
                )
            }
    }
}

impl ProviderRuntime {
    /// Starts one credential-eligible prompt.
    pub(crate) fn start_resolved_prompt(
        &mut self,
        agent_prompt_id: String,
        prompt: Prompt,
        profiles: &BuiltinProviderProfiles,
        now: Now,
        out: &mut Vec<Effect>,
    )
        requires
            old(self).wf(),
        ensures
            final(self).wf(),
            resolved_started(
                old(self),
                final(self),
                agent_prompt_id,
                prompt,
                profiles,
                now,
                old(out)@,
                final(out)@,
            ),
    {
        let (backend, identity, route) = self.routes.resolve_admitted_backend_with_quota(
            &prompt.model,
            profiles,
            now,
        );
        let ghost reached = backend;
        let ghost effects = route;
        emit_route(route, now.moment, out);
        out.push(
            Effect::Report(
                Report::PromptSubmitted {
                    agent_prompt_id: agent_prompt_id.clone(),
                    originator: prompt.originator.clone(),
                },
            ),
        );
        let pinned_chatgpt_identity = match &backend {
            PromptBackend::Responses(config) => Some(config.chatgpt_retry_identity()),
            _ => None,
        };
        let cooldown = find_active_cooldown(
            &self.routes.shared_cooldowns,
            &prompt.model.provider,
            now.moment,
        );
        let job = PromptJob {
            agent_prompt_id,
            debug_provider_requests: debug_provider_requests_for(
                &prompt.session_id,
                &self.session_debug_allowed,
            ),
            prompt,
            backend,
            pinned_chatgpt_identity,
            profile_identity: identity,
            retry_state: PromptRetryState::new(),
            observed_backend: None,
            cancel_generation: self.cancel_generation,
            manual_cooldown_bypass: false,
            cooldown_probe: None,
        };
        assert(job == new_job(old(self), agent_prompt_id, prompt, reached, identity));
        match cooldown {
            Some(cooldown) => {
                park_job(job, cooldown, now.moment, out);
                self.delayed_count = self.delayed_count.saturating_add(1);
            },
            None => {
                self.enqueue_or_start_prompt(job, out);
            },
        }
        assert(resolved_started_on(
            old(self),
            self,
            agent_prompt_id,
            prompt,
            profiles,
            now,
            old(out)@,
            out@,
            reached,
            identity,
            effects,
        ));
    }

    /// Holds a prompt at the credential boundary. Every retry owns a fresh read rather than
    /// inheriting an earlier credential generation.
    pub(crate) fn start_credential_read(
        &mut self,
        kind: PendingPromptAdmissionKind,
        request_id: String,
        now: Moment,
        out: &mut Vec<Effect>,
    )
        requires
            old(self).wf(),
        ensures
            final(self).wf(),
            credential_read_started(
                old(self),
                final(self),
                kind,
                request_id,
                now,
                old(out)@,
                final(out)@,
            ),
    {
        let provider = kind.prompt().model.provider.clone();
        let profiles = self.load_prompt_profiles(&provider);
        let path = self.settings.stored_credential_path(provider.as_str());
        let admission = match path {
            Some(path) => {
                out.push(Effect::ReadCredential { request_id: request_id.clone(), path });
                out.push(
                    Effect::Deadline(
                        PromptCredentialDeadlineCommand::Schedule {
                            request_id: request_id.clone(),
                            due: deadline_after(now),
                        },
                    ),
                );
                PendingPromptAdmission {
                    kind,
                    profiles,
                    request_id: Some(request_id),
                    observations: None,
                    oauth_refresh: None,
                    oauth_forced: false,
                }
            },
            None => PendingPromptAdmission {
                kind,
                profiles,
                request_id: None,
                observations: Some(NameTable::new()),
                oauth_refresh: None,
                oauth_forced: false,
            },
        };
        self.admission.admissions.push(admission);
        assert(self.admission.admissions@.drop_last() =~= old(self).admission.admissions@);
        assert(out@ =~= old(out)@ + credential_read_effects(
            old(self),
            kind.provider(),
            request_id,
            now,
        ));
    }

    /// Admits one arriving prompt. `request_id` names its credential read, if it needs one.
    pub fn handle_prompt_created(
        &mut self,
        created: Prompt,
        request_id: String,
        now: Now,
        out: &mut Vec<Effect>,
    )
        requires
            old(self).wf(),
        ensures
            final(self).wf(),
            prompt_created(
                old(self),
                final(self),
                created,
                request_id,
                now,
                old(out)@,
                final(out)@,
            ),
    {
        let agent_prompt_id = created.agent_prompt_id.clone();
        let prompt = materialize_prompt(created);
        if self.cancellation.is_canceled(&agent_prompt_id) {
            let _ = self.cancellation.take_canceled(&agent_prompt_id);
            out.push(
                Effect::Report(canceled_correlated(&agent_prompt_id, &prompt, None, FIRST_ATTEMPT)),
            );
            return ;
        }
        out.push(
            Effect::CancelPrewarms(
                PrewarmScope::Agent {
                    provider: prompt.model.provider.clone(),
                    agent_id: prompt.agent_id.clone(),
                },
            ),
        );
        if self.secret_rpc {
            self.start_credential_read(
                PendingPromptAdmissionKind::Initial { agent_prompt_id, prompt },
                request_id,
                now.moment,
                out,
            );
            return ;
        }
        let profiles = self.load_prompt_profiles(&prompt.model.provider);
        assert(self.loads(prompt.model.provider@, &profiles));
        self.start_resolved_prompt(agent_prompt_id, prompt, &profiles, now, out);
    }
}

/// The cooldown generation that a manually admitted job may prove wrong.
pub open spec fn manual_probe(
    cooldowns: Map<Seq<char>, SharedCooldown>,
    provider: String,
    now: Moment,
) -> Option<CooldownProbe> {
    match active_cooldown(cooldowns, provider@, now) {
        Some(cooldown) => Some(CooldownProbe { provider, generation: cooldown.generation }),
        None => None,
    }
}

/// What releasing an automatic retry does once its route is known: it queues, unless the route
/// crossed accounts.
pub open spec fn retry_requeued(
    before: &ProviderRuntime,
    after: &ProviderRuntime,
    job: PromptJob,
    backend: PromptBackend,
    identity: Option<BackendProfileIdentity>,
    effects_before: Seq<Effect>,
    effects_after: Seq<Effect>,
) -> bool {
    if retry_identity_matches(job.pinned_chatgpt_identity, backend) {
        &&& effects_after == effects_before
        &&& after.prompt_queue@ == before.prompt_queue@.push(
            (PromptJob { backend, profile_identity: identity, ..job }),
        )
        &&& *after == (ProviderRuntime { prompt_queue: after.prompt_queue, ..*before })
    } else {
        &&& effects_after == effects_before.push(Effect::Report(identity_changed_report(job)))
        &&& *after == *before
    }
}

/// What releasing a manual retry does once its route is known: it queues with a one-shot cooldown
/// bypass.
pub open spec fn manual_requeued(
    before: &ProviderRuntime,
    after: &ProviderRuntime,
    job: PromptJob,
    backend: PromptBackend,
    identity: Option<BackendProfileIdentity>,
    now: Moment,
) -> bool {
    &&& after.prompt_queue@ == before.prompt_queue@.push(
        (PromptJob {
            backend,
            profile_identity: identity,
            manual_cooldown_bypass: true,
            cooldown_probe: manual_probe(
                before.routes.shared_cooldowns@,
                job.prompt.model.provider,
                now,
            ),
            ..job
        }),
    )
    &&& *after == (ProviderRuntime { prompt_queue: after.prompt_queue, ..*before })
}

/// The result of a manual retry request.
pub open spec fn manual_result(
    request_id: String,
    agent_prompt_id: String,
    status: RetryPromptStatus,
) -> Effect {
    Effect::Report(Report::RetryPromptResult { request_id, agent_prompt_id, status })
}

/// What releasing one credential-ready retry does on a known route.
pub open spec fn retry_released_on(
    before: &ProviderRuntime,
    after: &ProviderRuntime,
    admission: PendingPromptAdmission,
    now: Now,
    effects_before: Seq<Effect>,
    effects_after: Seq<Effect>,
    backend: PromptBackend,
    identity: Option<BackendProfileIdentity>,
    route: RouteEffects,
) -> bool {
    let routed = ProviderRuntime { routes: after.routes, ..*before };
    let head = effects_before + route_effects(route, now.moment);
    &&& route_admitted(
        &before.routes,
        &after.routes,
        admission.kind.spec_prompt().model,
        &admission.profiles,
        now,
        backend,
        identity,
        route,
    )
    &&& match admission.kind {
        PendingPromptAdmissionKind::Initial { .. } => false,
        PendingPromptAdmissionKind::RetryDue(job) => retry_requeued(
            &routed,
            after,
            job,
            backend,
            identity,
            head,
            effects_after,
        ),
        PendingPromptAdmissionKind::Manual { job, request_id } => {
            &&& manual_requeued(&routed, after, job, backend, identity, now.moment)
            &&& effects_after == head.push(
                manual_result(request_id, job.agent_prompt_id, RetryPromptStatus::Accepted),
            )
        },
    }
}

/// What releasing one credential-ready admission does after its models were published.
pub open spec fn admission_released(
    before: &ProviderRuntime,
    after: &ProviderRuntime,
    admission: PendingPromptAdmission,
    now: Now,
    effects_before: Seq<Effect>,
    effects_after: Seq<Effect>,
) -> bool {
    match admission.kind {
        PendingPromptAdmissionKind::Initial { agent_prompt_id, prompt } => resolved_started(
            before,
            after,
            agent_prompt_id,
            prompt,
            &admission.profiles,
            now,
            effects_before,
            effects_after,
        ),
        _ => exists|
            backend: PromptBackend,
            identity: Option<BackendProfileIdentity>,
            route: RouteEffects,
        | #[trigger]
            retry_released_on(
                before,
                after,
                admission,
                now,
                effects_before,
                effects_after,
                backend,
                identity,
                route,
            ),
    }
}

/// What one ready admission at the head of the line does: its provider's models are published and
/// the prompt is released.
pub open spec fn admission_finished(
    before: &ProviderRuntime,
    after: &ProviderRuntime,
    admission: PendingPromptAdmission,
    now: Now,
    effects_before: Seq<Effect>,
    effects_after: Seq<Effect>,
) -> bool {
    exists|routes: Routes, publication: PublicationEffects|
        {
            &&& #[trigger] selected_published(
                &before.routes,
                &routes,
                admission.kind.provider(),
                &admission.profiles,
                admission.observations->0,
                publication,
            )
            &&& admission_released(
                &(ProviderRuntime { routes, ..*before }),
                after,
                admission,
                now,
                effects_before.push(Effect::Publication(publication)),
                effects_after,
            )
        }
}

/// A runtime with the effects asked for so far.
pub type Snapshot = (ProviderRuntime, Seq<Effect>);

/// What releasing the head of the line does: it was ready, and is closed when it was canceled.
pub open spec fn head_released(before: Snapshot, after: Snapshot, now: Now) -> bool {
    let (runtime, effects_before) = before;
    let (result, effects_after) = after;
    let line = runtime.admission.admissions@;
    let head = line[0];
    let id = head.kind.spec_prompt_id()@;
    &&& line.len() > 0
    &&& head.ready()
    &&& result.admission.admissions@ == line.skip(1)
    &&& result.admission.oauth_refreshes == runtime.admission.oauth_refreshes
    &&& result.admission.oauth_rpcs == runtime.admission.oauth_rpcs
    &&& if runtime.input_closed {
        &&& effects_after == effects_before + canceled_admission_effects(head.kind)
        &&& result == (ProviderRuntime { admission: result.admission, ..runtime })
    } else if runtime.cancellation.canceled(id) {
        &&& effects_after == effects_before + canceled_admission_effects(head.kind)
        &&& result.cancellation.same_but_marks(&runtime.cancellation)
        &&& result.cancellation.marked() == runtime.cancellation.marked().remove(id)
        &&& result == (ProviderRuntime {
            admission: result.admission,
            cancellation: result.cancellation,
            ..runtime
        })
    } else {
        admission_finished(
            &(ProviderRuntime { admission: result.admission, ..runtime }),
            &result,
            head,
            now,
            effects_before,
            effects_after,
        )
    }
}

/// Consecutive releases of the head of the line.
pub open spec fn releases(trace: Seq<Snapshot>, now: Now) -> bool {
    forall|k: int| 0 <= k < trace.len() - 1 ==> head_released(#[trigger] trace[k], trace[k + 1], now)
}

/// What draining the line does: heads are released one after another until one is not ready.
pub open spec fn line_drained(
    before: &ProviderRuntime,
    after: &ProviderRuntime,
    now: Now,
    effects_before: Seq<Effect>,
    effects_after: Seq<Effect>,
) -> bool {
    &&& exists|trace: Seq<Snapshot>|
        {
            &&& trace.len() > 0
            &&& trace[0] == (*before, effects_before)
            &&& trace.last() == (*after, effects_after)
            &&& #[trigger] releases(trace, now)
        }
    &&& after.admission.admissions@.len() == 0 || !after.admission.admissions@[0].ready()
}

/// Admission is first in, first out whatever order the replies came in: draining removes a prefix
/// of ready admissions, and a prompt behind an unresolved one stays.
pub proof fn admission_is_fifo(trace: Seq<Snapshot>, now: Now)
    requires
        trace.len() > 0,
        releases(trace, now),
    ensures
        trace.len() - 1 <= trace[0].0.admission.admissions@.len(),
        trace.last().0.admission.admissions@ == trace[0].0.admission.admissions@.skip(
            trace.len() - 1,
        ),
        forall|k: int|
            0 <= k < trace.len() - 1 ==> (#[trigger] trace[0].0.admission.admissions@[k]).ready(),
    decreases trace.len(),
{
    let line = trace[0].0.admission.admissions@;
    if trace.len() == 1 {
        assert(line.skip(0) =~= line);
    } else {
        let rest = trace.drop_last();
        assert(releases(rest, now)) by {
            assert forall|k: int| 0 <= k < rest.len() - 1 implies head_released(
                #[trigger] rest[k],
                rest[k + 1],
                now,
            ) by {
                assert(head_released(trace[k], trace[k + 1], now));
            }
        }
        admission_is_fifo(rest, now);
        let n = trace.len() - 2;
        assert(head_released(trace[n], trace[n + 1], now));
        assert(rest.last() == trace[n]);
        let left = trace[n].0.admission.admissions@;
        assert(left == line.skip(n));
        assert(line.skip(n).skip(1) =~= line.skip(n + 1));
        assert(line[n] == left[0]);
    }
}

impl ProviderRuntime {
    /// Queues an automatic retry on its fresh route; one that would cross accounts is refused.
    pub(crate) fn requeue_retry(
        &mut self,
        job: PromptJob,
        backend: PromptBackend,
        identity: Option<BackendProfileIdentity>,
        out: &mut Vec<Effect>,
    )
        requires
            old(self).wf(),
        ensures
            final(self).wf(),
            retry_requeued(
                old(self),
                final(self),
                job,
                backend,
                identity,
                old(out)@,
                final(out)@,
            ),
    {
        if !automatic_retry_identity_matches(&job.pinned_chatgpt_identity, &backend) {
            out.push(Effect::Report(finish_identity_changed_prompt(&job)));
            return ;
        }
        let mut job = job;
        job.backend = backend;
        job.profile_identity = identity;
        self.prompt_queue.push(job);
    }

    /// Queues a manual retry on its fresh route.
    pub(crate) fn requeue_manual(
        &mut self,
        job: PromptJob,
        backend: PromptBackend,
        identity: Option<BackendProfileIdentity>,
        now: Moment,
    )
        requires
            old(self).wf(),
        ensures
            final(self).wf(),
            manual_requeued(old(self), final(self), job, backend, identity, now),
    {
        let mut job = job;
        job.backend = backend;
        job.profile_identity = identity;
        job.manual_cooldown_bypass = true;
        job.cooldown_probe =
        match find_active_cooldown(
            &self.routes.shared_cooldowns,
            &job.prompt.model.provider,
            now,
        ) {
            Some(cooldown) => Some(
                CooldownProbe {
                    provider: job.prompt.model.provider.clone(),
                    generation: cooldown.generation,
                },
            ),
            None => None,
        };
        self.prompt_queue.push(job);
    }

    /// Applies a credential-ready transition at the head of the line.
    fn finish_prompt_admission(
        &mut self,
        admission: PendingPromptAdmission,
        now: Now,
        out: &mut Vec<Effect>,
    )
        requires
            old(self).wf(),
            admission.observations is Some,
        ensures
            final(self).wf(),
            admission_finished(
                old(self),
                final(self),
                admission,
                now,
                old(out)@,
                final(out)@,
            ),
            final(self).admission == old(self).admission,
    {
        let ghost whole = admission;
        let provider = admission.kind.prompt().model.provider.clone();
        let observations: NameTable<CredentialObservation> = match admission.observations {
            Some(observations) => observations,
            None => NameTable::new(),
        };
        let profiles = admission.profiles;
        let publication = self.routes.publish_selected_models_if_changed(
            &provider,
            &profiles,
            observations,
        );
        let ghost published = self.routes;
        assert(selected_published(
            &old(self).routes,
            &published,
            whole.kind.provider(),
            &whole.profiles,
            whole.observations->0,
            publication,
        ));
        out.push(Effect::Publication(publication));
        let ghost mid = *self;
        let ghost head = out@;
        assert(mid == (ProviderRuntime { routes: published, ..*old(self) }));
        match admission.kind {
            PendingPromptAdmissionKind::Initial { agent_prompt_id, prompt } => {
                self.start_resolved_prompt(agent_prompt_id, prompt, &profiles, now, out);
            },
            PendingPromptAdmissionKind::RetryDue(job) => {
                let (backend, identity, route) = self.routes.resolve_admitted_backend_with_quota(
                    &job.prompt.model,
                    &profiles,
                    now,
                );
                emit_route(route, now.moment, out);
                self.requeue_retry(job, backend, identity, out);
                assert(retry_released_on(
                    &mid,
                    self,
                    whole,
                    now,
                    head,
                    out@,
                    backend,
                    identity,
                    route,
                ));
            },
            PendingPromptAdmissionKind::Manual { job, request_id } => {
                let (backend, identity, route) = self.routes.resolve_admitted_backend_with_quota(
                    &job.prompt.model,
                    &profiles,
                    now,
                );
                emit_route(route, now.moment, out);
                let agent_prompt_id = job.agent_prompt_id.clone();
                self.requeue_manual(job, backend, identity, now.moment);
                out.push(
                    Effect::Report(
                        Report::RetryPromptResult {
                            request_id,
                            agent_prompt_id,
                            status: RetryPromptStatus::Accepted,
                        },
                    ),
                );
                assert(retry_released_on(
                    &mid,
                    self,
                    whole,
                    now,
                    head,
                    out@,
                    backend,
                    identity,
                    route,
                ));
            },
        }
        assert(admission_released(&mid, self, whole, now, head, out@));
    }

    /// Moves every ready head into normal prompt admission. A completed later read remains behind
    /// an earlier unresolved prompt, so eligibility stays in order even when replies do not.
    pub fn drain_prompt_admissions(&mut self, now: Now, out: &mut Vec<Effect>)
        requires
            old(self).wf(),
        ensures
            final(self).wf(),
            line_drained(old(self), final(self), now, old(out)@, final(out)@),
    {
        let ghost mut trace: Seq<Snapshot> = seq![(*self, out@)];
        while self.admission.admissions.len() > 0 && self.admission.admissions[0].is_ready()
            invariant
                self.wf(),
                trace.len() > 0,
                trace[0] == (*old(self), old(out)@),
                trace.last() == (*self, out@),
                releases(trace, now),
            decreases self.admission.admissions@.len(),
        {
            let ghost before = (*self, out@);
            let admission = self.admission.admissions.remove(0);
            assert(before.0.admission.admissions@.remove(0)
                =~= before.0.admission.admissions@.skip(1));
            if self.input_closed {
                finish_canceled_admission(admission.kind, out);
            } else if self.cancellation.is_canceled(admission.kind.agent_prompt_id()) {
                let _ = self.cancellation.take_canceled(admission.kind.agent_prompt_id());
                finish_canceled_admission(admission.kind, out);
            } else {
                self.finish_prompt_admission(admission, now, out);
            }
            proof {
                let after = (*self, out@);
                assert(head_released(before, after, now));
                let longer = trace.push(after);
                assert forall|k: int| 0 <= k < longer.len() - 1 implies head_released(
                    #[trigger] longer[k],
                    longer[k + 1],
                    now,
                ) by {
                    if k < trace.len() - 1 {
                        assert(head_released(trace[k], trace[k + 1], now));
                    } else {
                        assert(longer[k] == before && longer[k + 1] == after);
                    }
                }
                trace = longer;
            }
        }
        assert(releases(trace, now));
    }
}

/// `i` is the first queued job of `prompt_id`.
pub open spec fn first_queued(queue: Seq<PromptJob>, prompt_id: Seq<char>, i: int) -> bool {
    &&& 0 <= i < queue.len()
    &&& queue[i].agent_prompt_id@ == prompt_id
    &&& forall|j: int| 0 <= j < i ==> (#[trigger] queue[j]).agent_prompt_id@ != prompt_id
}

/// No queued job is `prompt_id`'s.
pub open spec fn not_queued(queue: Seq<PromptJob>, prompt_id: Seq<char>) -> bool {
    forall|j: int| 0 <= j < queue.len() ==> (#[trigger] queue[j]).agent_prompt_id@ != prompt_id
}

/// `i` is the first admission of `prompt_id`.
pub open spec fn first_admitted(
    admissions: Seq<PendingPromptAdmission>,
    prompt_id: Seq<char>,
    i: int,
) -> bool {
    &&& 0 <= i < admissions.len()
    &&& admissions[i].kind.spec_prompt_id()@ == prompt_id
    &&& forall|j: int|
        0 <= j < i ==> (#[trigger] admissions[j]).kind.spec_prompt_id()@ != prompt_id
}

/// No admission is `prompt_id`'s.
pub open spec fn not_admitted(
    admissions: Seq<PendingPromptAdmission>,
    prompt_id: Seq<char>,
) -> bool {
    forall|j: int|
        0 <= j < admissions.len() ==> (#[trigger] admissions[j]).kind.spec_prompt_id()@ != prompt_id
}

/// Closing the queued job of a canceled prompt, if there is one.
pub open spec fn queued_closed(
    before: Seq<PromptJob>,
    after: Seq<PromptJob>,
    prompt_id: Seq<char>,
    effects_before: Seq<Effect>,
    effects_after: Seq<Effect>,
    closed: bool,
) -> bool {
    if closed {
        exists|i: int|
            {
                &&& #[trigger] first_queued(before, prompt_id, i)
                &&& after == before.remove(i)
                &&& effects_after == effects_before.push(
                    Effect::Report(canceled_job_report(before[i])),
                )
            }
    } else {
        not_queued(before, prompt_id) && after == before && effects_after == effects_before
    }
}

/// Removes and closes the queued job of a canceled prompt.
fn finish_queued_canceled(
    prompt_id: &String,
    prompt_queue: &mut Vec<PromptJob>,
    out: &mut Vec<Effect>,
) -> (res: bool)
    ensures
        queued_closed(
            old(prompt_queue)@,
            final(prompt_queue)@,
            prompt_id@,
            old(out)@,
            final(out)@,
            res,
        ),
{
    let mut i: usize = 0;
    while i < prompt_queue.len()
        invariant
            i <= prompt_queue@.len(),
            prompt_queue@ == old(prompt_queue)@,
            out@ == old(out)@,
            forall|j: int|
                0 <= j < i ==> (#[trigger] prompt_queue@[j]).agent_prompt_id@ != prompt_id@,
        decreases prompt_queue@.len() - i,
    {
        if prompt_queue[i].agent_prompt_id == *prompt_id {
            assert(first_queued(prompt_queue@, prompt_id@, i as int));
            let job = prompt_queue.remove(i);
            out.push(Effect::Report(finish_canceled_job(&job)));
            return true;
        }
        i = i + 1;
    }
    false
}

/// One deadline cancellation per request.
pub open spec fn deadline_cancellations(request_ids: Seq<String>) -> Seq<Effect> {
    Seq::new(
        request_ids.len(),
        |i: int| Effect::Deadline(PromptCredentialDeadlineCommand::Cancel(request_ids[i])),
    )
}

/// `pruned` are the requests of a refresh that lost its last waiter.
pub open spec fn refresh_pruned(
    before: &PromptCredentialAdmissionState,
    after: &PromptCredentialAdmissionState,
    key: RefreshKey,
    pruned: Seq<String>,
) -> bool {
    &&& after.admissions == before.admissions
    &&& if has_waiter(before.admissions@, key) {
        *after == *before && pruned.len() == 0
    } else {
        &&& after.oauth_refreshes@ == without_flight(
            before.oauth_refreshes@,
            key,
        )
        &&& after.oauth_rpcs@ == other_operations(before.oauth_rpcs@, key)
        &&& forall|id: Seq<char>| #[trigger]
            contents(pruned).contains(id) <==> before.oauth_rpcs@.contains_key(id)
                && before.oauth_rpcs@[id].spec_key().content() == key
    }
}

/// Closing the admission at `i` of a canceled prompt: its read and terminal first, then the
/// refresh that nobody waits for any more.
pub open spec fn admission_closed_at(
    before: &PromptCredentialAdmissionState,
    after: &PromptCredentialAdmissionState,
    i: int,
    effects_before: Seq<Effect>,
    effects_after: Seq<Effect>,
    pruned: Seq<String>,
) -> bool {
    let admission = before.admissions@[i];
    let head = effects_before + dropped_admission_effects(admission);
    &&& after.admissions@ == before.admissions@.remove(i)
    &&& match admission.oauth_refresh {
        Some(key) => {
            &&& exists|removed: PromptCredentialAdmissionState|
                {
                    &&& removed.admissions@ == before.admissions@.remove(i)
                    &&& removed.oauth_refreshes == before.oauth_refreshes
                    &&& removed.oauth_rpcs == before.oauth_rpcs
                    &&& #[trigger] refresh_pruned(&removed, after, key.content(), pruned)
                }
            &&& effects_after == head + deadline_cancellations(pruned)
        },
        None => {
            &&& after.oauth_refreshes == before.oauth_refreshes
            &&& after.oauth_rpcs == before.oauth_rpcs
            &&& effects_after == head
        },
    }
}

/// Closing the admission of a canceled prompt, if there is one.
pub open spec fn admission_closed(
    before: &PromptCredentialAdmissionState,
    after: &PromptCredentialAdmissionState,
    prompt_id: Seq<char>,
    effects_before: Seq<Effect>,
    effects_after: Seq<Effect>,
    closed: bool,
) -> bool {
    if closed {
        exists|i: int, pruned: Seq<String>|
            first_admitted(before.admissions@, prompt_id, i) && #[trigger] admission_closed_at(
                before,
                after,
                i,
                effects_before,
                effects_after,
                pruned,
            )
    } else {
        &&& not_admitted(before.admissions@, prompt_id)
        &&& *after == *before
        &&& effects_after == effects_before
    }
}

/// Everyone who may own a canceled prompt is told.
pub open spec fn cancel_notice(
    effects: Seq<Effect>,
    woken: Vec<u64>,
    prompt_id: String,
) -> Seq<Effect> {
    effects + seq![
        Effect::CancelPrewarms(PrewarmScope::All),
        Effect::WakeBackends(woken),
        Effect::Scheduler(SchedulerCommand::Cancel(prompt_id)),
    ]
}

/// What a targeted cancellation does: workers and the scheduler are told, a queued job or a held
/// admission closes at once, and closing consumes the marker.
pub open spec fn prompt_canceled(
    before: &ProviderRuntime,
    after: &ProviderRuntime,
    prompt_id: String,
    effects_before: Seq<Effect>,
    effects_after: Seq<Effect>,
) -> bool {
    exists|woken: Vec<u64>, middle: Seq<Effect>, queued: bool, admitted: bool|
        {
            &&& woken@ == wakers_of(before.cancellation.registered(), prompt_id@)
            &&& #[trigger] queued_closed(
                before.prompt_queue@,
                after.prompt_queue@,
                prompt_id@,
                cancel_notice(effects_before, woken, prompt_id),
                middle,
                queued,
            )
            &&& #[trigger] admission_closed(
                &before.admission,
                &after.admission,
                prompt_id@,
                middle,
                effects_after,
                admitted,
            )
            &&& after.cancellation.same_but_marks(&before.cancellation)
            &&& after.cancellation.marked() == if queued || admitted {
                before.cancellation.marked().remove(prompt_id@)
            } else {
                before.cancellation.marked().insert(prompt_id@)
            }
            &&& *after == (ProviderRuntime {
                prompt_queue: after.prompt_queue,
                admission: after.admission,
                cancellation: after.cancellation,
                ..*before
            })
        }
}

/// What a broadcast cancellation does: every queued job and every held admission closes exactly
/// once, and everything that runs or waits elsewhere belongs to an older generation.
pub open spec fn all_canceled(
    before: &ProviderRuntime,
    after: &ProviderRuntime,
    effects_before: Seq<Effect>,
    effects_after: Seq<Effect>,
) -> bool {
    &&& exists|woken: Vec<u64>|
        {
            &&& #[trigger] woken@ == all_wakers(before.cancellation.registered())
            &&& effects_after == (effects_before + seq![
                Effect::CancelPrewarms(PrewarmScope::All),
                Effect::WakeBackends(woken),
                Effect::Scheduler(SchedulerCommand::CancelAll),
            ] + canceled_jobs_effects(before.prompt_queue@) + dropped_admissions_effects(
                before.admission.admissions@,
            )).push(Effect::Deadline(PromptCredentialDeadlineCommand::CancelAll))
        }
    &&& after.prompt_queue@ == Seq::<PromptJob>::empty()
    &&& after.admission.admissions@ == Seq::<PendingPromptAdmission>::empty()
    &&& after.admission.oauth_refreshes@ == Seq::<PromptOAuthRefresh>::empty()
    &&& after.admission.oauth_rpcs@ == Map::<Seq<char>, PromptOAuthRpc>::empty()
    &&& after.cancel_generation == next_attempt(before.cancel_generation)
    &&& broadcast(&before.cancellation, &after.cancellation)
    &&& *after == (ProviderRuntime {
        prompt_queue: after.prompt_queue,
        admission: after.admission,
        cancellation: after.cancellation,
        cancel_generation: after.cancel_generation,
        ..*before
    })
}

/// Only the broadcast generation advanced.
pub open spec fn broadcast(before: &CancellationState, after: &CancellationState) -> bool {
    &&& after.generation() == next_attempt(before.generation())
    &&& after.marked() == before.marked()
    &&& after.registered() == before.registered()
    &&& after.next_id() == before.next_id()
    &&& after.is_shut_down() == before.is_shut_down()
}

impl ProviderRuntime {
    fn cancel_everything(&mut self, out: &mut Vec<Effect>)
        requires
            old(self).wf(),
        ensures
            final(self).wf(),
            all_canceled(old(self), final(self), old(out)@, final(out)@),
    {
        out.push(Effect::CancelPrewarms(PrewarmScope::All));
        let woken = self.cancellation.cancel_all();
        self.cancel_generation = self.cancel_generation.saturating_add(1);
        out.push(Effect::WakeBackends(woken));
        out.push(Effect::Scheduler(SchedulerCommand::CancelAll));
        let ghost told = out@;
        let ghost queue = self.prompt_queue@;
        let ghost admissions = self.admission.admissions@;
        let mut i: usize = 0;
        assert(queue.take(0) =~= Seq::<PromptJob>::empty());
        assert(told + canceled_jobs_effects(queue.take(0)) =~= told);
        while i < self.prompt_queue.len()
            invariant
                i <= queue.len(),
                self.prompt_queue@ == queue,
                out@ == told + canceled_jobs_effects(queue.take(i as int)),
            decreases queue.len() - i,
        {
            out.push(Effect::Report(finish_canceled_job(&self.prompt_queue[i])));
            assert(out@ =~= told + canceled_jobs_effects(queue.take(i + 1)));
            i = i + 1;
        }
        assert(queue.take(i as int) =~= queue);
        let ghost closed = out@;
        let ghost mut done: int = 0;
        assert(admissions.skip(0) =~= admissions);
        assert(admissions.take(0) =~= Seq::<PendingPromptAdmission>::empty());
        assert(closed + dropped_admissions_effects(admissions.take(0)) =~= closed);
        self.prompt_queue = Vec::new();
        while self.admission.admissions.len() > 0
            invariant
                0 <= done <= admissions.len(),
                self.admission.admissions@ == admissions.skip(done),
                out@ == closed + dropped_admissions_effects(admissions.take(done)),
                self.prompt_queue@ == Seq::<PromptJob>::empty(),
                self.cancel_generation == next_attempt(old(self).cancel_generation),
                broadcast(&old(self).cancellation, &self.cancellation),
                *self == (ProviderRuntime {
                    prompt_queue: self.prompt_queue,
                    admission: self.admission,
                    cancellation: self.cancellation,
                    cancel_generation: self.cancel_generation,
                    ..*old(self)
                }),
            decreases self.admission.admissions@.len(),
        {
            let ghost n = done;
            let admission = self.admission.admissions.remove(0);
            proof {
                assert(admission == admissions[n]);
                assert(admissions.skip(n).remove(0) =~= admissions.skip(n + 1));
                assert(admissions.take(n + 1).drop_last() =~= admissions.take(n));
                assert(admissions.take(n + 1).last() == admission);
                done = done + 1;
            }
            let ghost whole = admission;
            let ghost begun = out@;
            if let Some(request_id) = admission.request_id {
                out.push(Effect::Deadline(PromptCredentialDeadlineCommand::Cancel(request_id)));
            }
            finish_canceled_admission(admission.kind, out);
            assert(out@ =~= begun + dropped_admission_effects(whole));
            assert(out@ =~= closed + dropped_admissions_effects(admissions.take(n + 1)));
        }
        assert(admissions.take(done) =~= admissions);
        assert(self.admission.admissions@ =~= Seq::<PendingPromptAdmission>::empty());
        self.admission.oauth_refreshes = Vec::new();
        self.admission.oauth_rpcs = NameTable::new();
        out.push(Effect::Deadline(PromptCredentialDeadlineCommand::CancelAll));
        assert(woken@ == all_wakers(old(self).cancellation.registered()));
        assert(told =~= old(out)@ + seq![
            Effect::CancelPrewarms(PrewarmScope::All),
            Effect::WakeBackends(woken),
            Effect::Scheduler(SchedulerCommand::CancelAll),
        ]);
    }

    /// Removes and closes the admission of a canceled prompt.
    fn finish_admitted_canceled(&mut self, prompt_id: &String, out: &mut Vec<Effect>) -> (res: bool)
        requires
            old(self).wf(),
        ensures
            final(self).wf(),
            admission_closed(
                &old(self).admission,
                &final(self).admission,
                prompt_id@,
                old(out)@,
                final(out)@,
                res,
            ),
            *final(self) == (ProviderRuntime {
                admission: final(self).admission,
                ..*old(self)
            }),
    {
        let mut i: usize = 0;
        while i < self.admission.admissions.len()
            invariant
                i <= self.admission.admissions@.len(),
                self.wf(),
                *self == *old(self),
                out@ == old(out)@,
                forall|j: int|
                    0 <= j < i ==> (
                    #[trigger] self.admission.admissions@[j]).kind.spec_prompt_id()@ != prompt_id@,
            decreases self.admission.admissions@.len() - i,
        {
            if *self.admission.admissions[i].kind.agent_prompt_id() == *prompt_id {
                assert(first_admitted(self.admission.admissions@, prompt_id@, i as int));
                let admission = self.admission.admissions.remove(i);
                let ghost whole = admission;
                let ghost removed = self.admission;
                if let Some(request_id) = admission.request_id {
                    out.push(Effect::Deadline(PromptCredentialDeadlineCommand::Cancel(request_id)));
                }
                finish_canceled_admission(admission.kind, out);
                let ghost head = out@;
                assert(head =~= old(out)@ + dropped_admission_effects(whole));
                if let Some(key) = admission.oauth_refresh {
                    let pruned = self.admission.prune_unreferenced_prompt_oauth(&key);
                    assert(refresh_pruned(&removed, &self.admission, key.content(), pruned@));
                    let mut k: usize = 0;
                    assert(head + deadline_cancellations(pruned@.take(0)) =~= head);
                    while k < pruned.len()
                        invariant
                            k <= pruned@.len(),
                            out@ == head + deadline_cancellations(pruned@.take(k as int)),
                        decreases pruned@.len() - k,
                    {
                        out.push(
                            Effect::Deadline(
                                PromptCredentialDeadlineCommand::Cancel(pruned[k].clone()),
                            ),
                        );
                        assert(out@ =~= head + deadline_cancellations(pruned@.take(k + 1)));
                        k = k + 1;
                    }
                    assert(pruned@.take(k as int) =~= pruned@);
                    assert(admission_closed_at(
                        &old(self).admission,
                        &self.admission,
                        i as int,
                        old(out)@,
                        out@,
                        pruned@,
                    ));
                } else {
                    assert(admission_closed_at(
                        &old(self).admission,
                        &self.admission,
                        i as int,
                        old(out)@,
                        out@,
                        Seq::<String>::empty(),
                    ));
                }
                return true;
            }
            i = i + 1;
        }
        false
    }

    /// Cancels one prompt, or everything when no prompt is named.
    pub fn handle_cancel_prompt(&mut self, agent_prompt_id: Option<String>, out: &mut Vec<Effect>)
        requires
            old(self).wf(),
        ensures
            final(self).wf(),
            match agent_prompt_id {
                Some(prompt_id) => prompt_canceled(
                    old(self),
                    final(self),
                    prompt_id,
                    old(out)@,
                    final(out)@,
                ),
                None => all_canceled(old(self), final(self), old(out)@, final(out)@),
            },
    {
        let prompt_id = match agent_prompt_id {
            Some(prompt_id) => prompt_id,
            None => {
                self.cancel_everything(out);
                return ;
            },
        };
        out.push(Effect::CancelPrewarms(PrewarmScope::All));
        let woken = self.cancellation.cancel(prompt_id.clone());
        out.push(Effect::WakeBackends(woken));
        out.push(Effect::Scheduler(SchedulerCommand::Cancel(prompt_id.clone())));
        let ghost told = out@;
        assert(told =~= cancel_notice(old(out)@, woken, prompt_id));
        let queued: bool = finish_queued_canceled(&prompt_id, &mut self.prompt_queue, out);
        if queued {
            let _ = self.cancellation.take_canceled(&prompt_id);
        }
        let ghost middle = out@;
        let admitted: bool = self.finish_admitted_canceled(&prompt_id, out);
        if admitted {
            let _ = self.cancellation.take_canceled(&prompt_id);
        }
        proof {
            let marked = old(self).cancellation.marked();
            assert(marked.insert(prompt_id@).remove(prompt_id@) =~= marked.remove(prompt_id@));
            assert(marked.remove(prompt_id@).remove(prompt_id@) =~= marked.remove(prompt_id@));
            assert(queued_closed(
                old(self).prompt_queue@,
                self.prompt_queue@,
                prompt_id@,
                cancel_notice(old(out)@, woken, prompt_id),
                middle,
                queued,
            ));
            assert(admission_closed(
                &old(self).admission,
                &self.admission,
                prompt_id@,
                middle,
                out@,
                admitted,
            ));
        }
    }

    /// Releases one parked prompt at its user's request.
    pub fn handle_retry_prompt(
        &self,
        request_id: String,
        agent_prompt_id: Option<String>,
        out: &mut Vec<Effect>,
    )
        ensures
            final(out)@ == match agent_prompt_id {
                Some(agent_prompt_id) => old(out)@.push(
                    Effect::Scheduler(SchedulerCommand::RetryNow { request_id, agent_prompt_id }),
                ),
                None => old(out)@,
            },
    {
        if let Some(agent_prompt_id) = agent_prompt_id {
            out.push(
                Effect::Scheduler(SchedulerCommand::RetryNow { request_id, agent_prompt_id }),
            );
        }
    }

    /// Cancels every session-owned job during final daemon shutdown.
    pub fn handle_session_shutdown(&mut self, out: &mut Vec<Effect>)
        requires
            old(self).wf(),
        ensures
            final(self).wf(),
            final(out)@.len() > 0,
            final(out)@.last() == Effect::InvalidateAllWebsockets,
            all_canceled(old(self), final(self), old(out)@, final(out)@.drop_last()),
    {
        self.cancel_everything(out);
        let ghost canceled = out@;
        out.push(Effect::InvalidateAllWebsockets);
        assert(out@.drop_last() =~= canceled);
    }

    /// Closes input for good. No late credential reply may resurrect an admission, and everything
    /// that runs or waits elsewhere is told to stop.
    pub fn begin_input_shutdown(&mut self, out: &mut Vec<Effect>)
        requires
            old(self).wf(),
        ensures
            final(self).wf(),
            input_shut(old(self), final(self), old(out)@, final(out)@),
    {
        self.input_closed = true;
        out.push(Effect::CancelPrewarms(PrewarmScope::All));
        let woken = self.cancellation.shutdown();
        out.push(Effect::WakeBackends(woken));
        self.admission.admissions = Vec::new();
        self.admission.oauth_refreshes = Vec::new();
        self.admission.oauth_rpcs = NameTable::new();
        out.push(Effect::Deadline(PromptCredentialDeadlineCommand::CancelAll));
        out.push(Effect::Scheduler(SchedulerCommand::CancelAll));
        assert(woken@ == all_wakers(old(self).cancellation.registered()));
        assert(out@ =~= old(out)@ + seq![
            Effect::CancelPrewarms(PrewarmScope::All),
            Effect::WakeBackends(woken),
            Effect::Deadline(PromptCredentialDeadlineCommand::CancelAll),
            Effect::Scheduler(SchedulerCommand::CancelAll),
        ]);
    }

    /// Reports whether a runtime whose input ended owns nothing any more.
    pub fn is_finished(&self) -> (res: bool)
        ensures
            res == self.finished(),
    {
        self.input_closed && self.active_prompts == 0 && self.prewarms.is_empty()
            && self.prompt_queue.len() == 0 && self.admission.admissions.len() == 0
            && self.admission.oauth_refreshes.len() == 0 && self.delayed_count == 0
    }

    /// A runtime whose input ended owns nothing any more.
    pub open spec fn finished(&self) -> bool {
        &&& self.input_closed
        &&& self.active_prompts == 0
        &&& self.prewarms@.len() == 0
        &&& self.prompt_queue@.len() == 0
        &&& self.admission.admissions@.len() == 0
        &&& self.admission.oauth_refreshes@.len() == 0
        &&& self.delayed_count == 0
    }
}

/// What closing input does.
pub open spec fn input_shut(
    before: &ProviderRuntime,
    after: &ProviderRuntime,
    effects_before: Seq<Effect>,
    effects_after: Seq<Effect>,
) -> bool {
    &&& exists|woken: Vec<u64>|
        {
            &&& #[trigger] woken@ == all_wakers(before.cancellation.registered())
            &&& effects_after == effects_before + seq![
                Effect::CancelPrewarms(PrewarmScope::All),
                Effect::WakeBackends(woken),
                Effect::Deadline(PromptCredentialDeadlineCommand::CancelAll),
                Effect::Scheduler(SchedulerCommand::CancelAll),
            ]
        }
    &&& after.input_closed
    &&& after.admission.admissions@ == Seq::<PendingPromptAdmission>::empty()
    &&& after.admission.oauth_refreshes@ == Seq::<PromptOAuthRefresh>::empty()
    &&& after.admission.oauth_rpcs@ == Map::<Seq<char>, PromptOAuthRpc>::empty()
    &&& after.cancellation.is_shut_down()
    &&& after.cancellation.marked() == before.cancellation.marked()
    &&& after.cancellation.registered() == before.cancellation.registered()
    &&& after.cancellation.next_id() == before.cancellation.next_id()
    &&& after.cancellation.generation() == before.cancellation.generation()
    &&& *after == (ProviderRuntime {
        input_closed: true,
        admission: after.admission,
        cancellation: after.cancellation,
        ..*before
    })
}

/// The number of terminal reports of `prompt_id` among some effects.
pub open spec fn terminals(effects: Seq<Effect>, prompt_id: Seq<char>) -> nat
    decreases effects.len(),
{
    if effects.len() == 0 {
        0
    } else {
        let before = terminals(effects.drop_last(), prompt_id);
        match effects.last() {
            Effect::Report(Report::ResponseFinished(finished)) => if finished.agent_prompt_id@
                == prompt_id {
                before + 1
            } else {
                before
            },
            _ => before,
        }
    }
}

/// The number of queued jobs of `prompt_id`.
pub open spec fn queued_count(queue: Seq<PromptJob>, prompt_id: Seq<char>) -> nat
    decreases queue.len(),
{
    if queue.len() == 0 {
        0
    } else {
        let before = queued_count(queue.drop_last(), prompt_id);
        if queue.last().agent_prompt_id@ == prompt_id {
            before + 1
        } else {
            before
        }
    }
}

/// The number of admissions of `prompt_id`.
pub open spec fn admitted_count(admissions: Seq<PendingPromptAdmission>, prompt_id: Seq<char>) -> nat
    decreases admissions.len(),
{
    if admissions.len() == 0 {
        0
    } else {
        let before = admitted_count(admissions.drop_last(), prompt_id);
        if admissions.last().kind.spec_prompt_id()@ == prompt_id {
            before + 1
        } else {
            before
        }
    }
}

proof fn terminals_of_concatenation(a: Seq<Effect>, b: Seq<Effect>, prompt_id: Seq<char>)
    ensures
        terminals(a + b, prompt_id) == terminals(a, prompt_id) + terminals(b, prompt_id),
    decreases b.len(),
{
    if b.len() == 0 {
        assert(a + b =~= a);
    } else {
        assert((a + b).drop_last() =~= a + b.drop_last());
        terminals_of_concatenation(a, b.drop_last(), prompt_id);
    }
}

proof fn terminals_of_push(a: Seq<Effect>, effect: Effect, prompt_id: Seq<char>)
    ensures
        terminals(a.push(effect), prompt_id) == terminals(a, prompt_id) + terminals(
            seq![effect],
            prompt_id,
        ),
{
    assert(a.push(effect) =~= a + seq![effect]);
    terminals_of_concatenation(a, seq![effect], prompt_id);
}

proof fn terminals_of_queue(queue: Seq<PromptJob>, prompt_id: Seq<char>)
    ensures
        terminals(canceled_jobs_effects(queue), prompt_id) == queued_count(queue, prompt_id),
    decreases queue.len(),
{
    if queue.len() > 0 {
        terminals_of_queue(queue.drop_last(), prompt_id);
        assert(canceled_jobs_effects(queue).drop_last() =~= canceled_jobs_effects(
            queue.drop_last(),
        ));
    }
}

proof fn terminals_of_admission(admission: PendingPromptAdmission, prompt_id: Seq<char>)
    ensures
        terminals(dropped_admission_effects(admission), prompt_id) == if
            admission.kind.spec_prompt_id()@ == prompt_id {
            1nat
        } else {
            0nat
        },
{
    reveal_with_fuel(terminals, 4);
    let closing = canceled_admission_effects(admission.kind);
    match admission.kind {
        PendingPromptAdmissionKind::Manual { job, request_id } => {
            assert(closing.drop_last() =~= seq![Effect::Report(canceled_job_report(job))]);
            assert(closing.drop_last().drop_last() =~= Seq::<Effect>::empty());
        },
        _ => {
            assert(closing.drop_last() =~= Seq::<Effect>::empty());
        },
    }
    if let Some(request_id) = admission.request_id {
        let read = seq![Effect::Deadline(PromptCredentialDeadlineCommand::Cancel(request_id))];
        assert(read.drop_last() =~= Seq::<Effect>::empty());
        terminals_of_concatenation(read, closing, prompt_id);
    }
}

proof fn terminals_of_admissions(admissions: Seq<PendingPromptAdmission>, prompt_id: Seq<char>)
    ensures
        terminals(dropped_admissions_effects(admissions), prompt_id) == admitted_count(
            admissions,
            prompt_id,
        ),
    decreases admissions.len(),
{
    if admissions.len() > 0 {
        terminals_of_admissions(admissions.drop_last(), prompt_id);
        terminals_of_admission(admissions.last(), prompt_id);
        terminals_of_concatenation(
            dropped_admissions_effects(admissions.drop_last()),
            dropped_admission_effects(admissions.last()),
            prompt_id,
        );
    }
}

/// A broadcast cancellation closes every prompt that the loop owns exactly once: one terminal for
/// each queued job and each held admission, none for anything else, and nothing is left to close.
pub proof fn broadcast_closes_exactly_once(
    before: &ProviderRuntime,
    after: &ProviderRuntime,
    effects_before: Seq<Effect>,
    effects_after: Seq<Effect>,
    prompt_id: Seq<char>,
)
    requires
        all_canceled(before, after, effects_before, effects_after),
    ensures
        terminals(effects_after, prompt_id) == terminals(effects_before, prompt_id) + queued_count(
            before.prompt_queue@,
            prompt_id,
        ) + admitted_count(before.admission.admissions@, prompt_id),
        queued_count(after.prompt_queue@, prompt_id) == 0,
        admitted_count(after.admission.admissions@, prompt_id) == 0,
{
    let woken = choose|woken: Vec<u64>|
        {
            &&& #[trigger] woken@ == all_wakers(before.cancellation.registered())
            &&& effects_after == (effects_before + seq![
                Effect::CancelPrewarms(PrewarmScope::All),
                Effect::WakeBackends(woken),
                Effect::Scheduler(SchedulerCommand::CancelAll),
            ] + canceled_jobs_effects(before.prompt_queue@) + dropped_admissions_effects(
                before.admission.admissions@,
            )).push(Effect::Deadline(PromptCredentialDeadlineCommand::CancelAll))
        };
    let notice = seq![
        Effect::CancelPrewarms(PrewarmScope::All),
        Effect::WakeBackends(woken),
        Effect::Scheduler(SchedulerCommand::CancelAll),
    ];
    let jobs = canceled_jobs_effects(before.prompt_queue@);
    let held = dropped_admissions_effects(before.admission.admissions@);
    let last = Effect::Deadline(PromptCredentialDeadlineCommand::CancelAll);
    reveal_with_fuel(terminals, 4);
    assert(notice.drop_last().drop_last().drop_last() =~= Seq::<Effect>::empty());
    assert(seq![last].drop_last() =~= Seq::<Effect>::empty());
    terminals_of_concatenation(effects_before, notice, prompt_id);
    terminals_of_concatenation(effects_before + notice, jobs, prompt_id);
    terminals_of_concatenation(effects_before + notice + jobs, held, prompt_id);
    terminals_of_push(effects_before + notice + jobs + held, last, prompt_id);
    terminals_of_queue(before.prompt_queue@, prompt_id);
    terminals_of_admissions(before.admission.admissions@, prompt_id);
}

/// A credential request is given half a minute, wherever the clock has room.
pub proof fn credential_read_has_half_a_minute(now: Moment)
    requires
        now.nanos + 30_000_000_000 <= 9_223_372_036_854_775_807_999_999_999,
    ensures
        credential_deadline(now).nanos == now.nanos + 30_000_000_000,
{
}

/// A new job is exactly what was asked: its prompt on its backend, without a failure, a bypass or a
/// probe, bound to the broadcasts so far, and pinned to the account of a ChatGPT route.
pub proof fn new_job_is_what_was_asked(
    runtime: &ProviderRuntime,
    agent_prompt_id: String,
    prompt: Prompt,
    backend: PromptBackend,
    identity: Option<BackendProfileIdentity>,
)
    ensures
        ({
            let job = new_job(runtime, agent_prompt_id, prompt, backend, identity);
            &&& job.agent_prompt_id == agent_prompt_id
            &&& job.prompt == prompt
            &&& job.backend == backend
            &&& job.profile_identity == identity
            &&& job.retry_state.attempts == 0
            &&& job.retry_state.current == 0
            &&& job.observed_backend is None
            &&& job.cancel_generation == runtime.cancel_generation
            &&& !job.manual_cooldown_bypass
            &&& job.cooldown_probe is None
            &&& job.debug_provider_requests ==> runtime.session_debug_allowed@.contains_key(
                prompt.session_id@,
            )
            &&& backend matches PromptBackend::Responses(config) ==> (
            job.pinned_chatgpt_identity matches Some(pinned) && pinned.anchor
                == config.identity.retry_anchor)
            &&& !(backend is Responses) ==> job.pinned_chatgpt_identity is None
        }),
{
}

/// A prompt that arrives canceled ends at once and uses its mark up. Any other takes over from its
/// agent's prewarm; with secret storage it waits in line for its credential, without the
/// transport's reference to an earlier tool list, and its read gets a deadline.
pub proof fn arrival_ends_or_waits_in_line(
    before: &ProviderRuntime,
    after: &ProviderRuntime,
    created: Prompt,
    request_id: String,
    now: Now,
    effects_before: Seq<Effect>,
    effects_after: Seq<Effect>,
)
    requires
        prompt_created(before, after, created, request_id, now, effects_before, effects_after),
    ensures
        before.cancellation.is_shut_down() || before.cancellation.marked().contains(
            created.agent_prompt_id@,
        ) ==> {
            &&& effects_after.len() == effects_before.len() + 1
            &&& ends_as_canceled(effects_after.last(), created.agent_prompt_id, created)
            &&& !after.cancellation.marked().contains(created.agent_prompt_id@)
            &&& after.admission == before.admission
            &&& after.prompt_queue == before.prompt_queue
            &&& after.active_prompts == before.active_prompts
            &&& after.delayed_count == before.delayed_count
        },
        before.secret_rpc && !before.cancellation.is_shut_down()
            && !before.cancellation.marked().contains(created.agent_prompt_id@) ==> {
            let line = after.admission.admissions@;
            let stored = before.settings.credential_map();
            let provider = created.model.provider@;
            &&& line.len() == before.admission.admissions@.len() + 1
            &&& line.drop_last() == before.admission.admissions@
            &&& line.last().kind matches PendingPromptAdmissionKind::Initial {
                agent_prompt_id,
                prompt,
            }
            &&& agent_prompt_id == created.agent_prompt_id
            &&& prompt.tools_ref is None
            &&& prompt.model == created.model
            &&& prompt.operation == created.operation
            &&& prompt.content == created.content
            &&& prompt.agent_id == created.agent_id
            &&& prompt.originator == created.originator
            &&& prompt.session_id == created.session_id
            &&& effects_after[effects_before.len() as int] == Effect::CancelPrewarms(
                PrewarmScope::Agent {
                    provider: created.model.provider,
                    agent_id: created.agent_id,
                },
            )
            &&& if stored.contains_key(provider) && stored[provider] is Stored {
                &&& line.last().request_id == Some(request_id)
                &&& line.last().observations is None
                &&& effects_after.len() == effects_before.len() + 3
                &&& effects_after[effects_before.len() + 1int] matches Effect::ReadCredential {
                    request_id: read,
                    path,
                }
                &&& read == request_id
                &&& path == stored[provider]->Stored_0.path
                &&& effects_after[effects_before.len() + 2int] matches Effect::Deadline(
                    PromptCredentialDeadlineCommand::Schedule { request_id: timed, due },
                )
                &&& timed == request_id
                &&& now.moment.nanos + 30_000_000_000 <= 9_223_372_036_854_775_807_999_999_999
                    ==> due.nanos == now.moment.nanos + 30_000_000_000
            } else {
                &&& line.last().request_id is None
                &&& line.last().observations is Some
                &&& effects_after.len() == effects_before.len() + 1
            }
        },
{
}

/// A prompt on a known route is announced once, and then it is parked when a boundary is in force,
/// and runs or waits for a slot when none is.
pub proof fn resolved_prompt_is_announced(
    before: &ProviderRuntime,
    after: &ProviderRuntime,
    agent_prompt_id: String,
    prompt: Prompt,
    profiles: &BuiltinProviderProfiles,
    now: Now,
    effects_before: Seq<Effect>,
    effects_after: Seq<Effect>,
    backend: PromptBackend,
    identity: Option<BackendProfileIdentity>,
    route: RouteEffects,
)
    requires
        resolved_started_on(
            before,
            after,
            agent_prompt_id,
            prompt,
            profiles,
            now,
            effects_before,
            effects_after,
            backend,
            identity,
            route,
        ),
    ensures
        ({
            let told = effects_before.len() + (if route.released is Some {
                2int
            } else {
                1int
            });
            let cooldowns = after.routes.shared_cooldowns@;
            let provider = prompt.model.provider@;
            let held = cooldowns.contains_key(provider) && now.moment.nanos
                < cooldowns[provider].not_before.nanos;
            &&& effects_after.len() > told
            &&& effects_after[told] == Effect::Report(
                Report::PromptSubmitted { agent_prompt_id, originator: prompt.originator },
            )
            &&& held ==> {
                &&& effects_after.len() == told + 3
                &&& effects_after.last() matches Effect::Scheduler(
                    SchedulerCommand::Schedule { cooldown: Some(constraint), job, .. },
                )
                &&& constraint.boundary == cooldowns[provider].not_before
                &&& constraint.generation == cooldowns[provider].generation
                &&& job.agent_prompt_id == agent_prompt_id
                &&& job.prompt == prompt
                &&& job.backend == backend
                &&& after.active_prompts == before.active_prompts
                &&& after.prompt_queue == before.prompt_queue
                &&& before.delayed_count < usize::MAX ==> after.delayed_count
                    == before.delayed_count + 1
            }
            &&& !held && before.active_prompts < before.prompt_concurrency_limit ==> {
                &&& effects_after.len() == told + 2
                &&& effects_after.last() matches Effect::StartPrompt { job, cooldown_probe }
                &&& job.agent_prompt_id == agent_prompt_id
                &&& job.prompt == prompt
                &&& job.backend == backend
                &&& job.profile_identity == identity
                &&& job.retry_state.attempts == 0
                &&& cooldown_probe is None
                &&& after.active_prompts == before.active_prompts + 1
                &&& after.delayed_count == before.delayed_count
            }
            &&& !held && before.active_prompts >= before.prompt_concurrency_limit ==> {
                &&& effects_after.len() == told + 1
                &&& after.prompt_queue@.len() == before.prompt_queue@.len() + 1
                &&& after.prompt_queue@.last().agent_prompt_id == agent_prompt_id
                &&& after.prompt_queue@.last().prompt == prompt
                &&& after.prompt_queue@.last().backend == backend
                &&& after.active_prompts == before.active_prompts
                &&& after.delayed_count == before.delayed_count
            }
        }),
        after.cancellation == before.cancellation,
        after.admission == before.admission,
{
}

/// An automatic retry never crosses accounts: on another account's route, or off the ChatGPT
/// routes, a pinned prompt ends with that reason and is not queued. Otherwise it queues on its new
/// route with its history.
pub proof fn requeued_retry_keeps_its_account(
    before: &ProviderRuntime,
    after: &ProviderRuntime,
    job: PromptJob,
    backend: PromptBackend,
    identity: Option<BackendProfileIdentity>,
    effects_before: Seq<Effect>,
    effects_after: Seq<Effect>,
)
    requires
        retry_requeued(before, after, job, backend, identity, effects_before, effects_after),
    ensures
        ({
            let crosses = job.pinned_chatgpt_identity matches Some(pinned) && (match backend {
                PromptBackend::Responses(config) => config.identity.retry_anchor != pinned.anchor,
                PromptBackend::Unavailable { .. } => false,
                _ => true,
            });
            &&& crosses ==> {
                &&& *after == *before
                &&& effects_after.len() == effects_before.len() + 1
                &&& effects_after.last() matches Effect::Report(Report::ResponseFinished(finished))
                &&& finished.agent_prompt_id == job.agent_prompt_id
                &&& finished.output is None
                &&& finished.error == Some(ErrorText::IdentityChanged)
                &&& finished.backend == job.observed_backend
            }
            &&& !crosses ==> {
                let queued = after.prompt_queue@.last();
                &&& effects_after == effects_before
                &&& after.prompt_queue@.len() == before.prompt_queue@.len() + 1
                &&& queued.backend == backend
                &&& queued.profile_identity == identity
                &&& queued.agent_prompt_id == job.agent_prompt_id
                &&& queued.prompt == job.prompt
                &&& queued.retry_state == job.retry_state
                &&& queued.pinned_chatgpt_identity == job.pinned_chatgpt_identity
                &&& queued.observed_backend == job.observed_backend
                &&& queued.cancel_generation == job.cancel_generation
                &&& queued.manual_cooldown_bypass == job.manual_cooldown_bypass
                &&& queued.cooldown_probe == job.cooldown_probe
            }
        }),
{
}

/// A manual retry queues on its new route, may pass the boundary once, and probes exactly the
/// boundary that is in force, if there is one.
pub proof fn requeued_manual_retry_probes_the_boundary(
    before: &ProviderRuntime,
    after: &ProviderRuntime,
    job: PromptJob,
    backend: PromptBackend,
    identity: Option<BackendProfileIdentity>,
    now: Moment,
)
    requires
        manual_requeued(before, after, job, backend, identity, now),
    ensures
        ({
            let queued = after.prompt_queue@.last();
            let cooldowns = before.routes.shared_cooldowns@;
            let provider = job.prompt.model.provider;
            &&& after.prompt_queue@.len() == before.prompt_queue@.len() + 1
            &&& queued.manual_cooldown_bypass
            &&& queued.backend == backend
            &&& queued.profile_identity == identity
            &&& queued.agent_prompt_id == job.agent_prompt_id
            &&& queued.prompt == job.prompt
            &&& queued.retry_state == job.retry_state
            &&& queued.cancel_generation == job.cancel_generation
            &&& queued.cooldown_probe is Some <==> cooldowns.contains_key(provider@) && now.nanos
                < cooldowns[provider@].not_before.nanos
            &&& queued.cooldown_probe matches Some(probe) ==> probe.provider == provider
                && probe.generation == cooldowns[provider@].generation
        }),
{
}

/// The front of the line is released only when its credential is ready; after the end of input, or
/// when it was canceled, it ends as canceled and touches nothing else.
pub proof fn front_of_the_line_is_released_or_ended(before: Snapshot, after: Snapshot, now: Now)
    requires
        head_released(before, after, now),
    ensures
        before.0.admission.admissions@.len() > 0,
        before.0.admission.admissions@[0].observations is Some,
        before.0.admission.admissions@[0].oauth_refresh is None,
        after.0.admission.admissions@ == before.0.admission.admissions@.skip(1),
        before.0.input_closed || before.0.cancellation.is_shut_down()
            || before.0.cancellation.marked().contains(
            before.0.admission.admissions@[0].kind.spec_prompt_id()@,
        ) ==> {
            &&& after.1.len() > before.1.len()
            &&& ends_as_canceled(
                after.1[before.1.len() as int],
                before.0.admission.admissions@[0].kind.spec_prompt_id(),
                before.0.admission.admissions@[0].kind.spec_prompt(),
            )
            &&& after.0.routes == before.0.routes
            &&& after.0.prompt_queue == before.0.prompt_queue
            &&& after.0.active_prompts == before.0.active_prompts
            &&& after.0.delayed_count == before.0.delayed_count
        },
{
    canceled_admission_answers_everyone(before.0.admission.admissions@[0].kind);
}

/// A targeted cancellation wakes the prompt's backends, tells the scheduler, and leaves neither the
/// queue nor the line with the prompt's first entry. The mark remains only for a prompt that was
/// found in neither.
pub proof fn targeted_cancellation_reaches_the_prompt(
    before: &ProviderRuntime,
    after: &ProviderRuntime,
    prompt_id: String,
    effects_before: Seq<Effect>,
    effects_after: Seq<Effect>,
)
    requires
        prompt_canceled(before, after, prompt_id, effects_before, effects_after),
    ensures
        ({
            let queued = exists|i: int|
                0 <= i < before.prompt_queue@.len() && (
                #[trigger] before.prompt_queue@[i]).agent_prompt_id@ == prompt_id@;
            let admitted = exists|i: int|
                0 <= i < before.admission.admissions@.len() && (
                #[trigger] before.admission.admissions@[i]).kind.spec_prompt_id()@ == prompt_id@;
            &&& after.cancellation.marked().contains(prompt_id@) <==> !queued && !admitted
            &&& after.prompt_queue@.len() == before.prompt_queue@.len() - (if queued {
                1int
            } else {
                0int
            })
            &&& after.admission.admissions@.len() == before.admission.admissions@.len() - (if
                admitted {
                1int
            } else {
                0int
            })
        }),
        after.cancel_generation == before.cancel_generation,
        after.active_prompts == before.active_prompts,
        after.delayed_count == before.delayed_count,
        after.routes == before.routes,
        forall|other: Seq<char>|
            other != prompt_id@ ==> (#[trigger] after.cancellation.marked().contains(other)
                == before.cancellation.marked().contains(other)),
{
    let (woken, middle, queued, admitted) = choose|
        woken: Vec<u64>,
        middle: Seq<Effect>,
        queued: bool,
        admitted: bool,
    |
        {
            &&& woken@ == wakers_of(before.cancellation.registered(), prompt_id@)
            &&& #[trigger] queued_closed(
                before.prompt_queue@,
                after.prompt_queue@,
                prompt_id@,
                cancel_notice(effects_before, woken, prompt_id),
                middle,
                queued,
            )
            &&& #[trigger] admission_closed(
                &before.admission,
                &after.admission,
                prompt_id@,
                middle,
                effects_after,
                admitted,
            )
            &&& after.cancellation.same_but_marks(&before.cancellation)
            &&& after.cancellation.marked() == if queued || admitted {
                before.cancellation.marked().remove(prompt_id@)
            } else {
                before.cancellation.marked().insert(prompt_id@)
            }
            &&& *after == (ProviderRuntime {
                prompt_queue: after.prompt_queue,
                admission: after.admission,
                cancellation: after.cancellation,
                ..*before
            })
        };
    if queued {
        let i = choose|i: int| #[trigger] first_queued(before.prompt_queue@, prompt_id@, i)
            && after.prompt_queue@ == before.prompt_queue@.remove(i);
        assert(before.prompt_queue@[i].agent_prompt_id@ == prompt_id@);
    }
    if admitted {
        let (i, pruned) = choose|i: int, pruned: Seq<String>|
            first_admitted(before.admission.admissions@, prompt_id@, i) && #[trigger]
            admission_closed_at(
                &before.admission,
                &after.admission,
                i,
                middle,
                effects_after,
                pruned,
            );
        assert(before.admission.admissions@[i].kind.spec_prompt_id()@ == prompt_id@);
    }
}

/// A broadcast ends everything that has not started: nothing queued or admitted remains, everyone
/// is woken, and everything started before it is out of date.
pub proof fn broadcast_leaves_nothing_waiting(
    before: &ProviderRuntime,
    after: &ProviderRuntime,
    effects_before: Seq<Effect>,
    effects_after: Seq<Effect>,
    i: int,
)
    requires
        all_canceled(before, after, effects_before, effects_after),
    ensures
        after.prompt_queue@.len() == 0,
        after.admission.admissions@.len() == 0,
        after.admission.oauth_refreshes@.len() == 0,
        before.cancel_generation < u64::MAX ==> after.cancel_generation == before.cancel_generation
            + 1,
        before.cancellation.generation() < u64::MAX ==> after.cancellation.generation()
            == before.cancellation.generation() + 1,
        after.active_prompts == before.active_prompts,
        after.delayed_count == before.delayed_count,
        !after.cancellation.is_shut_down() || before.cancellation.is_shut_down(),
        effects_after.len() > effects_before.len() + 3,
        effects_after[effects_before.len() as int] == Effect::CancelPrewarms(PrewarmScope::All),
        effects_after[effects_before.len() + 1int] matches Effect::WakeBackends(woken) && (0 <= i
            < before.cancellation.registered().len() ==> woken@.contains(
            before.cancellation.registered()[i].id,
        )),
        effects_after[effects_before.len() + 2int] == Effect::Scheduler(SchedulerCommand::CancelAll),
        effects_after.last() == Effect::Deadline(PromptCredentialDeadlineCommand::CancelAll),
{
    let woken = choose|woken: Vec<u64>|
        {
            &&& #[trigger] woken@ == all_wakers(before.cancellation.registered())
            &&& effects_after == (effects_before + seq![
                Effect::CancelPrewarms(PrewarmScope::All),
                Effect::WakeBackends(woken),
                Effect::Scheduler(SchedulerCommand::CancelAll),
            ] + canceled_jobs_effects(before.prompt_queue@) + dropped_admissions_effects(
                before.admission.admissions@,
            )).push(Effect::Deadline(PromptCredentialDeadlineCommand::CancelAll))
        };
    if 0 <= i < before.cancellation.registered().len() {
        assert(woken@[i] == before.cancellation.registered()[i].id);
    }
}

/// The end of input closes the runtime for good: it is closed and shut down, nothing is admitted
/// any more, everyone is woken and everything parked is called back, while running work and the
/// queue are left to end.
pub proof fn end_of_input_closes_for_good(
    before: &ProviderRuntime,
    after: &ProviderRuntime,
    effects_before: Seq<Effect>,
    effects_after: Seq<Effect>,
    i: int,
)
    requires
        input_shut(before, after, effects_before, effects_after),
    ensures
        after.input_closed,
        after.cancellation.is_shut_down(),
        after.admission.admissions@.len() == 0,
        after.admission.oauth_refreshes@.len() == 0,
        after.prompt_queue == before.prompt_queue,
        after.active_prompts == before.active_prompts,
        after.delayed_count == before.delayed_count,
        after.cancel_generation == before.cancel_generation,
        effects_after.len() == effects_before.len() + 4,
        effects_after[effects_before.len() as int] == Effect::CancelPrewarms(PrewarmScope::All),
        effects_after[effects_before.len() + 1int] matches Effect::WakeBackends(woken) && (0 <= i
            < before.cancellation.registered().len() ==> woken@.contains(
            before.cancellation.registered()[i].id,
        )),
        effects_after[effects_before.len() + 2int] == Effect::Deadline(
            PromptCredentialDeadlineCommand::CancelAll,
        ),
        effects_after[effects_before.len() + 3int] == Effect::Scheduler(SchedulerCommand::CancelAll),
{
    let woken = choose|woken: Vec<u64>|
        {
            &&& #[trigger] woken@ == all_wakers(before.cancellation.registered())
            &&& effects_after == effects_before + seq![
                Effect::CancelPrewarms(PrewarmScope::All),
                Effect::WakeBackends(woken),
                Effect::Deadline(PromptCredentialDeadlineCommand::CancelAll),
                Effect::Scheduler(SchedulerCommand::CancelAll),
            ]
        };
    if 0 <= i < before.cancellation.registered().len() {
        assert(woken@[i] == before.cancellation.registered()[i].id);
    }
}

/// The runtime has finished only when its input has and nothing that it owns is left.
pub proof fn finished_owns_nothing(runtime: &ProviderRuntime)
    ensures
        runtime.finished() ==> runtime.input_closed && runtime.active_prompts == 0
            && runtime.prompt_queue@.len() == 0 && runtime.delayed_count == 0
            && runtime.prewarms@.len() == 0 && runtime.admission.admissions@.len() == 0
            && runtime.admission.oauth_refreshes@.len() == 0,
        runtime.input_closed && runtime.active_prompts == 0 && runtime.prompt_queue@.len() == 0
            && runtime.delayed_count == 0 && runtime.prewarms@.len() == 0
            && runtime.admission.admissions@.len() == 0
            && runtime.admission.oauth_refreshes@.len() == 0 ==> runtime.finished(),
{
}

} // verus!
