//! The provider main loop over observed rounds.

use vstd::prelude::*;

use crate::admission::PromptOAuthRefreshKey;
use crate::cancellation::all_wakers;
use crate::clock::Moment;
use crate::exchange::{
    network_refresh_finished, request_expired, storage_answered, SecretPayload,
};
use crate::names::NameTable;
use crate::oauth::{JwtClaims, OAuthError, OAuthTokenRefresh};
use crate::prewarm::{
    only_the_ended_worker_leaves, without_worker, PrewarmKey, PrewarmKeyContent,
};
use crate::profiles::{BuiltinProviderProfiles, SecretReply};
use crate::prompt::{
    BackendProfileIdentity, CooldownProbe, ModelId, Prompt, PromptJob, ResolvedConfig,
};
use crate::prompts::{
    all_canceled, input_shut, line_drained, prompt_canceled, prompt_created, Snapshot,
};
use crate::quota::{QuotaEpoch, QuotaWindowObservation, RollingQuotaObservation};
use crate::report::{canceled_job_report, ProviderCacheRefreshStatus, Report};
use crate::routes::Now;
use crate::runtime::{
    cooled_count, cooled_effects, debug_allowed, ends_as_canceled, grown, queue_started,
    retained_jobs, shrunk, Effect, PrewarmScope, ProviderRuntime,
};
use crate::scheduler::{RetrySchedulerAction, SchedulerCommand};
use crate::supervise::{
    cache_refresh_requested, prewarm_requested, settings_accepted, PrewarmRequest,
};
use crate::text::optional_text;
use crate::upkeep::{compact_downgraded, quota_fetch_ended, quota_refreshed, quota_rolled};
use crate::worker::{
    attempt_failed, handed_back, manually_released, output_committed, retry_came_due,
    AttemptFailure,
};

verus! {

/// One thing that arrived from the harness.
#[allow(inconsistent_fields)]
pub enum LoopInput {
    /// Validated settings with the replies to reading their stored credentials.
    Configured { settings: BuiltinProviderProfiles, replies: NameTable<SecretReply> },
    /// A session directory was announced.
    SessionDir { session_id: String, ephemeral: bool },
    /// A prewarm was requested and its route resolved.
    Prewarm { request: PrewarmRequest, config: Option<ResolvedConfig> },
    /// A cache refresh was requested and its route resolved.
    CacheRefresh {
        request: PrewarmRequest,
        refresh_id: String,
        stop_after_millis: u32,
        config: Option<ResolvedConfig>,
    },
    /// A cache refresh was canceled.
    CacheRefreshCanceled { refresh_id: String },
    /// A prompt was created; `read_id` names its credential read.
    PromptCreated { prompt: Prompt, read_id: String },
    /// A user canceled one prompt, or everything.
    CancelPrompt { agent_prompt_id: Option<String> },
    /// A user asked to retry one prompt now.
    RetryPrompt { request_id: String, agent_prompt_id: Option<String> },
    /// The session ends.
    SessionShutdown,
    /// Secret storage answered; `next_id` names a follow-up request.
    Storage { request_id: String, payload: SecretPayload, next_id: String },
    /// Input ended or failed.
    Closed,
    /// The harness disconnected.
    Disconnected,
    /// The harness asked the loop to stop.
    StopRequested,
}

/// One notice of a worker.
#[allow(inconsistent_fields)]
pub enum WorkerMessage {
    /// A prompt-owned token refresh ended; `request_id` names its publication.
    OAuthRefreshFinished {
        key: PromptOAuthRefreshKey,
        result: Result<OAuthTokenRefresh, OAuthError>,
        request_id: String,
    },
    /// A credential request's deadline passed.
    CredentialTimeout { request_id: String },
    /// A worker queued a report.
    Output {
        report: Report,
        dispatch_generation: u64,
        agent_prompt_id: String,
        cooldown_probe: Option<CooldownProbe>,
    },
    /// An attempt ended.
    PromptDone,
    /// A compact route was rejected, and every route was resolved again.
    CompactRouteUnavailable { identity: BackendProfileIdentity, profiles: BuiltinProviderProfiles },
    /// A prewarm ended.
    PrewarmDone { key: PrewarmKey, terminal: Option<(String, ProviderCacheRefreshStatus)> },
    /// An attempt failed transiently.
    AttemptFailed(AttemptFailure),
    /// A parked prompt's time has come; `read_id` names its credential read.
    RetryDue { job: PromptJob, read_id: String },
    /// The scheduler answered a manual retry; `read_id` names its credential read.
    ManualRetry {
        job: Option<PromptJob>,
        request_id: String,
        agent_prompt_id: String,
        read_id: String,
    },
    /// The scheduler canceled a parked prompt.
    DelayedCanceled { job: PromptJob, delayed_count: usize },
    /// A rolling quota observation arrived.
    QuotaRolling {
        model: ModelId,
        /// The client's quota identity of the route.
        profile_identity: u64,
        observation: RollingQuotaObservation,
        observed_at_unix_ms: u64,
    },
    /// A full quota fetch ended.
    QuotaFetchFinished {
        provider: String,
        profile_epoch: QuotaEpoch,
        fetch_start_sequence: u64,
        observed_at_unix_ms: u64,
        snapshot: Option<Vec<QuotaWindowObservation>>,
    },
    /// A current quota refresh came due and its route was resolved.
    QuotaRefreshDue { provider: String, config: Option<ResolvedConfig> },
}

/// The notice that a scheduler action becomes; `read_id` names the credential read it may need.
pub open spec fn action_notice(action: RetrySchedulerAction, read_id: String) -> WorkerMessage {
    match action {
        RetrySchedulerAction::Due(job) => WorkerMessage::RetryDue { job, read_id },
        RetrySchedulerAction::Canceled { job, delayed_count } => WorkerMessage::DelayedCanceled {
            job,
            delayed_count,
        },
        RetrySchedulerAction::Manual { job, request_id, agent_prompt_id } =>
            WorkerMessage::ManualRetry { job, request_id, agent_prompt_id, read_id },
    }
}

/// Turns a scheduler action into a worker notice.
pub fn scheduler_notice(action: RetrySchedulerAction, read_id: String) -> (res: WorkerMessage)
    ensures
        res == action_notice(action, read_id),
{
    match action {
        RetrySchedulerAction::Due(job) => WorkerMessage::RetryDue { job, read_id },
        RetrySchedulerAction::Canceled { job, delayed_count } => WorkerMessage::DelayedCanceled {
            job,
            delayed_count,
        },
        RetrySchedulerAction::Manual { job, request_id, agent_prompt_id } =>
            WorkerMessage::ManualRetry { job, request_id, agent_prompt_id, read_id },
    }
}

/// One round of the loop: at most one input, then every queued worker notice.
pub struct LoopRound {
    pub input: Option<LoopInput>,
    pub workers: Vec<WorkerMessage>,
    pub now: Now,
}

/// Why the loop ended.
#[derive(Clone, Copy, Debug, PartialEq, Eq, Structural)]
pub enum LoopEnd {
    /// Input ended and nothing is owned any more.
    Finished,
    /// The harness disconnected.
    Disconnected,
    /// The harness asked the loop to stop.
    Stopped,
    /// No cooldown evidence generation is left.
    EvidenceExhausted,
}

/// What a disconnect does: everything that runs is told to stop.
pub open spec fn disconnected(before: Snapshot, after: Snapshot) -> bool {
    let (runtime, effects_before) = before;
    let (result, effects_after) = after;
    &&& exists|woken: Vec<u64>|
        {
            &&& #[trigger] woken@ == all_wakers(runtime.cancellation.registered())
            &&& effects_after == effects_before.push(Effect::WakeBackends(woken)).push(
                Effect::CancelPrewarms(PrewarmScope::All),
            )
        }
    &&& result.cancellation.is_shut_down()
    &&& result.cancellation.marked() == runtime.cancellation.marked()
    &&& result.cancellation.registered() == runtime.cancellation.registered()
    &&& result.cancellation.next_id() == runtime.cancellation.next_id()
    &&& result.cancellation.generation() == runtime.cancellation.generation()
    &&& result == (ProviderRuntime { cancellation: result.cancellation, ..runtime })
}

/// What one input does.
pub open spec fn input_applied(
    before: Snapshot,
    after: Snapshot,
    input: LoopInput,
    claims: &JwtClaims,
    now: Now,
) -> bool {
    let (runtime, effects_before) = before;
    let (result, effects_after) = after;
    match input {
        LoopInput::Configured { settings, replies } => settings_accepted(
            &runtime,
            &result,
            settings,
            replies@,
            effects_before,
            effects_after,
        ),
        LoopInput::SessionDir { session_id, ephemeral } => {
            &&& result.session_debug_allowed@ == runtime.session_debug_allowed@.insert(
                session_id@,
                !ephemeral,
            )
            &&& result == (ProviderRuntime {
                session_debug_allowed: result.session_debug_allowed,
                ..runtime
            })
            &&& effects_after == effects_before
        },
        LoopInput::Prewarm { request, config } => prewarm_requested(
            &runtime,
            &result,
            request,
            config,
            effects_before,
            effects_after,
        ),
        LoopInput::CacheRefresh { request, refresh_id, stop_after_millis, config } =>
            cache_refresh_requested(
            &runtime,
            &result,
            request,
            refresh_id,
            stop_after_millis,
            config,
            now.moment,
            effects_before,
            effects_after,
        ),
        LoopInput::CacheRefreshCanceled { refresh_id } => {
            &&& result == runtime
            &&& effects_after == effects_before.push(
                Effect::CancelPrewarms(PrewarmScope::Refresh(refresh_id)),
            )
        },
        LoopInput::PromptCreated { prompt, read_id } => prompt_created(
            &runtime,
            &result,
            prompt,
            read_id,
            now,
            effects_before,
            effects_after,
        ),
        LoopInput::CancelPrompt { agent_prompt_id: Some(prompt_id) } => prompt_canceled(
            &runtime,
            &result,
            prompt_id,
            effects_before,
            effects_after,
        ),
        LoopInput::CancelPrompt { agent_prompt_id: None } => all_canceled(
            &runtime,
            &result,
            effects_before,
            effects_after,
        ),
        LoopInput::RetryPrompt { request_id, agent_prompt_id } => {
            &&& result == runtime
            &&& effects_after == match agent_prompt_id {
                Some(agent_prompt_id) => effects_before.push(
                    Effect::Scheduler(SchedulerCommand::RetryNow { request_id, agent_prompt_id }),
                ),
                None => effects_before,
            }
        },
        LoopInput::SessionShutdown => {
            &&& effects_after.len() > 0
            &&& effects_after.last() == Effect::InvalidateAllWebsockets
            &&& all_canceled(&runtime, &result, effects_before, effects_after.drop_last())
        },
        LoopInput::Storage { request_id, payload, next_id } => storage_answered(
            &runtime,
            &result,
            request_id,
            payload,
            next_id,
            claims,
            now,
            effects_before,
            effects_after,
        ),
        LoopInput::Closed => input_shut(&runtime, &result, effects_before, effects_after),
        LoopInput::StopRequested => input_shut(&runtime, &result, effects_before, effects_after),
        LoopInput::Disconnected => disconnected(before, after),
    }
}

/// The end that an input brings about by itself.
pub open spec fn input_end(input: LoopInput) -> Option<LoopEnd> {
    match input {
        LoopInput::Disconnected => Some(LoopEnd::Disconnected),
        LoopInput::StopRequested => Some(LoopEnd::Stopped),
        _ => None,
    }
}

/// What one worker notice does.
pub open spec fn message_applied(
    before: Snapshot,
    after: Snapshot,
    message: WorkerMessage,
    claims: &JwtClaims,
    now: Now,
) -> bool {
    let (runtime, effects_before) = before;
    let (result, effects_after) = after;
    match message {
        WorkerMessage::OAuthRefreshFinished { key, result: outcome, request_id } =>
            network_refresh_finished(
            &runtime,
            &result,
            key,
            outcome,
            request_id,
            claims,
            now,
            effects_before,
            effects_after,
        ),
        WorkerMessage::CredentialTimeout { request_id } => {
            &&& request_expired(&runtime, &result, request_id@, now.unix_ms)
            &&& effects_after == effects_before
        },
        WorkerMessage::Output { report, dispatch_generation, agent_prompt_id, cooldown_probe } =>
            output_committed(
            &runtime,
            &result,
            report,
            dispatch_generation,
            agent_prompt_id@,
            cooldown_probe,
            now.moment,
            effects_before,
            effects_after,
        ),
        WorkerMessage::PromptDone => {
            &&& result == (ProviderRuntime {
                active_prompts: shrunk(runtime.active_prompts, 1),
                ..runtime
            })
            &&& effects_after == effects_before
        },
        WorkerMessage::CompactRouteUnavailable { identity, profiles } => compact_downgraded(
            &runtime,
            &result,
            identity,
            &profiles,
            effects_before,
            effects_after,
        ),
        WorkerMessage::PrewarmDone { key, terminal } => {
            &&& result == (ProviderRuntime { prewarms: result.prewarms, ..runtime })
            &&& result.prewarms.limit() == runtime.prewarms.limit()
            &&& result.prewarms@ == without_worker(runtime.prewarms@, key.content())
            &&& effects_after == match terminal {
                Some((refresh_id, status)) => effects_before.push(
                    Effect::Report(Report::CacheRefreshFinished { refresh_id, status }),
                ),
                None => effects_before,
            }
        },
        WorkerMessage::AttemptFailed(failure) => attempt_failed(
            &runtime,
            &result,
            failure,
            now.moment,
            effects_before,
            effects_after,
        ),
        WorkerMessage::RetryDue { job, read_id } => retry_came_due(
            &runtime,
            &result,
            job,
            read_id,
            claims,
            now,
            effects_before,
            effects_after,
        ),
        WorkerMessage::ManualRetry { job, request_id, agent_prompt_id, read_id } =>
            manually_released(
            &runtime,
            &result,
            job,
            request_id,
            agent_prompt_id,
            read_id,
            claims,
            now,
            effects_before,
            effects_after,
        ),
        WorkerMessage::DelayedCanceled { job, delayed_count } => {
            &&& effects_after == effects_before.push(Effect::Report(canceled_job_report(job)))
            &&& result.cancellation.same_but_marks(&runtime.cancellation)
            &&& result.cancellation.marked() == runtime.cancellation.marked().remove(
                job.agent_prompt_id@,
            )
            &&& result == (ProviderRuntime {
                cancellation: result.cancellation,
                ..handed_back(&runtime, delayed_count as nat)
            })
        },
        WorkerMessage::QuotaRolling { model, profile_identity, observation, observed_at_unix_ms } =>
            quota_rolled(
            &runtime,
            &result,
            model,
            profile_identity,
            observation,
            observed_at_unix_ms,
            effects_before,
            effects_after,
        ),
        WorkerMessage::QuotaFetchFinished {
            provider,
            profile_epoch,
            fetch_start_sequence,
            observed_at_unix_ms,
            snapshot,
        } => quota_fetch_ended(
            &runtime,
            &result,
            provider,
            profile_epoch,
            fetch_start_sequence,
            observed_at_unix_ms,
            snapshot,
            now.unix_ms,
            effects_before,
            effects_after,
        ),
        WorkerMessage::QuotaRefreshDue { provider, config } => quota_refreshed(
            &runtime,
            &result,
            provider,
            config,
            now,
            effects_before,
            effects_after,
        ),
    }
}

/// A failure that no evidence generation is left for.
pub open spec fn exhausts_evidence(runtime: ProviderRuntime, message: WorkerMessage) -> bool {
    message is AttemptFailed && runtime.routes.shared_cooldown_generation == u64::MAX
}

/// Worker notices applied one after another.
pub open spec fn messages_applied(
    trace: Seq<Snapshot>,
    messages: Seq<WorkerMessage>,
    claims: &JwtClaims,
    now: Now,
) -> bool {
    &&& 0 < trace.len() <= messages.len() + 1
    &&& forall|k: int|
        0 <= k < trace.len() - 1 ==> message_applied(
            #[trigger] trace[k],
            trace[k + 1],
            messages[k],
            claims,
            now,
        )
}

/// What draining queued worker notices does: they are applied in order, up to a failure that no
/// evidence generation is left for.
pub open spec fn workers_drained(
    before: Snapshot,
    after: Snapshot,
    messages: Seq<WorkerMessage>,
    claims: &JwtClaims,
    now: Now,
    exhausted: bool,
) -> bool {
    exists|trace: Seq<Snapshot>|
        {
            &&& #[trigger] messages_applied(trace, messages, claims, now)
            &&& trace[0] == before
            &&& trace.last() == after
            &&& if exhausted {
                &&& trace.len() <= messages.len()
                &&& exhausts_evidence(after.0, messages[trace.len() - 1])
            } else {
                trace.len() == messages.len() + 1
            }
        }
}

/// What parking every cooled queued job does.
pub open spec fn queue_parked(before: Snapshot, after: Snapshot, now: Moment) -> bool {
    let (runtime, effects_before) = before;
    let (result, effects_after) = after;
    let cooldowns = runtime.routes.shared_cooldowns@;
    &&& result.prompt_queue@ == retained_jobs(runtime.prompt_queue@, cooldowns, now)
    &&& result.delayed_count == grown(
        runtime.delayed_count,
        cooled_count(runtime.prompt_queue@, cooldowns, now),
    )
    &&& effects_after == effects_before + cooled_effects(runtime.prompt_queue@, cooldowns, now)
    &&& result == (ProviderRuntime {
        prompt_queue: result.prompt_queue,
        delayed_count: result.delayed_count,
        ..runtime
    })
}

/// What settling a round does: ready admissions are released, cooled queued jobs park while input
/// is open, and free slots are filled.
pub open spec fn round_settled(before: Snapshot, after: Snapshot, now: Now) -> bool {
    exists|drained: Snapshot, parked: Snapshot|
        {
            &&& #[trigger] settled_through(before, drained, parked, after, now)
        }
}

/// A round settled through the given states.
pub open spec fn settled_through(
    before: Snapshot,
    drained: Snapshot,
    parked: Snapshot,
    after: Snapshot,
    now: Now,
) -> bool {
    &&& line_drained(&before.0, &drained.0, now, before.1, drained.1)
    &&& if drained.0.input_closed {
        parked == drained
    } else {
        queue_parked(drained, parked, now.moment)
    }
    &&& queue_started(&parked.0, &after.0, parked.1, after.1)
}

/// What one round does: its input is applied while input is open, then worker notices are drained
/// and the round settles. `end` is why the loop ends with it.
pub open spec fn round_ran(
    before: Snapshot,
    after: Snapshot,
    round: LoopRound,
    claims: &JwtClaims,
    end: Option<LoopEnd>,
) -> bool {
    exists|applied: Snapshot, drained: Snapshot, exhausted: bool| #[trigger]
        round_ran_through(before, applied, drained, after, round, claims, exhausted, end)
}

/// The input that a round applies: none once input has ended.
pub open spec fn live_input(runtime: ProviderRuntime, round: LoopRound) -> Option<LoopInput> {
    if runtime.input_closed {
        None
    } else {
        round.input
    }
}

/// A round ran through the given states.
pub open spec fn round_ran_through(
    before: Snapshot,
    applied: Snapshot,
    drained: Snapshot,
    after: Snapshot,
    round: LoopRound,
    claims: &JwtClaims,
    exhausted: bool,
    end: Option<LoopEnd>,
) -> bool {
    let input = live_input(before.0, round);
    let ended = match input {
        Some(input) => input_end(input),
        None => None,
    };
    &&& match input {
        Some(input) => input_applied(before, applied, input, claims, round.now),
        None => applied == before,
    }
    &&& if ended is Some {
        end == ended && drained == applied && after == applied
    } else {
        &&& workers_drained(applied, drained, round.workers@, claims, round.now, exhausted)
        &&& if exhausted {
            end == Some(LoopEnd::EvidenceExhausted) && after == drained
        } else {
            &&& round_settled(drained, after, round.now)
            &&& end == if after.0.finished() {
                Some(LoopEnd::Finished)
            } else {
                None
            }
        }
    }
}

/// Consecutive rounds, none of which ended the loop but possibly the last.
pub open spec fn rounds_ran(
    trace: Seq<Snapshot>,
    rounds: Seq<LoopRound>,
    claims: &JwtClaims,
    end: Option<LoopEnd>,
) -> bool {
    &&& 0 < trace.len() <= rounds.len() + 1
    &&& forall|k: int|
        0 <= k < trace.len() - 1 ==> round_ran(
            trace[k],
            trace[k + 1],
            #[trigger] rounds[k],
            claims,
            if k == trace.len() - 2 {
                end
            } else {
                None
            },
        )
    &&& end is Some ==> trace.len() > 1
    &&& end is None ==> trace.len() == rounds.len() + 1
}

/// What running some rounds does: they run in order until one ends the loop.
pub open spec fn ran(
    before: Snapshot,
    after: Snapshot,
    rounds: Seq<LoopRound>,
    claims: &JwtClaims,
    end: Option<LoopEnd>,
) -> bool {
    exists|trace: Seq<Snapshot>|
        {
            &&& #[trigger] rounds_ran(trace, rounds, claims, end)
            &&& trace[0] == before
            &&& trace.last() == after
        }
}

impl ProviderRuntime {
    /// Applies one input.
    pub fn handle_event(
        &mut self,
        input: LoopInput,
        claims: &JwtClaims,
        now: Now,
        out: &mut Vec<Effect>,
    )
        requires
            old(self).wf(),
        ensures
            final(self).wf(),
            input_applied(
                (*old(self), old(out)@),
                (*final(self), final(out)@),
                input,
                claims,
                now,
            ),
    {
        match input {
            LoopInput::Configured { settings, replies } => {
                self.handle_configure(settings, &replies, out);
            },
            LoopInput::SessionDir { session_id, ephemeral } => {
                self.record_session_debug_policy(session_id, ephemeral);
            },
            LoopInput::Prewarm { request, config } => {
                self.prewarm_backend(request, config, out);
            },
            LoopInput::CacheRefresh { request, refresh_id, stop_after_millis, config } => {
                self.cache_refresh_backend(
                    request,
                    refresh_id,
                    stop_after_millis,
                    config,
                    now.moment,
                    out,
                );
            },
            LoopInput::CacheRefreshCanceled { refresh_id } => {
                out.push(Effect::CancelPrewarms(PrewarmScope::Refresh(refresh_id)));
            },
            LoopInput::PromptCreated { prompt, read_id } => {
                self.handle_prompt_created(prompt, read_id, now, out);
            },
            LoopInput::CancelPrompt { agent_prompt_id } => {
                self.handle_cancel_prompt(agent_prompt_id, out);
            },
            LoopInput::RetryPrompt { request_id, agent_prompt_id } => {
                self.handle_retry_prompt(request_id, agent_prompt_id, out);
            },
            LoopInput::SessionShutdown => {
                self.handle_session_shutdown(out);
            },
            LoopInput::Storage { request_id, payload, next_id } => {
                self.handle_extension_data_result(request_id, payload, next_id, claims, now, out);
            },
            LoopInput::Closed => {
                self.begin_input_shutdown(out);
            },
            LoopInput::StopRequested => {
                self.begin_input_shutdown(out);
            },
            LoopInput::Disconnected => {
                let woken = self.cancellation.shutdown();
                assert(woken@ == all_wakers(old(self).cancellation.registered()));
                out.push(Effect::WakeBackends(woken));
                out.push(Effect::CancelPrewarms(PrewarmScope::All));
            },
        }
    }

    /// Applies one worker notice.
    pub fn handle_worker_message(
        &mut self,
        message: WorkerMessage,
        claims: &JwtClaims,
        now: Now,
        out: &mut Vec<Effect>,
    )
        requires
            old(self).wf(),
            !exhausts_evidence(*old(self), message),
        ensures
            final(self).wf(),
            message_applied(
                (*old(self), old(out)@),
                (*final(self), final(out)@),
                message,
                claims,
                now,
            ),
    {
        match message {
            WorkerMessage::OAuthRefreshFinished { key, result, request_id } => {
                self.handle_oauth_refresh_finished(key, result, request_id, claims, now, out);
            },
            WorkerMessage::CredentialTimeout { request_id } => {
                self.handle_credential_timeout(&request_id, now.unix_ms);
            },
            WorkerMessage::Output {
                report,
                dispatch_generation,
                agent_prompt_id,
                cooldown_probe,
            } => {
                self.handle_worker_output(
                    report,
                    dispatch_generation,
                    &agent_prompt_id,
                    &cooldown_probe,
                    now.moment,
                    out,
                );
            },
            WorkerMessage::PromptDone => {
                self.handle_prompt_done();
            },
            WorkerMessage::CompactRouteUnavailable { identity, profiles } => {
                self.finish_compact_route_unavailable(identity, &profiles, out);
            },
            WorkerMessage::PrewarmDone { key, terminal } => {
                self.handle_prewarm_done(&key, terminal, out);
            },
            WorkerMessage::AttemptFailed(failure) => {
                self.handle_attempt_failure(failure, now.moment, out);
            },
            WorkerMessage::RetryDue { job, read_id } => {
                self.handle_retry_due(job, read_id, claims, now, out);
            },
            WorkerMessage::ManualRetry { job, request_id, agent_prompt_id, read_id } => {
                self.handle_manual_retry(
                    job,
                    request_id,
                    agent_prompt_id,
                    read_id,
                    claims,
                    now,
                    out,
                );
            },
            WorkerMessage::DelayedCanceled { job, delayed_count } => {
                self.handle_delayed_canceled(job, delayed_count, out);
            },
            WorkerMessage::QuotaRolling {
                model,
                profile_identity,
                observation,
                observed_at_unix_ms,
            } => {
                self.handle_quota_rolling(
                    model,
                    profile_identity,
                    observation,
                    observed_at_unix_ms,
                    out,
                );
            },
            WorkerMessage::QuotaFetchFinished {
                provider,
                profile_epoch,
                fetch_start_sequence,
                observed_at_unix_ms,
                snapshot,
            } => {
                self.handle_quota_fetch_finished(
                    provider,
                    profile_epoch,
                    fetch_start_sequence,
                    observed_at_unix_ms,
                    snapshot,
                    now.unix_ms,
                    out,
                );
            },
            WorkerMessage::QuotaRefreshDue { provider, config } => {
                self.finish_quota_refresh(provider, config, now, out);
            },
        }
    }

    /// Applies queued worker notices in order. Returns whether it stopped at a failure that no
    /// evidence generation is left for.
    pub fn drain_worker_messages(
        &mut self,
        messages: Vec<WorkerMessage>,
        claims: &JwtClaims,
        now: Now,
        out: &mut Vec<Effect>,
    ) -> (res: bool)
        requires
            old(self).wf(),
        ensures
            final(self).wf(),
            workers_drained(
                (*old(self), old(out)@),
                (*final(self), final(out)@),
                messages@,
                claims,
                now,
                res,
            ),
    {
        let ghost all = messages@;
        let mut messages = messages;
        let ghost mut trace: Seq<Snapshot> = seq![(*self, out@)];
        assert(all.skip(0) =~= all);
        let mut exhausted: bool = false;
        while !exhausted && messages.len() > 0
            invariant
                self.wf(),
                trace[0] == (*old(self), old(out)@),
                trace.last() == (*self, out@),
                messages_applied(trace, all, claims, now),
                messages@ == all.skip(trace.len() - 1),
                exhausted ==> trace.len() <= all.len() && exhausts_evidence(
                    *self,
                    all[trace.len() - 1],
                ),
            decreases messages@.len() + if exhausted {
                0int
            } else {
                1int
            },
        {
            let ghost n = trace.len() - 1;
            let ghost before = (*self, out@);
            assert(messages@[0] == all[n]);
            exhausted =
            match &messages[0] {
                WorkerMessage::AttemptFailed(_) => self.routes.shared_cooldown_generation
                    == u64::MAX,
                _ => false,
            };
            if exhausted {
                continue ;
            }
            let message = messages.remove(0);
            assert(all.skip(n).remove(0) =~= all.skip(n + 1));
            self.handle_worker_message(message, claims, now, out);
            proof {
                let after = (*self, out@);
                let longer = trace.push(after);
                assert forall|k: int| 0 <= k < longer.len() - 1 implies message_applied(
                    #[trigger] longer[k],
                    longer[k + 1],
                    all[k],
                    claims,
                    now,
                ) by {
                    if k < trace.len() - 1 {
                        assert(message_applied(trace[k], trace[k + 1], all[k], claims, now));
                    } else {
                        assert(longer[k] == before && longer[k + 1] == after);
                    }
                }
                trace = longer;
            }
        }
        assert(messages_applied(trace, all, claims, now));
        exhausted
    }

    /// Settles one round: releases ready admissions, parks cooled queued jobs, and fills free
    /// slots.
    pub fn settle_round(&mut self, now: Now, out: &mut Vec<Effect>)
        requires
            old(self).wf(),
        ensures
            final(self).wf(),
            round_settled((*old(self), old(out)@), (*final(self), final(out)@), now),
    {
        self.drain_prompt_admissions(now, out);
        let ghost drained = (*self, out@);
        if !self.input_closed {
            self.park_cooled_queued_prompts(now.moment, out);
        }
        let ghost parked = (*self, out@);
        self.start_queued_prompts(out);
        assert(settled_through(
            (*old(self), old(out)@),
            drained,
            parked,
            (*self, out@),
            now,
        ));
    }

    /// Runs one round.
    pub fn run_round(
        &mut self,
        round: LoopRound,
        claims: &JwtClaims,
        out: &mut Vec<Effect>,
    ) -> (res: Option<LoopEnd>)
        requires
            old(self).wf(),
        ensures
            final(self).wf(),
            round_ran(
                (*old(self), old(out)@),
                (*final(self), final(out)@),
                round,
                claims,
                res,
            ),
    {
        let ghost whole = round;
        let ghost before = (*self, out@);
        let LoopRound { input, workers, now } = round;
        let mut ended: Option<LoopEnd> = None;
        if !self.input_closed {
            if let Some(input) = input {
                ended =
                match &input {
                    LoopInput::Disconnected => Some(LoopEnd::Disconnected),
                    LoopInput::StopRequested => Some(LoopEnd::Stopped),
                    _ => None,
                };
                self.handle_event(input, claims, now, out);
            }
        }
        let ghost applied = (*self, out@);
        if ended.is_some() {
            assert(round_ran_through(
                before,
                applied,
                applied,
                applied,
                whole,
                claims,
                false,
                ended,
            ));
            return ended;
        }
        let exhausted: bool = self.drain_worker_messages(workers, claims, now, out);
        let ghost drained = (*self, out@);
        if exhausted {
            let end = Some(LoopEnd::EvidenceExhausted);
            assert(round_ran_through(
                before,
                applied,
                drained,
                drained,
                whole,
                claims,
                true,
                end,
            ));
            return end;
        }
        self.settle_round(now, out);
        let end = if self.is_finished() {
            Some(LoopEnd::Finished)
        } else {
            None
        };
        assert(round_ran_through(
            before,
            applied,
            drained,
            (*self, out@),
            whole,
            claims,
            false,
            end,
        ));
        end
    }
}

/// Runs the extension over observed rounds: each applies what arrived, drains what workers
/// queued, and settles, until one ends the loop. Returns the effects asked for, in order, and why
/// the loop ended, if it did.
pub fn run(runtime: &mut ProviderRuntime, rounds: Vec<LoopRound>, claims: &JwtClaims) -> (res: (
    Vec<Effect>,
    Option<LoopEnd>,
))
    requires
        old(runtime).wf(),
    ensures
        final(runtime).wf(),
        ran(
            (*old(runtime), Seq::empty()),
            (*final(runtime), res.0@),
            rounds@,
            claims,
            res.1,
        ),
{
    let ghost all = rounds@;
    let mut rounds = rounds;
    let mut out: Vec<Effect> = Vec::new();
    let ghost mut trace: Seq<Snapshot> = seq![(*runtime, out@)];
    let mut end: Option<LoopEnd> = None;
    assert(all.skip(0) =~= all);
    while end.is_none() && rounds.len() > 0
        invariant
            runtime.wf(),
            trace[0] == (*old(runtime), Seq::<Effect>::empty()),
            trace.last() == (*runtime, out@),
            0 < trace.len() <= all.len() + 1,
            end is Some ==> trace.len() > 1,
            forall|k: int|
                0 <= k < trace.len() - 1 ==> round_ran(
                    trace[k],
                    trace[k + 1],
                    #[trigger] all[k],
                    claims,
                    if k == trace.len() - 2 {
                        end
                    } else {
                        None
                    },
                ),
            rounds@ == all.skip(trace.len() - 1),
        decreases rounds@.len(),
    {
        let ghost n = trace.len() - 1;
        let ghost before = (*runtime, out@);
        let round = rounds.remove(0);
        assert(round == all[n]);
        assert(all.skip(n).remove(0) =~= all.skip(n + 1));
        end = runtime.run_round(round, claims, &mut out);
        proof {
            let after = (*runtime, out@);
            let longer = trace.push(after);
            assert(longer[n] == before && longer[n + 1] == after);
            assert forall|k: int| 0 <= k < longer.len() - 1 implies round_ran(
                longer[k],
                longer[k + 1],
                #[trigger] all[k],
                claims,
                if k == longer.len() - 2 {
                    end
                } else {
                    None
                },
            ) by {
                if k < trace.len() - 1 {
                    assert(round_ran(trace[k], trace[k + 1], all[k], claims, None));
                }
            }
            trace = longer;
        }
    }
    assert(rounds_ran(trace, all, claims, end));
    (out, end)
}

/// What the scheduler says reaches the loop as it is: a prompt whose time has come, a prompt that
/// was canceled with the ownership it gives up, or the answer to a manual request.
pub proof fn scheduler_speaks_for_itself(action: RetrySchedulerAction, read_id: String)
    ensures
        action matches RetrySchedulerAction::Due(parked) ==> action_notice(action, read_id)
            == (WorkerMessage::RetryDue { job: parked, read_id }),
        action matches RetrySchedulerAction::Canceled { job, delayed_count } ==> action_notice(
            action,
            read_id,
        ) == (WorkerMessage::DelayedCanceled { job, delayed_count }),
        action matches RetrySchedulerAction::Manual { job, request_id, agent_prompt_id }
            ==> action_notice(action, read_id) == (WorkerMessage::ManualRetry {
            job,
            request_id,
            agent_prompt_id,
            read_id,
        }),
{
}

/// An ended attempt frees exactly one slot and nothing else.
pub proof fn ended_attempt_frees_its_slot(
    before: Snapshot,
    after: Snapshot,
    claims: &JwtClaims,
    now: Now,
)
    requires
        message_applied(before, after, WorkerMessage::PromptDone, claims, now),
    ensures
        before.0.active_prompts > 0 ==> after.0.active_prompts == before.0.active_prompts - 1,
        before.0.active_prompts == 0 ==> after.0.active_prompts == 0,
        after.0.prompt_queue == before.0.prompt_queue,
        after.0.delayed_count == before.0.delayed_count,
        after.0.cancellation == before.0.cancellation,
        after.0.routes == before.0.routes,
        after.1 == before.1,
{
}

/// A parked prompt that was canceled ends once, gives its ownership up and leaves no mark.
pub proof fn canceled_parked_prompt_ends(
    before: Snapshot,
    after: Snapshot,
    job: PromptJob,
    delayed_count: usize,
    claims: &JwtClaims,
    now: Now,
)
    requires
        message_applied(
            before,
            after,
            WorkerMessage::DelayedCanceled { job, delayed_count },
            claims,
            now,
        ),
    ensures
        after.1.len() == before.1.len() + 1,
        after.1.drop_last() == before.1,
        ends_as_canceled(after.1.last(), job.agent_prompt_id, job.prompt),
        delayed_count <= before.0.delayed_count ==> after.0.delayed_count + delayed_count
            == before.0.delayed_count,
        before.0.delayed_count < delayed_count ==> after.0.delayed_count == 0,
        !after.0.cancellation.marked().contains(job.agent_prompt_id@),
        after.0.active_prompts == before.0.active_prompts,
        after.0.prompt_queue == before.0.prompt_queue,
{
    assert(after.1.drop_last() =~= before.1);
}

/// An ended prewarm frees its key, and a scheduled refresh is reported with its own status.
pub proof fn ended_prewarm_is_reported(
    before: Snapshot,
    after: Snapshot,
    key: PrewarmKey,
    terminal: Option<(String, ProviderCacheRefreshStatus)>,
    claims: &JwtClaims,
    now: Now,
)
    requires
        message_applied(before, after, WorkerMessage::PrewarmDone { key, terminal }, claims, now),
        before.0.prewarms@.no_duplicates(),
    ensures
        !after.0.prewarms@.contains(
            (PrewarmKeyContent {
                provider: key.provider@,
                agent_id: key.agent_id@,
                refresh_id: optional_text(key.refresh_id),
            }),
        ),
        after.0.prewarms.limit() == before.0.prewarms.limit(),
        terminal is None ==> after.1 == before.1,
        terminal matches Some((id, outcome)) ==> after.1 == before.1.push(
            Effect::Report(Report::CacheRefreshFinished { refresh_id: id, status: outcome }),
        ),
        after.0.routes == before.0.routes,
        after.0.active_prompts == before.0.active_prompts,
{
    only_the_ended_worker_leaves(before.0.prewarms@, key.content(), key.content());
}

/// A session allows the capture of its requests unless it is ephemeral; no other session's
/// decision changes.
pub proof fn ephemeral_sessions_are_not_captured(
    before: Snapshot,
    after: Snapshot,
    session_id: String,
    ephemeral: bool,
    claims: &JwtClaims,
    now: Now,
    other: Seq<char>,
)
    requires
        input_applied(
            before,
            after,
            LoopInput::SessionDir { session_id, ephemeral },
            claims,
            now,
        ),
    ensures
        debug_allowed(after.0.session_debug_allowed@, session_id@) == !ephemeral,
        other != session_id@ ==> debug_allowed(after.0.session_debug_allowed@, other)
            == debug_allowed(before.0.session_debug_allowed@, other),
        after.1 == before.1,
        after.0.prompt_queue == before.0.prompt_queue,
        after.0.routes == before.0.routes,
{
}

/// A request to retry a prompt now goes to the scheduler with both of its ids, and one without a
/// prompt goes nowhere; canceling a refresh reaches that refresh alone. Neither changes anything
/// by itself.
pub proof fn requests_are_passed_on(
    before: Snapshot,
    after: Snapshot,
    request_id: String,
    agent_prompt_id: Option<String>,
    refresh_id: String,
    claims: &JwtClaims,
    now: Now,
)
    ensures
        input_applied(
            before,
            after,
            LoopInput::RetryPrompt { request_id, agent_prompt_id },
            claims,
            now,
        ) ==> after.0 == before.0 && (match agent_prompt_id {
            Some(id) => after.1 == before.1.push(
                Effect::Scheduler(
                    SchedulerCommand::RetryNow { request_id, agent_prompt_id: id },
                ),
            ),
            None => after.1 == before.1,
        }),
        input_applied(
            before,
            after,
            LoopInput::CacheRefreshCanceled { refresh_id },
            claims,
            now,
        ) ==> after.0 == before.0 && after.1 == before.1.push(
            Effect::CancelPrewarms(PrewarmScope::Refresh(refresh_id)),
        ),
{
}

/// A lost harness ends everything that runs: everyone is woken, and every prewarm is canceled.
pub proof fn lost_harness_stops_everything(before: Snapshot, after: Snapshot, i: int)
    requires
        disconnected(before, after),
    ensures
        after.0.cancellation.is_shut_down(),
        after.1.len() == before.1.len() + 2,
        after.1[before.1.len() as int] matches Effect::WakeBackends(woken) && (0 <= i
            < before.0.cancellation.registered().len() ==> woken@.contains(
            before.0.cancellation.registered()[i].id,
        )),
        after.1.last() == Effect::CancelPrewarms(PrewarmScope::All),
{
    let woken = choose|woken: Vec<u64>|
        {
            &&& #[trigger] woken@ == all_wakers(before.0.cancellation.registered())
            &&& after.1 == before.1.push(Effect::WakeBackends(woken)).push(
                Effect::CancelPrewarms(PrewarmScope::All),
            )
        };
    if 0 <= i < before.0.cancellation.registered().len() {
        assert(woken@[i] == before.0.cancellation.registered()[i].id);
    }
}

/// Only a lost harness and a request to stop end the loop at once.
pub proof fn only_the_harness_ends_the_loop(input: LoopInput)
    ensures
        input_end(input) is Some <==> input is Disconnected || input is StopRequested,
        input is Disconnected ==> input_end(input) == Some(LoopEnd::Disconnected),
        input is StopRequested ==> input_end(input) == Some(LoopEnd::Stopped),
{
}

/// Nothing that comes in after the end of input is looked at.
pub proof fn closed_input_is_ignored(runtime: ProviderRuntime, round: LoopRound)
    ensures
        runtime.input_closed ==> live_input(runtime, round) is None,
        !runtime.input_closed ==> live_input(runtime, round) == round.input,
{
}

/// A round that ends normally ends the loop exactly when nothing is left, and the loop never goes
/// on after the harness asked it to end.
pub proof fn loop_ends_when_nothing_is_left(
    before: Snapshot,
    after: Snapshot,
    round: LoopRound,
    claims: &JwtClaims,
    end: Option<LoopEnd>,
)
    requires
        round_ran(before, after, round, claims, end),
    ensures
        end == Some(LoopEnd::Finished) ==> after.0.input_closed && after.0.active_prompts == 0
            && after.0.prompt_queue@.len() == 0 && after.0.delayed_count == 0
            && after.0.prewarms@.len() == 0 && after.0.admission.admissions@.len() == 0,
        !before.0.input_closed && round.input == Some(LoopInput::Disconnected) ==> end == Some(
            LoopEnd::Disconnected,
        ),
        !before.0.input_closed && round.input == Some(LoopInput::StopRequested) ==> end == Some(
            LoopEnd::Stopped,
        ) && after.0.input_closed,
        end is None ==> !after.0.finished(),
{
}

/// Each message is handled once, in order, and all of them are unless evidence is exhausted.
pub proof fn messages_are_handled_in_order(
    before: Snapshot,
    after: Snapshot,
    messages: Seq<WorkerMessage>,
    claims: &JwtClaims,
    now: Now,
    exhausted: bool,
)
    requires
        workers_drained(before, after, messages, claims, now, exhausted),
    ensures
        messages.len() == 0 ==> after == before && !exhausted,
        !exhausted && messages.len() == 1 ==> message_applied(
            before,
            after,
            messages[0],
            claims,
            now,
        ),
        exhausted ==> after.0.routes.shared_cooldown_generation == u64::MAX,
{
    let trace = choose|trace: Seq<Snapshot>|
        {
            &&& #[trigger] messages_applied(trace, messages, claims, now)
            &&& trace[0] == before
            &&& trace.last() == after
            &&& if exhausted {
                &&& trace.len() <= messages.len()
                &&& exhausts_evidence(after.0, messages[trace.len() - 1])
            } else {
                trace.len() == messages.len() + 1
            }
        };
    if !exhausted && messages.len() == 1 {
        assert(message_applied(trace[0], trace[1], messages[0], claims, now));
    }
}

/// A loop that is given no round changes nothing and does not end.
pub proof fn no_round_changes_nothing(
    before: Snapshot,
    after: Snapshot,
    claims: &JwtClaims,
    end: Option<LoopEnd>,
)
    requires
        ran(before, after, Seq::empty(), claims, end),
    ensures
        after == before,
        end is None,
{
}

/// Two traces that meet make one.
proof fn lemma_traces_join<S, R>(
    step: spec_fn(S, S, R, bool) -> bool,
    head: Seq<S>,
    tail: Seq<S>,
    first: Seq<R>,
    second: Seq<R>,
)
    requires
        head.len() == first.len() + 1,
        1 < tail.len() <= second.len() + 1,
        head.last() == tail[0],
        forall|k: int|
            0 <= k < head.len() - 1 ==> step(head[k], head[k + 1], #[trigger] first[k], false),
        forall|k: int|
            0 <= k < tail.len() - 1 ==> step(
                tail[k],
                tail[k + 1],
                #[trigger] second[k],
                k == tail.len() - 2,
            ),
    ensures
        ({
            let trace = head + tail.skip(1);
            forall|k: int|
                0 <= k < trace.len() - 1 ==> step(
                    trace[k],
                    trace[k + 1],
                    #[trigger] (first + second)[k],
                    k == trace.len() - 2,
                )
        }),
{
    let trace = head + tail.skip(1);
    let n = first.len() as int;
    assert forall|k: int| 0 <= k < trace.len() - 1 implies step(
        trace[k],
        trace[k + 1],
        #[trigger] (first + second)[k],
        k == trace.len() - 2,
    ) by {
        if k < n {
            assert(trace[k] == head[k] && trace[k + 1] == head[k + 1]);
            assert((first + second)[k] == first[k]);
        } else {
            let j = k - n;
            assert(trace[k] == tail[j]);
            assert(trace[k + 1] == tail[j + 1]);
            assert((first + second)[k] == second[j]);
        }
    }
}

/// Rounds run one after another, each from where the one before it left the provider: running
/// more rounds after some that did not end the loop is running all of them.
pub proof fn runs_follow_each_other(
    before: Snapshot,
    between: Snapshot,
    after: Snapshot,
    first: Seq<LoopRound>,
    second: Seq<LoopRound>,
    claims: &JwtClaims,
    end: Option<LoopEnd>,
)
    requires
        ran(before, between, first, claims, None),
        ran(between, after, second, claims, end),
    ensures
        ran(before, after, first + second, claims, end),
{
    let head = choose|trace: Seq<Snapshot>|
        {
            &&& #[trigger] rounds_ran(trace, first, claims, None)
            &&& trace[0] == before
            &&& trace.last() == between
        };
    let tail = choose|trace: Seq<Snapshot>|
        {
            &&& #[trigger] rounds_ran(trace, second, claims, end)
            &&& trace[0] == between
            &&& trace.last() == after
        };
    if tail.len() == 1 {
        assert(first + second == first);
    } else {
        let step = |a: Snapshot, b: Snapshot, round: LoopRound, last: bool|
            round_ran(
                a,
                b,
                round,
                claims,
                if last {
                    end
                } else {
                    None
                },
            );
        lemma_traces_join(step, head, tail, first, second);
        let trace = head + tail.skip(1);
        assert(trace[0] == before);
        assert(trace.last() == after);
        assert(rounds_ran(trace, first + second, claims, end));
    }
}

/// One round runs exactly as that round does.
pub proof fn one_round_is_run(
    before: Snapshot,
    after: Snapshot,
    round: LoopRound,
    claims: &JwtClaims,
    end: Option<LoopEnd>,
)
    requires
        ran(before, after, seq![round], claims, end),
    ensures
        round_ran(before, after, round, claims, end),
{
    let trace = choose|trace: Seq<Snapshot>|
        {
            &&& #[trigger] rounds_ran(trace, seq![round], claims, end)
            &&& trace[0] == before
            &&& trace.last() == after
        };
    assert(trace.len() == 2);
    assert(round_ran(trace[0], trace[0int + 1], seq![round][0], claims, end));
}

} // verus!
