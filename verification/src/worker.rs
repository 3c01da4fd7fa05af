//! Worker notices in the main loop: attempt outcomes, scheduler releases, and output commit.

use vstd::prelude::*;

use crate::admission::PendingPromptAdmissionKind;
use crate::cancellation::{must_close, CancellationState};
use crate::clock::{later, Moment, Span, NANOS_PER_MILLI};
use crate::oauth::{recorded, JwtClaims};
use crate::prewarm::{without_worker, PrewarmKey};
use crate::profiles::BuiltinProviderProfiles;
use crate::prompt::{
    observed, observed_backend, retry_identity_matches, BackendProfileIdentity, CooldownProbe,
    PromptBackend, PromptJob, ProviderBackend,
};
use crate::prompts::{credential_read_started, manual_requeued, manual_result, retry_requeued};
use crate::report::{
    canceled_job_report, committed, consumes_marker, error_finished, finish_canceled_job,
    released_provider, retry_status, retry_status_report, simple_finished,
    validate_worker_output_and_probe_for_commit, CommitState, ErrorText, ProviderCacheRefreshStatus,
    ProviderResponseFinished, ProviderStopReason, Report, RetryPromptStatus, StatusText,
};
use crate::resolution::route_resolved_offline;
use crate::retry::{
    common_due, cooldown_due, cooldown_due_for_job, generated_delay_is_bounded,
    hint_boundary_jitter, hint_jitter, honored_hint, install_shared_cooldown,
    jitter_is_small_and_positive, lookup, merged_cooldown, retry_common_due, scheduler_retry_hint,
    PromptRetryDisposition, PromptRetryPolicy, RetryClass, RetryDecision, SharedCooldown,
};
use crate::routes::{Now, RouteEffects, Routes};
use crate::runtime::{
    constraint_of, emit_route, ends_as_canceled, grown, route_effects, shrunk, Effect,
    PrewarmScope, ProviderRuntime,
};
use crate::scheduler::{CooldownConstraint, SchedulerCommand};

verus! {

/// One transient attempt failure.
pub struct AttemptFailure {
    pub job: PromptJob,
    pub decision: RetryDecision,
    /// Redacted provider detail shown to the initiating user.
    pub live_detail: Option<String>,
    /// Whether the provider canonically rejected the credentials.
    pub canonical_unauthorized: bool,
    /// Backend that the attempt reached.
    pub terminal_backend: Option<ProviderBackend>,
}

/// The job after its failure was recorded.
pub open spec fn failed_job(failure: AttemptFailure) -> PromptJob {
    PromptJob {
        observed_backend: observed(failure.terminal_backend, failure.job.observed_backend),
        retry_state: failure.job.retry_state.advanced(),
        ..failure.job
    }
}

/// The delay that the class cadence generates for this failure.
pub open spec fn policy_delay(job: PromptJob, decision: RetryDecision) -> Span {
    Span {
        nanos: (job.retry_state.delay_millis(
            decision.delay_ceiling.millis(),
            job.agent_prompt_id@,
        ) * NANOS_PER_MILLI) as u128,
    }
}

/// The boundary that evidence of this failure puts before every contact.
pub open spec fn failure_boundary(job: PromptJob, decision: RetryDecision, now: Moment) -> Moment {
    common_due(
        now,
        policy_delay(job, decision),
        match honored_hint(decision.class, decision.retry_after) {
            Some(hint) => hint,
            None => Span { nanos: 0 },
        },
    )
}

/// The failure is shared evidence: its class says so, and its profile is still the current one.
pub open spec fn shares_evidence(
    job: PromptJob,
    decision: RetryDecision,
    identities: Map<Seq<char>, Option<BackendProfileIdentity>>,
) -> bool {
    decision.shares_cooldown && lookup(identities, job.prompt.model.provider@) == Some(
        job.profile_identity,
    )
}

/// When the job itself may run again, shared policy aside.
pub open spec fn independent_due(
    job: PromptJob,
    decision: RetryDecision,
    shared: bool,
    now: Moment,
) -> Moment {
    if shared {
        now.plus_or_self(policy_delay(job, decision))
    } else {
        failure_boundary(job, decision, now).plus_or_self(
            match honored_hint(decision.class, decision.retry_after) {
                Some(_) => hint_jitter(job.agent_prompt_id@, job.retry_state.advanced().attempts),
                None => Span { nanos: 0 },
            },
        )
    }
}

/// Instants that one failure leads to.
struct FailurePlan {
    boundary: Moment,
    independent: Moment,
}

/// Records one failure of `job` and computes the instants that it leads to.
fn plan_failure(
    job: &mut PromptJob,
    decision: RetryDecision,
    may_share: bool,
    now: Moment,
) -> (res: FailurePlan)
    ensures
        *final(job) == (PromptJob { retry_state: old(job).retry_state.advanced(), ..*old(job) }),
        res.boundary == failure_boundary(*old(job), decision, now),
        res.independent == independent_due(*old(job), decision, may_share, now),
{
    let mut retry_state = job.retry_state;
    let delay: Span = retry_state.next_delay(
        decision.delay_ceiling,
        job.agent_prompt_id.as_str(),
    );
    job.retry_state = retry_state;
    assert(delay == policy_delay(*old(job), decision));
    let retry_hint = scheduler_retry_hint(decision.class, decision.retry_after);
    let hint_delay: Span = match retry_hint {
        Some(hint) => hint,
        None => Span { nanos: 0 },
    };
    let jitter: Span = match retry_hint {
        Some(_) => hint_boundary_jitter(job.agent_prompt_id.as_str(), job.retry_state.attempts),
        None => Span { nanos: 0 },
    };
    let boundary: Moment = retry_common_due(now, delay, hint_delay);
    let independent: Moment = if may_share {
        now.add_or_self(delay)
    } else {
        boundary.add_or_self(jitter)
    };
    FailurePlan { boundary, independent }
}

/// The terminal of a compaction that used every attempt.
pub open spec fn budget_report(job: PromptJob, attempt: u32) -> Report {
    Report::ResponseFinished(
        ProviderResponseFinished {
            provider_attempt: attempt,
            backend: job.observed_backend,
            ..error_finished(
                job.agent_prompt_id,
                job.prompt.agent_id,
                job.prompt.originator,
                ErrorText::RetryBudgetExhausted,
            )
        },
    )
}

/// The effects of installing shared evidence.
pub open spec fn evidence_effects(provider: String, cooldown: SharedCooldown) -> Seq<Effect> {
    seq![
        Effect::CancelPrewarms(PrewarmScope::Provider(provider)),
        Effect::Scheduler(
            SchedulerCommand::ExtendCooldown {
                provider,
                due: cooldown.not_before,
                generation: cooldown.generation,
            },
        ),
    ]
}

/// The effects of parking or ending a failed job.
pub open spec fn failure_effects(
    failure: AttemptFailure,
    shared: Option<SharedCooldown>,
    now: Moment,
) -> Seq<Effect> {
    let job = failed_job(failure);
    let independent = independent_due(failure.job, failure.decision, shared is Some, now);
    let due = match shared {
        Some(cooldown) => later(independent, cooldown_due(cooldown.not_before, job)),
        None => independent,
    };
    match PromptRetryPolicy::of(job.prompt.operation).disposition(
        failure.job.retry_state.attempts,
    ) {
        PromptRetryDisposition::Terminal(attempt) => seq![
            Effect::Report(budget_report(job, attempt)),
        ],
        PromptRetryDisposition::Retry => seq![
            Effect::Report(
                retry_status_report(job, failure.decision.class, due, now, failure.live_detail),
            ),
            Effect::Scheduler(
                SchedulerCommand::Schedule {
                    independent_due: independent,
                    cooldown: match shared {
                        Some(cooldown) => Some(constraint_of(cooldown)),
                        None => None,
                    },
                    job,
                },
            ),
        ],
    }
}

/// Nothing but the rejections and the shared evidence differ.
pub open spec fn same_but_failure_state(after: &Routes, before: &Routes) -> bool {
    *after == (Routes {
        rejections: after.rejections,
        shared_cooldowns: after.shared_cooldowns,
        shared_cooldown_generation: after.shared_cooldown_generation,
        ..*before
    })
}

/// What a transient attempt failure does. A canceled job closes; otherwise a canonical rejection
/// is remembered, shared evidence constrains the whole profile, and the job parks or ends.
pub open spec fn attempt_failed(
    before: &ProviderRuntime,
    after: &ProviderRuntime,
    failure: AttemptFailure,
    now: Moment,
    effects_before: Seq<Effect>,
    effects_after: Seq<Effect>,
) -> bool {
    let provider = failure.job.prompt.model.provider;
    let id = failure.job.agent_prompt_id@;
    if must_close(
        failure.job,
        before.input_closed,
        before.cancel_generation,
        &before.cancellation,
    ) {
        &&& effects_after == effects_before.push(
            Effect::Report(
                canceled_job_report(
                    (PromptJob {
                        observed_backend: observed(
                            failure.terminal_backend,
                            failure.job.observed_backend,
                        ),
                        ..failure.job
                    }),
                ),
            ),
        )
        &&& after.cancellation.same_but_marks(&before.cancellation)
        &&& after.cancellation.marked() == before.cancellation.marked().remove(id)
        &&& *after == (ProviderRuntime { cancellation: after.cancellation, ..*before })
    } else {
        let shared = shares_evidence(
            failure.job,
            failure.decision,
            before.routes.provider_profile_identities@,
        );
        let cooldown = merged_cooldown(
            lookup(before.routes.shared_cooldowns@, provider@),
            (before.routes.shared_cooldown_generation + 1) as u64,
            failure_boundary(failure.job, failure.decision, now),
            failure.decision.class,
        );
        let evidence = if shared {
            Some(cooldown)
        } else {
            None
        };
        &&& same_but_failure_state(&after.routes, &before.routes)
        &&& after.routes.rejections.rejections() == before.routes.rejections.rejections()
        &&& after.routes.rejections.unauthorized_map() == match failure.job.profile_identity {
            Some(identity) => if failure.canonical_unauthorized {
                before.routes.rejections.unauthorized_map().insert(
                    provider@,
                    recorded(
                        before.routes.rejections.unauthorized_of(provider@),
                        identity.hash,
                    ),
                )
            } else {
                before.routes.rejections.unauthorized_map()
            },
            None => before.routes.rejections.unauthorized_map(),
        }
        &&& if shared {
            &&& after.routes.shared_cooldowns@ == before.routes.shared_cooldowns@.insert(
                provider@,
                cooldown,
            )
            &&& after.routes.shared_cooldown_generation == cooldown.generation
        } else {
            &&& after.routes.shared_cooldowns == before.routes.shared_cooldowns
            &&& after.routes.shared_cooldown_generation
                == before.routes.shared_cooldown_generation
        }
        &&& effects_after == effects_before + (if shared {
            evidence_effects(provider, cooldown)
        } else {
            Seq::empty()
        }) + failure_effects(failure, evidence, now)
        &&& after.delayed_count == match PromptRetryPolicy::of(
            failure.job.prompt.operation,
        ).disposition(failure.job.retry_state.attempts) {
            PromptRetryDisposition::Terminal(_) => before.delayed_count,
            PromptRetryDisposition::Retry => grown(before.delayed_count, 1),
        }
        &&& *after == (ProviderRuntime {
            routes: after.routes,
            delayed_count: after.delayed_count,
            ..*before
        })
    }
}

impl ProviderRuntime {
    /// The profile that `job` ran on is still its provider's current one.
    fn is_current_profile(&self, job: &PromptJob) -> (res: bool)
        ensures
            res == (lookup(
                self.routes.provider_profile_identities@,
                job.prompt.model.provider@,
            ) == Some(job.profile_identity)),
    {
        match self.routes.provider_profile_identities.get(job.prompt.model.provider.as_str()) {
            Some(identity) => match (*identity, job.profile_identity) {
                (Some(a), Some(b)) => a == b,
                (None, None) => true,
                _ => false,
            },
            None => false,
        }
    }

    /// Installs shared evidence and tells everyone that it constrains.
    fn share_evidence(
        &mut self,
        provider: &String,
        boundary: Moment,
        class: RetryClass,
        out: &mut Vec<Effect>,
    ) -> (res: SharedCooldown)
        requires
            old(self).routes.shared_cooldown_generation < u64::MAX,
        ensures
            res == merged_cooldown(
                lookup(old(self).routes.shared_cooldowns@, provider@),
                (old(self).routes.shared_cooldown_generation + 1) as u64,
                boundary,
                class,
            ),
            final(self).routes.shared_cooldowns@ == old(self).routes.shared_cooldowns@.insert(
                provider@,
                res,
            ),
            *final(self) == (ProviderRuntime {
                routes: (Routes {
                    shared_cooldowns: final(self).routes.shared_cooldowns,
                    shared_cooldown_generation: res.generation,
                    ..old(self).routes
                }),
                ..*old(self)
            }),
            final(out)@ == old(out)@ + evidence_effects(*provider, res),
    {
        let shared = install_shared_cooldown(
            &mut self.routes.shared_cooldowns,
            &mut self.routes.shared_cooldown_generation,
            provider.clone(),
            boundary,
            class,
        );
        out.push(Effect::CancelPrewarms(PrewarmScope::Provider(provider.clone())));
        out.push(
            Effect::Scheduler(
                SchedulerCommand::ExtendCooldown {
                    provider: provider.clone(),
                    due: shared.not_before,
                    generation: shared.generation,
                },
            ),
        );
        assert(out@ =~= old(out)@ + evidence_effects(*provider, shared));
        shared
    }

    /// Parks or ends a job whose attempt failed transiently.
    pub fn handle_attempt_failure(
        &mut self,
        failure: AttemptFailure,
        now: Moment,
        out: &mut Vec<Effect>,
    )
        requires
            old(self).wf(),
            old(self).routes.shared_cooldown_generation < u64::MAX,
        ensures
            final(self).wf(),
            attempt_failed(old(self), final(self), failure, now, old(out)@, final(out)@),
    {
        let ghost whole = failure;
        let AttemptFailure {
            job,
            decision,
            live_detail,
            canonical_unauthorized,
            terminal_backend,
        } = failure;
        let mut job = job;
        job.observed_backend = observed_backend(terminal_backend, &job.observed_backend);
        if self.input_closed || job.cancel_generation != self.cancel_generation
            || self.cancellation.is_canceled(&job.agent_prompt_id) {
            let _ = self.cancellation.take_canceled(&job.agent_prompt_id);
            out.push(Effect::Report(finish_canceled_job(&job)));
            return ;
        }
        if canonical_unauthorized {
            if let Some(identity) = job.profile_identity {
                self.routes.rejections.record_unauthorized(
                    job.prompt.model.provider.clone(),
                    identity.hash,
                );
            }
        }
        let ghost remembered = *self;
        let disposition = PromptRetryPolicy::for_operation(job.prompt.operation).after_failure(
            job.retry_state.attempts,
        );
        let may_share: bool = decision.shares_cooldown && self.is_current_profile(&job);
        let plan = plan_failure(&mut job, decision, may_share, now);
        assert(job == failed_job(whole));
        let mut due: Moment = plan.independent;
        let mut constraint: Option<CooldownConstraint> = None;
        let ghost mut evidence: Option<SharedCooldown> = None;
        if may_share {
            let shared = self.share_evidence(
                &job.prompt.model.provider,
                plan.boundary,
                decision.class,
                out,
            );
            due = plan.independent.max(cooldown_due_for_job(shared.not_before, &job));
            constraint = Some(
                CooldownConstraint { generation: shared.generation, boundary: shared.not_before },
            );
            proof {
                evidence = Some(shared);
            }
        } else {
            assert(out@ =~= old(out)@ + Seq::<Effect>::empty());
        }
        let ghost told = out@;
        match disposition {
            PromptRetryDisposition::Terminal(attempt) => {
                let mut finished = simple_finished(
                    job.agent_prompt_id,
                    job.prompt.agent_id,
                    job.prompt.originator,
                    ErrorText::RetryBudgetExhausted,
                );
                finished.provider_attempt = attempt;
                finished.backend = job.observed_backend;
                out.push(Effect::Report(Report::ResponseFinished(finished)));
            },
            PromptRetryDisposition::Retry => {
                out.push(Effect::Report(retry_status(&job, decision.class, due, now, live_detail)));
                out.push(
                    Effect::Scheduler(
                        SchedulerCommand::Schedule {
                            independent_due: plan.independent,
                            cooldown: constraint,
                            job,
                        },
                    ),
                );
                self.delayed_count = self.delayed_count.saturating_add(1);
            },
        }
        assert(out@ =~= told + failure_effects(whole, evidence, now));
    }
}

/// The runtime after the scheduler gave up `count` entries.
pub open spec fn handed_back(runtime: &ProviderRuntime, count: nat) -> ProviderRuntime {
    ProviderRuntime { delayed_count: shrunk(runtime.delayed_count, count), ..*runtime }
}

/// What closing a job that the scheduler gave up does to the cancellation state: the targeted
/// marker is consumed only when it is what closes the job.
pub open spec fn closing_marks(
    before: &ProviderRuntime,
    after: &CancellationState,
    job: PromptJob,
) -> bool {
    &&& after.same_but_marks(&before.cancellation)
    &&& after.marked() == if before.input_closed || job.cancel_generation
        != before.cancel_generation {
        before.cancellation.marked()
    } else {
        before.cancellation.marked().remove(job.agent_prompt_id@)
    }
}

/// What closing a job that the scheduler gave up does.
pub open spec fn due_job_closed(
    before: &ProviderRuntime,
    after: &ProviderRuntime,
    job: PromptJob,
    effects_before: Seq<Effect>,
    effects_after: Seq<Effect>,
) -> bool {
    &&& effects_after == effects_before.push(Effect::Report(canceled_job_report(job)))
    &&& closing_marks(before, &after.cancellation, job)
    &&& *after == (ProviderRuntime { cancellation: after.cancellation, ..*before })
}

/// A route that a released retry resolves to without secret storage.
pub open spec fn offline_route(
    before: &ProviderRuntime,
    after: &ProviderRuntime,
    job: PromptJob,
    claims: &JwtClaims,
    now: Now,
    profiles: &BuiltinProviderProfiles,
    backend: PromptBackend,
    identity: Option<BackendProfileIdentity>,
    route: RouteEffects,
) -> bool {
    &&& before.loads(job.prompt.model.provider@, profiles)
    &&& route_resolved_offline(
        &before.routes,
        &after.routes,
        job.prompt.model,
        profiles,
        claims,
        now,
        backend,
        identity,
        route,
    )
}

/// What an automatic retry does when its time has come: it closes when it was canceled, and
/// otherwise gets a fresh credential and a fresh route.
pub open spec fn retry_came_due(
    before: &ProviderRuntime,
    after: &ProviderRuntime,
    job: PromptJob,
    read_id: String,
    claims: &JwtClaims,
    now: Now,
    effects_before: Seq<Effect>,
    effects_after: Seq<Effect>,
) -> bool {
    let counted = handed_back(before, 1);
    if must_close(job, before.input_closed, before.cancel_generation, &before.cancellation) {
        due_job_closed(&counted, after, job, effects_before, effects_after)
    } else if before.secret_rpc {
        credential_read_started(
            &counted,
            after,
            PendingPromptAdmissionKind::RetryDue(job),
            read_id,
            now.moment,
            effects_before,
            effects_after,
        )
    } else {
        exists|
            profiles: BuiltinProviderProfiles,
            backend: PromptBackend,
            identity: Option<BackendProfileIdentity>,
            route: RouteEffects,
        |
            {
                &&& #[trigger] offline_route(
                    &counted,
                    after,
                    job,
                    claims,
                    now,
                    &profiles,
                    backend,
                    identity,
                    route,
                )
                &&& retry_requeued(
                    &(ProviderRuntime { routes: after.routes, ..counted }),
                    after,
                    job,
                    backend,
                    identity,
                    effects_before + route_effects(route, now.moment),
                    effects_after,
                )
            }
    }
}

/// What a manual release does: a prompt that was not parked is reported, a canceled one closes
/// first, and a live one gets a fresh credential, a fresh route, and a one-shot cooldown bypass.
/// The result is reported exactly once, at the latest when the admission ends.
pub open spec fn manually_released(
    before: &ProviderRuntime,
    after: &ProviderRuntime,
    job: Option<PromptJob>,
    request_id: String,
    agent_prompt_id: String,
    read_id: String,
    claims: &JwtClaims,
    now: Now,
    effects_before: Seq<Effect>,
    effects_after: Seq<Effect>,
) -> bool {
    let counted = handed_back(before, 1);
    match job {
        None => {
            &&& *after == *before
            &&& effects_after == effects_before.push(
                manual_result(request_id, agent_prompt_id, RetryPromptStatus::NotParked),
            )
        },
        Some(job) => if must_close(
            job,
            before.input_closed,
            before.cancel_generation,
            &before.cancellation,
        ) {
            &&& effects_after == effects_before.push(
                Effect::Report(canceled_job_report(job)),
            ).push(manual_result(request_id, agent_prompt_id, RetryPromptStatus::NotParked))
            &&& closing_marks(before, &after.cancellation, job)
            &&& *after == (ProviderRuntime { cancellation: after.cancellation, ..counted })
        } else if before.secret_rpc {
            credential_read_started(
                &counted,
                after,
                PendingPromptAdmissionKind::Manual { job, request_id },
                read_id,
                now.moment,
                effects_before,
                effects_after,
            )
        } else {
            exists|
                profiles: BuiltinProviderProfiles,
                backend: PromptBackend,
                identity: Option<BackendProfileIdentity>,
                route: RouteEffects,
            |
                {
                    &&& #[trigger] offline_route(
                        &counted,
                        after,
                        job,
                        claims,
                        now,
                        &profiles,
                        backend,
                        identity,
                        route,
                    )
                    &&& manual_requeued(
                        &(ProviderRuntime { routes: after.routes, ..counted }),
                        after,
                        job,
                        backend,
                        identity,
                        now.moment,
                    )
                    &&& effects_after == (effects_before + route_effects(
                        route,
                        now.moment,
                    )).push(
                        manual_result(request_id, agent_prompt_id, RetryPromptStatus::Accepted),
                    )
                }
        },
    }
}

impl ProviderRuntime {
    /// Decides whether a job that the scheduler gave up must close, and consumes the targeted
    /// marker when it is what closes the job.
    fn take_due_canceled(&mut self, job: &PromptJob) -> (res: bool)
        requires
            old(self).wf(),
        ensures
            final(self).wf(),
            res == must_close(
                *job,
                old(self).input_closed,
                old(self).cancel_generation,
                &old(self).cancellation,
            ),
            if res {
                &&& closing_marks(old(self), &final(self).cancellation, *job)
                &&& *final(self) == (ProviderRuntime {
                    cancellation: final(self).cancellation,
                    ..*old(self)
                })
            } else {
                *final(self) == *old(self)
            },
    {
        if self.input_closed || job.cancel_generation != self.cancel_generation {
            return true;
        }
        if !self.cancellation.is_canceled(&job.agent_prompt_id) {
            return false;
        }
        let _ = self.cancellation.take_canceled(&job.agent_prompt_id);
        true
    }

    /// Releases an automatic retry whose time has come. `read_id` names its credential read, if it
    /// needs one.
    pub fn handle_retry_due(
        &mut self,
        job: PromptJob,
        read_id: String,
        claims: &JwtClaims,
        now: Now,
        out: &mut Vec<Effect>,
    )
        requires
            old(self).wf(),
        ensures
            final(self).wf(),
            retry_came_due(
                old(self),
                final(self),
                job,
                read_id,
                claims,
                now,
                old(out)@,
                final(out)@,
            ),
    {
        self.delayed_count = self.delayed_count.saturating_sub(1);
        let ghost counted = *self;
        if self.take_due_canceled(&job) {
            out.push(Effect::Report(finish_canceled_job(&job)));
            return ;
        }
        if self.secret_rpc {
            self.start_credential_read(
                PendingPromptAdmissionKind::RetryDue(job),
                read_id,
                now.moment,
                out,
            );
            return ;
        }
        let profiles = self.load_prompt_profiles(&job.prompt.model.provider);
        let (backend, identity, route) = self.routes.resolve_backend_with_quota(
            &job.prompt.model,
            &profiles,
            claims,
            now,
        );
        emit_route(route, now.moment, out);
        self.requeue_retry(job, backend, identity, out);
        assert(offline_route(
            &counted,
            self,
            job,
            claims,
            now,
            &profiles,
            backend,
            identity,
            route,
        ));
    }

    /// Releases a parked prompt at its user's request. `read_id` names its credential read, if it
    /// needs one.
    pub fn handle_manual_retry(
        &mut self,
        job: Option<PromptJob>,
        request_id: String,
        agent_prompt_id: String,
        read_id: String,
        claims: &JwtClaims,
        now: Now,
        out: &mut Vec<Effect>,
    )
        requires
            old(self).wf(),
        ensures
            final(self).wf(),
            manually_released(
                old(self),
                final(self),
                job,
                request_id,
                agent_prompt_id,
                read_id,
                claims,
                now,
                old(out)@,
                final(out)@,
            ),
    {
        let status = match job {
            None => RetryPromptStatus::NotParked,
            Some(job) => {
                self.delayed_count = self.delayed_count.saturating_sub(1);
                let ghost counted = *self;
                if self.take_due_canceled(&job) {
                    out.push(Effect::Report(finish_canceled_job(&job)));
                    RetryPromptStatus::NotParked
                } else if self.secret_rpc {
                    self.start_credential_read(
                        PendingPromptAdmissionKind::Manual { job, request_id },
                        read_id,
                        now.moment,
                        out,
                    );
                    return ;
                } else {
                    let profiles = self.load_prompt_profiles(&job.prompt.model.provider);
                    let (backend, identity, route) = self.routes.resolve_backend_with_quota(
                        &job.prompt.model,
                        &profiles,
                        claims,
                        now,
                    );
                    emit_route(route, now.moment, out);
                    self.requeue_manual(job, backend, identity, now.moment);
                    assert(offline_route(
                        &counted,
                        self,
                        job,
                        claims,
                        now,
                        &profiles,
                        backend,
                        identity,
                        route,
                    ));
                    RetryPromptStatus::Accepted
                }
            },
        };
        out.push(
            Effect::Report(Report::RetryPromptResult { request_id, agent_prompt_id, status }),
        );
    }

    /// Closes a parked job that the scheduler canceled.
    pub fn handle_delayed_canceled(
        &mut self,
        job: PromptJob,
        delayed_count: usize,
        out: &mut Vec<Effect>,
    )
        requires
            old(self).wf(),
        ensures
            final(self).wf(),
            final(out)@ == old(out)@.push(Effect::Report(canceled_job_report(job))),
            final(self).cancellation.same_but_marks(&old(self).cancellation),
            final(self).cancellation.marked() == old(self).cancellation.marked().remove(
                job.agent_prompt_id@,
            ),
            *final(self) == (ProviderRuntime {
                cancellation: final(self).cancellation,
                ..handed_back(old(self), delayed_count as nat)
            }),
    {
        self.delayed_count = self.delayed_count.saturating_sub(delayed_count);
        let _ = self.cancellation.take_canceled(&job.agent_prompt_id);
        out.push(Effect::Report(finish_canceled_job(&job)));
    }

    /// Frees the slot of an ended attempt.
    pub fn handle_prompt_done(&mut self)
        requires
            old(self).wf(),
        ensures
            final(self).wf(),
            *final(self) == (ProviderRuntime {
                active_prompts: shrunk(old(self).active_prompts, 1),
                ..*old(self)
            }),
    {
        self.active_prompts = self.active_prompts.saturating_sub(1);
    }

    /// Gives up the ownership count of a prompt that the stopped retry scheduler did not accept.
    pub fn handle_park_failed(&mut self)
        requires
            old(self).wf(),
        ensures
            final(self).wf(),
            *final(self) == (ProviderRuntime {
                delayed_count: shrunk(old(self).delayed_count, 1),
                ..*old(self)
            }),
    {
        self.delayed_count = self.delayed_count.saturating_sub(1);
    }

    /// Frees the key of an ended prewarm and reports the end of a scheduled cache refresh; an
    /// ordinary prewarm ends silently.
    pub fn handle_prewarm_done(
        &mut self,
        key: &PrewarmKey,
        terminal: Option<(String, ProviderCacheRefreshStatus)>,
        out: &mut Vec<Effect>,
    )
        requires
            old(self).wf(),
        ensures
            final(self).wf(),
            final(self).prewarms.limit() == old(self).prewarms.limit(),
            final(self).prewarms@ == without_worker(old(self).prewarms@, key.content()),
            *final(self) == (ProviderRuntime { prewarms: final(self).prewarms, ..*old(self) }),
            final(out)@ == match terminal {
                Some((refresh_id, status)) => old(out)@.push(
                    Effect::Report(Report::CacheRefreshFinished { refresh_id, status }),
                ),
                None => old(out)@,
            },
    {
        self.prewarms.complete(key);
        if let Some((refresh_id, status)) = terminal {
            out.push(Effect::Report(Report::CacheRefreshFinished { refresh_id, status }));
        }
    }

    /// Commits one queued worker report. A successful terminal of the cooldown generation that its
    /// attempt probed releases that cooldown first.
    pub fn handle_worker_output(
        &mut self,
        report: Report,
        dispatch_generation: u64,
        agent_prompt_id: &String,
        cooldown_probe: &Option<CooldownProbe>,
        now: Moment,
        out: &mut Vec<Effect>,
    )
        requires
            old(self).wf(),
        ensures
            final(self).wf(),
            output_committed(
                old(self),
                final(self),
                report,
                dispatch_generation,
                agent_prompt_id@,
                *cooldown_probe,
                now,
                old(out)@,
                final(out)@,
            ),
    {
        let commit = CommitState {
            dispatch_generation,
            current_generation: self.cancel_generation,
            input_closed: self.input_closed,
        };
        let (validated, released) = validate_worker_output_and_probe_for_commit(
            report,
            commit,
            agent_prompt_id,
            &mut self.cancellation,
            cooldown_probe,
            &self.routes.shared_cooldowns,
        );
        if let Some(report) = validated {
            if let Some(provider) = released {
                if let Some(generation) = self.routes.release_shared_cooldown(&provider) {
                    out.push(
                        Effect::Scheduler(
                            SchedulerCommand::ReleaseCooldown { provider, generation, now },
                        ),
                    );
                }
            }
            out.push(Effect::Report(report));
        }
        assert(out@ =~= old(out)@ + commit_effects(
            validated,
            released,
            old(self).routes.shared_cooldowns@,
            now,
        ));
    }
}

/// The effects of committing one report: a proven release, then the report.
pub open spec fn commit_effects(
    report: Option<Report>,
    released: Option<String>,
    cooldowns: Map<Seq<char>, SharedCooldown>,
    now: Moment,
) -> Seq<Effect> {
    match report {
        None => Seq::empty(),
        Some(report) => match released {
            Some(provider) => seq![
                Effect::Scheduler(
                    SchedulerCommand::ReleaseCooldown {
                        provider,
                        generation: cooldowns[provider@].generation,
                        now,
                    },
                ),
                Effect::Report(report),
            ],
            None => seq![Effect::Report(report)],
        },
    }
}

/// What committing one queued worker report does.
pub open spec fn output_committed(
    before: &ProviderRuntime,
    after: &ProviderRuntime,
    report: Report,
    dispatch_generation: u64,
    prompt_id: Seq<char>,
    probe: Option<CooldownProbe>,
    now: Moment,
    effects_before: Seq<Effect>,
    effects_after: Seq<Effect>,
) -> bool {
    let commit = CommitState {
        dispatch_generation,
        current_generation: before.cancel_generation,
        input_closed: before.input_closed,
    };
    let current = commit.is_current(&before.cancellation, prompt_id);
    let validated = committed(report, current, prompt_id);
    let released = released_provider(
        validated,
        prompt_id,
        probe,
        before.routes.shared_cooldowns@,
    );
    &&& effects_after == effects_before + commit_effects(
        validated,
        released,
        before.routes.shared_cooldowns@,
        now,
    )
    &&& after.cancellation.same_but_marks(&before.cancellation)
    &&& after.cancellation.marked() == if consumes_marker(report, current, prompt_id) {
        before.cancellation.marked().remove(prompt_id)
    } else {
        before.cancellation.marked()
    }
    &&& after.routes.shared_cooldowns@ == match released {
        Some(provider) => before.routes.shared_cooldowns@.remove(provider@),
        None => before.routes.shared_cooldowns@,
    }
    &&& *after == (ProviderRuntime {
        cancellation: after.cancellation,
        routes: (Routes { shared_cooldowns: after.routes.shared_cooldowns, ..before.routes }),
        ..*before
    })
}

/// A failed prompt that nothing has closed: input is open, nothing was shut down, no broadcast came
/// after it was admitted, and it carries no mark.
pub open spec fn still_wanted(before: &ProviderRuntime, job: PromptJob) -> bool {
    &&& !before.input_closed
    &&& !before.cancellation.is_shut_down()
    &&& job.cancel_generation == before.cancel_generation
    &&& !before.cancellation.marked().contains(job.agent_prompt_id@)
}

/// A prompt that may fail once more without ending.
pub open spec fn may_retry(job: PromptJob) -> bool {
    job.prompt.operation is Inference || job.retry_state.attempts < 4
}

/// The effect parks `failed` for another attempt and changes nothing of what was asked.
pub open spec fn parks(effect: Effect, failed: PromptJob) -> bool {
    &&& effect matches Effect::Scheduler(SchedulerCommand::Schedule { job, .. })
    &&& job.agent_prompt_id == failed.agent_prompt_id
    &&& job.prompt == failed.prompt
    &&& job.profile_identity == failed.profile_identity
    &&& job.cancel_generation == failed.cancel_generation
    &&& failed.retry_state.attempts < u64::MAX ==> job.retry_state.attempts
        == failed.retry_state.attempts + 1
}

/// The profile that a failed prompt ran on is the current one of its provider, and its class of
/// failure holds for all of that provider's prompts.
pub open spec fn is_shared_evidence(before: &ProviderRuntime, failure: AttemptFailure) -> bool {
    &&& failure.decision.shares_cooldown
    &&& before.routes.provider_profile_identities@.contains_key(
        failure.job.prompt.model.provider@,
    )
    &&& before.routes.provider_profile_identities@[failure.job.prompt.model.provider@]
        == failure.job.profile_identity
}

proof fn lemma_policy_delay(job: PromptJob, decision: RetryDecision)
    ensures
        policy_delay(job, decision).nanos <= decision.delay_ceiling.nanos,
        decision.delay_ceiling.nanos >= 10_000_000_000 ==> policy_delay(job, decision).nanos
            >= 10_000_000_000,
{
    generated_delay_is_bounded(
        job.retry_state,
        decision.delay_ceiling.millis(),
        job.agent_prompt_id@,
    );
}

/// A trusted hint is a lower bound: for every class but the usage window a failed prompt waits at
/// least as long as the provider asked, wherever the clock has room. It is parked no earlier than
/// that, the shown delay is no shorter, and where the failure holds for the whole profile no other
/// prompt of it is let through earlier either.
pub proof fn trusted_hint_is_a_lower_bound(
    before: &ProviderRuntime,
    after: &ProviderRuntime,
    failure: AttemptFailure,
    now: Moment,
    effects_before: Seq<Effect>,
    effects_after: Seq<Effect>,
    hint: Span,
)
    requires
        attempt_failed(before, after, failure, now, effects_before, effects_after),
        still_wanted(before, failure.job),
        may_retry(failure.job),
        failure.decision.class != RetryClass::UsageWindow,
        failure.decision.retry_after == Some(hint),
        now.nanos + hint.nanos + failure.decision.delay_ceiling.nanos + 5_000_000_000
            <= 9_223_372_036_854_775_807_999_999_999,
    ensures
        effects_after.len() >= effects_before.len() + 2,
        parks(effects_after.last(), failure.job),
        effects_after.last() matches Effect::Scheduler(
            SchedulerCommand::Schedule { independent_due, cooldown, .. },
        ) && match cooldown {
            None => !is_shared_evidence(before, failure) && now.nanos + hint.nanos
                < independent_due.nanos,
            Some(constraint) => is_shared_evidence(before, failure) && now.nanos + hint.nanos
                <= constraint.boundary.nanos,
        },
        effects_after[effects_after.len() - 2] matches Effect::Report(
            Report::ResponseUpdated(update),
        ) && {
            &&& update.agent_prompt_id == failure.job.agent_prompt_id
            &&& update.status matches Some(status)
            &&& status.text matches StatusText::Retry { delay, .. }
            &&& hint.nanos <= delay.nanos
            &&& status.retry matches Some(retry)
            &&& retry.category == failure.decision.class
        },
        is_shared_evidence(before, failure) ==> {
            &&& after.routes.shared_cooldowns@.contains_key(failure.job.prompt.model.provider@)
            &&& now.nanos + hint.nanos <= after.routes.shared_cooldowns@[
            failure.job.prompt.model.provider@].not_before.nanos
            &&& effects_after.len() == effects_before.len() + 4
            &&& effects_after[effects_before.len() as int + 1] matches Effect::Scheduler(
                SchedulerCommand::ExtendCooldown { provider, due, .. },
            )
            &&& provider == failure.job.prompt.model.provider
            &&& now.nanos + hint.nanos <= due.nanos
        },
{
    lemma_policy_delay(failure.job, failure.decision);
    let provider = failure.job.prompt.model.provider;
    let boundary = failure_boundary(failure.job, failure.decision, now);
    assert(now.nanos + hint.nanos <= boundary.nanos);
    assert(boundary.nanos <= now.nanos + hint.nanos + failure.decision.delay_ceiling.nanos);
    jitter_is_small_and_positive(
        failure.job.agent_prompt_id@,
        failure.job.retry_state.advanced().attempts,
    );
    let cooldown = merged_cooldown(
        lookup(before.routes.shared_cooldowns@, provider@),
        (before.routes.shared_cooldown_generation + 1) as u64,
        boundary,
        failure.decision.class,
    );
    let shared = shares_evidence(
        failure.job,
        failure.decision,
        before.routes.provider_profile_identities@,
    );
    let evidence = if shared {
        Some(cooldown)
    } else {
        None
    };
    let tail = failure_effects(failure, evidence, now);
    assert(effects_after.last() == tail[1]);
    assert(effects_after[effects_after.len() - 2] == tail[0]);
    assert(cooldown.not_before.nanos <= cooldown_due(
        cooldown.not_before,
        failed_job(failure),
    ).nanos);
    if shared {
        assert(effects_after[effects_before.len() as int + 1] == evidence_effects(
            provider,
            cooldown,
        )[1]);
    }
}

/// An estimate of a usage window changes nothing: two such failures that differ only in the hint
/// park the prompt alike, so early recovery is found at the bounded cadence.
pub proof fn usage_estimate_stays_informational(
    before: &ProviderRuntime,
    after: &ProviderRuntime,
    other_after: &ProviderRuntime,
    failure: AttemptFailure,
    other: AttemptFailure,
    now: Moment,
    effects_before: Seq<Effect>,
    effects_after: Seq<Effect>,
    other_effects: Seq<Effect>,
)
    requires
        attempt_failed(before, after, failure, now, effects_before, effects_after),
        attempt_failed(before, other_after, other, now, effects_before, other_effects),
        failure.decision.class == RetryClass::UsageWindow,
        other == (AttemptFailure {
            decision: RetryDecision { retry_after: other.decision.retry_after, ..failure.decision },
            ..failure
        }),
    ensures
        effects_after == other_effects,
        after.routes.shared_cooldowns@ == other_after.routes.shared_cooldowns@,
        after.delayed_count == other_after.delayed_count,
{
}

/// Without a hint, and for a usage window with any, a prompt that shares nothing is parked at its
/// generated delay: at least ten seconds and at most the ceiling of its class.
pub proof fn unhinted_retry_keeps_the_cadence(
    before: &ProviderRuntime,
    after: &ProviderRuntime,
    failure: AttemptFailure,
    now: Moment,
    effects_before: Seq<Effect>,
    effects_after: Seq<Effect>,
)
    requires
        attempt_failed(before, after, failure, now, effects_before, effects_after),
        still_wanted(before, failure.job),
        may_retry(failure.job),
        failure.decision.class == RetryClass::UsageWindow || failure.decision.retry_after is None,
        failure.decision.delay_ceiling.nanos >= 10_000_000_000,
        now.nanos + failure.decision.delay_ceiling.nanos
            <= 9_223_372_036_854_775_807_999_999_999,
    ensures
        parks(effects_after.last(), failure.job),
        effects_after.last() matches Effect::Scheduler(
            SchedulerCommand::Schedule { independent_due, cooldown, .. },
        ) && {
            &&& now.nanos + 10_000_000_000 <= independent_due.nanos
            &&& independent_due.nanos <= now.nanos + failure.decision.delay_ceiling.nanos
            &&& cooldown is Some <==> is_shared_evidence(before, failure)
            &&& cooldown matches Some(constraint) ==> now.nanos + 10_000_000_000
                <= constraint.boundary.nanos
        },
        !is_shared_evidence(before, failure) ==> after.routes.shared_cooldowns
            == before.routes.shared_cooldowns && effects_after.len() == effects_before.len() + 2,
{
    lemma_policy_delay(failure.job, failure.decision);
    let shared = shares_evidence(
        failure.job,
        failure.decision,
        before.routes.provider_profile_identities@,
    );
    let cooldown = merged_cooldown(
        lookup(before.routes.shared_cooldowns@, failure.job.prompt.model.provider@),
        (before.routes.shared_cooldown_generation + 1) as u64,
        failure_boundary(failure.job, failure.decision, now),
        failure.decision.class,
    );
    let evidence = if shared {
        Some(cooldown)
    } else {
        None
    };
    assert(effects_after.last() == failure_effects(failure, evidence, now)[1]);
}

/// Shared evidence only ever extends a boundary: after any failure no provider may be contacted
/// earlier than before it, and only the failed prompt's provider is touched.
pub proof fn failure_never_shortens_a_boundary(
    before: &ProviderRuntime,
    after: &ProviderRuntime,
    failure: AttemptFailure,
    now: Moment,
    effects_before: Seq<Effect>,
    effects_after: Seq<Effect>,
    provider: Seq<char>,
)
    requires
        attempt_failed(before, after, failure, now, effects_before, effects_after),
        before.routes.shared_cooldowns@.contains_key(provider),
    ensures
        after.routes.shared_cooldowns@.contains_key(provider),
        before.routes.shared_cooldowns@[provider].not_before.nanos
            <= after.routes.shared_cooldowns@[provider].not_before.nanos,
        provider != failure.job.prompt.model.provider@ ==> after.routes.shared_cooldowns@[provider]
            == before.routes.shared_cooldowns@[provider],
{
}

/// A compaction ends with its fifth failure: the budget is reported as exhausted at the fifth
/// attempt, with the backend that the turn reached, and nothing is parked.
pub proof fn compaction_budget_is_five(
    before: &ProviderRuntime,
    after: &ProviderRuntime,
    failure: AttemptFailure,
    now: Moment,
    effects_before: Seq<Effect>,
    effects_after: Seq<Effect>,
)
    requires
        attempt_failed(before, after, failure, now, effects_before, effects_after),
        still_wanted(before, failure.job),
        failure.job.prompt.operation is StandaloneCompaction,
        failure.job.retry_state.attempts >= 4,
    ensures
        effects_after.len() > effects_before.len(),
        effects_after.last() matches Effect::Report(Report::ResponseFinished(finished)) && {
            &&& finished.agent_prompt_id == failure.job.agent_prompt_id
            &&& finished.agent_id == failure.job.prompt.agent_id
            &&& finished.originator == failure.job.prompt.originator
            &&& finished.output is None
            &&& finished.usage is None
            &&& finished.stop_reason == ProviderStopReason::Error
            &&& finished.error == Some(ErrorText::RetryBudgetExhausted)
            &&& finished.provider_attempt == 5
            &&& finished.backend == if failure.terminal_backend is Some {
                failure.terminal_backend
            } else {
                failure.job.observed_backend
            }
        },
        forall|i: int|
            effects_before.len() <= i < effects_after.len() ==> !parks(
                #[trigger] effects_after[i],
                failure.job,
            ),
        after.delayed_count == before.delayed_count,
{
    let shared = shares_evidence(
        failure.job,
        failure.decision,
        before.routes.provider_profile_identities@,
    );
    let cooldown = merged_cooldown(
        lookup(before.routes.shared_cooldowns@, failure.job.prompt.model.provider@),
        (before.routes.shared_cooldown_generation + 1) as u64,
        failure_boundary(failure.job, failure.decision, now),
        failure.decision.class,
    );
    let evidence = if shared {
        Some(cooldown)
    } else {
        None
    };
    assert(effects_after.last() == failure_effects(failure, evidence, now)[0]);
}

/// A prompt that was canceled meanwhile ends instead of being parked: one cancellation is
/// reported, with the backend that the turn reached, its mark is gone, and no evidence is kept.
pub proof fn canceled_prompt_is_not_parked(
    before: &ProviderRuntime,
    after: &ProviderRuntime,
    failure: AttemptFailure,
    now: Moment,
    effects_before: Seq<Effect>,
    effects_after: Seq<Effect>,
)
    requires
        attempt_failed(before, after, failure, now, effects_before, effects_after),
        !still_wanted(before, failure.job),
    ensures
        effects_after.len() == effects_before.len() + 1,
        effects_after.last() matches Effect::Report(Report::ResponseFinished(finished)) && {
            &&& finished.agent_prompt_id == failure.job.agent_prompt_id
            &&& finished.agent_id == failure.job.prompt.agent_id
            &&& finished.originator == failure.job.prompt.originator
            &&& finished.output is None
            &&& finished.error == Some(ErrorText::CanceledByHarness)
            &&& finished.backend == if failure.terminal_backend is Some {
                failure.terminal_backend
            } else {
                failure.job.observed_backend
            }
        },
        !after.cancellation.marked().contains(failure.job.agent_prompt_id@),
        after.routes == before.routes,
        after.delayed_count == before.delayed_count,
{
}

/// A prompt that the scheduler gives up for its time is owned by it no more, whatever follows. A
/// canceled one ends, its mark gone; any other goes to the credential boundary where there is
/// one, as itself.
pub proof fn due_retry_changes_hands(
    before: &ProviderRuntime,
    after: &ProviderRuntime,
    job: PromptJob,
    read_id: String,
    claims: &JwtClaims,
    now: Now,
    effects_before: Seq<Effect>,
    effects_after: Seq<Effect>,
)
    requires
        retry_came_due(before, after, job, read_id, claims, now, effects_before, effects_after),
    ensures
        before.delayed_count > 0 ==> after.delayed_count == before.delayed_count - 1,
        before.delayed_count == 0 ==> after.delayed_count == 0,
        after.active_prompts == before.active_prompts,
        !still_wanted(before, job) ==> {
            &&& effects_after.len() == effects_before.len() + 1
            &&& ends_as_canceled(effects_after.last(), job.agent_prompt_id, job.prompt)
            &&& after.prompt_queue == before.prompt_queue
            &&& after.admission == before.admission
            &&& after.routes == before.routes
        },
        still_wanted(before, job) && before.secret_rpc ==> {
            &&& after.admission.admissions@.len() == before.admission.admissions@.len() + 1
            &&& after.admission.admissions@.last().kind == PendingPromptAdmissionKind::RetryDue(job)
            &&& !after.admission.admissions@.last().oauth_forced
            &&& after.prompt_queue == before.prompt_queue
        },
        still_wanted(before, job) && !before.secret_rpc ==> after.admission == before.admission && (
        after.prompt_queue@.len() == before.prompt_queue@.len() + 1 && {
            let queued = after.prompt_queue@.last();
            &&& after.prompt_queue@.drop_last() == before.prompt_queue@
            &&& queued.agent_prompt_id == job.agent_prompt_id
            &&& queued.prompt == job.prompt
            &&& queued.retry_state == job.retry_state
            &&& queued.manual_cooldown_bypass == job.manual_cooldown_bypass
        } || after.prompt_queue == before.prompt_queue && (effects_after.last() matches Effect::Report(
            Report::ResponseFinished(finished),
        ) && finished.agent_prompt_id == job.agent_prompt_id && finished.error == Some(
            ErrorText::IdentityChanged,
        ))),
{
    let counted = handed_back(before, 1);
    if still_wanted(before, job) && !before.secret_rpc {
        let (profiles, backend, identity, route) = choose|
            profiles: BuiltinProviderProfiles,
            backend: PromptBackend,
            identity: Option<BackendProfileIdentity>,
            route: RouteEffects,
        |
            {
                &&& #[trigger] offline_route(
                    &counted,
                    after,
                    job,
                    claims,
                    now,
                    &profiles,
                    backend,
                    identity,
                    route,
                )
                &&& retry_requeued(
                    &(ProviderRuntime { routes: after.routes, ..counted }),
                    after,
                    job,
                    backend,
                    identity,
                    effects_before + route_effects(route, now.moment),
                    effects_after,
                )
            };
        if retry_identity_matches(job.pinned_chatgpt_identity, backend) {
            assert(after.prompt_queue@.drop_last() =~= before.prompt_queue@);
        }
    }
}

/// A manual release is answered for its own request. A prompt that is not parked changes nothing;
/// a canceled one ends first; a live one passes the shared boundary once, probing exactly the one
/// in force, and only its admission may still be awaited.
pub proof fn manual_release_is_answered(
    before: &ProviderRuntime,
    after: &ProviderRuntime,
    job: Option<PromptJob>,
    request_id: String,
    agent_prompt_id: String,
    read_id: String,
    claims: &JwtClaims,
    now: Now,
    effects_before: Seq<Effect>,
    effects_after: Seq<Effect>,
)
    requires
        manually_released(
            before,
            after,
            job,
            request_id,
            agent_prompt_id,
            read_id,
            claims,
            now,
            effects_before,
            effects_after,
        ),
    ensures
        job is None ==> {
            &&& *after == *before
            &&& effects_after.len() == effects_before.len() + 1
            &&& effects_after.last() == Effect::Report(
                Report::RetryPromptResult {
                    request_id,
                    agent_prompt_id,
                    status: RetryPromptStatus::NotParked,
                },
            )
        },
        job matches Some(parked) ==> {
            &&& before.delayed_count > 0 ==> after.delayed_count == before.delayed_count - 1
            &&& !still_wanted(before, parked) ==> {
                &&& effects_after.len() == effects_before.len() + 2
                &&& ends_as_canceled(
                    effects_after[effects_before.len() as int],
                    parked.agent_prompt_id,
                    parked.prompt,
                )
                &&& effects_after.last() == Effect::Report(
                    Report::RetryPromptResult {
                        request_id,
                        agent_prompt_id,
                        status: RetryPromptStatus::NotParked,
                    },
                )
                &&& after.prompt_queue == before.prompt_queue
            }
            &&& still_wanted(before, parked) && before.secret_rpc ==> {
                &&& after.admission.admissions@.len() == before.admission.admissions@.len() + 1
                &&& after.admission.admissions@.last().kind == (PendingPromptAdmissionKind::Manual {
                    job: parked,
                    request_id,
                })
            }
            &&& still_wanted(before, parked) && !before.secret_rpc ==> {
                &&& effects_after.last() == Effect::Report(
                    Report::RetryPromptResult {
                        request_id,
                        agent_prompt_id,
                        status: RetryPromptStatus::Accepted,
                    },
                )
                &&& after.prompt_queue@.len() == before.prompt_queue@.len() + 1
                &&& after.prompt_queue@.last().agent_prompt_id == parked.agent_prompt_id
                &&& after.prompt_queue@.last().prompt == parked.prompt
                &&& after.prompt_queue@.last().retry_state == parked.retry_state
                &&& after.prompt_queue@.last().manual_cooldown_bypass
                &&& match after.prompt_queue@.last().cooldown_probe {
                    Some(probe) => {
                        &&& probe.provider == parked.prompt.model.provider
                        &&& after.routes.shared_cooldowns@.contains_key(probe.provider@)
                        &&& now.moment.nanos < after.routes.shared_cooldowns@[
                        probe.provider@].not_before.nanos
                        &&& probe.generation
                            == after.routes.shared_cooldowns@[probe.provider@].generation
                    },
                    None => !after.routes.shared_cooldowns@.contains_key(
                        parked.prompt.model.provider@,
                    ) || after.routes.shared_cooldowns@[
                    parked.prompt.model.provider@].not_before.nanos <= now.moment.nanos,
                }
            }
        },
{
}

/// Committed output reaches the harness as it came, after a proven success lifted the boundary
/// that it probed; output of a canceled prompt lifts nothing, and delivers nothing but the end.
pub proof fn output_reaches_the_harness(
    before: &ProviderRuntime,
    after: &ProviderRuntime,
    report: Report,
    dispatch_generation: u64,
    prompt_id: Seq<char>,
    probe: Option<CooldownProbe>,
    now: Moment,
    effects_before: Seq<Effect>,
    effects_after: Seq<Effect>,
)
    requires
        output_committed(
            before,
            after,
            report,
            dispatch_generation,
            prompt_id,
            probe,
            now,
            effects_before,
            effects_after,
        ),
    ensures
        ({
            let current = dispatch_generation == before.cancel_generation && !before.input_closed
                && !before.cancellation.is_shut_down() && !before.cancellation.marked().contains(
                prompt_id,
            );
            &&& current ==> effects_after.len() > effects_before.len() && effects_after.last()
                == Effect::Report(report) && after.cancellation.marked()
                == before.cancellation.marked()
            &&& !current ==> after.routes.shared_cooldowns@ == before.routes.shared_cooldowns@
                && effects_after.len() <= effects_before.len() + 1
            &&& !current && report is ResponseFinished ==> {
                &&& effects_after.len() == effects_before.len() + 1
                &&& effects_after.last() matches Effect::Report(Report::ResponseFinished(finished))
                &&& finished.output is None
                &&& finished.error == Some(ErrorText::CanceledByHarness)
                &&& finished.agent_prompt_id == report->ResponseFinished_0.agent_prompt_id
                &&& !after.cancellation.marked().contains(prompt_id)
            }
            &&& current && effects_after.len() > effects_before.len() + 1 ==> {
                &&& effects_after.len() == effects_before.len() + 2
                &&& report matches Report::ResponseFinished(finished)
                &&& finished.agent_prompt_id@ == prompt_id
                &&& finished.error is None
                &&& finished.failure_kind is None
                &&& probe matches Some(probed)
                &&& before.routes.shared_cooldowns@.contains_key(probed.provider@)
                &&& before.routes.shared_cooldowns@[probed.provider@].generation
                    == probed.generation
                &&& !after.routes.shared_cooldowns@.contains_key(probed.provider@)
                &&& effects_after[effects_before.len() as int] == Effect::Scheduler(
                    SchedulerCommand::ReleaseCooldown {
                        provider: probed.provider,
                        generation: probed.generation,
                        now,
                    },
                )
            }
            &&& effects_after.len() <= effects_before.len() + 1 ==> after.routes.shared_cooldowns@
                == before.routes.shared_cooldowns@
        }),
        after.active_prompts == before.active_prompts,
        after.delayed_count == before.delayed_count,
        after.prompt_queue == before.prompt_queue,
{
}

} // verus!
