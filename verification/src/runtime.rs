//! The provider main loop as a state machine.
//!
//! Every handler takes what the host observed, updates the runtime, and appends the effects that
//! the host must perform, in order.

use vstd::prelude::*;

use crate::admission::{
    PendingPromptAdmission, PendingPromptAdmissionKind, PromptCredentialAdmissionState,
    PromptOAuthRefresh, PromptOAuthRpc, RefreshStart,
};
use crate::cancellation::{AbortWakerEntry, CancellationState};
use crate::clock::{Moment, Span};
use crate::deadline::PromptCredentialDeadlineCommand;
use crate::models::{ChatGptCatalog, ProviderModelInfo};
use crate::names::NameTable;
use crate::oauth::OpenAiAuth;
use crate::prewarm::{PrewarmKey, PrewarmKeyContent, PrewarmSupervisor};
use crate::profiles::{lite_modes, only, pinned_modes, BuiltinProviderProfiles, ProfileContent};
use crate::prompt::{BackendProfileIdentity, CooldownProbe, Prompt, PromptJob, ResolvedConfig};
use crate::quota::{QuotaEpoch, QuotaLimits, QuotaReport};
use crate::report::{
    canceled_correlated, canceled_finished, canceled_job_report, finish_canceled_job, retry_status,
    retry_status_report, ErrorText, Report, RetryPromptStatus, StatusText, FIRST_ATTEMPT,
};
use crate::retry::{
    cooldown_due, cooldown_due_for_job, jitter_separates_herd, lookup, SharedCooldown,
};
use crate::routes::{PublicationEffects, RouteEffects, Routes};
use crate::scheduler::{CooldownConstraint, SchedulerCommand};
use crate::text::{optional_text, parse_count, parsed_count};

verus! {

/// Prompts that run at once unless the host overrides it.
pub const DEFAULT_PROMPT_CONCURRENCY: usize = 8;

/// Deadline of one credential request, in seconds.
pub const PROMPT_CREDENTIAL_RPC_TIMEOUT_SECS: u64 = 30;

/// The concurrency limit that an override asks for: a positive count, or else the default.
pub open spec fn concurrency_limit(value: Option<Seq<char>>) -> nat {
    match value {
        Some(text) => match parsed_count(text) {
            Some(limit) => if limit > 0 {
                limit
            } else {
                DEFAULT_PROMPT_CONCURRENCY as nat
            },
            None => DEFAULT_PROMPT_CONCURRENCY as nat,
        },
        None => DEFAULT_PROMPT_CONCURRENCY as nat,
    }
}

/// Selects the concurrency limit from an optional override.
pub fn prompt_concurrency_limit(value: &Option<String>) -> (res: usize)
    ensures
        res == concurrency_limit(optional_text(*value)),
        res > 0,
{
    match value {
        Some(text) => match parse_count(text.as_str()) {
            Some(limit) => {
                if limit > 0 {
                    limit
                } else {
                    DEFAULT_PROMPT_CONCURRENCY
                }
            },
            None => DEFAULT_PROMPT_CONCURRENCY,
        },
        None => DEFAULT_PROMPT_CONCURRENCY,
    }
}

/// Which prewarm workers a cancellation reaches.
pub enum PrewarmScope {
    All,
    Provider(String),
    Agent { provider: String, agent_id: String },
    Refresh(String),
}

impl PrewarmScope {
    /// A cancellation of this scope reaches the worker with `key`. A prompt takes over from the
    /// prewarm of its agent, not from a scheduled cache refresh.
    pub open spec fn covers(self, key: PrewarmKeyContent) -> bool {
        match self {
            PrewarmScope::All => true,
            PrewarmScope::Provider(provider) => key.provider == provider@,
            PrewarmScope::Agent { provider, agent_id } => key.provider == provider@
                && key.agent_id == agent_id@ && key.refresh_id is None,
            PrewarmScope::Refresh(refresh_id) => key.refresh_id == Some(refresh_id@),
        }
    }

    /// Reports whether a cancellation of this scope reaches the worker with `key`.
    pub fn reaches(&self, key: &PrewarmKey) -> (res: bool)
        ensures
            res == self.covers(key.content()),
    {
        match self {
            PrewarmScope::All => true,
            PrewarmScope::Provider(provider) => key.provider == *provider,
            PrewarmScope::Agent { provider, agent_id } => key.provider == *provider
                && key.agent_id == *agent_id && key.refresh_id.is_none(),
            PrewarmScope::Refresh(refresh_id) => match &key.refresh_id {
                Some(running) => *running == *refresh_id,
                None => false,
            },
        }
    }
}

/// One prewarm or cache-refresh worker to start.
pub struct PrewarmStart {
    pub key: PrewarmKey,
    pub config: ResolvedConfig,
    pub debug_provider_requests: bool,
    /// Host handle of the request body.
    pub content: u64,
    /// When the host aborts the worker.
    pub deadline: Option<Moment>,
}

/// One thing for the host to do.
#[allow(inconsistent_fields)]
pub enum Effect {
    /// Send a transient report.
    Report(Report),
    /// Retire compact identities, then publish a declaration.
    Publication(PublicationEffects),
    /// Follow one route resolution.
    Route(RouteEffects),
    /// Send a quota report.
    Quota(QuotaReport),
    /// Wake the loop for a quota refresh.
    QuotaRefreshTimer {
        provider: String,
        profile_epoch: QuotaEpoch,
        refresh_generation: u64,
        delay: Span,
    },
    /// Hand a command to the retry scheduler.
    Scheduler(SchedulerCommand),
    /// Hand a command to the credential deadline queue.
    Deadline(PromptCredentialDeadlineCommand),
    /// Run one finite provider attempt.
    StartPrompt { job: PromptJob, cooldown_probe: Option<CooldownProbe> },
    /// Invoke registered backend wakers.
    WakeBackends(Vec<u64>),
    /// Cancel prewarm workers.
    CancelPrewarms(PrewarmScope),
    /// Start a prewarm worker.
    StartPrewarm(PrewarmStart),
    /// Drop one provider's connections.
    InvalidateWebsockets(String),
    /// Drop every provider connection.
    InvalidateAllWebsockets,
    /// Publish a complete declaration.
    ModelsDeclared(Vec<ProviderModelInfo>),
    /// Ask the OAuth endpoint for new tokens.
    RefreshOAuth(RefreshStart),
    /// Read one stored credential.
    ReadCredential { request_id: String, path: String },
    /// Publish a refreshed credential with compare-and-swap.
    SwapCredential {
        request_id: String,
        path: String,
        expected_generation: String,
        replacement: OpenAiAuth,
    },
    /// Forget one compact identity.
    RetireCompactIdentity(BackendProfileIdentity),
}

/// Live provider state after the extension handshake.
pub struct ProviderRuntime {
    /// Validated settings accepted at startup.
    pub settings: BuiltinProviderProfiles,
    /// Lite-mode selection of each profile captured at startup.
    pub startup_modes: NameTable<bool>,
    /// Whether credentials are read through secret storage.
    pub secret_rpc: bool,
    pub prompt_concurrency_limit: usize,
    pub routes: Routes,
    pub admission: PromptCredentialAdmissionState,
    pub cancellation: CancellationState,
    /// Jobs accepted while all worker slots were occupied.
    pub prompt_queue: Vec<PromptJob>,
    pub active_prompts: usize,
    /// Logical prompts owned by the retry scheduler.
    pub delayed_count: usize,
    /// True after the input stream ended.
    pub input_closed: bool,
    /// Broadcast cancellations so far.
    pub cancel_generation: u64,
    /// Running prewarm and cache-refresh workers.
    pub prewarms: PrewarmSupervisor,
    /// Per-session provider request capture decision.
    pub session_debug_allowed: NameTable<bool>,
    /// Hydrated startup snapshot retained for initial quota work.
    pub startup_quota_profiles: Option<BuiltinProviderProfiles>,
    /// Whether the initial quota pass has begun.
    pub initial_quota_started: bool,
    /// Whether settings have been accepted.
    pub configured: bool,
}

/// Session `session_id` permits provider request captures.
pub open spec fn debug_allowed(allowed: Map<Seq<char>, bool>, session_id: Seq<char>) -> bool {
    allowed.contains_key(session_id) && allowed[session_id]
}

/// Reports whether a session permits provider request captures; an unknown session does not.
pub fn debug_provider_requests_for(session_id: &String, allowed: &NameTable<bool>) -> (res: bool)
    ensures
        res == debug_allowed(allowed@, session_id@),
{
    match allowed.get(session_id.as_str()) {
        Some(allowed) => *allowed,
        None => false,
    }
}

/// The shared cooldown that still holds at `now`.
pub open spec fn active_cooldown(
    cooldowns: Map<Seq<char>, SharedCooldown>,
    provider: Seq<char>,
    now: Moment,
) -> Option<SharedCooldown> {
    match lookup(cooldowns, provider) {
        Some(cooldown) => if now.nanos < cooldown.not_before.nanos {
            Some(cooldown)
        } else {
            None
        },
        None => None,
    }
}

/// The shared cooldown that still holds at `now`.
pub fn find_active_cooldown(
    cooldowns: &NameTable<SharedCooldown>,
    provider: &String,
    now: Moment,
) -> (res: Option<SharedCooldown>)
    ensures
        res == active_cooldown(cooldowns@, provider@, now),
{
    match cooldowns.get(provider.as_str()) {
        Some(cooldown) => {
            if now.nanos < cooldown.not_before.nanos {
                Some(*cooldown)
            } else {
                None
            }
        },
        None => None,
    }
}

/// The scheduler constraint of a cooldown.
pub open spec fn constraint_of(cooldown: SharedCooldown) -> CooldownConstraint {
    CooldownConstraint { generation: cooldown.generation, boundary: cooldown.not_before }
}

/// Parking one job behind a shared cooldown: its transient status, then its scheduler entry.
pub open spec fn parked_effects(job: PromptJob, cooldown: SharedCooldown, now: Moment) -> Seq<
    Effect,
> {
    seq![
        Effect::Report(
            retry_status_report(
                job,
                cooldown.class,
                cooldown_due(cooldown.not_before, job),
                now,
                None,
            ),
        ),
        Effect::Scheduler(
            SchedulerCommand::Schedule {
                independent_due: now,
                cooldown: Some(constraint_of(cooldown)),
                job,
            },
        ),
    ]
}

/// Parks one job behind a shared cooldown.
pub(crate) fn park_job(job: PromptJob, cooldown: SharedCooldown, now: Moment, out: &mut Vec<Effect>)
    ensures
        final(out)@ == old(out)@ + parked_effects(job, cooldown, now),
{
    let due: Moment = cooldown_due_for_job(cooldown.not_before, &job);
    out.push(Effect::Report(retry_status(&job, cooldown.class, due, now, None)));
    out.push(
        Effect::Scheduler(
            SchedulerCommand::Schedule {
                independent_due: now,
                cooldown: Some(
                    CooldownConstraint {
                        generation: cooldown.generation,
                        boundary: cooldown.not_before,
                    },
                ),
                job,
            },
        ),
    );
    assert(out@ =~= old(out)@ + parked_effects(job, cooldown, now));
}

/// The active cooldown that keeps a queued job from starting. Manual retries keep their one-shot
/// bypass whatever the evidence.
pub open spec fn queue_cooldown(
    job: PromptJob,
    cooldowns: Map<Seq<char>, SharedCooldown>,
    now: Moment,
) -> Option<SharedCooldown> {
    if job.manual_cooldown_bypass {
        None
    } else {
        active_cooldown(cooldowns, job.prompt.model.provider@, now)
    }
}

/// The queued jobs that may start now, in order.
pub open spec fn retained_jobs(
    queue: Seq<PromptJob>,
    cooldowns: Map<Seq<char>, SharedCooldown>,
    now: Moment,
) -> Seq<PromptJob>
    decreases queue.len(),
{
    if queue.len() == 0 {
        Seq::empty()
    } else {
        let before = retained_jobs(queue.drop_last(), cooldowns, now);
        if queue_cooldown(queue.last(), cooldowns, now) is Some {
            before
        } else {
            before.push(queue.last())
        }
    }
}

/// The effects of parking every cooled job of a queue, in order.
pub open spec fn cooled_effects(
    queue: Seq<PromptJob>,
    cooldowns: Map<Seq<char>, SharedCooldown>,
    now: Moment,
) -> Seq<Effect>
    decreases queue.len(),
{
    if queue.len() == 0 {
        Seq::empty()
    } else {
        let before = cooled_effects(queue.drop_last(), cooldowns, now);
        match queue_cooldown(queue.last(), cooldowns, now) {
            Some(cooldown) => before + parked_effects(queue.last(), cooldown, now),
            None => before,
        }
    }
}

/// The number of cooled jobs of a queue.
pub open spec fn cooled_count(
    queue: Seq<PromptJob>,
    cooldowns: Map<Seq<char>, SharedCooldown>,
    now: Moment,
) -> nat {
    (queue.len() - retained_jobs(queue, cooldowns, now).len()) as nat
}

/// `count` grown by `more`, saturating.
pub open spec fn grown(count: usize, more: nat) -> usize {
    if count + more > usize::MAX {
        usize::MAX
    } else {
        (count + more) as usize
    }
}

/// `count` shrunk by `less`, saturating.
pub open spec fn shrunk(count: usize, less: nat) -> usize {
    if count < less {
        0
    } else {
        (count - less) as usize
    }
}

/// Every queued job is either retained or parked, never both: the partition conserves ownership
/// and keeps the order of retained jobs.
pub proof fn reconciliation_conserves_queue(
    queue: Seq<PromptJob>,
    cooldowns: Map<Seq<char>, SharedCooldown>,
    now: Moment,
)
    ensures
        retained_jobs(queue, cooldowns, now).len() + cooled_count(queue, cooldowns, now)
            == queue.len(),
        cooled_effects(queue, cooldowns, now).len() == 2 * cooled_count(queue, cooldowns, now),
        forall|i: int|
            0 <= i < retained_jobs(queue, cooldowns, now).len() ==> queue.contains(
                #[trigger] retained_jobs(queue, cooldowns, now)[i],
            ) && queue_cooldown(
                retained_jobs(queue, cooldowns, now)[i],
                cooldowns,
                now,
            ) is None,
    decreases queue.len(),
{
    if queue.len() > 0 {
        let rest = queue.drop_last();
        reconciliation_conserves_queue(rest, cooldowns, now);
        let kept = retained_jobs(queue, cooldowns, now);
        assert forall|i: int| 0 <= i < kept.len() implies queue.contains(#[trigger] kept[i])
            && queue_cooldown(kept[i], cooldowns, now) is None by {
            let before = retained_jobs(rest, cooldowns, now);
            if i < before.len() {
                assert(kept[i] == before[i]);
                let j = rest.index_of(before[i]);
                assert(queue[j] == kept[i]);
            } else {
                assert(queue[queue.len() - 1] == kept[i]);
            }
        }
    }
}

/// The effects of one route resolution: parked work is released first.
pub open spec fn route_effects(effects: RouteEffects, now: Moment) -> Seq<Effect> {
    match effects.released {
        Some(generation) => seq![
            Effect::Scheduler(
                SchedulerCommand::ReleaseCooldown { provider: effects.provider, generation, now },
            ),
            Effect::Route(effects),
        ],
        None => seq![Effect::Route(effects)],
    }
}

pub(crate) fn emit_route(effects: RouteEffects, now: Moment, out: &mut Vec<Effect>)
    ensures
        final(out)@ == old(out)@ + route_effects(effects, now),
{
    if let Some(generation) = effects.released {
        out.push(
            Effect::Scheduler(
                SchedulerCommand::ReleaseCooldown {
                    provider: effects.provider.clone(),
                    generation,
                    now,
                },
            ),
        );
    }
    out.push(Effect::Route(effects));
    assert(out@ =~= old(out)@ + route_effects(effects, now));
}

/// The cancellation terminal of a prompt that never became a job.
pub open spec fn canceled_prompt_report(agent_prompt_id: String, prompt: Prompt) -> Report {
    Report::ResponseFinished(canceled_finished(agent_prompt_id, prompt, None, FIRST_ATTEMPT))
}

/// The reports that close one canceled admission: its terminal, and the result of the manual retry
/// that it owes.
pub open spec fn canceled_admission_effects(kind: PendingPromptAdmissionKind) -> Seq<Effect> {
    match kind {
        PendingPromptAdmissionKind::Initial { agent_prompt_id, prompt } => seq![
            Effect::Report(canceled_prompt_report(agent_prompt_id, prompt)),
        ],
        PendingPromptAdmissionKind::RetryDue(job) => seq![Effect::Report(canceled_job_report(job))],
        PendingPromptAdmissionKind::Manual { job, request_id } => seq![
            Effect::Report(canceled_job_report(job)),
            Effect::Report(
                Report::RetryPromptResult {
                    request_id,
                    agent_prompt_id: job.agent_prompt_id,
                    status: RetryPromptStatus::NotParked,
                },
            ),
        ],
    }
}

/// Closes one canceled admission.
pub(crate) fn finish_canceled_admission(kind: PendingPromptAdmissionKind, out: &mut Vec<Effect>)
    ensures
        final(out)@ == old(out)@ + canceled_admission_effects(kind),
{
    match kind {
        PendingPromptAdmissionKind::Initial { agent_prompt_id, prompt } => {
            out.push(
                Effect::Report(canceled_correlated(&agent_prompt_id, &prompt, None, FIRST_ATTEMPT)),
            );
        },
        PendingPromptAdmissionKind::RetryDue(job) => {
            out.push(Effect::Report(finish_canceled_job(&job)));
        },
        PendingPromptAdmissionKind::Manual { job, request_id } => {
            out.push(Effect::Report(finish_canceled_job(&job)));
            out.push(
                Effect::Report(
                    Report::RetryPromptResult {
                        request_id,
                        agent_prompt_id: job.agent_prompt_id,
                        status: RetryPromptStatus::NotParked,
                    },
                ),
            );
        },
    }
    assert(out@ =~= old(out)@ + canceled_admission_effects(kind));
}

/// The terminals of canceled queued jobs, in order.
pub open spec fn canceled_jobs_effects(jobs: Seq<PromptJob>) -> Seq<Effect> {
    Seq::new(jobs.len(), |i: int| Effect::Report(canceled_job_report(jobs[i])))
}

/// The effects of canceling one admission with its outstanding read.
pub open spec fn dropped_admission_effects(admission: PendingPromptAdmission) -> Seq<Effect> {
    match admission.request_id {
        Some(request_id) => seq![
            Effect::Deadline(PromptCredentialDeadlineCommand::Cancel(request_id)),
        ] + canceled_admission_effects(admission.kind),
        None => canceled_admission_effects(admission.kind),
    }
}

/// The effects of canceling admissions in order.
pub open spec fn dropped_admissions_effects(admissions: Seq<PendingPromptAdmission>) -> Seq<Effect>
    decreases admissions.len(),
{
    if admissions.len() == 0 {
        Seq::empty()
    } else {
        dropped_admissions_effects(admissions.drop_last()) + dropped_admission_effects(
            admissions.last(),
        )
    }
}

impl ProviderRuntime {
    /// The runtime's parts are consistent.
    pub open spec fn wf(&self) -> bool {
        &&& self.routes.identities.wf()
        &&& self.admission.wf()
        &&& self.prewarms.wf()
    }

    /// A runtime that has seen nothing yet.
    pub fn new(
        settings: BuiltinProviderProfiles,
        secret_rpc: bool,
        prompt_concurrency_limit: usize,
        prewarm_capacity: usize,
        catalog: ChatGptCatalog,
        limits: QuotaLimits,
    ) -> (res: Self)
        ensures
            res.wf(),
            res.settings == settings,
            res.secret_rpc == secret_rpc,
            res.prompt_concurrency_limit == prompt_concurrency_limit,
            res.startup_modes@ == lite_modes(settings.profiles()),
            res.prompt_queue@ == Seq::<PromptJob>::empty(),
            res.admission.admissions@ == Seq::<PendingPromptAdmission>::empty(),
            res.admission.oauth_refreshes@ == Seq::<PromptOAuthRefresh>::empty(),
            res.admission.oauth_rpcs@ == Map::<Seq<char>, PromptOAuthRpc>::empty(),
            res.active_prompts == 0,
            res.delayed_count == 0,
            !res.input_closed,
            !res.initial_quota_started,
            !res.configured,
            res.cancel_generation == 0,
            res.prewarms@ == Seq::<PrewarmKeyContent>::empty(),
            res.prewarms.limit() == prewarm_capacity,
            res.session_debug_allowed@ == Map::<Seq<char>, bool>::empty(),
            res.startup_quota_profiles is None,
            res.cancellation.marked() == Set::<Seq<char>>::empty(),
            res.cancellation.registered() == Seq::<AbortWakerEntry>::empty(),
            res.cancellation.next_id() == 0,
            res.cancellation.generation() == 0,
            !res.cancellation.is_shut_down(),
            res.routes.unresolved(catalog, limits),
    {
        let startup_modes = settings.startup_responses_modes();
        ProviderRuntime {
            settings,
            startup_modes,
            secret_rpc,
            prompt_concurrency_limit,
            routes: Routes::new(catalog, limits),
            admission: PromptCredentialAdmissionState::new(),
            cancellation: CancellationState::new(),
            prompt_queue: Vec::new(),
            active_prompts: 0,
            delayed_count: 0,
            input_closed: false,
            cancel_generation: 0,
            prewarms: PrewarmSupervisor::new(prewarm_capacity),
            session_debug_allowed: NameTable::new(),
            startup_quota_profiles: None,
            initial_quota_started: false,
            configured: false,
        }
    }

    /// The selected provider's settings with its startup mode.
    pub open spec fn selected(&self, provider: Seq<char>) -> Map<Seq<char>, ProfileContent> {
        pinned_modes(only(self.settings.profiles(), provider), self.startup_modes@)
    }

    /// `profiles` are the selected provider's settings, without any secret.
    pub open spec fn loads(&self, provider: Seq<char>, profiles: &BuiltinProviderProfiles) -> bool {
        &&& profiles.profiles() == self.selected(provider)
        &&& profiles.credential_map() == only(self.settings.credential_map(), provider)
        &&& profiles.missing() == Set::<Seq<char>>::empty()
    }

    /// Copies the selected provider's settings, pinned to the mode captured at startup.
    pub fn load_prompt_profiles(&self, provider: &String) -> (res: BuiltinProviderProfiles)
        ensures
            self.loads(provider@, &res),
    {
        let mut profiles = self.settings.selected(provider.as_str());
        profiles.apply_startup_responses_modes(&self.startup_modes);
        profiles
    }

    /// Records whether a session permits provider request captures.
    pub fn record_session_debug_policy(&mut self, session_id: String, ephemeral: bool)
        ensures
            final(self).session_debug_allowed@ == old(self).session_debug_allowed@.insert(
                session_id@,
                !ephemeral,
            ),
            *final(self) == (ProviderRuntime {
                session_debug_allowed: final(self).session_debug_allowed,
                ..*old(self)
            }),
    {
        self.session_debug_allowed.insert(session_id, !ephemeral);
    }

    /// Starts a job when a worker slot is free, otherwise queues it.
    pub(crate) fn enqueue_or_start_prompt(&mut self, job: PromptJob, out: &mut Vec<Effect>)
        ensures
            enqueued_or_started(old(self), final(self), job, old(out)@, final(out)@),
    {
        if self.active_prompts >= self.prompt_concurrency_limit {
            self.prompt_queue.push(job);
            return ;
        }
        self.active_prompts = self.active_prompts + 1;
        let mut job = job;
        let cooldown_probe = job.cooldown_probe.take();
        out.push(Effect::StartPrompt { job, cooldown_probe });
    }

    /// Starts queued jobs in order while worker slots are free. A job canceled in the queue closes
    /// instead.
    pub fn start_queued_prompts(&mut self, out: &mut Vec<Effect>)
        ensures
            queue_started(old(self), final(self), old(out)@, final(out)@),
    {
        let ghost queue = self.prompt_queue@;
        let ghost mut done: int = 0;
        assert(queue.skip(0) =~= queue);
        assert(queue.take(0) =~= Seq::<PromptJob>::empty());
        while self.active_prompts < self.prompt_concurrency_limit && self.prompt_queue.len() > 0
            invariant
                0 <= done <= queue.len(),
                self.prompt_queue@ == queue.skip(done),
                self.active_prompts == old(self).active_prompts + started_count(
                    queue.take(done),
                    old(self).cancellation.marked(),
                    old(self).cancellation.is_shut_down(),
                ),
                self.cancellation.same_but_marks(&old(self).cancellation),
                self.cancellation.marked() == marks_after(
                    queue.take(done),
                    old(self).cancellation.marked(),
                ),
                self.active_prompts <= self.prompt_concurrency_limit || done == 0,
                out@ == old(out)@ + started_effects(
                    queue.take(done),
                    old(self).cancellation.marked(),
                    old(self).cancellation.is_shut_down(),
                ),
                *self == (ProviderRuntime {
                    prompt_queue: self.prompt_queue,
                    active_prompts: self.active_prompts,
                    cancellation: self.cancellation,
                    ..*old(self)
                }),
                forall|k: int|
                    0 <= k < done ==> old(self).active_prompts + #[trigger] started_count(
                        queue.take(k),
                        old(self).cancellation.marked(),
                        old(self).cancellation.is_shut_down(),
                    ) < self.prompt_concurrency_limit,
            decreases self.prompt_queue@.len(),
        {
            let ghost n = done;
            let job = self.prompt_queue.remove(0);
            proof {
                assert(job == queue[n]);
                assert(queue.skip(n).remove(0) =~= queue.skip(n + 1));
                assert(queue.take(n + 1).drop_last() =~= queue.take(n));
                assert(queue.take(n + 1).last() == job);
                done = done + 1;
            }
            if self.cancellation.take_canceled(&job.agent_prompt_id) {
                out.push(Effect::Report(finish_canceled_job(&job)));
            } else {
                self.active_prompts = self.active_prompts + 1;
                let mut job = job;
                job.manual_cooldown_bypass = false;
                let cooldown_probe = job.cooldown_probe.take();
                out.push(Effect::StartPrompt { job, cooldown_probe });
            }
            assert(out@ =~= old(out)@ + started_effects(
                queue.take(n + 1),
                old(self).cancellation.marked(),
                old(self).cancellation.is_shut_down(),
            ));
        }
        assert(queue_started_by(old(self), self, old(out)@, out@, done));
    }

    /// Parks every queued job behind an active shared cooldown, using one coherent snapshot.
    pub fn park_cooled_queued_prompts(&mut self, now: Moment, out: &mut Vec<Effect>)
        ensures
            final(self).prompt_queue@ == retained_jobs(
                old(self).prompt_queue@,
                old(self).routes.shared_cooldowns@,
                now,
            ),
            final(self).delayed_count == grown(
                old(self).delayed_count,
                cooled_count(
                    old(self).prompt_queue@,
                    old(self).routes.shared_cooldowns@,
                    now,
                ),
            ),
            final(out)@ == old(out)@ + cooled_effects(
                old(self).prompt_queue@,
                old(self).routes.shared_cooldowns@,
                now,
            ),
            *final(self) == (ProviderRuntime {
                prompt_queue: final(self).prompt_queue,
                delayed_count: final(self).delayed_count,
                ..*old(self)
            }),
    {
        let ghost queue = self.prompt_queue@;
        let ghost cooldowns = self.routes.shared_cooldowns@;
        let ghost mut done: int = 0;
        let mut pending: Vec<PromptJob> = Vec::new();
        core::mem::swap(&mut pending, &mut self.prompt_queue);
        let mut retained: Vec<PromptJob> = Vec::new();
        assert(queue.skip(0) =~= queue);
        assert(queue.take(0) =~= Seq::<PromptJob>::empty());
        while pending.len() > 0
            invariant
                0 <= done <= queue.len(),
                pending@ == queue.skip(done),
                cooldowns == self.routes.shared_cooldowns@,
                retained@ == retained_jobs(queue.take(done), cooldowns, now),
                retained@.len() <= done,
                self.delayed_count == grown(
                    old(self).delayed_count,
                    cooled_count(queue.take(done), cooldowns, now),
                ),
                out@ == old(out)@ + cooled_effects(queue.take(done), cooldowns, now),
                *self == (ProviderRuntime {
                    prompt_queue: self.prompt_queue,
                    delayed_count: self.delayed_count,
                    ..*old(self)
                }),
            decreases pending@.len(),
        {
            let ghost n = done;
            let job = pending.remove(0);
            proof {
                assert(job == queue[n]);
                assert(queue.skip(n).remove(0) =~= queue.skip(n + 1));
                assert(queue.take(n + 1).drop_last() =~= queue.take(n));
                assert(queue.take(n + 1).last() == job);
                done = done + 1;
            }
            let cooldown: Option<SharedCooldown> = if job.manual_cooldown_bypass {
                None
            } else {
                find_active_cooldown(
                    &self.routes.shared_cooldowns,
                    &job.prompt.model.provider,
                    now,
                )
            };
            match cooldown {
                Some(cooldown) => {
                    park_job(job, cooldown, now, out);
                    self.delayed_count = self.delayed_count.saturating_add(1);
                },
                None => {
                    retained.push(job);
                },
            }
            assert(out@ =~= old(out)@ + cooled_effects(queue.take(n + 1), cooldowns, now));
        }
        assert(queue.take(done) =~= queue);
        self.prompt_queue = retained;
    }
}

/// What admitting a job does: it runs at once when a slot is free, otherwise it waits in order.
pub open spec fn enqueued_or_started(
    before: &ProviderRuntime,
    after: &ProviderRuntime,
    job: PromptJob,
    effects_before: Seq<Effect>,
    effects_after: Seq<Effect>,
) -> bool {
    &&& *after == (ProviderRuntime {
        prompt_queue: after.prompt_queue,
        active_prompts: after.active_prompts,
        ..*before
    })
    &&& if before.active_prompts >= before.prompt_concurrency_limit {
        &&& after.prompt_queue@ == before.prompt_queue@.push(job)
        &&& after.active_prompts == before.active_prompts
        &&& effects_after == effects_before
    } else {
        &&& after.prompt_queue == before.prompt_queue
        &&& after.active_prompts == before.active_prompts + 1
        &&& effects_after == effects_before.push(
            Effect::StartPrompt {
                job: PromptJob { cooldown_probe: None, ..job },
                cooldown_probe: job.cooldown_probe,
            },
        )
    }
}

/// The targeted markers after taking those of some jobs.
pub open spec fn marks_after(jobs: Seq<PromptJob>, marked: Set<Seq<char>>) -> Set<Seq<char>>
    decreases jobs.len(),
{
    if jobs.len() == 0 {
        marked
    } else {
        marks_after(jobs.drop_last(), marked).remove(jobs.last().agent_prompt_id@)
    }
}

/// The last of some jobs taken in order is canceled.
pub open spec fn last_canceled(
    jobs: Seq<PromptJob>,
    marked: Set<Seq<char>>,
    shut_down: bool,
) -> bool {
    shut_down || marks_after(jobs.drop_last(), marked).contains(jobs.last().agent_prompt_id@)
}

/// How many of some jobs taken in order start.
pub open spec fn started_count(
    jobs: Seq<PromptJob>,
    marked: Set<Seq<char>>,
    shut_down: bool,
) -> nat
    decreases jobs.len(),
{
    if jobs.len() == 0 {
        0
    } else {
        let before = started_count(jobs.drop_last(), marked, shut_down);
        if last_canceled(jobs, marked, shut_down) {
            before
        } else {
            before + 1
        }
    }
}

/// The effects of taking some jobs in order: each starts, or closes when it was canceled.
pub open spec fn started_effects(
    jobs: Seq<PromptJob>,
    marked: Set<Seq<char>>,
    shut_down: bool,
) -> Seq<Effect>
    decreases jobs.len(),
{
    if jobs.len() == 0 {
        Seq::empty()
    } else {
        let job = jobs.last();
        started_effects(jobs.drop_last(), marked, shut_down).push(
            if last_canceled(jobs, marked, shut_down) {
                Effect::Report(canceled_job_report(job))
            } else {
                Effect::StartPrompt {
                    job: PromptJob {
                        manual_cooldown_bypass: false,
                        cooldown_probe: None,
                        ..job
                    },
                    cooldown_probe: job.cooldown_probe,
                }
            },
        )
    }
}

/// The first `taken` queued jobs were taken, as many as the slots allow.
pub open spec fn queue_started_by(
    before: &ProviderRuntime,
    after: &ProviderRuntime,
    effects_before: Seq<Effect>,
    effects_after: Seq<Effect>,
    taken: int,
) -> bool {
    let queue = before.prompt_queue@;
    let marked = before.cancellation.marked();
    let shut_down = before.cancellation.is_shut_down();
    &&& 0 <= taken <= queue.len()
    &&& after.prompt_queue@ == queue.skip(taken)
    &&& after.active_prompts == before.active_prompts + started_count(
        queue.take(taken),
        marked,
        shut_down,
    )
    &&& after.cancellation.same_but_marks(&before.cancellation)
    &&& after.cancellation.marked() == marks_after(queue.take(taken), marked)
    &&& effects_after == effects_before + started_effects(queue.take(taken), marked, shut_down)
    &&& taken == queue.len() || after.active_prompts >= before.prompt_concurrency_limit
    &&& forall|k: int|
        0 <= k < taken ==> before.active_prompts + #[trigger] started_count(
            queue.take(k),
            marked,
            shut_down,
        ) < before.prompt_concurrency_limit
    &&& *after == (ProviderRuntime {
        prompt_queue: after.prompt_queue,
        active_prompts: after.active_prompts,
        cancellation: after.cancellation,
        ..*before
    })
}

/// What starting queued jobs does: a prefix of the queue is taken, exactly until the slots are
/// full or the queue is empty.
pub open spec fn queue_started(
    before: &ProviderRuntime,
    after: &ProviderRuntime,
    effects_before: Seq<Effect>,
    effects_after: Seq<Effect>,
) -> bool {
    exists|taken: int| #[trigger]
        queue_started_by(before, after, effects_before, effects_after, taken)
}

/// Starting queued jobs never exceeds the concurrency limit.
pub proof fn starts_respect_limit(
    before: &ProviderRuntime,
    after: &ProviderRuntime,
    effects_before: Seq<Effect>,
    effects_after: Seq<Effect>,
)
    requires
        queue_started(before, after, effects_before, effects_after),
        before.active_prompts <= before.prompt_concurrency_limit,
    ensures
        after.active_prompts <= before.prompt_concurrency_limit,
{
    let queue = before.prompt_queue@;
    let marked = before.cancellation.marked();
    let shut_down = before.cancellation.is_shut_down();
    let taken = choose|taken: int| #[trigger]
        queue_started_by(before, after, effects_before, effects_after, taken);
    if taken > 0 {
        assert(queue.take(taken).drop_last() =~= queue.take(taken - 1));
        assert(before.active_prompts + started_count(queue.take(taken - 1), marked, shut_down)
            < before.prompt_concurrency_limit);
    }
}

proof fn nothing_starts_after_shutdown(jobs: Seq<PromptJob>, marked: Set<Seq<char>>)
    ensures
        started_count(jobs, marked, true) == 0,
        started_effects(jobs, marked, true) == canceled_jobs_effects(jobs),
    decreases jobs.len(),
{
    if jobs.len() > 0 {
        nothing_starts_after_shutdown(jobs.drop_last(), marked);
        assert(canceled_jobs_effects(jobs) =~= canceled_jobs_effects(jobs.drop_last()).push(
            Effect::Report(canceled_job_report(jobs.last())),
        ));
    } else {
        assert(canceled_jobs_effects(jobs) =~= Seq::<Effect>::empty());
    }
}

/// After input has ended nothing starts any more: as soon as one slot is free, every queued job
/// closes with exactly one cancellation, in order.
pub proof fn shutdown_closes_queue(
    before: &ProviderRuntime,
    after: &ProviderRuntime,
    effects_before: Seq<Effect>,
    effects_after: Seq<Effect>,
)
    requires
        queue_started(before, after, effects_before, effects_after),
        before.cancellation.is_shut_down(),
        before.active_prompts < before.prompt_concurrency_limit,
    ensures
        after.prompt_queue@.len() == 0,
        after.active_prompts == before.active_prompts,
        effects_after == effects_before + canceled_jobs_effects(before.prompt_queue@),
{
    let queue = before.prompt_queue@;
    let taken = choose|taken: int| #[trigger]
        queue_started_by(before, after, effects_before, effects_after, taken);
    nothing_starts_after_shutdown(queue.take(taken), before.cancellation.marked());
    assert(queue.take(taken) =~= queue);
}

/// The effect ends the prompt `agent_prompt_id` as canceled, without output.
pub open spec fn ends_as_canceled(effect: Effect, agent_prompt_id: String, prompt: Prompt) -> bool {
    &&& effect matches Effect::Report(Report::ResponseFinished(finished))
    &&& finished.agent_prompt_id == agent_prompt_id
    &&& finished.agent_id == prompt.agent_id
    &&& finished.originator == prompt.originator
    &&& finished.output is None
    &&& finished.usage is None
    &&& finished.failure_kind is None
    &&& finished.error == Some(ErrorText::CanceledByHarness)
}

/// The effect runs `job` with its probe, and lets it pass no boundary a second time.
pub open spec fn runs_job(effect: Effect, job: PromptJob) -> bool {
    &&& effect matches Effect::StartPrompt { job: started, cooldown_probe }
    &&& cooldown_probe == job.cooldown_probe
    &&& started.cooldown_probe is None
    &&& started.agent_prompt_id == job.agent_prompt_id
    &&& started.prompt == job.prompt
    &&& started.backend == job.backend
    &&& started.profile_identity == job.profile_identity
    &&& started.pinned_chatgpt_identity == job.pinned_chatgpt_identity
    &&& started.retry_state == job.retry_state
    &&& started.observed_backend == job.observed_backend
    &&& started.cancel_generation == job.cancel_generation
    &&& started.debug_provider_requests == job.debug_provider_requests
}

/// A new job runs at once while a slot is free and waits behind the others when none is; either
/// way it is neither lost nor doubled.
pub proof fn new_job_runs_or_waits(
    before: &ProviderRuntime,
    after: &ProviderRuntime,
    job: PromptJob,
    effects_before: Seq<Effect>,
    effects_after: Seq<Effect>,
)
    requires
        enqueued_or_started(before, after, job, effects_before, effects_after),
    ensures
        before.active_prompts < before.prompt_concurrency_limit ==> {
            &&& effects_after.len() == effects_before.len() + 1
            &&& effects_after.drop_last() == effects_before
            &&& runs_job(effects_after.last(), job)
            &&& after.active_prompts == before.active_prompts + 1
            &&& after.prompt_queue@ == before.prompt_queue@
        },
        before.active_prompts >= before.prompt_concurrency_limit ==> {
            &&& effects_after == effects_before
            &&& after.active_prompts == before.active_prompts
            &&& after.prompt_queue@.len() == before.prompt_queue@.len() + 1
            &&& after.prompt_queue@.drop_last() == before.prompt_queue@
            &&& after.prompt_queue@.last() == job
        },
        after.delayed_count == before.delayed_count,
        after.routes == before.routes,
        after.admission == before.admission,
        after.cancellation == before.cancellation,
{
    if before.active_prompts < before.prompt_concurrency_limit {
        assert(effects_after.drop_last() =~= effects_before);
    } else {
        assert(after.prompt_queue@.drop_last() =~= before.prompt_queue@);
    }
}

proof fn lemma_started(jobs: Seq<PromptJob>, marked: Set<Seq<char>>, shut_down: bool, k: int)
    requires
        0 <= k < jobs.len(),
    ensures
        started_effects(jobs, marked, shut_down).len() == jobs.len(),
        runs_job(started_effects(jobs, marked, shut_down)[k], jobs[k]) || ends_as_canceled(
            started_effects(jobs, marked, shut_down)[k],
            jobs[k].agent_prompt_id,
            jobs[k].prompt,
        ),
        shut_down ==> ends_as_canceled(
            started_effects(jobs, marked, shut_down)[k],
            jobs[k].agent_prompt_id,
            jobs[k].prompt,
        ),
        !shut_down && !marked.contains(jobs[k].agent_prompt_id@) ==> runs_job(
            started_effects(jobs, marked, shut_down)[k],
            jobs[k],
        ),
        !shut_down && marked.contains(jobs[k].agent_prompt_id@) && (forall|j: int|
            0 <= j < k ==> (#[trigger] jobs[j]).agent_prompt_id@ != jobs[k].agent_prompt_id@)
            ==> ends_as_canceled(
            started_effects(jobs, marked, shut_down)[k],
            jobs[k].agent_prompt_id,
            jobs[k].prompt,
        ),
    decreases jobs.len(),
{
    let init = jobs.drop_last();
    lemma_started_len(init, marked, shut_down);
    if k < init.len() {
        lemma_started(init, marked, shut_down, k);
        assert(init[k] == jobs[k]);
        if !shut_down && marked.contains(jobs[k].agent_prompt_id@) && (forall|j: int|
            0 <= j < k ==> (#[trigger] jobs[j]).agent_prompt_id@ != jobs[k].agent_prompt_id@) {
            assert forall|j: int| 0 <= j < k implies (#[trigger] init[j]).agent_prompt_id@
                != init[k].agent_prompt_id@ by {
                assert(init[j] == jobs[j]);
            }
        }
    } else {
        lemma_marks(init, marked, jobs[k].agent_prompt_id@);
        if forall|j: int|
            0 <= j < k ==> (#[trigger] jobs[j]).agent_prompt_id@ != jobs[k].agent_prompt_id@ {
            assert forall|j: int| 0 <= j < init.len() implies (#[trigger] init[j]).agent_prompt_id@
                != jobs[k].agent_prompt_id@ by {
                assert(init[j] == jobs[j]);
            }
        }
    }
}

proof fn lemma_started_len(jobs: Seq<PromptJob>, marked: Set<Seq<char>>, shut_down: bool)
    ensures
        started_effects(jobs, marked, shut_down).len() == jobs.len(),
    decreases jobs.len(),
{
    if jobs.len() > 0 {
        lemma_started_len(jobs.drop_last(), marked, shut_down);
    }
}

proof fn lemma_marks(jobs: Seq<PromptJob>, marked: Set<Seq<char>>, id: Seq<char>)
    ensures
        marks_after(jobs, marked).contains(id) ==> marked.contains(id),
        marked.contains(id) && (forall|j: int|
            0 <= j < jobs.len() ==> (#[trigger] jobs[j]).agent_prompt_id@ != id) ==> marks_after(
            jobs,
            marked,
        ).contains(id),
    decreases jobs.len(),
{
    if jobs.len() > 0 {
        let init = jobs.drop_last();
        lemma_marks(init, marked, id);
        if forall|j: int| 0 <= j < jobs.len() ==> (#[trigger] jobs[j]).agent_prompt_id@ != id {
            assert forall|j: int| 0 <= j < init.len() implies (#[trigger] init[j]).agent_prompt_id@
                != id by {
                assert(init[j] == jobs[j]);
            }
            assert(jobs[jobs.len() - 1].agent_prompt_id@ != id);
        }
    }
}

/// Queued jobs leave the queue from its front, in order, each with one effect of its own: it runs,
/// unless it was canceled, and then it ends as canceled. No free slot is left while a job waits.
pub proof fn queue_is_served_in_order(
    before: &ProviderRuntime,
    after: &ProviderRuntime,
    effects_before: Seq<Effect>,
    effects_after: Seq<Effect>,
    k: int,
)
    requires
        queue_started(before, after, effects_before, effects_after),
    ensures
        after.prompt_queue@.len() > 0 ==> after.active_prompts >= before.prompt_concurrency_limit,
        ({
            let taken = effects_after.len() - effects_before.len();
            &&& 0 <= taken <= before.prompt_queue@.len()
            &&& after.prompt_queue@ == before.prompt_queue@.skip(taken)
            &&& effects_after.take(effects_before.len() as int) == effects_before
            &&& 0 <= k < taken ==> {
                let job = before.prompt_queue@[k];
                let effect = effects_after[effects_before.len() + k];
                let canceled = before.cancellation.is_shut_down()
                    || before.cancellation.marked().contains(job.agent_prompt_id@);
                &&& runs_job(effect, job) || ends_as_canceled(
                    effect,
                    job.agent_prompt_id,
                    job.prompt,
                )
                &&& !canceled ==> runs_job(effect, job)
                &&& before.cancellation.is_shut_down() ==> ends_as_canceled(
                    effect,
                    job.agent_prompt_id,
                    job.prompt,
                )
                &&& canceled && (forall|j: int|
                    0 <= j < k ==> (#[trigger] before.prompt_queue@[j]).agent_prompt_id@
                        != job.agent_prompt_id@) ==> ends_as_canceled(
                    effect,
                    job.agent_prompt_id,
                    job.prompt,
                )
            }
        }),
{
    let count = choose|count: int| #[trigger]
        queue_started_by(before, after, effects_before, effects_after, count);
    let jobs = before.prompt_queue@.take(count);
    let marked = before.cancellation.marked();
    let shut_down = before.cancellation.is_shut_down();
    lemma_started_len(jobs, marked, shut_down);
    assert(effects_after.take(effects_before.len() as int) =~= effects_before);
    if 0 <= k < count {
        lemma_started(jobs, marked, shut_down, k);
        assert(jobs[k] == before.prompt_queue@[k]);
        if forall|j: int|
            0 <= j < k ==> (#[trigger] before.prompt_queue@[j]).agent_prompt_id@
                != jobs[k].agent_prompt_id@ {
            assert forall|j: int| 0 <= j < k implies (#[trigger] jobs[j]).agent_prompt_id@
                != jobs[k].agent_prompt_id@ by {
                assert(jobs[j] == before.prompt_queue@[j]);
            }
        }
        assert(effects_after[effects_before.len() + k] == started_effects(
            jobs,
            marked,
            shut_down,
        )[k]);
    }
}

/// A boundary is in force until its instant and not from then on, and only a manually released job
/// passes it.
pub proof fn boundary_holds_until_its_instant(
    job: PromptJob,
    cooldowns: Map<Seq<char>, SharedCooldown>,
    now: Moment,
)
    ensures
        queue_cooldown(job, cooldowns, now) is Some <==> {
            &&& !job.manual_cooldown_bypass
            &&& cooldowns.contains_key(job.prompt.model.provider@)
            &&& now.nanos < cooldowns[job.prompt.model.provider@].not_before.nanos
        },
        queue_cooldown(job, cooldowns, now) matches Some(cooldown) ==> cooldown
            == cooldowns[job.prompt.model.provider@],
        active_cooldown(cooldowns, job.prompt.model.provider@, now) is Some <==> {
            &&& cooldowns.contains_key(job.prompt.model.provider@)
            &&& now.nanos < cooldowns[job.prompt.model.provider@].not_before.nanos
        },
{
}

/// A job held back by a boundary is parked behind exactly it, unchanged, and its user is told the
/// reason of the boundary.
pub proof fn held_job_is_parked_behind_the_boundary(
    job: PromptJob,
    cooldown: SharedCooldown,
    now: Moment,
)
    requires
        now.nanos <= cooldown.not_before.nanos,
        cooldown.not_before.nanos + 5_000_000_000 <= 9_223_372_036_854_775_807_999_999_999,
    ensures
        ({
            let effects = parked_effects(job, cooldown, now);
            &&& effects.len() == 2
            &&& effects[0] matches Effect::Report(Report::ResponseUpdated(update))
            &&& update.agent_prompt_id == job.agent_prompt_id
            &&& update.status matches Some(status)
            &&& status.retry matches Some(retry)
            &&& retry.category == cooldown.class
            &&& status.text matches StatusText::Retry { delay, .. }
            &&& cooldown.not_before.nanos < now.nanos + delay.nanos
            &&& effects[1] matches Effect::Scheduler(
                SchedulerCommand::Schedule {
                    independent_due,
                    cooldown: Some(constraint),
                    job: parked,
                },
            )
            &&& parked == job
            &&& independent_due == now
            &&& constraint.boundary == cooldown.not_before
            &&& constraint.generation == cooldown.generation
        }),
{
    jitter_separates_herd(cooldown.not_before, job);
}

/// A queued job stays queued exactly when no boundary holds it, and a held one is handed to the
/// scheduler.
pub proof fn held_jobs_leave_the_queue(
    queue: Seq<PromptJob>,
    cooldowns: Map<Seq<char>, SharedCooldown>,
    now: Moment,
    i: int,
)
    requires
        0 <= i < queue.len(),
    ensures
        ({
            let held = !queue[i].manual_cooldown_bypass && cooldowns.contains_key(
                queue[i].prompt.model.provider@,
            ) && now.nanos < cooldowns[queue[i].prompt.model.provider@].not_before.nanos;
            &&& !held ==> retained_jobs(queue, cooldowns, now).contains(queue[i])
            &&& held ==> cooled_effects(queue, cooldowns, now).contains(
                Effect::Scheduler(
                    SchedulerCommand::Schedule {
                        independent_due: now,
                        cooldown: Some(
                            CooldownConstraint {
                                generation: cooldowns[queue[i].prompt.model.provider@].generation,
                                boundary: cooldowns[queue[i].prompt.model.provider@].not_before,
                            },
                        ),
                        job: queue[i],
                    },
                ),
            )
        }),
    decreases queue.len(),
{
    let init = queue.drop_last();
    let retained = retained_jobs(queue, cooldowns, now);
    let cooled = cooled_effects(queue, cooldowns, now);
    if i < init.len() {
        held_jobs_leave_the_queue(init, cooldowns, now, i);
        assert(init[i] == queue[i]);
        let before = retained_jobs(init, cooldowns, now);
        if before.contains(queue[i]) {
            let p = before.index_of(queue[i]);
            assert(retained[p] == queue[i]);
        }
        let earlier = cooled_effects(init, cooldowns, now);
        let effect = Effect::Scheduler(
            SchedulerCommand::Schedule {
                independent_due: now,
                cooldown: Some(
                    CooldownConstraint {
                        generation: cooldowns[queue[i].prompt.model.provider@].generation,
                        boundary: cooldowns[queue[i].prompt.model.provider@].not_before,
                    },
                ),
                job: queue[i],
            },
        );
        if earlier.contains(effect) {
            let p = earlier.index_of(effect);
            assert(cooled[p] == effect);
        }
    } else if queue_cooldown(queue[i], cooldowns, now) is Some {
        assert(cooled[cooled.len() - 1] == parked_effects(
            queue[i],
            cooldowns[queue[i].prompt.model.provider@],
            now,
        )[1]);
    } else {
        assert(retained[retained.len() - 1] == queue[i]);
    }
}

/// Eight prompts run at once unless the host names another positive count.
pub proof fn concurrency_defaults_to_eight(value: Option<Seq<char>>)
    ensures
        concurrency_limit(value) > 0,
        value is None ==> concurrency_limit(value) == 8,
        value matches Some(text) ==> match parsed_count(text) {
            Some(limit) => concurrency_limit(value) == if limit == 0 {
                8nat
            } else {
                limit
            },
            None => concurrency_limit(value) == 8,
        },
{
}

/// A prewarm cancellation reaches what it names: everything, one provider, one agent's ordinary
/// prewarms there, or one scheduled refresh.
pub proof fn prewarm_scope_reaches_what_it_names(
    key: PrewarmKeyContent,
    provider: String,
    agent_id: String,
    refresh_id: String,
)
    ensures
        PrewarmScope::All.covers(key),
        PrewarmScope::Provider(provider).covers(key) <==> key.provider == provider@,
        (PrewarmScope::Agent { provider, agent_id }).covers(key) <==> key.provider == provider@
            && key.agent_id == agent_id@ && key.refresh_id is None,
        PrewarmScope::Refresh(refresh_id).covers(key) <==> key.refresh_id == Some(refresh_id@),
{
}

/// A canceled admission ends its prompt once, and a manual one also answers its request, with the
/// word that nothing was released.
pub proof fn canceled_admission_answers_everyone(kind: PendingPromptAdmissionKind)
    ensures
        ({
            let effects = canceled_admission_effects(kind);
            &&& effects.len() == if kind is Manual {
                2nat
            } else {
                1nat
            }
            &&& ends_as_canceled(effects[0], kind.spec_prompt_id(), kind.spec_prompt())
            &&& kind matches PendingPromptAdmissionKind::Manual { job, request_id } ==> effects[1]
                == Effect::Report(
                Report::RetryPromptResult {
                    request_id,
                    agent_prompt_id: job.agent_prompt_id,
                    status: RetryPromptStatus::NotParked,
                },
            )
        }),
{
}

/// Dropping an admission also drops the deadline of the read that it was waiting for.
pub proof fn dropped_admission_leaves_no_deadline(admission: PendingPromptAdmission)
    ensures
        ({
            let effects = dropped_admission_effects(admission);
            &&& admission.request_id matches Some(request_id) ==> effects[0] == Effect::Deadline(
                PromptCredentialDeadlineCommand::Cancel(request_id),
            ) && ends_as_canceled(
                effects[1],
                admission.kind.spec_prompt_id(),
                admission.kind.spec_prompt(),
            )
            &&& admission.request_id is None ==> ends_as_canceled(
                effects[0],
                admission.kind.spec_prompt_id(),
                admission.kind.spec_prompt(),
            )
        }),
{
    canceled_admission_answers_everyone(admission.kind);
}

/// A route that lifts a boundary tells the scheduler so before anything else follows from it.
pub proof fn lifted_boundary_is_announced_first(effects: RouteEffects, now: Moment)
    ensures
        effects.released matches Some(generation) ==> {
            let told = route_effects(effects, now);
            &&& told.len() == 2
            &&& told[0] matches Effect::Scheduler(
                SchedulerCommand::ReleaseCooldown { provider, generation: lifted, now: at },
            )
            &&& provider == effects.provider
            &&& lifted == generation
            &&& at == now
            &&& told[1] == Effect::Route(effects)
        },
        effects.released is None ==> route_effects(effects, now) == seq![Effect::Route(effects)],
{
}

/// Provider requests are captured only for a session that allowed it.
pub proof fn capture_needs_permission(allowed: Map<Seq<char>, bool>, session_id: Seq<char>)
    ensures
        !allowed.contains_key(session_id) ==> !debug_allowed(allowed, session_id),
        allowed.contains_key(session_id) ==> debug_allowed(allowed, session_id)
            == allowed[session_id],
        !debug_allowed(allowed.insert(session_id, false), session_id),
        debug_allowed(allowed.insert(session_id, true), session_id),
{
}

/// Counts of owned work move by exactly what was taken or given, and never below zero.
pub proof fn counts_move_by_what_was_moved(count: usize, amount: nat)
    ensures
        count + amount <= usize::MAX ==> grown(count, amount) == count + amount,
        count + amount > usize::MAX ==> grown(count, amount) == usize::MAX,
        amount <= count ==> shrunk(count, amount) + amount == count,
        count < amount ==> shrunk(count, amount) == 0,
{
}

} // verus!
