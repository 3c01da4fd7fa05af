//! Logical prompts from admission to their terminal, driven through the main loop with a virtual
//! clock, the real retry scheduler, and scripted attempts.

use std::collections::BTreeSet;

use tau_ext_provider_builtin::clock::{Moment, Span};
use tau_ext_provider_builtin::event_loop::{
    run, scheduler_notice, LoopEnd, LoopInput, LoopRound, WorkerMessage,
};
use tau_ext_provider_builtin::models::ChatGptCatalog;
use tau_ext_provider_builtin::oauth::{JwtClaims, OpenAiAuth};
use tau_ext_provider_builtin::profiles::{
    profiles_with_chatgpt_auth, BuiltinProviderProfile, BuiltinProviderProfiles, ChatGptProfile,
    GenericRoute, ModelEntry, ProviderCredential, ProviderCredentialReference,
    ProviderCredentialSlot,
};
use tau_ext_provider_builtin::prewarm::PrewarmKey;
use tau_ext_provider_builtin::prompt::{
    CodexIdentity, CodexRoute, CooldownProbe, ModelId, Prompt, PromptBackend, PromptJob, PromptOperation, ProviderBackend,
    ProviderBackendTransport,
};
use tau_ext_provider_builtin::quota::{
    BindingProvenance, QuotaLimits, QuotaReport, QuotaWindowObservation, RollingQuotaObservation,
};
use tau_ext_provider_builtin::report::{
    simple_finished, ErrorText, ProviderCacheRefreshStatus, ProviderResponseUpdated,
    ProviderStopReason, Report, RetryPromptStatus,
};
use tau_ext_provider_builtin::retry::{RetryClass, RetryDecision};
use tau_ext_provider_builtin::routes::Now;
use tau_ext_provider_builtin::runtime::{Effect, PrewarmScope, ProviderRuntime};
use tau_ext_provider_builtin::scheduler::RetrySchedulerState;
use tau_ext_provider_builtin::subscriptions::{
    handles_delivery, historical_selectors, live_selectors, opening_frames, ready_frames, Delivery,
    ProviderEvent, StartupFrame,
};
use tau_ext_provider_builtin::supervise::PrewarmRequest;
use tau_ext_provider_builtin::worker::AttemptFailure;

const EPOCH: Moment = Moment { nanos: 1_000_000_000_000 };

fn text(value: &str) -> String {
    value.to_owned()
}

fn chatgpt_auth() -> OpenAiAuth {
    OpenAiAuth {
        access_token: text("access"),
        refresh_token: text("refresh"),
        expires_at_ms: u64::MAX,
        account_id: Some(text("account")),
    }
}

fn chatgpt_profiles() -> BuiltinProviderProfiles {
    profiles_with_chatgpt_auth(chatgpt_auth(), text("providers/chatgpt/oauth.json"))
}

fn model(id: &str) -> ModelEntry {
    ModelEntry {
        id: text(id),
        supports_standalone_compaction: false,
        standalone_compaction_threshold: None,
        detail: 0,
        summary_error: None,
    }
}

fn route(base_url: &str, api_key: &str, model_id: &str) -> GenericRoute {
    GenericRoute {
        base_url: text(base_url),
        api_key: text(api_key),
        models: vec![model(model_id)],
        snapshot: 7,
        valid: true,
    }
}

fn stored_key(path: &str) -> ProviderCredential {
    ProviderCredential::Stored(ProviderCredentialReference {
        slot: ProviderCredentialSlot::ApiKey,
        path: text(path),
    })
}

fn prompt(id: &str) -> Prompt {
    Prompt {
        agent_prompt_id: text(id),
        agent_id: text("agent-1"),
        session_id: text("session-1"),
        originator: text("user"),
        model: ModelId { provider: text("chatgpt"), model: text("gpt-5.6-sol") },
        operation: PromptOperation::Inference,
        tools_ref: None,
        content: 1,
    }
}

fn prompt_for(id: &str, provider: &str, model: &str) -> Prompt {
    Prompt { model: ModelId { provider: text(provider), model: text(model) }, ..prompt(id) }
}

fn decision(class: RetryClass) -> RetryDecision {
    RetryDecision {
        class,
        retry_after: None,
        delay_ceiling: Span { nanos: 3_600_000_000_000 },
        shares_cooldown: matches!(
            class,
            RetryClass::UsageWindow
                | RetryClass::Throttle
                | RetryClass::Account
                | RetryClass::Overload
        ),
    }
}

fn decision_after(class: RetryClass, secs: u64) -> RetryDecision {
    RetryDecision { retry_after: Some(Span::from_secs(secs)), ..decision(class) }
}

/// The host around one runtime: it hands commands to the scheduler, keeps running attempts, and
/// records what is asked of it.
struct World {
    runtime: ProviderRuntime,
    scheduler: RetrySchedulerState,
    claims: JwtClaims,
    now: Moment,
    running: Vec<(PromptJob, Option<CooldownProbe>)>,
    calls: Vec<String>,
    pending: Vec<WorkerMessage>,
    reports: Vec<Report>,
    quota: Vec<QuotaReport>,
    woken: Vec<Vec<u64>>,
    other: Vec<Effect>,
    end: Option<LoopEnd>,
}

impl World {
    fn new(profiles: BuiltinProviderProfiles, limit: usize) -> World {
        let catalog = ChatGptCatalog {
            standard: vec![model("gpt-5.6-sol")],
            lite: vec![model("gpt-5.6-sol")],
        };
        let limits = QuotaLimits { max_windows: 8, max_bindings: 8 };
        World {
            runtime: ProviderRuntime::new(profiles, false, limit, 2, catalog, limits),
            scheduler: RetrySchedulerState::new(),
            claims: JwtClaims::new(),
            now: EPOCH,
            running: Vec::new(),
            calls: Vec::new(),
            pending: Vec::new(),
            reports: Vec::new(),
            quota: Vec::new(),
            woken: Vec::new(),
            other: Vec::new(),
            end: None,
        }
    }

    fn describe(&mut self, account: &str, identity: CodexIdentity) {
        self.runtime.routes.codex.describe(CodexRoute {
            model: prompt("sp-1").model,
            access_token: chatgpt_auth().access_token,
            account_id: Some(text(account)),
            lite_compatibility: false,
            identity,
        });
    }

    fn prewarm_starts(&self) -> usize {
        self.other.iter().filter(|effect| matches!(effect, Effect::StartPrewarm(_))).count()
    }

    fn round(&mut self, input: Option<LoopInput>) {
        assert!(self.end.is_none(), "the loop ended");
        let round = LoopRound {
            input,
            workers: std::mem::take(&mut self.pending),
            now: Now { moment: self.now, unix_ms: (self.now.nanos / 1_000_000) as u64 },
        };
        let mut rounds = Vec::new();
        rounds.push(round);
        let (effects, end) = run(&mut self.runtime, rounds, &self.claims);
        self.end = end;
        for effect in effects {
            match effect {
                Effect::Report(report) => self.reports.push(report),
                Effect::Quota(report) => self.quota.push(report),
                Effect::WakeBackends(ids) => self.woken.push(ids),
                Effect::Scheduler(command) => {
                    for action in self.scheduler.step_mailbox(self.now, command) {
                        self.pending.push(scheduler_notice(action, text("retry-read")));
                    }
                }
                Effect::StartPrompt { job, cooldown_probe } => {
                    self.calls.push(job.agent_prompt_id.clone());
                    self.running.push((job, cooldown_probe));
                }
                Effect::Route(mut effects) => {
                    if let Some(report) = effects.quota_report.take() {
                        self.quota.push(report);
                    }
                    if let Some(generation) = effects.released {
                        let command =
                            tau_ext_provider_builtin::scheduler::SchedulerCommand::ReleaseCooldown {
                                provider: effects.provider.clone(),
                                generation,
                                now: self.now,
                            };
                        for action in self.scheduler.step_mailbox(self.now, command) {
                            self.pending.push(scheduler_notice(action, text("retry-read")));
                        }
                    }
                    self.other.push(Effect::Route(effects));
                }
                effect => self.other.push(effect),
            }
        }
    }

    fn settle(&mut self) {
        while self.end.is_none() && !self.pending.is_empty() {
            self.round(None);
        }
    }

    fn input(&mut self, input: LoopInput) {
        self.round(Some(input));
        self.settle();
    }

    fn create(&mut self, prompt: Prompt) {
        self.input(LoopInput::PromptCreated { prompt, read_id: text("read") });
    }

    fn cancel(&mut self, id: Option<&str>) {
        self.input(LoopInput::CancelPrompt { agent_prompt_id: id.map(text) });
    }

    fn retry_now(&mut self, request_id: &str, id: &str) {
        self.input(LoopInput::RetryPrompt {
            request_id: text(request_id),
            agent_prompt_id: Some(text(id)),
        });
    }

    fn advance(&mut self, secs: u64) {
        self.now = Moment { nanos: self.now.nanos + Span::from_secs(secs).nanos };
        for action in self.scheduler.advance(self.now) {
            self.pending.push(scheduler_notice(action, text("retry-read")));
        }
        self.settle();
    }

    fn take(&mut self, id: &str) -> (PromptJob, Option<CooldownProbe>) {
        let position = self
            .running
            .iter()
            .position(|(job, _)| job.agent_prompt_id == id)
            .unwrap_or_else(|| panic!("{id} does not run"));
        self.running.remove(position)
    }

    fn fail(&mut self, id: &str, decision: RetryDecision) {
        self.fail_on(id, decision, None, None);
    }

    fn fail_on(
        &mut self,
        id: &str,
        decision: RetryDecision,
        terminal_backend: Option<ProviderBackend>,
        live_detail: Option<String>,
    ) {
        let (job, _) = self.take(id);
        self.pending.push(WorkerMessage::AttemptFailed(AttemptFailure {
            job,
            decision,
            live_detail,
            canonical_unauthorized: false,
            terminal_backend,
        }));
        self.pending.push(WorkerMessage::PromptDone);
        self.settle();
    }

    fn output(&mut self, id: &str, report: Report) {
        let (job, probe) = self
            .running
            .iter()
            .find(|(job, _)| job.agent_prompt_id == id)
            .map(|(job, probe)| {
                (
                    job.cancel_generation,
                    probe.as_ref().map(|probe| CooldownProbe {
                        provider: probe.provider.clone(),
                        generation: probe.generation,
                    }),
                )
            })
            .unwrap_or_else(|| panic!("{id} does not run"));
        self.pending.push(WorkerMessage::Output {
            report,
            dispatch_generation: job,
            agent_prompt_id: text(id),
            cooldown_probe: probe,
        });
        self.settle();
    }

    fn finish_with(&mut self, id: &str, error: Option<&str>, stop: ProviderStopReason) {
        let mut finished = simple_finished(
            text(id),
            text("agent-1"),
            text("user"),
            ErrorText::Provider(text("replaced")),
        );
        finished.error = error.map(|error| ErrorText::Provider(text(error)));
        finished.stop_reason = stop;
        self.output(id, Report::ResponseFinished(finished));
        self.take(id);
        self.pending.push(WorkerMessage::PromptDone);
        self.settle();
    }

    fn finish(&mut self, id: &str, error: &str) {
        self.finish_with(id, Some(error), ProviderStopReason::Error);
    }

    fn submitted(&self, id: &str) -> usize {
        self.reports
            .iter()
            .filter(|report| {
                matches!(report, Report::PromptSubmitted { agent_prompt_id, .. } if agent_prompt_id == id)
            })
            .count()
    }

    fn finished(&self, id: &str) -> Vec<Option<String>> {
        self.reports
            .iter()
            .filter_map(|report| match report {
                Report::ResponseFinished(finished) if finished.agent_prompt_id == id => {
                    Some(finished.error.as_ref().map(|error| error.text()))
                }
                _ => None,
            })
            .collect()
    }

    fn retry_attempts(&self, id: &str) -> Vec<u32> {
        self.reports
            .iter()
            .filter_map(|report| match report {
                Report::ResponseUpdated(update) if update.agent_prompt_id == id => {
                    update.status.as_ref()?.retry.as_ref().map(|retry| retry.attempt)
                }
                _ => None,
            })
            .collect()
    }

    fn retry_result(&self, request: &str) -> Vec<RetryPromptStatus> {
        self.reports
            .iter()
            .filter_map(|report| match report {
                Report::RetryPromptResult { request_id, status, .. } if request_id == request => {
                    Some(*status)
                }
                _ => None,
            })
            .collect()
    }

    fn cancels(&self, agent: &str) -> usize {
        self.other
            .iter()
            .filter(|effect| match effect {
                Effect::CancelPrewarms(PrewarmScope::All) => true,
                Effect::CancelPrewarms(PrewarmScope::Agent { agent_id, .. }) => agent_id == agent,
                Effect::Route(effects) => effects.profile_changed,
                _ => false,
            })
            .count()
    }
}

const CANCELED: &str = "(cancelled by harness)";

#[derive(Clone, Copy)]
enum MixedStateShutdown {
    GlobalCancel,
    Eof,
}

fn assert_mixed_state_shutdown(shutdown: MixedStateShutdown) {
    let mut world = World::new(chatgpt_profiles(), 2);
    world.create(prompt("mixed-delayed"));
    world.create(prompt("mixed-active"));
    world.create(prompt("mixed-queued"));
    assert_eq!(world.running.len(), 2);
    let (waker, call_now) = world
        .runtime
        .cancellation
        .register_abort_waker(&text("mixed-active"), world.running[1].0.cancel_generation);
    assert!(!call_now);
    world.fail("mixed-delayed", decision_after(RetryClass::UsageWindow, 86_400));
    assert!(world.reports.iter().any(|report| matches!(
        report,
        Report::ResponseUpdated(update)
            if update.agent_prompt_id == "mixed-delayed"
                && update.status.as_ref().is_some_and(|status| status
                    .retry
                    .is_some_and(|retry| retry.category == RetryClass::UsageWindow))
    )));
    world.create(prompt("mixed-cooldown-peer"));
    assert_eq!(world.retry_attempts("mixed-cooldown-peer"), vec![0]);
    match shutdown {
        MixedStateShutdown::GlobalCancel => world.cancel(None),
        MixedStateShutdown::Eof => world.input(LoopInput::Closed),
    }
    assert!(
        world.woken.iter().any(|woken| woken.contains(&waker)),
        "the active backend is woken"
    );
    world.finish("mixed-active", "late success must become canceled");
    match shutdown {
        MixedStateShutdown::GlobalCancel => {
            assert!(world.end.is_none());
            world.input(LoopInput::Disconnected);
            assert_eq!(world.end, Some(LoopEnd::Disconnected));
        }
        MixedStateShutdown::Eof => assert_eq!(world.end, Some(LoopEnd::Finished)),
    }
    for id in ["mixed-delayed", "mixed-active", "mixed-queued", "mixed-cooldown-peer"] {
        assert_eq!(world.submitted(id), 1, "{id} is submitted once");
        assert_eq!(
            world.finished(id),
            vec![Some(text(CANCELED))],
            "{id} is closed exactly once"
        );
    }
    assert_eq!(
        world.calls.iter().cloned().collect::<BTreeSet<_>>(),
        BTreeSet::from([text("mixed-delayed"), text("mixed-active")]),
        "queued work must close without provider execution"
    );
}

#[test]
fn global_cancel_closes_mixed_prompt_states_exactly_once() {
    assert_mixed_state_shutdown(MixedStateShutdown::GlobalCancel);
}

#[test]
fn eof_closes_mixed_prompt_states_exactly_once() {
    assert_mixed_state_shutdown(MixedStateShutdown::Eof);
}

#[test]
fn cold_restart_discards_old_work_and_cooldown() {
    assert_mixed_state_shutdown(MixedStateShutdown::Eof);
    let mut world = World::new(chatgpt_profiles(), 1);
    world.create(prompt("fresh-after-restart"));
    assert_eq!(world.calls, vec![text("fresh-after-restart")]);
    world.finish("fresh-after-restart", "fresh success");
    assert_eq!(world.submitted("fresh-after-restart"), 1);
    assert_eq!(world.finished("fresh-after-restart").len(), 1);
}

#[test]
fn prompt_workers_start_concurrently() {
    let mut world = World::new(chatgpt_profiles(), 2);
    world.create(prompt("sp-par-1"));
    world.create(prompt("sp-par-2"));
    assert_eq!(world.running.len(), 2, "both prompt workers should overlap");
    world.finish("sp-par-1", "done");
    world.finish("sp-par-2", "done");
    assert_eq!(world.finished("sp-par-1").len() + world.finished("sp-par-2").len(), 2);
}

#[test]
fn a_full_worker_pool_queues_in_order() {
    let mut world = World::new(chatgpt_profiles(), 1);
    for id in ["first", "second", "third"] {
        world.create(prompt(id));
        assert_eq!(world.submitted(id), 1);
    }
    assert_eq!(world.calls, vec![text("first")]);
    assert_eq!(world.runtime.prompt_queue.len(), 2);
    world.finish("first", "done");
    assert_eq!(world.calls, vec![text("first"), text("second")]);
    world.finish("second", "done");
    assert_eq!(world.calls, vec![text("first"), text("second"), text("third")]);
}

#[test]
fn retryable_attempt_is_rescheduled_then_finishes_once() {
    let mut world = World::new(chatgpt_profiles(), 1);
    world.create(prompt("sp-1"));
    world.fail("sp-1", decision(RetryClass::Transport));
    assert_eq!(world.retry_attempts("sp-1"), vec![1]);
    assert_eq!(world.runtime.delayed_count, 1);
    world.retry_now("runtime-manual-1", "sp-1");
    assert_eq!(world.retry_result("runtime-manual-1"), vec![RetryPromptStatus::Accepted]);
    assert_eq!(world.runtime.delayed_count, 0);
    world.finish("sp-1", "done");
    assert_eq!(world.submitted("sp-1"), 1);
    assert_eq!(world.finished("sp-1").len(), 1);
    assert_eq!(world.calls.len(), 2);
}

#[test]
fn standalone_compaction_retry_policy_terminalizes_after_five_attempts() {
    let mut world = World::new(chatgpt_profiles(), 1);
    world.create(Prompt {
        operation: PromptOperation::StandaloneCompaction,
        ..prompt("sp-1")
    });
    for attempt in 1..=5 {
        assert_eq!(world.calls.len(), attempt);
        let backend = ProviderBackend {
            endpoint: text("https://chat.example/v1"),
            transport: ProviderBackendTransport::Http,
            stale_chain_fallback: false,
        };
        world.fail_on("sp-1", decision(RetryClass::Transport), Some(backend), None);
        if attempt < 5 {
            assert_eq!(world.retry_attempts("sp-1").len(), attempt);
            world.advance(60 * 60);
        }
    }
    assert_eq!(world.calls.len(), 5);
    let terminal = world
        .reports
        .iter()
        .filter_map(|report| match report {
            Report::ResponseFinished(finished) => Some(finished),
            _ => None,
        })
        .collect::<Vec<_>>();
    assert_eq!(terminal.len(), 1);
    assert_eq!(terminal[0].stop_reason, ProviderStopReason::Error);
    assert_eq!(terminal[0].provider_attempt, 5);
    assert_eq!(
        terminal[0].backend.as_ref().map(|backend| backend.endpoint.as_str()),
        Some("https://chat.example/v1")
    );
    assert_eq!(
        terminal[0].error.as_ref().map(|error| error.text()),
        Some(text("provider retry budget exhausted during standalone compaction"))
    );
}

#[test]
fn standalone_exhaustion_still_shares_its_evidence() {
    let mut world = World::new(chatgpt_profiles(), 2);
    world.create(Prompt {
        operation: PromptOperation::StandaloneCompaction,
        ..prompt("compact-4290")
    });
    for _ in 1..=4 {
        world.fail("compact-4290", decision(RetryClass::Throttle));
        world.advance(60 * 60);
    }
    let before = world.runtime.routes.shared_cooldown_generation;
    world.fail("compact-4290", decision(RetryClass::Throttle));
    assert_eq!(world.finished("compact-4290").len(), 1);
    assert_eq!(world.runtime.routes.shared_cooldown_generation, before + 1);
    world.create(prompt("peer-3"));
    assert_eq!(world.retry_attempts("peer-3"), vec![0], "the peer is parked");
    world.advance(60 * 60);
    assert_eq!(world.calls.last().map(String::as_str), Some("peer-3"));
}

#[test]
fn manual_retry_transfer_clears_delayed_count_through_main_loop() {
    let mut world = World::new(chatgpt_profiles(), 1);
    world.create(prompt("sp-1"));
    world.fail("sp-1", decision(RetryClass::Transport));
    world.retry_now("count-transfer", "sp-1");
    assert_eq!(world.running[0].0.retry_state.attempts, 1);
    world.finish("sp-1", "done");
    world.input(LoopInput::Closed);
    assert_eq!(world.end, Some(LoopEnd::Finished));
    assert_eq!(world.retry_result("count-transfer"), vec![RetryPromptStatus::Accepted]);
}

#[test]
fn shutdown_then_manual_retry_is_terminal_once_without_dispatch() {
    let mut world = World::new(chatgpt_profiles(), 1);
    world.create(prompt("sp-1"));
    world.fail("sp-1", decision(RetryClass::Transport));
    world.input(LoopInput::SessionShutdown);
    world.retry_now("after-shutdown", "sp-1");
    assert_eq!(world.calls.len(), 1);
    assert_eq!(world.submitted("sp-1"), 1);
    assert_eq!(world.finished("sp-1"), vec![Some(text(CANCELED))]);
    assert_eq!(world.retry_result("after-shutdown"), vec![RetryPromptStatus::NotParked]);
    assert!(world.other.iter().any(|effect| matches!(effect, Effect::InvalidateAllWebsockets)));
}

#[test]
fn manual_retry_failure_reparks_with_normal_accounting_then_finishes_once() {
    let mut world = World::new(chatgpt_profiles(), 1);
    world.create(prompt("sp-1"));
    for (request, attempt) in [("manual-first", 1_u64), ("manual-second", 2)] {
        world.fail("sp-1", decision(RetryClass::Transport));
        world.retry_now(request, "sp-1");
        assert_eq!(world.running[0].0.retry_state.attempts, attempt);
    }
    world.finish("sp-1", "done");
    assert_eq!(world.retry_attempts("sp-1"), vec![1, 2]);
    assert_eq!(world.finished("sp-1"), vec![Some(text("done"))]);
}

#[test]
fn context_window_rejection_finishes_once_without_retry_status() {
    let mut world = World::new(chatgpt_profiles(), 1);
    world.create(prompt("sp-1"));
    let mut finished = simple_finished(
        text("sp-1"),
        text("agent-1"),
        text("user"),
        ErrorText::Provider(text("context window exceeded")),
    );
    finished.failure_kind = Some(3);
    world.output("sp-1", Report::ResponseFinished(finished));
    world.take("sp-1");
    world.pending.push(WorkerMessage::PromptDone);
    world.settle();
    assert_eq!(world.finished("sp-1"), vec![Some(text("context window exceeded"))]);
    assert!(world.retry_attempts("sp-1").is_empty());
    assert_eq!(world.calls.len(), 1);
}

#[test]
fn four_delayed_prompts_release_capacity_for_an_unrelated_provider() {
    let mut world = World::new(chatgpt_profiles(), 4);
    for id in ["limited-1", "limited-2", "limited-3", "limited-4"] {
        world.create(prompt_for(id, "limited", "model"));
    }
    world.create(prompt_for("healthy", "healthy", "model"));
    assert_eq!(world.running.len(), 4);
    for id in ["limited-1", "limited-2", "limited-3", "limited-4"] {
        world.fail(id, decision_after(RetryClass::Account, 86_400));
    }
    assert!(world.calls.iter().any(|id| id == "healthy"));
    world.finish("healthy", "healthy done");
    for id in ["limited-1", "limited-2", "limited-3", "limited-4"] {
        assert_eq!(world.calls.iter().filter(|call| *call == id).count(), 1);
    }
    assert_eq!(world.submitted("healthy"), 1);
    assert_eq!(world.finished("healthy").len(), 1);
}

#[test]
fn delayed_retry_reloads_repaired_and_deleted_profile_state() {
    let lite = |token: &str, lite: bool| {
        let mut profiles = BuiltinProviderProfiles::new();
        profiles.insert(
            text("chatgpt"),
            BuiltinProviderProfile::Chatgpt(ChatGptProfile {
                auth: OpenAiAuth { access_token: text(token), ..chatgpt_auth() },
                responses_lite_compatibility: lite,
            }),
            ProviderCredential::Stored(ProviderCredentialReference {
                slot: ProviderCredentialSlot::OAuth,
                path: text("oauth"),
            }),
        );
        profiles
    };
    let mut world = World::new(lite("old-token", true), 1);
    world.create(prompt("sp-1"));
    let check = |world: &World, token: &str| match &world.running[0].0.backend {
        PromptBackend::Responses(config) => {
            assert_eq!(config.access_token, token);
            assert_eq!(config.account_id.as_deref(), Some("account"));
            assert!(config.lite_compatibility, "the startup mode is retained");
        }
        _ => panic!("a ChatGPT backend"),
    };
    check(&world, "old-token");
    world.runtime.settings = lite("fresh-token", false);
    world.fail("sp-1", decision(RetryClass::Transport));
    world.advance(60 * 60);
    check(&world, "fresh-token");
    world.runtime.settings = BuiltinProviderProfiles::new();
    world.fail("sp-1", decision(RetryClass::Transport));
    world.advance(60 * 60);
    assert!(matches!(
        world.running[0].0.backend,
        PromptBackend::Unavailable { login_required: None }
    ));
    world.runtime.settings = lite("fresh-token", false);
    world.fail("sp-1", decision(RetryClass::Transport));
    world.advance(60 * 60);
    check(&world, "fresh-token");
    world.finish("sp-1", "observed unavailable");
    assert_eq!(world.calls.len(), 4);
    assert_eq!(world.submitted("sp-1"), 1);
    assert_eq!(world.finished("sp-1").len(), 1);
}

#[test]
fn an_automatic_retry_never_crosses_accounts() {
    let mut world = World::new(chatgpt_profiles(), 1);
    world.describe("account", CodexIdentity { inference: 1, quota: 1, retry_anchor: 1 });
    world.describe("another", CodexIdentity { inference: 2, quota: 2, retry_anchor: 2 });
    world.create(prompt("sp-1"));
    world.runtime.settings = profiles_with_chatgpt_auth(
        OpenAiAuth { account_id: Some(text("another")), ..chatgpt_auth() },
        text("oauth"),
    );
    world.fail("sp-1", decision(RetryClass::Transport));
    world.advance(60 * 60);
    assert_eq!(
        world.finished("sp-1"),
        vec![Some(text("ChatGPT identity changed; automatic retry refused"))]
    );
    assert_eq!(world.calls.len(), 1);
}

#[test]
fn an_automatic_retry_keeps_its_anchor_across_credentials() {
    let mut world = World::new(chatgpt_profiles(), 1);
    world.describe("account", CodexIdentity { inference: 1, quota: 1, retry_anchor: 7 });
    world.describe("renamed", CodexIdentity { inference: 2, quota: 1, retry_anchor: 7 });
    world.create(prompt("sp-1"));
    world.runtime.settings = profiles_with_chatgpt_auth(
        OpenAiAuth { account_id: Some(text("renamed")), ..chatgpt_auth() },
        text("oauth"),
    );
    world.fail("sp-1", decision(RetryClass::Transport));
    world.advance(60 * 60);
    assert_eq!(world.calls.len(), 2, "the same anchor goes on");
}

#[test]
fn the_latest_description_of_a_route_holds() {
    let mut world = World::new(chatgpt_profiles(), 1);
    let model = prompt("sp-1").model;
    let of = |world: &World, account: &str| {
        world.runtime.routes.codex.identity(&model, &text("access"), &Some(text(account)), false)
    };
    let zero = CodexIdentity { inference: 0, quota: 0, retry_anchor: 0 };
    assert_eq!(of(&world, "account"), zero);
    let first = CodexIdentity { inference: 1, quota: 2, retry_anchor: 3 };
    let second = CodexIdentity { inference: 4, quota: 5, retry_anchor: 6 };
    world.describe("account", first);
    world.describe("other", second);
    assert_eq!(of(&world, "account"), first);
    world.describe("account", second);
    assert_eq!(of(&world, "account"), second);
    assert_eq!(
        world.runtime.routes.codex.identity(&model, &text("access"), &Some(text("account")), true),
        zero,
        "each mode is described by itself"
    );
}

#[test]
fn quota_follows_its_own_identity() {
    let mut world = World::new(chatgpt_profiles(), 2);
    world.describe("account", CodexIdentity { inference: 1, quota: 40, retry_anchor: 1 });
    world.describe("other", CodexIdentity { inference: 2, quota: 40, retry_anchor: 2 });
    world.create(prompt("sp-1"));
    let epoch = world.runtime.routes.quota.profile_epoch(&text("chatgpt"));
    world.runtime.settings = profiles_with_chatgpt_auth(
        OpenAiAuth { account_id: Some(text("other")), ..chatgpt_auth() },
        text("oauth"),
    );
    world.create(prompt("sp-2"));
    assert_eq!(
        world.runtime.routes.quota.profile_epoch(&text("chatgpt")),
        epoch,
        "a new inference identity with the same quota identity starts no epoch"
    );
    world.describe("other", CodexIdentity { inference: 2, quota: 41, retry_anchor: 2 });
    world.create(prompt("sp-3"));
    assert_ne!(world.runtime.routes.quota.profile_epoch(&text("chatgpt")), epoch);
}

#[test]
fn retry_clears_failed_attempt_output_before_durable_success() {
    let mut world = World::new(chatgpt_profiles(), 1);
    world.create(prompt("sp-1"));
    world.output(
        "sp-1",
        Report::ResponseUpdated(ProviderResponseUpdated {
            agent_prompt_id: text("sp-1"),
            agent_id: text("agent-1"),
            originator: text("user"),
            deltas: Some(41),
            compaction: None,
            status: None,
            response_stats: None,
        }),
    );
    world.fail("sp-1", decision(RetryClass::Transport));
    world.advance(60 * 60);
    world.finish_with("sp-1", None, ProviderStopReason::EndTurn);
    let tentative = world
        .reports
        .iter()
        .position(|report| {
            matches!(report, Report::ResponseUpdated(update) if update.deltas == Some(41))
        })
        .expect("tentative update");
    let clear = world
        .reports
        .iter()
        .position(|report| {
            matches!(
                report,
                Report::ResponseUpdated(update)
                    if update.status.as_ref().is_some_and(|status| status.clear_response)
            )
        })
        .expect("partial clear");
    let finish = world
        .reports
        .iter()
        .position(|report| matches!(report, Report::ResponseFinished(_)))
        .expect("durable finish");
    assert!(tentative < clear && clear < finish);
    assert_eq!(world.finished("sp-1"), vec![None]);
}

#[test]
fn all_builtin_provider_families_retry_then_finish_on_the_shared_scheduler() {
    let mut profiles = chatgpt_profiles();
    profiles.insert(
        text("generic"),
        BuiltinProviderProfile::ChatCompletions(route(
            "https://generic.invalid/v1",
            "generic-key",
            "generic-model",
        )),
        stored_key("generic"),
    );
    profiles.insert(
        text("router"),
        BuiltinProviderProfile::OpenRouter(route(
            "https://openrouter.ai/api/v1",
            "router-key",
            "router-model",
        )),
        stored_key("router"),
    );
    let mut world = World::new(profiles, 3);
    world.create(prompt("chatgpt-retry"));
    world.create(prompt_for("generic-retry", "generic", "generic-model"));
    world.create(prompt_for("router-retry", "router", "router-model"));
    for _ in 0..2 {
        assert_eq!(world.running.len(), 3);
        for (job, _) in &world.running {
            match (job.agent_prompt_id.as_str(), &job.backend) {
                ("chatgpt-retry", PromptBackend::Responses(config)) => {
                    assert_eq!(config.access_token, "access");
                    assert_eq!(config.account_id.as_deref(), Some("account"));
                }
                ("generic-retry", PromptBackend::ChatCompletions { route, model_index }) => {
                    assert_eq!(route.base_url, "https://generic.invalid/v1");
                    assert_eq!(*model_index, 0);
                }
                ("router-retry", PromptBackend::ChatCompletions { route, model_index }) => {
                    assert_eq!(route.base_url, "https://openrouter.ai/api/v1");
                    assert_eq!(route.api_key, "router-key");
                    assert_eq!(*model_index, 0);
                }
                (id, _) => panic!("provider family changed routing backend for {id}"),
            }
        }
        if world.calls.len() == 3 {
            world.fail("chatgpt-retry", decision(RetryClass::Transport));
            world.fail("generic-retry", decision(RetryClass::Overload));
            world.fail("router-retry", decision(RetryClass::Unknown));
            world.advance(60 * 60);
        }
    }
    for id in ["chatgpt-retry", "generic-retry", "router-retry"] {
        world.finish(id, "family done");
        assert_eq!(world.submitted(id), 1);
        assert_eq!(world.finished(id).len(), 1);
        assert_eq!(world.calls.iter().filter(|call| *call == id).count(), 2);
    }
}

#[test]
fn profile_identity_rotation_releases_old_shared_cooldown() {
    let mut world = World::new(chatgpt_profiles(), 2);
    world.create(prompt("sp-1"));
    world.fail("sp-1", decision_after(RetryClass::UsageWindow, 86_400));
    assert!(world.runtime.routes.shared_cooldowns.contains_key("chatgpt"));
    world.runtime.settings = profiles_with_chatgpt_auth(
        OpenAiAuth { access_token: text("rotated-access"), ..chatgpt_auth() },
        text("oauth"),
    );
    world.create(prompt("rotated"));
    assert!(!world.runtime.routes.shared_cooldowns.contains_key("chatgpt"));
    world.finish_with("rotated", None, ProviderStopReason::EndTurn);
    world.advance(60);
    world.finish_with("sp-1", None, ProviderStopReason::EndTurn);
    assert_eq!(world.finished("sp-1"), vec![None]);
    world.input(LoopInput::Closed);
    assert_eq!(world.end, Some(LoopEnd::Finished));
}

#[test]
fn stale_old_identity_retry_cannot_park_new_profile_work() {
    let mut world = World::new(chatgpt_profiles(), 3);
    world.create(prompt("sp-1"));
    world.runtime.settings = profiles_with_chatgpt_auth(
        OpenAiAuth { access_token: text("new-identity"), ..chatgpt_auth() },
        text("oauth"),
    );
    world.create(prompt("rotated-first"));
    world.finish_with("rotated-first", None, ProviderStopReason::EndTurn);
    world.fail("sp-1", decision(RetryClass::UsageWindow));
    assert_eq!(world.retry_attempts("sp-1"), vec![1]);
    world.create(prompt("new-peer"));
    world.finish_with("new-peer", None, ProviderStopReason::EndTurn);
    world.advance(60);
    world.finish_with("sp-1", None, ProviderStopReason::EndTurn);
    assert_eq!(
        world.calls,
        vec![text("sp-1"), text("rotated-first"), text("new-peer"), text("sp-1")]
    );
}

#[test]
fn quota_telemetry_does_not_release_shared_inference_cooldown() {
    let mut world = World::new(chatgpt_profiles(), 2);
    world.create(prompt("sp-1"));
    let config = match &world.running[0].0.backend {
        PromptBackend::Responses(config) => config.clone(),
        _ => panic!("configured Responses backend"),
    };
    let identity = config.identity.quota;
    world.fail("sp-1", decision_after(RetryClass::UsageWindow, 86_400));
    world.pending.push(WorkerMessage::QuotaRolling {
        model: prompt("sp-1").model,
        profile_identity: identity,
        observation: RollingQuotaObservation {
            windows: vec![QuotaWindowObservation {
                limit_id: text("codex"),
                window_id: text("primary"),
                used_basis_points: 0,
                window_seconds: Some(604_800),
                reset_at_unix_seconds: Some(2_100_000_000),
                remaining_seconds: None,
            }],
            active_limit_id: Some(text("codex")),
            binding_provenance: Some(BindingProvenance { code: 1 }),
        },
        observed_at_unix_ms: 1_000_000,
    });
    world.settle();
    assert!(world.quota.iter().any(|report| matches!(report, QuotaReport::Patch { .. })));
    world.create(prompt("telemetry-peer"));
    assert_eq!(world.retry_attempts("telemetry-peer"), vec![0]);
    assert_eq!(world.calls, vec![text("sp-1")]);
}

#[test]
fn one_probe_releases_its_cooldown_and_its_parked_peers() {
    let mut profiles = chatgpt_profiles();
    profiles.insert(
        text("healthy"),
        BuiltinProviderProfile::ChatCompletions(route(
            "https://healthy.invalid/v1",
            "fixture-key",
            "model",
        )),
        stored_key("healthy"),
    );
    let mut world = World::new(profiles, 2);
    world.create(prompt("probe"));
    world.fail("probe", decision_after(RetryClass::UsageWindow, 5 * 86_400));
    let status = world
        .reports
        .iter()
        .find_map(|report| match report {
            Report::ResponseUpdated(update) => update.status.as_ref()?.retry,
            _ => None,
        })
        .expect("probe retry status");
    assert_eq!(status.category, RetryClass::UsageWindow);
    assert!(status.next_retry_delay_secs < 60, "a reset estimate suppresses no probe");
    world.create(prompt("peer-1"));
    world.create(prompt("peer-2"));
    world.create(prompt_for("unrelated", "healthy", "model"));
    assert_eq!(world.calls, vec![text("probe"), text("unrelated")]);
    world.finish_with("unrelated", None, ProviderStopReason::EndTurn);
    world.retry_now("one-probe", "probe");
    world.retry_now("duplicate-probe", "probe");
    assert_eq!(world.retry_result("one-probe"), vec![RetryPromptStatus::Accepted]);
    assert_eq!(world.retry_result("duplicate-probe"), vec![RetryPromptStatus::NotParked]);
    world.finish_with("probe", None, ProviderStopReason::ToolCalls);
    assert!(!world.runtime.routes.shared_cooldowns.contains_key("chatgpt"));
    world.create(prompt("continuation"));
    assert!(world.retry_attempts("continuation").is_empty());
    world.finish_with("continuation", None, ProviderStopReason::EndTurn);
    world.advance(6);
    world.finish_with("peer-1", None, ProviderStopReason::EndTurn);
    world.finish_with("peer-2", None, ProviderStopReason::EndTurn);
    for id in ["probe", "peer-1", "peer-2", "unrelated", "continuation"] {
        assert_eq!(world.submitted(id), 1, "{id} submitted exactly once");
        assert_eq!(world.finished(id), vec![None], "{id} terminated exactly once");
    }
    assert_eq!(world.calls.iter().filter(|call| *call == "probe").count(), 2);
    world.input(LoopInput::Closed);
    assert_eq!(world.end, Some(LoopEnd::Finished));
}

#[test]
fn queued_targeted_cancel_allows_prompt_id_reuse() {
    let mut world = World::new(chatgpt_profiles(), 1);
    world.create(prompt("occupying"));
    world.create(prompt("reused"));
    world.cancel(Some("reused"));
    world.create(prompt("reused"));
    world.finish("occupying", "done");
    assert_eq!(world.calls, vec![text("occupying"), text("reused")]);
    world.finish("reused", "done");
    assert_eq!(
        world.finished("reused"),
        vec![Some(text(CANCELED)), Some(text("done"))]
    );
}

#[test]
fn late_retry_after_targeted_cancel_is_not_rescheduled() {
    let mut world = World::new(chatgpt_profiles(), 1);
    world.create(prompt("sp-1"));
    world.cancel(Some("sp-1"));
    world.fail("sp-1", decision(RetryClass::Transport));
    assert_eq!(world.finished("sp-1"), vec![Some(text(CANCELED))]);
    assert_eq!(world.runtime.delayed_count, 0);
    world.advance(60 * 60);
    assert_eq!(world.calls.len(), 1);
}

#[test]
fn replayed_prompt_creation_does_not_start_executor_or_emit_prompt_events() {
    let mut world = World::new(chatgpt_profiles(), 1);
    if handles_delivery(ProviderEvent::PromptCreated, Delivery::Restore) {
        world.create(prompt("sp-1"));
    }
    world.input(LoopInput::Disconnected);
    assert_eq!(world.calls.len(), 0);
    assert!(world.reports.is_empty(), "replayed prompt must not emit provider prompt effects");
    assert!(handles_delivery(ProviderEvent::PromptCreated, Delivery::RoutedLive));
}

#[test]
fn replayed_session_dir_controls_live_prompt_debug_policy() {
    for (ephemeral, expected_debug) in [(false, true), (true, false)] {
        let mut world = World::new(chatgpt_profiles(), 1);
        assert!(handles_delivery(ProviderEvent::SessionDir, Delivery::Restore));
        world.input(LoopInput::SessionDir { session_id: text("session-1"), ephemeral });
        world.create(prompt("sp-1"));
        assert_eq!(
            world.running[0].0.debug_provider_requests, expected_debug,
            "session status should map to debug policy"
        );
    }
    let mut world = World::new(chatgpt_profiles(), 1);
    world.create(prompt("sp-1"));
    assert!(!world.running[0].0.debug_provider_requests, "an unknown session permits nothing");
}

#[test]
fn provider_startup_declares_exact_subscriptions_and_models_before_ready() {
    assert_eq!(
        live_selectors(),
        vec![
            ProviderEvent::PromptPrewarmRequested,
            ProviderEvent::CacheRefreshRequested,
            ProviderEvent::CacheRefreshCancelRequested,
            ProviderEvent::SessionDir,
            ProviderEvent::CancelPrompt,
            ProviderEvent::SessionShutdown,
        ],
        "provider startup subscriptions must stay exact and exclude ordinary prompt routing"
    );
    assert_eq!(historical_selectors(), vec![ProviderEvent::SessionDir]);
    let catalog = ChatGptCatalog { standard: vec![model("gpt-5.6-sol")], lite: Vec::new() };
    let declared =
        tau_ext_provider_builtin::models::models_for_profiles(&chatgpt_profiles(), &catalog);
    assert_eq!(declared[0].id.provider, "chatgpt");
    assert_eq!(declared[0].id.model, "gpt-5.6-sol");

    let mut frames = opening_frames();
    frames.extend(ready_frames(Some(declared)));
    assert!(
        matches!(
            &frames[0],
            StartupFrame::Hello { client_name } if client_name == "tau-ext-provider-builtin"
        ),
        "first frame should be provider hello"
    );
    let subscribe_frames = frames
        .iter()
        .filter_map(|frame| match frame {
            StartupFrame::Subscribe { live, historical } => Some((live, historical)),
            _ => None,
        })
        .collect::<Vec<_>>();
    assert_eq!(subscribe_frames.len(), 1, "provider should emit one startup Subscribe frame");
    assert_eq!(*subscribe_frames[0].0, live_selectors());
    assert_eq!(*subscribe_frames[0].1, historical_selectors());
    let models_index = frames
        .iter()
        .position(|frame| {
            matches!(
                frame,
                StartupFrame::ModelsDeclared(models)
                    if models[0].id.provider == "chatgpt" && models[0].id.model == "gpt-5.6-sol"
            )
        })
        .expect("startup frames should announce provider models");
    let ready_index = frames
        .iter()
        .position(|frame| matches!(frame, StartupFrame::Ready { .. }))
        .expect("startup frames should end with Ready");
    assert!(models_index < ready_index, "provider models must be announced before Ready");
    assert_eq!(ready_index, frames.len() - 1);
}

#[test]
fn direct_prompt_request_with_missing_backend_remains_pending_until_disconnect() {
    let mut world = World::new(
        profiles_with_chatgpt_auth(OpenAiAuth::empty(), text("oauth")),
        1,
    );
    world.create(prompt("sp-1"));
    assert_eq!(world.submitted("sp-1"), 1);
    assert!(matches!(world.running[0].0.backend, PromptBackend::Unavailable { .. }));
    world.fail("sp-1", decision(RetryClass::Auth));
    world.input(LoopInput::Disconnected);
    assert_eq!(world.end, Some(LoopEnd::Disconnected));
    assert!(
        world.finished("sp-1").is_empty(),
        "reloadable missing backend must not be reported as terminal"
    );
}

#[test]
fn worker_output_is_committed_before_the_attempt_is_done() {
    let mut world = World::new(chatgpt_profiles(), 1);
    world.create(prompt("sp-1"));
    let before = world.reports.len();
    world.output(
        "sp-1",
        Report::PromptSubmitted { agent_prompt_id: text("sp-1"), originator: text("user") },
    );
    assert_eq!(world.reports.len(), before + 1);
    assert_eq!(world.runtime.active_prompts, 1);
}

fn prewarm(agent: &str) -> PrewarmRequest {
    PrewarmRequest {
        agent_id: text(agent),
        session_id: text("session-1"),
        model: Some(prompt("sp-1").model),
        content: 9,
    }
}

fn config() -> tau_ext_provider_builtin::prompt::ResolvedConfig {
    tau_ext_provider_builtin::prompt::ResolvedConfig {
        model: prompt("sp-1").model,
        access_token: text("access"),
        account_id: Some(text("account")),
        lite_compatibility: false,
        identity: CodexIdentity { inference: 0, quota: 0, retry_anchor: 0 },
    }
}

fn prewarm_key(refresh_id: Option<&str>) -> PrewarmKey {
    PrewarmKey {
        provider: prompt("sp-1").model.provider,
        agent_id: text("agent-1"),
        refresh_id: refresh_id.map(text),
    }
}

#[test]
fn a_real_prompt_cancels_the_prewarm_of_its_agent() {
    let mut world = World::new(chatgpt_profiles(), 1);
    world.input(LoopInput::Prewarm { request: prewarm("agent-1"), config: Some(config()) });
    let starts = world
        .other
        .iter()
        .filter(|effect| matches!(effect, Effect::StartPrewarm(_)))
        .count();
    assert_eq!(starts, 1);
    let before = world.cancels("agent-1");
    world.create(prompt("sp-1"));
    assert!(world.cancels("agent-1") > before);
    world.finish("sp-1", "done");
}

#[test]
fn silent_duplicate_prewarm_does_not_block_real_prompt() {
    let mut world = World::new(chatgpt_profiles(), 1);
    world.input(LoopInput::Prewarm { request: prewarm("agent-1"), config: Some(config()) });
    world.input(LoopInput::Prewarm { request: prewarm("agent-1"), config: Some(config()) });
    let before = world.cancels("agent-1");
    world.create(prompt("sp-1"));
    assert!(world.cancels("agent-1") > before, "real prompt cancels silent prewarm");
    world.finish("sp-1", "done");
    assert_eq!(world.finished("sp-1").len(), 1);
    assert_eq!(world.prewarm_starts(), 1, "duplicate prewarm must not start a second worker");
    world.pending.push(WorkerMessage::PrewarmDone { key: prewarm_key(None), terminal: None });
    world.settle();
    world.input(LoopInput::Prewarm { request: prewarm("agent-1"), config: Some(config()) });
    assert_eq!(world.prewarm_starts(), 2, "an ended worker frees its key");
}

#[test]
fn a_refused_cache_refresh_fails_once() {
    let mut world = World::new(chatgpt_profiles(), 1);
    let refresh = |id: &str| LoopInput::CacheRefresh {
        request: prewarm("agent-1"),
        refresh_id: text(id),
        stop_after_millis: 1_000,
        config: Some(config()),
    };
    let failed = |world: &World, id: &str| {
        world
            .reports
            .iter()
            .filter(|report| {
                matches!(
                    report,
                    Report::CacheRefreshFinished { refresh_id, status }
                        if refresh_id == id && *status == ProviderCacheRefreshStatus::Failed
                )
            })
            .count()
    };
    world.input(refresh("one"));
    world.input(refresh("one"));
    assert_eq!((world.prewarm_starts(), failed(&world, "one")), (1, 1), "a duplicate fails");
    world.input(refresh("two"));
    world.input(refresh("three"));
    assert_eq!((world.prewarm_starts(), failed(&world, "three")), (2, 1), "all workers taken");
}

#[test]
fn a_cancellation_reaches_the_workers_of_its_scope() {
    let plain = prewarm_key(None);
    let refresh = prewarm_key(Some("r"));
    let agent =
        PrewarmScope::Agent { provider: plain.provider.clone(), agent_id: text("agent-1") };
    assert!(agent.reaches(&plain) && !agent.reaches(&refresh));
    assert!(PrewarmScope::Refresh(text("r")).reaches(&refresh));
    assert!(!PrewarmScope::Refresh(text("r")).reaches(&plain));
    assert!(PrewarmScope::Provider(plain.provider.clone()).reaches(&refresh));
    assert!(!PrewarmScope::Provider(text("elsewhere")).reaches(&plain));
    assert!(PrewarmScope::All.reaches(&refresh));
}

#[test]
fn a_failed_park_gives_up_its_count() {
    let mut world = World::new(chatgpt_profiles(), 1);
    world.create(prompt("sp-1"));
    world.fail("sp-1", decision(RetryClass::Transport));
    assert_eq!(world.runtime.delayed_count, 1);
    world.runtime.handle_park_failed();
    assert_eq!(world.runtime.delayed_count, 0);
    world.runtime.handle_park_failed();
    assert_eq!(world.runtime.delayed_count, 0);
}

#[test]
fn profile_rotation_cancels_active_prewarm() {
    let mut world = World::new(chatgpt_profiles(), 1);
    world.input(LoopInput::Prewarm { request: prewarm("agent-1"), config: Some(config()) });
    world.runtime.settings = profiles_with_chatgpt_auth(
        OpenAiAuth { access_token: text("rotated-access"), ..chatgpt_auth() },
        text("oauth"),
    );
    let before = world.cancels("agent-1");
    world.create(Prompt { agent_id: text("agent-2"), ..prompt("sp-1") });
    assert!(world.cancels("agent-1") > before);
}

#[test]
fn cache_refresh_reports_correlated_terminal() {
    let mut world = World::new(chatgpt_profiles(), 1);
    world.input(LoopInput::CacheRefresh {
        request: prewarm("agent-1"),
        refresh_id: text("pcr-test"),
        stop_after_millis: 1_000,
        config: Some(config()),
    });
    let start = world
        .other
        .iter()
        .find_map(|effect| match effect {
            Effect::StartPrewarm(start) => Some(start),
            _ => None,
        })
        .expect("refresh worker");
    assert_eq!(start.key.refresh_id.as_deref(), Some("pcr-test"));
    assert_eq!(start.deadline.map(|due| due.nanos), Some(EPOCH.nanos + 1_000_000_000));
    world.pending.push(WorkerMessage::PrewarmDone {
        key: prewarm_key(Some("pcr-test")),
        terminal: Some((text("pcr-test"), ProviderCacheRefreshStatus::Succeeded)),
    });
    world.settle();
    let terminals = world
        .reports
        .iter()
        .filter(|report| {
            matches!(
                report,
                Report::CacheRefreshFinished { refresh_id, status }
                    if refresh_id == "pcr-test" && *status == ProviderCacheRefreshStatus::Succeeded
            )
        })
        .count();
    assert_eq!(terminals, 1);
}

#[test]
fn cache_refresh_cancel_precedes_real_prompt() {
    let mut world = World::new(chatgpt_profiles(), 1);
    world.input(LoopInput::CacheRefresh {
        request: prewarm("agent-1"),
        refresh_id: text("pcr-cancel-order"),
        stop_after_millis: 1_000,
        config: Some(config()),
    });
    world.input(LoopInput::CacheRefreshCanceled { refresh_id: text("pcr-cancel-order") });
    assert!(world.other.iter().any(|effect| matches!(
        effect,
        Effect::CancelPrewarms(PrewarmScope::Refresh(id)) if id == "pcr-cancel-order"
    )));
    world.create(prompt("sp-1"));
    assert_eq!(world.calls, vec![text("sp-1")]);
    world.finish("sp-1", "done");
    assert_eq!(world.finished("sp-1").len(), 1);
}

#[test]
fn an_unsupported_cache_refresh_is_refused() {
    let mut world = World::new(chatgpt_profiles(), 1);
    world.input(LoopInput::CacheRefresh {
        request: prewarm("agent-1"),
        refresh_id: text("pcr-none"),
        stop_after_millis: 1_000,
        config: None,
    });
    assert!(world.reports.iter().any(|report| matches!(
        report,
        Report::CacheRefreshFinished { refresh_id, .. } if refresh_id == "pcr-none"
    )));
    assert!(!world.other.iter().any(|effect| matches!(effect, Effect::StartPrewarm(_))));
}

#[test]
fn session_shutdown_cancels_and_joins_silent_prewarm() {
    let mut world = World::new(chatgpt_profiles(), 1);
    world.input(LoopInput::Prewarm { request: prewarm("agent-1"), config: Some(config()) });
    world.input(LoopInput::SessionShutdown);
    assert!(world
        .other
        .iter()
        .any(|effect| matches!(effect, Effect::CancelPrewarms(PrewarmScope::All))));
    world.input(LoopInput::Closed);
    assert!(world.end.is_none(), "a running prewarm keeps the loop");
    world.pending.push(WorkerMessage::PrewarmDone {
        key: prewarm_key(None),
        terminal: None,
    });
    world.settle();
    assert_eq!(world.end, Some(LoopEnd::Finished));
}

#[test]
fn a_stop_request_ends_the_loop_at_once() {
    let mut world = World::new(chatgpt_profiles(), 1);
    world.create(prompt("sp-1"));
    world.input(LoopInput::StopRequested);
    assert_eq!(world.end, Some(LoopEnd::Stopped));
}

#[test]
fn retry_status_is_bounded_safe_and_attempt_rate_limited() {
    let mut world = World::new(chatgpt_profiles(), 1);
    world.create(prompt("sp-1"));
    for class in [RetryClass::Transport, RetryClass::Unknown] {
        world.fail_on(
            "sp-1",
            decision(class),
            None,
            Some(text("provider overloaded safely")),
        );
        world.advance(60 * 60);
    }
    world.finish("sp-1", "done");
    assert_eq!(world.calls.len(), 3);
    let statuses = world
        .reports
        .iter()
        .filter_map(|report| match report {
            Report::ResponseUpdated(update) => update.status.as_ref(),
            _ => None,
        })
        .collect::<Vec<_>>();
    assert_eq!(statuses.len(), 2, "one status per failed real attempt");
    for status in statuses {
        assert!(status.clear_response);
        let shown = status.text.text("provider connection failed", "10s");
        assert!(shown.len() <= 256);
        assert!(!shown.chars().any(char::is_control));
        assert!(shown.contains("cancel the prompt to stop"));
        assert!(shown.contains("provider overloaded safely"));
    }
    assert!(matches!(world.reports.last(), Some(Report::ResponseFinished(_))));
}

fn owners(world: &World, id: &str) -> usize {
    let running = world.running.iter().filter(|(job, _)| job.agent_prompt_id == id).count();
    let queued = world.runtime.prompt_queue.iter().filter(|job| job.agent_prompt_id == id).count();
    let admitted = world
        .runtime
        .admission
        .admissions
        .iter()
        .filter(|admission| admission.kind.agent_prompt_id() == id)
        .count();
    let parked = (0..world.scheduler.queue.len())
        .filter(|i| world.scheduler.queue.entry(*i).job.agent_prompt_id == id)
        .count();
    running + queued + admitted + parked + world.finished(id).len()
}

#[test]
fn every_prompt_has_exactly_one_owner() {
    let ids = ["own-a", "own-b", "own-c", "own-d"];
    let mut world = World::new(chatgpt_profiles(), 2);
    let check = |world: &World, created: usize| {
        for (index, id) in ids.iter().enumerate() {
            assert_eq!(owners(world, id), usize::from(index < created), "{id}");
        }
        assert_eq!(world.runtime.delayed_count, world.scheduler.queue.len());
    };
    for (index, id) in ids.iter().enumerate() {
        world.create(prompt(id));
        check(&world, index + 1);
    }
    world.fail("own-a", decision_after(RetryClass::Transport, 30));
    check(&world, 4);
    world.fail("own-b", decision_after(RetryClass::UsageWindow, 86_400));
    check(&world, 4);
    world.retry_now("request", "own-a");
    check(&world, 4);
    world.cancel(Some("own-c"));
    check(&world, 4);
    world.advance(90_000);
    check(&world, 4);
    world.cancel(None);
    check(&world, 4);
}

#[test]
fn the_loop_ends_when_no_evidence_generation_is_left() {
    let mut world = World::new(chatgpt_profiles(), 1);
    world.create(prompt("late"));
    world.runtime.routes.shared_cooldown_generation = u64::MAX;
    world.fail("late", decision(RetryClass::UsageWindow));
    assert_eq!(world.end, Some(LoopEnd::EvidenceExhausted));
}

#[test]
fn a_cache_refresh_reports_why_it_ended() {
    let mut world = World::new(chatgpt_profiles(), 1);
    world.input(LoopInput::CacheRefresh {
        request: PrewarmRequest {
            agent_id: text("agent-1"),
            session_id: text("session-1"),
            model: Some(prompt("any").model),
            content: 4,
        },
        refresh_id: text("refresh"),
        stop_after_millis: 1_000,
        config: None,
    });
    assert!(matches!(
        world.reports.last(),
        Some(Report::CacheRefreshFinished { refresh_id, status })
            if refresh_id == "refresh" && *status == ProviderCacheRefreshStatus::Unsupported
    ));
    let outcome = tau_ext_provider_builtin::supervise::PrewarmOutcome::Installed;
    let status = tau_ext_provider_builtin::supervise::prewarm_status(outcome);
    let at = |nanos: u128| {
        tau_ext_provider_builtin::supervise::cache_refresh_status(
            status,
            Moment { nanos: 10 },
            Moment { nanos },
        )
    };
    assert_eq!(at(9), ProviderCacheRefreshStatus::Succeeded);
    assert_eq!(at(10), ProviderCacheRefreshStatus::DeadlineExceeded);
}
