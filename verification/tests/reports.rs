//! Reports to the harness: their texts, and what is committed after a cancellation.

use tau_ext_provider_builtin::cancellation::CancellationState;
use tau_ext_provider_builtin::clock::{Moment, Span};
use tau_ext_provider_builtin::names::NameTable;
use tau_ext_provider_builtin::oauth::{OAuthRefreshRejectionCache, OpenAiAuth};
use tau_ext_provider_builtin::profiles::{
    resolve_prompt_backend_without_refresh, BuiltinProviderProfile, BuiltinProviderProfiles,
    ChatGptProfile, GenericRoute, ModelEntry, ProviderCredential, ProviderCredentialReference,
    ProviderCredentialSlot, SecretReply,
};
use tau_ext_provider_builtin::prompt::{
    CodexRoutes, CooldownProbe, ModelId, Prompt, PromptBackend, PromptJob, PromptOperation,
};
use tau_ext_provider_builtin::report::{
    retry_banner, retry_status, retry_status_text, simple_finished, successful_probe_matches,
    validate_worker_output_and_probe_for_commit, validate_worker_output_for_commit, CommitState,
    ErrorText, ProviderResponseFinished, ProviderResponseStatusUpdate, ProviderResponseUpdated,
    ProviderStopReason, Report, RetryReason, StatusText,
};
use tau_ext_provider_builtin::retry::{PromptRetryState, RetryClass, SharedCooldown};

fn text(value: &str) -> String {
    value.to_owned()
}

fn finished(id: &str, error: &str) -> ProviderResponseFinished {
    simple_finished(
        text(id),
        text("agent-1"),
        text("user"),
        ErrorText::Provider(text(error)),
    )
}

fn succeeded(id: &str, stop_reason: ProviderStopReason) -> ProviderResponseFinished {
    let mut finished = finished(id, "replaced");
    finished.error = None;
    finished.stop_reason = stop_reason;
    finished
}

fn current() -> CommitState {
    CommitState { dispatch_generation: 0, current_generation: 0, input_closed: false }
}

#[test]
fn retry_banner_emits_status_not_message_delta() {
    let report = retry_banner(
        text("sp-retry"),
        text("main"),
        text("user"),
        "HTTP 500: temporary",
        Span::from_secs(1),
        1,
    );
    let Report::ResponseUpdated(update) = report else {
        panic!("expected provider response update");
    };
    assert!(update.deltas.is_none());
    let status = update.status.expect("status");
    assert!(status.clear_response);
    assert!(status.retry.is_none());
    let shown = status.text.text("", "");
    assert!(shown.contains("provider error"));
    assert_eq!(
        shown,
        "provider error \u{2014} retrying in 1s (attempt 1). Tau will keep trying; cancel to stop.\n\n> HTTP 500: temporary"
    );
}

#[test]
fn successful_probe_requires_current_generation_and_successful_terminal() {
    let prompt_id = text("probe");
    let probe = CooldownProbe { provider: text("limited"), generation: 7 };
    let mut cooldowns = NameTable::new();
    cooldowns.insert(
        text("limited"),
        SharedCooldown {
            not_before: Moment { nanos: 60_000_000_000 },
            class: RetryClass::UsageWindow,
            generation: 7,
        },
    );
    for stop_reason in [
        ProviderStopReason::EndTurn,
        ProviderStopReason::ToolCalls,
        ProviderStopReason::Length,
    ] {
        let report = Report::ResponseFinished(succeeded("probe", stop_reason));
        assert!(
            successful_probe_matches(&report, &prompt_id, &probe, &cooldowns),
            "{stop_reason:?} is authoritative after commit validation"
        );
    }
    let success = Report::ResponseFinished(succeeded("probe", ProviderStopReason::EndTurn));
    assert!(!successful_probe_matches(&success, &text("different"), &probe, &cooldowns));
    let stale = CooldownProbe { provider: text("limited"), generation: 6 };
    assert!(!successful_probe_matches(&success, &prompt_id, &stale, &cooldowns));
    let error = Report::ResponseFinished(finished("probe", "provider error"));
    assert!(!successful_probe_matches(&error, &prompt_id, &probe, &cooldowns));
    for stop_reason in [ProviderStopReason::Error, ProviderStopReason::RepetitionDetected] {
        let report = Report::ResponseFinished(succeeded("probe", stop_reason));
        assert!(!successful_probe_matches(&report, &prompt_id, &probe, &cooldowns));
    }
    let mut typed_failure = succeeded("probe", ProviderStopReason::EndTurn);
    typed_failure.failure_kind = Some(1);
    assert!(!successful_probe_matches(
        &Report::ResponseFinished(typed_failure),
        &prompt_id,
        &probe,
        &cooldowns
    ));

    let mut cancellation = CancellationState::new();
    cancellation.cancel(prompt_id.clone());
    let (canceled, released_provider) = validate_worker_output_and_probe_for_commit(
        success,
        current(),
        &prompt_id,
        &mut cancellation,
        &Some(probe.clone()),
        &cooldowns,
    );
    let canceled = canceled.expect("successful output becomes a canceled terminal");
    assert!(
        released_provider.is_none(),
        "cancellation validation must precede release authority"
    );
    assert!(!successful_probe_matches(&canceled, &prompt_id, &probe, &cooldowns));
}

#[test]
fn targeted_cancel_between_output_enqueue_and_main_drain_is_terminal_once() {
    let update = |deltas: Option<u64>, clear: bool| {
        Report::ResponseUpdated(ProviderResponseUpdated {
            agent_prompt_id: text("target"),
            agent_id: text("agent-1"),
            originator: text("user"),
            deltas,
            compaction: None,
            status: clear.then(|| ProviderResponseStatusUpdate {
                text: StatusText::Text(text("discarding tentative output")),
                clear_response: true,
                retry: None,
                native_tool: None,
            }),
            response_stats: None,
        })
    };
    let queued = vec![
        (text("target"), update(Some(5), false)),
        (text("target"), update(None, true)),
        (text("target"), Report::ResponseFinished(finished("target", "stale success"))),
        (text("peer"), Report::ResponseFinished(finished("peer", "peer success"))),
    ];
    let mut cancellation = CancellationState::new();
    cancellation.cancel(text("target"));
    let mut committed = Vec::new();
    for (id, report) in queued {
        if let Some(report) =
            validate_worker_output_for_commit(report, current(), &id, &mut cancellation)
        {
            committed.push(report);
        }
    }
    assert_eq!(
        committed
            .iter()
            .filter(|report| matches!(
                report,
                Report::ResponseUpdated(update)
                    if update.agent_prompt_id == "target"
                        && !update.status.as_ref().is_some_and(|status| status.clear_response)
            ))
            .count(),
        0,
        "queued tentative target delta must be discarded"
    );
    let clear_position = committed
        .iter()
        .position(|report| {
            matches!(
                report,
                Report::ResponseUpdated(update)
                    if update.agent_prompt_id == "target"
                        && update.status.as_ref().is_some_and(|status| status.clear_response)
            )
        })
        .expect("intentional target clear must commit");
    let is_canceled = |report: &Report| {
        matches!(
            report,
            Report::ResponseFinished(finished)
                if finished.agent_prompt_id == "target"
                    && finished.error.as_ref().map(|error| error.text()).as_deref()
                        == Some("(cancelled by harness)")
        )
    };
    let canceled_position = committed
        .iter()
        .position(is_canceled)
        .expect("canceled final must commit");
    assert!(clear_position < canceled_position);
    assert_eq!(
        committed.iter().filter(|report| is_canceled(report)).count(),
        1,
        "target lifecycle must close exactly once as canceled"
    );
    assert!(committed.iter().any(|report| matches!(
        report,
        Report::ResponseFinished(finished)
            if finished.agent_prompt_id == "peer"
                && finished.error.as_ref().map(|error| error.text()).as_deref()
                    == Some("peer success")
    )));
    assert!(
        !cancellation.is_canceled(&text("target")),
        "targeted marker is consumed only by terminal commit"
    );

    let reused = validate_worker_output_for_commit(
        Report::ResponseFinished(finished("target", "reused prompt success")),
        current(),
        &text("target"),
        &mut cancellation,
    )
    .expect("reused prompt ID may commit");
    assert!(matches!(
        &reused,
        Report::ResponseFinished(finished)
            if finished.agent_prompt_id == "target"
                && finished.error.as_ref().map(|error| error.text()).as_deref()
                    == Some("reused prompt success")
    ));
}

#[test]
fn output_of_an_older_generation_or_after_eof_is_canceled() {
    for commit in [
        CommitState { dispatch_generation: 0, current_generation: 1, input_closed: false },
        CommitState { dispatch_generation: 0, current_generation: 0, input_closed: true },
    ] {
        let mut cancellation = CancellationState::new();
        let report = validate_worker_output_for_commit(
            Report::ResponseFinished(succeeded("late", ProviderStopReason::EndTurn)),
            commit,
            &text("late"),
            &mut cancellation,
        );
        assert!(matches!(
            report,
            Some(Report::ResponseFinished(finished))
                if matches!(finished.error, Some(ErrorText::CanceledByHarness))
        ));
    }
}

fn scheduled_job(prompt_id: &str, provider: &str) -> PromptJob {
    PromptJob {
        agent_prompt_id: text(prompt_id),
        debug_provider_requests: false,
        prompt: Prompt {
            agent_prompt_id: text(prompt_id),
            agent_id: text("agent-1"),
            session_id: text("session-1"),
            originator: text("user"),
            model: ModelId { provider: text(provider), model: text("gpt-5.6-sol") },
            operation: PromptOperation::Inference,
            tools_ref: None,
            content: 0,
        },
        backend: PromptBackend::Unavailable { login_required: None },
        pinned_chatgpt_identity: None,
        profile_identity: None,
        retry_state: PromptRetryState::new(),
        observed_backend: None,
        cancel_generation: 0,
        manual_cooldown_bypass: false,
        cooldown_probe: None,
    }
}

/// What the status of a scheduled retry shows.
fn shown(job: &PromptJob, detail: Option<String>) -> String {
    let now = Moment { nanos: 0 };
    let due = Moment { nanos: 1_000_000_000 };
    match retry_status(job, RetryClass::Auth, due, now, detail) {
        Report::ResponseUpdated(update) => update
            .status
            .expect("status")
            .text
            .text("provider authentication is unavailable", "1s"),
        _ => panic!("a status update"),
    }
}

#[test]
fn missing_chatgpt_login_status_is_actionable_and_redacted() {
    let secret_backend_detail = "Secret providers/credential-id/oauth.json missing";
    let mut profiles = BuiltinProviderProfiles::new();
    profiles.insert(
        text("chatgpt-fedi"),
        BuiltinProviderProfile::Chatgpt(ChatGptProfile {
            auth: OpenAiAuth::empty(),
            responses_lite_compatibility: false,
        }),
        ProviderCredential::Stored(ProviderCredentialReference {
            slot: ProviderCredentialSlot::OAuth,
            path: text("oauth"),
        }),
    );
    profiles.insert(
        text("local"),
        BuiltinProviderProfile::ChatCompletions(GenericRoute {
            base_url: text("https://local.invalid/v1"),
            api_key: String::new(),
            models: vec![ModelEntry {
                id: text("model"),
                supports_standalone_compaction: false,
                standalone_compaction_threshold: None,
                detail: 0,
                summary_error: None,
            }],
            snapshot: 0,
            valid: true,
        }),
        ProviderCredential::Stored(ProviderCredentialReference {
            slot: ProviderCredentialSlot::ApiKey,
            path: text("key"),
        }),
    );
    let mut replies = NameTable::new();
    replies.insert(text("oauth"), SecretReply::Failed { not_found: true });
    replies.insert(text("key"), SecretReply::Failed { not_found: true });
    profiles.hydrate_profile_credentials_with(&replies);
    assert!(profiles.missing_login("chatgpt-fedi"));
    assert!(!profiles.missing_login("local"));
    assert_eq!(profiles.len(), 0);

    let resolve = |job: &mut PromptJob, profiles: &BuiltinProviderProfiles| {
        job.backend = resolve_prompt_backend_without_refresh(
            &job.prompt.model,
            &CodexRoutes::new(),
            profiles,
            &mut OAuthRefreshRejectionCache::new(),
            0,
        )
        .unwrap_or_else(|| PromptBackend::Unavailable {
            login_required: profiles
                .missing_login(&job.prompt.model.provider)
                .then(|| job.prompt.model.provider.clone()),
        });
    };
    let mut job = scheduled_job("missing-login", "chatgpt-fedi");
    resolve(&mut job, &profiles);
    job.retry_state.attempts = 1;
    let initial = shown(&job, None);
    job.retry_state.attempts = 2;
    let retry = shown(&job, Some(text(secret_backend_detail)));
    for shown in [&initial, &retry] {
        assert!(shown.contains("provider chatgpt-fedi is not logged in"));
        assert!(shown.contains("tau provider login chatgpt-fedi"));
        assert!(!shown.contains(secret_backend_detail));
        assert!(shown.contains("Tau will keep trying; cancel the prompt to stop."));
    }
    assert!(initial.contains("attempt 1"));
    assert!(retry.contains("attempt 2"));

    let mut generic_job = scheduled_job("missing-api-key", "local");
    generic_job.prompt.model.model = text("model");
    generic_job.retry_state.attempts = 2;
    resolve(&mut generic_job, &profiles);
    assert!(matches!(
        generic_job.backend,
        PromptBackend::Unavailable { login_required: None }
    ));
    let generic = shown(&generic_job, None);
    assert_eq!(
        generic,
        "provider authentication is unavailable; next attempt in about 1s (attempt 2). Tau will keep trying; cancel the prompt to stop.",
        "unclassified Secret failures retain the generic status rather than a login claim"
    );
    assert!(!generic.contains(secret_backend_detail));
}

#[test]
fn redacted_detail_follows_the_public_reason() {
    let reason = RetryReason::Class {
        class: RetryClass::Overload,
        detail: Some(text("busy")),
    };
    assert_eq!(
        retry_status_text(&reason, 12, "provider is overloaded", "30s"),
        "provider is overloaded: busy; next attempt in about 30s (attempt 12). Tau will keep trying; cancel the prompt to stop."
    );
}

#[test]
fn every_fixed_status_has_its_words() {
    for (status, words) in [
        (StatusText::Connecting, "Connecting to provider\u{2026}"),
        (StatusText::SearchingWeb, "Searching web\u{2026}"),
        (StatusText::WebSearchComplete, "Web search complete\u{2026}"),
        (
            StatusText::CanceledPartial,
            "request canceled; discarding partial provider output",
        ),
        (
            StatusText::CanceledTentative,
            "request canceled; discarding tentative provider output",
        ),
        (
            StatusText::FailedPartial,
            "provider stream ended with an error; discarding partial output",
        ),
        (
            StatusText::InterruptedPartial,
            "provider stream interrupted after partial output; preparing retry",
        ),
    ] {
        assert_eq!(status.text("", ""), words);
    }
}

#[test]
fn wakers_fire_once_for_a_canceled_prompt() {
    let mut cancellation = CancellationState::new();
    let (first, now) = cancellation.register_abort_waker(&text("a"), 0);
    assert!(!now);
    let (second, _) = cancellation.register_abort_waker(&text("b"), 0);
    assert_eq!(cancellation.cancel(text("a")), vec![first]);
    let (_, late) = cancellation.register_abort_waker(&text("a"), 0);
    assert!(late, "a backend that registers after its cancellation is woken at once");
    assert!(cancellation.take_canceled(&text("a")));
    assert!(!cancellation.take_canceled(&text("a")));
    assert!(cancellation.cancel_all().contains(&second));
    assert!(cancellation.is_aborted(&text("b"), 0), "a broadcast aborts older attempts");
    assert!(!cancellation.is_aborted(&text("b"), cancellation.retry_generation()));
    cancellation.unregister_abort_waker(&text("b"), second);
    assert!(!cancellation.shutdown().contains(&second));
    assert!(cancellation.is_canceled(&text("anything")));
}
