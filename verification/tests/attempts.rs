//! Finite provider attempts, their progress updates, and the reports they end with.

use tau_ext_provider_builtin::attempt::{
    bounded_provider_error, cache_miss_diagnostic, finish_generic_attempt, handle_compact_prompt,
    handle_prompt_backend, retry_unavailable, stop_reason_from_output_items, AttemptContext,
    AttemptPlan, ChatGptAttempt, CodexAttemptOutcome, CodexError, CompactOutcome, ContextBlock,
    GenericOutcome, OutputItemKind, StreamEnd,
};
use tau_ext_provider_builtin::clock::{Moment, Span};
use tau_ext_provider_builtin::prompt::{
    BackendProfileIdentity, CodexIdentity, ModelId, Prompt, PromptBackend, PromptOperation, ProviderBackend,
    ProviderBackendTransport, ResolvedConfig, RouteSnapshot,
};
use tau_ext_provider_builtin::report::{
    simple_finished, ErrorText, ProviderResponseFinished, ProviderStopReason, Report, StatusText,
    TokenUsage,
};
use tau_ext_provider_builtin::retry::{RetryClass, RetryDecision};
use tau_ext_provider_builtin::stream::{
    RateLimitedResponseUpdateEmitter, StreamContent, StreamSample, WebSearchLifecycle,
};

fn text(value: &str) -> String {
    value.to_owned()
}

fn at(millis: u64) -> Moment {
    Moment { nanos: Span::from_millis(millis).nanos }
}

fn prompt() -> Prompt {
    Prompt {
        agent_prompt_id: text("sp-1"),
        agent_id: text("agent-1"),
        session_id: text("session-1"),
        originator: text("user"),
        model: ModelId { provider: text("chatgpt"), model: text("gpt-5.6-sol") },
        operation: PromptOperation::Inference,
        tools_ref: None,
        content: 0,
    }
}

fn backend(endpoint: &str) -> ProviderBackend {
    ProviderBackend {
        endpoint: text(endpoint),
        transport: ProviderBackendTransport::Http,
        stale_chain_fallback: false,
    }
}

fn context(provider_attempt: u32, prior: Option<ProviderBackend>) -> AttemptContext {
    AttemptContext {
        agent_prompt_id: text("sp-1"),
        prompt: prompt(),
        prior_backend: prior,
        provider_attempt,
    }
}

fn decision() -> RetryDecision {
    RetryDecision {
        class: RetryClass::Transport,
        retry_after: None,
        delay_ceiling: Span::from_secs(60),
        shares_cooldown: false,
    }
}

fn finished(report: &Report) -> &ProviderResponseFinished {
    match report {
        Report::ResponseFinished(finished) => finished,
        _ => panic!("a terminal"),
    }
}

fn cleared(report: &Report) -> String {
    match report {
        Report::ResponseUpdated(update) => {
            let status = update.status.as_ref().expect("a status");
            assert!(status.clear_response);
            assert!(update.deltas.is_none());
            status.text.text("", "")
        }
        _ => panic!("a status update"),
    }
}

fn endpoint(finished: &ProviderResponseFinished) -> Option<&str> {
    finished.backend.as_ref().map(|backend| backend.endpoint.as_str())
}

#[test]
fn pre_egress_chat_cancellation_retains_attempt_without_backend() {
    let mut reports = Vec::new();
    let retry = finish_generic_attempt(
        &context(3, None),
        &backend("https://chat.example/v1"),
        GenericOutcome::NotStarted,
        &mut reports,
    );
    assert!(retry.is_none());
    assert_eq!(reports.len(), 1);
    let finished = finished(&reports[0]);
    assert_eq!(finished.provider_attempt, 3);
    assert!(finished.backend.is_none());
    assert!(matches!(finished.error, Some(ErrorText::CanceledByHarness)));
}

#[test]
fn a_generic_attempt_discards_rendered_output_before_its_end() {
    let route = backend("https://chat.example/v1");
    let earlier = Some(backend("https://earlier.example"));
    let response = || {
        simple_finished(
            text("sp-1"),
            text("agent-1"),
            text("user"),
            ErrorText::Provider(text("bad request")),
        )
    };
    let mut reports = Vec::new();
    let retry = finish_generic_attempt(
        &context(1, earlier.clone()),
        &route,
        GenericOutcome::Retry {
            decision: decision(),
            has_partial_output: true,
            backend_reached: false,
        },
        &mut reports,
    )
    .expect("a retry");
    assert_eq!(
        cleared(&reports[0]),
        "provider stream interrupted after partial output; preparing retry"
    );
    assert_eq!(reports.len(), 1);
    assert_eq!(
        retry.terminal_backend.map(|backend| backend.endpoint).as_deref(),
        Some("https://earlier.example")
    );

    let mut reports = Vec::new();
    finish_generic_attempt(
        &context(1, earlier.clone()),
        &route,
        GenericOutcome::Terminal { finished: response(), has_partial_output: true },
        &mut reports,
    );
    assert_eq!(
        cleared(&reports[0]),
        "provider stream ended with an error; discarding partial output"
    );
    assert_eq!(endpoint(finished(&reports[1])), Some("https://earlier.example"));

    let mut reports = Vec::new();
    finish_generic_attempt(
        &context(1, None),
        &route,
        GenericOutcome::Finished { finished: response(), canceled: true },
        &mut reports,
    );
    assert_eq!(
        cleared(&reports[0]),
        "request canceled; discarding tentative provider output"
    );
    assert!(matches!(finished(&reports[1]).error, Some(ErrorText::CanceledByHarness)));

    let mut reports = Vec::new();
    finish_generic_attempt(
        &context(1, None),
        &route,
        GenericOutcome::Finished { finished: response(), canceled: false },
        &mut reports,
    );
    assert_eq!(reports.len(), 1);

    let mut reports = Vec::new();
    finish_generic_attempt(
        &context(2, earlier),
        &route,
        GenericOutcome::Canceled {
            has_partial_output: true,
            backend_reached: true,
            provider_attempt: 2,
        },
        &mut reports,
    );
    assert_eq!(
        cleared(&reports[0]),
        "request canceled; discarding partial provider output"
    );
    assert_eq!(endpoint(finished(&reports[1])), Some("https://chat.example/v1"));
    assert_eq!(finished(&reports[1]).provider_attempt, 2);
}

fn codex_error(message: &str, repetition: Option<&str>) -> CodexError {
    CodexError {
        text: text(message),
        repetition: repetition.map(text),
        failure_kind: Some(2),
    }
}

#[test]
fn a_compaction_attempt_reports_an_unavailable_route_once() {
    let route = backend("https://chatgpt.example");
    let mut reports = Vec::new();
    let (retry, downgraded) = handle_compact_prompt(
        &context(4, None),
        &route,
        CompactOutcome::RouteUnavailable {
            error: codex_error("no compact route", None),
            newly_downgraded: true,
            profile_identity: BackendProfileIdentity::from_test_value(9),
            backend_reached: true,
        },
        &mut reports,
    );
    assert!(retry.is_none());
    assert_eq!(downgraded, Some(BackendProfileIdentity::from_test_value(9)));
    let terminal = finished(&reports[0]);
    assert_eq!(
        terminal.error.as_ref().map(|error| error.text()).as_deref(),
        Some("LLM error: no compact route")
    );
    assert_eq!(terminal.failure_kind, Some(2));
    assert_eq!(terminal.provider_attempt, 4);
    assert_eq!(endpoint(terminal), Some("https://chatgpt.example"));

    let mut reports = Vec::new();
    let (_, repeated) = handle_compact_prompt(
        &context(4, None),
        &route,
        CompactOutcome::RouteUnavailable {
            error: codex_error("no compact route", None),
            newly_downgraded: false,
            profile_identity: BackendProfileIdentity::from_test_value(9),
            backend_reached: false,
        },
        &mut reports,
    );
    assert_eq!(repeated, None);

    let mut reports = Vec::new();
    let (retry, _) = handle_compact_prompt(
        &context(1, None),
        &route,
        CompactOutcome::Retry { decision: decision(), backend_reached: true },
        &mut reports,
    );
    assert!(retry.is_some());
    assert!(reports.is_empty());

    let mut reports = Vec::new();
    handle_compact_prompt(
        &context(1, None),
        &route,
        CompactOutcome::Finished { output: None, usage: None },
        &mut reports,
    );
    assert_eq!(reports.len(), 1);
    assert!(finished(&reports[0]).error.is_none());
}

fn sample(bytes: u64) -> StreamSample {
    StreamSample {
        has_timed_semantic_output: bytes > 0,
        response_bytes_received: bytes,
        web_search_lifecycle: None,
        web_search_active: false,
    }
}

const NOTHING: StreamContent = StreamContent { deltas: None, compaction: None };
const SOME_TEXT: StreamContent = StreamContent { deltas: Some(1), compaction: None };

fn attempt() -> ChatGptAttempt {
    ChatGptAttempt::begin(context(2, None), backend("https://chatgpt.example"), at(0))
}

#[test]
fn an_inference_attempt_flushes_progress_before_its_terminal() {
    let mut attempt = attempt();
    assert!(matches!(
        attempt.connecting(),
        Report::ResponseUpdated(update)
            if matches!(update.status, Some(ref status)
                if matches!(status.text, StatusText::Connecting) && !status.clear_response)
    ));
    attempt.dispatched(at(10));
    assert!(attempt.progressed(&sample(5), SOME_TEXT, at(20)).is_some());
    assert!(attempt.progressed(&sample(9), SOME_TEXT, at(500)).is_none(), "too soon");
    let mut reports = Vec::new();
    let usage = TokenUsage { prompt_sent_tokens: 2048, prompt_cached_tokens: 0, output_tokens: 3 };
    let retry = attempt.handle_prompt(
        CodexAttemptOutcome::Finished {
            sample: sample(12),
            content: SOME_TEXT,
            end: StreamEnd {
                output: None,
                items: vec![OutputItemKind::Message, OutputItemKind::ToolCall],
                usage: Some(usage),
                response_id: Some(text("resp")),
                stale_chain_fallback: true,
                ws_pool_delta: None,
                blocks: vec![ContextBlock::AssistantResponse {
                    has_response_id: true,
                    usage: Some(usage),
                }],
                tool_choice: 0,
            },
        },
        at(600),
        &mut reports,
    );
    assert!(retry.is_none());
    assert_eq!(reports.len(), 3);
    assert!(matches!(
        &reports[0],
        Report::ResponseUpdated(update)
            if update.response_stats.is_some_and(|stats| stats.current.response_bytes_received == 12
                && stats.previous.response_bytes_received == 5
                && stats.current.elapsed_micros == 590_000
                && stats.first_semantic_output_elapsed_micros == Some(10_000))
    ));
    assert!(matches!(
        &reports[1],
        Report::CacheMissDiagnostic(miss) if miss.cacheable_input_tokens == 2048
    ));
    let terminal = finished(&reports[2]);
    assert_eq!(terminal.stop_reason, ProviderStopReason::ToolCalls);
    assert_eq!(terminal.provider_attempt, 2);
    assert_eq!(terminal.provider_response_id.as_deref(), Some("resp"));
    assert!(terminal.backend.as_ref().is_some_and(|backend| backend.stale_chain_fallback));
}

#[test]
fn a_repeating_stream_is_aborted_without_a_retry() {
    let mut attempt = attempt();
    attempt.dispatched(at(0));
    let mut reports = Vec::new();
    let retry = attempt.handle_prompt(
        CodexAttemptOutcome::Terminal {
            error: codex_error("repeated", Some("'.' x 1024")),
            has_partial_output: true,
            backend_reached: true,
        },
        at(1),
        &mut reports,
    );
    assert!(retry.is_none());
    assert_eq!(reports.len(), 3);
    assert_eq!(
        cleared(&reports[1]),
        "provider stream repetition detected; aborting response ('.' x 1024)"
    );
    assert_eq!(finished(&reports[2]).stop_reason, ProviderStopReason::RepetitionDetected);
}

#[test]
fn a_transient_failure_hands_its_evidence_on() {
    let mut attempt = attempt();
    let mut reports = Vec::new();
    let retry = attempt
        .handle_prompt(
            CodexAttemptOutcome::Retry {
                decision: decision(),
                has_partial_output: false,
                live_detail: Some(text("busy")),
                canonical_unauthorized: true,
            },
            at(1),
            &mut reports,
        )
        .expect("a retry");
    assert!(reports.is_empty());
    assert_eq!(retry.live_detail.as_deref(), Some("busy"));
    assert!(retry.canonical_unauthorized);
    assert!(retry.terminal_backend.is_none(), "nothing was dispatched");
    let mut reports = Vec::new();
    attempt.handle_prompt(
        CodexAttemptOutcome::Canceled { has_partial_output: false },
        at(2),
        &mut reports,
    );
    assert!(matches!(finished(&reports[0]).error, Some(ErrorText::CanceledByHarness)));
}

#[test]
fn progress_is_limited_to_one_update_per_second() {
    let mut emitter = RateLimitedResponseUpdateEmitter::new_at(at(0));
    let id = text("sp-1");
    let mut emit = |sample: &StreamSample, content: StreamContent, now: u64, flush: bool| {
        emitter.emit_at(&id, &prompt(), sample, content, at(now), flush).is_some()
    };
    assert!(!emit(&sample(0), NOTHING, 999, false), "nothing yet");
    assert!(emit(&sample(0), NOTHING, 1_000, false), "a silent stream shows its age");
    assert!(emit(&sample(1), SOME_TEXT, 1_001, false), "the first bytes are shown at once");
    assert!(!emit(&sample(2), SOME_TEXT, 2_000, false));
    assert!(emit(&sample(2), SOME_TEXT, 2_001, false));
    let mut searching = sample(2);
    searching.web_search_active = true;
    searching.web_search_lifecycle =
        Some(WebSearchLifecycle { revision: 1, call_id: text("ws"), active: true });
    assert!(emit(&searching, NOTHING, 2_002, false), "a hosted search is shown at once");
    assert!(!emit(&searching, NOTHING, 2_003, false), "and only once");
    assert!(emit(&searching, SOME_TEXT, 2_004, true), "the end flushes");
}

#[test]
fn provider_texts_are_bounded() {
    assert_eq!(bounded_provider_error(&"x".repeat(512)), "x".repeat(512));
    let long = bounded_provider_error(&"\u{e9}".repeat(513));
    assert_eq!(long.chars().count(), 513);
    assert!(long.ends_with('\u{2026}'));
}

#[test]
fn a_response_ends_the_turn_unless_it_calls_tools() {
    assert_eq!(
        stop_reason_from_output_items(&vec![OutputItemKind::Reasoning, OutputItemKind::Message]),
        ProviderStopReason::EndTurn
    );
    assert_eq!(
        stop_reason_from_output_items(&vec![OutputItemKind::ToolCall, OutputItemKind::Other]),
        ProviderStopReason::ToolCalls
    );
}

#[test]
fn a_cache_miss_compares_whole_chunks_with_the_previous_response() {
    let response = |sent: u64| ContextBlock::AssistantResponse {
        has_response_id: true,
        usage: Some(TokenUsage {
            prompt_sent_tokens: sent,
            prompt_cached_tokens: 0,
            output_tokens: 0,
        }),
    };
    let finish = |sent: u64, cached: u64| {
        let mut finished = simple_finished(
            text("sp-1"),
            text("agent-1"),
            text("user"),
            ErrorText::CanceledByHarness,
        );
        finished.usage = Some(TokenUsage {
            prompt_sent_tokens: sent,
            prompt_cached_tokens: cached,
            output_tokens: 0,
        });
        finished
    };
    let model = prompt().model;
    let blocks = vec![response(9_999), ContextBlock::UserInput, response(1_600)];
    let miss = cache_miss_diagnostic(&model, &blocks, 4, &finish(2_000, 768)).expect("a miss");
    assert_eq!(miss.previous_input_tokens, 1_600);
    assert_eq!(miss.cacheable_input_tokens, 1_536);
    assert_eq!(miss.cached_tokens, 768);
    assert_eq!(miss.input_tokens, 2_000);
    assert_eq!(miss.tool_choice, 4);
    assert!(cache_miss_diagnostic(&model, &blocks, 4, &finish(2_000, 769)).is_none());
    assert!(cache_miss_diagnostic(&model, &blocks, 4, &finish(511, 0)).is_none());
    assert!(cache_miss_diagnostic(&model, &Vec::new(), 4, &finish(2_000, 0)).is_none());
    let unnamed = vec![ContextBlock::AssistantResponse { has_response_id: false, usage: None }];
    assert!(cache_miss_diagnostic(&model, &unnamed, 4, &finish(2_000, 0)).is_none());
}

#[test]
fn a_backend_and_its_operation_choose_the_attempt() {
    let responses = PromptBackend::Responses(ResolvedConfig {
        model: prompt().model,
        access_token: text("t"),
        account_id: None,
        lite_compatibility: false,
        identity: CodexIdentity { inference: 1, quota: 1, retry_anchor: 1 },
    });
    let route =
        || RouteSnapshot { base_url: text("u"), api_key: text("k"), snapshot: 0 };
    let compact = PromptOperation::StandaloneCompaction;
    assert!(matches!(
        handle_prompt_backend(&responses, PromptOperation::Inference),
        AttemptPlan::Inference
    ));
    assert!(matches!(handle_prompt_backend(&responses, compact), AttemptPlan::Compact));
    assert!(matches!(
        handle_prompt_backend(
            &PromptBackend::ChatCompletions { route: route(), model_index: 2 },
            compact
        ),
        AttemptPlan::ChatCompletions { model_index: 2 }
    ));
    assert!(matches!(
        handle_prompt_backend(
            &PromptBackend::PublicResponses { route: route(), model_index: 1 },
            PromptOperation::Inference
        ),
        AttemptPlan::PublicResponses { model_index: 1 }
    ));
    assert!(matches!(
        handle_prompt_backend(
            &PromptBackend::Unavailable { login_required: None },
            PromptOperation::Inference
        ),
        AttemptPlan::Retry
    ));
    let retry = retry_unavailable(decision());
    assert!(!retry.canonical_unauthorized && retry.live_detail.is_none());
}
