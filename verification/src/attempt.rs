//! Outcomes of one finite provider attempt and the reports that they lead to.

use vstd::prelude::*;

use crate::clock::Moment;
use crate::prompt::{
    observed, observed_backend, BackendProfileIdentity, ModelId, Prompt, PromptBackend,
    PromptOperation, ProviderBackend,
};
use crate::report::{
    canceled_correlated, canceled_finished, ErrorText, ProviderCacheMissDiagnostic, ProviderOutput,
    ProviderResponseFinished, ProviderResponseStatusUpdate, ProviderResponseUpdated,
    ProviderStopReason, Report, StatusText, TokenUsage, FIRST_ATTEMPT,
};
use crate::retry::RetryDecision;
use crate::stream::{
    connecting_report, connecting_update, due, emitted, fresh_emitter, observed_at, says_nothing,
    stepped, update_report, RateLimitedResponseUpdateEmitter, StreamContent, StreamSample,
};

verus! {

/// Retry evidence returned by one finite provider attempt.
pub struct PromptAttemptRetry {
    pub decision: RetryDecision,
    /// Bounded provider detail for live status only.
    pub live_detail: Option<String>,
    /// Whether the provider canonically rejected the credentials.
    pub canonical_unauthorized: bool,
    /// Backend reached by this attempt, or by an earlier one of the turn.
    pub terminal_backend: Option<ProviderBackend>,
}

/// The prompt that an attempt serves.
pub struct AttemptContext {
    pub agent_prompt_id: String,
    pub prompt: Prompt,
    /// Backend reached by an earlier attempt of the turn.
    pub prior_backend: Option<ProviderBackend>,
    /// One-based ordinal of this attempt.
    pub provider_attempt: u32,
}

/// Longest provider text shown, in characters.
pub const MAX_PROVIDER_ERROR_CHARS: usize = 512;

/// A provider text cut to its longest length, with an ellipsis where something was cut.
pub open spec fn bounded(text: Seq<char>) -> Seq<char> {
    if text.len() <= MAX_PROVIDER_ERROR_CHARS {
        text
    } else {
        text.take(MAX_PROVIDER_ERROR_CHARS as int) + "…"@
    }
}

/// Cuts a provider text to its longest length.
pub fn bounded_provider_error(text: &str) -> (res: String)
    ensures
        res@ == bounded(text@),
{
    if text.unicode_len() <= MAX_PROVIDER_ERROR_CHARS {
        return text.to_owned();
    }
    let mut out = text.substring_char(0, MAX_PROVIDER_ERROR_CHARS).to_owned();
    out.append("…");
    out
}

/// A cut text has at most one character more than the longest length, and is cut only when it is
/// longer.
pub proof fn bounded_is_short(text: Seq<char>)
    ensures
        bounded(text).len() <= MAX_PROVIDER_ERROR_CHARS + 1,
        text.len() <= MAX_PROVIDER_ERROR_CHARS ==> bounded(text) == text,
{
    reveal_strlit("…");
}

/// The report that already rendered output is discarded.
pub open spec fn clear_report(context: AttemptContext, text: StatusText) -> Report {
    Report::ResponseUpdated(
        ProviderResponseUpdated {
            agent_prompt_id: context.agent_prompt_id,
            agent_id: context.prompt.agent_id,
            originator: context.prompt.originator,
            deltas: None,
            compaction: None,
            status: Some(
                ProviderResponseStatusUpdate {
                    text,
                    clear_response: true,
                    retry: None,
                    native_tool: None,
                },
            ),
            response_stats: None,
        },
    )
}

/// Output is discarded only when some was rendered.
pub open spec fn cleared_partial(
    context: AttemptContext,
    has_partial_output: bool,
    text: StatusText,
) -> Seq<Report> {
    if has_partial_output {
        seq![clear_report(context, text)]
    } else {
        Seq::empty()
    }
}

fn clear_partial_backend_response(
    context: &AttemptContext,
    has_partial_output: bool,
    text: StatusText,
    out: &mut Vec<Report>,
)
    ensures
        final(out)@ == old(out)@ + cleared_partial(*context, has_partial_output, text),
{
    if has_partial_output {
        out.push(
            Report::ResponseUpdated(
                ProviderResponseUpdated {
                    agent_prompt_id: context.agent_prompt_id.clone(),
                    agent_id: context.prompt.agent_id.clone(),
                    originator: context.prompt.originator.clone(),
                    deltas: None,
                    compaction: None,
                    status: Some(
                        ProviderResponseStatusUpdate {
                            text,
                            clear_response: true,
                            retry: None,
                            native_tool: None,
                        },
                    ),
                    response_stats: None,
                },
            ),
        );
    }
    assert(out@ =~= old(out)@ + cleared_partial(*context, has_partial_output, text));
}

/// The reports of a canceled attempt.
pub open spec fn canceled_reports(
    context: AttemptContext,
    has_partial_output: bool,
    backend: Option<ProviderBackend>,
    provider_attempt: u32,
) -> Seq<Report> {
    cleared_partial(context, has_partial_output, StatusText::CanceledPartial).push(
        Report::ResponseFinished(
            canceled_finished(context.agent_prompt_id, context.prompt, backend, provider_attempt),
        ),
    )
}

/// Ends a canceled attempt, keeping its correlation.
fn finish_canceled_attempt(
    context: &AttemptContext,
    has_partial_output: bool,
    backend: Option<ProviderBackend>,
    provider_attempt: u32,
    out: &mut Vec<Report>,
)
    ensures
        final(out)@ == old(out)@ + canceled_reports(
            *context,
            has_partial_output,
            backend,
            provider_attempt,
        ),
{
    clear_partial_backend_response(context, has_partial_output, StatusText::CanceledPartial, out);
    out.push(
        canceled_correlated(&context.agent_prompt_id, &context.prompt, backend, provider_attempt),
    );
    assert(out@ =~= old(out)@ + canceled_reports(
        *context,
        has_partial_output,
        backend,
        provider_attempt,
    ));
}

/// How a generic route's attempt ended.
pub enum GenericOutcome {
    /// The attempt was canceled before anything was sent.
    NotStarted,
    /// A response; `canceled` when a cancellation came first all the same.
    Finished { finished: ProviderResponseFinished, canceled: bool },
    /// A terminal error.
    Terminal { finished: ProviderResponseFinished, has_partial_output: bool },
    /// A transient failure.
    Retry { decision: RetryDecision, has_partial_output: bool, backend_reached: bool },
    /// A cancellation.
    Canceled { has_partial_output: bool, backend_reached: bool, provider_attempt: u32 },
}

/// The backend that an attempt reached, or else the one an earlier attempt of the turn reached.
pub open spec fn attempt_backend(
    context: AttemptContext,
    backend: ProviderBackend,
    reached: bool,
) -> Option<ProviderBackend> {
    observed(
        if reached {
            Some(backend)
        } else {
            None
        },
        context.prior_backend,
    )
}

fn reached_backend(
    context: &AttemptContext,
    backend: &ProviderBackend,
    reached: bool,
) -> (res: Option<ProviderBackend>)
    ensures
        res == attempt_backend(*context, *backend, reached),
{
    observed_backend(
        if reached {
            Some(backend.clone())
        } else {
            None
        },
        &context.prior_backend,
    )
}

/// The reports of a generic route's attempt. A cancellation outranks a response, and a terminal
/// error or a failure discards rendered output first.
pub open spec fn generic_reports(
    context: AttemptContext,
    backend: ProviderBackend,
    outcome: GenericOutcome,
) -> Seq<Report> {
    match outcome {
        GenericOutcome::NotStarted => canceled_reports(
            context,
            false,
            context.prior_backend,
            context.provider_attempt,
        ),
        GenericOutcome::Finished { finished, canceled } => if canceled {
            seq![
                clear_report(context, StatusText::CanceledTentative),
                Report::ResponseFinished(
                    canceled_finished(
                        context.agent_prompt_id,
                        context.prompt,
                        finished.backend,
                        finished.provider_attempt,
                    ),
                ),
            ]
        } else {
            seq![Report::ResponseFinished(finished)]
        },
        GenericOutcome::Terminal { finished, has_partial_output } => cleared_partial(
            context,
            has_partial_output,
            StatusText::FailedPartial,
        ).push(
            Report::ResponseFinished(
                (ProviderResponseFinished {
                    backend: observed(finished.backend, context.prior_backend),
                    ..finished
                }),
            ),
        ),
        GenericOutcome::Retry { has_partial_output, .. } => cleared_partial(
            context,
            has_partial_output,
            StatusText::InterruptedPartial,
        ),
        GenericOutcome::Canceled { has_partial_output, backend_reached, provider_attempt } =>
            canceled_reports(
            context,
            has_partial_output,
            attempt_backend(context, backend, backend_reached),
            provider_attempt,
        ),
    }
}

/// The retry that a generic route's attempt asks for.
pub open spec fn generic_retry(
    context: AttemptContext,
    backend: ProviderBackend,
    outcome: GenericOutcome,
) -> Option<PromptAttemptRetry> {
    match outcome {
        GenericOutcome::Retry { decision, backend_reached, .. } => Some(
            PromptAttemptRetry {
                decision,
                live_detail: None,
                canonical_unauthorized: false,
                terminal_backend: attempt_backend(context, backend, backend_reached),
            },
        ),
        _ => None,
    }
}

/// Ends an attempt on a Chat Completions or public Responses route. `backend` describes the route.
pub fn finish_generic_attempt(
    context: &AttemptContext,
    backend: &ProviderBackend,
    outcome: GenericOutcome,
    out: &mut Vec<Report>,
) -> (res: Option<PromptAttemptRetry>)
    ensures
        final(out)@ == old(out)@ + generic_reports(*context, *backend, outcome),
        res == generic_retry(*context, *backend, outcome),
{
    let ghost whole = outcome;
    let retry = match outcome {
        GenericOutcome::NotStarted => {
            finish_canceled_attempt(
                context,
                false,
                observed_backend(None, &context.prior_backend),
                context.provider_attempt,
                out,
            );
            None
        },
        GenericOutcome::Finished { finished, canceled } => {
            if canceled {
                clear_partial_backend_response(context, true, StatusText::CanceledTentative, out);
                out.push(
                    canceled_correlated(
                        &context.agent_prompt_id,
                        &context.prompt,
                        finished.backend,
                        finished.provider_attempt,
                    ),
                );
            } else {
                out.push(Report::ResponseFinished(finished));
            }
            None
        },
        GenericOutcome::Terminal { finished, has_partial_output } => {
            clear_partial_backend_response(
                context,
                has_partial_output,
                StatusText::FailedPartial,
                out,
            );
            let mut finished = finished;
            finished.backend = observed_backend(finished.backend, &context.prior_backend);
            out.push(Report::ResponseFinished(finished));
            None
        },
        GenericOutcome::Retry { decision, has_partial_output, backend_reached } => {
            clear_partial_backend_response(
                context,
                has_partial_output,
                StatusText::InterruptedPartial,
                out,
            );
            Some(
                PromptAttemptRetry {
                    decision,
                    live_detail: None,
                    canonical_unauthorized: false,
                    terminal_backend: reached_backend(context, backend, backend_reached),
                },
            )
        },
        GenericOutcome::Canceled { has_partial_output, backend_reached, provider_attempt } => {
            finish_canceled_attempt(
                context,
                has_partial_output,
                reached_backend(context, backend, backend_reached),
                provider_attempt,
                out,
            );
            None
        },
    };
    assert(out@ =~= old(out)@ + generic_reports(*context, *backend, whole));
    retry
}

/// A terminal ChatGPT error.
pub struct CodexError {
    /// Rendered error.
    pub text: String,
    /// Rendered repetition evidence, when the stream repeated itself.
    pub repetition: Option<String>,
    /// Host code of a closed failure kind.
    pub failure_kind: Option<u32>,
}

/// The content of a terminal error text.
pub open spec fn error_content(error: CodexError) -> Seq<char> {
    bounded("LLM error: "@ + error.text@)
}

/// The terminal of a ChatGPT error.
pub open spec fn is_error_terminal(
    finished: ProviderResponseFinished,
    context: AttemptContext,
    backend: Option<ProviderBackend>,
    error: CodexError,
) -> bool {
    &&& finished.error is Some
    &&& finished.error->0.content() == error_content(error)
    &&& finished == (ProviderResponseFinished {
        agent_prompt_id: context.agent_prompt_id,
        agent_id: context.prompt.agent_id,
        originator: context.prompt.originator,
        output: None,
        stop_reason: if error.repetition is Some {
            ProviderStopReason::RepetitionDetected
        } else {
            ProviderStopReason::Error
        },
        error: finished.error,
        failure_kind: error.failure_kind,
        usage: None,
        backend,
        provider_attempt: context.provider_attempt,
        provider_response_id: None,
        ws_pool_delta: None,
    })
}

/// Builds the terminal of a ChatGPT error.
fn finish_error(
    context: &AttemptContext,
    backend: Option<ProviderBackend>,
    error: &CodexError,
) -> (res: ProviderResponseFinished)
    ensures
        is_error_terminal(res, *context, backend, *error),
{
    let mut text = "LLM error: ".to_owned();
    text.append(error.text.as_str());
    ProviderResponseFinished {
        agent_prompt_id: context.agent_prompt_id.clone(),
        agent_id: context.prompt.agent_id.clone(),
        originator: context.prompt.originator.clone(),
        output: None,
        stop_reason: if error.repetition.is_some() {
            ProviderStopReason::RepetitionDetected
        } else {
            ProviderStopReason::Error
        },
        error: Some(ErrorText::Provider(bounded_provider_error(text.as_str()))),
        failure_kind: error.failure_kind,
        usage: None,
        backend,
        provider_attempt: context.provider_attempt,
        provider_response_id: None,
        ws_pool_delta: None,
    }
}

/// How a standalone compaction attempt ended.
pub enum CompactOutcome {
    Finished { output: Option<ProviderOutput>, usage: Option<TokenUsage> },
    Retry { decision: RetryDecision, backend_reached: bool },
    Canceled { backend_reached: bool },
    Terminal { error: CodexError, backend_reached: bool },
    /// The route has no standalone compaction.
    RouteUnavailable {
        error: CodexError,
        newly_downgraded: bool,
        profile_identity: BackendProfileIdentity,
        backend_reached: bool,
    },
}

/// The terminal of a finished compaction.
pub open spec fn compact_finished(
    context: AttemptContext,
    backend: ProviderBackend,
    output: Option<ProviderOutput>,
    usage: Option<TokenUsage>,
) -> ProviderResponseFinished {
    ProviderResponseFinished {
        agent_prompt_id: context.agent_prompt_id,
        agent_id: context.prompt.agent_id,
        originator: context.prompt.originator,
        output,
        stop_reason: ProviderStopReason::EndTurn,
        error: None,
        failure_kind: None,
        usage,
        backend: Some(backend),
        provider_attempt: context.provider_attempt,
        provider_response_id: None,
        ws_pool_delta: None,
    }
}

/// Builds the terminal of a finished compaction.
fn compact_finished_response(
    context: &AttemptContext,
    backend: &ProviderBackend,
    output: Option<ProviderOutput>,
    usage: Option<TokenUsage>,
) -> (res: ProviderResponseFinished)
    ensures
        res == compact_finished(*context, *backend, output, usage),
{
    ProviderResponseFinished {
        agent_prompt_id: context.agent_prompt_id.clone(),
        agent_id: context.prompt.agent_id.clone(),
        originator: context.prompt.originator.clone(),
        output,
        stop_reason: ProviderStopReason::EndTurn,
        error: None,
        failure_kind: None,
        usage,
        backend: Some(backend.clone()),
        provider_attempt: context.provider_attempt,
        provider_response_id: None,
        ws_pool_delta: None,
    }
}

/// The reports that a standalone compaction attempt ends with: exactly one terminal, unless it
/// retries.
pub open spec fn compact_reported(
    context: AttemptContext,
    backend: ProviderBackend,
    outcome: CompactOutcome,
    reports: Seq<Report>,
) -> bool {
    match outcome {
        CompactOutcome::Finished { output, usage } => reports == seq![
            Report::ResponseFinished(compact_finished(context, backend, output, usage)),
        ],
        CompactOutcome::Retry { .. } => reports == Seq::<Report>::empty(),
        CompactOutcome::Canceled { backend_reached } => reports == canceled_reports(
            context,
            false,
            attempt_backend(context, backend, backend_reached),
            FIRST_ATTEMPT,
        ),
        CompactOutcome::Terminal { error, backend_reached } => is_error_report(
            reports,
            context,
            attempt_backend(context, backend, backend_reached),
            error,
        ),
        CompactOutcome::RouteUnavailable { error, backend_reached, .. } => is_error_report(
            reports,
            context,
            attempt_backend(context, backend, backend_reached),
            error,
        ),
    }
}

/// Exactly one terminal of a ChatGPT error.
pub open spec fn is_error_report(
    reports: Seq<Report>,
    context: AttemptContext,
    backend: Option<ProviderBackend>,
    error: CodexError,
) -> bool {
    &&& reports.len() == 1
    &&& match reports[0] {
        Report::ResponseFinished(finished) => is_error_terminal(finished, context, backend, error),
        _ => false,
    }
}

/// The retry that a standalone compaction attempt asks for.
pub open spec fn compact_retry(
    context: AttemptContext,
    backend: ProviderBackend,
    outcome: CompactOutcome,
) -> Option<PromptAttemptRetry> {
    match outcome {
        CompactOutcome::Retry { decision, backend_reached } => Some(
            PromptAttemptRetry {
                decision,
                live_detail: None,
                canonical_unauthorized: false,
                terminal_backend: attempt_backend(context, backend, backend_reached),
            },
        ),
        _ => None,
    }
}

/// The identity whose compact route is reported as unavailable.
pub open spec fn downgraded_identity(outcome: CompactOutcome) -> Option<BackendProfileIdentity> {
    match outcome {
        CompactOutcome::RouteUnavailable { newly_downgraded, profile_identity, .. } => if
            newly_downgraded {
            Some(profile_identity)
        } else {
            None
        },
        _ => None,
    }
}

/// Ends a standalone compaction attempt, which has no inline fallback. Returns the retry that it
/// asks for and the identity whose compact route is newly known to be missing.
pub fn handle_compact_prompt(
    context: &AttemptContext,
    backend: &ProviderBackend,
    outcome: CompactOutcome,
    out: &mut Vec<Report>,
) -> (res: (Option<PromptAttemptRetry>, Option<BackendProfileIdentity>))
    ensures
        final(out)@.len() >= old(out)@.len(),
        final(out)@.take(old(out)@.len() as int) == old(out)@,
        compact_reported(
            *context,
            *backend,
            outcome,
            final(out)@.skip(old(out)@.len() as int),
        ),
        res.0 == compact_retry(*context, *backend, outcome),
        res.1 == downgraded_identity(outcome),
{
    let ghost whole = outcome;
    let ghost before = out@;
    let res = match outcome {
        CompactOutcome::Finished { output, usage } => {
            out.push(
                Report::ResponseFinished(
                    compact_finished_response(context, backend, output, usage),
                ),
            );
            (None, None)
        },
        CompactOutcome::Retry { decision, backend_reached } => (
            Some(
                PromptAttemptRetry {
                    decision,
                    live_detail: None,
                    canonical_unauthorized: false,
                    terminal_backend: reached_backend(context, backend, backend_reached),
                },
            ),
            None,
        ),
        CompactOutcome::Canceled { backend_reached } => {
            finish_canceled_attempt(
                context,
                false,
                reached_backend(context, backend, backend_reached),
                FIRST_ATTEMPT,
                out,
            );
            (None, None)
        },
        CompactOutcome::Terminal { error, backend_reached } => {
            out.push(
                Report::ResponseFinished(
                    finish_error(
                        context,
                        reached_backend(context, backend, backend_reached),
                        &error,
                    ),
                ),
            );
            (None, None)
        },
        CompactOutcome::RouteUnavailable {
            error,
            newly_downgraded,
            profile_identity,
            backend_reached,
        } => {
            out.push(
                Report::ResponseFinished(
                    finish_error(
                        context,
                        reached_backend(context, backend, backend_reached),
                        &error,
                    ),
                ),
            );
            (
                None,
                if newly_downgraded {
                    Some(profile_identity)
                } else {
                    None
                },
            )
        },
    };
    proof {
        let reports = out@.skip(before.len() as int);
        assert(out@.take(before.len() as int) =~= before);
        match whole {
            CompactOutcome::Finished { output, usage } => {
                assert(reports =~= seq![
                    Report::ResponseFinished(compact_finished(*context, *backend, output, usage)),
                ]);
            },
            CompactOutcome::Retry { .. } => {
                assert(reports =~= Seq::<Report>::empty());
            },
            CompactOutcome::Canceled { backend_reached } => {
                assert(reports =~= canceled_reports(
                    *context,
                    false,
                    attempt_backend(*context, *backend, backend_reached),
                    FIRST_ATTEMPT,
                ));
            },
            _ => {},
        }
    }
    res
}

/// What kind of output one response item is.
#[derive(Clone, Copy, Debug, PartialEq, Eq, Structural)]
pub enum OutputItemKind {
    Message,
    Reasoning,
    ToolCall,
    Other,
}

/// Some item is a tool call.
pub open spec fn calls_tool(items: Seq<OutputItemKind>) -> bool {
    exists|i: int| 0 <= i < items.len() && #[trigger] items[i] == OutputItemKind::ToolCall
}

/// Why a complete response ended: it calls tools, or the turn is over.
pub fn stop_reason_from_output_items(items: &Vec<OutputItemKind>) -> (res: ProviderStopReason)
    ensures
        res == if calls_tool(items@) {
            ProviderStopReason::ToolCalls
        } else {
            ProviderStopReason::EndTurn
        },
{
    let mut i: usize = 0;
    while i < items.len()
        invariant
            i <= items@.len(),
            forall|j: int| 0 <= j < i ==> #[trigger] items@[j] != OutputItemKind::ToolCall,
        decreases items@.len() - i,
    {
        if items[i] == OutputItemKind::ToolCall {
            return ProviderStopReason::ToolCalls;
        }
        i = i + 1;
    }
    ProviderStopReason::EndTurn
}

/// One block of the prompt's context, as far as caching is concerned.
#[derive(Clone, Copy, Debug, PartialEq, Eq, Structural)]
pub enum ContextBlock {
    UserInput,
    /// An earlier response.
    AssistantResponse {
        /// Whether the provider named the response.
        has_response_id: bool,
        usage: Option<TokenUsage>,
    },
    ToolResults,
}

/// The input tokens of the block, when it is a named response of known usage.
pub open spec fn block_input(block: ContextBlock) -> Option<u64> {
    match block {
        ContextBlock::AssistantResponse { has_response_id: true, usage: Some(usage) } => Some(
            usage.prompt_sent_tokens,
        ),
        _ => None,
    }
}

/// The input tokens of the latest named response of known usage.
pub open spec fn previous_input(blocks: Seq<ContextBlock>) -> Option<u64>
    decreases blocks.len(),
{
    if blocks.len() == 0 {
        None
    } else if block_input(blocks.last()) is Some {
        block_input(blocks.last())
    } else {
        previous_input(blocks.drop_last())
    }
}

/// Tokens per provider cache chunk.
pub const PROMPT_CACHE_CHUNK_TOKENS: u64 = 512;

/// The input tokens that an earlier request could have cached, in whole chunks.
pub open spec fn cacheable_tokens(previous: u64, input: u64) -> u64 {
    let shorter = if previous < input {
        previous
    } else {
        input
    };
    (shorter / PROMPT_CACHE_CHUNK_TOKENS * PROMPT_CACHE_CHUNK_TOKENS) as u64
}

/// At most half of what could have been cached was.
pub open spec fn misses_cache(cacheable: u64, cached: u64) -> bool {
    cacheable != 0 && cached * 2 <= cacheable
}

/// The cache-miss evidence of a response.
pub open spec fn cache_miss(
    model: ModelId,
    blocks: Seq<ContextBlock>,
    tool_choice: u64,
    finished: ProviderResponseFinished,
) -> Option<ProviderCacheMissDiagnostic> {
    match (previous_input(blocks), finished.usage) {
        (Some(previous), Some(usage)) => {
            let cacheable = cacheable_tokens(previous, usage.prompt_sent_tokens);
            if misses_cache(cacheable, usage.prompt_cached_tokens) {
                Some(
                    ProviderCacheMissDiagnostic {
                        agent_prompt_id: finished.agent_prompt_id,
                        model,
                        originator: finished.originator,
                        tool_choice,
                        ws_pool_delta: finished.ws_pool_delta,
                        input_tokens: usage.prompt_sent_tokens,
                        cached_tokens: usage.prompt_cached_tokens,
                        previous_input_tokens: previous,
                        cacheable_input_tokens: cacheable,
                    },
                )
            } else {
                None
            }
        },
        _ => None,
    }
}

fn find_previous_input(blocks: &Vec<ContextBlock>) -> (res: Option<u64>)
    ensures
        res == previous_input(blocks@),
{
    let mut i: usize = blocks.len();
    assert(blocks@.take(i as int) =~= blocks@);
    while i > 0
        invariant
            i <= blocks@.len(),
            previous_input(blocks@) == previous_input(blocks@.take(i as int)),
        decreases i,
    {
        let ghost seen = blocks@.take(i as int);
        assert(seen.drop_last() =~= blocks@.take(i - 1));
        assert(seen.last() == blocks@[i - 1]);
        i = i - 1;
        if let ContextBlock::AssistantResponse { has_response_id: true, usage: Some(usage) } =
            blocks[i] {
            return Some(usage.prompt_sent_tokens);
        }
    }
    None
}

/// Reports a response that missed at least half of the cache it could have had.
pub fn cache_miss_diagnostic(
    model: &ModelId,
    blocks: &Vec<ContextBlock>,
    tool_choice: u64,
    finished: &ProviderResponseFinished,
) -> (res: Option<ProviderCacheMissDiagnostic>)
    ensures
        res == cache_miss(*model, blocks@, tool_choice, *finished),
{
    let previous: u64 = match find_previous_input(blocks) {
        Some(previous) => previous,
        None => {
            return None;
        },
    };
    let usage = match finished.usage {
        Some(usage) => usage,
        None => {
            return None;
        },
    };
    let input: u64 = usage.prompt_sent_tokens;
    let shorter: u64 = if previous < input {
        previous
    } else {
        input
    };
    let cacheable: u64 = shorter / PROMPT_CACHE_CHUNK_TOKENS * PROMPT_CACHE_CHUNK_TOKENS;
    let doubled: u64 = usage.prompt_cached_tokens.saturating_add(usage.prompt_cached_tokens);
    if cacheable == 0 || cacheable < doubled {
        return None;
    }
    Some(
        ProviderCacheMissDiagnostic {
            agent_prompt_id: finished.agent_prompt_id.clone(),
            model: model.clone(),
            originator: finished.originator.clone(),
            tool_choice,
            ws_pool_delta: finished.ws_pool_delta,
            input_tokens: input,
            cached_tokens: usage.prompt_cached_tokens,
            previous_input_tokens: previous,
            cacheable_input_tokens: cacheable,
        },
    )
}

/// A complete ChatGPT response.
pub struct StreamEnd {
    /// Output items, `None` when there are none.
    pub output: Option<ProviderOutput>,
    pub items: Vec<OutputItemKind>,
    pub usage: Option<TokenUsage>,
    pub response_id: Option<String>,
    /// Whether a stale response chain forced a full replay.
    pub stale_chain_fallback: bool,
    pub ws_pool_delta: Option<u64>,
    /// The context that the request carried.
    pub blocks: Vec<ContextBlock>,
    /// Host code of the tool choice that the request carried.
    pub tool_choice: u64,
}

/// The terminal of a complete response.
pub open spec fn stream_finished(
    context: AttemptContext,
    backend: ProviderBackend,
    end: StreamEnd,
) -> ProviderResponseFinished {
    ProviderResponseFinished {
        agent_prompt_id: context.agent_prompt_id,
        agent_id: context.prompt.agent_id,
        originator: context.prompt.originator,
        output: end.output,
        stop_reason: if calls_tool(end.items@) {
            ProviderStopReason::ToolCalls
        } else {
            ProviderStopReason::EndTurn
        },
        error: None,
        failure_kind: None,
        usage: end.usage,
        backend: Some(
            ProviderBackend { stale_chain_fallback: end.stale_chain_fallback, ..backend },
        ),
        provider_attempt: context.provider_attempt,
        provider_response_id: end.response_id,
        ws_pool_delta: end.ws_pool_delta,
    }
}

/// The reports of a complete response: its cache-miss evidence, then its terminal.
pub open spec fn stream_reports(
    context: AttemptContext,
    backend: ProviderBackend,
    end: StreamEnd,
) -> Seq<Report> {
    let finished = stream_finished(context, backend, end);
    match cache_miss(context.prompt.model, end.blocks@, end.tool_choice, finished) {
        Some(diagnostic) => seq![
            Report::CacheMissDiagnostic(diagnostic),
            Report::ResponseFinished(finished),
        ],
        None => seq![Report::ResponseFinished(finished)],
    }
}

fn finish_stream(
    context: &AttemptContext,
    backend: &ProviderBackend,
    end: StreamEnd,
    out: &mut Vec<Report>,
)
    ensures
        final(out)@ == old(out)@ + stream_reports(*context, *backend, end),
{
    let ghost whole = end;
    let finished = ProviderResponseFinished {
        agent_prompt_id: context.agent_prompt_id.clone(),
        agent_id: context.prompt.agent_id.clone(),
        originator: context.prompt.originator.clone(),
        output: end.output,
        stop_reason: stop_reason_from_output_items(&end.items),
        error: None,
        failure_kind: None,
        usage: end.usage,
        backend: Some(
            ProviderBackend {
                endpoint: backend.endpoint.clone(),
                transport: backend.transport,
                stale_chain_fallback: end.stale_chain_fallback,
            },
        ),
        provider_attempt: context.provider_attempt,
        provider_response_id: end.response_id,
        ws_pool_delta: end.ws_pool_delta,
    };
    assert(finished == stream_finished(*context, *backend, whole));
    if let Some(diagnostic) = cache_miss_diagnostic(
        &context.prompt.model,
        &end.blocks,
        end.tool_choice,
        &finished,
    ) {
        out.push(Report::CacheMissDiagnostic(diagnostic));
    }
    out.push(Report::ResponseFinished(finished));
    assert(out@ =~= old(out)@ + stream_reports(*context, *backend, whole));
}

/// How a ChatGPT inference attempt ended.
pub enum CodexAttemptOutcome {
    /// A complete response, with its last progress sample.
    Finished { sample: StreamSample, content: StreamContent, end: StreamEnd },
    Canceled { has_partial_output: bool },
    Terminal { error: CodexError, has_partial_output: bool, backend_reached: bool },
    Retry {
        decision: RetryDecision,
        has_partial_output: bool,
        live_detail: Option<String>,
        canonical_unauthorized: bool,
    },
}

/// One ChatGPT inference attempt.
pub struct ChatGptAttempt {
    pub context: AttemptContext,
    /// The route's backend.
    pub backend: ProviderBackend,
    pub emitter: RateLimitedResponseUpdateEmitter,
    /// Whether the request was dispatched.
    pub backend_reached: bool,
}

/// The text that a repeating stream is aborted with.
pub open spec fn repetition_content(repetition: Seq<char>) -> Seq<char> {
    bounded(
        "provider stream repetition detected; aborting response ("@ + repetition + ")"@,
    )
}

/// The report that a repeating stream is aborted.
pub open spec fn is_repetition_report(
    report: Report,
    context: AttemptContext,
    repetition: Seq<char>,
) -> bool {
    exists|text: String| #[trigger] text@ == repetition_content(repetition) && report
        == clear_report(context, StatusText::Text(text))
}

/// The reports that an inference attempt ends with. A complete response flushes its progress
/// first; anything else discards rendered output first; exactly one terminal follows, unless the
/// attempt retries.
pub open spec fn inference_reported(
    attempt: ChatGptAttempt,
    outcome: CodexAttemptOutcome,
    now: Moment,
    reports: Seq<Report>,
) -> bool {
    let context = attempt.context;
    match outcome {
        CodexAttemptOutcome::Finished { sample, content, end } => {
            let seen = observed_at(attempt.emitter, sample, now);
            reports == (if says_nothing(seen, sample, content, now) {
                Seq::empty()
            } else {
                seq![
                    update_report(
                        seen,
                        context.agent_prompt_id,
                        context.prompt,
                        sample,
                        content,
                        now,
                    ),
                ]
            }) + stream_reports(context, attempt.backend, end)
        },
        CodexAttemptOutcome::Canceled { has_partial_output } => reports == canceled_reports(
            context,
            has_partial_output,
            attempt_backend(context, attempt.backend, attempt.backend_reached),
            FIRST_ATTEMPT,
        ),
        CodexAttemptOutcome::Retry { has_partial_output, .. } => reports == cleared_partial(
            context,
            has_partial_output,
            StatusText::InterruptedPartial,
        ),
        CodexAttemptOutcome::Terminal { error, has_partial_output, backend_reached } => {
            let cleared = cleared_partial(context, has_partial_output, StatusText::FailedPartial);
            let n = cleared.len() as int;
            let backend = attempt_backend(context, attempt.backend, backend_reached);
            &&& reports.len() >= n
            &&& reports.take(n) == cleared
            &&& match error.repetition {
                Some(repetition) => {
                    &&& reports.len() == n + 2
                    &&& is_repetition_report(reports[n], context, repetition@)
                    &&& is_error_report(reports.skip(n + 1), context, backend, error)
                },
                None => is_error_report(reports.skip(n), context, backend, error),
            }
        },
    }
}

/// The retry that an inference attempt asks for.
pub open spec fn inference_retry(
    attempt: ChatGptAttempt,
    outcome: CodexAttemptOutcome,
) -> Option<PromptAttemptRetry> {
    match outcome {
        CodexAttemptOutcome::Retry { decision, live_detail, canonical_unauthorized, .. } => Some(
            PromptAttemptRetry {
                decision,
                live_detail,
                canonical_unauthorized,
                terminal_backend: attempt_backend(
                    attempt.context,
                    attempt.backend,
                    attempt.backend_reached,
                ),
            },
        ),
        _ => None,
    }
}

impl ChatGptAttempt {
    /// An attempt that has sent nothing yet.
    pub fn begin(context: AttemptContext, backend: ProviderBackend, now: Moment) -> (res: Self)
        ensures
            res == (ChatGptAttempt {
                context,
                backend,
                emitter: fresh_emitter(now),
                backend_reached: false,
            }),
    {
        ChatGptAttempt {
            context,
            backend,
            emitter: RateLimitedResponseUpdateEmitter::new_at(now),
            backend_reached: false,
        }
    }

    /// Reports that a connection is being made.
    pub fn connecting(&self) -> (res: Report)
        ensures
            res == connecting_report(self.context.agent_prompt_id, self.context.prompt),
    {
        connecting_update(&self.context.agent_prompt_id, &self.context.prompt)
    }

    /// Records that the request was dispatched.
    pub fn dispatched(&mut self, at: Moment)
        ensures
            *final(self) == (ChatGptAttempt {
                backend_reached: true,
                emitter: if old(self).emitter.last_update_emitted_at is None {
                    RateLimitedResponseUpdateEmitter { started_at: at, ..old(self).emitter }
                } else {
                    old(self).emitter
                },
                ..*old(self)
            }),
    {
        self.backend_reached = true;
        self.emitter.mark_dispatched(at);
    }

    /// Records one progress sample and returns its update when it is due.
    pub fn progressed(
        &mut self,
        sample: &StreamSample,
        content: StreamContent,
        now: Moment,
    ) -> (res: Option<Report>)
        ensures
            ({
                let seen = observed_at(old(self).emitter, *sample, now);
                let quiet = !due(seen, *sample, now, false) || says_nothing(
                    seen,
                    *sample,
                    content,
                    now,
                );
                &&& res == if quiet {
                    None
                } else {
                    Some(
                        update_report(
                            seen,
                            old(self).context.agent_prompt_id,
                            old(self).context.prompt,
                            *sample,
                            content,
                            now,
                        ),
                    )
                }
                &&& *final(self) == (ChatGptAttempt {
                    emitter: if quiet {
                        seen
                    } else {
                        emitted(seen, *sample, now)
                    },
                    ..*old(self)
                })
            }),
            stepped(
                old(self).emitter,
                final(self).emitter,
                old(self).context.agent_prompt_id,
                old(self).context.prompt,
                *sample,
                content,
                now,
                false,
                res,
            ),
    {
        self.emitter.emit_at(
            &self.context.agent_prompt_id,
            &self.context.prompt,
            sample,
            content,
            now,
            false,
        )
    }

    /// Ends the attempt and returns the retry that it asks for.
    pub fn handle_prompt(
        &mut self,
        outcome: CodexAttemptOutcome,
        now: Moment,
        out: &mut Vec<Report>,
    ) -> (res: Option<PromptAttemptRetry>)
        ensures
            final(out)@.len() >= old(out)@.len(),
            final(out)@.take(old(out)@.len() as int) == old(out)@,
            inference_reported(
                *old(self),
                outcome,
                now,
                final(out)@.skip(old(out)@.len() as int),
            ),
            res == inference_retry(*old(self), outcome),
            final(self).context == old(self).context,
            final(self).backend == old(self).backend,
            final(self).backend_reached == old(self).backend_reached,
    {
        let ghost whole = outcome;
        let ghost before = out@;
        let ghost n = before.len() as int;
        match outcome {
            CodexAttemptOutcome::Finished { sample, content, end } => {
                let flushed = self.emitter.emit_at(
                    &self.context.agent_prompt_id,
                    &self.context.prompt,
                    &sample,
                    content,
                    now,
                    true,
                );
                let ghost flush = if flushed is Some {
                    seq![flushed->0]
                } else {
                    Seq::empty()
                };
                if let Some(report) = flushed {
                    out.push(report);
                }
                assert(out@ =~= before + flush);
                finish_stream(&self.context, &self.backend, end, out);
                assert(out@.skip(n) =~= flush + stream_reports(
                    old(self).context,
                    old(self).backend,
                    end,
                ));
                assert(out@.take(n) =~= before);
                None
            },
            CodexAttemptOutcome::Canceled { has_partial_output } => {
                finish_canceled_attempt(
                    &self.context,
                    has_partial_output,
                    reached_backend(&self.context, &self.backend, self.backend_reached),
                    FIRST_ATTEMPT,
                    out,
                );
                assert(out@.skip(n) =~= canceled_reports(
                    old(self).context,
                    has_partial_output,
                    attempt_backend(
                        old(self).context,
                        old(self).backend,
                        old(self).backend_reached,
                    ),
                    FIRST_ATTEMPT,
                ));
                assert(out@.take(n) =~= before);
                None
            },
            CodexAttemptOutcome::Retry {
                decision,
                has_partial_output,
                live_detail,
                canonical_unauthorized,
            } => {
                clear_partial_backend_response(
                    &self.context,
                    has_partial_output,
                    StatusText::InterruptedPartial,
                    out,
                );
                assert(out@.skip(n) =~= cleared_partial(
                    old(self).context,
                    has_partial_output,
                    StatusText::InterruptedPartial,
                ));
                assert(out@.take(n) =~= before);
                Some(
                    PromptAttemptRetry {
                        decision,
                        live_detail,
                        canonical_unauthorized,
                        terminal_backend: reached_backend(
                            &self.context,
                            &self.backend,
                            self.backend_reached,
                        ),
                    },
                )
            },
            CodexAttemptOutcome::Terminal { error, has_partial_output, backend_reached } => {
                let ghost cleared = cleared_partial(
                    old(self).context,
                    has_partial_output,
                    StatusText::FailedPartial,
                );
                let ghost c = cleared.len() as int;
                clear_partial_backend_response(
                    &self.context,
                    has_partial_output,
                    StatusText::FailedPartial,
                    out,
                );
                if let Some(repetition) = &error.repetition {
                    self.abort_repetition(repetition, out);
                }
                let finished = finish_error(
                    &self.context,
                    reached_backend(&self.context, &self.backend, backend_reached),
                    &error,
                );
                out.push(Report::ResponseFinished(finished));
                proof {
                    let reports = out@.skip(n);
                    assert(out@.take(n) =~= before);
                    assert(reports.take(c) =~= cleared);
                    if error.repetition is Some {
                        assert(reports.skip(c + 1) =~= seq![Report::ResponseFinished(finished)]);
                    } else {
                        assert(reports.skip(c) =~= seq![Report::ResponseFinished(finished)]);
                    }
                }
                None
            },
        }
    }

    /// Reports that a repeating stream is aborted.
    fn abort_repetition(&self, repetition: &String, out: &mut Vec<Report>)
        ensures
            final(out)@ == old(out)@.push(final(out)@.last()),
            is_repetition_report(final(out)@.last(), self.context, repetition@),
    {
        let mut text = "provider stream repetition detected; aborting response (".to_owned();
        text.append(repetition.as_str());
        text.append(")");
        let text = bounded_provider_error(text.as_str());
        assert(text@ == repetition_content(repetition@));
        clear_partial_backend_response(&self.context, true, StatusText::Text(text), out);
        assert(out@ =~= old(out)@.push(out@.last()));
    }
}

/// The retry of an attempt whose backend was unavailable.
pub open spec fn unavailable_retry(decision: RetryDecision) -> PromptAttemptRetry {
    PromptAttemptRetry {
        decision,
        live_detail: None,
        canonical_unauthorized: false,
        terminal_backend: None,
    }
}

/// How an attempt on a resolved backend is run.
#[derive(Clone, Copy, Debug, PartialEq, Eq, Structural)]
pub enum AttemptPlan {
    /// There is nothing to run: the prompt retries with the authentication cadence.
    Retry,
    /// Standalone ChatGPT compaction.
    Compact,
    /// ChatGPT inference.
    Inference,
    /// A generic Chat Completions route.
    ChatCompletions { model_index: usize },
    /// A generic public Responses route.
    PublicResponses { model_index: usize },
}

/// How an attempt on `backend` is run.
pub open spec fn plan_of(backend: PromptBackend, operation: PromptOperation) -> AttemptPlan {
    match backend {
        PromptBackend::Unavailable { .. } => AttemptPlan::Retry,
        PromptBackend::Responses(_) => match operation {
            PromptOperation::StandaloneCompaction => AttemptPlan::Compact,
            PromptOperation::Inference => AttemptPlan::Inference,
        },
        PromptBackend::ChatCompletions { model_index, .. } => AttemptPlan::ChatCompletions {
            model_index,
        },
        PromptBackend::PublicResponses { model_index, .. } => AttemptPlan::PublicResponses {
            model_index,
        },
    }
}

/// Selects how an attempt on a resolved backend is run.
pub fn handle_prompt_backend(backend: &PromptBackend, operation: PromptOperation) -> (res:
    AttemptPlan)
    ensures
        res == plan_of(*backend, operation),
{
    match backend {
        PromptBackend::Unavailable { .. } => AttemptPlan::Retry,
        PromptBackend::Responses(_) => match operation {
            PromptOperation::StandaloneCompaction => AttemptPlan::Compact,
            PromptOperation::Inference => AttemptPlan::Inference,
        },
        PromptBackend::ChatCompletions { model_index, .. } => AttemptPlan::ChatCompletions {
            model_index: *model_index,
        },
        PromptBackend::PublicResponses { model_index, .. } => AttemptPlan::PublicResponses {
            model_index: *model_index,
        },
    }
}

/// The retry of a prompt whose backend was unavailable; `decision` is the authentication cadence.
pub fn retry_unavailable(decision: RetryDecision) -> (res: PromptAttemptRetry)
    ensures
        res == unavailable_retry(decision),
{
    PromptAttemptRetry {
        decision,
        live_detail: None,
        canonical_unauthorized: false,
        terminal_backend: None,
    }
}

/// An attempt that retries reports no terminal; any other reports exactly one, at the end.
pub open spec fn ends_once(reports: Seq<Report>, retries: bool) -> bool {
    if retries {
        forall|i: int| 0 <= i < reports.len() ==> !(#[trigger] reports[i] is ResponseFinished)
    } else {
        &&& reports.len() > 0
        &&& reports.last() is ResponseFinished
        &&& forall|i: int|
            0 <= i < reports.len() - 1 ==> !(#[trigger] reports[i] is ResponseFinished)
    }
}

/// An attempt on a generic route ends in exactly one terminal or in a retry.
pub proof fn generic_attempt_ends_once(
    context: AttemptContext,
    backend: ProviderBackend,
    outcome: GenericOutcome,
)
    ensures
        ends_once(
            generic_reports(context, backend, outcome),
            generic_retry(context, backend, outcome) is Some,
        ),
{
}

/// A standalone compaction attempt ends in exactly one terminal or in a retry.
pub proof fn compact_attempt_ends_once(
    context: AttemptContext,
    backend: ProviderBackend,
    outcome: CompactOutcome,
    reports: Seq<Report>,
)
    requires
        compact_reported(context, backend, outcome, reports),
    ensures
        ends_once(reports, compact_retry(context, backend, outcome) is Some),
{
}

/// A ChatGPT inference attempt ends in exactly one terminal or in a retry.
pub proof fn inference_attempt_ends_once(
    attempt: ChatGptAttempt,
    outcome: CodexAttemptOutcome,
    now: Moment,
    reports: Seq<Report>,
)
    requires
        inference_reported(attempt, outcome, now, reports),
    ensures
        ends_once(reports, inference_retry(attempt, outcome) is Some),
{
    if let CodexAttemptOutcome::Terminal { error, has_partial_output, .. } = outcome {
        let cleared = cleared_partial(
            attempt.context,
            has_partial_output,
            StatusText::FailedPartial,
        );
        let n = cleared.len() as int;
        assert forall|i: int| 0 <= i < n implies !(#[trigger] reports[i] is ResponseFinished) by {
            assert(reports[i] == reports.take(n)[i]);
        }
        let rest = if error.repetition is Some {
            reports.skip(n + 1)
        } else {
            reports.skip(n)
        };
        assert(rest[0] == reports.last());
    }
}

/// `finished` correlates with the prompt that an attempt serves.
pub open spec fn correlates(finished: ProviderResponseFinished, context: AttemptContext) -> bool {
    &&& finished.agent_prompt_id == context.agent_prompt_id
    &&& finished.agent_id == context.prompt.agent_id
    &&& finished.originator == context.prompt.originator
}

/// A complete response is delivered whole: the last report of a finished inference attempt is the
/// terminal of its prompt, without an error, with the output, the usage, the response id and the
/// pool delta of the stream, and it stops for tools exactly when some item is a tool call. New
/// content that the stream ended with is reported before it.
pub proof fn complete_response_is_delivered(
    attempt: ChatGptAttempt,
    sample: StreamSample,
    content: StreamContent,
    end: StreamEnd,
    now: Moment,
    reports: Seq<Report>,
)
    requires
        inference_reported(
            attempt,
            CodexAttemptOutcome::Finished { sample, content, end },
            now,
            reports,
        ),
    ensures
        reports.len() > 0,
        reports.last() matches Report::ResponseFinished(finished) && {
            &&& correlates(finished, attempt.context)
            &&& finished.output == end.output
            &&& finished.usage == end.usage
            &&& finished.provider_response_id == end.response_id
            &&& finished.ws_pool_delta == end.ws_pool_delta
            &&& finished.error is None
            &&& finished.failure_kind is None
            &&& finished.provider_attempt == attempt.context.provider_attempt
            &&& finished.backend matches Some(backend)
            &&& backend.endpoint == attempt.backend.endpoint
            &&& backend.transport == attempt.backend.transport
            &&& backend.stale_chain_fallback == end.stale_chain_fallback
            &&& if end.items@.contains(OutputItemKind::ToolCall) {
                finished.stop_reason == ProviderStopReason::ToolCalls
            } else {
                finished.stop_reason == ProviderStopReason::EndTurn
            }
        },
        content.deltas is Some || content.compaction is Some || sample.response_bytes_received
            != attempt.emitter.last_stats_sample.response_bytes_received ==> reports.len() > 1 && (
        reports[0] matches Report::ResponseUpdated(update) && {
            &&& update.deltas == content.deltas
            &&& update.compaction == content.compaction
            &&& update.agent_prompt_id == attempt.context.agent_prompt_id
            &&& update.response_stats matches Some(stats)
            &&& stats.current.response_bytes_received == sample.response_bytes_received
        }),
        forall|i: int|
            0 <= i < reports.len() - 1 ==> (#[trigger] reports[i] is ResponseUpdated
                || reports[i] is CacheMissDiagnostic),
{
    let tool = OutputItemKind::ToolCall;
    if end.items@.contains(tool) {
        let i = end.items@.index_of(tool);
        assert(end.items@[i] == tool);
    }
    let tail = stream_reports(attempt.context, attempt.backend, end);
    assert(reports.last() == tail.last());
}

/// A finished compaction delivers its output and usage as the only report, under its prompt's
/// correlation and the backend that produced it.
pub proof fn compaction_is_delivered(
    context: AttemptContext,
    backend: ProviderBackend,
    output: Option<ProviderOutput>,
    usage: Option<TokenUsage>,
    reports: Seq<Report>,
)
    requires
        compact_reported(context, backend, CompactOutcome::Finished { output, usage }, reports),
    ensures
        reports.len() == 1,
        reports[0] matches Report::ResponseFinished(finished) && {
            &&& correlates(finished, context)
            &&& finished.output == output
            &&& finished.usage == usage
            &&& finished.stop_reason == ProviderStopReason::EndTurn
            &&& finished.error is None
            &&& finished.failure_kind is None
            &&& finished.backend == Some(backend)
            &&& finished.provider_attempt == context.provider_attempt
            &&& finished.provider_response_id is None
            &&& finished.ws_pool_delta is None
        },
{
}

/// `finished` ends a prompt that was canceled: no output, and the cancellation as the error.
pub open spec fn ends_canceled(
    finished: ProviderResponseFinished,
    context: AttemptContext,
    backend: Option<ProviderBackend>,
    provider_attempt: u32,
) -> bool {
    &&& correlates(finished, context)
    &&& finished.output is None
    &&& finished.usage is None
    &&& finished.stop_reason == ProviderStopReason::Error
    &&& finished.error == Some(ErrorText::CanceledByHarness)
    &&& finished.failure_kind is None
    &&& finished.backend == backend
    &&& finished.provider_attempt == provider_attempt
    &&& finished.provider_response_id is None
    &&& finished.ws_pool_delta is None
}

/// `finished` ends a prompt with `error`: no output, the closed failure kind, and the error text
/// behind its prefix, cut only when the whole is longer than 512 characters.
pub open spec fn ends_in_error(
    finished: ProviderResponseFinished,
    context: AttemptContext,
    backend: Option<ProviderBackend>,
    error: CodexError,
) -> bool {
    &&& correlates(finished, context)
    &&& finished.output is None
    &&& finished.usage is None
    &&& finished.failure_kind == error.failure_kind
    &&& finished.backend == backend
    &&& finished.provider_attempt == context.provider_attempt
    &&& finished.provider_response_id is None
    &&& finished.ws_pool_delta is None
    &&& error.repetition is Some ==> finished.stop_reason == ProviderStopReason::RepetitionDetected
    &&& error.repetition is None ==> finished.stop_reason == ProviderStopReason::Error
    &&& finished.error matches Some(text)
    &&& is_cut(text.content(), "LLM error: "@ + error.text@)
}

/// `shown` is `text`, or its first 512 characters and an ellipsis when it is longer.
pub open spec fn is_cut(shown: Seq<char>, text: Seq<char>) -> bool {
    if text.len() <= 512 {
        shown == text
    } else {
        &&& shown.len() == 513
        &&& shown.last() == '…'
        &&& forall|i: int| 0 <= i < 512 ==> #[trigger] shown[i] == text[i]
    }
}

/// A provider text is shown whole up to 512 characters; a longer one keeps its first 512 and ends
/// in an ellipsis.
pub proof fn provider_text_is_cut_at_its_end(text: Seq<char>)
    ensures
        is_cut(bounded(text), text),
{
    reveal_strlit("…");
}

/// The backend reached by this attempt, or else the one that an earlier attempt reached.
pub open spec fn is_reached(
    named: Option<ProviderBackend>,
    context: AttemptContext,
    backend: ProviderBackend,
    reached: bool,
) -> bool {
    if reached {
        named == Some(backend)
    } else {
        named == context.prior_backend
    }
}

/// `report` tells the prompt's agent to discard what was rendered, and carries nothing else.
pub open spec fn discards_output(report: Report, context: AttemptContext) -> bool {
    &&& report matches Report::ResponseUpdated(update)
    &&& update.agent_prompt_id == context.agent_prompt_id
    &&& update.agent_id == context.prompt.agent_id
    &&& update.originator == context.prompt.originator
    &&& update.deltas is None
    &&& update.compaction is None
    &&& update.response_stats is None
    &&& update.status matches Some(status)
    &&& status.clear_response
    &&& status.retry is None
    &&& status.native_tool is None
}

/// A compaction that does not finish delivers no output: a canceled one ends as canceled and a
/// failed one with its error, under the backend that the turn reached. A missing route is
/// announced exactly when it was not known before, and a transient failure hands its decision on
/// without a report.
pub proof fn unfinished_compaction_delivers_nothing(
    context: AttemptContext,
    backend: ProviderBackend,
    outcome: CompactOutcome,
    reports: Seq<Report>,
)
    requires
        compact_reported(context, backend, outcome, reports),
        !(outcome is Finished),
    ensures
        match outcome {
            CompactOutcome::Finished { .. } => true,
            CompactOutcome::Canceled { backend_reached } => {
                &&& reports.len() == 1
                &&& reports[0] matches Report::ResponseFinished(finished)
                &&& ends_canceled(finished, context, finished.backend, 1)
                &&& is_reached(finished.backend, context, backend, backend_reached)
            },
            CompactOutcome::Terminal { error, backend_reached } => {
                &&& reports.len() == 1
                &&& reports[0] matches Report::ResponseFinished(finished)
                &&& ends_in_error(finished, context, finished.backend, error)
                &&& is_reached(finished.backend, context, backend, backend_reached)
            },
            CompactOutcome::RouteUnavailable {
                error,
                newly_downgraded,
                profile_identity,
                backend_reached,
            } => {
                &&& reports.len() == 1
                &&& reports[0] matches Report::ResponseFinished(finished)
                &&& ends_in_error(finished, context, finished.backend, error)
                &&& is_reached(finished.backend, context, backend, backend_reached)
                &&& downgraded_identity(outcome) is Some <==> newly_downgraded
                &&& newly_downgraded ==> downgraded_identity(outcome) == Some(profile_identity)
            },
            CompactOutcome::Retry { decision, backend_reached } => {
                &&& reports.len() == 0
                &&& compact_retry(context, backend, outcome) matches Some(retry)
                &&& retry.decision == decision
                &&& retry.live_detail is None
                &&& !retry.canonical_unauthorized
                &&& is_reached(retry.terminal_backend, context, backend, backend_reached)
            },
        },
        !(outcome is RouteUnavailable) ==> downgraded_identity(outcome) is None,
{
    match outcome {
        CompactOutcome::Terminal { error, .. } => {
            provider_text_is_cut_at_its_end("LLM error: "@ + error.text@);
        },
        CompactOutcome::RouteUnavailable { error, .. } => {
            provider_text_is_cut_at_its_end("LLM error: "@ + error.text@);
        },
        _ => {},
    }
}

/// An inference attempt that does not finish delivers no output. Rendered output is discarded
/// first, exactly when there is some; a cancellation ends as canceled, an error with its text and
/// kind, after the notice of a repetition where there was one, and a transient failure hands its
/// decision, its detail and its verdict on the credentials on.
pub proof fn unfinished_inference_delivers_nothing(
    attempt: ChatGptAttempt,
    outcome: CodexAttemptOutcome,
    now: Moment,
    reports: Seq<Report>,
)
    requires
        inference_reported(attempt, outcome, now, reports),
        !(outcome is Finished),
    ensures
        match outcome {
            CodexAttemptOutcome::Finished { .. } => true,
            CodexAttemptOutcome::Canceled { has_partial_output } => {
                &&& reports.len() == if has_partial_output {
                    2nat
                } else {
                    1nat
                }
                &&& has_partial_output ==> discards_output(reports[0], attempt.context)
                &&& reports.last() matches Report::ResponseFinished(finished)
                &&& ends_canceled(finished, attempt.context, finished.backend, 1)
                &&& is_reached(
                    finished.backend,
                    attempt.context,
                    attempt.backend,
                    attempt.backend_reached,
                )
            },
            CodexAttemptOutcome::Terminal { error, has_partial_output, backend_reached } => {
                &&& reports.len() == 1 + (if has_partial_output {
                    1int
                } else {
                    0int
                }) + (if error.repetition is Some {
                    1int
                } else {
                    0int
                })
                &&& forall|i: int|
                    0 <= i < reports.len() - 1 ==> discards_output(
                        #[trigger] reports[i],
                        attempt.context,
                    )
                &&& reports.last() matches Report::ResponseFinished(finished)
                &&& ends_in_error(finished, attempt.context, finished.backend, error)
                &&& is_reached(finished.backend, attempt.context, attempt.backend, backend_reached)
            },
            CodexAttemptOutcome::Retry {
                decision,
                has_partial_output,
                live_detail,
                canonical_unauthorized,
            } => {
                &&& reports.len() == if has_partial_output {
                    1nat
                } else {
                    0nat
                }
                &&& has_partial_output ==> discards_output(reports[0], attempt.context)
                &&& inference_retry(attempt, outcome) matches Some(retry)
                &&& retry.decision == decision
                &&& retry.live_detail == live_detail
                &&& retry.canonical_unauthorized == canonical_unauthorized
                &&& is_reached(
                    retry.terminal_backend,
                    attempt.context,
                    attempt.backend,
                    attempt.backend_reached,
                )
            },
        },
        inference_retry(attempt, outcome) is Some <==> outcome is Retry,
{
    if let CodexAttemptOutcome::Terminal { error, has_partial_output, .. } = outcome {
        provider_text_is_cut_at_its_end("LLM error: "@ + error.text@);
        let cleared = cleared_partial(
            attempt.context,
            has_partial_output,
            StatusText::FailedPartial,
        );
        let n = cleared.len() as int;
        if n > 0 {
            assert(reports[0] == reports.take(n)[0]);
        }
        let rest = if error.repetition is Some {
            reports.skip(n + 1)
        } else {
            reports.skip(n)
        };
        assert(rest[0] == reports.last());
    }
}

/// On a generic route a response is delivered as it came, unless a cancellation came first: then
/// what was rendered is discarded and the prompt ends as canceled, with the correlation of the
/// response. A terminal error keeps everything but a backend that it does not name; a transient
/// failure hands its decision on.
pub proof fn generic_outcome_is_delivered(
    context: AttemptContext,
    backend: ProviderBackend,
    outcome: GenericOutcome,
)
    ensures
        ({
            let reports = generic_reports(context, backend, outcome);
            match outcome {
                GenericOutcome::NotStarted => {
                    &&& reports.len() == 1
                    &&& reports[0] matches Report::ResponseFinished(finished)
                    &&& ends_canceled(
                        finished,
                        context,
                        context.prior_backend,
                        context.provider_attempt,
                    )
                },
                GenericOutcome::Finished { finished: response, canceled } => if canceled {
                    &&& reports.len() == 2
                    &&& discards_output(reports[0], context)
                    &&& reports[1] matches Report::ResponseFinished(finished)
                    &&& ends_canceled(
                        finished,
                        context,
                        response.backend,
                        response.provider_attempt,
                    )
                } else {
                    reports.len() == 1 && reports[0] == Report::ResponseFinished(response)
                },
                GenericOutcome::Terminal { finished: response, has_partial_output } => {
                    &&& reports.len() == if has_partial_output {
                        2nat
                    } else {
                        1nat
                    }
                    &&& has_partial_output ==> discards_output(reports[0], context)
                    &&& reports.last() matches Report::ResponseFinished(finished)
                    &&& finished.agent_prompt_id == response.agent_prompt_id
                    &&& finished.agent_id == response.agent_id
                    &&& finished.originator == response.originator
                    &&& finished.output == response.output
                    &&& finished.stop_reason == response.stop_reason
                    &&& finished.error == response.error
                    &&& finished.failure_kind == response.failure_kind
                    &&& finished.usage == response.usage
                    &&& finished.provider_attempt == response.provider_attempt
                    &&& finished.provider_response_id == response.provider_response_id
                    &&& finished.ws_pool_delta == response.ws_pool_delta
                    &&& response.backend is Some ==> finished.backend == response.backend
                    &&& response.backend is None ==> finished.backend == context.prior_backend
                },
                GenericOutcome::Retry { decision, has_partial_output, backend_reached } => {
                    &&& reports.len() == if has_partial_output {
                        1nat
                    } else {
                        0nat
                    }
                    &&& has_partial_output ==> discards_output(reports[0], context)
                    &&& generic_retry(context, backend, outcome) matches Some(retry)
                    &&& retry.decision == decision
                    &&& retry.live_detail is None
                    &&& !retry.canonical_unauthorized
                    &&& is_reached(retry.terminal_backend, context, backend, backend_reached)
                },
                GenericOutcome::Canceled {
                    has_partial_output,
                    backend_reached,
                    provider_attempt,
                } => {
                    &&& reports.len() == if has_partial_output {
                        2nat
                    } else {
                        1nat
                    }
                    &&& has_partial_output ==> discards_output(reports[0], context)
                    &&& reports.last() matches Report::ResponseFinished(finished)
                    &&& ends_canceled(finished, context, finished.backend, provider_attempt)
                    &&& is_reached(finished.backend, context, backend, backend_reached)
                },
            }
        }),
        generic_retry(context, backend, outcome) is Some <==> outcome is Retry,
{
}

/// The previous input is that of the latest named response of known usage: `i` is its place.
pub proof fn previous_input_is_the_latest(blocks: Seq<ContextBlock>, i: int, usage: TokenUsage)
    requires
        0 <= i < blocks.len(),
        blocks[i] == (ContextBlock::AssistantResponse { has_response_id: true, usage: Some(usage) }),
        forall|j: int|
            i < j < blocks.len() ==> match #[trigger] blocks[j] {
                ContextBlock::AssistantResponse { has_response_id, usage } => !has_response_id
                    || usage is None,
                _ => true,
            },
    ensures
        previous_input(blocks) == Some(usage.prompt_sent_tokens),
    decreases blocks.len(),
{
    if i < blocks.len() - 1 {
        assert(block_input(blocks.last()) is None) by {
            assert(blocks.last() == blocks[blocks.len() - 1]);
        }
        previous_input_is_the_latest(blocks.drop_last(), i, usage);
    }
}

/// Without a named response of known usage there is no previous input.
pub proof fn previous_input_needs_a_response(blocks: Seq<ContextBlock>)
    requires
        forall|j: int|
            0 <= j < blocks.len() ==> match #[trigger] blocks[j] {
                ContextBlock::AssistantResponse { has_response_id, usage } => !has_response_id
                    || usage is None,
                _ => true,
            },
    ensures
        previous_input(blocks) is None,
    decreases blocks.len(),
{
    if blocks.len() > 0 {
        assert(block_input(blocks.last()) is None) by {
            assert(blocks.last() == blocks[blocks.len() - 1]);
        }
        previous_input_needs_a_response(blocks.drop_last());
    }
}

/// A cache miss is reported exactly when less than the whole 512-token chunks that both requests
/// share were cached by half: `chunks` is how many whole chunks the shorter input holds. The
/// report states what was sent, what was cached and what could have been.
pub proof fn cache_misses_are_reported(
    model: ModelId,
    blocks: Seq<ContextBlock>,
    tool_choice: u64,
    finished: ProviderResponseFinished,
    previous: u64,
    usage: TokenUsage,
    chunks: int,
)
    requires
        previous_input(blocks) == Some(previous),
        finished.usage == Some(usage),
        0 <= chunks,
        512 * chunks <= previous,
        512 * chunks <= usage.prompt_sent_tokens,
        previous < 512 * (chunks + 1) || usage.prompt_sent_tokens < 512 * (chunks + 1),
    ensures
        cache_miss(model, blocks, tool_choice, finished) is Some <==> chunks > 0 && 2
            * usage.prompt_cached_tokens <= 512 * chunks,
        cache_miss(model, blocks, tool_choice, finished) matches Some(diagnostic) ==> {
            &&& diagnostic.agent_prompt_id == finished.agent_prompt_id
            &&& diagnostic.originator == finished.originator
            &&& diagnostic.model == model
            &&& diagnostic.tool_choice == tool_choice
            &&& diagnostic.ws_pool_delta == finished.ws_pool_delta
            &&& diagnostic.input_tokens == usage.prompt_sent_tokens
            &&& diagnostic.cached_tokens == usage.prompt_cached_tokens
            &&& diagnostic.previous_input_tokens == previous
            &&& diagnostic.cacheable_input_tokens == 512 * chunks
        },
{
    let shorter: u64 = if previous < usage.prompt_sent_tokens {
        previous
    } else {
        usage.prompt_sent_tokens
    };
    assert(shorter / 512 == chunks);
}

/// Without an earlier input or the usage of the response there is no cache to miss.
pub proof fn unknown_usage_misses_nothing(
    model: ModelId,
    blocks: Seq<ContextBlock>,
    tool_choice: u64,
    finished: ProviderResponseFinished,
)
    requires
        previous_input(blocks) is None || finished.usage is None,
    ensures
        cache_miss(model, blocks, tool_choice, finished) is None,
{
}

/// Nothing is sent on an unavailable backend, a compaction runs only as one and only on a ChatGPT
/// route, and a generic route keeps the model it was resolved to.
pub proof fn plan_follows_the_backend(backend: PromptBackend, operation: PromptOperation)
    ensures
        plan_of(backend, operation) is Retry <==> backend is Unavailable,
        plan_of(backend, operation) is Compact <==> backend is Responses
            && operation is StandaloneCompaction,
        plan_of(backend, operation) is Inference <==> backend is Responses
            && operation is Inference,
        backend matches PromptBackend::ChatCompletions { model_index, .. } ==> plan_of(
            backend,
            operation,
        ) == (AttemptPlan::ChatCompletions { model_index }),
        backend matches PromptBackend::PublicResponses { model_index, .. } ==> plan_of(
            backend,
            operation,
        ) == (AttemptPlan::PublicResponses { model_index }),
{
}

/// The retry of an unavailable backend keeps its cadence and blames neither the credentials nor a
/// backend.
pub proof fn unavailable_retry_keeps_cadence(decision: RetryDecision)
    ensures
        unavailable_retry(decision).decision == decision,
        unavailable_retry(decision).live_detail is None,
        !unavailable_retry(decision).canonical_unauthorized,
        unavailable_retry(decision).terminal_backend is None,
{
}

/// A turn stops for its tools exactly when one of its items calls one, wherever it stands.
pub proof fn tool_call_stops_the_turn(
    items: Seq<OutputItemKind>,
    reason: ProviderStopReason,
    i: int,
)
    requires
        reason == if calls_tool(items) {
            ProviderStopReason::ToolCalls
        } else {
            ProviderStopReason::EndTurn
        },
    ensures
        0 <= i < items.len() && items[i] == OutputItemKind::ToolCall ==> reason
            == ProviderStopReason::ToolCalls,
        (forall|j: int| 0 <= j < items.len() ==> #[trigger] items[j] != OutputItemKind::ToolCall)
            ==> reason == ProviderStopReason::EndTurn,
{
}

} // verus!
