//! Reports sent to the harness, and their revalidation at the commit boundary.

use vstd::prelude::*;

use crate::cancellation::CancellationState;
use crate::clock::{Moment, Span, NANOS_PER_SEC};
use crate::names::NameTable;
use crate::prompt::{
    clone_backend, CooldownProbe, ModelId, Prompt, PromptBackend, PromptJob, ProviderBackend,
};
use crate::retry::{
    delay_secs, lookup, saturating_retry_attempt, saturating_retry_delay, RetryClass,
    SharedCooldown,
};
use crate::text::{decimal, decimal_text};

verus! {

/// Why a provider response ended.
#[derive(Clone, Copy, Debug, PartialEq, Eq, Structural)]
pub enum ProviderStopReason {
    EndTurn,
    ToolCalls,
    Length,
    RepetitionDetected,
    Error,
}

/// Terminal error text of one response.
pub enum ErrorText {
    /// The harness canceled the prompt.
    CanceledByHarness,
    /// An automatic retry would have crossed accounts.
    IdentityChanged,
    /// Standalone compaction used every attempt.
    RetryBudgetExhausted,
    /// Bounded provider text.
    Provider(String),
}

impl ErrorText {
    /// The text shown to users.
    pub open spec fn content(self) -> Seq<char> {
        match self {
            ErrorText::CanceledByHarness => "(cancelled by harness)"@,
            ErrorText::IdentityChanged => "ChatGPT identity changed; automatic retry refused"@,
            ErrorText::RetryBudgetExhausted =>
                "provider retry budget exhausted during standalone compaction"@,
            ErrorText::Provider(text) => text@,
        }
    }

    /// Renders the text shown to users.
    pub fn text(&self) -> (res: String)
        ensures
            res@ == self.content(),
    {
        match self {
            ErrorText::CanceledByHarness => "(cancelled by harness)".to_owned(),
            ErrorText::IdentityChanged => "ChatGPT identity changed; automatic retry refused".to_owned(),
            ErrorText::RetryBudgetExhausted =>
                "provider retry budget exhausted during standalone compaction".to_owned(),
            ErrorText::Provider(text) => text.clone(),
        }
    }
}

/// Provider-reported token counts of one response.
#[derive(Clone, Copy, Debug, PartialEq, Eq, Structural)]
pub struct TokenUsage {
    pub prompt_sent_tokens: u64,
    pub prompt_cached_tokens: u64,
    pub output_tokens: u64,
}

/// Output of one response, retained by the host.
#[derive(Clone, Copy, Debug, PartialEq, Eq, Structural)]
pub struct ProviderOutput {
    /// Host handle of the output items.
    pub handle: u64,
}

/// Terminal report of one logical prompt.
pub struct ProviderResponseFinished {
    pub agent_prompt_id: String,
    pub agent_id: String,
    pub originator: String,
    /// Output items, `None` when there are none.
    pub output: Option<ProviderOutput>,
    pub stop_reason: ProviderStopReason,
    pub error: Option<ErrorText>,
    /// Host code of a closed failure kind.
    pub failure_kind: Option<u32>,
    pub usage: Option<TokenUsage>,
    pub backend: Option<ProviderBackend>,
    /// One-based provider attempt.
    pub provider_attempt: u32,
    pub provider_response_id: Option<String>,
    /// Host handle of the connection-pool delta.
    pub ws_pool_delta: Option<u64>,
}

/// First provider attempt.
pub const FIRST_ATTEMPT: u32 = 1;

/// Status text of one transient update.
pub enum StatusText {
    Connecting,
    SearchingWeb,
    WebSearchComplete,
    /// Partial output is discarded after cancellation.
    CanceledPartial,
    /// Tentative final output is discarded after cancellation.
    CanceledTentative,
    /// Partial output is discarded after a terminal error.
    FailedPartial,
    /// Partial output is discarded before a retry.
    InterruptedPartial,
    /// Scheduled retry.
    Retry { reason: RetryReason, delay: Span, attempts: u64 },
    /// Other bounded text.
    Text(String),
}

/// Why a retry is scheduled, as shown to the initiating user.
pub enum RetryReason {
    /// The selected provider needs a fresh login.
    LoginRequired { provider: String },
    /// The public reason of a class, with redacted provider detail.
    Class { class: RetryClass, detail: Option<String> },
}

/// Machine-readable retry part of a status update.
#[derive(Clone, Copy, Debug, PartialEq, Eq, Structural)]
pub struct ProviderRetryStatus {
    pub category: RetryClass,
    pub attempt: u32,
    pub next_retry_delay_secs: u32,
}

/// Lifecycle of one provider-hosted web search.
pub struct NativeToolStatus {
    pub call_id: String,
    pub active: bool,
}

/// Status part of a transient update.
pub struct ProviderResponseStatusUpdate {
    pub text: StatusText,
    /// Whether already rendered partial output must be cleared.
    pub clear_response: bool,
    pub retry: Option<ProviderRetryStatus>,
    pub native_tool: Option<NativeToolStatus>,
}

/// One streaming progress sample.
#[derive(Clone, Copy, Debug, PartialEq, Eq, Structural)]
pub struct ProviderResponseStatsSample {
    pub response_bytes_received: u64,
    pub elapsed_micros: u64,
}

/// Streaming progress since the previous update.
#[derive(Clone, Copy, Debug, PartialEq, Eq, Structural)]
pub struct ProviderResponseStats {
    pub current: ProviderResponseStatsSample,
    pub previous: ProviderResponseStatsSample,
    pub first_semantic_output_elapsed_micros: Option<u64>,
}

/// Transient update of one response.
pub struct ProviderResponseUpdated {
    pub agent_prompt_id: String,
    pub agent_id: String,
    pub originator: String,
    /// Host handle of new text deltas.
    pub deltas: Option<u64>,
    /// Host handle of a compaction update.
    pub compaction: Option<u64>,
    pub status: Option<ProviderResponseStatusUpdate>,
    pub response_stats: Option<ProviderResponseStats>,
}

/// Outcome of a manual retry request.
#[derive(Clone, Copy, Debug, PartialEq, Eq, Structural)]
pub enum RetryPromptStatus {
    Accepted,
    NotParked,
}

/// Outcome of a scheduled cache refresh.
#[derive(Clone, Copy, Debug, PartialEq, Eq, Structural)]
pub enum ProviderCacheRefreshStatus {
    Succeeded,
    Failed,
    Cancelled,
    Unsupported,
    DeadlineExceeded,
}

/// Cache-miss evidence of one response. Its efficiency is the ratio of `cached_tokens` to
/// `cacheable_input_tokens`.
pub struct ProviderCacheMissDiagnostic {
    pub agent_prompt_id: String,
    pub model: ModelId,
    pub originator: String,
    /// Host code of the tool choice that the request carried.
    pub tool_choice: u64,
    pub ws_pool_delta: Option<u64>,
    pub input_tokens: u64,
    pub cached_tokens: u64,
    pub previous_input_tokens: u64,
    pub cacheable_input_tokens: u64,
}

/// One transient report.
#[allow(inconsistent_fields)]
pub enum Report {
    PromptSubmitted { agent_prompt_id: String, originator: String },
    ResponseUpdated(ProviderResponseUpdated),
    ResponseFinished(ProviderResponseFinished),
    RetryPromptResult {
        request_id: String,
        agent_prompt_id: String,
        status: RetryPromptStatus,
    },
    CacheRefreshFinished { refresh_id: String, status: ProviderCacheRefreshStatus },
    CacheMissDiagnostic(ProviderCacheMissDiagnostic),
}

/// A terminal report with nothing but an error.
pub open spec fn error_finished(
    agent_prompt_id: String,
    agent_id: String,
    originator: String,
    error: ErrorText,
) -> ProviderResponseFinished {
    ProviderResponseFinished {
        agent_prompt_id,
        agent_id,
        originator,
        output: None,
        stop_reason: ProviderStopReason::Error,
        error: Some(error),
        failure_kind: None,
        usage: None,
        backend: None,
        provider_attempt: FIRST_ATTEMPT,
        provider_response_id: None,
        ws_pool_delta: None,
    }
}

/// Builds a terminal report with nothing but an error.
pub fn simple_finished(
    agent_prompt_id: String,
    agent_id: String,
    originator: String,
    error: ErrorText,
) -> (res: ProviderResponseFinished)
    ensures
        res == error_finished(agent_prompt_id, agent_id, originator, error),
{
    ProviderResponseFinished {
        agent_prompt_id,
        agent_id,
        originator,
        output: None,
        stop_reason: ProviderStopReason::Error,
        error: Some(error),
        failure_kind: None,
        usage: None,
        backend: None,
        provider_attempt: FIRST_ATTEMPT,
        provider_response_id: None,
        ws_pool_delta: None,
    }
}

/// The cancellation terminal of a prompt.
pub open spec fn canceled_finished(
    agent_prompt_id: String,
    prompt: Prompt,
    backend: Option<ProviderBackend>,
    provider_attempt: u32,
) -> ProviderResponseFinished {
    ProviderResponseFinished {
        backend,
        provider_attempt,
        ..error_finished(
            agent_prompt_id,
            prompt.agent_id,
            prompt.originator,
            ErrorText::CanceledByHarness,
        )
    }
}

/// Builds the cancellation terminal of a prompt, retaining attempt correlation.
pub fn canceled_correlated(
    agent_prompt_id: &String,
    prompt: &Prompt,
    backend: Option<ProviderBackend>,
    provider_attempt: u32,
) -> (res: Report)
    ensures
        res == Report::ResponseFinished(
            canceled_finished(*agent_prompt_id, *prompt, backend, provider_attempt),
        ),
{
    let mut finished = simple_finished(
        agent_prompt_id.clone(),
        prompt.agent_id.clone(),
        prompt.originator.clone(),
        ErrorText::CanceledByHarness,
    );
    finished.backend = backend;
    finished.provider_attempt = provider_attempt;
    Report::ResponseFinished(finished)
}

/// The cancellation terminal of an owned job, with any backend it reached.
pub open spec fn canceled_job_report(job: PromptJob) -> Report {
    Report::ResponseFinished(
        canceled_finished(job.agent_prompt_id, job.prompt, job.observed_backend, FIRST_ATTEMPT),
    )
}

/// Builds the cancellation terminal of an owned job.
pub fn finish_canceled_job(job: &PromptJob) -> (res: Report)
    ensures
        res == canceled_job_report(*job),
{
    canceled_correlated(
        &job.agent_prompt_id,
        &job.prompt,
        clone_backend(&job.observed_backend),
        FIRST_ATTEMPT,
    )
}

/// The terminal of a job whose automatic retry would cross accounts.
pub open spec fn identity_changed_report(job: PromptJob) -> Report {
    Report::ResponseFinished(
        ProviderResponseFinished {
            backend: job.observed_backend,
            ..error_finished(
                job.agent_prompt_id,
                job.prompt.agent_id,
                job.prompt.originator,
                ErrorText::IdentityChanged,
            )
        },
    )
}

/// Builds the terminal of a job whose automatic retry would cross accounts.
pub fn finish_identity_changed_prompt(job: &PromptJob) -> (res: Report)
    ensures
        res == identity_changed_report(*job),
{
    let mut finished = simple_finished(
        job.agent_prompt_id.clone(),
        job.prompt.agent_id.clone(),
        job.prompt.originator.clone(),
        ErrorText::IdentityChanged,
    );
    finished.backend = clone_backend(&job.observed_backend);
    Report::ResponseFinished(finished)
}

/// Why a retry is scheduled: a missing login outranks the class reason.
pub open spec fn retry_reason(
    job: PromptJob,
    class: RetryClass,
    detail: Option<String>,
) -> RetryReason {
    match job.backend {
        PromptBackend::Unavailable { login_required: Some(provider) } => RetryReason::LoginRequired {
            provider,
        },
        _ => RetryReason::Class { class, detail },
    }
}

/// The transient status of one scheduled retry.
pub open spec fn retry_status_report(
    job: PromptJob,
    class: RetryClass,
    due: Moment,
    now: Moment,
    detail: Option<String>,
) -> Report {
    Report::ResponseUpdated(
        ProviderResponseUpdated {
            agent_prompt_id: job.agent_prompt_id,
            agent_id: job.prompt.agent_id,
            originator: job.prompt.originator,
            deltas: None,
            compaction: None,
            status: Some(
                ProviderResponseStatusUpdate {
                    text: StatusText::Retry {
                        reason: retry_reason(job, class, detail),
                        delay: due.since(now),
                        attempts: job.retry_state.attempts,
                    },
                    clear_response: true,
                    retry: Some(
                        ProviderRetryStatus {
                            category: class,
                            attempt: if job.retry_state.attempts <= u32::MAX {
                                job.retry_state.attempts as u32
                            } else {
                                u32::MAX
                            },
                            next_retry_delay_secs: delay_secs(due.since(now)),
                        },
                    ),
                    native_tool: None,
                },
            ),
            response_stats: None,
        },
    )
}

/// Builds the transient status of one scheduled retry.
pub fn retry_status(
    job: &PromptJob,
    class: RetryClass,
    due: Moment,
    now: Moment,
    detail: Option<String>,
) -> (res: Report)
    ensures
        res == retry_status_report(*job, class, due, now, detail),
{
    let delay: Span = due.saturating_duration_since(now);
    let reason = match &job.backend {
        PromptBackend::Unavailable { login_required: Some(provider) } => RetryReason::LoginRequired {
            provider: provider.clone(),
        },
        _ => RetryReason::Class { class, detail },
    };
    Report::ResponseUpdated(
        ProviderResponseUpdated {
            agent_prompt_id: job.agent_prompt_id.clone(),
            agent_id: job.prompt.agent_id.clone(),
            originator: job.prompt.originator.clone(),
            deltas: None,
            compaction: None,
            status: Some(
                ProviderResponseStatusUpdate {
                    text: StatusText::Retry {
                        reason,
                        delay,
                        attempts: job.retry_state.attempts,
                    },
                    clear_response: true,
                    retry: Some(
                        ProviderRetryStatus {
                            category: class,
                            attempt: saturating_retry_attempt(job.retry_state.attempts),
                            next_retry_delay_secs: saturating_retry_delay(delay),
                        },
                    ),
                    native_tool: None,
                },
            ),
            response_stats: None,
        },
    )
}

/// A status update of `prompt_id` that clears already rendered output.
pub open spec fn clears_partial(report: Report, prompt_id: Seq<char>) -> bool {
    match report {
        Report::ResponseUpdated(update) => {
            &&& update.agent_prompt_id@ == prompt_id
            &&& match update.status {
                Some(status) => status.clear_response,
                None => false,
            }
        },
        _ => false,
    }
}

/// Reports whether `report` only clears already rendered output of `prompt_id`.
pub fn is_intentional_partial_clear_for(report: &Report, prompt_id: &String) -> (res: bool)
    ensures
        res == clears_partial(*report, prompt_id@),
{
    match report {
        Report::ResponseUpdated(update) => update.agent_prompt_id == *prompt_id
            && match &update.status {
            Some(status) => status.clear_response,
            None => false,
        },
        _ => false,
    }
}

/// The terminal that replaces a canceled one: its correlation and backend, and nothing else.
pub open spec fn replaced_by_cancellation(
    finished: ProviderResponseFinished,
) -> ProviderResponseFinished {
    ProviderResponseFinished {
        backend: finished.backend,
        ..error_finished(
            finished.agent_prompt_id,
            finished.agent_id,
            finished.originator,
            ErrorText::CanceledByHarness,
        )
    }
}

/// What is committed of one queued worker report.
pub open spec fn committed(report: Report, current: bool, prompt_id: Seq<char>) -> Option<Report> {
    if current || clears_partial(report, prompt_id) {
        Some(report)
    } else {
        match report {
            Report::ResponseFinished(finished) => Some(
                Report::ResponseFinished(replaced_by_cancellation(finished)),
            ),
            _ => None,
        }
    }
}

/// Committing `report` consumes the targeted marker.
pub open spec fn consumes_marker(report: Report, current: bool, prompt_id: Seq<char>) -> bool {
    !current && !clears_partial(report, prompt_id) && report is ResponseFinished
}

/// The commit decision of a worker: whether its output still belongs to the current generation.
#[derive(Clone, Copy, Debug, PartialEq, Eq, Structural)]
pub struct CommitState {
    pub dispatch_generation: u64,
    pub current_generation: u64,
    pub input_closed: bool,
}

impl CommitState {
    /// The worker's output is current.
    pub open spec fn is_current(
        self,
        cancellation: &CancellationState,
        prompt_id: Seq<char>,
    ) -> bool {
        self.dispatch_generation == self.current_generation && !self.input_closed
            && !cancellation.canceled(prompt_id)
    }
}

/// Revalidates queued worker output at the main-loop serialization boundary.
///
/// Cancellation may race after output is enqueued. Tentative output is dropped, while a queued
/// terminal is replaced by exactly one canceled terminal and consumes the targeted marker.
pub fn validate_worker_output_for_commit(
    report: Report,
    commit: CommitState,
    prompt_id: &String,
    cancellation: &mut CancellationState,
) -> (res: Option<Report>)
    ensures
        res == committed(report, commit.is_current(old(cancellation), prompt_id@), prompt_id@),
        final(cancellation).same_but_marks(old(cancellation)),
        final(cancellation).marked() == if consumes_marker(
            report,
            commit.is_current(old(cancellation), prompt_id@),
            prompt_id@,
        ) {
            old(cancellation).marked().remove(prompt_id@)
        } else {
            old(cancellation).marked()
        },
{
    let targeted: bool = cancellation.is_canceled(prompt_id);
    if commit.dispatch_generation == commit.current_generation && !commit.input_closed && !targeted {
        return Some(report);
    }
    if is_intentional_partial_clear_for(&report, prompt_id) {
        return Some(report);
    }
    match report {
        Report::ResponseFinished(finished) => {
            let _ = cancellation.take_canceled(prompt_id);
            let mut canceled = simple_finished(
                finished.agent_prompt_id,
                finished.agent_id,
                finished.originator,
                ErrorText::CanceledByHarness,
            );
            canceled.backend = finished.backend;
            Some(Report::ResponseFinished(canceled))
        },
        _ => None,
    }
}

/// A committed report that authoritatively proves provider success for `prompt_id`.
pub open spec fn proves_success(report: Report, prompt_id: Seq<char>) -> bool {
    match report {
        Report::ResponseFinished(finished) => {
            &&& finished.agent_prompt_id@ == prompt_id
            &&& finished.error is None
            &&& finished.failure_kind is None
            &&& finished.stop_reason == ProviderStopReason::EndTurn || finished.stop_reason
                == ProviderStopReason::ToolCalls || finished.stop_reason
                == ProviderStopReason::Length
        },
        _ => false,
    }
}

/// Returns whether a committed report authoritatively proves provider success.
pub fn is_successful_terminal_for(report: &Report, prompt_id: &String) -> (res: bool)
    ensures
        res == proves_success(*report, prompt_id@),
{
    match report {
        Report::ResponseFinished(finished) => finished.agent_prompt_id == *prompt_id
            && finished.error.is_none() && finished.failure_kind.is_none() && (finished.stop_reason
            == ProviderStopReason::EndTurn || finished.stop_reason == ProviderStopReason::ToolCalls
            || finished.stop_reason == ProviderStopReason::Length),
        _ => false,
    }
}

/// A successful terminal of the still-current cooldown generation that its attempt probed.
pub open spec fn probe_succeeds(
    report: Report,
    prompt_id: Seq<char>,
    probe: CooldownProbe,
    cooldowns: Map<Seq<char>, SharedCooldown>,
) -> bool {
    &&& proves_success(report, prompt_id)
    &&& match lookup(cooldowns, probe.provider@) {
        Some(cooldown) => cooldown.generation == probe.generation,
        None => false,
    }
}

/// Checks that a successful terminal belongs to the still-current cooldown generation captured by
/// its manually admitted attempt.
pub fn successful_probe_matches(
    report: &Report,
    prompt_id: &String,
    probe: &CooldownProbe,
    cooldowns: &NameTable<SharedCooldown>,
) -> (res: bool)
    ensures
        res == probe_succeeds(*report, prompt_id@, *probe, cooldowns@),
{
    is_successful_terminal_for(report, prompt_id) && match cooldowns.get(probe.provider.as_str()) {
        Some(cooldown) => cooldown.generation == probe.generation,
        None => false,
    }
}

/// The provider whose cooldown a committed report releases.
pub open spec fn released_provider(
    report: Option<Report>,
    prompt_id: Seq<char>,
    probe: Option<CooldownProbe>,
    cooldowns: Map<Seq<char>, SharedCooldown>,
) -> Option<String> {
    match (report, probe) {
        (Some(report), Some(probe)) => if probe_succeeds(report, prompt_id, probe, cooldowns) {
            Some(probe.provider)
        } else {
            None
        },
        _ => None,
    }
}

/// Validates cancellation before deriving any successful-probe release action.
pub fn validate_worker_output_and_probe_for_commit(
    report: Report,
    commit: CommitState,
    prompt_id: &String,
    cancellation: &mut CancellationState,
    probe: &Option<CooldownProbe>,
    cooldowns: &NameTable<SharedCooldown>,
) -> (res: (Option<Report>, Option<String>))
    ensures
        res.0 == committed(report, commit.is_current(old(cancellation), prompt_id@), prompt_id@),
        res.1 == released_provider(res.0, prompt_id@, *probe, cooldowns@),
        final(cancellation).same_but_marks(old(cancellation)),
        final(cancellation).marked() == if consumes_marker(
            report,
            commit.is_current(old(cancellation), prompt_id@),
            prompt_id@,
        ) {
            old(cancellation).marked().remove(prompt_id@)
        } else {
            old(cancellation).marked()
        },
{
    let validated = validate_worker_output_for_commit(report, commit, prompt_id, cancellation);
    let released: Option<String> = match (&validated, probe) {
        (Some(report), Some(probe)) => {
            if successful_probe_matches(report, prompt_id, probe, cooldowns) {
                Some(probe.provider.clone())
            } else {
                None
            }
        },
        _ => None,
    };
    (validated, released)
}

/// Nothing a canceled worker queued proves success, so a cancellation never releases a cooldown;
/// and a canceled terminal is committed as exactly one cancellation.
pub proof fn canceled_output_releases_nothing(
    report: Report,
    prompt_id: Seq<char>,
    probe: Option<CooldownProbe>,
    cooldowns: Map<Seq<char>, SharedCooldown>,
)
    ensures
        released_provider(
            committed(report, false, prompt_id),
            prompt_id,
            probe,
            cooldowns,
        ) is None,
        match committed(report, false, prompt_id) {
            Some(Report::ResponseFinished(finished)) => {
                &&& report is ResponseFinished
                &&& finished.error == Some(ErrorText::CanceledByHarness)
                &&& finished.output is None
            },
            Some(other) => other == report && clears_partial(report, prompt_id),
            None => !clears_partial(report, prompt_id) && report !is ResponseFinished,
        },
{
}

/// The reason text of a scheduled retry. `public_reason` is the public reason of the class.
pub open spec fn reason_content(reason: RetryReason, public_reason: Seq<char>) -> Seq<char> {
    match reason {
        RetryReason::LoginRequired { provider } => "provider "@ + provider@
            + " is not logged in; run tau provider login "@ + provider@,
        RetryReason::Class { detail: Some(detail), .. } => public_reason + ": "@ + detail@,
        RetryReason::Class { detail: None, .. } => public_reason,
    }
}

/// The status text of a scheduled retry. `delay_text` is its rounded delay in words.
pub open spec fn retry_content(
    reason: RetryReason,
    attempts: u64,
    public_reason: Seq<char>,
    delay_text: Seq<char>,
) -> Seq<char> {
    reason_content(reason, public_reason) + "; next attempt in about "@ + delay_text
        + " (attempt "@ + decimal(attempts as nat)
        + "). Tau will keep trying; cancel the prompt to stop."@
}

/// Renders the initiating user's status of one scheduled retry.
pub fn retry_status_text(
    reason: &RetryReason,
    attempts: u64,
    public_reason: &str,
    delay_text: &str,
) -> (res: String)
    ensures
        res@ == retry_content(*reason, attempts, public_reason@, delay_text@),
{
    let mut text = match reason {
        RetryReason::LoginRequired { provider } => {
            let mut text = "provider ".to_owned();
            text.append(provider.as_str());
            text.append(" is not logged in; run tau provider login ");
            text.append(provider.as_str());
            text
        },
        RetryReason::Class { detail, .. } => {
            let mut text = public_reason.to_owned();
            if let Some(detail) = detail {
                text.append(": ");
                text.append(detail.as_str());
            }
            text
        },
    };
    text.append("; next attempt in about ");
    text.append(delay_text);
    text.append(" (attempt ");
    text.append(decimal_text(attempts).as_str());
    text.append("). Tau will keep trying; cancel the prompt to stop.");
    text
}

/// A missing login is named together with the command that repairs it, and nothing that the
/// provider said is shown.
pub proof fn login_status_is_redacted(
    provider: String,
    attempts: u64,
    public_reason: Seq<char>,
    other_reason: Seq<char>,
    delay_text: Seq<char>,
)
    ensures
        retry_content(
            RetryReason::LoginRequired { provider },
            attempts,
            public_reason,
            delay_text,
        ) == retry_content(
            RetryReason::LoginRequired { provider },
            attempts,
            other_reason,
            delay_text,
        ),
{
}

impl StatusText {
    /// The text shown to users. `public_reason` and `delay_text` render a scheduled retry.
    pub open spec fn content(self, public_reason: Seq<char>, delay_text: Seq<char>) -> Seq<char> {
        match self {
            StatusText::Connecting => "Connecting to provider…"@,
            StatusText::SearchingWeb => "Searching web…"@,
            StatusText::WebSearchComplete => "Web search complete…"@,
            StatusText::CanceledPartial => "request canceled; discarding partial provider output"@,
            StatusText::CanceledTentative =>
                "request canceled; discarding tentative provider output"@,
            StatusText::FailedPartial =>
                "provider stream ended with an error; discarding partial output"@,
            StatusText::InterruptedPartial =>
                "provider stream interrupted after partial output; preparing retry"@,
            StatusText::Retry { reason, attempts, .. } => retry_content(
                reason,
                attempts,
                public_reason,
                delay_text,
            ),
            StatusText::Text(text) => text@,
        }
    }

    /// Renders the text shown to users.
    pub fn text(&self, public_reason: &str, delay_text: &str) -> (res: String)
        ensures
            res@ == self.content(public_reason@, delay_text@),
    {
        match self {
            StatusText::Connecting => "Connecting to provider…".to_owned(),
            StatusText::SearchingWeb => "Searching web…".to_owned(),
            StatusText::WebSearchComplete => "Web search complete…".to_owned(),
            StatusText::CanceledPartial =>
                "request canceled; discarding partial provider output".to_owned(),
            StatusText::CanceledTentative =>
                "request canceled; discarding tentative provider output".to_owned(),
            StatusText::FailedPartial =>
                "provider stream ended with an error; discarding partial output".to_owned(),
            StatusText::InterruptedPartial =>
                "provider stream interrupted after partial output; preparing retry".to_owned(),
            StatusText::Retry { reason, attempts, .. } => retry_status_text(
                reason,
                *attempts,
                public_reason,
                delay_text,
            ),
            StatusText::Text(text) => text.clone(),
        }
    }
}

/// The banner of a provider error that is retried after whole seconds.
pub open spec fn banner_content(error: Seq<char>, delay_secs: u64, attempt: u64) -> Seq<char> {
    "provider error — retrying in "@ + decimal(delay_secs as nat) + "s (attempt "@ + decimal(
        attempt as nat,
    ) + "). Tau will keep trying; cancel to stop.\n\n> "@ + error
}

/// Reports a provider error that is retried as a status, never as response text.
pub fn retry_banner(
    agent_prompt_id: String,
    agent_id: String,
    originator: String,
    error: &str,
    delay: Span,
    attempt: u64,
) -> (res: Report)
    ensures
        match res {
            Report::ResponseUpdated(update) => {
                &&& update.agent_prompt_id == agent_prompt_id
                &&& update.agent_id == agent_id
                &&& update.originator == originator
                &&& update.deltas is None
                &&& update.compaction is None
                &&& update.response_stats is None
                &&& match update.status {
                    Some(status) => {
                        &&& status.text is Text
                        &&& status.text->Text_0@ == banner_content(
                            error@,
                            whole_secs(delay),
                            attempt,
                        )
                        &&& status.clear_response
                        &&& status.retry is None
                        &&& status.native_tool is None
                    },
                    None => false,
                }
            },
            _ => false,
        },
{
    let mut text = "provider error — retrying in ".to_owned();
    text.append(decimal_text(delay.as_secs()).as_str());
    text.append("s (attempt ");
    text.append(decimal_text(attempt).as_str());
    text.append("). Tau will keep trying; cancel to stop.\n\n> ");
    text.append(error);
    Report::ResponseUpdated(
        ProviderResponseUpdated {
            agent_prompt_id,
            agent_id,
            originator,
            deltas: None,
            compaction: None,
            status: Some(
                ProviderResponseStatusUpdate {
                    text: StatusText::Text(text),
                    clear_response: true,
                    retry: None,
                    native_tool: None,
                },
            ),
            response_stats: None,
        },
    )
}

/// Whole seconds of a delay, saturating at the largest count.
pub open spec fn whole_secs(delay: Span) -> u64 {
    if delay.nanos / NANOS_PER_SEC <= u64::MAX {
        (delay.nanos / NANOS_PER_SEC) as u64
    } else {
        u64::MAX
    }
}

/// Current output is committed as it is. Output that is not loses everything but the news that it
/// ended: a terminal keeps its correlation and its backend, carries no output and consumes the
/// mark, a notice that discards rendered output still passes, and anything else is dropped.
pub proof fn output_is_committed_whole_or_canceled(report: Report, prompt_id: Seq<char>)
    ensures
        committed(report, true, prompt_id) == Some(report),
        !consumes_marker(report, true, prompt_id),
        report matches Report::ResponseFinished(finished) ==> {
            &&& consumes_marker(report, false, prompt_id)
            &&& committed(report, false, prompt_id) matches Some(Report::ResponseFinished(canceled))
            &&& canceled.agent_prompt_id == finished.agent_prompt_id
            &&& canceled.agent_id == finished.agent_id
            &&& canceled.originator == finished.originator
            &&& canceled.backend == finished.backend
            &&& canceled.output is None
            &&& canceled.usage is None
            &&& canceled.stop_reason == ProviderStopReason::Error
            &&& canceled.error == Some(ErrorText::CanceledByHarness)
            &&& canceled.failure_kind is None
            &&& canceled.provider_attempt == 1
            &&& canceled.provider_response_id is None
            &&& canceled.ws_pool_delta is None
        },
        report matches Report::ResponseUpdated(update) ==> {
            &&& !consumes_marker(report, false, prompt_id)
            &&& if update.agent_prompt_id@ == prompt_id && (update.status matches Some(status)
                && status.clear_response) {
                committed(report, false, prompt_id) == Some(report)
            } else {
                committed(report, false, prompt_id) is None
            }
        },
        !(report is ResponseFinished) && !(report is ResponseUpdated) ==> committed(
            report,
            false,
            prompt_id,
        ) is None && !consumes_marker(report, false, prompt_id),
{
}

/// Output is current while its generation is, input is open and its prompt is neither marked nor
/// shut down.
pub proof fn output_is_current_until_canceled(
    commit: CommitState,
    cancellation: &CancellationState,
    prompt_id: Seq<char>,
)
    ensures
        commit.is_current(cancellation, prompt_id) <==> commit.dispatch_generation
            == commit.current_generation && !commit.input_closed && !cancellation.is_shut_down()
            && !cancellation.marked().contains(prompt_id),
{
}

/// A boundary is released only by a committed success of the prompt that probed it, while the
/// probed generation is still in force, and then it always is.
pub proof fn only_a_success_releases_a_boundary(
    finished: ProviderResponseFinished,
    prompt_id: Seq<char>,
    probe: CooldownProbe,
    cooldowns: Map<Seq<char>, SharedCooldown>,
)
    ensures
        released_provider(
            Some(Report::ResponseFinished(finished)),
            prompt_id,
            Some(probe),
            cooldowns,
        ) is Some <==> {
            &&& finished.agent_prompt_id@ == prompt_id
            &&& finished.error is None
            &&& finished.failure_kind is None
            &&& finished.stop_reason != ProviderStopReason::Error
            &&& finished.stop_reason != ProviderStopReason::RepetitionDetected
            &&& cooldowns.contains_key(probe.provider@)
            &&& cooldowns[probe.provider@].generation == probe.generation
        },
        released_provider(
            Some(Report::ResponseFinished(finished)),
            prompt_id,
            Some(probe),
            cooldowns,
        ) matches Some(provider) ==> provider == probe.provider,
        released_provider(
            Some(Report::ResponseFinished(finished)),
            prompt_id,
            None,
            cooldowns,
        ) is None,
        released_provider(None, prompt_id, Some(probe), cooldowns) is None,
{
}

/// The terminal of a job belongs to it and delivers nothing: a canceled job and one whose retry
/// would cross accounts differ in nothing but their error.
pub proof fn ended_job_delivers_nothing(job: PromptJob)
    ensures
        canceled_job_report(job) matches Report::ResponseFinished(finished) && {
            &&& finished.agent_prompt_id == job.agent_prompt_id
            &&& finished.agent_id == job.prompt.agent_id
            &&& finished.originator == job.prompt.originator
            &&& finished.output is None
            &&& finished.usage is None
            &&& finished.stop_reason == ProviderStopReason::Error
            &&& finished.error == Some(ErrorText::CanceledByHarness)
            &&& finished.failure_kind is None
            &&& finished.backend == job.observed_backend
            &&& finished.provider_attempt == 1
            &&& finished.provider_response_id is None
            &&& finished.ws_pool_delta is None
        },
        identity_changed_report(job) matches Report::ResponseFinished(finished) && {
            &&& finished.agent_prompt_id == job.agent_prompt_id
            &&& finished.agent_id == job.prompt.agent_id
            &&& finished.originator == job.prompt.originator
            &&& finished.output is None
            &&& finished.usage is None
            &&& finished.stop_reason == ProviderStopReason::Error
            &&& finished.error == Some(ErrorText::IdentityChanged)
            &&& finished.failure_kind is None
            &&& finished.backend == job.observed_backend
            &&& finished.provider_attempt == 1
            &&& finished.provider_response_id is None
            &&& finished.ws_pool_delta is None
        },
{
}

/// A scheduled retry is announced to the job's own user, as a status and never as text: it
/// discards what was rendered and states the class, the attempts so far and the time left, and a
/// missing login outranks what the provider said.
pub proof fn retry_status_states_the_wait(
    job: PromptJob,
    class: RetryClass,
    due: Moment,
    now: Moment,
    detail: Option<String>,
)
    requires
        now.nanos <= due.nanos,
    ensures
        retry_status_report(job, class, due, now, detail) matches Report::ResponseUpdated(update)
            && {
            &&& update.agent_prompt_id == job.agent_prompt_id
            &&& update.agent_id == job.prompt.agent_id
            &&& update.originator == job.prompt.originator
            &&& update.deltas is None
            &&& update.compaction is None
            &&& update.response_stats is None
            &&& update.status matches Some(status)
            &&& status.clear_response
            &&& status.native_tool is None
            &&& status.text matches StatusText::Retry { reason, delay, attempts }
            &&& now.nanos + delay.nanos == due.nanos
            &&& attempts == job.retry_state.attempts
            &&& match job.backend {
                PromptBackend::Unavailable { login_required: Some(provider) } => reason
                    == (RetryReason::LoginRequired { provider }),
                _ => reason == (RetryReason::Class { class, detail }),
            }
            &&& status.retry matches Some(retry)
            &&& retry.category == class
            &&& job.retry_state.attempts <= u32::MAX ==> retry.attempt == job.retry_state.attempts
            &&& job.retry_state.attempts > u32::MAX ==> retry.attempt == u32::MAX
            &&& due.nanos - now.nanos < 4_294_967_296_000_000_000 ==> retry.next_retry_delay_secs
                * 1_000_000_000 <= due.nanos - now.nanos < (retry.next_retry_delay_secs + 1)
                * 1_000_000_000
        },
{
}

/// A banner states the error, the attempt and the whole seconds of the wait, rounded down.
pub proof fn banner_states_the_wait(error: Seq<char>, delay: Span, attempt: u64)
    ensures
        whole_secs(delay) < u64::MAX ==> whole_secs(delay) * 1_000_000_000 <= delay.nanos
            < (whole_secs(delay) + 1) * 1_000_000_000,
        delay.nanos >= u64::MAX * 1_000_000_000 ==> whole_secs(delay) == u64::MAX,
        banner_content(error, whole_secs(delay), attempt)
            == "provider error — retrying in "@ + decimal(whole_secs(delay) as nat)
            + "s (attempt "@ + decimal(attempt as nat)
            + "). Tau will keep trying; cancel to stop.\n\n> "@ + error,
{
}

/// A response that failed says so, and delivers nothing.
pub proof fn failed_response_delivers_nothing(
    agent_prompt_id: String,
    agent_id: String,
    originator: String,
    error: ErrorText,
    finished: ProviderResponseFinished,
)
    requires
        finished == error_finished(agent_prompt_id, agent_id, originator, error),
    ensures
        finished.agent_prompt_id == agent_prompt_id,
        finished.agent_id == agent_id,
        finished.originator == originator,
        finished.error == Some(error),
        finished.stop_reason == ProviderStopReason::Error,
        finished.output is None,
        finished.usage is None,
        finished.failure_kind is None,
        finished.backend is None,
        finished.provider_attempt == 1,
        finished.provider_response_id is None,
        finished.ws_pool_delta is None,
{
}

/// A canceled turn keeps its backend and its attempt, and nothing of its output.
pub proof fn canceled_response_keeps_its_backend(
    agent_prompt_id: String,
    prompt: Prompt,
    backend: Option<ProviderBackend>,
    provider_attempt: u32,
    finished: ProviderResponseFinished,
)
    requires
        finished == canceled_finished(agent_prompt_id, prompt, backend, provider_attempt),
    ensures
        finished.agent_prompt_id == agent_prompt_id,
        finished.agent_id == prompt.agent_id,
        finished.originator == prompt.originator,
        finished.backend == backend,
        finished.provider_attempt == provider_attempt,
        finished.error == Some(ErrorText::CanceledByHarness),
        finished.stop_reason == ProviderStopReason::Error,
        finished.output is None,
        finished.usage is None,
        finished.failure_kind is None,
        finished.provider_response_id is None,
        finished.ws_pool_delta is None,
{
}

} // verus!
