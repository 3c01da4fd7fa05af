//! Rate-limited progress of one ChatGPT response stream.

use vstd::prelude::*;

use crate::clock::{Moment, Span, NANOS_PER_SEC};
use crate::prompt::Prompt;
use crate::report::{
    NativeToolStatus, ProviderResponseStats, ProviderResponseStatsSample,
    ProviderResponseStatusUpdate, ProviderResponseUpdated, Report, StatusText,
};

verus! {

/// Shortest time between two ordinary progress updates, in seconds.
pub const PROVIDER_RESPONSE_UPDATE_MIN_INTERVAL_SECS: u64 = 1;

/// Nanoseconds in one microsecond.
pub const NANOS_PER_MICRO: u128 = 1_000;

/// The latest state of one hosted web search.
pub struct WebSearchLifecycle {
    pub revision: u64,
    pub call_id: String,
    pub active: bool,
}

/// What the parser knows of one response stream.
pub struct StreamSample {
    /// Whether output that counts as a first token has been parsed.
    pub has_timed_semantic_output: bool,
    pub response_bytes_received: u64,
    pub web_search_lifecycle: Option<WebSearchLifecycle>,
    pub web_search_active: bool,
}

/// New content of one update, retained by the host.
#[derive(Clone, Copy, Debug, PartialEq, Eq, Structural)]
pub struct StreamContent {
    /// Host handle of new text deltas, `None` when there are none.
    pub deltas: Option<u64>,
    /// Host handle of a compaction update.
    pub compaction: Option<u64>,
}

/// Whole microseconds of a duration, saturating at the largest count.
pub open spec fn micros(span: Span) -> u64 {
    if span.nanos / NANOS_PER_MICRO <= u64::MAX {
        (span.nanos / NANOS_PER_MICRO) as u64
    } else {
        u64::MAX
    }
}

fn whole_micros(span: Span) -> (res: u64)
    ensures
        res == micros(span),
{
    let micros: u128 = span.nanos / NANOS_PER_MICRO;
    if micros <= u64::MAX as u128 {
        micros as u64
    } else {
        u64::MAX
    }
}

/// Samples streaming progress of one response.
pub struct RateLimitedResponseUpdateEmitter {
    pub started_at: Moment,
    pub last_update_emitted_at: Option<Moment>,
    pub last_stats_sample: ProviderResponseStatsSample,
    pub emitted_non_empty_sample: bool,
    /// Elapsed time captured at the first qualifying parser state.
    pub first_semantic_output_elapsed: Option<Span>,
    /// Last hosted-search activity published.
    pub web_search_active: Option<bool>,
    /// Last hosted-search revision published.
    pub web_search_lifecycle_revision: u64,
}

/// The emitter once it has seen `sample`: the time to the first token is captured once.
pub open spec fn observed_at(
    emitter: RateLimitedResponseUpdateEmitter,
    sample: StreamSample,
    now: Moment,
) -> RateLimitedResponseUpdateEmitter {
    if emitter.first_semantic_output_elapsed is None && sample.has_timed_semantic_output {
        RateLimitedResponseUpdateEmitter {
            first_semantic_output_elapsed: Some(now.since(emitter.started_at)),
            ..emitter
        }
    } else {
        emitter
    }
}

/// The progress since the previous update.
pub open spec fn stats_at(
    emitter: RateLimitedResponseUpdateEmitter,
    sample: StreamSample,
    now: Moment,
) -> ProviderResponseStats {
    ProviderResponseStats {
        current: ProviderResponseStatsSample {
            response_bytes_received: sample.response_bytes_received,
            elapsed_micros: micros(now.since(emitter.started_at)),
        },
        previous: emitter.last_stats_sample,
        first_semantic_output_elapsed_micros: match emitter.first_semantic_output_elapsed {
            Some(elapsed) => Some(micros(elapsed)),
            None => None,
        },
    }
}

/// A hosted-search transition that has not been published.
pub open spec fn unpublished_search(
    emitter: RateLimitedResponseUpdateEmitter,
    sample: StreamSample,
) -> Option<WebSearchLifecycle> {
    match sample.web_search_lifecycle {
        Some(lifecycle) => if emitter.web_search_lifecycle_revision < lifecycle.revision {
            Some(lifecycle)
        } else {
            None
        },
        None => None,
    }
}

/// Less than the minimum interval has passed.
pub open spec fn too_soon(now: Moment, since: Moment) -> bool {
    now.since(since).nanos < PROVIDER_RESPONSE_UPDATE_MIN_INTERVAL_SECS * NANOS_PER_SEC
}

/// An update is due: at the end, at the first bytes, at a hosted-search transition, and otherwise
/// once the interval has passed. Before the first update any bytes are reason enough.
pub open spec fn due(
    emitter: RateLimitedResponseUpdateEmitter,
    sample: StreamSample,
    now: Moment,
    terminal_flush: bool,
) -> bool {
    ||| terminal_flush
    ||| !emitter.emitted_non_empty_sample && sample.response_bytes_received > 0
    ||| unpublished_search(emitter, sample) is Some
    ||| match emitter.last_update_emitted_at {
        None => sample.response_bytes_received != 0 || !too_soon(now, emitter.started_at),
        Some(last) => !too_soon(now, last),
    }
}

/// The hosted-search activity that changed since it was last published.
pub open spec fn activity_transition(
    emitter: RateLimitedResponseUpdateEmitter,
    sample: StreamSample,
) -> Option<bool> {
    if sample.web_search_active {
        if emitter.web_search_active != Some(true) {
            Some(true)
        } else {
            None
        }
    } else if emitter.web_search_active == Some(true) {
        Some(false)
    } else {
        None
    }
}

/// The status part of an update.
pub open spec fn search_status(
    emitter: RateLimitedResponseUpdateEmitter,
    sample: StreamSample,
) -> Option<ProviderResponseStatusUpdate> {
    let search = unpublished_search(emitter, sample);
    if activity_transition(emitter, sample) is Some || search is Some {
        Some(
            ProviderResponseStatusUpdate {
                text: if sample.web_search_active {
                    StatusText::SearchingWeb
                } else {
                    StatusText::WebSearchComplete
                },
                clear_response: false,
                retry: None,
                native_tool: match search {
                    Some(lifecycle) => Some(
                        NativeToolStatus { call_id: lifecycle.call_id, active: lifecycle.active },
                    ),
                    None => None,
                },
            },
        )
    } else {
        None
    }
}

/// An update that says nothing new.
pub open spec fn says_nothing(
    emitter: RateLimitedResponseUpdateEmitter,
    sample: StreamSample,
    content: StreamContent,
    now: Moment,
) -> bool {
    let stats = stats_at(emitter, sample, now);
    &&& content.deltas is None
    &&& content.compaction is None
    &&& stats.current == stats.previous
    &&& search_status(emitter, sample) is None
}

/// The progress update of a due sample.
pub open spec fn update_report(
    emitter: RateLimitedResponseUpdateEmitter,
    agent_prompt_id: String,
    prompt: Prompt,
    sample: StreamSample,
    content: StreamContent,
    now: Moment,
) -> Report {
    Report::ResponseUpdated(
        ProviderResponseUpdated {
            agent_prompt_id,
            agent_id: prompt.agent_id,
            originator: prompt.originator,
            deltas: content.deltas,
            compaction: content.compaction,
            status: search_status(emitter, sample),
            response_stats: Some(stats_at(emitter, sample, now)),
        },
    )
}

/// The emitter after an update was emitted.
pub open spec fn emitted(
    emitter: RateLimitedResponseUpdateEmitter,
    sample: StreamSample,
    now: Moment,
) -> RateLimitedResponseUpdateEmitter {
    RateLimitedResponseUpdateEmitter {
        last_stats_sample: stats_at(emitter, sample, now).current,
        last_update_emitted_at: Some(now),
        emitted_non_empty_sample: emitter.emitted_non_empty_sample
            || sample.response_bytes_received > 0,
        web_search_active: match activity_transition(emitter, sample) {
            Some(active) => Some(active),
            None => emitter.web_search_active,
        },
        web_search_lifecycle_revision: match unpublished_search(emitter, sample) {
            Some(lifecycle) => lifecycle.revision,
            None => emitter.web_search_lifecycle_revision,
        },
        ..emitter
    }
}

/// The emitter of a stream that began at `started_at`.
pub open spec fn fresh_emitter(started_at: Moment) -> RateLimitedResponseUpdateEmitter {
    RateLimitedResponseUpdateEmitter {
        started_at,
        last_update_emitted_at: None,
        last_stats_sample: ProviderResponseStatsSample {
            response_bytes_received: 0,
            elapsed_micros: 0,
        },
        emitted_non_empty_sample: false,
        first_semantic_output_elapsed: None,
        web_search_active: None,
        web_search_lifecycle_revision: 0,
    }
}

impl RateLimitedResponseUpdateEmitter {
    /// A stream that began at `started_at`.
    pub fn new_at(started_at: Moment) -> (res: Self)
        ensures
            res == fresh_emitter(started_at),
    {
        RateLimitedResponseUpdateEmitter {
            started_at,
            last_update_emitted_at: None,
            last_stats_sample: ProviderResponseStatsSample {
                response_bytes_received: 0,
                elapsed_micros: 0,
            },
            emitted_non_empty_sample: false,
            first_semantic_output_elapsed: None,
            web_search_active: None,
            web_search_lifecycle_revision: 0,
        }
    }

    /// Aligns public elapsed time to the backend's dispatch boundary, while nothing was emitted.
    pub fn mark_dispatched(&mut self, dispatched_at: Moment)
        ensures
            *final(self) == if old(self).last_update_emitted_at is None {
                RateLimitedResponseUpdateEmitter { started_at: dispatched_at, ..*old(self) }
            } else {
                *old(self)
            },
    {
        if self.last_update_emitted_at.is_none() {
            self.started_at = dispatched_at;
        }
    }

    /// Captures the time to the first token.
    pub fn observe(&mut self, sample: &StreamSample, now: Moment)
        ensures
            *final(self) == observed_at(*old(self), *sample, now),
    {
        if self.first_semantic_output_elapsed.is_none() && sample.has_timed_semantic_output {
            self.first_semantic_output_elapsed = Some(
                now.saturating_duration_since(self.started_at),
            );
        }
    }

    /// The progress since the previous update.
    pub fn response_stats_at(&self, sample: &StreamSample, now: Moment) -> (res:
        ProviderResponseStats)
        ensures
            res == stats_at(*self, *sample, now),
    {
        ProviderResponseStats {
            current: ProviderResponseStatsSample {
                response_bytes_received: sample.response_bytes_received,
                elapsed_micros: whole_micros(now.saturating_duration_since(self.started_at)),
            },
            previous: self.last_stats_sample,
            first_semantic_output_elapsed_micros: match self.first_semantic_output_elapsed {
                Some(elapsed) => Some(whole_micros(elapsed)),
                None => None,
            },
        }
    }

    fn searches(&self, sample: &StreamSample) -> (res: bool)
        ensures
            res == (unpublished_search(*self, *sample) is Some),
    {
        match &sample.web_search_lifecycle {
            Some(lifecycle) => self.web_search_lifecycle_revision < lifecycle.revision,
            None => false,
        }
    }

    /// Reports whether an update is due.
    pub fn is_due(&self, sample: &StreamSample, now: Moment, terminal_flush: bool) -> (res: bool)
        ensures
            res == due(*self, *sample, now, terminal_flush),
    {
        let interval: u128 = PROVIDER_RESPONSE_UPDATE_MIN_INTERVAL_SECS as u128 * NANOS_PER_SEC;
        terminal_flush || (!self.emitted_non_empty_sample && sample.response_bytes_received > 0)
            || self.searches(sample) || match self.last_update_emitted_at {
            None => sample.response_bytes_received != 0 || now.saturating_duration_since(
                self.started_at,
            ).nanos >= interval,
            Some(last) => now.saturating_duration_since(last).nanos >= interval,
        }
    }

    fn changed_activity(&self, sample: &StreamSample) -> (res: Option<bool>)
        ensures
            res == activity_transition(*self, *sample),
    {
        let published: bool = match self.web_search_active {
            Some(active) => active,
            None => false,
        };
        if sample.web_search_active {
            if published {
                None
            } else {
                Some(true)
            }
        } else if published {
            Some(false)
        } else {
            None
        }
    }

    /// Builds a due update and records it. An update that says nothing new is not emitted.
    pub fn emit(
        &mut self,
        agent_prompt_id: &String,
        prompt: &Prompt,
        sample: &StreamSample,
        content: StreamContent,
        now: Moment,
    ) -> (res: Option<Report>)
        ensures
            if says_nothing(*old(self), *sample, content, now) {
                res is None && *final(self) == *old(self)
            } else {
                &&& res == Some(
                    update_report(*old(self), *agent_prompt_id, *prompt, *sample, content, now),
                )
                &&& *final(self) == emitted(*old(self), *sample, now)
            },
    {
        let stats = self.response_stats_at(sample, now);
        let transition = self.changed_activity(sample);
        let searching: bool = self.searches(sample);
        let status = if transition.is_some() || searching {
            Some(
                ProviderResponseStatusUpdate {
                    text: if sample.web_search_active {
                        StatusText::SearchingWeb
                    } else {
                        StatusText::WebSearchComplete
                    },
                    clear_response: false,
                    retry: None,
                    native_tool: match &sample.web_search_lifecycle {
                        Some(lifecycle) => if searching {
                            Some(
                                NativeToolStatus {
                                    call_id: lifecycle.call_id.clone(),
                                    active: lifecycle.active,
                                },
                            )
                        } else {
                            None
                        },
                        None => None,
                    },
                },
            )
        } else {
            None
        };
        assert(status == search_status(*old(self), *sample));
        if content.deltas.is_none() && content.compaction.is_none() && stats.current
            == stats.previous && status.is_none() {
            return None;
        }
        self.last_stats_sample = stats.current;
        self.last_update_emitted_at = Some(now);
        self.emitted_non_empty_sample = self.emitted_non_empty_sample
            || sample.response_bytes_received > 0;
        if let Some(active) = transition {
            self.web_search_active = Some(active);
        }
        if searching {
            if let Some(lifecycle) = &sample.web_search_lifecycle {
                self.web_search_lifecycle_revision = lifecycle.revision;
            }
        }
        Some(
            Report::ResponseUpdated(
                ProviderResponseUpdated {
                    agent_prompt_id: agent_prompt_id.clone(),
                    agent_id: prompt.agent_id.clone(),
                    originator: prompt.originator.clone(),
                    deltas: content.deltas,
                    compaction: content.compaction,
                    status,
                    response_stats: Some(stats),
                },
            ),
        )
    }

    /// Observes one sample and emits its update when it is due.
    pub fn emit_at(
        &mut self,
        agent_prompt_id: &String,
        prompt: &Prompt,
        sample: &StreamSample,
        content: StreamContent,
        now: Moment,
        terminal_flush: bool,
    ) -> (res: Option<Report>)
        ensures
            ({
                let seen = observed_at(*old(self), *sample, now);
                if !due(seen, *sample, now, terminal_flush) || says_nothing(
                    seen,
                    *sample,
                    content,
                    now,
                ) {
                    res is None && *final(self) == seen
                } else {
                    &&& res == Some(
                        update_report(seen, *agent_prompt_id, *prompt, *sample, content, now),
                    )
                    &&& *final(self) == emitted(seen, *sample, now)
                }
            }),
            stepped(
                *old(self),
                *final(self),
                *agent_prompt_id,
                *prompt,
                *sample,
                content,
                now,
                terminal_flush,
                res,
            ),
    {
        self.observe(sample, now);
        if !self.is_due(sample, now, terminal_flush) {
            return None;
        }
        self.emit(agent_prompt_id, prompt, sample, content, now)
    }
}

/// Ordinary progress is rate-limited: after an update that carried bytes, the next one that is
/// neither the end nor a hosted-search transition comes at least the interval later.
pub proof fn progress_is_rate_limited(
    emitter: RateLimitedResponseUpdateEmitter,
    first: StreamSample,
    at: Moment,
    second: StreamSample,
    now: Moment,
)
    requires
        first.response_bytes_received > 0,
        due(observed_at(emitted(emitter, first, at), second, now), second, now, false),
        unpublished_search(emitted(emitter, first, at), second) is None,
    ensures
        at.nanos + PROVIDER_RESPONSE_UPDATE_MIN_INTERVAL_SECS * NANOS_PER_SEC <= now.nanos,
{
}

/// The time to the first token is captured once: no later sample changes it.
pub proof fn first_output_is_captured_once(
    emitter: RateLimitedResponseUpdateEmitter,
    first: StreamSample,
    at: Moment,
    second: StreamSample,
    now: Moment,
)
    requires
        first.has_timed_semantic_output,
    ensures
        observed_at(
            emitted(observed_at(emitter, first, at), first, at),
            second,
            now,
        ).first_semantic_output_elapsed == observed_at(
            emitter,
            first,
            at,
        ).first_semantic_output_elapsed,
        observed_at(emitter, first, at).first_semantic_output_elapsed is Some,
{
}

/// The report that a connection is being made.
pub open spec fn connecting_report(agent_prompt_id: String, prompt: Prompt) -> Report {
    Report::ResponseUpdated(
        ProviderResponseUpdated {
            agent_prompt_id,
            agent_id: prompt.agent_id,
            originator: prompt.originator,
            deltas: None,
            compaction: None,
            status: Some(
                ProviderResponseStatusUpdate {
                    text: StatusText::Connecting,
                    clear_response: false,
                    retry: None,
                    native_tool: None,
                },
            ),
            response_stats: None,
        },
    )
}

/// Builds the report that a connection is being made.
pub fn connecting_update(agent_prompt_id: &String, prompt: &Prompt) -> (res: Report)
    ensures
        res == connecting_report(*agent_prompt_id, *prompt),
{
    Report::ResponseUpdated(
        ProviderResponseUpdated {
            agent_prompt_id: agent_prompt_id.clone(),
            agent_id: prompt.agent_id.clone(),
            originator: prompt.originator.clone(),
            deltas: None,
            compaction: None,
            status: Some(
                ProviderResponseStatusUpdate {
                    text: StatusText::Connecting,
                    clear_response: false,
                    retry: None,
                    native_tool: None,
                },
            ),
            response_stats: None,
        },
    )
}

/// One sample was observed at `now`, and `report` is what it led to.
pub open spec fn stepped(
    before: RateLimitedResponseUpdateEmitter,
    after: RateLimitedResponseUpdateEmitter,
    agent_prompt_id: String,
    prompt: Prompt,
    sample: StreamSample,
    content: StreamContent,
    now: Moment,
    terminal_flush: bool,
    report: Option<Report>,
) -> bool {
    let seen = observed_at(before, sample, now);
    if !due(seen, sample, now, terminal_flush) || says_nothing(seen, sample, content, now) {
        report is None && after == seen
    } else {
        &&& report == Some(update_report(seen, agent_prompt_id, prompt, sample, content, now))
        &&& after == emitted(seen, sample, now)
    }
}

/// New content is never consumed without being reported: an emitted update carries exactly the
/// deltas and the compaction of its sample, under the prompt's own correlation, and the end of a
/// stream, its first bytes and a full second without an update each report what is new.
pub proof fn updates_carry_new_content(
    before: RateLimitedResponseUpdateEmitter,
    after: RateLimitedResponseUpdateEmitter,
    agent_prompt_id: String,
    prompt: Prompt,
    sample: StreamSample,
    content: StreamContent,
    now: Moment,
    terminal_flush: bool,
    report: Option<Report>,
)
    requires
        stepped(
            before,
            after,
            agent_prompt_id,
            prompt,
            sample,
            content,
            now,
            terminal_flush,
            report,
        ),
    ensures
        report is Some ==> (report->0 matches Report::ResponseUpdated(update) && {
            &&& update.deltas == content.deltas
            &&& update.compaction == content.compaction
            &&& update.agent_prompt_id == agent_prompt_id
            &&& update.agent_id == prompt.agent_id
            &&& update.originator == prompt.originator
        }),
        (content.deltas is Some || content.compaction is Some) && (terminal_flush
            || sample.response_bytes_received > 0 && !before.emitted_non_empty_sample
            || (before.last_update_emitted_at matches Some(last) && last.nanos + 1_000_000_000
            <= now.nanos)) ==> report is Some,
        terminal_flush && sample.response_bytes_received
            != before.last_stats_sample.response_bytes_received ==> report is Some,
{
}

/// Progress is neither lost nor counted twice: an update states the bytes received so far, the
/// whole microseconds since the stream began and the sample of the update before it, and only an
/// update moves the sample that the next one starts from.
pub proof fn updates_chain_their_progress(
    before: RateLimitedResponseUpdateEmitter,
    after: RateLimitedResponseUpdateEmitter,
    agent_prompt_id: String,
    prompt: Prompt,
    sample: StreamSample,
    content: StreamContent,
    now: Moment,
    terminal_flush: bool,
    report: Option<Report>,
)
    requires
        stepped(
            before,
            after,
            agent_prompt_id,
            prompt,
            sample,
            content,
            now,
            terminal_flush,
            report,
        ),
        before.started_at.nanos <= now.nanos,
        now.nanos - before.started_at.nanos < 1_000_000_000_000_000_000,
    ensures
        report is Some ==> (report->0 matches Report::ResponseUpdated(update)
            && update.response_stats matches Some(stats) && {
            &&& stats.previous == before.last_stats_sample
            &&& stats.current == after.last_stats_sample
            &&& stats.current.response_bytes_received == sample.response_bytes_received
            &&& stats.current.elapsed_micros * 1_000 <= now.nanos - before.started_at.nanos
                < (stats.current.elapsed_micros + 1) * 1_000
            &&& (stats.first_semantic_output_elapsed_micros is Some
                <==> before.first_semantic_output_elapsed is Some
                || sample.has_timed_semantic_output)
            &&& before.first_semantic_output_elapsed is None && sample.has_timed_semantic_output
                ==> stats.first_semantic_output_elapsed_micros == Some(
                stats.current.elapsed_micros,
            )
        }),
        report is Some ==> after.last_update_emitted_at == Some(now),
        report is Some ==> after.emitted_non_empty_sample == (before.emitted_non_empty_sample
            || sample.response_bytes_received > 0),
        report is None ==> {
            &&& after.last_update_emitted_at == before.last_update_emitted_at
            &&& after.last_stats_sample == before.last_stats_sample
            &&& after.emitted_non_empty_sample == before.emitted_non_empty_sample
            &&& after.web_search_active == before.web_search_active
            &&& after.web_search_lifecycle_revision == before.web_search_lifecycle_revision
        },
        after.started_at == before.started_at,
{
}

/// Every new revision of a hosted search is reported at once, with the call it belongs to and
/// whether it is active, and is not reported again; an update without a new revision or a change
/// of activity says nothing of a search.
pub proof fn search_transitions_are_reported_once(
    before: RateLimitedResponseUpdateEmitter,
    after: RateLimitedResponseUpdateEmitter,
    agent_prompt_id: String,
    prompt: Prompt,
    sample: StreamSample,
    content: StreamContent,
    now: Moment,
    terminal_flush: bool,
    report: Option<Report>,
)
    requires
        stepped(
            before,
            after,
            agent_prompt_id,
            prompt,
            sample,
            content,
            now,
            terminal_flush,
            report,
        ),
    ensures
        sample.web_search_lifecycle matches Some(lifecycle) ==> (
        before.web_search_lifecycle_revision < lifecycle.revision ==> {
            &&& report matches Some(Report::ResponseUpdated(update))
            &&& update.status matches Some(status)
            &&& status.native_tool matches Some(tool)
            &&& tool.call_id == lifecycle.call_id
            &&& tool.active == lifecycle.active
            &&& !status.clear_response
            &&& status.retry is None
            &&& after.web_search_lifecycle_revision == lifecycle.revision
        }),
        report matches Some(Report::ResponseUpdated(update)) ==> {
            let new_revision = sample.web_search_lifecycle matches Some(lifecycle)
                && before.web_search_lifecycle_revision < lifecycle.revision;
            let was_active = before.web_search_active == Some(true);
            &&& update.status is Some <==> new_revision || was_active != sample.web_search_active
            &&& update.status matches Some(status) ==> {
                &&& status.text is SearchingWeb <==> sample.web_search_active
                &&& status.text is WebSearchComplete <==> !sample.web_search_active
                &&& status.native_tool is Some <==> new_revision
            }
            &&& (after.web_search_active == Some(true)) == sample.web_search_active
        },
        before.web_search_lifecycle_revision <= after.web_search_lifecycle_revision,
{
}

/// Between two updates less than a second apart nothing is reported, unless bytes arrive for the
/// first time, a hosted search makes a transition or the stream ends; before the first update a
/// stream without bytes stays quiet for its first second.
pub proof fn quiet_between_updates(
    before: RateLimitedResponseUpdateEmitter,
    after: RateLimitedResponseUpdateEmitter,
    agent_prompt_id: String,
    prompt: Prompt,
    sample: StreamSample,
    content: StreamContent,
    now: Moment,
    report: Option<Report>,
)
    requires
        stepped(before, after, agent_prompt_id, prompt, sample, content, now, false, report),
        before.emitted_non_empty_sample || sample.response_bytes_received == 0,
        sample.web_search_lifecycle matches Some(lifecycle) ==> lifecycle.revision
            <= before.web_search_lifecycle_revision,
        match before.last_update_emitted_at {
            Some(last) => now.nanos < last.nanos + 1_000_000_000,
            None => sample.response_bytes_received == 0 && now.nanos < before.started_at.nanos
                + 1_000_000_000,
        },
    ensures
        report is None,
{
}

/// The report that a connection is being made belongs to the prompt, discards nothing and carries
/// no content.
pub proof fn connecting_keeps_output(agent_prompt_id: String, prompt: Prompt)
    ensures
        connecting_report(agent_prompt_id, prompt) matches Report::ResponseUpdated(update) && {
            &&& update.agent_prompt_id == agent_prompt_id
            &&& update.agent_id == prompt.agent_id
            &&& update.originator == prompt.originator
            &&& update.deltas is None
            &&& update.compaction is None
            &&& update.response_stats is None
            &&& update.status matches Some(status)
            &&& status.text is Connecting
            &&& !status.clear_response
            &&& status.retry is None
            &&& status.native_tool is None
        },
{
}

/// A stream begins with nothing emitted, nothing received and no search seen.
pub proof fn fresh_stream_has_emitted_nothing(
    started_at: Moment,
    emitter: RateLimitedResponseUpdateEmitter,
)
    requires
        emitter == fresh_emitter(started_at),
    ensures
        emitter.started_at == started_at,
        emitter.last_update_emitted_at is None,
        emitter.last_stats_sample.response_bytes_received == 0,
        emitter.last_stats_sample.elapsed_micros == 0,
        !emitter.emitted_non_empty_sample,
        emitter.first_semantic_output_elapsed is None,
        emitter.web_search_active is None,
        emitter.web_search_lifecycle_revision == 0,
{
}

/// An update is sent for nothing but news: without new content, bytes, time or search activity
/// none is sent, even at the end; once a second has passed since the last one, bytes or time that
/// it did not state are reason enough.
pub proof fn updates_are_sent_for_news(
    before: RateLimitedResponseUpdateEmitter,
    after: RateLimitedResponseUpdateEmitter,
    agent_prompt_id: String,
    prompt: Prompt,
    sample: StreamSample,
    content: StreamContent,
    now: Moment,
    terminal_flush: bool,
    report: Option<Report>,
)
    requires
        stepped(
            before,
            after,
            agent_prompt_id,
            prompt,
            sample,
            content,
            now,
            terminal_flush,
            report,
        ),
        before.started_at.nanos <= now.nanos,
        now.nanos - before.started_at.nanos < 1_000_000_000_000_000_000,
    ensures
        ({
            let stated = before.last_stats_sample;
            let same_bytes = sample.response_bytes_received == stated.response_bytes_received;
            let same_time = stated.elapsed_micros * 1_000 <= now.nanos - before.started_at.nanos
                < (stated.elapsed_micros + 1) * 1_000;
            let same_search = (before.web_search_active == Some(true)) == sample.web_search_active
                && (sample.web_search_lifecycle matches Some(lifecycle) ==> lifecycle.revision
                <= before.web_search_lifecycle_revision);
            &&& content.deltas is None && content.compaction is None && same_bytes && same_time
                && same_search ==> report is None
            &&& (terminal_flush || (before.last_update_emitted_at matches Some(last) && last.nanos
                + 1_000_000_000 <= now.nanos)) && !(same_bytes && same_time) ==> report is Some
        }),
        before.first_semantic_output_elapsed is Some ==> after.first_semantic_output_elapsed
            == before.first_semantic_output_elapsed,
{
}

} // verus!
