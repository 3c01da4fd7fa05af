//! Parked prompts: deadlines, shared cooldowns, and exclusive ownership.

use std::collections::BTreeSet;

use tau_ext_provider_builtin::clock::{Moment, Span};
use tau_ext_provider_builtin::names::NameTable;
use tau_ext_provider_builtin::prompt::{
    BackendProfileIdentity, ModelId, Prompt, PromptBackend, PromptJob, PromptOperation,
};
use tau_ext_provider_builtin::retry::{
    cooldown_due_for_job, cooldown_jitter, hint_boundary_jitter, install_shared_cooldown,
    reconcile_inference_identity, retry_common_due, saturating_retry_attempt,
    saturating_retry_delay, scheduler_retry_hint, stable_retry_hash, PromptRetryDisposition,
    PromptRetryPolicy, PromptRetryState, RetryClass, SharedCooldown,
};
use tau_ext_provider_builtin::scheduler::{
    wait_until, CooldownConstraint, RetryScheduleQueue, RetrySchedulerAction, RetrySchedulerState,
    SchedulerCommand,
};

const EPOCH: Moment = Moment { nanos: 5_000_000_000 };

fn after(secs: u64) -> Moment {
    Moment { nanos: EPOCH.nanos + Span::from_secs(secs).nanos }
}

fn text(value: &str) -> String {
    value.to_owned()
}

fn scheduled_job(prompt_id: &str, provider: &str) -> PromptJob {
    PromptJob {
        agent_prompt_id: text(prompt_id),
        debug_provider_requests: false,
        prompt: Prompt {
            agent_prompt_id: text(prompt_id),
            agent_id: text("agent-1"),
            session_id: text("session-1"),
            originator: text("user"),
            model: ModelId { provider: text(provider), model: text("gpt-5.6-sol") },
            operation: PromptOperation::Inference,
            tools_ref: None,
            content: 17,
        },
        backend: PromptBackend::Unavailable { login_required: None },
        pinned_chatgpt_identity: None,
        profile_identity: None,
        retry_state: PromptRetryState::new(),
        observed_backend: None,
        cancel_generation: 0,
        manual_cooldown_bypass: false,
        cooldown_probe: None,
    }
}

fn deadlines(queue: &RetryScheduleQueue) -> Vec<(String, String, Moment)> {
    (0..queue.len())
        .map(|i| {
            let entry = queue.entry(i);
            (
                entry.job.agent_prompt_id.clone(),
                entry.job.prompt.model.provider.clone(),
                entry.due,
            )
        })
        .collect()
}

fn park(queue: &mut RetryScheduleQueue, due: Moment, id: &str, provider: &str) {
    assert!(queue.schedule(due, None, scheduled_job(id, provider)).is_ok());
}

#[test]
fn a_shorter_extension_never_moves_a_parked_prompt_earlier() {
    let mut queue = RetryScheduleQueue::new();
    let constraint = CooldownConstraint { generation: 1, boundary: after(86_400) };
    let job = scheduled_job("limited-1", "limited");
    let parked_until = cooldown_due_for_job(after(86_400), &job);
    assert!(queue.schedule(EPOCH, Some(constraint), job).is_ok());
    assert_eq!(queue.entry(0).due, parked_until);
    queue.extend_cooldown(&text("limited"), after(60), 2);
    assert_eq!(queue.entry(0).due, parked_until);
    assert_eq!(queue.entry(0).cooldown_generation, Some(2));
    queue.extend_cooldown(&text("limited"), after(172_800), 3);
    let job = scheduled_job("limited-1", "limited");
    assert_eq!(queue.entry(0).due, cooldown_due_for_job(after(172_800), &job));
    queue.release_cooldown(&text("limited"), 3, after(5));
    assert_eq!(queue.entry(0).due, cooldown_due_for_job(after(5), &job));
}

#[test]
fn retry_schedule_queue_enforces_shared_cooldown_without_cross_provider_herd() {
    let initial_due = after(10);
    let extended_boundary = after(60);
    let unaffected_due = after(12);
    let mut queue = RetryScheduleQueue::new();
    for id in ["same-1", "same-2", "same-3", "same-4"] {
        park(&mut queue, initial_due, id, "limited");
    }
    park(&mut queue, unaffected_due, "peer", "healthy");

    queue.extend_cooldown(&text("limited"), extended_boundary, 1);

    let deadlines = deadlines(&queue);
    assert_eq!(queue.len(), 5);
    let limited = deadlines
        .iter()
        .filter(|(_, provider, _)| provider == "limited")
        .map(|(_, _, due)| due.nanos)
        .collect::<Vec<_>>();
    assert_eq!(limited.len(), 4);
    assert!(
        limited.iter().all(|due| *due > extended_boundary.nanos),
        "same-scope prompts need positive jitter after the common boundary: {limited:?}"
    );
    assert_eq!(
        limited.iter().copied().collect::<BTreeSet<_>>().len(),
        limited.len(),
        "stable prompt-local jitter must prevent an exact reset-boundary herd"
    );
    assert!(deadlines
        .iter()
        .any(|(id, provider, due)| id == "peer" && provider == "healthy" && *due == unaffected_due));
    assert!(
        queue.pop_due(after(11)).is_none(),
        "fake time before all deadlines must not execute an attempt"
    );
    assert_eq!(
        queue
            .pop_due(unaffected_due)
            .expect("different provider is independently due")
            .agent_prompt_id,
        "peer"
    );
    assert_eq!(queue.len(), 4);
}

#[test]
fn retry_schedule_queue_release_is_provider_scoped_and_jittered() {
    let far_due = after(86_400);
    let unrelated_due = after(90);
    let mut queue = RetryScheduleQueue::new();
    for id in ["limited-1", "limited-2", "limited-3"] {
        let cooldown = Some(CooldownConstraint { generation: 1, boundary: far_due });
        assert!(queue.schedule(EPOCH, cooldown, scheduled_job(id, "limited")).is_ok());
    }
    let independent_due = after(45);
    park(&mut queue, independent_due, "independent", "limited");
    let newer = Some(CooldownConstraint { generation: 2, boundary: far_due });
    assert!(queue.schedule(EPOCH, newer, scheduled_job("newer-generation", "limited")).is_ok());
    park(&mut queue, unrelated_due, "unrelated", "healthy");

    queue.release_cooldown(&text("limited"), 1, EPOCH);

    let deadlines = deadlines(&queue);
    let released = deadlines
        .iter()
        .filter(|(id, _, _)| id.starts_with("limited-"))
        .map(|(_, _, due)| due.nanos)
        .collect::<Vec<_>>();
    assert_eq!(queue.len(), 6, "release must not transfer or duplicate ownership");
    assert!(released.iter().all(|due| *due > EPOCH.nanos && *due < far_due.nanos));
    assert_eq!(
        released.iter().collect::<BTreeSet<_>>().len(),
        released.len(),
        "stable anti-herd jitter must remain distinct"
    );
    assert!(deadlines.iter().any(|(id, provider, due)| {
        id == "unrelated" && provider == "healthy" && *due == unrelated_due
    }));
    assert!(deadlines.iter().any(|(id, provider, due)| {
        id == "independent" && provider == "limited" && *due == independent_due
    }));
    assert!(deadlines
        .iter()
        .any(|(id, _, due)| id == "newer-generation" && due.nanos > far_due.nanos));
}

#[test]
fn retry_scheduler_state_release_is_generation_scoped_and_deadline_safe() {
    let independent_due = after(30);
    let boundary = after(5 * 86_400);
    let mut state = RetrySchedulerState::new();
    for (id, generation) in [("current", 7), ("newer", 8)] {
        assert!(state
            .step(SchedulerCommand::Schedule {
                independent_due,
                cooldown: Some(CooldownConstraint { generation, boundary }),
                job: scheduled_job(id, "limited"),
            })
            .is_empty());
    }
    assert!(state
        .step(SchedulerCommand::ReleaseCooldown {
            provider: text("limited"),
            generation: 7,
            now: EPOCH,
        })
        .is_empty());

    assert!(
        state.advance(Moment { nanos: independent_due.nanos - 1 }).is_empty(),
        "release cannot discard the prompt-local deadline"
    );
    let due = state.advance(Moment {
        nanos: independent_due.nanos + Span::from_millis(5_000).nanos,
    });
    assert_eq!(due.len(), 1);
    assert!(matches!(
        &due[0],
        RetrySchedulerAction::Due(job) if job.agent_prompt_id == "current"
    ));
    assert_eq!(state.queue.len(), 1, "newer evidence remains parked");
}

#[test]
fn newer_shorter_shared_evidence_preserves_long_boundary() {
    let long = after(86_400);
    let short = after(60);
    let mut cooldowns = NameTable::new();
    let mut generation = 0;
    let first = install_shared_cooldown(
        &mut cooldowns,
        &mut generation,
        text("limited"),
        long,
        RetryClass::UsageWindow,
    );
    let second = install_shared_cooldown(
        &mut cooldowns,
        &mut generation,
        text("limited"),
        short,
        RetryClass::Throttle,
    );
    assert_eq!(first.generation, 1);
    assert_eq!(second.generation, 2, "new evidence advances authority");
    assert_eq!(second.not_before, long, "new evidence cannot shorten");
    assert_eq!(
        second.class,
        RetryClass::UsageWindow,
        "the visible reason continues to describe the controlling boundary"
    );
    let authoritative = cooldowns.get("limited").expect("cooldown");
    assert_eq!(authoritative.generation, 2);
    assert_eq!(authoritative.not_before, long);
    assert_eq!(authoritative.class, RetryClass::UsageWindow);
}

#[test]
fn overflowing_trusted_hint_falls_back_to_policy_due() {
    let now = EPOCH;
    let policy = Span::from_secs(17);
    let far = Moment { nanos: tau_ext_provider_builtin::clock::LAST_MOMENT_NANOS - policy.nanos };
    assert_eq!(
        retry_common_due(now, policy, Span::from_secs(u64::MAX)),
        Moment { nanos: now.nanos + policy.nanos }
    );
    assert_eq!(
        retry_common_due(far, policy, Span::from_secs(u64::MAX)),
        Moment { nanos: far.nanos + policy.nanos }
    );
}

#[test]
fn usage_window_reset_hint_does_not_suppress_policy_retries() {
    let distant_reset = Some(Span::from_secs(419_322));
    assert_eq!(scheduler_retry_hint(RetryClass::UsageWindow, distant_reset), None);
    assert_eq!(
        scheduler_retry_hint(RetryClass::Throttle, distant_reset),
        distant_reset,
        "other trusted retry hints retain their lower-bound behavior"
    );

    let policy_delay = Span::from_secs(17);
    let hint_delay = scheduler_retry_hint(RetryClass::UsageWindow, distant_reset)
        .unwrap_or(Span { nanos: 0 });
    assert_eq!(
        retry_common_due(EPOCH, policy_delay, hint_delay),
        Moment { nanos: EPOCH.nanos + policy_delay.nanos }
    );
    assert_eq!(
        retry_common_due(EPOCH, policy_delay, Span::from_secs(90)),
        after(90),
        "a trusted hint is a lower bound"
    );
}

#[test]
fn removed_and_readded_profile_does_not_inherit_shared_cooldown() {
    let limited = text("limited");
    let healthy = text("healthy");
    let boundary = after(86_400);
    let old = SharedCooldown {
        not_before: boundary,
        class: RetryClass::UsageWindow,
        generation: 7,
    };
    let unrelated = SharedCooldown {
        not_before: boundary,
        class: RetryClass::Throttle,
        generation: 3,
    };
    let mut identities = NameTable::new();
    identities.insert(limited.clone(), Some(BackendProfileIdentity::from_test_value(10)));
    identities.insert(healthy.clone(), Some(BackendProfileIdentity::from_test_value(20)));
    let mut cooldowns = NameTable::new();
    cooldowns.insert(limited.clone(), old);
    cooldowns.insert(healthy.clone(), unrelated);

    let (removed, old_cooldown) =
        reconcile_inference_identity(&mut identities, &mut cooldowns, &limited, None);
    assert!(removed);
    assert_eq!(old_cooldown.expect("old shared state").generation, 7);
    assert!(!cooldowns.contains_key("limited"));
    assert_eq!(
        cooldowns.get("healthy").map(|state| state.generation),
        Some(3),
        "profile removal is provider scoped"
    );
    cooldowns.insert(
        limited.clone(),
        SharedCooldown { not_before: boundary, class: RetryClass::Auth, generation: 8 },
    );

    let (readded, inherited) = reconcile_inference_identity(
        &mut identities,
        &mut cooldowns,
        &limited,
        Some(BackendProfileIdentity::from_test_value(11)),
    );
    assert!(readded);
    assert_eq!(inherited.expect("unavailable-profile shared state").generation, 8);
    assert!(!cooldowns.contains_key("limited"));
    assert_eq!(
        identities.get("limited"),
        Some(&Some(BackendProfileIdentity::from_test_value(11)))
    );
    assert_eq!(cooldowns.get("healthy").map(|state| state.generation), Some(3));
}

#[test]
fn retry_schedule_queue_cancellation_is_prompt_scoped_and_immediate() {
    let due = after(86_400);
    let mut queue = RetryScheduleQueue::new();
    park(&mut queue, due, "target", "limited");
    park(&mut queue, due, "peer", "limited");

    let canceled = queue.cancel(&text("target")).expect("one canceled job");
    assert_eq!(canceled.agent_prompt_id, "target");
    assert_eq!(queue.len(), 1, "same-cooldown peer must remain delayed");
    assert_eq!(
        queue.cancel_all()[0].agent_prompt_id,
        "peer",
        "global cancellation must synchronously drain the remaining queue"
    );
    assert_eq!(queue.len(), 0);
}

#[test]
fn retry_schedule_queue_timer_and_manual_release_are_mutually_exclusive() {
    let mut timer_wins = RetryScheduleQueue::new();
    park(&mut timer_wins, EPOCH, "timer-wins", "limited");
    assert!(timer_wins.pop_due(EPOCH).is_some());
    assert!(timer_wins.cancel(&text("timer-wins")).is_none());

    let mut manual_wins = RetryScheduleQueue::new();
    park(&mut manual_wins, EPOCH, "manual-wins", "limited");
    assert!(manual_wins.cancel(&text("manual-wins")).is_some());
    assert!(manual_wins.pop_due(EPOCH).is_none());
}

#[test]
fn retry_schedule_queue_double_manual_release_moves_exactly_one_job() {
    let due = after(60);
    let mut queue = RetryScheduleQueue::new();
    park(&mut queue, due, "target", "limited");
    park(&mut queue, due, "peer", "limited");

    let first = queue.cancel(&text("target"));
    let second = queue.cancel(&text("target"));
    assert!(first.is_some());
    assert!(second.is_none());
    assert_eq!(queue.len(), 1);
    assert_eq!(queue.cancel(&text("peer")).expect("peer").agent_prompt_id, "peer");
}

#[test]
fn retry_schedule_queue_manual_transfer_preserves_logical_prompt_state() {
    let due = after(60);
    let mut job = scheduled_job("target", "limited");
    job.retry_state.attempts = 7;
    job.retry_state.previous = 13;
    job.retry_state.current = 21;
    job.debug_provider_requests = true;
    let expected_prompt = job.prompt.clone();
    let mut queue = RetryScheduleQueue::new();
    assert!(queue.schedule(due, None, job).is_ok(), "unique parked prompt");

    let mut transferred = queue.cancel(&text("target")).expect("parked job");
    assert_eq!(transferred.retry_state.attempts, 7);
    assert_eq!(transferred.retry_state.previous, 13);
    assert_eq!(transferred.retry_state.current, 21);
    assert!(transferred.debug_provider_requests);
    assert_eq!(transferred.prompt.agent_prompt_id, expected_prompt.agent_prompt_id);
    assert_eq!(transferred.prompt.agent_id, expected_prompt.agent_id);
    assert_eq!(transferred.prompt.session_id, expected_prompt.session_id);
    assert_eq!(transferred.prompt.originator, expected_prompt.originator);
    assert_eq!(transferred.prompt.model.provider, expected_prompt.model.provider);
    assert_eq!(transferred.prompt.model.model, expected_prompt.model.model);
    assert_eq!(transferred.prompt.operation, expected_prompt.operation);
    assert_eq!(transferred.prompt.content, expected_prompt.content);
    assert!(!transferred.manual_cooldown_bypass);

    transferred.manual_cooldown_bypass = true;
    assert!(transferred.manual_cooldown_bypass);
}

#[test]
fn retry_schedule_rejects_duplicate_prompt_identity() {
    let mut queue = RetryScheduleQueue::new();
    let due = after(30);
    park(&mut queue, due, "same", "limited");
    let duplicate = queue.schedule(due, None, scheduled_job("same", "limited"));
    assert!(duplicate.is_err(), "duplicate prompt must be returned");
    assert_eq!(queue.len(), 1, "original remains the sole parked owner");
}

#[test]
fn equal_deadlines_come_due_in_arrival_order() {
    let mut queue = RetryScheduleQueue::new();
    for id in ["b", "a", "c"] {
        park(&mut queue, after(1), id, "limited");
    }
    let order = std::iter::from_fn(|| queue.pop_due(after(2)))
        .map(|job| job.agent_prompt_id)
        .collect::<Vec<_>>();
    assert_eq!(order, vec![text("b"), text("a"), text("c")]);
}

#[test]
fn a_command_does_not_overtake_a_timer_that_was_due_before_it() {
    let mut state = RetrySchedulerState::new();
    let parked = state.step(SchedulerCommand::Schedule {
        independent_due: after(10),
        cooldown: None,
        job: scheduled_job("due", "limited"),
    });
    assert!(parked.is_empty());
    let actions = state.step_mailbox(after(11), SchedulerCommand::Cancel(text("due")));
    assert!(matches!(
        actions.as_slice(),
        [RetrySchedulerAction::Due(job), ..] if job.agent_prompt_id == "due"
    ));
    assert_eq!(state.queue.len(), 0);
}

#[test]
fn the_scheduler_waits_exactly_until_the_next_deadline() {
    let mut state = RetrySchedulerState::new();
    assert_eq!(wait_until(state.next_due(), EPOCH), None);
    state.step(SchedulerCommand::Schedule {
        independent_due: after(10),
        cooldown: None,
        job: scheduled_job("due", "limited"),
    });
    assert_eq!(wait_until(state.next_due(), after(4)), Some(Span::from_secs(6)));
    assert_eq!(wait_until(state.next_due(), after(40)), Some(Span { nanos: 0 }));
}

fn expected_hash(prompt_id: &str, attempt: u64) -> u64 {
    let mut hash = 0xcbf2_9ce4_8422_2325_u64 ^ attempt;
    for byte in prompt_id.bytes() {
        hash = (hash ^ u64::from(byte)).wrapping_mul(0x100_0000_01b3);
    }
    hash
}

#[test]
fn the_retry_hash_is_stable_over_prompt_and_attempt() {
    let expected = expected_hash("prompt-\u{e9}", 3);
    assert_eq!(stable_retry_hash("prompt-\u{e9}", 3), expected);
    assert_eq!(stable_retry_hash("", 0), 0xcbf2_9ce4_8422_2325);
    assert_eq!(
        cooldown_jitter("prompt-\u{e9}", 3),
        Span::from_millis(1 + expected % 5_000)
    );
    assert_eq!(hint_boundary_jitter("prompt-\u{e9}", 3), Span::from_secs(1 + expected % 5));
    let job = scheduled_job("prompt", "limited");
    assert_eq!(
        cooldown_due_for_job(EPOCH, &job).nanos,
        EPOCH.nanos + cooldown_jitter("prompt", 1).nanos
    );
}

#[test]
fn generated_delays_grow_by_fibonacci_up_to_the_ceiling() {
    let mut state = PromptRetryState::new();
    let ceiling = Span::from_secs(60);
    for (attempt, base) in [10_000_u64, 10_000, 10_000, 20_000, 30_000, 50_000, 50_000, 50_000]
        .into_iter()
        .enumerate()
    {
        let attempt = attempt as u64 + 1;
        let jitter = expected_hash("prompt", attempt) % (base / 5 + 1);
        assert_eq!(
            state.next_delay(ceiling, "prompt"),
            Span::from_millis((base + jitter).min(60_000)),
            "attempt {attempt}"
        );
        assert_eq!(state.attempts, attempt);
    }
}

#[test]
fn standalone_compaction_has_five_attempts_and_inference_has_no_limit() {
    let compaction = PromptRetryPolicy::for_operation(PromptOperation::StandaloneCompaction);
    assert!(matches!(compaction.after_failure(3), PromptRetryDisposition::Retry));
    assert!(!matches!(compaction.after_failure(4), PromptRetryDisposition::Retry));
    let inference = PromptRetryPolicy::for_operation(PromptOperation::Inference);
    assert!(matches!(inference.after_failure(u64::MAX), PromptRetryDisposition::Retry));
}

#[test]
fn wire_counts_saturate() {
    assert_eq!(saturating_retry_attempt(7), 7);
    assert_eq!(saturating_retry_attempt(u64::MAX), u32::MAX);
    assert_eq!(saturating_retry_delay(Span::from_millis(1_999)), 1);
    assert_eq!(saturating_retry_delay(Span::from_secs(u64::MAX)), u32::MAX);
}
