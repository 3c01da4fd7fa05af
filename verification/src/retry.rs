//! Retry cadence, attempt authority, and shared provider cooldowns.

use vstd::prelude::*;

use crate::clock::{
    duration_millis_u64, later, longer, Moment, Span, LAST_MOMENT_NANOS, NANOS_PER_MILLI,
    NANOS_PER_SEC,
};
use crate::names::NameTable;
use crate::prompt::{BackendProfileIdentity, PromptJob, PromptOperation};

verus! {

/// First and smallest generated retry delay, in milliseconds.
pub const RETRY_BASE_DELAY_MILLIS: u64 = 10_000;

/// Widest prompt-local jitter past a shared boundary, in milliseconds.
pub const RESET_BOUNDARY_JITTER_MAX_MILLIS: u64 = 5_000;

/// Widest prompt-local jitter past a provider hint, in seconds.
pub const RESET_BOUNDARY_JITTER_MAX_SECS: u64 = 5;

/// Why one provider attempt failed transiently.
#[derive(Clone, Copy, Debug, PartialEq, Eq, Structural)]
pub enum RetryClass {
    Transport,
    Overload,
    Throttle,
    UsageWindow,
    Account,
    Auth,
    Unknown,
}

/// One classified transient failure, with the provider policy's answers for its class.
#[derive(Clone, Copy, Debug, PartialEq, Eq, Structural)]
pub struct RetryDecision {
    pub class: RetryClass,
    /// Trusted provider hint.
    pub retry_after: Option<Span>,
    /// Longest delay that the class generates by itself.
    pub delay_ceiling: Span,
    /// Whether evidence of this class holds for every prompt of the provider profile.
    pub shares_cooldown: bool,
}

/// One byte of the retry hash.
pub open spec fn hash_byte(hash: u64, byte: u8) -> u64 {
    (hash ^ (byte as u64)).wrapping_mul(0x100_0000_01b3)
}

/// The retry hash of `bytes` from `seed`.
pub open spec fn hash_bytes(seed: u64, bytes: Seq<u8>) -> u64
    decreases bytes.len(),
{
    if bytes.len() == 0 {
        seed
    } else {
        hash_byte(hash_bytes(seed, bytes.drop_last()), bytes.last())
    }
}

/// The stable hash of a prompt id (in UTF-8) and an attempt ordinal.
pub open spec fn retry_hash(prompt_id: Seq<char>, attempt: u64) -> u64 {
    hash_bytes(0xcbf2_9ce4_8422_2325u64 ^ attempt, vstd::utf8::encode_utf8(prompt_id))
}

/// Hashes a prompt id and an attempt ordinal, identically in every process.
pub fn stable_retry_hash(prompt_id: &str, attempt: u64) -> (res: u64)
    ensures
        res == retry_hash(prompt_id@, attempt),
{
    let mut hash: u64 = 0xcbf2_9ce4_8422_2325u64 ^ attempt;
    let bytes = prompt_id.as_bytes();
    let ghost seed = hash;
    let mut i: usize = 0;
    assert(bytes@.take(0) =~= Seq::<u8>::empty());
    while i < bytes.len()
        invariant
            bytes@ == vstd::utf8::encode_utf8(prompt_id@),
            i <= bytes@.len(),
            hash == hash_bytes(seed, bytes@.take(i as int)),
        decreases bytes@.len() - i,
    {
        hash = hash ^ (bytes[i] as u64);
        hash = hash.wrapping_mul(0x100_0000_01b3);
        assert(bytes@.take(i + 1).drop_last() =~= bytes@.take(i as int));
        i = i + 1;
    }
    assert(bytes@.take(i as int) =~= bytes@);
    hash
}

/// Prompt-local anti-herd jitter past a shared boundary.
pub open spec fn jitter(prompt_id: Seq<char>, attempt: u64) -> Span {
    Span {
        nanos: ((1 + retry_hash(prompt_id, attempt) % RESET_BOUNDARY_JITTER_MAX_MILLIS)
            * NANOS_PER_MILLI) as u128,
    }
}

/// Jitter past a shared boundary, from one millisecond to [`RESET_BOUNDARY_JITTER_MAX_MILLIS`].
pub fn cooldown_jitter(prompt_id: &str, attempt: u64) -> (res: Span)
    ensures
        res == jitter(prompt_id@, attempt),
        NANOS_PER_MILLI <= res.nanos <= RESET_BOUNDARY_JITTER_MAX_MILLIS * NANOS_PER_MILLI,
{
    let millis: u64 = 1 + stable_retry_hash(prompt_id, attempt) % RESET_BOUNDARY_JITTER_MAX_MILLIS;
    Span::from_millis(millis)
}

/// Jitter past a trusted provider hint, in whole seconds.
pub open spec fn hint_jitter(prompt_id: Seq<char>, attempt: u64) -> Span {
    Span {
        nanos: ((1 + retry_hash(prompt_id, attempt) % RESET_BOUNDARY_JITTER_MAX_SECS)
            * NANOS_PER_SEC) as u128,
    }
}

/// Jitter past a trusted provider hint, from one to [`RESET_BOUNDARY_JITTER_MAX_SECS`] seconds.
pub fn hint_boundary_jitter(prompt_id: &str, attempt: u64) -> (res: Span)
    ensures
        res == hint_jitter(prompt_id@, attempt),
{
    let secs: u64 = 1 + stable_retry_hash(prompt_id, attempt) % RESET_BOUNDARY_JITTER_MAX_SECS;
    Span::from_secs(secs)
}

/// One more than `attempts`, saturating.
pub open spec fn next_attempt(attempts: u64) -> u64 {
    if attempts == u64::MAX {
        u64::MAX
    } else {
        (attempts + 1) as u64
    }
}

/// When `job` may pass a shared boundary.
pub open spec fn cooldown_due(not_before: Moment, job: PromptJob) -> Moment {
    not_before.plus_or_self(
        jitter(job.agent_prompt_id@, next_attempt(job.retry_state.attempts)),
    )
}

/// When `job` may pass a shared boundary: the boundary plus its positive jitter.
pub fn cooldown_due_for_job(not_before: Moment, job: &PromptJob) -> (res: Moment)
    ensures
        res == cooldown_due(not_before, *job),
{
    let jitter = cooldown_jitter(
        job.agent_prompt_id.as_str(),
        job.retry_state.attempts.saturating_add(1),
    );
    not_before.add_or_self(jitter)
}

/// Wherever the clock has room, a job passes a shared boundary strictly after it, and at most
/// [`RESET_BOUNDARY_JITTER_MAX_MILLIS`] later.
pub proof fn jitter_separates_herd(not_before: Moment, job: PromptJob)
    requires
        not_before.nanos + RESET_BOUNDARY_JITTER_MAX_MILLIS * NANOS_PER_MILLI
            <= LAST_MOMENT_NANOS,
    ensures
        not_before.nanos < cooldown_due(not_before, job).nanos,
        cooldown_due(not_before, job).nanos <= not_before.nanos + RESET_BOUNDARY_JITTER_MAX_MILLIS
            * NANOS_PER_MILLI,
{
}

/// Saturating Fibonacci state retained with a logical prompt across attempts.
#[derive(Clone, Copy, Debug, PartialEq, Eq, Structural)]
pub struct PromptRetryState {
    /// Failed provider attempts observed so far.
    pub attempts: u64,
    /// Previous Fibonacci value in milliseconds.
    pub previous: u64,
    /// Current Fibonacci value in milliseconds.
    pub current: u64,
}

/// Saturating sum.
pub open spec fn saturating_sum(a: u64, b: u64) -> u64 {
    if a + b > u64::MAX {
        u64::MAX
    } else {
        (a + b) as u64
    }
}

/// The smaller of two counts.
pub open spec fn least(a: u64, b: u64) -> u64 {
    if b < a {
        b
    } else {
        a
    }
}

/// The larger of two counts.
pub open spec fn most(a: u64, b: u64) -> u64 {
    if a < b {
        b
    } else {
        a
    }
}

impl PromptRetryState {
    /// No failed attempt.
    pub fn new() -> (res: Self)
        ensures
            res == (PromptRetryState { attempts: 0, previous: 0, current: 0 }),
    {
        PromptRetryState { attempts: 0, previous: 0, current: 0 }
    }

    /// The state after one more failure: both Fibonacci values start at the base delay.
    pub open spec fn advanced(self) -> PromptRetryState {
        if self.current == 0 {
            PromptRetryState {
                attempts: next_attempt(self.attempts),
                previous: RETRY_BASE_DELAY_MILLIS,
                current: RETRY_BASE_DELAY_MILLIS,
            }
        } else {
            PromptRetryState {
                attempts: next_attempt(self.attempts),
                previous: self.current,
                current: saturating_sum(self.previous, self.current),
            }
        }
    }

    /// The Fibonacci value, in milliseconds, that the next failure waits for before jitter.
    pub open spec fn fibonacci(self) -> u64 {
        if self.current == 0 {
            RETRY_BASE_DELAY_MILLIS
        } else {
            self.previous
        }
    }

    /// The delay before jitter: between the base delay and five sixths of the ceiling, the base
    /// delay winning.
    pub open spec fn base_delay(self, ceiling: u64) -> u64 {
        let base_ceiling = (if ceiling * 5 > u64::MAX {
            u64::MAX
        } else {
            (ceiling * 5) as u64
        }) / 6;
        most(least(self.fibonacci(), base_ceiling), RETRY_BASE_DELAY_MILLIS)
    }

    /// The delay, in milliseconds, after the next failure of `prompt_id`.
    pub open spec fn delay_millis(self, ceiling: u64, prompt_id: Seq<char>) -> u64 {
        let base = self.base_delay(ceiling);
        let range = most(base / 5, 1);
        let jitter = retry_hash(prompt_id, self.advanced().attempts) % ((range + 1) as u64);
        least(saturating_sum(base, jitter), ceiling)
    }

    /// Records one failure and returns the generated delay of its class: Fibonacci growth with up
    /// to a fifth of stable jitter, never above the class ceiling.
    pub fn next_delay(&mut self, delay_ceiling: Span, prompt_id: &str) -> (res: Span)
        ensures
            *final(self) == old(self).advanced(),
            res.nanos == old(self).delay_millis(delay_ceiling.millis(), prompt_id@)
                * NANOS_PER_MILLI,
    {
        let ceiling: u64 = duration_millis_u64(delay_ceiling);
        self.attempts = self.attempts.saturating_add(1);
        let fibonacci: u64;
        if self.current == 0 {
            self.previous = RETRY_BASE_DELAY_MILLIS;
            self.current = RETRY_BASE_DELAY_MILLIS;
            fibonacci = self.current;
        } else {
            fibonacci = self.previous;
            let next: u64 = self.previous.saturating_add(self.current);
            self.previous = self.current;
            self.current = next;
        }
        let five_ceilings: u64 = match ceiling.checked_mul(5) {
            Some(product) => product,
            None => u64::MAX,
        };
        let base_ceiling: u64 = five_ceilings / 6;
        let capped: u64 = if base_ceiling < fibonacci {
            base_ceiling
        } else {
            fibonacci
        };
        let base: u64 = if capped < RETRY_BASE_DELAY_MILLIS {
            RETRY_BASE_DELAY_MILLIS
        } else {
            capped
        };
        let jitter_range: u64 = if base / 5 < 1 {
            1
        } else {
            base / 5
        };
        let jitter: u64 = stable_retry_hash(prompt_id, self.attempts) % (jitter_range + 1);
        let total: u64 = base.saturating_add(jitter);
        Span::from_millis(if ceiling < total {
            ceiling
        } else {
            total
        })
    }
}

/// A generated delay never exceeds its class ceiling, and reaches the base delay wherever the
/// ceiling allows it.
pub proof fn generated_delay_is_bounded(state: PromptRetryState, ceiling: u64, prompt_id: Seq<char>)
    ensures
        state.delay_millis(ceiling, prompt_id) <= ceiling,
        RETRY_BASE_DELAY_MILLIS <= ceiling ==> RETRY_BASE_DELAY_MILLIS <= state.delay_millis(
            ceiling,
            prompt_id,
        ),
{
}

/// Retry-attempt authority applied before the scheduler accepts delayed work.
#[derive(Clone, Copy, Debug, PartialEq, Eq, Structural)]
pub enum PromptRetryPolicy {
    /// Ordinary inference retries without bound.
    UnboundedInference,
    /// Standalone compaction terminates after five total provider attempts.
    FiveAttemptStandaloneCompaction,
}

/// Closed scheduling result after one provider attempt fails transiently.
#[derive(Clone, Copy, Debug, PartialEq, Eq, Structural)]
pub enum PromptRetryDisposition {
    /// The scheduler retains the logical prompt for another attempt.
    Retry,
    /// The logical prompt terminalizes at this one-based attempt.
    Terminal(u32),
}

/// Total-attempt limit for standalone compaction.
pub const STANDALONE_COMPACTION_ATTEMPT_LIMIT: u32 = 5;

impl PromptRetryPolicy {
    /// The retry authority of an operation.
    pub open spec fn of(operation: PromptOperation) -> PromptRetryPolicy {
        match operation {
            PromptOperation::Inference => PromptRetryPolicy::UnboundedInference,
            PromptOperation::StandaloneCompaction =>
                PromptRetryPolicy::FiveAttemptStandaloneCompaction,
        }
    }

    /// Selects retry authority from the immutable prompt operation.
    pub fn for_operation(operation: PromptOperation) -> (res: Self)
        ensures
            res == Self::of(operation),
    {
        match operation {
            PromptOperation::Inference => PromptRetryPolicy::UnboundedInference,
            PromptOperation::StandaloneCompaction =>
                PromptRetryPolicy::FiveAttemptStandaloneCompaction,
        }
    }

    /// The scheduling disposition after one more failure.
    pub open spec fn disposition(self, previous_failures: u64) -> PromptRetryDisposition {
        if self == PromptRetryPolicy::FiveAttemptStandaloneCompaction && previous_failures + 1
            >= STANDALONE_COMPACTION_ATTEMPT_LIMIT {
            PromptRetryDisposition::Terminal(STANDALONE_COMPACTION_ATTEMPT_LIMIT)
        } else {
            PromptRetryDisposition::Retry
        }
    }

    /// Returns the complete scheduling disposition after one more failure.
    pub fn after_failure(self, previous_failures: u64) -> (res: PromptRetryDisposition)
        ensures
            res == self.disposition(previous_failures),
    {
        match self {
            PromptRetryPolicy::UnboundedInference => PromptRetryDisposition::Retry,
            PromptRetryPolicy::FiveAttemptStandaloneCompaction => {
                if previous_failures.saturating_add(1) >= STANDALONE_COMPACTION_ATTEMPT_LIMIT as u64 {
                    PromptRetryDisposition::Terminal(STANDALONE_COMPACTION_ATTEMPT_LIMIT)
                } else {
                    PromptRetryDisposition::Retry
                }
            },
        }
    }
}

/// Inference retries after any number of failures; standalone compaction retries exactly after
/// its first four.
pub proof fn retry_authority(previous_failures: u64)
    ensures
        PromptRetryPolicy::of(PromptOperation::Inference).disposition(previous_failures)
            == PromptRetryDisposition::Retry,
        PromptRetryPolicy::of(PromptOperation::StandaloneCompaction).disposition(previous_failures)
            == PromptRetryDisposition::Retry <==> previous_failures < 4,
{
}

/// The common retry boundary.
pub open spec fn common_due(now: Moment, policy_delay: Span, hint_delay: Span) -> Moment {
    match now.plus(longer(policy_delay, hint_delay)) {
        Some(due) => due,
        None => now.plus_or_self(policy_delay),
    }
}

/// Computes the common retry boundary, falling back to generated class cadence when an otherwise
/// valid trusted hint exceeds the monotonic clock range.
pub fn retry_common_due(now: Moment, policy_delay: Span, hint_delay: Span) -> (res: Moment)
    ensures
        res == common_due(now, policy_delay, hint_delay),
{
    match now.checked_add(policy_delay.max(hint_delay)) {
        Some(due) => due,
        None => now.add_or_self(policy_delay),
    }
}

/// A hint past the clock's range leaves the policy boundary.
pub proof fn overflowing_hint_keeps_policy(now: Moment, policy_delay: Span, hint_delay: Span)
    requires
        now.plus(policy_delay) is Some,
        now.plus(hint_delay) is None,
    ensures
        common_due(now, policy_delay, hint_delay) == now.plus(policy_delay)->0,
{
}

/// The hint that the scheduler honors: usage-window reset estimates stay informational.
pub open spec fn honored_hint(class: RetryClass, retry_after: Option<Span>) -> Option<Span> {
    if class == RetryClass::UsageWindow {
        None
    } else {
        retry_after
    }
}

/// Keeps usage-window reset estimates informational so early provider or user recovery is
/// discovered through the bounded persistent-failure cadence.
pub fn scheduler_retry_hint(class: RetryClass, retry_after: Option<Span>) -> (res: Option<Span>)
    ensures
        res == honored_hint(class, retry_after),
{
    match class {
        RetryClass::UsageWindow => None,
        RetryClass::Transport | RetryClass::Overload | RetryClass::Throttle | RetryClass::Account
        | RetryClass::Auth | RetryClass::Unknown => retry_after,
    }
}

/// Shared provider-profile lower bound and its visible normalized reason.
#[derive(Clone, Copy, Debug, PartialEq, Eq, Structural)]
pub struct SharedCooldown {
    /// Common earliest provider-contact instant before prompt-local jitter.
    pub not_before: Moment,
    /// Failure class that established the current lower bound.
    pub class: RetryClass,
    /// Monotonic evidence generation used to reject stale successful probes.
    pub generation: u64,
}

/// The cooldown that newer evidence leaves in place.
pub open spec fn merged_cooldown(
    previous: Option<SharedCooldown>,
    generation: u64,
    common_due: Moment,
    class: RetryClass,
) -> SharedCooldown {
    match previous {
        Some(shared) if common_due.nanos <= shared.not_before.nanos => SharedCooldown {
            generation,
            ..shared
        },
        _ => SharedCooldown { not_before: common_due, class, generation },
    }
}

/// The value of `key`, if present.
pub open spec fn lookup<V>(table: Map<Seq<char>, V>, key: Seq<char>) -> Option<V> {
    if table.contains_key(key) {
        Some(table[key])
    } else {
        None
    }
}

/// Installs newer shared evidence without allowing it to shorten an existing provider boundary.
pub fn install_shared_cooldown(
    cooldowns: &mut NameTable<SharedCooldown>,
    next_generation: &mut u64,
    provider: String,
    common_due: Moment,
    class: RetryClass,
) -> (res: SharedCooldown)
    requires
        *old(next_generation) < u64::MAX,
    ensures
        *final(next_generation) == *old(next_generation) + 1,
        res == merged_cooldown(
            lookup(old(cooldowns)@, provider@),
            *final(next_generation),
            common_due,
            class,
        ),
        final(cooldowns)@ == old(cooldowns)@.insert(provider@, res),
{
    *next_generation = *next_generation + 1;
    let generation: u64 = *next_generation;
    let shared = match cooldowns.get(provider.as_str()) {
        Some(shared) => {
            if shared.not_before.nanos < common_due.nanos {
                SharedCooldown { not_before: common_due, class, generation }
            } else {
                SharedCooldown { not_before: shared.not_before, class: shared.class, generation }
            }
        },
        None => SharedCooldown { not_before: common_due, class, generation },
    };
    cooldowns.insert(provider, shared);
    shared
}

/// Newer evidence never shortens a provider boundary and always replaces its generation.
pub proof fn newer_evidence_never_shortens(
    previous: SharedCooldown,
    generation: u64,
    common_due: Moment,
    class: RetryClass,
)
    ensures
        previous.not_before.nanos <= merged_cooldown(
            Some(previous),
            generation,
            common_due,
            class,
        ).not_before.nanos,
        merged_cooldown(Some(previous), generation, common_due, class).not_before == later(
            previous.not_before,
            common_due,
        ),
        merged_cooldown(Some(previous), generation, common_due, class).generation == generation,
{
}

/// Reconciles one material inference identity and removes only that provider's obsolete shared
/// cooldown when the identity changes or disappears.
pub fn reconcile_inference_identity(
    identities: &mut NameTable<Option<BackendProfileIdentity>>,
    cooldowns: &mut NameTable<SharedCooldown>,
    provider: &String,
    identity: Option<BackendProfileIdentity>,
) -> (res: (bool, Option<SharedCooldown>))
    ensures
        final(identities)@ == old(identities)@.insert(provider@, identity),
        res.0 == identity_changed(old(identities)@, provider@, identity),
        res.1 == if res.0 {
            lookup(old(cooldowns)@, provider@)
        } else {
            None
        },
        final(cooldowns)@ == if res.0 {
            old(cooldowns)@.remove(provider@)
        } else {
            old(cooldowns)@
        },
{
    let changed: bool = match identities.get(provider.as_str()) {
        Some(previous) => match (*previous, identity) {
            (Some(a), Some(b)) => a != b,
            (None, None) => false,
            _ => true,
        },
        None => false,
    };
    identities.insert(provider.clone(), identity);
    let removed: Option<SharedCooldown> = if changed {
        cooldowns.remove(provider.as_str())
    } else {
        None
    };
    (changed, removed)
}

/// A provider seen before now resolves to another identity.
pub open spec fn identity_changed(
    identities: Map<Seq<char>, Option<BackendProfileIdentity>>,
    provider: Seq<char>,
    identity: Option<BackendProfileIdentity>,
) -> bool {
    identities.contains_key(provider) && identities[provider] != identity
}

/// Clamps an attempt count to the wire's width.
pub fn saturating_retry_attempt(attempt: u64) -> (res: u32)
    ensures
        res == if attempt <= u32::MAX {
            attempt
        } else {
            u32::MAX as u64
        },
{
    if attempt <= u32::MAX as u64 {
        attempt as u32
    } else {
        u32::MAX
    }
}

/// Whole seconds of a delay clamped to the wire's width.
pub open spec fn delay_secs(delay: Span) -> u32 {
    if delay.nanos / NANOS_PER_SEC <= u32::MAX {
        (delay.nanos / NANOS_PER_SEC) as u32
    } else {
        u32::MAX
    }
}

/// Clamps a delay's whole seconds to the wire's width.
pub fn saturating_retry_delay(delay: Span) -> (res: u32)
    ensures
        res == delay_secs(delay),
{
    let secs: u64 = delay.as_secs();
    if secs <= u32::MAX as u64 {
        secs as u32
    } else {
        u32::MAX
    }
}

/// A retry waits for the generated delay and for the hint, whichever is longer, and for nothing
/// else, wherever the clock has room for both.
pub proof fn boundary_waits_for_delay_and_hint(now: Moment, policy_delay: Span, hint_delay: Span)
    requires
        now.nanos + policy_delay.nanos <= 9_223_372_036_854_775_807_999_999_999,
        now.nanos + hint_delay.nanos <= 9_223_372_036_854_775_807_999_999_999,
    ensures
        now.nanos + policy_delay.nanos <= common_due(now, policy_delay, hint_delay).nanos,
        now.nanos + hint_delay.nanos <= common_due(now, policy_delay, hint_delay).nanos,
        common_due(now, policy_delay, hint_delay).nanos == now.nanos + policy_delay.nanos
            || common_due(now, policy_delay, hint_delay).nanos == now.nanos + hint_delay.nanos,
{
}

/// A hint is dropped for the estimate of a usage window and for nothing else.
pub proof fn only_usage_estimates_are_dropped(class: RetryClass, hint: Span)
    ensures
        honored_hint(class, Some(hint)) is None <==> class == RetryClass::UsageWindow,
        honored_hint(class, Some(hint)) is Some ==> honored_hint(class, Some(hint)) == Some(hint),
        honored_hint(class, None) is None,
{
}

/// Jitter past a shared boundary is a whole number of milliseconds, from one to five thousand;
/// past a hint it is a whole number of seconds, from one to five.
pub proof fn jitter_is_small_and_positive(prompt_id: Seq<char>, attempt: u64)
    ensures
        1_000_000 <= jitter(prompt_id, attempt).nanos <= 5_000_000_000,
        jitter(prompt_id, attempt).nanos as int % 1_000_000 == 0,
        1_000_000_000 <= hint_jitter(prompt_id, attempt).nanos <= 5_000_000_000,
        hint_jitter(prompt_id, attempt).nanos as int % 1_000_000_000 == 0,
{
}

/// A failure is counted once, and the generated delays grow as Fibonacci numbers from ten seconds:
/// each is the sum of the two before it.
pub proof fn delays_grow_as_fibonacci(state: PromptRetryState)
    ensures
        state.attempts < u64::MAX ==> state.advanced().attempts == state.attempts + 1,
        state.attempts == u64::MAX ==> state.advanced().attempts == u64::MAX,
        state.current == 0 ==> state.fibonacci() == 10_000 && state.advanced().fibonacci() == 10_000
            && state.advanced().advanced().fibonacci() == 10_000,
        state.current > 0 && state.fibonacci() + state.advanced().fibonacci() <= u64::MAX
            ==> state.advanced().advanced().fibonacci() == state.fibonacci()
            + state.advanced().fibonacci(),
        state.current > 0 && state.fibonacci() + state.advanced().fibonacci() > u64::MAX
            ==> state.advanced().advanced().fibonacci() == u64::MAX,
        state.advanced().current > 0,
{
}

/// A generated delay exceeds its Fibonacci value by at most a fifth, as long as the class ceiling
/// leaves room for it; a larger value is held between five sixths of the ceiling and the ceiling.
pub proof fn generated_delay_follows_fibonacci(
    state: PromptRetryState,
    ceiling: u64,
    prompt_id: Seq<char>,
)
    requires
        12_000 <= ceiling <= 1_000_000_000_000_000,
    ensures
        state.delay_millis(ceiling, prompt_id) <= ceiling,
        10_000 <= state.delay_millis(ceiling, prompt_id),
        10_000 <= state.fibonacci() && 6 * state.fibonacci() <= 5 * ceiling ==> {
            &&& state.fibonacci() <= state.delay_millis(ceiling, prompt_id)
            &&& 5 * state.delay_millis(ceiling, prompt_id) <= 6 * state.fibonacci()
        },
        6 * state.fibonacci() > 5 * ceiling ==> 5 * ceiling < 6 * (state.delay_millis(
            ceiling,
            prompt_id,
        ) + 1),
{
    let base = state.base_delay(ceiling);
    let range = most(base / 5, 1);
    assert(retry_hash(prompt_id, state.advanced().attempts) % ((range + 1) as u64) <= range);
}

/// A shared boundary keeps the reason that established it: newer evidence replaces the reason
/// exactly when it moves the boundary, and a first boundary is what its evidence says.
pub proof fn boundary_keeps_its_reason(
    previous: SharedCooldown,
    generation: u64,
    common_due: Moment,
    class: RetryClass,
)
    ensures
        previous.not_before.nanos < common_due.nanos ==> merged_cooldown(
            Some(previous),
            generation,
            common_due,
            class,
        ).class == class,
        common_due.nanos <= previous.not_before.nanos ==> merged_cooldown(
            Some(previous),
            generation,
            common_due,
            class,
        ).class == previous.class,
        common_due.nanos <= merged_cooldown(
            Some(previous),
            generation,
            common_due,
            class,
        ).not_before.nanos,
        merged_cooldown(None, generation, common_due, class).not_before == common_due,
        merged_cooldown(None, generation, common_due, class).class == class,
        merged_cooldown(None, generation, common_due, class).generation == generation,
{
}

/// A delay is shown in whole seconds, rounded down, up to the widest count.
pub proof fn shown_delay_is_rounded_down(delay: Span)
    ensures
        delay.nanos < 4_294_967_296_000_000_000 ==> delay_secs(delay) * 1_000_000_000
            <= delay.nanos < (delay_secs(delay) + 1) * 1_000_000_000,
        delay.nanos >= 4_294_967_296_000_000_000 ==> delay_secs(delay) == u32::MAX,
{
}

/// Only a provider that was seen before can change its identity, and it does exactly when the new
/// one differs, a missing one included.
pub proof fn identity_changes_are_seen(
    identities: Map<Seq<char>, Option<BackendProfileIdentity>>,
    provider: Seq<char>,
    identity: Option<BackendProfileIdentity>,
)
    ensures
        !identities.contains_key(provider) ==> !identity_changed(identities, provider, identity),
        !identity_changed(identities.insert(provider, identity), provider, identity),
        identities.contains_key(provider) && identities[provider] is Some && identity is None
            ==> identity_changed(identities, provider, identity),
        identities.contains_key(provider) && identities[provider] is None && identity is Some
            ==> identity_changed(identities, provider, identity),
        identities.contains_key(provider) ==> (identities[provider] matches Some(known) ==> (
        identity matches Some(current) ==> (known != current <==> identity_changed(
            identities,
            provider,
            identity,
        )))),
{
}

/// The hash folds in the attempt first and then each byte of the prompt's name, in order: one more
/// byte is combined with the hash of those before it and multiplied by the prime.
pub proof fn hash_folds_in_each_byte(
    prompt_id: Seq<char>,
    longer: Seq<char>,
    byte: u8,
    attempt: u64,
)
    requires
        vstd::utf8::encode_utf8(longer) == vstd::utf8::encode_utf8(prompt_id).push(byte),
    ensures
        retry_hash(longer, attempt) == (retry_hash(prompt_id, attempt) ^ (byte as u64)).wrapping_mul(
            1_099_511_628_211,
        ),
        vstd::utf8::encode_utf8(prompt_id).len() == 0 ==> retry_hash(prompt_id, attempt)
            == 14_695_981_039_346_656_037u64 ^ attempt,
{
    let bytes = vstd::utf8::encode_utf8(prompt_id);
    assert(bytes.push(byte).drop_last() == bytes);
    assert(bytes.push(byte).last() == byte);
}

} // verus!
