//! Ephemeral provider quota state: windows, epochs, and fetch coalescing.

use vstd::prelude::*;

use crate::clock::{Moment, Span, NANOS_PER_SEC};
use crate::names::NameTable;
use crate::pairs::{ordered_pairs_are_distinct, pair_contents, pairs_ordered, PairKey, PairTable};
use crate::prompt::ModelId;

verus! {

/// Shortest time between two full fetches, in seconds.
pub const QUOTA_FETCH_MIN_INTERVAL_SECS: u64 = 60;

/// Longest time between two full fetches, in seconds.
pub const QUOTA_REFRESH_INTERVAL_SECS: u64 = 900;

/// Drop in used basis points that no longer counts as jitter.
pub const USAGE_DECREASE_TOLERANCE: u32 = 100;

/// Clock slack of a provider's reset estimate, in seconds.
pub const RESET_ESTIMATE_TOLERANCE_SECS: i64 = 60;

/// Remaining time under which a later reset estimate is a rollover, in seconds.
pub const RESET_ROLLOVER_SECS: i64 = 300;

/// One provider quota window.
pub struct QuotaWindow {
    pub limit_id: String,
    pub window_id: String,
    pub used_basis_points: u32,
    pub usage_observed_at_unix_ms: u64,
    pub window_seconds: u64,
    pub reset_at_unix_seconds: Option<i64>,
    pub remaining_seconds_at_timing_anchor: Option<i64>,
    pub timing_anchor_observed_at_unix_ms: Option<u64>,
    pub server_offset_ms: Option<i64>,
    pub server_offset_observed_at_unix_ms: Option<u64>,
}

impl Clone for QuotaWindow {
    fn clone(&self) -> (res: Self)
        ensures
            res == *self,
    {
        QuotaWindow {
            limit_id: self.limit_id.clone(),
            window_id: self.window_id.clone(),
            used_basis_points: self.used_basis_points,
            usage_observed_at_unix_ms: self.usage_observed_at_unix_ms,
            window_seconds: self.window_seconds,
            reset_at_unix_seconds: self.reset_at_unix_seconds,
            remaining_seconds_at_timing_anchor: self.remaining_seconds_at_timing_anchor,
            timing_anchor_observed_at_unix_ms: self.timing_anchor_observed_at_unix_ms,
            server_offset_ms: self.server_offset_ms,
            server_offset_observed_at_unix_ms: self.server_offset_observed_at_unix_ms,
        }
    }
}

/// One observed quota window, possibly sparse.
pub struct QuotaWindowObservation {
    pub limit_id: String,
    pub window_id: String,
    pub used_basis_points: u32,
    pub window_seconds: Option<u64>,
    pub reset_at_unix_seconds: Option<i64>,
    pub remaining_seconds: Option<i64>,
}

impl QuotaWindowObservation {
    /// The key of the observed window.
    pub open spec fn key(self) -> PairKey {
        (self.limit_id@, self.window_id@)
    }
}

/// How a route was bound to a limit.
#[derive(Clone, Copy, Debug, PartialEq, Eq, Structural)]
pub struct BindingProvenance {
    /// Host code of the provenance.
    pub code: u32,
}

/// One sparse in-band observation.
pub struct RollingQuotaObservation {
    pub windows: Vec<QuotaWindowObservation>,
    pub active_limit_id: Option<String>,
    pub binding_provenance: Option<BindingProvenance>,
}

/// The limit that an in-band route observation bound a model to.
pub struct QuotaRouteBinding {
    pub model: ModelId,
    pub limit_id: String,
    pub observed_at_unix_ms: u64,
    pub provenance: BindingProvenance,
}

impl Clone for QuotaRouteBinding {
    fn clone(&self) -> (res: Self)
        ensures
            res == *self,
    {
        QuotaRouteBinding {
            model: self.model.clone(),
            limit_id: self.limit_id.clone(),
            observed_at_unix_ms: self.observed_at_unix_ms,
            provenance: self.provenance,
        }
    }
}

/// Names one lifetime of a provider's quota state: when it began, and its process-local ordinal.
#[derive(Clone, Copy, Debug, PartialEq, Eq, Structural)]
pub struct QuotaEpoch {
    pub started_at_ms: u64,
    pub ordinal: u64,
}

/// Whole seconds, rounded up, between two Unix-millisecond observations.
pub open spec fn elapsed_secs(anchor: u64, now: u64) -> int {
    if now <= anchor {
        0
    } else {
        (now - anchor + 999) / 1000
    }
}

/// Converts two Unix-millisecond observations into the elapsed whole seconds.
pub fn elapsed_seconds_since(anchor: u64, now: u64) -> (res: u64)
    ensures
        res == elapsed_secs(anchor, now),
{
    let elapsed: u64 = now.saturating_sub(anchor);
    let whole: u64 = elapsed / 1000;
    if elapsed % 1000 == 0 {
        whole
    } else {
        whole + 1
    }
}

/// The server clock's offset, where both timing values are known and it fits.
pub open spec fn server_offset(
    reset: Option<i64>,
    remaining: Option<i64>,
    observed_at_unix_ms: u64,
) -> Option<i64> {
    match (reset, remaining) {
        (Some(reset), Some(remaining)) => {
            let offset = (reset - remaining) * 1000 - observed_at_unix_ms;
            if i64::MIN <= offset <= i64::MAX {
                Some(offset as i64)
            } else {
                None
            }
        },
        _ => None,
    }
}

/// The window of one complete observation; `None` without a duration.
pub open spec fn full_window(
    observation: QuotaWindowObservation,
    observed_at_unix_ms: u64,
) -> Option<QuotaWindow> {
    match observation.window_seconds {
        Some(window_seconds) => {
            let offset = server_offset(
                observation.reset_at_unix_seconds,
                observation.remaining_seconds,
                observed_at_unix_ms,
            );
            Some(
                QuotaWindow {
                    limit_id: observation.limit_id,
                    window_id: observation.window_id,
                    used_basis_points: observation.used_basis_points,
                    usage_observed_at_unix_ms: observed_at_unix_ms,
                    window_seconds,
                    reset_at_unix_seconds: observation.reset_at_unix_seconds,
                    remaining_seconds_at_timing_anchor: observation.remaining_seconds,
                    timing_anchor_observed_at_unix_ms: if observation.remaining_seconds is Some {
                        Some(observed_at_unix_ms)
                    } else {
                        None
                    },
                    server_offset_ms: offset,
                    server_offset_observed_at_unix_ms: if offset is Some {
                        Some(observed_at_unix_ms)
                    } else {
                        None
                    },
                },
            )
        },
        None => None,
    }
}

/// Builds the window of one complete observation.
pub fn full_quota_window(
    observation: QuotaWindowObservation,
    observed_at_unix_ms: u64,
) -> (res: Option<QuotaWindow>)
    ensures
        res == full_window(observation, observed_at_unix_ms),
{
    let window_seconds: u64 = match observation.window_seconds {
        Some(seconds) => seconds,
        None => {
            return None;
        },
    };
    let server_offset_ms: Option<i64> = match (
        observation.reset_at_unix_seconds,
        observation.remaining_seconds,
    ) {
        (Some(reset), Some(remaining)) => {
            let offset: i128 = (reset as i128 - remaining as i128) * 1000
                - observed_at_unix_ms as i128;
            if i64::MIN as i128 <= offset && offset <= i64::MAX as i128 {
                Some(offset as i64)
            } else {
                None
            }
        },
        _ => None,
    };
    Some(
        QuotaWindow {
            limit_id: observation.limit_id,
            window_id: observation.window_id,
            used_basis_points: observation.used_basis_points,
            usage_observed_at_unix_ms: observed_at_unix_ms,
            window_seconds,
            reset_at_unix_seconds: observation.reset_at_unix_seconds,
            remaining_seconds_at_timing_anchor: observation.remaining_seconds,
            timing_anchor_observed_at_unix_ms: if observation.remaining_seconds.is_some() {
                Some(observed_at_unix_ms)
            } else {
                None
            },
            server_offset_ms,
            server_offset_observed_at_unix_ms: if server_offset_ms.is_some() {
                Some(observed_at_unix_ms)
            } else {
                None
            },
        },
    )
}

/// Seconds left of a window at `now`, from its timing anchor.
pub open spec fn remaining_secs(window: QuotaWindow, now: u64) -> Option<int> {
    match (
        window.remaining_seconds_at_timing_anchor,
        window.timing_anchor_observed_at_unix_ms,
    ) {
        (Some(remaining), Some(anchor)) => Some(remaining - elapsed_secs(anchor, now)),
        _ => None,
    }
}

/// A changed reset estimate that keeps the old timing anchor trustworthy: within tolerance, or
/// moved later once the old window was about to roll over.
pub open spec fn reset_transition_trusted(
    previous: QuotaWindow,
    reset: Option<i64>,
    observed_at_unix_ms: u64,
) -> bool {
    match (previous.reset_at_unix_seconds, reset) {
        (Some(before), Some(after)) => {
            ||| before - after <= RESET_ESTIMATE_TOLERANCE_SECS && after - before
                <= RESET_ESTIMATE_TOLERANCE_SECS
            ||| before <= after && match remaining_secs(previous, observed_at_unix_ms) {
                Some(remaining) => remaining <= RESET_ROLLOVER_SECS,
                None => false,
            }
        },
        _ => true,
    }
}

/// The previous window's timing survives a sparse observation.
pub open spec fn timing_trusted(
    previous: Option<QuotaWindow>,
    sparse: QuotaWindowObservation,
    observed_at_unix_ms: u64,
) -> bool {
    match previous {
        Some(previous) => {
            &&& match sparse.window_seconds {
                Some(seconds) => seconds == previous.window_seconds,
                None => true,
            }
            &&& previous.used_basis_points <= sparse.used_basis_points + USAGE_DECREASE_TOLERANCE
            &&& reset_transition_trusted(
                previous,
                sparse.reset_at_unix_seconds,
                observed_at_unix_ms,
            )
        },
        None => true,
    }
}

/// The duration of a merged window.
pub open spec fn merged_seconds(
    previous: Option<QuotaWindow>,
    sparse: QuotaWindowObservation,
) -> Option<u64> {
    if sparse.window_seconds is Some {
        sparse.window_seconds
    } else {
        match previous {
            Some(window) => Some(window.window_seconds),
            None => None,
        }
    }
}

/// The window after one sparse observation; `None` while its duration is unknown.
pub open spec fn merged_window(
    previous: Option<QuotaWindow>,
    sparse: QuotaWindowObservation,
    observed_at_unix_ms: u64,
) -> Option<QuotaWindow> {
    match merged_seconds(previous, sparse) {
        Some(window_seconds) => {
            let trusted = timing_trusted(previous, sparse, observed_at_unix_ms) && previous is Some;
            let retain_relative = trusted && sparse.reset_at_unix_seconds is None;
            Some(
                QuotaWindow {
                    limit_id: sparse.limit_id,
                    window_id: sparse.window_id,
                    used_basis_points: sparse.used_basis_points,
                    usage_observed_at_unix_ms: observed_at_unix_ms,
                    window_seconds,
                    reset_at_unix_seconds: if sparse.reset_at_unix_seconds is Some {
                        sparse.reset_at_unix_seconds
                    } else if previous is Some {
                        previous->0.reset_at_unix_seconds
                    } else {
                        None
                    },
                    remaining_seconds_at_timing_anchor: if retain_relative {
                        previous->0.remaining_seconds_at_timing_anchor
                    } else {
                        None
                    },
                    timing_anchor_observed_at_unix_ms: if retain_relative {
                        previous->0.timing_anchor_observed_at_unix_ms
                    } else {
                        None
                    },
                    server_offset_ms: if trusted {
                        previous->0.server_offset_ms
                    } else {
                        None
                    },
                    server_offset_observed_at_unix_ms: if trusted {
                        previous->0.server_offset_observed_at_unix_ms
                    } else {
                        None
                    },
                },
            )
        },
        None => None,
    }
}

fn is_reset_transition_trusted(
    previous: &QuotaWindow,
    reset: Option<i64>,
    observed_at_unix_ms: u64,
) -> (res: bool)
    ensures
        res == reset_transition_trusted(*previous, reset, observed_at_unix_ms),
{
    match (previous.reset_at_unix_seconds, reset) {
        (Some(before), Some(after)) => {
            let distance: i128 = before as i128 - after as i128;
            let tolerance: i128 = RESET_ESTIMATE_TOLERANCE_SECS as i128;
            if distance <= tolerance && -distance <= tolerance {
                return true;
            }
            if after < before {
                return false;
            }
            match (
                previous.remaining_seconds_at_timing_anchor,
                previous.timing_anchor_observed_at_unix_ms,
            ) {
                (Some(remaining), Some(anchor)) => {
                    let age: u64 = elapsed_seconds_since(anchor, observed_at_unix_ms);
                    remaining as i128 - age as i128 <= RESET_ROLLOVER_SECS as i128
                },
                _ => false,
            }
        },
        _ => true,
    }
}

/// Merges one sparse observation into the previous window.
pub fn merge_sparse_quota_window(
    previous: Option<&QuotaWindow>,
    sparse: QuotaWindowObservation,
    observed_at_unix_ms: u64,
) -> (res: Option<QuotaWindow>)
    ensures
        res == merged_window(
            match previous {
                Some(window) => Some(*window),
                None => None,
            },
            sparse,
            observed_at_unix_ms,
        ),
{
    match previous {
        Some(previous) => {
            let window_seconds: u64 = match sparse.window_seconds {
                Some(seconds) => seconds,
                None => previous.window_seconds,
            };
            let usage_plausible: bool = previous.used_basis_points
                <= sparse.used_basis_points.saturating_add(USAGE_DECREASE_TOLERANCE);
            let trusted: bool = window_seconds == previous.window_seconds && usage_plausible
                && is_reset_transition_trusted(
                previous,
                sparse.reset_at_unix_seconds,
                observed_at_unix_ms,
            );
            let retain_relative: bool = trusted && sparse.reset_at_unix_seconds.is_none();
            Some(
                QuotaWindow {
                    limit_id: sparse.limit_id,
                    window_id: sparse.window_id,
                    used_basis_points: sparse.used_basis_points,
                    usage_observed_at_unix_ms: observed_at_unix_ms,
                    window_seconds,
                    reset_at_unix_seconds: if sparse.reset_at_unix_seconds.is_some() {
                        sparse.reset_at_unix_seconds
                    } else {
                        previous.reset_at_unix_seconds
                    },
                    remaining_seconds_at_timing_anchor: if retain_relative {
                        previous.remaining_seconds_at_timing_anchor
                    } else {
                        None
                    },
                    timing_anchor_observed_at_unix_ms: if retain_relative {
                        previous.timing_anchor_observed_at_unix_ms
                    } else {
                        None
                    },
                    server_offset_ms: if trusted {
                        previous.server_offset_ms
                    } else {
                        None
                    },
                    server_offset_observed_at_unix_ms: if trusted {
                        previous.server_offset_observed_at_unix_ms
                    } else {
                        None
                    },
                },
            )
        },
        None => match sparse.window_seconds {
            Some(window_seconds) => Some(
                QuotaWindow {
                    limit_id: sparse.limit_id,
                    window_id: sparse.window_id,
                    used_basis_points: sparse.used_basis_points,
                    usage_observed_at_unix_ms: observed_at_unix_ms,
                    window_seconds,
                    reset_at_unix_seconds: sparse.reset_at_unix_seconds,
                    remaining_seconds_at_timing_anchor: None,
                    timing_anchor_observed_at_unix_ms: None,
                    server_offset_ms: None,
                    server_offset_observed_at_unix_ms: None,
                },
            ),
            None => None,
        },
    }
}

/// A window with the state sequence that last touched it.
pub struct QuotaWindowRecord {
    pub window: QuotaWindow,
    pub updated_sequence: u64,
}

impl Clone for QuotaWindowRecord {
    fn clone(&self) -> (res: Self)
        ensures
            res == *self,
    {
        QuotaWindowRecord {
            window: self.window.clone(),
            updated_sequence: self.updated_sequence,
        }
    }
}

/// Quota state of one provider profile.
pub struct QuotaProfileState {
    identity: u64,
    epoch: QuotaEpoch,
    sequence: u64,
    windows: PairTable<QuotaWindowRecord>,
    bindings: PairTable<QuotaRouteBinding>,
    fetch_in_flight: bool,
    last_fetch_started: Option<Moment>,
    refresh_generation: u64,
    failure_attempt: u8,
}

/// The content of one provider's quota state.
pub struct QuotaProfile {
    pub identity: u64,
    pub epoch: QuotaEpoch,
    pub sequence: u64,
    pub windows: Map<PairKey, QuotaWindowRecord>,
    pub bindings: Map<PairKey, QuotaRouteBinding>,
    pub fetch_in_flight: bool,
    pub last_fetch_started: Option<Moment>,
    pub refresh_generation: u64,
    pub failure_attempt: u8,
}

impl QuotaProfileState {
    /// The content of this state.
    pub closed spec fn view(&self) -> QuotaProfile {
        QuotaProfile {
            identity: self.identity,
            epoch: self.epoch,
            sequence: self.sequence,
            windows: self.windows@,
            bindings: self.bindings@,
            fetch_in_flight: self.fetch_in_flight,
            last_fetch_started: self.last_fetch_started,
            refresh_generation: self.refresh_generation,
            failure_attempt: self.failure_attempt,
        }
    }
}

/// One transient quota report.
pub enum QuotaReport {
    /// Replaces everything known of a provider.
    Replace {
        provider: String,
        profile_epoch: QuotaEpoch,
        sequence: u64,
        establishes_new_epoch: bool,
        windows: Vec<QuotaWindow>,
        route_bindings: Vec<QuotaRouteBinding>,
    },
    /// Adds or updates windows and bindings.
    Patch {
        provider: String,
        profile_epoch: QuotaEpoch,
        sequence: u64,
        windows: Vec<QuotaWindow>,
        route_bindings: Vec<QuotaRouteBinding>,
    },
    /// Forgets a provider.
    Clear { provider: String, profile_epoch: QuotaEpoch, sequence: u64 },
}

/// The sequence after `sequence`, saturating.
pub open spec fn following(sequence: u64) -> u64 {
    if sequence == u64::MAX {
        u64::MAX
    } else {
        (sequence + 1) as u64
    }
}

/// A fresh profile.
pub open spec fn fresh_profile(identity: u64, epoch: QuotaEpoch) -> QuotaProfile {
    QuotaProfile {
        identity,
        epoch,
        sequence: 1,
        windows: Map::empty(),
        bindings: Map::empty(),
        fetch_in_flight: false,
        last_fetch_started: None,
        refresh_generation: 0,
        failure_attempt: 0,
    }
}

/// Some window's reset has arrived.
pub open spec fn reset_due(profile: QuotaProfile, now_ms: u64) -> bool {
    exists|key: PairKey| #[trigger]
        profile.windows.contains_key(key) && window_reset_due(profile.windows[key].window, now_ms)
}

/// A window's reset has arrived.
pub open spec fn window_reset_due(window: QuotaWindow, now_ms: u64) -> bool {
    match remaining_secs(window, now_ms) {
        Some(remaining) => remaining <= 0 || window.remaining_seconds_at_timing_anchor->0 < 0,
        None => false,
    }
}

/// A full fetch may start.
pub open spec fn fetch_allowed(profile: QuotaProfile, now_ms: u64, now: Moment) -> bool {
    &&& !profile.fetch_in_flight
    &&& match profile.last_fetch_started {
        Some(started) => {
            let elapsed = now.since(started).nanos;
            &&& QUOTA_FETCH_MIN_INTERVAL_SECS * NANOS_PER_SEC <= elapsed
            &&& profile.windows.dom() =~= Set::empty() || reset_due(profile, now_ms)
                || QUOTA_REFRESH_INTERVAL_SECS * NANOS_PER_SEC <= elapsed
        },
        None => true,
    }
}

/// The windows of one complete fetch: those observed, the last observation of a key winning.
pub open spec fn fetched_windows(
    observations: Seq<QuotaWindowObservation>,
    observed_at_unix_ms: u64,
) -> Map<PairKey, QuotaWindow>
    decreases observations.len(),
{
    if observations.len() == 0 {
        Map::empty()
    } else {
        let last = observations.last();
        let before = fetched_windows(observations.drop_last(), observed_at_unix_ms);
        match full_window(last, observed_at_unix_ms) {
            Some(window) => before.insert(last.key(), window),
            None => before,
        }
    }
}

/// Every observation has a duration.
pub open spec fn complete_fetch(observations: Seq<QuotaWindowObservation>) -> bool {
    forall|i: int| 0 <= i < observations.len() ==> (#[trigger] observations[i]).window_seconds is Some
}

/// The windows after reconciling one fetch that began at `start`: windows touched since then
/// stand, all others are replaced by what was fetched.
pub open spec fn reconciled(
    windows: Map<PairKey, QuotaWindowRecord>,
    fetched: Map<PairKey, QuotaWindow>,
    start: u64,
    sequence: u64,
) -> Map<PairKey, QuotaWindowRecord> {
    Map::new(
        |key: PairKey| touched_since(windows, key, start) || fetched.contains_key(key),
        |key: PairKey|
            if touched_since(windows, key, start) {
                windows[key]
            } else {
                QuotaWindowRecord { window: fetched[key], updated_sequence: sequence }
            },
    )
}

/// A window was touched after `start`.
pub open spec fn touched_since(
    windows: Map<PairKey, QuotaWindowRecord>,
    key: PairKey,
    start: u64,
) -> bool {
    windows.contains_key(key) && windows[key].updated_sequence > start
}

/// `keys` are the keys of `windows` in order, and `listed` their windows.
pub open spec fn windows_by(
    listed: Seq<QuotaWindow>,
    windows: Map<PairKey, QuotaWindowRecord>,
    keys: Seq<PairKey>,
) -> bool {
    &&& pairs_ordered(keys)
    &&& keys.to_set() == windows.dom()
    &&& listed.len() == keys.len()
    &&& forall|i: int| 0 <= i < keys.len() ==> #[trigger] listed[i] == windows[keys[i]].window
}

/// The listed windows are exactly the values of `windows`, in key order.
pub open spec fn lists_windows(
    listed: Seq<QuotaWindow>,
    windows: Map<PairKey, QuotaWindowRecord>,
) -> bool {
    exists|keys: Seq<PairKey>| #[trigger] windows_by(listed, windows, keys)
}

/// `keys` are the keys of `bindings` in order, and `listed` their bindings.
pub open spec fn bindings_by(
    listed: Seq<QuotaRouteBinding>,
    bindings: Map<PairKey, QuotaRouteBinding>,
    keys: Seq<PairKey>,
) -> bool {
    &&& pairs_ordered(keys)
    &&& keys.to_set() == bindings.dom()
    &&& listed.len() == keys.len()
    &&& forall|i: int| 0 <= i < keys.len() ==> #[trigger] listed[i] == bindings[keys[i]]
}

/// The listed bindings are exactly the values of `bindings`, in key order.
pub open spec fn lists_bindings(
    listed: Seq<QuotaRouteBinding>,
    bindings: Map<PairKey, QuotaRouteBinding>,
) -> bool {
    exists|keys: Seq<PairKey>| #[trigger] bindings_by(listed, bindings, keys)
}

/// The windows after applying sparse observations in order.
pub open spec fn rolled_windows(
    windows: Map<PairKey, QuotaWindowRecord>,
    observations: Seq<QuotaWindowObservation>,
    observed_at_unix_ms: u64,
    sequence: u64,
) -> Map<PairKey, QuotaWindowRecord>
    decreases observations.len(),
{
    if observations.len() == 0 {
        windows
    } else {
        let before = rolled_windows(
            windows,
            observations.drop_last(),
            observed_at_unix_ms,
            sequence,
        );
        let sparse = observations.last();
        match merged_window(previous_window(before, sparse.key()), sparse, observed_at_unix_ms) {
            Some(window) => before.insert(
                sparse.key(),
                QuotaWindowRecord { window, updated_sequence: sequence },
            ),
            None => before,
        }
    }
}

/// The known window of a key.
pub open spec fn previous_window(
    windows: Map<PairKey, QuotaWindowRecord>,
    key: PairKey,
) -> Option<QuotaWindow> {
    if windows.contains_key(key) {
        Some(windows[key].window)
    } else {
        None
    }
}

/// The windows that sparse observations changed, in observation order.
pub open spec fn rolled_patch(
    windows: Map<PairKey, QuotaWindowRecord>,
    observations: Seq<QuotaWindowObservation>,
    observed_at_unix_ms: u64,
    sequence: u64,
) -> Seq<QuotaWindow>
    decreases observations.len(),
{
    if observations.len() == 0 {
        Seq::empty()
    } else {
        let init = observations.drop_last();
        let before = rolled_windows(windows, init, observed_at_unix_ms, sequence);
        let patch = rolled_patch(windows, init, observed_at_unix_ms, sequence);
        let sparse = observations.last();
        match merged_window(previous_window(before, sparse.key()), sparse, observed_at_unix_ms) {
            Some(window) => patch.push(window),
            None => patch,
        }
    }
}

/// The keys of some observations, in order.
pub open spec fn observed_keys(observations: Seq<QuotaWindowObservation>) -> Seq<PairKey> {
    Seq::new(observations.len(), |i: int| observations[i].key())
}

/// The limits on one provider's quota state.
#[derive(Clone, Copy, Debug, PartialEq, Eq, Structural)]
pub struct QuotaLimits {
    pub max_windows: usize,
    pub max_bindings: usize,
}

/// A rolling observation that the state can hold and that is consistent in itself.
pub open spec fn rolling_accepted(
    profile: QuotaProfile,
    limits: QuotaLimits,
    model: ModelId,
    observation: RollingQuotaObservation,
) -> bool {
    let keys = observed_keys(observation.windows@);
    &&& observation.windows@.len() <= limits.max_windows
    &&& keys.no_duplicates()
    &&& profile.windows.dom().union(keys.to_set()).len() <= limits.max_windows
    &&& (observation.active_limit_id is Some && !profile.bindings.contains_key(model_key(model))
        ==> profile.bindings.dom().len() < limits.max_bindings)
    &&& observation.active_limit_id is Some <==> observation.binding_provenance is Some
}

/// The table key of a model.
pub open spec fn model_key(model: ModelId) -> PairKey {
    (model.provider@, model.model@)
}

/// The binding that a rolling observation establishes.
pub open spec fn rolled_binding(
    model: ModelId,
    observation: RollingQuotaObservation,
    observed_at_unix_ms: u64,
) -> Option<QuotaRouteBinding> {
    match (observation.active_limit_id, observation.binding_provenance) {
        (Some(limit_id), Some(provenance)) => Some(
            QuotaRouteBinding { model, limit_id, observed_at_unix_ms, provenance },
        ),
        _ => None,
    }
}

/// The profile after an accepted rolling observation.
pub open spec fn rolled_profile(
    profile: QuotaProfile,
    model: ModelId,
    observation: RollingQuotaObservation,
    observed_at_unix_ms: u64,
) -> QuotaProfile {
    let sequence = following(profile.sequence);
    QuotaProfile {
        sequence,
        windows: rolled_windows(
            profile.windows,
            observation.windows@,
            observed_at_unix_ms,
            sequence,
        ),
        bindings: match rolled_binding(model, observation, observed_at_unix_ms) {
            Some(binding) => profile.bindings.insert(model_key(model), binding),
            None => profile.bindings,
        },
        ..profile
    }
}

/// A fetch observation that still belongs to its profile and fits the limits.
pub open spec fn fetch_accepted(
    profile: QuotaProfile,
    limits: QuotaLimits,
    start: u64,
    observations: Seq<QuotaWindowObservation>,
    observed_at_unix_ms: u64,
) -> bool {
    &&& complete_fetch(observations)
    &&& reconciled(
        profile.windows,
        fetched_windows(observations, observed_at_unix_ms),
        start,
        following(profile.sequence),
    ).dom().len() <= limits.max_windows
}

/// The profile after a completed fetch of its current epoch. A fetch with an incomplete window
/// only ends the flight; one that would exceed the limits also counts as a failure.
pub open spec fn fetched_profile(
    profile: QuotaProfile,
    limits: QuotaLimits,
    start: u64,
    observations: Seq<QuotaWindowObservation>,
    observed_at_unix_ms: u64,
) -> QuotaProfile {
    let landed = QuotaProfile { fetch_in_flight: false, ..profile };
    if !complete_fetch(observations) {
        landed
    } else if !fetch_accepted(profile, limits, start, observations, observed_at_unix_ms) {
        QuotaProfile { failure_attempt: next_failure(profile.failure_attempt), ..landed }
    } else {
        QuotaProfile {
            sequence: following(profile.sequence),
            failure_attempt: 0,
            windows: reconciled(
                profile.windows,
                fetched_windows(observations, observed_at_unix_ms),
                start,
                following(profile.sequence),
            ),
            ..landed
        }
    }
}

/// One more consecutive failure, saturating.
pub open spec fn next_failure(attempt: u8) -> u8 {
    if attempt == u8::MAX {
        u8::MAX
    } else {
        (attempt + 1) as u8
    }
}

/// Doubling delay after consecutive failures, in seconds.
pub open spec fn failure_delay_secs(attempt: u8) -> int {
    let doublings = if attempt < 4 {
        attempt as int
    } else {
        4
    };
    let delay = QUOTA_FETCH_MIN_INTERVAL_SECS * if doublings == 0 {
        1int
    } else if doublings == 1 {
        2
    } else if doublings == 2 {
        4
    } else if doublings == 3 {
        8
    } else {
        16
    };
    if delay < QUOTA_REFRESH_INTERVAL_SECS {
        delay
    } else {
        QUOTA_REFRESH_INTERVAL_SECS as int
    }
}

/// Seconds until a window's reset has surely passed.
pub open spec fn window_refresh_secs(window: QuotaWindow, now_ms: u64) -> Option<int> {
    match remaining_secs(window, now_ms) {
        Some(remaining) => if 0 <= remaining && elapsed_secs(
            window.timing_anchor_observed_at_unix_ms->0,
            now_ms,
        ) <= i64::MAX {
            Some(remaining + 1)
        } else {
            None
        },
        None => None,
    }
}

/// `secs` is the earliest refresh that some window or the interval asks for.
pub open spec fn is_refresh_delay(
    windows: Map<PairKey, QuotaWindowRecord>,
    now_ms: u64,
    secs: int,
) -> bool {
    &&& 1 <= secs <= QUOTA_REFRESH_INTERVAL_SECS
    &&& forall|key: PairKey| #[trigger]
        windows.contains_key(key) ==> match window_refresh_secs(windows[key].window, now_ms) {
            Some(due) => secs <= due,
            None => true,
        }
    &&& secs == QUOTA_REFRESH_INTERVAL_SECS || exists|key: PairKey| #[trigger]
        windows.contains_key(key) && window_refresh_secs(windows[key].window, now_ms) == Some(secs)
}

/// Single-owner quota epochs, merges, and fetch coalescing.
pub struct QuotaCoordinator {
    profiles: NameTable<QuotaProfileState>,
    next_epoch: u64,
    limits: QuotaLimits,
}

impl QuotaCoordinator {
    /// The content of every provider's state.
    pub closed spec fn view(&self) -> Map<Seq<char>, QuotaProfile> {
        self.profiles@.map_values(|state: QuotaProfileState| state@)
    }

    /// The ordinal of the latest epoch.
    pub closed spec fn last_epoch(&self) -> u64 {
        self.next_epoch
    }

    /// The limits on every provider's state.
    pub closed spec fn spec_limits(&self) -> QuotaLimits {
        self.limits
    }

    /// Nothing changes but the provider states.
    pub open spec fn same_frame(&self, other: &QuotaCoordinator) -> bool {
        &&& self.last_epoch() == other.last_epoch()
        &&& self.spec_limits() == other.spec_limits()
    }

    /// No quota state.
    pub fn new(limits: QuotaLimits) -> (res: Self)
        ensures
            res@ == Map::<Seq<char>, QuotaProfile>::empty(),
            res.last_epoch() == 0,
            res.spec_limits() == limits,
    {
        let res = QuotaCoordinator { profiles: NameTable::new(), next_epoch: 0, limits };
        assert(res@ =~= Map::<Seq<char>, QuotaProfile>::empty());
        res
    }

    /// The current epoch of a provider.
    pub fn profile_epoch(&self, provider: &String) -> (res: Option<QuotaEpoch>)
        ensures
            match res {
                Some(epoch) => self@.contains_key(provider@) && self@[provider@].epoch == epoch,
                None => !self@.contains_key(provider@),
            },
    {
        match self.profiles.get(provider.as_str()) {
            Some(current) => Some(current.epoch),
            None => None,
        }
    }

    /// The provider is in `epoch`.
    pub open spec fn in_epoch(&self, provider: Seq<char>, epoch: QuotaEpoch) -> bool {
        self@.contains_key(provider) && self@[provider].epoch == epoch
    }

    /// Reports whether the provider is still in `epoch`.
    pub fn epoch_matches(&self, provider: &String, epoch: QuotaEpoch) -> (res: bool)
        ensures
            res == self.in_epoch(provider@, epoch),
    {
        match self.profiles.get(provider.as_str()) {
            Some(current) => current.epoch == epoch,
            None => false,
        }
    }

    /// The known windows of a provider.
    pub open spec fn known_windows(&self, provider: Seq<char>) -> Map<PairKey, QuotaWindowRecord> {
        if self@.contains_key(provider) {
            self@[provider].windows
        } else {
            Map::empty()
        }
    }

    /// Replaces one provider's state.
    fn put(&mut self, provider: &String, state: QuotaProfileState)
        ensures
            final(self)@ == old(self)@.insert(provider@, state@),
            final(self).same_frame(old(self)),
    {
        self.profiles.insert(provider.clone(), state);
        assert(self@ =~= old(self)@.insert(provider@, state@));
    }

    /// Takes one provider's state out.
    fn take(&mut self, provider: &String) -> (res: Option<QuotaProfileState>)
        ensures
            final(self)@ == old(self)@.remove(provider@),
            final(self).same_frame(old(self)),
            match res {
                Some(state) => old(self)@.contains_pair(provider@, state@),
                None => !old(self)@.contains_key(provider@) && final(self)@ == old(self)@,
            },
    {
        let res = self.profiles.remove(provider.as_str());
        assert(self@ =~= old(self)@.remove(provider@));
        res
    }

    /// Starts a new epoch when the provider's identity is new.
    pub fn ensure_profile(&mut self, provider: String, identity: u64, now_ms: u64) -> (res: Option<
        QuotaReport,
    >)
        ensures
            ensured(old(self), final(self), provider, identity, now_ms, res),
    {
        if let Some(current) = self.profiles.get(provider.as_str()) {
            if current.identity == identity {
                return None;
            }
        }
        self.next_epoch = self.next_epoch.saturating_add(1);
        let epoch = QuotaEpoch { started_at_ms: now_ms, ordinal: self.next_epoch };
        let state = QuotaProfileState {
            identity,
            epoch,
            sequence: 1,
            windows: PairTable::new(),
            bindings: PairTable::new(),
            fetch_in_flight: false,
            last_fetch_started: None,
            refresh_generation: 0,
            failure_attempt: 0,
        };
        assert(state@ == fresh_profile(identity, epoch));
        self.profiles.insert(provider.clone(), state);
        assert(self@ =~= old(self)@.insert(provider@, fresh_profile(identity, epoch)));
        Some(
            QuotaReport::Replace {
                provider,
                profile_epoch: epoch,
                sequence: 1,
                establishes_new_epoch: true,
                windows: Vec::new(),
                route_bindings: Vec::new(),
            },
        )
    }

    /// Forgets one provider.
    pub fn clear_profile(&mut self, provider: &String) -> (res: Option<QuotaReport>)
        ensures
            cleared(old(self), final(self), *provider, res),
    {
        match self.take(provider) {
            Some(current) => Some(
                QuotaReport::Clear {
                    provider: provider.clone(),
                    profile_epoch: current.epoch,
                    sequence: current.sequence.saturating_add(1),
                },
            ),
            None => None,
        }
    }

    /// Delay until the next full refresh: the earliest window reset, within the interval.
    pub fn refresh_delay(&self, provider: &String, now_ms: u64) -> (res: Span)
        ensures
            is_refresh_delay(
                self.known_windows(provider@),
                now_ms,
                res.nanos as int / NANOS_PER_SEC as int,
            ),
            res.nanos as int % NANOS_PER_SEC as int == 0,
    {
        let mut secs: u64 = QUOTA_REFRESH_INTERVAL_SECS;
        match self.profiles.get(provider.as_str()) {
            Some(current) => {
                let keys = current.windows.keys();
                let ghost windows = current.windows@;
                let ghost listed = pair_contents(keys@);
                let mut i: usize = 0;
                while i < keys.len()
                    invariant
                        i <= keys@.len(),
                        windows == current.windows@,
                        listed == pair_contents(keys@),
                        forall|key: PairKey|
                            windows.contains_key(key) <==> #[trigger] listed.contains(key),
                        1 <= secs <= QUOTA_REFRESH_INTERVAL_SECS,
                        forall|j: int|
                            0 <= j < i ==> match window_refresh_secs(
                                windows[#[trigger] listed[j]].window,
                                now_ms,
                            ) {
                                Some(due) => secs <= due,
                                None => true,
                            },
                        secs == QUOTA_REFRESH_INTERVAL_SECS || exists|key: PairKey| #[trigger]
                            windows.contains_key(key) && window_refresh_secs(
                                windows[key].window,
                                now_ms,
                            ) == Some(secs as int),
                    decreases keys@.len() - i,
                {
                    let ghost key = listed[i as int];
                    assert(listed.contains(key));
                    if let Some(record) = current.windows.get(
                        keys[i].0.as_str(),
                        keys[i].1.as_str(),
                    ) {
                        assert(record == windows[key]);
                        if let (Some(remaining), Some(anchor)) = (
                            record.window.remaining_seconds_at_timing_anchor,
                            record.window.timing_anchor_observed_at_unix_ms,
                        ) {
                            let age: u64 = elapsed_seconds_since(anchor, now_ms);
                            if age <= i64::MAX as u64 && remaining >= 0 && age <= remaining as u64 {
                                let due: u64 = remaining as u64 - age + 1;
                                if due < secs {
                                    secs = due;
                                    assert(windows.contains_key(key));
                                }
                            }
                        }
                    }
                    i = i + 1;
                }
                proof {
                    assert forall|key: PairKey| #[trigger] windows.contains_key(key) implies (
                    match window_refresh_secs(windows[key].window, now_ms) {
                        Some(due) => secs <= due,
                        None => true,
                    }) by {
                        assert(listed.contains(key));
                        let j = listed.index_of(key);
                        assert(listed[j] == key);
                    }
                    assert(is_refresh_delay(windows, now_ms, secs as int));
                    assert(self@[provider@].windows == windows);
                }
            },
            None => {
                assert(is_refresh_delay(Map::empty(), now_ms, secs as int));
            },
        }
        Span::from_secs(secs)
    }

    fn is_reset_due(windows: &PairTable<QuotaWindowRecord>, now_ms: u64) -> (res: bool)
        ensures
            res == exists|key: PairKey| #[trigger]
                windows@.contains_key(key) && window_reset_due(windows@[key].window, now_ms),
    {
        let keys = windows.keys();
        let ghost listed = pair_contents(keys@);
        let mut i: usize = 0;
        while i < keys.len()
            invariant
                i <= keys@.len(),
                listed == pair_contents(keys@),
                forall|key: PairKey| windows@.contains_key(key) <==> #[trigger] listed.contains(key),
                forall|j: int|
                    0 <= j < i ==> !window_reset_due(
                        windows@[#[trigger] listed[j]].window,
                        now_ms,
                    ),
            decreases keys@.len() - i,
        {
            let ghost key = listed[i as int];
            assert(listed.contains(key));
            if let Some(record) = windows.get(keys[i].0.as_str(), keys[i].1.as_str()) {
                if let (Some(remaining), Some(anchor)) = (
                    record.window.remaining_seconds_at_timing_anchor,
                    record.window.timing_anchor_observed_at_unix_ms,
                ) {
                    let age: u64 = elapsed_seconds_since(anchor, now_ms);
                    if remaining < 0 || remaining as u64 <= age {
                        assert(windows@.contains_key(key));
                        return true;
                    }
                }
            }
            i = i + 1;
        }
        proof {
            assert forall|key: PairKey| #[trigger] windows@.contains_key(key) implies
                !window_reset_due(windows@[key].window, now_ms) by {
                assert(listed.contains(key));
                let j = listed.index_of(key);
                assert(listed[j] == key);
            }
        }
        false
    }

    /// Starts one full fetch unless one is in flight or was started too recently.
    pub fn begin_fetch(&mut self, provider: &String, now_ms: u64, now: Moment) -> (res: Option<
        (QuotaEpoch, u64),
    >)
        ensures
            begun(old(self), final(self), provider@, now_ms, now, res),
    {
        let mut current = match self.take(provider) {
            Some(current) => current,
            None => {
                return None;
            },
        };
        let ghost before = current@;
        let reset_due: bool = Self::is_reset_due(&current.windows, now_ms);
        let count: usize = current.windows.keys().len();
        proof {
            if count == 0 {
                assert(before.windows.dom() =~= Set::<PairKey>::empty());
            }
        }
        let allowed: bool = !current.fetch_in_flight && match current.last_fetch_started {
            Some(started) => {
                let elapsed: u128 = now.saturating_duration_since(started).nanos;
                QUOTA_FETCH_MIN_INTERVAL_SECS as u128 * NANOS_PER_SEC <= elapsed && (count == 0
                    || reset_due || QUOTA_REFRESH_INTERVAL_SECS as u128 * NANOS_PER_SEC <= elapsed)
            },
            None => true,
        };
        assert(allowed == fetch_allowed(before, now_ms, now));
        let started = (current.epoch, current.sequence);
        if allowed {
            current.fetch_in_flight = true;
            current.last_fetch_started = Some(now);
        }
        self.put(provider, current);
        assert(old(self)@.remove(provider@).insert(provider@, current@) =~= old(self)@.insert(
            provider@,
            current@,
        ));
        if allowed {
            Some(started)
        } else {
            assert(self@ =~= old(self)@);
            None
        }
    }

    /// Arms one refresh of the current epoch and returns its coalescing generation.
    pub fn schedule_refresh(&mut self, provider: &String, epoch: QuotaEpoch) -> (res: Option<u64>)
        ensures
            refresh_armed(old(self), final(self), provider@, epoch, res),
    {
        let mut current = match self.take(provider) {
            Some(current) => current,
            None => {
                return None;
            },
        };
        let matches: bool = current.epoch == epoch;
        if matches {
            current.refresh_generation = current.refresh_generation.saturating_add(1);
        }
        let generation: u64 = current.refresh_generation;
        self.put(provider, current);
        assert(old(self)@.remove(provider@).insert(provider@, current@) =~= old(self)@.insert(
            provider@,
            current@,
        ));
        if matches {
            Some(generation)
        } else {
            assert(self@ =~= old(self)@);
            None
        }
    }

    /// Reports whether a refresh wake is the latest of its epoch.
    pub fn refresh_is_current(
        &self,
        provider: &String,
        epoch: QuotaEpoch,
        generation: u64,
    ) -> (res: bool)
        ensures
            res == (self.in_epoch(provider@, epoch) && self@[provider@].refresh_generation
                == generation),
    {
        match self.profiles.get(provider.as_str()) {
            Some(current) => current.epoch == epoch && current.refresh_generation == generation,
            None => false,
        }
    }

    /// Delay after consecutive failed fetches.
    pub fn failure_delay(&self, provider: &String) -> (res: Span)
        ensures
            res.nanos == NANOS_PER_SEC * failure_delay_secs(
                if self@.contains_key(provider@) {
                    self@[provider@].failure_attempt
                } else {
                    0
                },
            ),
    {
        let attempt: u8 = match self.profiles.get(provider.as_str()) {
            Some(current) => current.failure_attempt,
            None => 0,
        };
        let factor: u64 = if attempt == 0 {
            1
        } else if attempt == 1 {
            2
        } else if attempt == 2 {
            4
        } else if attempt == 3 {
            8
        } else {
            16
        };
        let delay: u64 = QUOTA_FETCH_MIN_INTERVAL_SECS * factor;
        Span::from_secs(if delay < QUOTA_REFRESH_INTERVAL_SECS {
            delay
        } else {
            QUOTA_REFRESH_INTERVAL_SECS
        })
    }

    /// Ends a failed fetch of the current epoch.
    pub fn fail_fetch(&mut self, provider: &String, epoch: QuotaEpoch)
        ensures
            fetch_failed(old(self), final(self), provider@, epoch),
    {
        let mut current = match self.take(provider) {
            Some(current) => current,
            None => {
                return ;
            },
        };
        let matches: bool = current.epoch == epoch;
        if matches {
            current.fetch_in_flight = false;
            current.failure_attempt = current.failure_attempt.saturating_add(1);
        }
        self.put(provider, current);
        assert(old(self)@.remove(provider@).insert(provider@, current@) =~= old(self)@.insert(
            provider@,
            current@,
        ));
        if !matches {
            assert(self@ =~= old(self)@);
        }
    }
}

/// What ensuring a profile does: an unchanged identity keeps everything, a new one starts a fresh
/// epoch and reports the empty replacement.
pub open spec fn ensured(
    before: &QuotaCoordinator,
    after: &QuotaCoordinator,
    provider: String,
    identity: u64,
    now_ms: u64,
    report: Option<QuotaReport>,
) -> bool {
    let known = before@.contains_key(provider@) && before@[provider@].identity == identity;
    let epoch = QuotaEpoch { started_at_ms: now_ms, ordinal: following(before.last_epoch()) };
    &&& after.spec_limits() == before.spec_limits()
    &&& if known {
        report is None && after@ == before@ && after.last_epoch() == before.last_epoch()
    } else {
        &&& after@ == before@.insert(provider@, fresh_profile(identity, epoch))
        &&& after.last_epoch() == epoch.ordinal
        &&& match report {
            Some(
                QuotaReport::Replace {
                    provider: reported,
                    profile_epoch,
                    sequence,
                    establishes_new_epoch,
                    windows,
                    route_bindings,
                },
            ) => {
                &&& reported == provider
                &&& profile_epoch == epoch
                &&& sequence == 1
                &&& establishes_new_epoch
                &&& windows@.len() == 0
                &&& route_bindings@.len() == 0
            },
            _ => false,
        }
    }
}

/// What forgetting a provider does.
pub open spec fn cleared(
    before: &QuotaCoordinator,
    after: &QuotaCoordinator,
    provider: String,
    report: Option<QuotaReport>,
) -> bool {
    &&& after@ == before@.remove(provider@)
    &&& after.same_frame(before)
    &&& report == if before@.contains_key(provider@) {
        Some(
            QuotaReport::Clear {
                provider,
                profile_epoch: before@[provider@].epoch,
                sequence: following(before@[provider@].sequence),
            },
        )
    } else {
        None
    }
}

/// What starting a fetch does.
pub open spec fn begun(
    before: &QuotaCoordinator,
    after: &QuotaCoordinator,
    provider: Seq<char>,
    now_ms: u64,
    now: Moment,
    started: Option<(QuotaEpoch, u64)>,
) -> bool {
    &&& after.same_frame(before)
    &&& if before@.contains_key(provider) && fetch_allowed(before@[provider], now_ms, now) {
        &&& started == Some((before@[provider].epoch, before@[provider].sequence))
        &&& after@ == before@.insert(
            provider,
            QuotaProfile {
                fetch_in_flight: true,
                last_fetch_started: Some(now),
                ..before@[provider]
            },
        )
    } else {
        started is None && after@ == before@
    }
}

/// What arming a refresh does: only the latest generation of the current epoch is live.
pub open spec fn refresh_armed(
    before: &QuotaCoordinator,
    after: &QuotaCoordinator,
    provider: Seq<char>,
    epoch: QuotaEpoch,
    generation: Option<u64>,
) -> bool {
    &&& after.same_frame(before)
    &&& if before.in_epoch(provider, epoch) {
        let next = following(before@[provider].refresh_generation);
        &&& generation == Some(next)
        &&& after@ == before@.insert(
            provider,
            QuotaProfile { refresh_generation: next, ..before@[provider] },
        )
    } else {
        generation is None && after@ == before@
    }
}

/// What a failed fetch does: stale epochs are ignored.
pub open spec fn fetch_failed(
    before: &QuotaCoordinator,
    after: &QuotaCoordinator,
    provider: Seq<char>,
    epoch: QuotaEpoch,
) -> bool {
    &&& after.same_frame(before)
    &&& after@ == if before.in_epoch(provider, epoch) {
        before@.insert(
            provider,
            QuotaProfile {
                fetch_in_flight: false,
                failure_attempt: next_failure(before@[provider].failure_attempt),
                ..before@[provider]
            },
        )
    } else {
        before@
    }
}

fn list_windows(windows: &PairTable<QuotaWindowRecord>) -> (res: Vec<QuotaWindow>)
    ensures
        lists_windows(res@, windows@),
{
    let keys = windows.keys();
    let ghost listed = pair_contents(keys@);
    let mut res: Vec<QuotaWindow> = Vec::new();
    let mut i: usize = 0;
    while i < keys.len()
        invariant
            i <= keys@.len(),
            res@.len() == i,
            listed == pair_contents(keys@),
            forall|key: PairKey| windows@.contains_key(key) <==> #[trigger] listed.contains(key),
            forall|j: int| 0 <= j < i ==> #[trigger] res@[j] == windows@[listed[j]].window,
        decreases keys@.len() - i,
    {
        assert(listed.contains(listed[i as int]));
        if let Some(record) = windows.get(keys[i].0.as_str(), keys[i].1.as_str()) {
            res.push(record.window.clone());
        }
        i = i + 1;
    }
    assert(windows_by(res@, windows@, listed));
    res
}

fn list_bindings(bindings: &PairTable<QuotaRouteBinding>) -> (res: Vec<QuotaRouteBinding>)
    ensures
        lists_bindings(res@, bindings@),
{
    let keys = bindings.keys();
    let ghost listed = pair_contents(keys@);
    let mut res: Vec<QuotaRouteBinding> = Vec::new();
    let mut i: usize = 0;
    while i < keys.len()
        invariant
            i <= keys@.len(),
            res@.len() == i,
            listed == pair_contents(keys@),
            forall|key: PairKey| bindings@.contains_key(key) <==> #[trigger] listed.contains(key),
            forall|j: int| 0 <= j < i ==> #[trigger] res@[j] == bindings@[listed[j]],
        decreases keys@.len() - i,
    {
        assert(listed.contains(listed[i as int]));
        if let Some(binding) = bindings.get(keys[i].0.as_str(), keys[i].1.as_str()) {
            res.push(binding.clone());
        }
        i = i + 1;
    }
    assert(bindings_by(res@, bindings@, listed));
    res
}

/// Collects the windows of one complete fetch; `None` when an observation lacks its duration.
fn collect_fetched(
    observations: Vec<QuotaWindowObservation>,
    observed_at_unix_ms: u64,
) -> (res: Option<PairTable<QuotaWindow>>)
    ensures
        match res {
            Some(fetched) => complete_fetch(observations@) && fetched@ == fetched_windows(
                observations@,
                observed_at_unix_ms,
            ),
            None => !complete_fetch(observations@),
        },
{
    let mut remaining = observations;
    let ghost all = remaining@;
    let ghost mut done: int = 0;
    let mut fetched: PairTable<QuotaWindow> = PairTable::new();
    assert(all.take(0) =~= Seq::<QuotaWindowObservation>::empty());
    while remaining.len() > 0
        invariant
            all == observations@,
            0 <= done <= all.len(),
            remaining@ == all.skip(done),
            fetched@ == fetched_windows(all.take(done), observed_at_unix_ms),
            forall|i: int| 0 <= i < done ==> (#[trigger] all[i]).window_seconds is Some,
        decreases remaining@.len(),
    {
        let observation = remaining.remove(0);
        assert(observation == all[done]);
        let limit_id = observation.limit_id.clone();
        let window_id = observation.window_id.clone();
        match full_quota_window(observation, observed_at_unix_ms) {
            Some(window) => {
                fetched.insert(limit_id, window_id, window);
            },
            None => {
                return None;
            },
        }
        proof {
            assert(all.take(done + 1).drop_last() =~= all.take(done));
            assert(all.skip(done).remove(0) =~= all.skip(done + 1));
            done = done + 1;
        }
    }
    assert(all.take(done) =~= all);
    Some(fetched)
}

/// Reconciles fetched windows with those touched since the fetch began.
fn reconcile_windows(
    windows: &PairTable<QuotaWindowRecord>,
    fetched: &PairTable<QuotaWindow>,
    start: u64,
    sequence: u64,
) -> (res: PairTable<QuotaWindowRecord>)
    ensures
        res@ == reconciled(windows@, fetched@, start, sequence),
{
    let mut candidate: PairTable<QuotaWindowRecord> = PairTable::new();
    let keys = windows.keys();
    let ghost listed = pair_contents(keys@);
    let mut i: usize = 0;
    while i < keys.len()
        invariant
            i <= keys@.len(),
            listed == pair_contents(keys@),
            forall|key: PairKey| windows@.contains_key(key) <==> #[trigger] listed.contains(key),
            forall|key: PairKey| #[trigger]
                candidate@.contains_key(key) ==> touched_since(windows@, key, start)
                    && candidate@[key] == windows@[key],
            forall|j: int|
                0 <= j < i && touched_since(windows@, listed[j], start) ==> candidate@.contains_key(
                    #[trigger] listed[j],
                ),
        decreases keys@.len() - i,
    {
        assert(listed.contains(listed[i as int]));
        if let Some(record) = windows.get(keys[i].0.as_str(), keys[i].1.as_str()) {
            if record.updated_sequence > start {
                candidate.insert(keys[i].0.clone(), keys[i].1.clone(), record.clone());
            }
        }
        i = i + 1;
    }
    let ghost touched = candidate@;
    proof {
        assert forall|key: PairKey| touched.contains_key(key) == touched_since(
            windows@,
            key,
            start,
        ) by {
            if touched_since(windows@, key, start) {
                assert(listed.contains(key));
                let j = listed.index_of(key);
                assert(listed[j] == key);
            }
        }
    }
    let fetched_keys = fetched.keys();
    let ghost names = pair_contents(fetched_keys@);
    let mut k: usize = 0;
    while k < fetched_keys.len()
        invariant
            k <= fetched_keys@.len(),
            names == pair_contents(fetched_keys@),
            forall|key: PairKey| fetched@.contains_key(key) <==> #[trigger] names.contains(key),
            forall|key: PairKey| touched.contains_key(key) == touched_since(windows@, key, start),
            forall|key: PairKey| #[trigger]
                touched.contains_key(key) ==> touched[key] == windows@[key],
            forall|key: PairKey| #[trigger]
                touched.contains_key(key) ==> candidate@.contains_key(key) && candidate@[key]
                    == touched[key],
            forall|key: PairKey| #[trigger]
                candidate@.contains_key(key) && !touched.contains_key(key)
                    ==> fetched@.contains_key(key) && candidate@[key] == (QuotaWindowRecord {
                    window: fetched@[key],
                    updated_sequence: sequence,
                }),
            forall|j: int| 0 <= j < k ==> candidate@.contains_key(#[trigger] names[j]),
        decreases fetched_keys@.len() - k,
    {
        let ghost key = names[k as int];
        assert(names.contains(key));
        let is_touched: bool = match windows.get(
            fetched_keys[k].0.as_str(),
            fetched_keys[k].1.as_str(),
        ) {
            Some(record) => record.updated_sequence > start,
            None => false,
        };
        assert(is_touched == touched.contains_key(key));
        if !is_touched {
            if let Some(window) = fetched.get(
                fetched_keys[k].0.as_str(),
                fetched_keys[k].1.as_str(),
            ) {
                candidate.insert(
                    fetched_keys[k].0.clone(),
                    fetched_keys[k].1.clone(),
                    QuotaWindowRecord { window: window.clone(), updated_sequence: sequence },
                );
            }
        }
        k = k + 1;
    }
    proof {
        let target = reconciled(windows@, fetched@, start, sequence);
        assert forall|key: PairKey| candidate@.contains_key(key) == target.contains_key(key) by {
            if fetched@.contains_key(key) {
                assert(names.contains(key));
                let j = names.index_of(key);
                assert(names[j] == key);
            }
        }
        assert forall|key: PairKey| candidate@.contains_key(key) implies candidate@[key]
            == target[key] by {
            if touched.contains_key(key) {
            }
        }
        assert(candidate@ =~= target);
    }
    candidate
}

/// What a completed fetch does: stale epochs are ignored, and a reconciled state is reported as a
/// complete replacement.
pub open spec fn fetch_finished(
    before: &QuotaCoordinator,
    after: &QuotaCoordinator,
    provider: String,
    epoch: QuotaEpoch,
    start: u64,
    observations: Seq<QuotaWindowObservation>,
    observed_at_unix_ms: u64,
    report: Option<QuotaReport>,
) -> bool {
    &&& after.same_frame(before)
    &&& if before.in_epoch(provider@, epoch) {
        let profile = before@[provider@];
        let result = fetched_profile(
            profile,
            before.spec_limits(),
            start,
            observations,
            observed_at_unix_ms,
        );
        &&& after@ == before@.insert(provider@, result)
        &&& if fetch_accepted(
            profile,
            before.spec_limits(),
            start,
            observations,
            observed_at_unix_ms,
        ) {
            match report {
                Some(
                    QuotaReport::Replace {
                        provider: reported,
                        profile_epoch,
                        sequence,
                        establishes_new_epoch,
                        windows,
                        route_bindings,
                    },
                ) => {
                    &&& reported == provider
                    &&& profile_epoch == epoch
                    &&& sequence == result.sequence
                    &&& !establishes_new_epoch
                    &&& lists_windows(windows@, result.windows)
                    &&& lists_bindings(route_bindings@, result.bindings)
                },
                _ => false,
            }
        } else {
            report is None
        }
    } else {
        report is None && after@ == before@
    }
}

/// What a rolling observation does: it belongs to the exact profile identity, is refused as a
/// whole when it does not fit, and otherwise reports just what changed.
pub open spec fn rolled(
    before: &QuotaCoordinator,
    after: &QuotaCoordinator,
    model: ModelId,
    identity: u64,
    observation: RollingQuotaObservation,
    observed_at_unix_ms: u64,
    report: Option<QuotaReport>,
) -> bool {
    let provider = model.provider@;
    &&& after.same_frame(before)
    &&& if before@.contains_key(provider) && before@[provider].identity == identity
        && rolling_accepted(before@[provider], before.spec_limits(), model, observation) {
        let profile = before@[provider];
        let result = rolled_profile(profile, model, observation, observed_at_unix_ms);
        let patch = rolled_patch(
            profile.windows,
            observation.windows@,
            observed_at_unix_ms,
            result.sequence,
        );
        let binding = rolled_binding(model, observation, observed_at_unix_ms);
        &&& after@ == before@.insert(provider, result)
        &&& if patch.len() == 0 && binding is None {
            report is None
        } else {
            match report {
                Some(
                    QuotaReport::Patch {
                        provider: reported,
                        profile_epoch,
                        sequence,
                        windows,
                        route_bindings,
                    },
                ) => {
                    &&& reported == model.provider
                    &&& profile_epoch == profile.epoch
                    &&& sequence == result.sequence
                    &&& windows@ == patch
                    &&& route_bindings@ == match binding {
                        Some(binding) => seq![binding],
                        None => Seq::empty(),
                    }
                },
                _ => false,
            }
        }
    } else {
        report is None && after@ == before@
    }
}

/// Counts the known keys that no observation names, and reports whether observations repeat one.
fn count_untouched(
    windows: &PairTable<QuotaWindowRecord>,
    observations: &Vec<QuotaWindowObservation>,
) -> (res: (usize, bool))
    ensures
        res.0 == windows@.dom().difference(observed_keys(observations@).to_set()).len(),
        res.1 == observed_keys(observations@).no_duplicates(),
        windows@.dom().finite(),
{
    let ghost incoming = observed_keys(observations@);
    let keys = windows.keys();
    let ghost listed = pair_contents(keys@);
    let mut untouched: usize = 0;
    let ghost mut seen: Set<PairKey> = Set::empty();
    let mut i: usize = 0;
    proof {
        ordered_pairs_are_distinct(listed);
    }
    while i < keys.len()
        invariant
            i <= keys@.len(),
            listed == pair_contents(keys@),
            listed.no_duplicates(),
            incoming == observed_keys(observations@),
            seen.finite(),
            seen.len() == untouched,
            untouched <= i,
            forall|key: PairKey| #[trigger]
                seen.contains(key) <==> !incoming.contains(key) && exists|j: int|
                    0 <= j < i && #[trigger] listed[j] == key,
        decreases keys@.len() - i,
    {
        let ghost key = listed[i as int];
        let mut named: bool = false;
        let mut k: usize = 0;
        while k < observations.len()
            invariant
                k <= observations@.len(),
                i < keys@.len(),
                listed == pair_contents(keys@),
                key == listed[i as int],
                incoming == observed_keys(observations@),
                named == exists|j: int| 0 <= j < k && #[trigger] incoming[j] == key,
            decreases observations@.len() - k,
        {
            let same: bool = observations[k].limit_id == keys[i].0 && observations[k].window_id
                == keys[i].1;
            assert(same == (incoming[k as int] == key));
            if same {
                named = true;
            }
            k = k + 1;
        }
        assert(named == incoming.contains(key));
        if !named {
            proof {
                assert(!seen.contains(key)) by {
                    if seen.contains(key) {
                        let j = choose|j: int| 0 <= j < i && #[trigger] listed[j] == key;
                        assert(listed[j] != listed[i as int]);
                    }
                }
                seen = seen.insert(key);
            }
            untouched = untouched + 1;
        }
        proof {
            assert forall|x: PairKey| #[trigger] seen.contains(x) <==> !incoming.contains(x)
                && exists|j: int| 0 <= j < i + 1 && #[trigger] listed[j] == x by {
                if x == key {
                    assert(listed[i as int] == x);
                } else if exists|j: int| 0 <= j < i + 1 && #[trigger] listed[j] == x {
                    let j = choose|j: int| 0 <= j < i + 1 && #[trigger] listed[j] == x;
                    assert(j < i);
                }
            }
        }
        i = i + 1;
    }
    proof {
        assert forall|key: PairKey| seen.contains(key) == windows@.dom().difference(
            incoming.to_set(),
        ).contains(key) by {
            if windows@.contains_key(key) {
                assert(listed.contains(key));
                let j = listed.index_of(key);
                assert(listed[j] == key);
            }
            if seen.contains(key) {
                let j = choose|j: int| 0 <= j < i && #[trigger] listed[j] == key;
                assert(listed.contains(key));
            }
        }
        assert(seen =~= windows@.dom().difference(incoming.to_set()));
    }
    let mut distinct: bool = true;
    let mut a: usize = 0;
    while a < observations.len()
        invariant
            a <= observations@.len(),
            incoming == observed_keys(observations@),
            distinct == forall|x: int, y: int|
                0 <= x < a && 0 <= y < a && x != y ==> #[trigger] incoming[x] != #[trigger] incoming[y],
        decreases observations@.len() - a,
    {
        let mut b: usize = 0;
        let mut repeated: bool = false;
        while b < a
            invariant
                b <= a,
                a < observations@.len(),
                incoming == observed_keys(observations@),
                repeated == exists|j: int|
                    0 <= j < b && #[trigger] incoming[j] == incoming[a as int],
            decreases a - b,
        {
            let same: bool = observations[b].limit_id == observations[a].limit_id
                && observations[b].window_id == observations[a].window_id;
            assert(same == (incoming[b as int] == incoming[a as int]));
            if same {
                repeated = true;
            }
            b = b + 1;
        }
        distinct = distinct && !repeated;
        proof {
            if repeated {
                let j = choose|j: int| 0 <= j < a && #[trigger] incoming[j] == incoming[a as int];
                assert(incoming[j] == incoming[a as int]);
            }
        }
        a = a + 1;
    }
    (untouched, distinct)
}

impl QuotaCoordinator {
    /// Reconciles one completed full fetch.
    pub fn finish_fetch(
        &mut self,
        provider: String,
        epoch: QuotaEpoch,
        fetch_start_sequence: u64,
        observations: Vec<QuotaWindowObservation>,
        observed_at_unix_ms: u64,
    ) -> (res: Option<QuotaReport>)
        ensures
            fetch_finished(
                old(self),
                final(self),
                provider,
                epoch,
                fetch_start_sequence,
                observations@,
                observed_at_unix_ms,
                res,
            ),
    {
        if !self.epoch_matches(&provider, epoch) {
            return None;
        }
        let mut current = match self.take(&provider) {
            Some(current) => current,
            None => {
                return None;
            },
        };
        let ghost profile = current@;
        let ghost result = fetched_profile(
            profile,
            self.limits,
            fetch_start_sequence,
            observations@,
            observed_at_unix_ms,
        );
        current.fetch_in_flight = false;
        let mut report: Option<QuotaReport> = None;
        if let Some(fetched) = collect_fetched(observations, observed_at_unix_ms) {
            let next: u64 = current.sequence.saturating_add(1);
            let candidate = reconcile_windows(
                &current.windows,
                &fetched,
                fetch_start_sequence,
                next,
            );
            let count: usize = candidate.keys().len();
            if count > self.limits.max_windows {
                current.failure_attempt = current.failure_attempt.saturating_add(1);
            } else {
                current.sequence = next;
                current.failure_attempt = 0;
                current.windows = candidate;
                report = Some(
                    QuotaReport::Replace {
                        provider: provider.clone(),
                        profile_epoch: epoch,
                        sequence: next,
                        establishes_new_epoch: false,
                        windows: list_windows(&current.windows),
                        route_bindings: list_bindings(&current.bindings),
                    },
                );
            }
        }
        assert(current@ == result);
        self.put(&provider, current);
        assert(self@ =~= old(self)@.insert(provider@, result));
        report
    }

    /// Merges one sparse in-band observation of the exact profile identity.
    pub fn merge_rolling(
        &mut self,
        model: ModelId,
        profile_identity: u64,
        observation: RollingQuotaObservation,
        observed_at_unix_ms: u64,
    ) -> (res: Option<QuotaReport>)
        ensures
            rolled(
                old(self),
                final(self),
                model,
                profile_identity,
                observation,
                observed_at_unix_ms,
                res,
            ),
    {
        let accepted: bool = match self.profiles.get(model.provider.as_str()) {
            Some(current) => {
                let (untouched, distinct) = count_untouched(
                    &current.windows,
                    &observation.windows,
                );
                let incoming: usize = observation.windows.len();
                let bindings: usize = current.bindings.keys().len();
                let adding_binding: bool = observation.active_limit_id.is_some()
                    && !current.bindings.contains_key(
                    model.provider.as_str(),
                    model.model.as_str(),
                );
                proof {
                    let known = current.windows@.dom();
                    let keys = observed_keys(observation.windows@);
                    if keys.no_duplicates() {
                        keys.unique_seq_to_set();
                    }
                    vstd::set_lib::lemma_set_disjoint_lens(
                        known.difference(keys.to_set()),
                        keys.to_set(),
                    );
                    assert(known.difference(keys.to_set()).union(keys.to_set()) =~= known.union(
                        keys.to_set(),
                    ));
                }
                let fits: bool = incoming <= self.limits.max_windows && untouched
                    <= self.limits.max_windows - incoming;
                current.identity == profile_identity && distinct && fits && (!adding_binding
                    || bindings < self.limits.max_bindings) && observation.active_limit_id.is_some()
                    == observation.binding_provenance.is_some()
            },
            None => false,
        };
        if !accepted {
            return None;
        }
        let provider = model.provider.clone();
        let mut current = match self.take(&provider) {
            Some(current) => current,
            None => {
                return None;
            },
        };
        let ghost profile = current@;
        let ghost result = rolled_profile(profile, model, observation, observed_at_unix_ms);
        current.sequence = current.sequence.saturating_add(1);
        let sequence: u64 = current.sequence;
        let mut remaining = observation.windows;
        let ghost all = remaining@;
        let ghost mut done: int = 0;
        let mut windows: Vec<QuotaWindow> = Vec::new();
        assert(all.take(0) =~= Seq::<QuotaWindowObservation>::empty());
        while remaining.len() > 0
            invariant
                0 <= done <= all.len(),
                remaining@ == all.skip(done),
                current.identity == profile.identity,
                current.epoch == profile.epoch,
                current.sequence == sequence,
                current.bindings@ == profile.bindings,
                current.fetch_in_flight == profile.fetch_in_flight,
                current.last_fetch_started == profile.last_fetch_started,
                current.refresh_generation == profile.refresh_generation,
                current.failure_attempt == profile.failure_attempt,
                current.windows@ == rolled_windows(
                    profile.windows,
                    all.take(done),
                    observed_at_unix_ms,
                    sequence,
                ),
                windows@ == rolled_patch(
                    profile.windows,
                    all.take(done),
                    observed_at_unix_ms,
                    sequence,
                ),
            decreases remaining@.len(),
        {
            let sparse = remaining.remove(0);
            assert(sparse == all[done]);
            let limit_id = sparse.limit_id.clone();
            let window_id = sparse.window_id.clone();
            let merged = match current.windows.get(limit_id.as_str(), window_id.as_str()) {
                Some(record) => merge_sparse_quota_window(
                    Some(&record.window),
                    sparse,
                    observed_at_unix_ms,
                ),
                None => merge_sparse_quota_window(None, sparse, observed_at_unix_ms),
            };
            proof {
                assert(all.take(done + 1).drop_last() =~= all.take(done));
                assert(all.skip(done).remove(0) =~= all.skip(done + 1));
                done = done + 1;
            }
            if let Some(window) = merged {
                current.windows.insert(
                    limit_id,
                    window_id,
                    QuotaWindowRecord { window: window.clone(), updated_sequence: sequence },
                );
                windows.push(window);
            }
        }
        assert(all.take(done) =~= all);
        let mut route_bindings: Vec<QuotaRouteBinding> = Vec::new();
        if let (Some(limit_id), Some(provenance)) = (
            observation.active_limit_id,
            observation.binding_provenance,
        ) {
            let binding = QuotaRouteBinding {
                model: model.clone(),
                limit_id,
                observed_at_unix_ms,
                provenance,
            };
            current.bindings.insert(
                model.provider.clone(),
                model.model.clone(),
                binding.clone(),
            );
            route_bindings.push(binding);
        }
        assert(current@ == result);
        let profile_epoch: QuotaEpoch = current.epoch;
        self.put(&provider, current);
        assert(self@ =~= old(self)@.insert(provider@, result));
        if windows.len() == 0 && route_bindings.len() == 0 {
            return None;
        }
        Some(QuotaReport::Patch { provider, profile_epoch, sequence, windows, route_bindings })
    }
}

/// State sequences never decrease, and a report of a profile carries its newest sequence: a
/// receiver that keeps the largest sequence of an epoch never goes back.
pub proof fn quota_sequence_is_monotone(
    profile: QuotaProfile,
    limits: QuotaLimits,
    start: u64,
    observations: Seq<QuotaWindowObservation>,
    observed_at_unix_ms: u64,
    model: ModelId,
    observation: RollingQuotaObservation,
)
    ensures
        profile.sequence <= fetched_profile(
            profile,
            limits,
            start,
            observations,
            observed_at_unix_ms,
        ).sequence,
        profile.sequence <= rolled_profile(
            profile,
            model,
            observation,
            observed_at_unix_ms,
        ).sequence,
        profile.sequence < u64::MAX ==> profile.sequence < rolled_profile(
            profile,
            model,
            observation,
            observed_at_unix_ms,
        ).sequence,
{
}

/// A merged window reports what was observed: for any earlier window, its usage and its key are
/// the observation's, and its usage dates from the observation. There is one exactly when its
/// duration is known, and what the observation leaves out comes from the earlier window.
pub proof fn merged_window_holds_the_observation(
    previous: Option<QuotaWindow>,
    sparse: QuotaWindowObservation,
    observed_at_unix_ms: u64,
)
    ensures
        merged_window(previous, sparse, observed_at_unix_ms) is Some <==> sparse.window_seconds is Some
            || previous is Some,
        merged_window(previous, sparse, observed_at_unix_ms) matches Some(window) ==> {
            &&& window.used_basis_points == sparse.used_basis_points
            &&& window.usage_observed_at_unix_ms == observed_at_unix_ms
            &&& window.limit_id == sparse.limit_id
            &&& window.window_id == sparse.window_id
            &&& sparse.window_seconds matches Some(seconds) ==> window.window_seconds == seconds
            &&& sparse.window_seconds is None ==> (previous matches Some(known)
                && window.window_seconds == known.window_seconds)
            &&& sparse.reset_at_unix_seconds is Some ==> window.reset_at_unix_seconds
                == sparse.reset_at_unix_seconds
            &&& sparse.reset_at_unix_seconds is None ==> window.reset_at_unix_seconds == (
            match previous {
                Some(known) => known.reset_at_unix_seconds,
                None => None,
            })
        },
{
}

/// No timing is known of `window`.
pub open spec fn without_timing(window: QuotaWindow) -> bool {
    &&& window.remaining_seconds_at_timing_anchor is None
    &&& window.timing_anchor_observed_at_unix_ms is None
    &&& window.server_offset_ms is None
    &&& window.server_offset_observed_at_unix_ms is None
}

/// Timing outlives a sparse observation only while the window goes on: another duration or a drop
/// in usage of more than 100 basis points forgets it, a new reset time forgets the countdown, and
/// an observation without any of these keeps all of it. Without an earlier window there is none.
pub proof fn timing_is_kept_while_the_window_goes_on(
    previous: QuotaWindow,
    sparse: QuotaWindowObservation,
    observed_at_unix_ms: u64,
    merged: QuotaWindow,
)
    requires
        merged_window(Some(previous), sparse, observed_at_unix_ms) == Some(merged),
    ensures
        sparse.window_seconds matches Some(seconds) ==> (seconds != previous.window_seconds
            ==> without_timing(merged)),
        sparse.used_basis_points + 100 < previous.used_basis_points ==> without_timing(merged),
        (sparse.window_seconds is None || sparse.window_seconds == Some(previous.window_seconds))
            && previous.used_basis_points <= sparse.used_basis_points + 100
            && sparse.reset_at_unix_seconds is None ==> {
            &&& merged.remaining_seconds_at_timing_anchor
                == previous.remaining_seconds_at_timing_anchor
            &&& merged.timing_anchor_observed_at_unix_ms
                == previous.timing_anchor_observed_at_unix_ms
            &&& merged.server_offset_ms == previous.server_offset_ms
            &&& merged.server_offset_observed_at_unix_ms
                == previous.server_offset_observed_at_unix_ms
        },
        sparse.reset_at_unix_seconds is Some ==> merged.remaining_seconds_at_timing_anchor is None
            && merged.timing_anchor_observed_at_unix_ms is None,
{
}

/// A new reset time keeps the server clock offset only when it continues the known one: within a
/// minute of it, or later once at most five minutes of the countdown remained.
pub proof fn offset_is_kept_across_a_plausible_reset(
    previous: QuotaWindow,
    sparse: QuotaWindowObservation,
    observed_at_unix_ms: u64,
    merged: QuotaWindow,
    before: i64,
    after: i64,
)
    requires
        merged_window(Some(previous), sparse, observed_at_unix_ms) == Some(merged),
        sparse.window_seconds is None || sparse.window_seconds == Some(previous.window_seconds),
        previous.used_basis_points <= sparse.used_basis_points + 100,
        previous.reset_at_unix_seconds == Some(before),
        sparse.reset_at_unix_seconds == Some(after),
    ensures
        after + 60 < before ==> without_timing(merged),
        before - 60 <= after <= before + 60 ==> merged.server_offset_ms
            == previous.server_offset_ms && merged.server_offset_observed_at_unix_ms
            == previous.server_offset_observed_at_unix_ms,
        before + 60 < after && (previous.remaining_seconds_at_timing_anchor is None
            || previous.timing_anchor_observed_at_unix_ms is None) ==> without_timing(merged),
        before + 60 < after ==> (previous.remaining_seconds_at_timing_anchor matches Some(remaining)
            ==> (previous.timing_anchor_observed_at_unix_ms matches Some(anchor) ==> (anchor
            <= observed_at_unix_ms ==> (if (remaining - 301) * 1000 < observed_at_unix_ms - anchor {
            merged.server_offset_ms == previous.server_offset_ms
        } else {
            without_timing(merged)
        })))),
{
}

/// A complete window holds exactly what was observed. Its countdown is anchored at the
/// observation, and the server clock offset is what the reset time, the countdown and the
/// observation time leave.
pub proof fn full_window_holds_the_observation(
    observation: QuotaWindowObservation,
    observed_at_unix_ms: u64,
)
    ensures
        full_window(observation, observed_at_unix_ms) is Some
            <==> observation.window_seconds is Some,
        full_window(observation, observed_at_unix_ms) matches Some(window) ==> {
            &&& window.limit_id == observation.limit_id
            &&& window.window_id == observation.window_id
            &&& window.used_basis_points == observation.used_basis_points
            &&& window.usage_observed_at_unix_ms == observed_at_unix_ms
            &&& observation.window_seconds == Some(window.window_seconds)
            &&& window.reset_at_unix_seconds == observation.reset_at_unix_seconds
            &&& window.remaining_seconds_at_timing_anchor == observation.remaining_seconds
            &&& observation.remaining_seconds is Some ==> window.timing_anchor_observed_at_unix_ms
                == Some(observed_at_unix_ms)
            &&& observation.remaining_seconds is None
                ==> window.timing_anchor_observed_at_unix_ms is None
            &&& observation.reset_at_unix_seconds is None || observation.remaining_seconds is None
                ==> window.server_offset_ms is None
            &&& window.server_offset_ms matches Some(offset) ==> {
                &&& offset + observed_at_unix_ms == 1000 * (observation.reset_at_unix_seconds->0
                    - observation.remaining_seconds->0)
                &&& window.server_offset_observed_at_unix_ms == Some(observed_at_unix_ms)
            }
            &&& window.server_offset_ms is None ==> window.server_offset_observed_at_unix_ms is None
            &&& observation.reset_at_unix_seconds matches Some(reset) ==> (
            observation.remaining_seconds matches Some(remaining) ==> (-9_000_000_000_000_000_000
                <= 1000 * (reset - remaining) - observed_at_unix_ms <= 9_000_000_000_000_000_000
                ==> window.server_offset_ms is Some))
        },
{
}

/// Elapsed time is counted in started seconds, and none has elapsed before the anchor.
pub proof fn elapsed_time_is_rounded_up(anchor: u64, now: u64)
    ensures
        now <= anchor ==> elapsed_secs(anchor, now) == 0,
        anchor < now ==> 1000 * (elapsed_secs(anchor, now) - 1) < now - anchor <= 1000
            * elapsed_secs(anchor, now),
{
}

/// `key` is among the observed keys.
pub open spec fn observes(observations: Seq<QuotaWindowObservation>, key: PairKey) -> bool {
    exists|i: int| 0 <= i < observations.len() && (#[trigger] observations[i]).key() == key
}

/// No two observations share a key.
pub open spec fn distinctly_keyed(observations: Seq<QuotaWindowObservation>) -> bool {
    forall|i: int, j: int|
        0 <= i < j < observations.len() ==> (#[trigger] observations[i]).key() != (
        #[trigger] observations[j]).key()
}

/// Some observation merges into `window`.
pub open spec fn merges_into(
    windows: Map<PairKey, QuotaWindowRecord>,
    observations: Seq<QuotaWindowObservation>,
    observed_at_unix_ms: u64,
    window: QuotaWindow,
) -> bool {
    exists|i: int|
        0 <= i < observations.len() && merged_window(
            previous_window(windows, (#[trigger] observations[i]).key()),
            observations[i],
            observed_at_unix_ms,
        ) == Some(window)
}

proof fn lemma_rolled(
    windows: Map<PairKey, QuotaWindowRecord>,
    observations: Seq<QuotaWindowObservation>,
    observed_at_unix_ms: u64,
    sequence: u64,
)
    requires
        distinctly_keyed(observations),
    ensures
        forall|i: int|
            0 <= i < observations.len() ==> match merged_window(
                previous_window(windows, (#[trigger] observations[i]).key()),
                observations[i],
                observed_at_unix_ms,
            ) {
                Some(window) => {
                    let rolled = rolled_windows(
                        windows,
                        observations,
                        observed_at_unix_ms,
                        sequence,
                    );
                    &&& rolled.contains_key(observations[i].key())
                    &&& rolled[observations[i].key()].window == window
                    &&& rolled[observations[i].key()].updated_sequence == sequence
                    &&& rolled_patch(
                        windows,
                        observations,
                        observed_at_unix_ms,
                        sequence,
                    ).contains(window)
                },
                None => !rolled_windows(
                    windows,
                    observations,
                    observed_at_unix_ms,
                    sequence,
                ).contains_key(observations[i].key()),
            },
        forall|key: PairKey|
            !observes(observations, key) ==> {
                &&& #[trigger] rolled_windows(
                    windows,
                    observations,
                    observed_at_unix_ms,
                    sequence,
                ).contains_key(key) == windows.contains_key(key)
                &&& windows.contains_key(key) ==> rolled_windows(
                    windows,
                    observations,
                    observed_at_unix_ms,
                    sequence,
                )[key] == windows[key]
            },
        forall|p: int|
            0 <= p < rolled_patch(windows, observations, observed_at_unix_ms, sequence).len()
                ==> merges_into(
                windows,
                observations,
                observed_at_unix_ms,
                #[trigger] rolled_patch(windows, observations, observed_at_unix_ms, sequence)[p],
            ),
    decreases observations.len(),
{
    if observations.len() > 0 {
        let init = observations.drop_last();
        let sparse = observations.last();
        let n = init.len() as int;
        assert forall|i: int, j: int| 0 <= i < j < init.len() implies (
        #[trigger] init[i]).key() != (#[trigger] init[j]).key() by {
            assert(observations[i].key() != observations[j].key());
        }
        lemma_rolled(windows, init, observed_at_unix_ms, sequence);
        let before = rolled_windows(windows, init, observed_at_unix_ms, sequence);
        let rolled = rolled_windows(windows, observations, observed_at_unix_ms, sequence);
        let patch_before = rolled_patch(windows, init, observed_at_unix_ms, sequence);
        let patch = rolled_patch(windows, observations, observed_at_unix_ms, sequence);
        assert(!observes(init, sparse.key())) by {
            if observes(init, sparse.key()) {
                let i = choose|i: int| 0 <= i < init.len() && (#[trigger] init[i]).key()
                    == sparse.key();
                assert(observations[i].key() != observations[n].key());
            }
        }
        assert(before.contains_key(sparse.key()) == windows.contains_key(sparse.key()));
        assert(previous_window(before, sparse.key()) == previous_window(windows, sparse.key()));
        assert forall|i: int| 0 <= i < observations.len() implies match merged_window(
            previous_window(windows, (#[trigger] observations[i]).key()),
            observations[i],
            observed_at_unix_ms,
        ) {
            Some(window) => {
                &&& rolled.contains_key(observations[i].key())
                &&& rolled[observations[i].key()].window == window
                &&& rolled[observations[i].key()].updated_sequence == sequence
                &&& patch.contains(window)
            },
            None => !rolled.contains_key(observations[i].key()),
        } by {
            if i < n {
                assert(init[i] == observations[i]);
                assert(observations[i].key() != observations[n].key());
                if let Some(window) = merged_window(
                    previous_window(windows, observations[i].key()),
                    observations[i],
                    observed_at_unix_ms,
                ) {
                    let p = patch_before.index_of(window);
                    assert(patch[p] == window);
                }
            } else if let Some(window) = merged_window(
                previous_window(windows, sparse.key()),
                sparse,
                observed_at_unix_ms,
            ) {
                assert(patch[patch.len() - 1] == window);
            }
        }
        assert forall|key: PairKey| !observes(observations, key) implies {
            &&& #[trigger] rolled.contains_key(key) == windows.contains_key(key)
            &&& rolled.contains_key(key) ==> rolled[key] == windows[key]
        } by {
            assert(observations[n].key() != key);
            assert(!observes(init, key)) by {
                if observes(init, key) {
                    let i = choose|i: int| 0 <= i < init.len() && (#[trigger] init[i]).key() == key;
                    assert(observations[i].key() == key);
                }
            }
            assert(before.contains_key(key) == windows.contains_key(key));
        }
        assert forall|p: int| 0 <= p < patch.len() implies merges_into(
            windows,
            observations,
            observed_at_unix_ms,
            #[trigger] patch[p],
        ) by {
            if p < patch_before.len() {
                assert(patch[p] == patch_before[p]);
                let i = choose|i: int|
                    0 <= i < init.len() && merged_window(
                        previous_window(windows, (#[trigger] init[i]).key()),
                        init[i],
                        observed_at_unix_ms,
                    ) == Some(patch[p]);
                assert(observations[i] == init[i]);
            } else {
                assert(observations[n] == sparse);
            }
        }
    }
}

proof fn lemma_room(windows: Set<PairKey>, keys: Seq<PairKey>)
    requires
        windows.finite(),
    ensures
        windows.union(keys.to_set()).len() <= windows.len() + keys.len(),
        windows.union(keys.to_set()).finite(),
{
    broadcast use vstd::seq_lib::seq_to_set_is_finite;

    keys.lemma_cardinality_of_set();
    vstd::set_lib::lemma_len_union(windows, keys.to_set());
}

/// An observation that a profile has room for: distinct windows, and a route binding that is
/// either whole or absent.
pub open spec fn has_room(
    profile: QuotaProfile,
    limits: QuotaLimits,
    model: ModelId,
    observation: RollingQuotaObservation,
) -> bool {
    &&& profile.windows.dom().finite()
    &&& profile.windows.dom().len() + observation.windows@.len() <= limits.max_windows
    &&& distinctly_keyed(observation.windows@)
    &&& observation.active_limit_id is Some == observation.binding_provenance is Some
    &&& profile.bindings.contains_key(model_key(model)) || profile.bindings.dom().len()
        < limits.max_bindings
}

/// After a rolling observation the state and the patch hold the observed usage of every window
/// whose duration is known, dated and numbered by the observation; every other window and every
/// other provider is as it was.
pub proof fn rolling_usage_is_current(
    before: &QuotaCoordinator,
    after: &QuotaCoordinator,
    model: ModelId,
    identity: u64,
    observation: RollingQuotaObservation,
    observed_at_unix_ms: u64,
    report: Option<QuotaReport>,
    i: int,
)
    requires
        rolled(before, after, model, identity, observation, observed_at_unix_ms, report),
        before@.contains_key(model.provider@),
        before@[model.provider@].identity == identity,
        has_room(before@[model.provider@], before.spec_limits(), model, observation),
        0 <= i < observation.windows@.len(),
        observation.windows@[i].window_seconds is Some
            || before@[model.provider@].windows.contains_key(observation.windows@[i].key()),
    ensures
        ({
            let was = before@[model.provider@];
            let held = after@[model.provider@];
            let seen = observation.windows@[i];
            &&& held.windows.contains_key(seen.key())
            &&& held.windows[seen.key()].updated_sequence == held.sequence
            &&& held.windows[seen.key()].window.used_basis_points == seen.used_basis_points
            &&& held.windows[seen.key()].window.usage_observed_at_unix_ms == observed_at_unix_ms
            &&& held.windows[seen.key()].window.limit_id == seen.limit_id
            &&& held.windows[seen.key()].window.window_id == seen.window_id
            &&& was.sequence < u64::MAX ==> held.sequence == was.sequence + 1
            &&& report matches Some(
                QuotaReport::Patch { provider, profile_epoch, sequence, windows, .. },
            )
            &&& provider == model.provider
            &&& profile_epoch == was.epoch
            &&& sequence == held.sequence
            &&& windows@.contains(held.windows[seen.key()].window)
        }),
        forall|key: PairKey|
            !observes(observation.windows@, key) ==> {
                &&& #[trigger] after@[model.provider@].windows.contains_key(key)
                    == before@[model.provider@].windows.contains_key(key)
                &&& after@[model.provider@].windows.contains_key(key)
                    ==> after@[model.provider@].windows[key]
                    == before@[model.provider@].windows[key]
            },
        forall|other: Seq<char>|
            other != model.provider@ ==> {
                &&& #[trigger] after@.contains_key(other) == before@.contains_key(other)
                &&& before@.contains_key(other) ==> after@[other] == before@[other]
            },
        after@[model.provider@].epoch == before@[model.provider@].epoch,
        after@[model.provider@].identity == identity,
        after@[model.provider@].fetch_in_flight == before@[model.provider@].fetch_in_flight,
        after@[model.provider@].last_fetch_started == before@[model.provider@].last_fetch_started,
        after@[model.provider@].failure_attempt == before@[model.provider@].failure_attempt,
        after@[model.provider@].refresh_generation == before@[model.provider@].refresh_generation,
{
    let profile = before@[model.provider@];
    let keys = observed_keys(observation.windows@);
    lemma_room(profile.windows.dom(), keys);
    assert(keys.no_duplicates()) by {
        assert forall|a: int, b: int| 0 <= a < b < keys.len() implies keys[a] != keys[b] by {
            assert(observation.windows@[a].key() != observation.windows@[b].key());
        }
    }
    lemma_rolled(
        profile.windows,
        observation.windows@,
        observed_at_unix_ms,
        following(profile.sequence),
    );
    assert(observation.windows@[i].key() == keys[i]);
}

/// A patch holds nothing but what was observed: each of its windows has the usage of an
/// observation of its key, and its binding is the observed limit of the model's route.
pub proof fn patch_holds_only_observations(
    before: &QuotaCoordinator,
    after: &QuotaCoordinator,
    model: ModelId,
    identity: u64,
    observation: RollingQuotaObservation,
    observed_at_unix_ms: u64,
    report: Option<QuotaReport>,
)
    requires
        rolled(before, after, model, identity, observation, observed_at_unix_ms, report),
        before@.contains_key(model.provider@),
        before@[model.provider@].identity == identity,
        has_room(before@[model.provider@], before.spec_limits(), model, observation),
    ensures
        report matches Some(patch) ==> (patch matches QuotaReport::Patch { windows, .. } && forall|
            p: int,
        |
            0 <= p < windows@.len() ==> reports_observation(
                observation.windows@,
                #[trigger] windows@[p],
                observed_at_unix_ms,
            )),
        observation.active_limit_id matches Some(limit_id) ==> {
            &&& after@[model.provider@].bindings.contains_key((model.provider@, model.model@))
            &&& {
                let bound = after@[model.provider@].bindings[(model.provider@, model.model@)];
                &&& bound.model == model
                &&& bound.limit_id == limit_id
                &&& bound.observed_at_unix_ms == observed_at_unix_ms
                &&& Some(bound.provenance) == observation.binding_provenance
                &&& report matches Some(QuotaReport::Patch { route_bindings, .. })
                &&& route_bindings@.len() == 1
                &&& route_bindings@[0] == bound
            }
        },
        observation.active_limit_id is None ==> after@[model.provider@].bindings
            == before@[model.provider@].bindings && (report matches Some(patch) ==> (
        patch matches QuotaReport::Patch { route_bindings, .. } && route_bindings@.len() == 0)),
{
    let profile = before@[model.provider@];
    let keys = observed_keys(observation.windows@);
    lemma_room(profile.windows.dom(), keys);
    assert(keys.no_duplicates()) by {
        assert forall|a: int, b: int| 0 <= a < b < keys.len() implies keys[a] != keys[b] by {
            assert(observation.windows@[a].key() != observation.windows@[b].key());
        }
    }
    lemma_rolled(
        profile.windows,
        observation.windows@,
        observed_at_unix_ms,
        following(profile.sequence),
    );
    if let Some(QuotaReport::Patch { windows, .. }) = report {
        assert forall|p: int| 0 <= p < windows@.len() implies reports_observation(
            observation.windows@,
            #[trigger] windows@[p],
            observed_at_unix_ms,
        ) by {
            let i = choose|i: int|
                0 <= i < observation.windows@.len() && merged_window(
                    previous_window(profile.windows, (#[trigger] observation.windows@[i]).key()),
                    observation.windows@[i],
                    observed_at_unix_ms,
                ) == Some(windows@[p]);
            assert(observation.windows@[i].used_basis_points == windows@[p].used_basis_points);
        }
    }
}

/// `window` reports the usage of one of the observations.
pub open spec fn reports_observation(
    observations: Seq<QuotaWindowObservation>,
    window: QuotaWindow,
    observed_at_unix_ms: u64,
) -> bool {
    &&& window.usage_observed_at_unix_ms == observed_at_unix_ms
    &&& exists|i: int|
        0 <= i < observations.len() && {
            &&& (#[trigger] observations[i]).limit_id == window.limit_id
            &&& observations[i].window_id == window.window_id
            &&& observations[i].used_basis_points == window.used_basis_points
        }
}

/// A rolling observation for another account, for an unknown provider, with a window twice, with
/// more windows than the limit or with half a binding changes and reports nothing.
pub proof fn foreign_observation_changes_nothing(
    before: &QuotaCoordinator,
    after: &QuotaCoordinator,
    model: ModelId,
    identity: u64,
    observation: RollingQuotaObservation,
    observed_at_unix_ms: u64,
    report: Option<QuotaReport>,
)
    requires
        rolled(before, after, model, identity, observation, observed_at_unix_ms, report),
        !before@.contains_key(model.provider@) || before@[model.provider@].identity != identity
            || observation.windows@.len() > before.spec_limits().max_windows
            || observation.active_limit_id is Some != observation.binding_provenance is Some
            || !distinctly_keyed(observation.windows@),
    ensures
        report is None,
        after@ == before@,
        after.last_epoch() == before.last_epoch(),
{
    let keys = observed_keys(observation.windows@);
    if keys.no_duplicates() {
        assert forall|i: int, j: int| 0 <= i < j < observation.windows@.len() implies (
        #[trigger] observation.windows@[i]).key() != (#[trigger] observation.windows@[j]).key() by {
            assert(keys[i] != keys[j]);
        }
    }
}

proof fn lemma_fetched(observations: Seq<QuotaWindowObservation>, observed_at_unix_ms: u64)
    requires
        complete_fetch(observations),
    ensures
        forall|key: PairKey| #[trigger]
            fetched_windows(observations, observed_at_unix_ms).contains_key(key) <==> observes(
                observations,
                key,
            ),
        fetched_windows(observations, observed_at_unix_ms).dom() =~= observed_keys(
            observations,
        ).to_set(),
    decreases observations.len(),
{
    let keys = observed_keys(observations);
    if observations.len() > 0 {
        let init = observations.drop_last();
        let n = init.len() as int;
        assert forall|i: int| 0 <= i < init.len() implies (
        #[trigger] init[i]).window_seconds is Some by {
            assert(init[i] == observations[i]);
        }
        lemma_fetched(init, observed_at_unix_ms);
        assert(observations[n].window_seconds is Some);
        assert forall|key: PairKey| #[trigger]
            fetched_windows(observations, observed_at_unix_ms).contains_key(key) <==> observes(
            observations,
            key,
        ) by {
            if observes(observations, key) {
                let i = choose|i: int|
                    0 <= i < observations.len() && (#[trigger] observations[i]).key() == key;
                if i < n {
                    assert(init[i].key() == key);
                }
            }
            if observes(init, key) {
                let i = choose|i: int| 0 <= i < init.len() && (#[trigger] init[i]).key() == key;
                assert(observations[i].key() == key);
            }
            assert(observations[n].key() == observations.last().key());
        }
    }
    assert forall|key: PairKey| observes(observations, key) <==> #[trigger] keys.to_set().contains(
        key,
    ) by {
        if observes(observations, key) {
            let i = choose|i: int|
                0 <= i < observations.len() && (#[trigger] observations[i]).key() == key;
            assert(keys[i] == key);
        }
        if keys.to_set().contains(key) {
            let i = choose|i: int| 0 <= i < keys.len() && keys[i] == key;
            assert(observations[i].key() == key);
        }
    }
}

proof fn lemma_latest_fetched(
    observations: Seq<QuotaWindowObservation>,
    observed_at_unix_ms: u64,
    i: int,
)
    requires
        complete_fetch(observations),
        0 <= i < observations.len(),
        forall|j: int|
            i < j < observations.len() ==> (#[trigger] observations[j]).key()
                != observations[i].key(),
    ensures
        fetched_windows(observations, observed_at_unix_ms).contains_key(observations[i].key()),
        Some(fetched_windows(observations, observed_at_unix_ms)[observations[i].key()])
            == full_window(observations[i], observed_at_unix_ms),
    decreases observations.len(),
{
    let init = observations.drop_last();
    let n = init.len() as int;
    if i < n {
        assert forall|j: int| 0 <= j < init.len() implies (
        #[trigger] init[j]).window_seconds is Some by {
            assert(init[j] == observations[j]);
        }
        assert(observations[n].key() != observations[i].key());
        lemma_latest_fetched(init, observed_at_unix_ms, i);
    } else {
        assert(observations[i].window_seconds is Some);
    }
}

/// A fetch in its epoch, with the duration of every window and room for all of them.
pub open spec fn fetch_fits(
    before: &QuotaCoordinator,
    provider: Seq<char>,
    epoch: QuotaEpoch,
    observations: Seq<QuotaWindowObservation>,
) -> bool {
    &&& before@.contains_key(provider)
    &&& before@[provider].epoch == epoch
    &&& before@[provider].windows.dom().finite()
    &&& before@[provider].windows.dom().len() + observations.len()
        <= before.spec_limits().max_windows
    &&& forall|i: int|
        0 <= i < observations.len() ==> (#[trigger] observations[i]).window_seconds is Some
}

/// A full fetch replaces what it saw: a window that a newer observation touched since the fetch
/// began stays, any other is the latest one fetched under its key, and one that was not fetched is
/// gone. The report lists exactly the windows that remain, the failures are forgotten, and another
/// fetch may begin.
pub proof fn fetch_replaces_what_is_older(
    before: &QuotaCoordinator,
    after: &QuotaCoordinator,
    provider: String,
    epoch: QuotaEpoch,
    start: u64,
    observations: Seq<QuotaWindowObservation>,
    observed_at_unix_ms: u64,
    report: Option<QuotaReport>,
    key: PairKey,
    i: int,
)
    requires
        fetch_finished(
            before,
            after,
            provider,
            epoch,
            start,
            observations,
            observed_at_unix_ms,
            report,
        ),
        fetch_fits(before, provider@, epoch, observations),
    ensures
        ({
            let was = before@[provider@];
            let held = after@[provider@];
            let newer = was.windows.contains_key(key) && start < was.windows[key].updated_sequence;
            &&& newer ==> held.windows.contains_key(key) && held.windows[key] == was.windows[key]
            &&& !newer && !observes(observations, key) ==> !held.windows.contains_key(key)
            &&& !newer && 0 <= i < observations.len() && observations[i].key() == key && (forall|
                j: int,
            |
                i < j < observations.len() ==> (#[trigger] observations[j]).key() != key) ==> {
                &&& held.windows.contains_key(key)
                &&& held.windows[key].updated_sequence == held.sequence
                &&& held.windows[key].window.used_basis_points == observations[i].used_basis_points
                &&& held.windows[key].window.usage_observed_at_unix_ms == observed_at_unix_ms
                &&& Some(held.windows[key].window.window_seconds) == observations[i].window_seconds
                &&& held.windows[key].window.reset_at_unix_seconds
                    == observations[i].reset_at_unix_seconds
                &&& held.windows[key].window.remaining_seconds_at_timing_anchor
                    == observations[i].remaining_seconds
            }
            &&& !held.fetch_in_flight
            &&& held.failure_attempt == 0
            &&& held.epoch == epoch
            &&& held.identity == was.identity
            &&& held.bindings == was.bindings
            &&& held.last_fetch_started == was.last_fetch_started
            &&& was.sequence < u64::MAX ==> held.sequence == was.sequence + 1
            &&& report matches Some(
                QuotaReport::Replace {
                    provider: named,
                    profile_epoch,
                    sequence,
                    establishes_new_epoch,
                    windows,
                    ..
                },
            )
            &&& named == provider
            &&& profile_epoch == epoch
            &&& sequence == held.sequence
            &&& !establishes_new_epoch
            &&& held.windows.contains_key(key) ==> windows@.contains(held.windows[key].window)
        }),
        forall|other: Seq<char>|
            other != provider@ ==> {
                &&& #[trigger] after@.contains_key(other) == before@.contains_key(other)
                &&& before@.contains_key(other) ==> after@[other] == before@[other]
            },
{
    let was = before@[provider@];
    let sequence = following(was.sequence);
    let fetched = fetched_windows(observations, observed_at_unix_ms);
    lemma_fetched(observations, observed_at_unix_ms);
    lemma_room(was.windows.dom(), observed_keys(observations));
    let all = was.windows.dom().union(observed_keys(observations).to_set());
    let result = reconciled(was.windows, fetched, start, sequence);
    assert(result.dom().subset_of(all)) by {
        assert forall|k: PairKey| result.dom().contains(k) implies all.contains(k) by {
            assert(touched_since(was.windows, k, start) || fetched.contains_key(k));
            if !touched_since(was.windows, k, start) {
                assert(fetched.dom().contains(k));
            }
        }
    }
    vstd::set_lib::lemma_len_subset(result.dom(), all);
    assert(fetch_accepted(was, before.spec_limits(), start, observations, observed_at_unix_ms));
    let held = after@[provider@];
    if 0 <= i < observations.len() && observations[i].key() == key && (forall|j: int|
        i < j < observations.len() ==> (#[trigger] observations[j]).key() != key) {
        lemma_latest_fetched(observations, observed_at_unix_ms, i);
    }
    if held.windows.contains_key(key) {
        if let Some(QuotaReport::Replace { windows, .. }) = report {
            let keys = choose|keys: Seq<PairKey>| #[trigger]
                windows_by(windows@, held.windows, keys);
            assert(keys.to_set().contains(key));
            let p = choose|p: int| 0 <= p < keys.len() && keys[p] == key;
            assert(windows@[p] == held.windows[keys[p]].window);
        }
    }
}

/// A fetch of another epoch changes and reports nothing; one that lacks a duration only lands: no
/// window, no sequence number and no failure count changes.
pub proof fn stale_fetch_changes_nothing(
    before: &QuotaCoordinator,
    after: &QuotaCoordinator,
    provider: String,
    epoch: QuotaEpoch,
    start: u64,
    observations: Seq<QuotaWindowObservation>,
    observed_at_unix_ms: u64,
    report: Option<QuotaReport>,
)
    requires
        fetch_finished(
            before,
            after,
            provider,
            epoch,
            start,
            observations,
            observed_at_unix_ms,
            report,
        ),
    ensures
        !before@.contains_key(provider@) || before@[provider@].epoch != epoch ==> report is None
            && after@ == before@,
        before@.contains_key(provider@) && before@[provider@].epoch == epoch && (exists|i: int|
            0 <= i < observations.len() && (#[trigger] observations[i]).window_seconds is None)
            ==> {
            let was = before@[provider@];
            let held = after@[provider@];
            &&& report is None
            &&& !held.fetch_in_flight
            &&& held.windows == was.windows
            &&& held.bindings == was.bindings
            &&& held.sequence == was.sequence
            &&& held.failure_attempt == was.failure_attempt
            &&& held.epoch == was.epoch
        },
{
}

/// Fetches are spaced: none begins while one is in flight or within a minute of the last, the
/// first one begins at once, one begins after a quarter of an hour in any case, and earlier, from
/// a minute on, when nothing is known or a window's countdown is over.
pub proof fn fetches_are_spaced(
    before: &QuotaCoordinator,
    after: &QuotaCoordinator,
    provider: Seq<char>,
    now_ms: u64,
    now: Moment,
    started: Option<(QuotaEpoch, u64)>,
)
    requires
        begun(before, after, provider, now_ms, now, started),
    ensures
        started is Some ==> {
            &&& before@.contains_key(provider)
            &&& !before@[provider].fetch_in_flight
            &&& before@[provider].last_fetch_started matches Some(last) ==> last.nanos
                + 60_000_000_000 <= now.nanos
            &&& started == Some((before@[provider].epoch, before@[provider].sequence))
            &&& after@[provider].fetch_in_flight
            &&& after@[provider].last_fetch_started == Some(now)
            &&& after@[provider].windows == before@[provider].windows
            &&& after@[provider].sequence == before@[provider].sequence
            &&& after@[provider].failure_attempt == before@[provider].failure_attempt
        },
        started is None ==> after@ == before@,
        before@.contains_key(provider) && !before@[provider].fetch_in_flight && (match before@[
        provider].last_fetch_started {
            None => true,
            Some(last) => last.nanos + 900_000_000_000 <= now.nanos || last.nanos + 60_000_000_000
                <= now.nanos && (before@[provider].windows.dom() == Set::<PairKey>::empty() || (
            exists|key: PairKey| #[trigger]
                before@[provider].windows.contains_key(key) && (match (
                    before@[provider].windows[key].window.remaining_seconds_at_timing_anchor,
                    before@[provider].windows[key].window.timing_anchor_observed_at_unix_ms,
                ) {
                    (Some(remaining), Some(anchor)) => anchor <= now_ms && remaining * 1000
                        <= now_ms - anchor,
                    _ => false,
                }))),
        }) ==> started is Some,
        before@.contains_key(provider) ==> (before@[provider].last_fetch_started matches Some(last)
            ==> (now.nanos < last.nanos + 900_000_000_000 && before@[provider].windows.dom()
            != Set::<PairKey>::empty() && (forall|key: PairKey| #[trigger]
            before@[provider].windows.contains_key(key) ==> (match (
                before@[provider].windows[key].window.remaining_seconds_at_timing_anchor,
                before@[provider].windows[key].window.timing_anchor_observed_at_unix_ms,
            ) {
                (Some(remaining), Some(anchor)) => 0 <= remaining && anchor <= now_ms && now_ms
                    - anchor <= (remaining - 1) * 1000,
                _ => true,
            })) ==> started is None)),
{
    if before@.contains_key(provider) && !before@[provider].fetch_in_flight {
        let profile = before@[provider];
        if profile.last_fetch_started is Some && (exists|key: PairKey| #[trigger]
            profile.windows.contains_key(key) && (match (
                profile.windows[key].window.remaining_seconds_at_timing_anchor,
                profile.windows[key].window.timing_anchor_observed_at_unix_ms,
            ) {
                (Some(remaining), Some(anchor)) => anchor <= now_ms && remaining * 1000 <= now_ms
                    - anchor,
                _ => false,
            })) {
            let key = choose|key: PairKey| #[trigger]
                profile.windows.contains_key(key) && (match (
                    profile.windows[key].window.remaining_seconds_at_timing_anchor,
                    profile.windows[key].window.timing_anchor_observed_at_unix_ms,
                ) {
                    (Some(remaining), Some(anchor)) => anchor <= now_ms && remaining * 1000
                        <= now_ms - anchor,
                    _ => false,
                });
            assert(window_reset_due(profile.windows[key].window, now_ms));
        }
    }
}

/// A newly armed refresh replaces the one armed before it: its generation is the current one, and
/// the earlier one is not, while the count can grow. Nothing is armed in another epoch.
pub proof fn latest_refresh_is_current(
    before: &QuotaCoordinator,
    after: &QuotaCoordinator,
    provider: Seq<char>,
    epoch: QuotaEpoch,
    generation: Option<u64>,
)
    requires
        refresh_armed(before, after, provider, epoch, generation),
    ensures
        generation is Some <==> before@.contains_key(provider) && before@[provider].epoch == epoch,
        generation matches Some(armed) ==> {
            &&& after.in_epoch(provider, epoch)
            &&& after@[provider].refresh_generation == armed
            &&& before@[provider].refresh_generation < u64::MAX ==> armed
                != before@[provider].refresh_generation
            &&& after@[provider].windows == before@[provider].windows
            &&& after@[provider].sequence == before@[provider].sequence
            &&& after@[provider].fetch_in_flight == before@[provider].fetch_in_flight
            &&& after@[provider].last_fetch_started == before@[provider].last_fetch_started
            &&& after@[provider].failure_attempt == before@[provider].failure_attempt
        },
        generation is None ==> after@ == before@,
{
}

/// Failed fetches back off: a minute at first, twice as long with each further failure, and never
/// longer than a quarter of an hour.
pub proof fn failed_fetches_back_off(attempt: u8)
    ensures
        failure_delay_secs(0) == 60,
        60 <= failure_delay_secs(attempt) <= 900,
        attempt < 3 ==> failure_delay_secs((attempt + 1) as u8) == 2 * failure_delay_secs(attempt),
        attempt >= 4 ==> failure_delay_secs(attempt) == 900,
        failure_delay_secs(attempt) <= failure_delay_secs(next_failure(attempt)),
        attempt < u8::MAX ==> next_failure(attempt) == attempt + 1,
        next_failure(u8::MAX) == u8::MAX,
{
}

/// A failed fetch of the current epoch lands and counts one failure more; one of another epoch
/// changes nothing.
pub proof fn failed_fetch_is_counted(
    before: &QuotaCoordinator,
    after: &QuotaCoordinator,
    provider: Seq<char>,
    epoch: QuotaEpoch,
)
    requires
        fetch_failed(before, after, provider, epoch),
    ensures
        before@.contains_key(provider) && before@[provider].epoch == epoch ==> {
            &&& !after@[provider].fetch_in_flight
            &&& before@[provider].failure_attempt < u8::MAX ==> after@[provider].failure_attempt
                == before@[provider].failure_attempt + 1
            &&& before@[provider].failure_attempt == u8::MAX ==> after@[provider].failure_attempt
                == u8::MAX
            &&& after@[provider].windows == before@[provider].windows
            &&& after@[provider].sequence == before@[provider].sequence
            &&& after@[provider].epoch == epoch
        },
        !before@.contains_key(provider) || before@[provider].epoch != epoch ==> after@ == before@,
{
}

/// Another identity begins a new epoch with nothing known, above every epoch given before, and
/// says so; the same identity keeps everything and says nothing.
pub proof fn new_identity_begins_an_epoch(
    before: &QuotaCoordinator,
    after: &QuotaCoordinator,
    provider: String,
    identity: u64,
    now_ms: u64,
    report: Option<QuotaReport>,
)
    requires
        ensured(before, after, provider, identity, now_ms, report),
    ensures
        after@.contains_key(provider@),
        after@[provider@].identity == identity,
        before@.contains_key(provider@) && before@[provider@].identity == identity ==> after@
            == before@ && report is None,
        !before@.contains_key(provider@) || before@[provider@].identity != identity ==> {
            let held = after@[provider@];
            &&& held.windows.dom() == Set::<PairKey>::empty()
            &&& held.bindings.dom() == Set::<PairKey>::empty()
            &&& !held.fetch_in_flight
            &&& held.last_fetch_started is None
            &&& held.failure_attempt == 0
            &&& held.sequence == 1
            &&& held.epoch.started_at_ms == now_ms
            &&& before.last_epoch() < u64::MAX ==> held.epoch.ordinal == before.last_epoch() + 1
            &&& after.last_epoch() == held.epoch.ordinal
            &&& report matches Some(
                QuotaReport::Replace {
                    provider: named,
                    profile_epoch,
                    sequence,
                    establishes_new_epoch,
                    windows,
                    route_bindings,
                },
            )
            &&& named == provider
            &&& profile_epoch == held.epoch
            &&& sequence == held.sequence
            &&& establishes_new_epoch
            &&& windows@.len() == 0
            &&& route_bindings@.len() == 0
        },
        forall|other: Seq<char>|
            other != provider@ ==> {
                &&& #[trigger] after@.contains_key(other) == before@.contains_key(other)
                &&& before@.contains_key(other) ==> after@[other] == before@[other]
            },
{
}

/// Forgetting a provider leaves nothing of it, reports it under its epoch with a later sequence
/// number, and touches no other; forgetting an unknown one says nothing.
pub proof fn forgotten_provider_is_reported(
    before: &QuotaCoordinator,
    after: &QuotaCoordinator,
    provider: String,
    report: Option<QuotaReport>,
)
    requires
        cleared(before, after, provider, report),
    ensures
        !after@.contains_key(provider@),
        report is Some <==> before@.contains_key(provider@),
        report matches Some(told) ==> {
            &&& told matches QuotaReport::Clear { provider: named, profile_epoch, sequence }
            &&& named == provider
            &&& profile_epoch == before@[provider@].epoch
            &&& before@[provider@].sequence < u64::MAX ==> before@[provider@].sequence < sequence
        },
        forall|other: Seq<char>|
            other != provider@ ==> {
                &&& #[trigger] after@.contains_key(other) == before@.contains_key(other)
                &&& before@.contains_key(other) ==> after@[other] == before@[other]
            },
        after.last_epoch() == before.last_epoch(),
{
}

/// The next refresh comes within a quarter of an hour and not more than a second after the first
/// countdown that is still running ends, and it comes that early for no other reason.
pub proof fn refresh_follows_the_first_reset(
    windows: Map<PairKey, QuotaWindowRecord>,
    now_ms: u64,
    secs: int,
    key: PairKey,
    remaining: i64,
    anchor: u64,
)
    requires
        is_refresh_delay(windows, now_ms, secs),
        windows.contains_key(key),
        windows[key].window.remaining_seconds_at_timing_anchor == Some(remaining),
        windows[key].window.timing_anchor_observed_at_unix_ms == Some(anchor),
        anchor <= now_ms,
        now_ms - anchor <= remaining * 1000,
    ensures
        1 <= secs <= 900,
        (secs - 1) * 1000 <= remaining * 1000 - (now_ms - anchor),
{
    assert(elapsed_secs(anchor, now_ms) * 1000 < now_ms - anchor + 1000);
    assert(window_refresh_secs(windows[key].window, now_ms) is Some);
}

/// Without a countdown the next refresh comes after exactly a quarter of an hour.
pub proof fn refresh_interval_is_the_default(
    windows: Map<PairKey, QuotaWindowRecord>,
    now_ms: u64,
    secs: int,
)
    requires
        is_refresh_delay(windows, now_ms, secs),
        forall|key: PairKey| #[trigger]
            windows.contains_key(key)
                ==> windows[key].window.remaining_seconds_at_timing_anchor is None
                || windows[key].window.timing_anchor_observed_at_unix_ms is None,
    ensures
        secs == 900,
{
    if secs != 900 {
        let key = choose|key: PairKey| #[trigger]
            windows.contains_key(key) && window_refresh_secs(windows[key].window, now_ms) == Some(
                secs,
            );
        assert(remaining_secs(windows[key].window, now_ms) is None);
    }
}

/// A rolling observation changes a window's length and reset only to what it states; what it does
/// not state stays as it was, and a countdown never survives a new reset.
pub proof fn rolling_timing_is_what_was_stated(
    before: &QuotaCoordinator,
    after: &QuotaCoordinator,
    model: ModelId,
    identity: u64,
    observation: RollingQuotaObservation,
    observed_at_unix_ms: u64,
    report: Option<QuotaReport>,
    i: int,
)
    requires
        rolled(before, after, model, identity, observation, observed_at_unix_ms, report),
        before@.contains_key(model.provider@),
        before@[model.provider@].identity == identity,
        has_room(before@[model.provider@], before.spec_limits(), model, observation),
        0 <= i < observation.windows@.len(),
    ensures
        ({
            let was = before@[model.provider@].windows;
            let held = after@[model.provider@].windows;
            let seen = observation.windows@[i];
            &&& seen.window_seconds is None && !was.contains_key(seen.key())
                ==> !held.contains_key(seen.key())
            &&& seen.window_seconds matches Some(seconds) ==> held.contains_key(seen.key())
                && held[seen.key()].window.window_seconds == seconds
            &&& held.contains_key(seen.key()) ==> {
                let window = held[seen.key()].window;
                &&& seen.reset_at_unix_seconds is Some ==> {
                    &&& window.reset_at_unix_seconds == seen.reset_at_unix_seconds
                    &&& window.remaining_seconds_at_timing_anchor is None
                    &&& window.timing_anchor_observed_at_unix_ms is None
                }
                &&& was.contains_key(seen.key()) ==> {
                    let known = was[seen.key()].window;
                    &&& seen.window_seconds is None ==> window.window_seconds
                        == known.window_seconds
                    &&& seen.reset_at_unix_seconds is None ==> window.reset_at_unix_seconds
                        == known.reset_at_unix_seconds
                    &&& seen.used_basis_points + 100 < known.used_basis_points ==> without_timing(
                        window,
                    )
                    &&& window.remaining_seconds_at_timing_anchor is Some
                        ==> window.remaining_seconds_at_timing_anchor
                        == known.remaining_seconds_at_timing_anchor
                        && window.timing_anchor_observed_at_unix_ms
                        == known.timing_anchor_observed_at_unix_ms
                    &&& window.server_offset_ms is Some ==> window.server_offset_ms
                        == known.server_offset_ms && window.server_offset_observed_at_unix_ms
                        == known.server_offset_observed_at_unix_ms
                }
                &&& !was.contains_key(seen.key()) ==> without_timing(window)
                    && window.reset_at_unix_seconds == seen.reset_at_unix_seconds
            }
        }),
{
    let profile = before@[model.provider@];
    let keys = observed_keys(observation.windows@);
    lemma_room(profile.windows.dom(), keys);
    assert(keys.no_duplicates()) by {
        assert forall|a: int, b: int| 0 <= a < b < keys.len() implies keys[a] != keys[b] by {
            assert(observation.windows@[a].key() != observation.windows@[b].key());
        }
    }
    lemma_rolled(
        profile.windows,
        observation.windows@,
        observed_at_unix_ms,
        following(profile.sequence),
    );
    let seen = observation.windows@[i];
    let previous = previous_window(profile.windows, seen.key());
    assert(merged_window(previous, seen, observed_at_unix_ms) is Some || previous is None);
}

/// The next refresh does not come before its time: while every countdown still has some whole
/// seconds to run, it waits that long, up to a quarter of an hour.
pub proof fn refresh_does_not_come_early(
    windows: Map<PairKey, QuotaWindowRecord>,
    now_ms: u64,
    secs: int,
    floor: int,
)
    requires
        is_refresh_delay(windows, now_ms, secs),
        1 <= floor <= 900,
        forall|key: PairKey| #[trigger]
            windows.contains_key(key) ==> match (
                windows[key].window.remaining_seconds_at_timing_anchor,
                windows[key].window.timing_anchor_observed_at_unix_ms,
            ) {
                (Some(remaining), Some(anchor)) => anchor <= now_ms && (floor - 1) * 1000
                    <= remaining * 1000 - (now_ms - anchor),
                _ => true,
            },
    ensures
        floor <= secs,
{
    if secs != 900 {
        let key = choose|key: PairKey| #[trigger]
            windows.contains_key(key) && window_refresh_secs(windows[key].window, now_ms) == Some(
                secs,
            );
        let anchor = windows[key].window.timing_anchor_observed_at_unix_ms->0;
        elapsed_time_is_rounded_up(anchor, now_ms);
    }
}

/// A provider's quota state stays within its limits, whatever is observed of it.
pub proof fn rolling_state_stays_bounded(
    before: &QuotaCoordinator,
    after: &QuotaCoordinator,
    model: ModelId,
    identity: u64,
    observation: RollingQuotaObservation,
    observed_at_unix_ms: u64,
    report: Option<QuotaReport>,
)
    requires
        rolled(before, after, model, identity, observation, observed_at_unix_ms, report),
        before@.contains_key(model.provider@),
        before@[model.provider@].windows.dom().finite(),
        before@[model.provider@].windows.dom().len() <= before.spec_limits().max_windows,
        before@[model.provider@].bindings.dom().finite(),
        before@[model.provider@].bindings.dom().len() <= before.spec_limits().max_bindings,
    ensures
        after@.contains_key(model.provider@),
        after@[model.provider@].windows.dom().finite(),
        after@[model.provider@].windows.dom().len() <= before.spec_limits().max_windows,
        after@[model.provider@].bindings.dom().len() <= before.spec_limits().max_bindings,
{
    let profile = before@[model.provider@];
    if profile.identity == identity && rolling_accepted(
        profile,
        before.spec_limits(),
        model,
        observation,
    ) {
        let keys = observed_keys(observation.windows@);
        assert(distinctly_keyed(observation.windows@)) by {
            assert forall|i: int, j: int| 0 <= i < j < observation.windows@.len() implies (
            #[trigger] observation.windows@[i]).key() != (
            #[trigger] observation.windows@[j]).key() by {
                assert(keys[i] != keys[j]);
            }
        }
        lemma_rolled(
            profile.windows,
            observation.windows@,
            observed_at_unix_ms,
            following(profile.sequence),
        );
        lemma_room(profile.windows.dom(), keys);
        let held = rolled_windows(
            profile.windows,
            observation.windows@,
            observed_at_unix_ms,
            following(profile.sequence),
        );
        let all = profile.windows.dom().union(keys.to_set());
        assert forall|key: PairKey| #[trigger] held.dom().contains(key) implies all.contains(
            key,
        ) by {
            if observes(observation.windows@, key) {
                let i = choose|i: int|
                    0 <= i < observation.windows@.len() && (
                    #[trigger] observation.windows@[i]).key() == key;
                assert(keys[i] == key);
                assert(keys.contains(key));
            } else {
                assert(held.contains_key(key) == profile.windows.contains_key(key));
            }
        }
        assert(held.dom().subset_of(all));
        vstd::set_lib::lemma_len_subset(held.dom(), all);
        if let Some(binding) = rolled_binding(model, observation, observed_at_unix_ms) {
            let bindings = profile.bindings.insert(model_key(model), binding);
            assert(bindings.dom() == profile.bindings.dom().insert(model_key(model)));
        }
    }
}

/// An observation of windows that are already known needs no new room: it is taken as long as it
/// is consistent and its route is bound already.
pub proof fn known_windows_need_no_room(
    before: &QuotaCoordinator,
    after: &QuotaCoordinator,
    model: ModelId,
    identity: u64,
    observation: RollingQuotaObservation,
    observed_at_unix_ms: u64,
    report: Option<QuotaReport>,
)
    requires
        rolled(before, after, model, identity, observation, observed_at_unix_ms, report),
        before@.contains_key(model.provider@),
        before@[model.provider@].identity == identity,
        before@[model.provider@].windows.dom().finite(),
        before@[model.provider@].windows.dom().len() <= before.spec_limits().max_windows,
        distinctly_keyed(observation.windows@),
        forall|i: int|
            0 <= i < observation.windows@.len()
                ==> before@[model.provider@].windows.contains_key(
                (#[trigger] observation.windows@[i]).key(),
            ),
        observation.active_limit_id is Some == observation.binding_provenance is Some,
        observation.active_limit_id is Some ==> before@[model.provider@].bindings.contains_key(
            (model.provider@, model.model@),
        ),
        observation.windows@.len() > 0,
    ensures
        report is Some,
        before@[model.provider@].sequence < u64::MAX ==> after@[model.provider@].sequence
            == before@[model.provider@].sequence + 1,
        forall|i: int|
            0 <= i < observation.windows@.len() ==> after@[model.provider@].windows[(
            #[trigger] observation.windows@[i]).key()].window.used_basis_points
                == observation.windows@[i].used_basis_points,
{
    let profile = before@[model.provider@];
    let known = profile.windows.dom();
    let keys = observed_keys(observation.windows@);
    assert(keys.no_duplicates()) by {
        assert forall|a: int, b: int| 0 <= a < b < keys.len() implies keys[a] != keys[b] by {
            assert(observation.windows@[a].key() != observation.windows@[b].key());
        }
    }
    assert forall|key: PairKey| #[trigger] keys.to_set().contains(key) implies known.contains(
        key,
    ) by {
        let i = choose|i: int| 0 <= i < keys.len() && keys[i] == key;
        assert(observation.windows@[i].key() == key);
    }
    assert(known.union(keys.to_set()) == known);
    keys.unique_seq_to_set();
    vstd::set_lib::lemma_len_subset(keys.to_set(), known);
    lemma_rolled(
        profile.windows,
        observation.windows@,
        observed_at_unix_ms,
        following(profile.sequence),
    );
    let first = observation.windows@[0];
    assert(merged_window(
        previous_window(profile.windows, first.key()),
        first,
        observed_at_unix_ms,
    ) is Some);
}

} // verus!
