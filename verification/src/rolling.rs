//! Forwarding of in-band quota observations by one attempt.

use vstd::prelude::*;

use crate::quota::{
    BindingProvenance, QuotaWindowObservation, RollingQuotaObservation,
};
use crate::text::{clone_optional_text, optional_text, same_optional_text};

verus! {

/// The content of one observed window.
pub struct WindowContent {
    pub limit_id: Seq<char>,
    pub window_id: Seq<char>,
    pub used_basis_points: u32,
    pub window_seconds: Option<u64>,
    pub reset_at_unix_seconds: Option<i64>,
    pub remaining_seconds: Option<i64>,
}

/// The content of one observed window.
pub open spec fn window_content(window: QuotaWindowObservation) -> WindowContent {
    WindowContent {
        limit_id: window.limit_id@,
        window_id: window.window_id@,
        used_basis_points: window.used_basis_points,
        window_seconds: window.window_seconds,
        reset_at_unix_seconds: window.reset_at_unix_seconds,
        remaining_seconds: window.remaining_seconds,
    }
}

/// The content of one observation.
pub struct ObservationContent {
    pub windows: Seq<WindowContent>,
    pub active_limit_id: Option<Seq<char>>,
    pub binding_provenance: Option<BindingProvenance>,
}

/// The content of one observation.
pub open spec fn observation_content(observation: RollingQuotaObservation) -> ObservationContent {
    ObservationContent {
        windows: window_contents(observation.windows@),
        active_limit_id: optional_text(observation.active_limit_id),
        binding_provenance: observation.binding_provenance,
    }
}

/// The contents of observed windows.
pub open spec fn window_contents(windows: Seq<QuotaWindowObservation>) -> Seq<WindowContent> {
    Seq::new(windows.len(), |i: int| window_content(windows[i]))
}

fn same_seconds(a: Option<i64>, b: Option<i64>) -> (res: bool)
    ensures
        res == (a == b),
{
    match (a, b) {
        (Some(x), Some(y)) => x == y,
        (None, None) => true,
        _ => false,
    }
}

fn same_window(a: &QuotaWindowObservation, b: &QuotaWindowObservation) -> (res: bool)
    ensures
        res == (window_content(*a) == window_content(*b)),
{
    let same_length: bool = match (a.window_seconds, b.window_seconds) {
        (Some(x), Some(y)) => x == y,
        (None, None) => true,
        _ => false,
    };
    a.limit_id == b.limit_id && a.window_id == b.window_id && a.used_basis_points
        == b.used_basis_points && same_length && same_seconds(
        a.reset_at_unix_seconds,
        b.reset_at_unix_seconds,
    ) && same_seconds(a.remaining_seconds, b.remaining_seconds)
}

/// Compares two observations by content.
pub fn same_observation(a: &RollingQuotaObservation, b: &RollingQuotaObservation) -> (res: bool)
    ensures
        res == (observation_content(*a) == observation_content(*b)),
{
    let same_binding: bool = match (a.binding_provenance, b.binding_provenance) {
        (Some(x), Some(y)) => x == y,
        (None, None) => true,
        _ => false,
    };
    let ghost left = window_contents(a.windows@);
    let ghost right = window_contents(b.windows@);
    if a.windows.len() != b.windows.len() {
        assert(left.len() != right.len());
        return false;
    }
    let n: usize = a.windows.len();
    let mut i: usize = 0;
    while i < n
        invariant
            n == a.windows@.len(),
            n == b.windows@.len(),
            i <= n,
            left == window_contents(a.windows@),
            right == window_contents(b.windows@),
            forall|j: int| 0 <= j < i ==> #[trigger] left[j] == right[j],
        decreases n - i,
    {
        if !same_window(&a.windows[i], &b.windows[i]) {
            assert(left[i as int] != right[i as int]);
            return false;
        }
        i = i + 1;
    }
    assert(left =~= right);
    same_optional_text(&a.active_limit_id, &b.active_limit_id) && same_binding
}

fn clone_observation(observation: &RollingQuotaObservation) -> (res: RollingQuotaObservation)
    ensures
        observation_content(res) == observation_content(*observation),
{
    let mut windows: Vec<QuotaWindowObservation> = Vec::new();
    let mut i: usize = 0;
    while i < observation.windows.len()
        invariant
            i <= observation.windows@.len(),
            windows@.len() == i,
            forall|j: int|
                0 <= j < i ==> window_content(#[trigger] windows@[j]) == window_content(
                    observation.windows@[j],
                ),
        decreases observation.windows@.len() - i,
    {
        let window = &observation.windows[i];
        windows.push(
            QuotaWindowObservation {
                limit_id: window.limit_id.clone(),
                window_id: window.window_id.clone(),
                used_basis_points: window.used_basis_points,
                window_seconds: window.window_seconds,
                reset_at_unix_seconds: window.reset_at_unix_seconds,
                remaining_seconds: window.remaining_seconds,
            },
        );
        i = i + 1;
    }
    assert(window_contents(windows@) =~= window_contents(observation.windows@));
    RollingQuotaObservation {
        windows,
        active_limit_id: clone_optional_text(&observation.active_limit_id),
        binding_provenance: observation.binding_provenance,
    }
}

/// The last quota observation of one attempt.
pub struct QuotaForwarder {
    last: Option<RollingQuotaObservation>,
    /// Whether the attempt runs on a route with a quota profile.
    forwards: bool,
}

impl QuotaForwarder {
    /// The content of the last observation.
    pub closed spec fn view(&self) -> Option<ObservationContent> {
        match self.last {
            Some(observation) => Some(observation_content(observation)),
            None => None,
        }
    }

    /// Whether the attempt runs on a route with a quota profile.
    pub closed spec fn is_forwarding(&self) -> bool {
        self.forwards
    }

    /// Nothing observed yet.
    pub fn new(forwards: bool) -> (res: Self)
        ensures
            res@ is None,
            res.is_forwarding() == forwards,
    {
        QuotaForwarder { last: None, forwards }
    }

    /// Remembers one observation; reports whether it is forwarded. A repetition of the previous one
    /// is not, and neither is anything of a route without a quota profile.
    pub fn observe(&mut self, observation: &RollingQuotaObservation) -> (res: bool)
        ensures
            final(self)@ == Some(observation_content(*observation)),
            final(self).is_forwarding() == old(self).is_forwarding(),
            res == (old(self).is_forwarding() && old(self)@ != Some(
                observation_content(*observation),
            )),
    {
        let repeated: bool = match &self.last {
            Some(last) => same_observation(last, observation),
            None => false,
        };
        if repeated {
            return false;
        }
        self.last = Some(clone_observation(observation));
        self.forwards
    }
}

/// Two observations count as the same only when nothing that they report differs: the windows in
/// their order with all of their fields, the active limit and where it was learned.
pub proof fn same_observation_reports_the_same(
    a: RollingQuotaObservation,
    b: RollingQuotaObservation,
    i: int,
)
    requires
        observation_content(a) == observation_content(b),
    ensures
        a.windows@.len() == b.windows@.len(),
        0 <= i < a.windows@.len() ==> {
            &&& a.windows@[i].limit_id@ == b.windows@[i].limit_id@
            &&& a.windows@[i].window_id@ == b.windows@[i].window_id@
            &&& a.windows@[i].used_basis_points == b.windows@[i].used_basis_points
            &&& a.windows@[i].window_seconds == b.windows@[i].window_seconds
            &&& a.windows@[i].reset_at_unix_seconds == b.windows@[i].reset_at_unix_seconds
            &&& a.windows@[i].remaining_seconds == b.windows@[i].remaining_seconds
        },
        optional_text(a.active_limit_id) == optional_text(b.active_limit_id),
        a.binding_provenance == b.binding_provenance,
{
    let first = window_contents(a.windows@);
    let second = window_contents(b.windows@);
    assert(first == second);
    assert(first.len() == second.len());
    if 0 <= i < a.windows@.len() {
        assert(first[i] == second[i]);
    }
}

} // verus!
