//! Asynchronous prompt credential admission and shared prompt-owned OAuth refresh.

use vstd::prelude::*;

use crate::credentials::{auth_key, resolved_config_for_provider_model, CredentialObservation};
use crate::deadline::contents;
use crate::names::NameTable;
use crate::oauth::{
    account_identity, exhausted, oauth_token_is_expired, oauth_token_should_refresh, recoverable,
    refresh_due, rotation_verdict, spent, validate_authoritative_rotation, without_access,
    AuthContent, JwtClaims, OAuthError, OAuthRefreshRejection, OAuthRefreshRejectionCache,
    OpenAiAuth, RotationVerdict, Unauthorized,
};
use crate::profiles::{
    generations, hydrated_profiles, newly_missing, observed_generations, with_auth,
    BuiltinProviderProfile, BuiltinProviderProfiles, ProfileContent, ProviderCredential,
    ProviderCredentialReference, ProviderCredentialSlot, SecretReply,
};
use crate::prompt::{
    known_routes, names_route, BackendIdentities, BackendProfileIdentity, CodexRoutes, Prompt,
    PromptJob, RouteKey,
};
use crate::retry::lookup;
use crate::text::{blank, is_blank, optional_text};

verus! {

/// Provider, startup mode, and exact secret generation used to coalesce OAuth refresh.
pub struct PromptOAuthRefreshKey {
    /// Provider whose rejection and identity state owns this refresh.
    pub provider: String,
    /// Opaque path in secret storage.
    pub path: String,
    /// Generation expected by the compare-and-swap.
    pub generation: String,
    /// Startup-selected Responses Lite mode.
    pub lite_compatibility: bool,
}

/// The content of a refresh key.
pub struct RefreshKey {
    pub provider: Seq<char>,
    pub path: Seq<char>,
    pub generation: Seq<char>,
    pub lite_compatibility: bool,
}

impl PromptOAuthRefreshKey {
    /// The content of this key.
    pub open spec fn content(self) -> RefreshKey {
        RefreshKey {
            provider: self.provider@,
            path: self.path@,
            generation: self.generation@,
            lite_compatibility: self.lite_compatibility,
        }
    }

    /// Compares two keys by content.
    pub fn same(&self, other: &PromptOAuthRefreshKey) -> (res: bool)
        ensures
            res == (self.content() == other.content()),
    {
        self.provider == other.provider && self.path == other.path && self.generation
            == other.generation && self.lite_compatibility == other.lite_compatibility
    }
}

impl Clone for PromptOAuthRefreshKey {
    fn clone(&self) -> (res: Self)
        ensures
            res == *self,
    {
        PromptOAuthRefreshKey {
            provider: self.provider.clone(),
            path: self.path.clone(),
            generation: self.generation.clone(),
            lite_compatibility: self.lite_compatibility,
        }
    }
}

/// One shared network refresh.
pub struct PromptOAuthRefresh {
    pub key: PromptOAuthRefreshKey,
    /// Credentials supplied to the OAuth endpoint.
    pub current: OpenAiAuth,
    /// Whether this flight consumed forced recovery authority.
    pub forced: bool,
}

/// Continuation of one prompt-owned secret operation.
#[allow(inconsistent_fields)]
pub enum PromptOAuthRpc {
    /// Publish the refreshed credential, then verify the authoritative record.
    CompareAndSwap { key: PromptOAuthRefreshKey },
    /// Adopt the authoritative record after a won or lost swap.
    Reload { key: PromptOAuthRefreshKey },
}

impl PromptOAuthRpc {
    /// The refresh that this operation belongs to.
    pub open spec fn spec_key(self) -> PromptOAuthRefreshKey {
        match self {
            PromptOAuthRpc::CompareAndSwap { key } => key,
            PromptOAuthRpc::Reload { key } => key,
        }
    }

    /// The refresh that this operation belongs to.
    pub fn key(&self) -> (res: &PromptOAuthRefreshKey)
        ensures
            *res == self.spec_key(),
    {
        match self {
            PromptOAuthRpc::CompareAndSwap { key } => key,
            PromptOAuthRpc::Reload { key } => key,
        }
    }

    /// Takes the refresh that this operation belongs to.
    pub fn into_key(self) -> (res: PromptOAuthRefreshKey)
        ensures
            res == self.spec_key(),
    {
        match self {
            PromptOAuthRpc::CompareAndSwap { key } => key,
            PromptOAuthRpc::Reload { key } => key,
        }
    }
}

/// Prompt ownership returned after an asynchronous credential read.
#[allow(inconsistent_fields)]
pub enum PendingPromptAdmissionKind {
    /// Initial admission; the prompt's submitted marker has not been emitted.
    Initial { agent_prompt_id: String, prompt: Prompt },
    /// An automatic retry whose credential must be reloaded.
    RetryDue(PromptJob),
    /// A manual retry awaiting its correlated result.
    Manual { job: PromptJob, request_id: String },
}

impl PendingPromptAdmissionKind {
    /// The prompt identity protected by this admission.
    pub open spec fn spec_prompt_id(self) -> String {
        match self {
            PendingPromptAdmissionKind::Initial { agent_prompt_id, .. } => agent_prompt_id,
            PendingPromptAdmissionKind::RetryDue(job) => job.agent_prompt_id,
            PendingPromptAdmissionKind::Manual { job, .. } => job.agent_prompt_id,
        }
    }

    /// The prompt retained by this admission.
    pub open spec fn spec_prompt(self) -> Prompt {
        match self {
            PendingPromptAdmissionKind::Initial { prompt, .. } => prompt,
            PendingPromptAdmissionKind::RetryDue(job) => job.prompt,
            PendingPromptAdmissionKind::Manual { job, .. } => job.prompt,
        }
    }

    /// The provider of the retained prompt.
    pub open spec fn provider(self) -> Seq<char> {
        self.spec_prompt().model.provider@
    }

    /// The prompt identity protected by this admission.
    pub fn agent_prompt_id(&self) -> (res: &String)
        ensures
            *res == self.spec_prompt_id(),
    {
        match self {
            PendingPromptAdmissionKind::Initial { agent_prompt_id, .. } => agent_prompt_id,
            PendingPromptAdmissionKind::RetryDue(job) => &job.agent_prompt_id,
            PendingPromptAdmissionKind::Manual { job, .. } => &job.agent_prompt_id,
        }
    }

    /// The prompt retained by this admission.
    pub fn prompt(&self) -> (res: &Prompt)
        ensures
            *res == self.spec_prompt(),
    {
        match self {
            PendingPromptAdmissionKind::Initial { prompt, .. } => prompt,
            PendingPromptAdmissionKind::RetryDue(job) => &job.prompt,
            PendingPromptAdmissionKind::Manual { job, .. } => &job.prompt,
        }
    }
}

/// One prompt held at the credential boundary.
pub struct PendingPromptAdmission {
    pub kind: PendingPromptAdmissionKind,
    /// The selected profile plus any hydrated credential.
    pub profiles: BuiltinProviderProfiles,
    /// Correlation of the credential read, `None` once it is answered.
    pub request_id: Option<String>,
    /// Generations returned with the credential read.
    pub observations: Option<NameTable<CredentialObservation>>,
    /// OAuth refresh awaited before this admission is ready.
    pub oauth_refresh: Option<PromptOAuthRefreshKey>,
    /// Whether this admission recovers one canonical unauthorized result.
    pub oauth_forced: bool,
}

impl PendingPromptAdmission {
    /// Its credential work is complete.
    pub open spec fn ready(self) -> bool {
        self.observations is Some && self.oauth_refresh is None
    }

    /// Reports whether its credential work is complete.
    pub fn is_ready(&self) -> (res: bool)
        ensures
            res == self.ready(),
    {
        self.observations.is_some() && self.oauth_refresh.is_none()
    }

    /// It waits for `key`.
    pub open spec fn awaits(self, key: RefreshKey) -> bool {
        match self.oauth_refresh {
            Some(awaited) => awaited.content() == key,
            None => false,
        }
    }

    fn is_awaiting(&self, key: &PromptOAuthRefreshKey) -> (res: bool)
        ensures
            res == self.awaits(key.content()),
    {
        match &self.oauth_refresh {
            Some(awaited) => awaited.same(key),
            None => false,
        }
    }

    /// It waits for the reply to `request_id`.
    pub open spec fn reads(self, request_id: Seq<char>) -> bool {
        optional_text(self.request_id) == Some(request_id)
    }

    fn is_reading(&self, request_id: &String) -> (res: bool)
        ensures
            res == self.reads(request_id@),
    {
        match &self.request_id {
            Some(id) => *id == *request_id,
            None => false,
        }
    }
}

/// The selected ChatGPT profile of an admission.
pub open spec fn selected_auth(admission: PendingPromptAdmission) -> Option<(AuthContent, bool)> {
    match lookup(admission.profiles.profiles(), admission.kind.provider()) {
        Some(ProfileContent::Chatgpt { auth, lite_compatibility }) => Some(
            (auth, lite_compatibility),
        ),
        _ => None,
    }
}

/// `after` is `before` with other credentials for its ChatGPT profile.
pub open spec fn with_credentials(
    before: PendingPromptAdmission,
    after: PendingPromptAdmission,
    auth: AuthContent,
) -> bool {
    &&& after.kind == before.kind
    &&& after.request_id == before.request_id
    &&& after.observations == before.observations
    &&& after.oauth_forced == before.oauth_forced
    &&& after.profiles.profiles() == with_auth(
        before.profiles.profiles(),
        before.kind.provider(),
        auth,
    )
    &&& after.profiles.credential_map() == before.profiles.credential_map()
    &&& after.profiles.missing() == before.profiles.missing()
}

/// The credentials of a waiter whose refresh failed: forced recovery and expired credentials
/// become unusable.
pub open spec fn failed_auth(current: AuthContent, forced: bool, now_ms: u64) -> AuthContent {
    if forced || current.expires_at_ms <= now_ms {
        without_access(current)
    } else {
        current
    }
}

/// What a failed refresh does to one admission.
pub open spec fn refresh_failed(
    before: PendingPromptAdmission,
    after: PendingPromptAdmission,
    key: RefreshKey,
    current: AuthContent,
    now_ms: u64,
) -> bool {
    if before.awaits(key) {
        &&& with_credentials(
            before,
            after,
            failed_auth(current, before.oauth_forced, now_ms),
        )
        &&& after.oauth_refresh is None
    } else {
        after == before
    }
}

/// The credentials of a waiter offered an authoritative record.
pub open spec fn offered_auth(
    held: AuthContent,
    authoritative: AuthContent,
    forced: bool,
    claims: &JwtClaims,
) -> AuthContent {
    if rotation_verdict(held, authoritative, forced, claims) == RotationVerdict::Valid {
        authoritative
    } else {
        without_access(held)
    }
}

/// What an authoritative record does to one admission.
pub open spec fn refresh_completed(
    before: PendingPromptAdmission,
    after: PendingPromptAdmission,
    key: RefreshKey,
    authoritative: AuthContent,
    claims: &JwtClaims,
) -> bool {
    if before.awaits(key) {
        &&& with_credentials(
            before,
            after,
            match selected_auth(before) {
                Some((held, _)) => offered_auth(
                    held,
                    authoritative,
                    before.oauth_forced,
                    claims,
                ),
                None => authoritative,
            },
        )
        &&& after.oauth_refresh is None
    } else {
        after == before
    }
}

/// The rejections after a failed refresh: a permanent error is remembered for each waiter.
pub open spec fn rejections_after_failure(
    admissions: Seq<PendingPromptAdmission>,
    key: RefreshKey,
    current: OpenAiAuth,
    error: Option<OAuthError>,
    rejections: Map<Seq<char>, OAuthRefreshRejection>,
) -> Map<Seq<char>, OAuthRefreshRejection>
    decreases admissions.len(),
{
    if admissions.len() == 0 {
        rejections
    } else {
        let before = rejections_after_failure(
            admissions.drop_last(),
            key,
            current,
            error,
            rejections,
        );
        let admission = admissions.last();
        match (error, selected_auth(admission)) {
            (Some(error), Some((_, lite_compatibility))) => if admission.awaits(key)
                && error.permanent_refresh_rejection {
                before.insert(
                    admission.kind.provider(),
                    OAuthRefreshRejection { auth: current, lite_compatibility, error },
                )
            } else {
                before
            },
            _ => before,
        }
    }
}

/// The rejections after an authoritative record was offered: each valid rotation clears its
/// provider's.
pub open spec fn rejections_after_completion(
    admissions: Seq<PendingPromptAdmission>,
    key: RefreshKey,
    authoritative: AuthContent,
    claims: &JwtClaims,
    rejections: Map<Seq<char>, OAuthRefreshRejection>,
) -> Map<Seq<char>, OAuthRefreshRejection>
    decreases admissions.len(),
{
    if admissions.len() == 0 {
        rejections
    } else {
        let before = rejections_after_completion(
            admissions.drop_last(),
            key,
            authoritative,
            claims,
            rejections,
        );
        let admission = admissions.last();
        match selected_auth(admission) {
            Some((held, _)) => if admission.awaits(key) && rotation_verdict(
                held,
                authoritative,
                admission.oauth_forced,
                claims,
            ) == RotationVerdict::Valid {
                before.remove(admission.kind.provider())
            } else {
                before
            },
            None => before,
        }
    }
}

/// Some admission waits for `key`.
pub open spec fn has_waiter(admissions: Seq<PendingPromptAdmission>, key: RefreshKey) -> bool {
    exists|i: int| 0 <= i < admissions.len() && (#[trigger] admissions[i]).awaits(key)
}

/// Reports whether one exact-generation refresh still has a prompt owner.
pub fn prompt_oauth_has_waiter(
    admissions: &Vec<PendingPromptAdmission>,
    key: &PromptOAuthRefreshKey,
) -> (res: bool)
    ensures
        res == has_waiter(admissions@, key.content()),
{
    let mut i: usize = 0;
    while i < admissions.len()
        invariant
            i <= admissions@.len(),
            forall|j: int| 0 <= j < i ==> !(#[trigger] admissions@[j]).awaits(key.content()),
        decreases admissions@.len() - i,
    {
        if admissions[i].is_awaiting(key) {
            return true;
        }
        i = i + 1;
    }
    false
}

/// The position of the refresh with `key`.
pub open spec fn refresh_at(refreshes: Seq<PromptOAuthRefresh>, key: RefreshKey, i: int) -> bool {
    0 <= i < refreshes.len() && refreshes[i].key.content() == key
}

/// A refresh with `key` is in flight.
pub open spec fn in_flight(refreshes: Seq<PromptOAuthRefresh>, key: RefreshKey) -> bool {
    exists|i: int| #[trigger] refresh_at(refreshes, key, i)
}

/// The refreshes in flight have distinct keys.
pub open spec fn distinct_refreshes(refreshes: Seq<PromptOAuthRefresh>) -> bool {
    forall|i: int, j: int|
        0 <= i < j < refreshes.len() ==> (#[trigger] refreshes[i]).key.content() != (
        #[trigger] refreshes[j]).key.content()
}

/// The refresh with `key`.
pub open spec fn flight(refreshes: Seq<PromptOAuthRefresh>, key: RefreshKey) -> PromptOAuthRefresh {
    refreshes[choose|i: int| refresh_at(refreshes, key, i)]
}

/// The refreshes without `key`.
pub open spec fn without_flight(
    refreshes: Seq<PromptOAuthRefresh>,
    key: RefreshKey,
) -> Seq<PromptOAuthRefresh> {
    if in_flight(refreshes, key) {
        refreshes.remove(choose|i: int| refresh_at(refreshes, key, i))
    } else {
        refreshes
    }
}

/// A network refresh for the host to start.
pub struct RefreshStart {
    pub key: PromptOAuthRefreshKey,
    pub refresh_token: String,
}

/// Main-loop state of prompt credential admission.
pub struct PromptCredentialAdmissionState {
    /// Admissions in source order.
    pub admissions: Vec<PendingPromptAdmission>,
    /// Secret generations currently undergoing prompt-owned refresh.
    pub oauth_refreshes: Vec<PromptOAuthRefresh>,
    /// Continuations of secret operations by request.
    pub oauth_rpcs: NameTable<PromptOAuthRpc>,
}

impl PromptCredentialAdmissionState {
    /// Refreshes in flight have distinct keys.
    pub open spec fn wf(&self) -> bool {
        distinct_refreshes(self.oauth_refreshes@)
    }

    /// Nothing admitted.
    pub fn new() -> (res: Self)
        ensures
            res.wf(),
            res.admissions@ == Seq::<PendingPromptAdmission>::empty(),
            res.oauth_refreshes@ == Seq::<PromptOAuthRefresh>::empty(),
            res.oauth_rpcs@ == Map::<Seq<char>, PromptOAuthRpc>::empty(),
    {
        PromptCredentialAdmissionState {
            admissions: Vec::new(),
            oauth_refreshes: Vec::new(),
            oauth_rpcs: NameTable::new(),
        }
    }

    fn find_refresh(&self, key: &PromptOAuthRefreshKey) -> (res: Option<usize>)
        requires
            self.wf(),
        ensures
            match res {
                Some(i) => refresh_at(self.oauth_refreshes@, key.content(), i as int) && i == (
                choose|k: int| refresh_at(self.oauth_refreshes@, key.content(), k)),
                None => !in_flight(self.oauth_refreshes@, key.content()),
            },
    {
        let mut i: usize = 0;
        while i < self.oauth_refreshes.len()
            invariant
                i <= self.oauth_refreshes@.len(),
                self.wf(),
                forall|j: int|
                    0 <= j < i ==> (#[trigger] self.oauth_refreshes@[j]).key.content()
                        != key.content(),
            decreases self.oauth_refreshes@.len() - i,
        {
            if self.oauth_refreshes[i].key.same(key) {
                proof {
                    assert(refresh_at(self.oauth_refreshes@, key.content(), i as int));
                    let k = choose|k: int| refresh_at(self.oauth_refreshes@, key.content(), k);
                    assert(refresh_at(self.oauth_refreshes@, key.content(), k));
                    assert(self.oauth_refreshes@[i as int].key.content()
                        == self.oauth_refreshes@[k].key.content());
                }
                return Some(i);
            }
            i = i + 1;
        }
        None
    }

    /// Marks the admissions that wait for `key`.
    pub fn waiting_for(&self, key: &PromptOAuthRefreshKey) -> (res: Vec<bool>)
        ensures
            res@.len() == self.admissions@.len(),
            forall|i: int|
                0 <= i < res@.len() ==> #[trigger] res@[i] == self.admissions@[i].awaits(
                    key.content(),
                ),
    {
        let mut waiting: Vec<bool> = Vec::new();
        let mut i: usize = 0;
        while i < self.admissions.len()
            invariant
                i <= self.admissions@.len(),
                waiting@.len() == i,
                forall|j: int|
                    0 <= j < i ==> #[trigger] waiting@[j] == self.admissions@[j].awaits(
                        key.content(),
                    ),
            decreases self.admissions@.len() - i,
        {
            waiting.push(self.admissions[i].is_awaiting(key));
            i = i + 1;
        }
        waiting
    }

    /// The credentials that the refresh in flight for `key` started from.
    pub fn refresh_current(&self, key: &PromptOAuthRefreshKey) -> (res: Option<OpenAiAuth>)
        requires
            self.wf(),
        ensures
            match res {
                Some(current) => in_flight(self.oauth_refreshes@, key.content()) && current
                    == flight(self.oauth_refreshes@, key.content()).current,
                None => !in_flight(self.oauth_refreshes@, key.content()),
            },
    {
        match self.find_refresh(key) {
            Some(i) => {
                assert(in_flight(self.oauth_refreshes@, key.content()));
                Some(self.oauth_refreshes[i].current.clone())
            },
            None => None,
        }
    }

    fn take_refresh(&mut self, key: &PromptOAuthRefreshKey) -> (res: Option<PromptOAuthRefresh>)
        requires
            old(self).wf(),
        ensures
            final(self).wf(),
            final(self).admissions == old(self).admissions,
            final(self).oauth_rpcs == old(self).oauth_rpcs,
            final(self).oauth_refreshes@ == without_flight(
                old(self).oauth_refreshes@,
                key.content(),
            ),
            match res {
                Some(refresh) => in_flight(old(self).oauth_refreshes@, key.content()) && refresh
                    == flight(old(self).oauth_refreshes@, key.content()),
                None => !in_flight(old(self).oauth_refreshes@, key.content()) && *final(self)
                    == *old(self),
            },
    {
        match self.find_refresh(key) {
            Some(i) => {
                assert(in_flight(self.oauth_refreshes@, key.content()));
                let refresh = self.oauth_refreshes.remove(i);
                proof {
                    let before = old(self).oauth_refreshes@;
                    let after = self.oauth_refreshes@;
                    assert forall|x: int, y: int| 0 <= x < y < after.len() implies (
                    #[trigger] after[x]).key.content() != (#[trigger] after[y]).key.content() by {
                        let x2 = if x < i {
                            x
                        } else {
                            x + 1
                        };
                        let y2 = if y < i {
                            y
                        } else {
                            y + 1
                        };
                        assert(after[x] == before[x2] && after[y] == before[y2]);
                    }
                }
                Some(refresh)
            },
            None => None,
        }
    }

    /// Applies one failed refresh to every exact-generation waiter. A refresh that is no longer in
    /// flight changes nothing.
    pub fn fail_prompt_oauth_refresh(
        &mut self,
        key: &PromptOAuthRefreshKey,
        error: Option<&OAuthError>,
        rejections: &mut OAuthRefreshRejectionCache,
        now_ms: u64,
    )
        requires
            old(self).wf(),
        ensures
            final(self).wf(),
            prompt_refresh_failed(
                old(self),
                final(self),
                key.content(),
                match error {
                    Some(error) => Some(*error),
                    None => None,
                },
                old(rejections).rejections(),
                final(rejections).rejections(),
                now_ms,
            ),
            final(rejections).unauthorized_map() == old(rejections).unauthorized_map(),
    {
        let refresh = match self.take_refresh(key) {
            Some(refresh) => refresh,
            None => {
                return ;
            },
        };
        let ghost before = self.admissions@;
        let ghost remembered = rejections.rejections();
        let ghost reason = match error {
            Some(error) => Some(*error),
            None => None,
        };
        let mut i: usize = 0;
        assert(before.take(0) =~= Seq::<PendingPromptAdmission>::empty());
        while i < self.admissions.len()
            invariant
                i <= before.len(),
                self.admissions@.len() == before.len(),
                self.wf(),
                self.oauth_rpcs == old(self).oauth_rpcs,
                self.oauth_refreshes@ == without_flight(
                    old(self).oauth_refreshes@,
                    key.content(),
                ),
                reason == match error {
                    Some(error) => Some(*error),
                    None => None,
                },
                forall|j: int|
                    0 <= j < i ==> refresh_failed(
                        before[j],
                        #[trigger] self.admissions@[j],
                        key.content(),
                        refresh.current.content(),
                        now_ms,
                    ),
                forall|j: int| i <= j < before.len() ==> #[trigger] self.admissions@[j] == before[j],
                rejections.rejections() == rejections_after_failure(
                    before.take(i as int),
                    key.content(),
                    refresh.current,
                    reason,
                    remembered,
                ),
                rejections.unauthorized_map() == old(rejections).unauthorized_map(),
            decreases before.len() - i,
        {
            assert(before.take(i + 1).drop_last() =~= before.take(i as int));
            let admission = &mut self.admissions[i];
            if admission.is_awaiting(key) {
                let provider = admission.kind.prompt().model.provider.clone();
                let lite: Option<bool> = match admission.profiles.get(provider.as_str()) {
                    Some(BuiltinProviderProfile::Chatgpt(profile)) => Some(
                        profile.responses_lite_compatibility,
                    ),
                    _ => None,
                };
                if let Some(lite_compatibility) = lite {
                    if let Some(error) = error {
                        rejections.record_if_permanent(
                            &provider,
                            &refresh.current,
                            lite_compatibility,
                            error,
                        );
                    }
                }
                let mut auth = refresh.current.clone();
                if admission.oauth_forced || oauth_token_is_expired(auth.expires_at_ms, now_ms) {
                    auth.clear_access_token();
                }
                admission.profiles.set_auth(provider.as_str(), auth);
                admission.oauth_refresh = None;
            }
            i = i + 1;
        }
        assert(before.take(i as int) =~= before);
    }

    /// Adopts an authoritative OAuth record for every exact-generation waiter that it is a valid
    /// rotation for; any other waiter's credentials become unusable.
    pub fn complete_prompt_oauth_refresh(
        &mut self,
        key: &PromptOAuthRefreshKey,
        authoritative: &OpenAiAuth,
        rejections: &mut OAuthRefreshRejectionCache,
        claims: &JwtClaims,
    )
        requires
            old(self).wf(),
        ensures
            final(self).wf(),
            final(self).oauth_rpcs == old(self).oauth_rpcs,
            final(self).oauth_refreshes@ == without_flight(
                old(self).oauth_refreshes@,
                key.content(),
            ),
            final(self).admissions@.len() == old(self).admissions@.len(),
            forall|i: int|
                0 <= i < old(self).admissions@.len() ==> refresh_completed(
                    old(self).admissions@[i],
                    #[trigger] final(self).admissions@[i],
                    key.content(),
                    authoritative.content(),
                    claims,
                ),
            final(rejections).rejections() == rejections_after_completion(
                old(self).admissions@,
                key.content(),
                authoritative.content(),
                claims,
                old(rejections).rejections(),
            ),
            final(rejections).unauthorized_map() == old(rejections).unauthorized_map(),
    {
        let _ = self.take_refresh(key);
        let ghost before = self.admissions@;
        let ghost remembered = rejections.rejections();
        let mut i: usize = 0;
        assert(before.take(0) =~= Seq::<PendingPromptAdmission>::empty());
        while i < self.admissions.len()
            invariant
                i <= before.len(),
                self.admissions@.len() == before.len(),
                self.wf(),
                self.oauth_rpcs == old(self).oauth_rpcs,
                self.oauth_refreshes@ == without_flight(
                    old(self).oauth_refreshes@,
                    key.content(),
                ),
                forall|j: int|
                    0 <= j < i ==> refresh_completed(
                        before[j],
                        #[trigger] self.admissions@[j],
                        key.content(),
                        authoritative.content(),
                        claims,
                    ),
                forall|j: int| i <= j < before.len() ==> #[trigger] self.admissions@[j] == before[j],
                rejections.rejections() == rejections_after_completion(
                    before.take(i as int),
                    key.content(),
                    authoritative.content(),
                    claims,
                    remembered,
                ),
                rejections.unauthorized_map() == old(rejections).unauthorized_map(),
            decreases before.len() - i,
        {
            assert(before.take(i + 1).drop_last() =~= before.take(i as int));
            let admission = &mut self.admissions[i];
            if admission.is_awaiting(key) {
                let provider = admission.kind.prompt().model.provider.clone();
                let held: Option<OpenAiAuth> = match admission.profiles.get(provider.as_str()) {
                    Some(BuiltinProviderProfile::Chatgpt(profile)) => Some(profile.auth.clone()),
                    _ => None,
                };
                let adopted = match held {
                    Some(held) => {
                        match validate_authoritative_rotation(
                            &held,
                            authoritative,
                            admission.oauth_forced,
                            claims,
                        ) {
                            Ok(()) => {
                                rejections.clear_refresh_rejection(&provider);
                                authoritative.clone()
                            },
                            Err(_) => {
                                let mut unusable = held;
                                unusable.clear_access_token();
                                unusable
                            },
                        }
                    },
                    None => authoritative.clone(),
                };
                admission.profiles.set_auth(provider.as_str(), adopted);
                admission.oauth_refresh = None;
            }
            i = i + 1;
        }
        assert(before.take(i as int) =~= before);
    }
}

/// What a failed refresh does: it leaves the flight list, its waiters fall back to the credentials
/// it started from, and a permanent error is remembered. A stale notice changes nothing.
pub open spec fn prompt_refresh_failed(
    before: &PromptCredentialAdmissionState,
    after: &PromptCredentialAdmissionState,
    key: RefreshKey,
    error: Option<OAuthError>,
    rejected_before: Map<Seq<char>, OAuthRefreshRejection>,
    rejected_after: Map<Seq<char>, OAuthRefreshRejection>,
    now_ms: u64,
) -> bool {
    if in_flight(before.oauth_refreshes@, key) {
        let current = flight(before.oauth_refreshes@, key).current;
        &&& after.oauth_rpcs == before.oauth_rpcs
        &&& after.oauth_refreshes@ == without_flight(before.oauth_refreshes@, key)
        &&& after.admissions@.len() == before.admissions@.len()
        &&& forall|i: int|
            0 <= i < before.admissions@.len() ==> refresh_failed(
                before.admissions@[i],
                #[trigger] after.admissions@[i],
                key,
                current.content(),
                now_ms,
            )
        &&& rejected_after == rejections_after_failure(
            before.admissions@,
            key,
            current,
            error,
            rejected_before,
        )
    } else {
        *after == *before && rejected_after == rejected_before
    }
}

/// What staging the OAuth refresh of one hydrated admission decides.
#[derive(Clone, Copy, Debug, PartialEq, Eq, Structural)]
pub enum StageVerdict {
    /// Wait for the refresh that is already in flight for this generation.
    Join { forced: bool },
    /// The access token may not be used.
    Disable,
    /// The credentials stand as they are.
    Keep,
    /// Start a refresh for this generation.
    Start { forced: bool },
}

/// The staging decision. Unspent recovery authority forces a refresh; exhausted recovery, a
/// remembered permanent rejection, and a missing refresh token fail closed.
pub open spec fn stage_verdict(
    auth: AuthContent,
    joined: Option<bool>,
    unauthorized: Unauthorized,
    identity: u64,
    rejected: bool,
    claims: &JwtClaims,
    now_ms: u64,
) -> StageVerdict {
    let forced = recoverable(unauthorized, identity);
    match joined {
        Some(flight_forced) => StageVerdict::Join { forced: flight_forced || forced },
        None => if exhausted(unauthorized, identity) {
            StageVerdict::Disable
        } else if rejected {
            if forced {
                StageVerdict::Disable
            } else {
                StageVerdict::Keep
            }
        } else if !forced && !refresh_due(
            claims.issued_of(auth.access_token),
            auth.expires_at_ms,
            now_ms,
        ) {
            StageVerdict::Keep
        } else if blank(auth.refresh_token) {
            if forced || auth.expires_at_ms <= now_ms {
                StageVerdict::Disable
            } else {
                StageVerdict::Keep
            }
        } else {
            StageVerdict::Start { forced }
        },
    }
}

/// Staging consumes recovery authority.
pub open spec fn stage_spends(
    joined: Option<bool>,
    unauthorized: Unauthorized,
    identity: u64,
) -> bool {
    &&& recoverable(unauthorized, identity)
    &&& joined != Some(true)
    &&& joined is Some || !exhausted(unauthorized, identity)
}

/// The rejections after staging: a consulted rejection of another generation is forgotten.
pub open spec fn stage_rejections(
    rejections: Map<Seq<char>, OAuthRefreshRejection>,
    provider: Seq<char>,
    joined: Option<bool>,
    unauthorized: Unauthorized,
    identity: u64,
    rejected: bool,
) -> Map<Seq<char>, OAuthRefreshRejection> {
    if joined is None && !exhausted(unauthorized, identity) && !rejected {
        rejections.remove(provider)
    } else {
        rejections
    }
}

/// The refresh key that an admission's hydrated ChatGPT credential belongs to; `None` when the
/// admission has no ChatGPT credential generation to refresh.
pub open spec fn stage_key(admission: PendingPromptAdmission) -> Option<RefreshKey> {
    let provider = admission.kind.provider();
    match (
        admission.profiles.oauth_path(provider),
        selected_auth(admission),
        admission.observations,
    ) {
        (Some(path), Some((_, lite_compatibility)), Some(observations)) => match lookup(
            generations(observations@),
            provider,
        ) {
            Some(Some(generation)) => Some(
                RefreshKey { provider, path: path@, generation, lite_compatibility },
            ),
            _ => None,
        },
        _ => None,
    }
}

/// The forced flag of the refresh in flight for `key`.
pub open spec fn joined_flight(refreshes: Seq<PromptOAuthRefresh>, key: RefreshKey) -> Option<
    bool,
> {
    if in_flight(refreshes, key) {
        Some(flight(refreshes, key).forced)
    } else {
        None
    }
}

/// What staging does to one admission and the refreshes in flight.
pub open spec fn staged(
    before: PendingPromptAdmission,
    after: PendingPromptAdmission,
    refreshes_before: Seq<PromptOAuthRefresh>,
    refreshes_after: Seq<PromptOAuthRefresh>,
    key: RefreshKey,
    verdict: StageVerdict,
    start: Option<RefreshStart>,
) -> bool {
    let (auth, _) = selected_auth(before)->0;
    match verdict {
        StageVerdict::Join { forced } => {
            &&& after == (PendingPromptAdmission {
                oauth_refresh: after.oauth_refresh,
                oauth_forced: forced,
                ..before
            })
            &&& after.awaits(key)
            &&& refreshes_after == refreshes_before
            &&& start is None
        },
        StageVerdict::Keep => {
            after == before && refreshes_after == refreshes_before && start is None
        },
        StageVerdict::Disable => {
            &&& with_credentials(before, after, without_access(auth))
            &&& after.oauth_refresh == before.oauth_refresh
            &&& refreshes_after == refreshes_before
            &&& start is None
        },
        StageVerdict::Start { forced } => {
            &&& after == (PendingPromptAdmission {
                oauth_refresh: after.oauth_refresh,
                oauth_forced: forced,
                ..before
            })
            &&& after.awaits(key)
            &&& refreshes_after.len() == refreshes_before.len() + 1
            &&& refreshes_after.drop_last() == refreshes_before
            &&& refreshes_after.last().key.content() == key
            &&& refreshes_after.last().current.content() == auth
            &&& refreshes_after.last().forced == forced
            &&& match start {
                Some(start) => start.key.content() == key && start.refresh_token@
                    == auth.refresh_token,
                None => false,
            }
        },
    }
}

/// What staging the refresh of the admission at `index` does.
pub open spec fn admission_staged(
    before: &PromptCredentialAdmissionState,
    after: &PromptCredentialAdmissionState,
    index: int,
    rejections_before: &OAuthRefreshRejectionCache,
    rejections_after: &OAuthRefreshRejectionCache,
    routes_before: Seq<RouteKey>,
    routes_after: Seq<RouteKey>,
    codex: &CodexRoutes,
    claims: &JwtClaims,
    now_ms: u64,
    start: Option<RefreshStart>,
) -> bool {
    let admission = before.admissions@[index];
    &&& after.oauth_rpcs == before.oauth_rpcs
    &&& after.admissions@ == before.admissions@.update(index, after.admissions@[index])
    &&& match stage_key(admission) {
        None => {
            &&& *after == *before
            &&& rejections_after == rejections_before
            &&& routes_after == routes_before
            &&& start is None
        },
        Some(key) => {
            let (auth, lite_compatibility) = selected_auth(admission)->0;
            let joined = joined_flight(before.oauth_refreshes@, key);
            let unauthorized = rejections_before.unauthorized_of(key.provider);
            let rejected = rejections_before.rejection_of(
                key.provider,
                auth,
                lite_compatibility,
            ) is Some;
            &&& routes_after == known_routes(
                routes_before,
                Some(auth_key(admission.kind.spec_prompt().model, codex, auth, lite_compatibility)),
            )
            &&& exists|identity: BackendProfileIdentity|
                {
                    &&& #[trigger] names_route(
                        routes_after,
                        identity,
                        auth_key(admission.kind.spec_prompt().model, codex, auth, lite_compatibility),
                    )
                    &&& staged(
                        admission,
                        after.admissions@[index],
                        before.oauth_refreshes@,
                        after.oauth_refreshes@,
                        key,
                        stage_verdict(
                            auth,
                            joined,
                            unauthorized,
                            identity.hash,
                            rejected,
                            claims,
                            now_ms,
                        ),
                        start,
                    )
                    &&& rejections_after.unauthorized_map() == if stage_spends(
                        joined,
                        unauthorized,
                        identity.hash,
                    ) {
                        rejections_before.unauthorized_map().insert(
                            key.provider,
                            spent(unauthorized, identity.hash),
                        )
                    } else {
                        rejections_before.unauthorized_map()
                    }
                    &&& rejections_after.rejections() == stage_rejections(
                        rejections_before.rejections(),
                        key.provider,
                        joined,
                        unauthorized,
                        identity.hash,
                        rejected,
                    )
                }
        },
    }
}

impl PromptCredentialAdmissionState {
    fn disable(&mut self, index: usize, provider: &String, auth: &OpenAiAuth)
        requires
            index < old(self).admissions@.len(),
            match selected_auth(old(self).admissions@[index as int]) {
                Some((held, _)) => held == auth.content(),
                None => false,
            },
            old(self).admissions@[index as int].kind.provider() == provider@,
        ensures
            final(self).oauth_refreshes == old(self).oauth_refreshes,
            final(self).oauth_rpcs == old(self).oauth_rpcs,
            final(self).admissions@ == old(self).admissions@.update(
                index as int,
                final(self).admissions@[index as int],
            ),
            with_credentials(
                old(self).admissions@[index as int],
                final(self).admissions@[index as int],
                without_access(auth.content()),
            ),
            final(self).admissions@[index as int].oauth_refresh == old(
                self,
            ).admissions@[index as int].oauth_refresh,
    {
        let mut unusable = auth.clone();
        unusable.clear_access_token();
        let admission = &mut self.admissions[index];
        admission.profiles.set_auth(provider.as_str(), unusable);
    }

    /// Starts or joins the exact-generation OAuth refresh needed by the hydrated admission at
    /// `index`. Returns the network refresh to start.
    pub fn stage_prompt_oauth_refresh(
        &mut self,
        index: usize,
        rejections: &mut OAuthRefreshRejectionCache,
        identities: &mut BackendIdentities,
        codex: &CodexRoutes,
        claims: &JwtClaims,
        now_ms: u64,
    ) -> (res: Option<RefreshStart>)
        requires
            old(self).wf(),
            old(identities).wf(),
            index < old(self).admissions@.len(),
        ensures
            final(self).wf(),
            final(identities).wf(),
            admission_staged(
                old(self),
                final(self),
                index as int,
                old(rejections),
                final(rejections),
                old(identities)@,
                final(identities)@,
                codex,
                claims,
                now_ms,
                res,
            ),
    {
        let ghost before = self.admissions@[index as int];
        assert(self.admissions@ =~= self.admissions@.update(index as int, before));
        let model = self.admissions[index].kind.prompt().model.clone();
        let provider = model.provider.clone();
        let path = match self.admissions[index].profiles.chatgpt_credential_reference(
            provider.as_str(),
        ) {
            Some(path) => path,
            None => {
                return None;
            },
        };
        let (current, lite_compatibility) = match self.admissions[index].profiles.get(
            provider.as_str(),
        ) {
            Some(BuiltinProviderProfile::Chatgpt(profile)) => (
                profile.auth.clone(),
                profile.responses_lite_compatibility,
            ),
            _ => {
                return None;
            },
        };
        let generation = match &self.admissions[index].observations {
            Some(observations) => match observations.get(provider.as_str()) {
                Some(CredentialObservation::Contents(generation)) => generation.clone(),
                _ => {
                    return None;
                },
            },
            None => {
                return None;
            },
        };
        let key = PromptOAuthRefreshKey {
            provider: provider.clone(),
            path,
            generation,
            lite_compatibility,
        };
        assert(stage_key(before) == Some(key.content()));
        assert(selected_auth(before) == Some((current.content(), lite_compatibility)));
        let config = resolved_config_for_provider_model(
            &model,
            codex,
            &current,
            lite_compatibility,
        );
        let identity = identities.inference_identity(&config);
        assert(names_route(
            identities@,
            identity,
            auth_key(model, codex, current.content(), lite_compatibility),
        ));
        if let Some(i) = self.find_refresh(&key) {
            assert(in_flight(self.oauth_refreshes@, key.content()));
            let flight_forced: bool = self.oauth_refreshes[i].forced;
            let forced: bool = flight_forced || rejections.take_unauthorized(
                &provider,
                identity.hash,
            );
            let admission = &mut self.admissions[index];
            admission.oauth_refresh = Some(key);
            admission.oauth_forced = forced;
            return None;
        }
        if rejections.unauthorized_exhausted(&provider, identity.hash) {
            self.disable(index, &provider, &current);
            return None;
        }
        let forced: bool = rejections.take_unauthorized(&provider, identity.hash);
        if rejections.rejection(&provider, &current, lite_compatibility).is_some() {
            if forced {
                self.disable(index, &provider, &current);
            }
            return None;
        }
        let due: bool = oauth_token_should_refresh(
            claims.jwt_issued_at_ms(&current.access_token),
            current.expires_at_ms,
            now_ms,
        );
        if !forced && !due {
            return None;
        }
        if is_blank(current.refresh_token.as_str()) {
            if forced || oauth_token_is_expired(current.expires_at_ms, now_ms) {
                self.disable(index, &provider, &current);
            }
            return None;
        }
        let refresh_token = current.refresh_token.clone();
        let start = RefreshStart { key: key.clone(), refresh_token };
        let flight = PromptOAuthRefresh { key: key.clone(), current, forced };
        proof {
            assert forall|j: int| 0 <= j < self.oauth_refreshes@.len() implies (
            #[trigger] self.oauth_refreshes@[j]).key.content() != key.content() by {
                if self.oauth_refreshes@[j].key.content() == key.content() {
                    assert(refresh_at(self.oauth_refreshes@, key.content(), j));
                }
            }
        }
        self.oauth_refreshes.push(flight);
        assert(self.oauth_refreshes@.drop_last() =~= old(self).oauth_refreshes@);
        let admission = &mut self.admissions[index];
        admission.oauth_refresh = Some(key);
        admission.oauth_forced = forced;
        Some(start)
    }

    /// The first admission that waits for the reply to `request_id`.
    pub fn find_reader(&self, request_id: &String) -> (res: Option<usize>)
        ensures
            match res {
                Some(i) => first_reader(self.admissions@, request_id@, i as int),
                None => forall|i: int|
                    0 <= i < self.admissions@.len() ==> !(#[trigger] self.admissions@[i]).reads(
                        request_id@,
                    ),
            },
    {
        let mut i: usize = 0;
        while i < self.admissions.len()
            invariant
                i <= self.admissions@.len(),
                forall|j: int|
                    0 <= j < i ==> !(#[trigger] self.admissions@[j]).reads(request_id@),
            decreases self.admissions@.len() - i,
        {
            if self.admissions[i].is_reading(request_id) {
                return Some(i);
            }
            i = i + 1;
        }
        None
    }

    /// Hydrates the admission at `index` with its reply.
    pub fn hydrate(&mut self, index: usize, replies: &NameTable<SecretReply>)
        requires
            index < old(self).admissions@.len(),
        ensures
            final(self).oauth_refreshes == old(self).oauth_refreshes,
            final(self).oauth_rpcs == old(self).oauth_rpcs,
            final(self).admissions@ == old(self).admissions@.update(
                index as int,
                final(self).admissions@[index as int],
            ),
            hydrated(
                old(self).admissions@[index as int],
                final(self).admissions@[index as int],
                replies@,
            ),
            final(self).admissions@[index as int].request_id == old(
                self,
            ).admissions@[index as int].request_id,
    {
        let admission = &mut self.admissions[index];
        let observations = admission.profiles.hydrate_profile_credentials_with(replies);
        admission.observations = Some(observations);
    }

    /// Invalidates one expired correlation. An OAuth continuation returns its shared key to the
    /// caller; an initial or retry read becomes credential-missing and ready. Repeated or late
    /// notices change nothing.
    pub fn apply_prompt_credential_timeout(&mut self, request_id: &String) -> (res: Option<
        PromptOAuthRefreshKey,
    >)
        ensures
            final(self).oauth_refreshes == old(self).oauth_refreshes,
            timed_out(old(self), final(self), request_id@, res),
    {
        if let Some(continuation) = self.oauth_rpcs.remove(request_id.as_str()) {
            return Some(continuation.into_key());
        }
        let mut i: usize = 0;
        while i < self.admissions.len()
            invariant
                i <= self.admissions@.len(),
                *self == *old(self),
                !self.oauth_rpcs@.contains_key(request_id@),
                forall|j: int|
                    0 <= j < i ==> !expecting(#[trigger] self.admissions@[j], request_id@),
            decreases self.admissions@.len() - i,
        {
            if self.admissions[i].is_reading(request_id) && self.admissions[i].observations.is_none() {
                let replies: NameTable<SecretReply> = NameTable::new();
                self.hydrate(i, &replies);
                let admission = &mut self.admissions[i];
                admission.request_id = None;
                proof {
                    let all = old(self).admissions@;
                    assert(first_expecting(all, request_id@, i as int));
                    let k = choose|k: int| #[trigger] first_expecting(all, request_id@, k);
                    assert(first_expecting(all, request_id@, k));
                    if k < i {
                        assert(expecting(all[k], request_id@));
                    } else if i < k {
                        assert(!expecting(all[i as int], request_id@));
                    }
                    assert(self.admissions@ =~= all.update(i as int, self.admissions@[i as int]));
                }
                return None;
            }
            i = i + 1;
        }
        None
    }

    /// Forgets one refresh once its last prompt waiter is gone. Returns the requests whose
    /// deadlines are canceled.
    pub fn prune_unreferenced_prompt_oauth(&mut self, key: &PromptOAuthRefreshKey) -> (res: Vec<
        String,
    >)
        requires
            old(self).wf(),
        ensures
            final(self).wf(),
            final(self).admissions == old(self).admissions,
            if has_waiter(old(self).admissions@, key.content()) {
                *final(self) == *old(self) && res@.len() == 0
            } else {
                &&& final(self).oauth_refreshes@ == without_flight(
                    old(self).oauth_refreshes@,
                    key.content(),
                )
                &&& final(self).oauth_rpcs@ == other_operations(
                    old(self).oauth_rpcs@,
                    key.content(),
                )
                &&& forall|id: Seq<char>| #[trigger]
                    contents(res@).contains(id) <==> old(self).oauth_rpcs@.contains_key(id)
                        && old(self).oauth_rpcs@[id].spec_key().content() == key.content()
            },
    {
        if prompt_oauth_has_waiter(&self.admissions, key) {
            return Vec::new();
        }
        let _ = self.take_refresh(key);
        let mut canceled: Vec<String> = Vec::new();
        let n: usize = self.oauth_rpcs.len();
        let ghost pruned = *self;
        let ghost operations = self.oauth_rpcs@;
        let ghost keys = self.oauth_rpcs.keys();
        let mut i: usize = 0;
        while i < n
            invariant
                *self == pruned,
                n == keys.len(),
                i <= n,
                keys == self.oauth_rpcs.keys(),
                operations == self.oauth_rpcs@,
                forall|x: int|
                    0 <= x < canceled@.len() ==> operations.contains_key(
                        (#[trigger] canceled@[x])@,
                    ) && operations[canceled@[x]@].spec_key().content() == key.content(),
                forall|j: int|
                    0 <= j < i && operations[#[trigger] keys[j]].spec_key().content()
                        == key.content() ==> contents(canceled@).contains(keys[j]),
            decreases n - i,
        {
            let ghost seen = canceled@;
            if self.oauth_rpcs.value_at(i).key().same(key) {
                canceled.push(self.oauth_rpcs.key_at(i).clone());
                proof {
                    assert(contents(canceled@)[seen.len() as int] == keys[i as int]);
                }
            }
            proof {
                assert forall|j: int|
                    0 <= j < i + 1 && operations[#[trigger] keys[j]].spec_key().content()
                        == key.content() implies contents(canceled@).contains(keys[j]) by {
                    if j < i {
                        let x = contents(seen).index_of(keys[j]);
                        assert(contents(seen)[x] == keys[j]);
                        assert(contents(canceled@)[x] == keys[j]);
                    }
                }
            }
            i = i + 1;
        }
        let mut k: usize = 0;
        while k < canceled.len()
            invariant
                k <= canceled@.len(),
                self.admissions == pruned.admissions,
                self.oauth_refreshes == pruned.oauth_refreshes,
                forall|id: Seq<char>| #[trigger]
                    self.oauth_rpcs@.contains_key(id) <==> operations.contains_key(id) && !exists|
                        x: int,
                    |
                        0 <= x < k && (#[trigger] canceled@[x])@ == id,
                forall|id: Seq<char>| #[trigger]
                    self.oauth_rpcs@.contains_key(id) ==> self.oauth_rpcs@[id] == operations[id],
            decreases canceled@.len() - k,
        {
            let ghost before = self.oauth_rpcs@;
            let _ = self.oauth_rpcs.remove(canceled[k].as_str());
            proof {
                assert forall|id: Seq<char>| #[trigger]
                    self.oauth_rpcs@.contains_key(id) <==> operations.contains_key(id) && !exists|
                        x: int,
                    |
                        0 <= x < k + 1 && (#[trigger] canceled@[x])@ == id by {
                    assert(self.oauth_rpcs@.contains_key(id) <==> before.contains_key(id) && id
                        != canceled@[k as int]@);
                    if exists|x: int| 0 <= x < k + 1 && (#[trigger] canceled@[x])@ == id {
                        let x = choose|x: int| 0 <= x < k + 1 && (#[trigger] canceled@[x])@ == id;
                        if x < k {
                            assert(!before.contains_key(id));
                        }
                    }
                }
            }
            k = k + 1;
        }
        proof {
            let target = other_operations(operations, key.content());
            assert forall|id: Seq<char>| self.oauth_rpcs@.contains_key(id) == target.contains_key(
                id,
            ) by {
                if operations.contains_key(id) && operations[id].spec_key().content()
                    == key.content() {
                    assert(keys.contains(id));
                    let j = keys.index_of(id);
                    assert(keys[j] == id);
                    assert(contents(canceled@).contains(id));
                    let x = contents(canceled@).index_of(id);
                    assert(canceled@[x]@ == id);
                }
            }
            assert(self.oauth_rpcs@ =~= target);
            assert forall|id: Seq<char>| #[trigger]
                contents(canceled@).contains(id) <==> operations.contains_key(id)
                    && !self.oauth_rpcs@.contains_key(id) by {
                if contents(canceled@).contains(id) {
                    let x = contents(canceled@).index_of(id);
                    assert(canceled@[x]@ == id);
                }
                if operations.contains_key(id) && !self.oauth_rpcs@.contains_key(id) {
                    let x = choose|x: int| 0 <= x < k && (#[trigger] canceled@[x])@ == id;
                    assert(contents(canceled@)[x] == id);
                }
            }
        }
        canceled
    }
}

/// The operations that belong to other refreshes.
pub open spec fn other_operations(
    operations: Map<Seq<char>, PromptOAuthRpc>,
    key: RefreshKey,
) -> Map<Seq<char>, PromptOAuthRpc> {
    Map::new(
        |id: Seq<char>| operations.contains_key(id) && operations[id].spec_key().content() != key,
        |id: Seq<char>| operations[id],
    )
}

/// `i` is the first admission that waits for the reply to `request_id`.
pub open spec fn first_reader(
    admissions: Seq<PendingPromptAdmission>,
    request_id: Seq<char>,
    i: int,
) -> bool {
    &&& 0 <= i < admissions.len()
    &&& admissions[i].reads(request_id)
    &&& forall|j: int| 0 <= j < i ==> !(#[trigger] admissions[j]).reads(request_id)
}

/// An admission still expects the reply to `request_id`.
pub open spec fn expecting(admission: PendingPromptAdmission, request_id: Seq<char>) -> bool {
    admission.reads(request_id) && admission.observations is None
}

/// `i` is the first admission that still expects the reply to `request_id`.
pub open spec fn first_expecting(
    admissions: Seq<PendingPromptAdmission>,
    request_id: Seq<char>,
    i: int,
) -> bool {
    &&& 0 <= i < admissions.len()
    &&& expecting(admissions[i], request_id)
    &&& forall|j: int| 0 <= j < i ==> !expecting(#[trigger] admissions[j], request_id)
}

/// What a credential reply makes of one admission.
pub open spec fn hydrated(
    before: PendingPromptAdmission,
    after: PendingPromptAdmission,
    replies: Map<Seq<char>, SecretReply>,
) -> bool {
    &&& after.kind == before.kind
    &&& after.oauth_refresh == before.oauth_refresh
    &&& after.oauth_forced == before.oauth_forced
    &&& after.profiles.profiles() == hydrated_profiles(
        before.profiles.profiles(),
        before.profiles.credential_map(),
        replies,
    )
    &&& after.profiles.credential_map() == before.profiles.credential_map()
    &&& after.profiles.missing() == before.profiles.missing().union(
        newly_missing(before.profiles.profiles(), before.profiles.credential_map(), replies),
    )
    &&& match after.observations {
        Some(observations) => generations(observations@) == observed_generations(
            before.profiles.profiles(),
            before.profiles.credential_map(),
            replies,
        ),
        None => false,
    }
}

/// What an expired correlation does.
pub open spec fn timed_out(
    before: &PromptCredentialAdmissionState,
    after: &PromptCredentialAdmissionState,
    request_id: Seq<char>,
    key: Option<PromptOAuthRefreshKey>,
) -> bool {
    if before.oauth_rpcs@.contains_key(request_id) {
        &&& key == Some(before.oauth_rpcs@[request_id].spec_key())
        &&& after.oauth_rpcs@ == before.oauth_rpcs@.remove(request_id)
        &&& after.admissions == before.admissions
    } else {
        &&& key is None
        &&& after.oauth_rpcs == before.oauth_rpcs
        &&& if exists|i: int| #[trigger] first_expecting(before.admissions@, request_id, i) {
            let i = choose|i: int| #[trigger] first_expecting(before.admissions@, request_id, i);
            &&& after.admissions@ == before.admissions@.update(i, after.admissions@[i])
            &&& hydrated(before.admissions@[i], after.admissions@[i], Map::empty())
            &&& after.admissions@[i].request_id is None
        } else {
            after.admissions == before.admissions
        }
    }
}

/// The ChatGPT profile that an admission selected, as far as its credentials and mode go.
pub open spec fn holds(
    admission: PendingPromptAdmission,
    auth: AuthContent,
    lite_compatibility: bool,
) -> bool {
    &&& admission.profiles.profiles().contains_key(admission.kind.provider())
    &&& admission.profiles.profiles()[admission.kind.provider()] == (ProfileContent::Chatgpt {
        auth,
        lite_compatibility,
    })
}

/// A failed refresh lets its waiters go on, and no one else: a waiter keeps the current credentials
/// while they may still be used, and loses the access token when it was rejected or has expired.
pub proof fn failed_refresh_lets_its_waiters_go(
    before: PendingPromptAdmission,
    after: PendingPromptAdmission,
    key: RefreshKey,
    current: AuthContent,
    now_ms: u64,
    held: AuthContent,
    lite_compatibility: bool,
)
    requires
        refresh_failed(before, after, key, current, now_ms),
        holds(before, held, lite_compatibility),
    ensures
        before.awaits(key) ==> {
            &&& after.oauth_refresh is None
            &&& after.kind == before.kind
            &&& after.request_id == before.request_id
            &&& after.observations == before.observations
            &&& !before.oauth_forced && now_ms < current.expires_at_ms ==> holds(
                after,
                current,
                lite_compatibility,
            )
            &&& before.oauth_forced || current.expires_at_ms <= now_ms ==> holds(
                after,
                AuthContent { access_token: Seq::empty(), ..current },
                lite_compatibility,
            )
        },
        !before.awaits(key) ==> after == before,
{
}

/// A finished refresh gives its waiters the authoritative credentials exactly when they belong to
/// the account that the waiter holds and, in a forced recovery, bring another token. Otherwise the
/// waiter goes on without an access token; no one else is touched.
pub proof fn finished_refresh_supplies_its_waiters(
    before: PendingPromptAdmission,
    after: PendingPromptAdmission,
    key: RefreshKey,
    authoritative: AuthContent,
    claims: &JwtClaims,
    held: AuthContent,
    lite_compatibility: bool,
)
    requires
        refresh_completed(before, after, key, authoritative, claims),
        holds(before, held, lite_compatibility),
    ensures
        before.awaits(key) ==> {
            let same_account = account_identity(held, claims) == account_identity(
                authoritative,
                claims,
            ) && (account_identity(held, claims) matches Ok(Some(account)));
            let replaces = !before.oauth_forced || authoritative.access_token != held.access_token;
            &&& after.oauth_refresh is None
            &&& after.kind == before.kind
            &&& same_account && replaces ==> holds(after, authoritative, lite_compatibility)
            &&& !same_account || !replaces ==> holds(
                after,
                AuthContent { access_token: Seq::empty(), ..held },
                lite_compatibility,
            )
        },
        !before.awaits(key) ==> after == before,
{
}

/// A generation is refreshed by at most one flight: whoever comes while one is under way joins it.
/// Alone, credentials without recovery left are disabled, a rejected generation with recovery left
/// is refreshed by force, and any other is refreshed when its token is due.
pub proof fn generation_is_refreshed_by_one_flight(
    auth: AuthContent,
    joined: Option<bool>,
    unauthorized: Unauthorized,
    identity: u64,
    rejected: bool,
    claims: &JwtClaims,
    now_ms: u64,
)
    ensures
        ({
            let verdict = stage_verdict(
                auth,
                joined,
                unauthorized,
                identity,
                rejected,
                claims,
                now_ms,
            );
            let seen = unauthorized.generations.contains_key(identity);
            let spendable = seen && !unauthorized.generations[identity];
            let closed = unauthorized.saturated || seen && unauthorized.generations[identity];
            &&& verdict is Join <==> joined is Some
            &&& joined matches Some(flight_forced) ==> verdict == (StageVerdict::Join {
                forced: flight_forced || spendable,
            })
            &&& joined is None && closed ==> verdict is Disable
            &&& joined is None && !closed && rejected && spendable ==> verdict is Disable
            &&& joined is None && !closed && rejected && !spendable ==> verdict is Keep
            &&& joined is None && !closed && !rejected && spendable && !blank(auth.refresh_token)
                ==> verdict == (StageVerdict::Start { forced: true })
            &&& joined is None && !closed && !rejected && spendable && blank(auth.refresh_token)
                ==> verdict is Disable
            &&& joined is None && !closed && !rejected && !spendable && !blank(auth.refresh_token)
                && auth.expires_at_ms <= now_ms + 300_000 ==> verdict == (StageVerdict::Start {
                forced: false,
            })
            &&& joined is None && !closed && !rejected && !spendable && blank(auth.refresh_token)
                && auth.expires_at_ms <= now_ms ==> verdict is Disable
            &&& joined is None && !closed && !rejected && !spendable && blank(auth.refresh_token)
                && now_ms < auth.expires_at_ms ==> verdict is Keep
            &&& joined is None && !closed && !rejected && !spendable && claims.issued_of(
                auth.access_token,
            ) is None && now_ms + 300_000 < auth.expires_at_ms ==> verdict is Keep
        }),
{
}

/// Staging does what was decided: joining and starting make the admission wait for its generation,
/// a start sends the refresh token that the admission holds, a disabled one loses only its access
/// token, and one that may go on is not touched.
pub proof fn staging_does_what_was_decided(
    before: PendingPromptAdmission,
    after: PendingPromptAdmission,
    refreshes_before: Seq<PromptOAuthRefresh>,
    refreshes_after: Seq<PromptOAuthRefresh>,
    key: RefreshKey,
    verdict: StageVerdict,
    start: Option<RefreshStart>,
    auth: AuthContent,
    lite_compatibility: bool,
)
    requires
        staged(before, after, refreshes_before, refreshes_after, key, verdict, start),
        holds(before, auth, lite_compatibility),
    ensures
        after.kind == before.kind,
        start is Some <==> verdict is Start,
        match verdict {
            StageVerdict::Join { forced } => after.awaits(key) && after.oauth_forced == forced
                && refreshes_after == refreshes_before && after.profiles == before.profiles,
            StageVerdict::Keep => after == before && refreshes_after == refreshes_before,
            StageVerdict::Disable => {
                &&& holds(
                    after,
                    AuthContent { access_token: Seq::empty(), ..auth },
                    lite_compatibility,
                )
                &&& after.oauth_refresh == before.oauth_refresh
                &&& refreshes_after == refreshes_before
            },
            StageVerdict::Start { forced } => {
                &&& after.awaits(key)
                &&& after.oauth_forced == forced
                &&& after.profiles == before.profiles
                &&& refreshes_after.len() == refreshes_before.len() + 1
                &&& refreshes_after.drop_last() == refreshes_before
                &&& refreshes_after.last().key.content() == key
                &&& refreshes_after.last().current.content() == auth
                &&& refreshes_after.last().forced == forced
                &&& start matches Some(sent)
                &&& sent.key.content() == key
                &&& sent.refresh_token@ == auth.refresh_token
            },
        },
{
}

/// Recovery is spent exactly when an admission is the one to force it: its generation still has
/// recovery, and no forced flight for it is under way.
pub proof fn recovery_is_spent_by_the_one_that_forces(
    joined: Option<bool>,
    unauthorized: Unauthorized,
    identity: u64,
)
    ensures
        stage_spends(joined, unauthorized, identity) ==> unauthorized.generations.contains_key(
            identity,
        ) && !unauthorized.generations[identity] && joined != Some(true),
        unauthorized.generations.contains_key(identity) && !unauthorized.generations[identity]
            && joined == Some(false) ==> stage_spends(joined, unauthorized, identity),
        unauthorized.generations.contains_key(identity) && !unauthorized.generations[identity]
            && joined is None && !unauthorized.saturated ==> stage_spends(
            joined,
            unauthorized,
            identity,
        ),
        joined is None && unauthorized.saturated ==> !stage_spends(joined, unauthorized, identity),
{
}

/// An admission can refresh only a stored OAuth record whose contents it has seen, and refreshes
/// exactly that generation, under its provider's path and mode.
pub proof fn refresh_names_the_seen_generation(
    admission: PendingPromptAdmission,
    auth: AuthContent,
    lite_compatibility: bool,
    reference: ProviderCredentialReference,
    observations: NameTable<CredentialObservation>,
)
    requires
        holds(admission, auth, lite_compatibility),
        admission.profiles.credential_map().contains_key(admission.kind.provider()),
        admission.profiles.credential_map()[admission.kind.provider()]
            == ProviderCredential::Stored(reference),
        admission.observations == Some(observations),
    ensures
        stage_key(admission) is Some <==> {
            &&& reference.slot == ProviderCredentialSlot::OAuth
            &&& observations@.contains_key(admission.kind.provider())
            &&& observations@[admission.kind.provider()] is Contents
        },
        stage_key(admission) matches Some(key) ==> {
            &&& key.provider == admission.kind.provider()
            &&& key.path == reference.path@
            &&& key.lite_compatibility == lite_compatibility
            &&& observations@[admission.kind.provider()] matches CredentialObservation::Contents(
                generation,
            )
            &&& key.generation == generation@
        },
{
}

/// An admission is ready once its credential was read and no refresh of it is awaited.
pub proof fn readiness_needs_credential_and_refresh(admission: PendingPromptAdmission)
    ensures
        admission.ready() <==> admission.observations is Some && admission.oauth_refresh is None,
{
}

/// Taking a flight removes exactly it: no other generation's flight is lost.
pub proof fn only_the_named_flight_is_taken(
    refreshes: Seq<PromptOAuthRefresh>,
    i: int,
    other: int,
)
    requires
        distinct_refreshes(refreshes),
        0 <= i < refreshes.len(),
        0 <= other < refreshes.len(),
        other != i,
    ensures
        flight(refreshes, refreshes[i].key.content()) == refreshes[i],
        without_flight(refreshes, refreshes[i].key.content()) == refreshes.remove(i),
        without_flight(refreshes, refreshes[i].key.content()).contains(refreshes[other]),
{
    let key = refreshes[i].key.content();
    assert(refresh_at(refreshes, key, i));
    let found = choose|k: int| refresh_at(refreshes, key, k);
    assert(refresh_at(refreshes, key, found));
    if found < i {
        assert(refreshes[found].key.content() != refreshes[i].key.content());
    } else if i < found {
        assert(refreshes[i].key.content() != refreshes[found].key.content());
    }
    let rest = refreshes.remove(i);
    if other < i {
        assert(rest[other] == refreshes[other]);
    } else {
        assert(rest[other - 1] == refreshes[other]);
    }
}

/// A request that ran out of time ends once: a secret operation is given up under its generation,
/// and an admission still waiting for its read goes on without any credential. A request that is
/// not waited for changes nothing.
pub proof fn expired_request_ends_once(
    before: &PromptCredentialAdmissionState,
    after: &PromptCredentialAdmissionState,
    request_id: Seq<char>,
    key: Option<PromptOAuthRefreshKey>,
)
    requires
        timed_out(before, after, request_id, key),
    ensures
        key is Some <==> before.oauth_rpcs@.contains_key(request_id),
        key matches Some(given_up) ==> {
            &&& !after.oauth_rpcs@.contains_key(request_id)
            &&& after.admissions == before.admissions
            &&& match before.oauth_rpcs@[request_id] {
                PromptOAuthRpc::CompareAndSwap { key: operation } => given_up == operation,
                PromptOAuthRpc::Reload { key: operation } => given_up == operation,
            }
        },
        key is None && (forall|i: int|
            0 <= i < before.admissions@.len() ==> !((
            #[trigger] before.admissions@[i]).request_id matches Some(read) && read@ == request_id)
                || before.admissions@[i].observations is Some) ==> after.admissions
            == before.admissions,
        after.admissions@.len() == before.admissions@.len(),
{
    if key is None && (forall|i: int|
        0 <= i < before.admissions@.len() ==> !((
        #[trigger] before.admissions@[i]).request_id matches Some(read) && read@ == request_id)
            || before.admissions@[i].observations is Some) {
        if exists|i: int| #[trigger] first_expecting(before.admissions@, request_id, i) {
            let i = choose|i: int| #[trigger] first_expecting(before.admissions@, request_id, i);
            assert(expecting(before.admissions@[i], request_id));
            assert(before.admissions@[i].reads(request_id));
        }
    }
    if key is None && exists|i: int| #[trigger]
        first_expecting(before.admissions@, request_id, i) {
        let i = choose|i: int| #[trigger] first_expecting(before.admissions@, request_id, i);
        assert(after.admissions@ == before.admissions@.update(i, after.admissions@[i]));
    }
}

/// Giving a generation up leaves no operation of it, and every other one.
pub proof fn other_operations_remain(
    operations: Map<Seq<char>, PromptOAuthRpc>,
    key: RefreshKey,
    id: Seq<char>,
)
    ensures
        other_operations(operations, key).contains_key(id) <==> operations.contains_key(id)
            && operations[id].spec_key().content() != key,
        other_operations(operations, key).contains_key(id) ==> other_operations(operations, key)[id]
            == operations[id],
{
}

/// A read without an answer for the admission's path hydrates nothing: a stored profile is left
/// out and its credential counts as unavailable.
pub proof fn unanswered_read_supplies_nothing(
    before: PendingPromptAdmission,
    after: PendingPromptAdmission,
    reference: ProviderCredentialReference,
)
    requires
        hydrated(before, after, Map::empty()),
        before.profiles.profiles().contains_key(before.kind.provider()),
        before.profiles.credential_map().contains_key(before.kind.provider()),
        before.profiles.credential_map()[before.kind.provider()] == ProviderCredential::Stored(
            reference,
        ),
    ensures
        !after.profiles.profiles().contains_key(before.kind.provider()),
        after.kind == before.kind,
        after.observations matches Some(observations) && observations@.contains_key(
            before.kind.provider(),
        ) && observations@[before.kind.provider()] is Unavailable,
{
    let provider = before.kind.provider();
    let observations = after.observations->0;
    let expected = observed_generations(
        before.profiles.profiles(),
        before.profiles.credential_map(),
        Map::empty(),
    );
    assert(generations(observations@) == expected);
    assert(expected.contains_key(provider));
    assert(generations(observations@).contains_key(provider));
    assert(generations(observations@)[provider] == observations@[provider].generation());
    assert(expected[provider] is None);
}

/// Only a permanent rejection is remembered, and only of a generation that someone waits for.
pub proof fn transient_failure_is_not_remembered(
    admissions: Seq<PendingPromptAdmission>,
    key: RefreshKey,
    current: OpenAiAuth,
    error: Option<OAuthError>,
    rejections: Map<Seq<char>, OAuthRefreshRejection>,
)
    requires
        error is None || !error->0.permanent_refresh_rejection || (forall|i: int|
            0 <= i < admissions.len() ==> !(#[trigger] admissions[i]).awaits(key)),
    ensures
        rejections_after_failure(admissions, key, current, error, rejections) == rejections,
    decreases admissions.len(),
{
    if admissions.len() > 0 {
        let init = admissions.drop_last();
        if forall|i: int| 0 <= i < admissions.len() ==> !(#[trigger] admissions[i]).awaits(key) {
            assert forall|i: int| 0 <= i < init.len() implies !(#[trigger] init[i]).awaits(key) by {
                assert(init[i] == admissions[i]);
            }
            assert(!admissions[admissions.len() - 1].awaits(key));
        }
        transient_failure_is_not_remembered(init, key, current, error, rejections);
    }
}

/// A permanent rejection is remembered for the exact credentials that were refused, for every
/// provider that waits for them.
pub proof fn permanent_rejection_is_remembered(
    admissions: Seq<PendingPromptAdmission>,
    key: RefreshKey,
    current: OpenAiAuth,
    error: OAuthError,
    rejections: Map<Seq<char>, OAuthRefreshRejection>,
    i: int,
    held: AuthContent,
    lite_compatibility: bool,
)
    requires
        error.permanent_refresh_rejection,
        0 <= i < admissions.len(),
        admissions[i].awaits(key),
        holds(admissions[i], held, lite_compatibility),
    ensures
        ({
            let after = rejections_after_failure(
                admissions,
                key,
                current,
                Some(error),
                rejections,
            );
            let provider = admissions[i].kind.provider();
            &&& after.contains_key(provider)
            &&& after[provider].auth == current
            &&& after[provider].error == error
        }),
    decreases admissions.len(),
{
    let init = admissions.drop_last();
    if i < init.len() {
        assert(init[i] == admissions[i]);
        permanent_rejection_is_remembered(
            init,
            key,
            current,
            error,
            rejections,
            i,
            held,
            lite_compatibility,
        );
    }
}

/// A failed refresh is taken out of flight and answers all of its waiters at once; one that is not
/// in flight changes nothing.
pub proof fn failed_refresh_ends_its_flight(
    before: &PromptCredentialAdmissionState,
    after: &PromptCredentialAdmissionState,
    key: RefreshKey,
    error: Option<OAuthError>,
    rejected_before: Map<Seq<char>, OAuthRefreshRejection>,
    rejected_after: Map<Seq<char>, OAuthRefreshRejection>,
    now_ms: u64,
    i: int,
    waiter: int,
)
    requires
        prompt_refresh_failed(
            before,
            after,
            key,
            error,
            rejected_before,
            rejected_after,
            now_ms,
        ),
        distinct_refreshes(before.oauth_refreshes@),
    ensures
        0 <= i < before.oauth_refreshes@.len() && before.oauth_refreshes@[i].key.content() == key
            ==> {
            &&& after.oauth_refreshes@ == before.oauth_refreshes@.remove(i)
            &&& 0 <= waiter < before.admissions@.len() && before.admissions@[waiter].awaits(key)
                ==> after.admissions@[waiter].oauth_refresh is None
            &&& 0 <= waiter < before.admissions@.len() && !before.admissions@[waiter].awaits(key)
                ==> after.admissions@[waiter] == before.admissions@[waiter]
            &&& after.oauth_rpcs == before.oauth_rpcs
        },
        (forall|j: int|
            0 <= j < before.oauth_refreshes@.len() ==> (
            #[trigger] before.oauth_refreshes@[j]).key.content() != key) ==> *after == *before
            && rejected_after == rejected_before,
        after.admissions@.len() == before.admissions@.len(),
        error is None ==> rejected_after == rejected_before,
{
    let refreshes = before.oauth_refreshes@;
    if 0 <= i < refreshes.len() && refreshes[i].key.content() == key {
        assert(refresh_at(refreshes, key, i));
        let found = choose|k: int| refresh_at(refreshes, key, k);
        assert(refresh_at(refreshes, key, found));
        if found < i {
            assert(refreshes[found].key.content() != refreshes[i].key.content());
        } else if i < found {
            assert(refreshes[i].key.content() != refreshes[found].key.content());
        }
        if 0 <= waiter < before.admissions@.len() {
            assert(refresh_failed(
                before.admissions@[waiter],
                after.admissions@[waiter],
                key,
                flight(refreshes, key).current.content(),
                now_ms,
            ));
        }
    }
    if in_flight(refreshes, key) {
        let found = choose|k: int| #[trigger] refresh_at(refreshes, key, k);
        assert(refreshes[found].key.content() == key);
    }
    if error is None {
        transient_failure_is_not_remembered(
            before.admissions@,
            key,
            flight(refreshes, key).current,
            error,
            rejected_before,
        );
    }
}

/// A finished refresh lifts the rejection of each waiting provider whose account it kept and
/// whose token it replaced where that was demanded; it adds none, and changes no other.
pub proof fn finished_refresh_lifts_rejections(
    admissions: Seq<PendingPromptAdmission>,
    key: RefreshKey,
    authoritative: AuthContent,
    claims: &JwtClaims,
    rejections: Map<Seq<char>, OAuthRefreshRejection>,
    i: int,
    held: AuthContent,
    lite_compatibility: bool,
    provider: Seq<char>,
)
    ensures
        ({
            let after = rejections_after_completion(
                admissions,
                key,
                authoritative,
                claims,
                rejections,
            );
            &&& 0 <= i < admissions.len() && admissions[i].awaits(key) && holds(
                admissions[i],
                held,
                lite_compatibility,
            ) && account_identity(held, claims) == account_identity(authoritative, claims) && (
            account_identity(held, claims) matches Ok(Some(account))) && (
            !admissions[i].oauth_forced || authoritative.access_token != held.access_token)
                ==> !after.contains_key(admissions[i].kind.provider())
            &&& after.contains_key(provider) ==> rejections.contains_key(provider)
                && after[provider] == rejections[provider]
            &&& (forall|j: int|
                0 <= j < admissions.len() && (#[trigger] admissions[j]).kind.provider() == provider
                    ==> !admissions[j].awaits(key)) ==> after.contains_key(provider)
                == rejections.contains_key(provider)
        }),
    decreases admissions.len(),
{
    if admissions.len() > 0 {
        let init = admissions.drop_last();
        finished_refresh_lifts_rejections(
            init,
            key,
            authoritative,
            claims,
            rejections,
            i,
            held,
            lite_compatibility,
            provider,
        );
        if i < init.len() {
            assert(0 <= i ==> init[i] == admissions[i]);
        }
        if forall|j: int|
            0 <= j < admissions.len() && (#[trigger] admissions[j]).kind.provider() == provider
                ==> !admissions[j].awaits(key) {
            assert forall|j: int|
                0 <= j < init.len() && (#[trigger] init[j]).kind.provider()
                    == provider implies !init[j].awaits(key) by {
                assert(init[j] == admissions[j]);
            }
            assert(admissions[admissions.len() - 1] == admissions.last());
        }
    }
}

} // verus!
