//! Route supervision in the main loop: settings, prewarms, compaction evidence, and quota.


use vstd::prelude::*;

use crate::clock::{Moment, Span, NANOS_PER_MILLI};
use crate::credentials::{failed_recovery_is_unusable, CredentialObservation};
use crate::models::models_of;
use crate::names::NameTable;
use crate::oauth::{JwtClaims, OpenAiAuth, RefreshCredentialsError, StorageFailure};
use crate::prewarm::{admits, PrewarmKey, PrewarmKeyContent};
use crate::profiles::{
    generations, hydrated_profiles, lite_modes, newly_missing, observed_generations, pinned_modes,
    BuiltinProviderProfiles, ProfileContent, ProviderCredential, ProviderCredentialSlot,
    SecretReply,
};
use crate::prompt::{
    config_key, known_routes, names_route, BackendProfileIdentity, CodexRoutes, ModelId,
    PromptBackend, ResolvedConfig,
};
use crate::report::{ProviderCacheRefreshStatus, Report};
use crate::resolution::{finish_route, responses_route_begun, route_refreshed, RouteStart};
use crate::retry::{identity_changed, lookup, reconcile_inference_identity};
use crate::routes::{
    declaration_is_complete, published, replaces, selected_published, PublicationEffects, Routes,
};
use crate::runtime::{
    debug_allowed, debug_provider_requests_for, Effect, PrewarmScope, PrewarmStart, ProviderRuntime,
};
use crate::text::optional_text;

verus! {

/// What a credential read makes of some settings.
pub open spec fn hydrates(
    profiles: &BuiltinProviderProfiles,
    settings: Map<Seq<char>, ProfileContent>,
    before: &BuiltinProviderProfiles,
    replies: Map<Seq<char>, SecretReply>,
) -> bool {
    &&& profiles.profiles() == hydrated_profiles(settings, before.credential_map(), replies)
    &&& profiles.credential_map() == before.credential_map()
    &&& profiles.missing() == before.missing().union(
        newly_missing(settings, before.credential_map(), replies),
    )
}

/// The observations of a credential read.
pub open spec fn observes(
    observations: NameTable<CredentialObservation>,
    settings: Map<Seq<char>, ProfileContent>,
    before: &BuiltinProviderProfiles,
    replies: Map<Seq<char>, SecretReply>,
) -> bool {
    generations(observations@) == observed_generations(
        settings,
        before.credential_map(),
        replies,
    )
}

/// A copy of some profiles.
pub open spec fn same_profiles(
    a: &BuiltinProviderProfiles,
    b: &BuiltinProviderProfiles,
) -> bool {
    &&& a.profiles() == b.profiles()
    &&& a.credential_map() == b.credential_map()
    &&& a.missing() == b.missing()
}

/// What loading every profile does: with secret storage the profiles are hydrated and published,
/// and retained for the initial quota pass until it has begun.
pub open spec fn all_loaded(
    before: &ProviderRuntime,
    after: &ProviderRuntime,
    replies: Map<Seq<char>, SecretReply>,
    profiles: &BuiltinProviderProfiles,
    effects_before: Seq<Effect>,
    effects_after: Seq<Effect>,
) -> bool {
    let pinned = pinned_modes(before.settings.profiles(), before.startup_modes@);
    if before.secret_rpc {
        &&& hydrates(profiles, pinned, &before.settings, replies)
        &&& exists|
            observations: NameTable<CredentialObservation>,
            publication: PublicationEffects,
        |
            {
                &&& observes(observations, pinned, &before.settings, replies)
                &&& #[trigger] published(
                    &before.routes,
                    &after.routes,
                    models_of(profiles.profiles(), profiles.names(), &before.routes.catalog),
                    observations,
                    publication,
                )
                &&& effects_after == effects_before.push(Effect::Publication(publication))
            }
        &&& if before.initial_quota_started {
            after.startup_quota_profiles == before.startup_quota_profiles
        } else {
            match after.startup_quota_profiles {
                Some(retained) => same_profiles(&retained, profiles),
                None => false,
            }
        }
        &&& *after == (ProviderRuntime {
            routes: after.routes,
            startup_quota_profiles: after.startup_quota_profiles,
            ..*before
        })
    } else {
        &&& profiles.profiles() == pinned
        &&& profiles.credential_map() == before.settings.credential_map()
        &&& profiles.missing() == before.settings.missing()
        &&& *after == *before
        &&& effects_after == effects_before
    }
}

/// What loading the selected profile does: with secret storage it is hydrated and its models are
/// published.
pub open spec fn selected_loaded(
    before: &ProviderRuntime,
    after: &ProviderRuntime,
    provider: Seq<char>,
    replies: Map<Seq<char>, SecretReply>,
    profiles: &BuiltinProviderProfiles,
    effects_before: Seq<Effect>,
    effects_after: Seq<Effect>,
) -> bool {
    if before.secret_rpc {
        exists|
            settings: BuiltinProviderProfiles,
            observations: NameTable<CredentialObservation>,
            publication: PublicationEffects,
        |
            {
                &&& #[trigger] before.loads(provider, &settings)
                &&& hydrates(profiles, settings.profiles(), &settings, replies)
                &&& observes(observations, settings.profiles(), &settings, replies)
                &&& #[trigger] selected_published(
                    &before.routes,
                    &after.routes,
                    provider,
                    profiles,
                    observations,
                    publication,
                )
                &&& effects_after == effects_before.push(Effect::Publication(publication))
                &&& *after == (ProviderRuntime { routes: after.routes, ..*before })
            }
    } else {
        before.loads(provider, profiles) && *after == *before && effects_after == effects_before
    }
}

/// What accepting settings does: they and their modes are captured once, and everything is loaded.
/// Later settings are ignored.
pub open spec fn settings_accepted(
    before: &ProviderRuntime,
    after: &ProviderRuntime,
    settings: BuiltinProviderProfiles,
    replies: Map<Seq<char>, SecretReply>,
    effects_before: Seq<Effect>,
    effects_after: Seq<Effect>,
) -> bool {
    if before.configured {
        *after == *before && effects_after == effects_before
    } else {
        exists|captured: ProviderRuntime, profiles: BuiltinProviderProfiles|
            {
                &&& captured.startup_modes@ == lite_modes(settings.profiles())
                &&& captured == (ProviderRuntime {
                    settings,
                    configured: true,
                    startup_modes: captured.startup_modes,
                    ..*before
                })
                &&& #[trigger] all_loaded(
                    &captured,
                    after,
                    replies,
                    &profiles,
                    effects_before,
                    effects_after,
                )
            }
    }
}

impl ProviderRuntime {
    /// Loads every profile for startup and complete declaration work. `replies` answer the reads
    /// of stored credentials by path.
    pub fn load_all_profiles(
        &mut self,
        replies: &NameTable<SecretReply>,
        out: &mut Vec<Effect>,
    ) -> (res: BuiltinProviderProfiles)
        requires
            old(self).wf(),
        ensures
            final(self).wf(),
            all_loaded(old(self), final(self), replies@, &res, old(out)@, final(out)@),
    {
        let mut profiles = self.settings.duplicate();
        profiles.apply_startup_responses_modes(&self.startup_modes);
        if self.secret_rpc {
            let observations = profiles.hydrate_profile_credentials_with(replies);
            let publication = self.routes.publish_models_if_changed(&profiles, observations);
            assert(published(
                &old(self).routes,
                &self.routes,
                models_of(profiles.profiles(), profiles.names(), &old(self).routes.catalog),
                observations,
                publication,
            ));
            out.push(Effect::Publication(publication));
            if !self.initial_quota_started {
                self.startup_quota_profiles = Some(profiles.duplicate());
            }
        }
        profiles
    }

    /// Loads and hydrates only the selected profile.
    pub fn load_selected_profile(
        &mut self,
        provider: &String,
        replies: &NameTable<SecretReply>,
        out: &mut Vec<Effect>,
    ) -> (res: BuiltinProviderProfiles)
        requires
            old(self).wf(),
        ensures
            final(self).wf(),
            selected_loaded(
                old(self),
                final(self),
                provider@,
                replies@,
                &res,
                old(out)@,
                final(out)@,
            ),
    {
        let mut profiles = self.load_prompt_profiles(provider);
        if self.secret_rpc {
            let ghost settings = profiles;
            let observations = profiles.hydrate_profile_credentials_with(replies);
            let publication = self.routes.publish_selected_models_if_changed(
                provider,
                &profiles,
                observations,
            );
            assert(old(self).loads(provider@, &settings));
            assert(selected_published(
                &old(self).routes,
                &self.routes,
                provider@,
                &profiles,
                observations,
                publication,
            ));
            out.push(Effect::Publication(publication));
        }
        profiles
    }

    /// Accepts the first settings.
    pub fn handle_configure(
        &mut self,
        settings: BuiltinProviderProfiles,
        replies: &NameTable<SecretReply>,
        out: &mut Vec<Effect>,
    )
        requires
            old(self).wf(),
        ensures
            final(self).wf(),
            settings_accepted(
                old(self),
                final(self),
                settings,
                replies@,
                old(out)@,
                final(out)@,
            ),
    {
        if self.configured {
            return ;
        }
        self.configured = true;
        self.startup_modes = settings.startup_responses_modes();
        self.settings = settings;
        let ghost captured = *self;
        let profiles = self.load_all_profiles(replies, out);
        assert(all_loaded(&captured, self, replies@, &profiles, old(out)@, out@));
    }
}

/// A ChatGPT route under supervision whose credential may be refreshed first.
pub struct RouteAttempt {
    /// The model that is resolved, `None` when there is none.
    pub model: Option<ModelId>,
    pub profiles: BuiltinProviderProfiles,
    pub start: RouteStart,
    /// Whether the resolution may have replaced the stored credential.
    pub observes_refresh: bool,
}

/// What beginning a supervised resolution does.
pub open spec fn attempt_begun(
    before: &ProviderRuntime,
    after: &ProviderRuntime,
    model: ModelId,
    replies: Map<Seq<char>, SecretReply>,
    claims: &JwtClaims,
    now_ms: u64,
    effects_before: Seq<Effect>,
    effects_after: Seq<Effect>,
    attempt: RouteAttempt,
) -> bool {
    exists|loaded: ProviderRuntime|
        {
            &&& #[trigger] selected_loaded(
                before,
                &loaded,
                model.provider@,
                replies,
                &attempt.profiles,
                effects_before,
                effects_after,
            )
            &&& responses_route_begun(
                &loaded.routes,
                &after.routes,
                model,
                &attempt.profiles,
                claims,
                now_ms,
                attempt.start,
            )
            &&& *after == (ProviderRuntime { routes: after.routes, ..loaded })
            &&& attempt.model == Some(model)
            &&& attempt.observes_refresh == (attempt.profiles.oauth_path(
                model.provider@,
            ) is Some)
        }
}

/// The ChatGPT route of a decided attempt.
pub open spec fn attempt_config(
    attempt: RouteAttempt,
    codex: &CodexRoutes,
    refreshed: Option<Result<OpenAiAuth, RefreshCredentialsError>>,
    now_ms: u64,
    config: Option<ResolvedConfig>,
) -> bool {
    match (attempt.model, attempt.start) {
        (None, _) => config is None,
        (Some(_), RouteStart::Resolved(Some(PromptBackend::Responses(resolved)))) => config == Some(
            resolved,
        ),
        (Some(_), RouteStart::Resolved(_)) => config is None,
        (Some(model), RouteStart::Refresh { forced, .. }) => route_refreshed(
            model,
            codex,
            attempt.profiles.profiles(),
            match refreshed {
                Some(refreshed) => refreshed,
                None => Err(RefreshCredentialsError::Storage(StorageFailure::RpcUnavailable)),
            },
            forced,
            now_ms,
            config,
        ),
    }
}

/// What ending a supervised resolution does: a route that may have replaced its stored credential
/// is read and published again.
pub open spec fn attempt_ended(
    before: &ProviderRuntime,
    after: &ProviderRuntime,
    attempt: RouteAttempt,
    replies: Map<Seq<char>, SecretReply>,
    effects_before: Seq<Effect>,
    effects_after: Seq<Effect>,
) -> bool {
    match attempt.model {
        Some(model) => if attempt.observes_refresh {
            exists|profiles: BuiltinProviderProfiles| #[trigger]
                selected_loaded(
                    before,
                    after,
                    model.provider@,
                    replies,
                    &profiles,
                    effects_before,
                    effects_after,
                )
        } else {
            *after == *before && effects_after == effects_before
        },
        None => *after == *before && effects_after == effects_before,
    }
}

impl ProviderRuntime {
    /// Begins the resolution of one supervised ChatGPT route.
    pub fn begin_supervised_route(
        &mut self,
        model: &ModelId,
        replies: &NameTable<SecretReply>,
        claims: &JwtClaims,
        now_ms: u64,
        out: &mut Vec<Effect>,
    ) -> (res: RouteAttempt)
        requires
            old(self).wf(),
        ensures
            final(self).wf(),
            attempt_begun(
                old(self),
                final(self),
                *model,
                replies@,
                claims,
                now_ms,
                old(out)@,
                final(out)@,
                res,
            ),
    {
        let profiles = self.load_selected_profile(&model.provider, replies, out);
        let ghost loaded = *self;
        let observes_refresh: bool = profiles.chatgpt_credential_reference(
            model.provider.as_str(),
        ).is_some();
        let start = self.routes.begin_responses_route(model, &profiles, claims, now_ms);
        assert(selected_loaded(
            old(self),
            &loaded,
            model.provider@,
            replies@,
            &profiles,
            old(out)@,
            out@,
        ));
        RouteAttempt { model: Some(model.clone()), profiles, start, observes_refresh }
    }

    /// Ends the resolution of one supervised ChatGPT route with the outcome of its refresh, if it
    /// asked for one. `replies` answer the read that follows a possible credential change.
    pub fn finish_supervised_route(
        &mut self,
        attempt: RouteAttempt,
        refreshed: Option<Result<OpenAiAuth, RefreshCredentialsError>>,
        replies: &NameTable<SecretReply>,
        now_ms: u64,
        out: &mut Vec<Effect>,
    ) -> (res: Option<ResolvedConfig>)
        requires
            old(self).wf(),
        ensures
            final(self).wf(),
            attempt_config(attempt, &old(self).routes.codex, refreshed, now_ms, res),
            attempt_ended(old(self), final(self), attempt, replies@, old(out)@, final(out)@),
    {
        let model = match attempt.model {
            Some(model) => model,
            None => {
                return None;
            },
        };
        let mut profiles = attempt.profiles;
        let config = match attempt.start {
            RouteStart::Resolved(Some(PromptBackend::Responses(config))) => Some(config),
            RouteStart::Resolved(_) => None,
            RouteStart::Refresh { forced, .. } => finish_route(
                &model,
                &self.routes.codex,
                &mut profiles,
                match refreshed {
                    Some(refreshed) => refreshed,
                    None => Err(RefreshCredentialsError::Storage(StorageFailure::RpcUnavailable)),
                },
                forced,
                now_ms,
            ),
        };
        if attempt.observes_refresh {
            let observed = self.load_selected_profile(&model.provider, replies, out);
            assert(selected_loaded(
                old(self),
                self,
                model.provider@,
                replies@,
                &observed,
                old(out)@,
                out@,
            ));
        }
        config
    }
}

/// One prewarm request.
pub struct PrewarmRequest {
    pub agent_id: String,
    pub session_id: String,
    /// The selected model, if any.
    pub model: Option<ModelId>,
    /// Host handle of the request body.
    pub content: u64,
}

/// The effects of a changed profile: its workers stop and its connections are dropped.
pub open spec fn profile_changed_effects(provider: String, changed: bool) -> Seq<Effect> {
    if changed {
        seq![
            Effect::CancelPrewarms(PrewarmScope::Provider(provider)),
            Effect::InvalidateWebsockets(provider),
        ]
    } else {
        Seq::empty()
    }
}

fn emit_profile_changed(provider: &String, changed: bool, out: &mut Vec<Effect>)
    ensures
        final(out)@ == old(out)@ + profile_changed_effects(*provider, changed),
{
    if changed {
        out.push(Effect::CancelPrewarms(PrewarmScope::Provider(provider.clone())));
        out.push(Effect::InvalidateWebsockets(provider.clone()));
    }
    assert(out@ =~= old(out)@ + profile_changed_effects(*provider, changed));
}

/// What following a prewarm's route does to the route state.
pub open spec fn prewarm_followed(
    before: &Routes,
    after: &Routes,
    provider: Seq<char>,
    config: ResolvedConfig,
    identity: BackendProfileIdentity,
) -> bool {
    &&& after.identities.wf()
    &&& after.identities@ == known_routes(before.identities@, Some(config_key(config)))
    &&& names_route(after.identities@, identity, config_key(config))
    &&& after.provider_profile_identities@ == before.provider_profile_identities@.insert(
        provider,
        Some(identity),
    )
    &&& after.prewarm_profile_identities@ == before.prewarm_profile_identities@.insert(
        provider,
        identity,
    )
    &&& after.shared_cooldowns@ == before.shared_cooldowns@
    &&& *after == (Routes {
        identities: after.identities,
        provider_profile_identities: after.provider_profile_identities,
        prewarm_profile_identities: after.prewarm_profile_identities,
        shared_cooldowns: after.shared_cooldowns,
        ..*before
    })
}

/// The worker started for a prewarm.
pub open spec fn prewarm_worker(
    runtime: &ProviderRuntime,
    request: PrewarmRequest,
    provider: String,
    config: ResolvedConfig,
    refresh_id: Option<String>,
    deadline: Option<Moment>,
) -> Effect {
    Effect::StartPrewarm(
        PrewarmStart {
            key: PrewarmKey { provider, agent_id: request.agent_id, refresh_id },
            config,
            debug_provider_requests: debug_allowed(
                runtime.session_debug_allowed@,
                request.session_id@,
            ),
            content: request.content,
            deadline,
        },
    )
}

/// The last effects of a prewarm on a followed route: its worker starts where the supervisor admits
/// it, and a scheduled cache refresh that is refused fails.
pub open spec fn prewarm_admitted(
    runtime: &ProviderRuntime,
    request: PrewarmRequest,
    provider: String,
    config: ResolvedConfig,
    refresh_id: Option<String>,
    deadline: Option<Moment>,
) -> Seq<Effect> {
    let key = PrewarmKey { provider, agent_id: request.agent_id, refresh_id };
    if admits(runtime.prewarms@, runtime.prewarms.limit(), key.content()) {
        seq![prewarm_worker(runtime, request, provider, config, refresh_id, deadline)]
    } else {
        match refresh_id {
            Some(refresh_id) => seq![
                refresh_terminal(refresh_id, ProviderCacheRefreshStatus::Failed),
            ],
            None => Seq::empty(),
        }
    }
}

/// The workers that run after a prewarm with `key`.
pub open spec fn running_after(runtime: &ProviderRuntime, key: PrewarmKey) -> Seq<
    PrewarmKeyContent,
> {
    if admits(runtime.prewarms@, runtime.prewarms.limit(), key.content()) {
        runtime.prewarms@.push(key.content())
    } else {
        runtime.prewarms@
    }
}

/// What starting a prewarm on a resolved route does: the route is followed, and its worker starts
/// unless its key already runs or all workers are taken.
pub open spec fn prewarm_started(
    before: &ProviderRuntime,
    after: &ProviderRuntime,
    request: PrewarmRequest,
    provider: String,
    config: ResolvedConfig,
    refresh_id: Option<String>,
    deadline: Option<Moment>,
    effects_before: Seq<Effect>,
    effects_after: Seq<Effect>,
) -> bool {
    exists|identity: BackendProfileIdentity|
        {
            &&& #[trigger] prewarm_followed(
                &before.routes,
                &after.routes,
                provider@,
                config,
                identity,
            )
            &&& *after == (ProviderRuntime {
                routes: after.routes,
                prewarms: after.prewarms,
                ..*before
            })
            &&& after.prewarms.limit() == before.prewarms.limit()
            &&& after.prewarms@ == running_after(
                before,
                PrewarmKey { provider, agent_id: request.agent_id, refresh_id },
            )
            &&& effects_after == effects_before + profile_changed_effects(
                provider,
                identity_changed(
                    before.routes.provider_profile_identities@,
                    provider@,
                    Some(identity),
                ),
            ) + profile_changed_effects(
                provider,
                replaces(before.routes.prewarm_profile_identities@, provider@, identity),
            ) + prewarm_admitted(before, request, provider, config, refresh_id, deadline)
        }
}

/// One worker runs per key: a prewarm whose key already runs starts no worker and leaves the
/// running ones as they are. A scheduled cache refresh that is refused so gets one terminal, a
/// failed one.
pub proof fn running_prewarm_is_not_started_again(
    before: &ProviderRuntime,
    after: &ProviderRuntime,
    request: PrewarmRequest,
    provider: String,
    config: ResolvedConfig,
    refresh_id: Option<String>,
    deadline: Option<Moment>,
    effects_before: Seq<Effect>,
    effects_after: Seq<Effect>,
)
    requires
        prewarm_started(
            before,
            after,
            request,
            provider,
            config,
            refresh_id,
            deadline,
            effects_before,
            effects_after,
        ),
        before.prewarms@.contains(
            (PrewarmKey { provider, agent_id: request.agent_id, refresh_id }).content(),
        ),
    ensures
        after.prewarms@ == before.prewarms@,
        effects_before.is_prefix_of(effects_after),
        forall|i: int|
            effects_before.len() <= i < effects_after.len() ==> !(
            #[trigger] effects_after[i] is StartPrewarm),
        match refresh_id {
            Some(refresh_id) => {
                &&& effects_after.len() > effects_before.len()
                &&& effects_after.last() == refresh_terminal(
                    refresh_id,
                    ProviderCacheRefreshStatus::Failed,
                )
                &&& forall|i: int|
                    effects_before.len() <= i < effects_after.len() - 1 ==> !(
                    #[trigger] effects_after[i] is Report)
            },
            None => forall|i: int|
                effects_before.len() <= i < effects_after.len() ==> !(
                #[trigger] effects_after[i] is Report),
        },
{
    let identity = choose|identity: BackendProfileIdentity| #[trigger]
        prewarm_followed(&before.routes, &after.routes, provider@, config, identity)
            && effects_after == effects_before + profile_changed_effects(
            provider,
            identity_changed(
                before.routes.provider_profile_identities@,
                provider@,
                Some(identity),
            ),
        ) + profile_changed_effects(
            provider,
            replaces(before.routes.prewarm_profile_identities@, provider@, identity),
        ) + prewarm_admitted(before, request, provider, config, refresh_id, deadline);
}

/// What a prewarm request does once its route is resolved. Without a route the provider's prewarm
/// state is forgotten, and a provider under a cooldown is left alone.
pub open spec fn prewarm_requested(
    before: &ProviderRuntime,
    after: &ProviderRuntime,
    request: PrewarmRequest,
    config: Option<ResolvedConfig>,
    effects_before: Seq<Effect>,
    effects_after: Seq<Effect>,
) -> bool {
    match request.model {
        None => *after == *before && effects_after == effects_before,
        Some(model) => match config {
            None => {
                &&& after.routes.prewarm_profile_identities@
                    == before.routes.prewarm_profile_identities@.remove(model.provider@)
                &&& *after == (ProviderRuntime {
                    routes: (Routes {
                        prewarm_profile_identities: after.routes.prewarm_profile_identities,
                        ..before.routes
                    }),
                    ..*before
                })
                &&& effects_after == effects_before + profile_changed_effects(
                    model.provider,
                    before.routes.prewarm_profile_identities@.contains_key(model.provider@),
                )
            },
            Some(config) => if before.routes.shared_cooldowns@.contains_key(model.provider@) {
                *after == *before && effects_after == effects_before
            } else {
                prewarm_started(
                    before,
                    after,
                    request,
                    model.provider,
                    config,
                    None,
                    None,
                    effects_before,
                    effects_after,
                )
            },
        },
    }
}

/// The terminal of a scheduled cache refresh.
pub open spec fn refresh_terminal(
    refresh_id: String,
    status: ProviderCacheRefreshStatus,
) -> Effect {
    Effect::Report(Report::CacheRefreshFinished { refresh_id, status })
}

/// When a scheduled cache refresh is aborted.
pub open spec fn refresh_deadline(now: Moment, stop_after_millis: u32) -> Moment {
    now.plus_or_self(Span { nanos: (stop_after_millis * NANOS_PER_MILLI) as u128 })
}

/// What a scheduled cache refresh does once its route is resolved: it is unsupported without a
/// route, fails under a cooldown or where the supervisor refuses it, and otherwise starts with its
/// deadline.
pub open spec fn cache_refresh_requested(
    before: &ProviderRuntime,
    after: &ProviderRuntime,
    request: PrewarmRequest,
    refresh_id: String,
    stop_after_millis: u32,
    config: Option<ResolvedConfig>,
    now: Moment,
    effects_before: Seq<Effect>,
    effects_after: Seq<Effect>,
) -> bool {
    match (request.model, config) {
        (Some(model), Some(config)) => if before.routes.shared_cooldowns@.contains_key(
            model.provider@,
        ) {
            &&& *after == *before
            &&& effects_after == effects_before.push(
                refresh_terminal(refresh_id, ProviderCacheRefreshStatus::Failed),
            )
        } else {
            prewarm_started(
                before,
                after,
                request,
                model.provider,
                config,
                Some(refresh_id),
                Some(refresh_deadline(now, stop_after_millis)),
                effects_before,
                effects_after,
            )
        },
        _ => {
            &&& *after == *before
            &&& effects_after == effects_before.push(
                refresh_terminal(refresh_id, ProviderCacheRefreshStatus::Unsupported),
            )
        },
    }
}

/// Outcome of one finite transport prewarm.
#[derive(Clone, Copy, Debug, PartialEq, Eq, Structural)]
pub enum PrewarmOutcome {
    Installed,
    SkippedBusy,
    Retry,
    Canceled,
    Terminal,
}

/// The status that a prewarm outcome reports.
pub open spec fn outcome_status(outcome: PrewarmOutcome) -> ProviderCacheRefreshStatus {
    match outcome {
        PrewarmOutcome::Installed => ProviderCacheRefreshStatus::Succeeded,
        PrewarmOutcome::Canceled => ProviderCacheRefreshStatus::Cancelled,
        _ => ProviderCacheRefreshStatus::Failed,
    }
}

/// The status that a prewarm outcome reports.
pub fn prewarm_status(outcome: PrewarmOutcome) -> (res: ProviderCacheRefreshStatus)
    ensures
        res == outcome_status(outcome),
{
    match outcome {
        PrewarmOutcome::Installed => ProviderCacheRefreshStatus::Succeeded,
        PrewarmOutcome::SkippedBusy => ProviderCacheRefreshStatus::Failed,
        PrewarmOutcome::Retry => ProviderCacheRefreshStatus::Failed,
        PrewarmOutcome::Canceled => ProviderCacheRefreshStatus::Cancelled,
        PrewarmOutcome::Terminal => ProviderCacheRefreshStatus::Failed,
    }
}

/// The status of a scheduled cache refresh that ended at `now`: a passed deadline outranks it.
pub fn cache_refresh_status(
    status: ProviderCacheRefreshStatus,
    deadline: Moment,
    now: Moment,
) -> (res: ProviderCacheRefreshStatus)
    ensures
        res == if deadline.nanos <= now.nanos {
            ProviderCacheRefreshStatus::DeadlineExceeded
        } else {
            status
        },
{
    if deadline.nanos <= now.nanos {
        ProviderCacheRefreshStatus::DeadlineExceeded
    } else {
        status
    }
}

impl ProviderRuntime {
    /// Follows a prewarm's resolved route and starts its worker. Its provider has no cooldown.
    fn start_prewarm(
        &mut self,
        request: PrewarmRequest,
        provider: String,
        config: ResolvedConfig,
        refresh_id: Option<String>,
        deadline: Option<Moment>,
        out: &mut Vec<Effect>,
    )
        requires
            old(self).wf(),
            !old(self).routes.shared_cooldowns@.contains_key(provider@),
        ensures
            final(self).wf(),
            prewarm_started(
                old(self),
                final(self),
                request,
                provider,
                config,
                refresh_id,
                deadline,
                old(out)@,
                final(out)@,
            ),
    {
        let identity = self.routes.identities.inference_identity(&config);
        let (changed, _) = reconcile_inference_identity(
            &mut self.routes.provider_profile_identities,
            &mut self.routes.shared_cooldowns,
            &provider,
            Some(identity),
        );
        assert(self.routes.shared_cooldowns@ =~= old(self).routes.shared_cooldowns@);
        emit_profile_changed(&provider, changed, out);
        let replaced: bool = self.routes.reconcile_prewarm_profile(&provider, identity);
        emit_profile_changed(&provider, replaced, out);
        assert(prewarm_followed(
            &old(self).routes,
            &self.routes,
            provider@,
            config,
            identity,
        ));
        let debug_provider_requests: bool = debug_provider_requests_for(
            &request.session_id,
            &self.session_debug_allowed,
        );
        let ghost followed = out@;
        let key = PrewarmKey { provider, agent_id: request.agent_id, refresh_id };
        if self.prewarms.begin(key.clone()) {
            out.push(
                Effect::StartPrewarm(
                    PrewarmStart {
                        key,
                        config,
                        debug_provider_requests,
                        content: request.content,
                        deadline,
                    },
                ),
            );
        } else if let Some(refresh_id) = key.refresh_id {
            out.push(
                Effect::Report(
                    Report::CacheRefreshFinished {
                        refresh_id,
                        status: ProviderCacheRefreshStatus::Failed,
                    },
                ),
            );
        }
        assert(out@ =~= followed + prewarm_admitted(
            old(self),
            request,
            provider,
            config,
            refresh_id,
            deadline,
        ));
    }

    /// Starts a prompt prewarm on its resolved route.
    pub fn prewarm_backend(
        &mut self,
        request: PrewarmRequest,
        config: Option<ResolvedConfig>,
        out: &mut Vec<Effect>,
    )
        requires
            old(self).wf(),
        ensures
            final(self).wf(),
            prewarm_requested(
                old(self),
                final(self),
                request,
                config,
                old(out)@,
                final(out)@,
            ),
    {
        let provider = match &request.model {
            Some(model) => model.provider.clone(),
            None => {
                return ;
            },
        };
        match config {
            None => {
                let forgotten: bool = self.routes.clear_prewarm_profile(&provider);
                emit_profile_changed(&provider, forgotten, out);
            },
            Some(config) => {
                if self.routes.shared_cooldowns.contains_key(provider.as_str()) {
                    return ;
                }
                self.start_prewarm(request, provider, config, None, None, out);
            },
        }
    }

    /// Starts a scheduled cache refresh on its resolved route.
    pub fn cache_refresh_backend(
        &mut self,
        request: PrewarmRequest,
        refresh_id: String,
        stop_after_millis: u32,
        config: Option<ResolvedConfig>,
        now: Moment,
        out: &mut Vec<Effect>,
    )
        requires
            old(self).wf(),
        ensures
            final(self).wf(),
            cache_refresh_requested(
                old(self),
                final(self),
                request,
                refresh_id,
                stop_after_millis,
                config,
                now,
                old(out)@,
                final(out)@,
            ),
    {
        let provider = match &request.model {
            Some(model) => Some(model.provider.clone()),
            None => None,
        };
        match (provider, config) {
            (Some(provider), Some(config)) => {
                if self.routes.shared_cooldowns.contains_key(provider.as_str()) {
                    out.push(
                        Effect::Report(
                            Report::CacheRefreshFinished {
                                refresh_id,
                                status: ProviderCacheRefreshStatus::Failed,
                            },
                        ),
                    );
                    return ;
                }
                let deadline: Moment = now.add_or_self(
                    Span::from_millis(stop_after_millis as u64),
                );
                self.start_prewarm(
                    request,
                    provider,
                    config,
                    Some(refresh_id),
                    Some(deadline),
                    out,
                );
            },
            _ => {
                out.push(
                    Effect::Report(
                        Report::CacheRefreshFinished {
                            refresh_id,
                            status: ProviderCacheRefreshStatus::Unsupported,
                        },
                    ),
                );
            },
        }
    }
}

/// A worker that is admitted runs exactly what was asked: under its provider, agent and refresh id,
/// on the resolved route, with the request's body and deadline, and it occupies its key from then
/// on. One that is not admitted runs nothing, and a scheduled refresh learns that it failed.
pub proof fn admitted_prewarm_runs_what_was_asked(
    before: &ProviderRuntime,
    after: &ProviderRuntime,
    request: PrewarmRequest,
    provider: String,
    config: ResolvedConfig,
    refresh_id: Option<String>,
    deadline: Option<Moment>,
    effects_before: Seq<Effect>,
    effects_after: Seq<Effect>,
)
    requires
        prewarm_started(
            before,
            after,
            request,
            provider,
            config,
            refresh_id,
            deadline,
            effects_before,
            effects_after,
        ),
    ensures
        ({
            let key = PrewarmKeyContent {
                provider: provider@,
                agent_id: request.agent_id@,
                refresh_id: optional_text(refresh_id),
            };
            let admitted = !before.prewarms@.contains(key) && before.prewarms@.len()
                < before.prewarms.limit();
            &&& admitted ==> {
                &&& effects_after.len() > effects_before.len()
                &&& effects_after.last() matches Effect::StartPrewarm(start)
                &&& start.key.provider == provider
                &&& start.key.agent_id == request.agent_id
                &&& start.key.refresh_id == refresh_id
                &&& start.config == config
                &&& start.content == request.content
                &&& start.deadline == deadline
                &&& start.debug_provider_requests ==> before.session_debug_allowed@.contains_key(
                    request.session_id@,
                )
                &&& after.prewarms@.len() == before.prewarms@.len() + 1
                &&& after.prewarms@.last() == key
            }
            &&& !admitted ==> after.prewarms@ == before.prewarms@ && (refresh_id matches Some(id)
                ==> effects_after.len() > effects_before.len() && effects_after.last()
                == Effect::Report(
                Report::CacheRefreshFinished {
                    refresh_id: id,
                    status: ProviderCacheRefreshStatus::Failed,
                },
            ))
            &&& after.prewarms.limit() == before.prewarms.limit()
        }),
        after.routes.shared_cooldowns@ == before.routes.shared_cooldowns@,
        after.routes.quota == before.routes.quota,
        after.prompt_queue == before.prompt_queue,
        after.active_prompts == before.active_prompts,
{
}

/// A prewarm is worth nothing without a model or while the provider must not be contacted: nothing
/// starts then. Without a route the provider's prewarm state is dropped.
pub proof fn prewarm_needs_an_open_route(
    before: &ProviderRuntime,
    after: &ProviderRuntime,
    request: PrewarmRequest,
    config: Option<ResolvedConfig>,
    effects_before: Seq<Effect>,
    effects_after: Seq<Effect>,
)
    requires
        prewarm_requested(before, after, request, config, effects_before, effects_after),
    ensures
        request.model is None ==> *after == *before && effects_after == effects_before,
        request.model matches Some(model) ==> {
            &&& config is Some && before.routes.shared_cooldowns@.contains_key(model.provider@)
                ==> *after == *before && effects_after == effects_before
            &&& config is None ==> {
                let known = before.routes.prewarm_profile_identities@.contains_key(
                    model.provider@,
                );
                &&& !after.routes.prewarm_profile_identities@.contains_key(model.provider@)
                &&& after.prewarms == before.prewarms
                &&& known ==> effects_after == effects_before.push(
                    Effect::CancelPrewarms(PrewarmScope::Provider(model.provider)),
                ).push(Effect::InvalidateWebsockets(model.provider))
                &&& !known ==> effects_after == effects_before
            }
        },
{
    if let Some(model) = request.model {
        if config is None && before.routes.prewarm_profile_identities@.contains_key(
            model.provider@,
        ) {
            assert(effects_after =~= effects_before.push(
                Effect::CancelPrewarms(PrewarmScope::Provider(model.provider)),
            ).push(Effect::InvalidateWebsockets(model.provider)));
        }
    }
}

/// Every scheduled refresh is answered or under way: without a route it is unsupported, behind a
/// boundary it failed, and otherwise its worker starts with the deadline that it was given.
pub proof fn scheduled_refresh_is_answered(
    before: &ProviderRuntime,
    after: &ProviderRuntime,
    request: PrewarmRequest,
    refresh_id: String,
    stop_after_millis: u32,
    config: Option<ResolvedConfig>,
    now: Moment,
    effects_before: Seq<Effect>,
    effects_after: Seq<Effect>,
)
    requires
        cache_refresh_requested(
            before,
            after,
            request,
            refresh_id,
            stop_after_millis,
            config,
            now,
            effects_before,
            effects_after,
        ),
    ensures
        effects_after.len() > effects_before.len(),
        effects_after.last() matches Effect::Report(report) ==> (
        report matches Report::CacheRefreshFinished { refresh_id: answered, status } && answered
            == refresh_id && (status == ProviderCacheRefreshStatus::Failed || status
            == ProviderCacheRefreshStatus::Unsupported)),
        effects_after.last() is Report || effects_after.last() is StartPrewarm,
        request.model is None || config is None ==> *after == *before && effects_after
            == effects_before.push(
            Effect::Report(
                Report::CacheRefreshFinished {
                    refresh_id,
                    status: ProviderCacheRefreshStatus::Unsupported,
                },
            ),
        ),
        config is Some ==> (request.model matches Some(model)
            ==> (before.routes.shared_cooldowns@.contains_key(model.provider@) ==> *after == *before
            && effects_after == effects_before.push(
            Effect::Report(
                Report::CacheRefreshFinished {
                    refresh_id,
                    status: ProviderCacheRefreshStatus::Failed,
                },
            ),
        ))),
        effects_after.last() matches Effect::StartPrewarm(start) ==> {
            &&& start.key.refresh_id == Some(refresh_id)
            &&& start.key.agent_id == request.agent_id
            &&& Some(start.config) == config
            &&& start.content == request.content
            &&& now.nanos + stop_after_millis * 1_000_000
                <= 9_223_372_036_854_775_807_999_999_999 ==> (start.deadline matches Some(deadline)
                && deadline.nanos == now.nanos + stop_after_millis * 1_000_000)
        },
{
    if let (Some(model), Some(config)) = (request.model, config) {
        if !before.routes.shared_cooldowns@.contains_key(model.provider@) {
            admitted_prewarm_runs_what_was_asked(
                before,
                after,
                request,
                model.provider,
                config,
                Some(refresh_id),
                Some(refresh_deadline(now, stop_after_millis)),
                effects_before,
                effects_after,
            );
        }
    }
}

/// Only an installed prewarm refreshed the cache, and only a canceled one was canceled.
pub proof fn refresh_status_follows_the_outcome(outcome: PrewarmOutcome)
    ensures
        outcome_status(outcome) == ProviderCacheRefreshStatus::Succeeded
            <==> outcome == PrewarmOutcome::Installed,
        outcome_status(outcome) == ProviderCacheRefreshStatus::Cancelled
            <==> outcome == PrewarmOutcome::Canceled,
        outcome == PrewarmOutcome::SkippedBusy || outcome == PrewarmOutcome::Retry || outcome
            == PrewarmOutcome::Terminal ==> outcome_status(outcome)
            == ProviderCacheRefreshStatus::Failed,
{
}

/// A changed profile ends what was built on the old one: its prewarms and its connections.
pub proof fn changed_profile_drops_its_connections(provider: String)
    ensures
        profile_changed_effects(provider, true).len() == 2,
        profile_changed_effects(provider, true)[0] == Effect::CancelPrewarms(
            PrewarmScope::Provider(provider),
        ),
        profile_changed_effects(provider, true)[1] == Effect::InvalidateWebsockets(provider),
        profile_changed_effects(provider, false).len() == 0,
{
}

/// Settings are accepted once: the first ones are kept with the modes that they were started with,
/// and anything that comes later changes nothing.
pub proof fn settings_are_accepted_once(
    before: &ProviderRuntime,
    after: &ProviderRuntime,
    settings: BuiltinProviderProfiles,
    replies: Map<Seq<char>, SecretReply>,
    effects_before: Seq<Effect>,
    effects_after: Seq<Effect>,
    name: Seq<char>,
)
    requires
        settings_accepted(before, after, settings, replies, effects_before, effects_after),
    ensures
        before.configured ==> *after == *before && effects_after == effects_before,
        !before.configured ==> {
            &&& after.configured
            &&& after.settings == settings
            &&& settings.profiles().contains_key(name) ==> (
            settings.profiles()[name] matches ProfileContent::Chatgpt { lite_compatibility, .. }
                ==> after.startup_modes@.contains_key(name) && after.startup_modes@[name]
                == lite_compatibility)
            &&& before.secret_rpc ==> effects_after.len() == effects_before.len() + 1
                && effects_after.last() is Publication
            &&& !before.secret_rpc ==> effects_after == effects_before
        },
{
}

/// Loading hydrates each profile from its own reply, publishes what came of it, and retains the
/// first such snapshot for the initial quota pass and no later one.
pub proof fn loading_publishes_what_it_found(
    before: &ProviderRuntime,
    after: &ProviderRuntime,
    replies: Map<Seq<char>, SecretReply>,
    profiles: &BuiltinProviderProfiles,
    effects_before: Seq<Effect>,
    effects_after: Seq<Effect>,
    name: Seq<char>,
)
    requires
        all_loaded(before, after, replies, profiles, effects_before, effects_after),
    ensures
        profiles.profiles().contains_key(name) ==> before.settings.profiles().contains_key(name),
        before.settings.profiles().contains_key(name) && before.settings.credential_map().contains_key(
            name,
        ) ==> {
            &&& before.settings.credential_map()[name] is Keyless
                ==> profiles.profiles().contains_key(name)
            &&& before.secret_rpc ==> (
            before.settings.credential_map()[name] matches ProviderCredential::Stored(reference)
                ==> (!replies.contains_key(reference.path@) ==> !profiles.profiles().contains_key(
                name,
            )))
        },
        before.secret_rpc && before.initial_quota_started ==> after.startup_quota_profiles
            == before.startup_quota_profiles,
        before.secret_rpc && !before.initial_quota_started ==> (
        after.startup_quota_profiles matches Some(retained) && retained.profiles()
            == profiles.profiles()),
        before.secret_rpc ==> after.routes.declared_models is Some,
        !before.secret_rpc ==> *after == *before && effects_after == effects_before,
        after.prompt_queue == before.prompt_queue,
        after.admission == before.admission,
{
    if before.secret_rpc {
        let pinned = pinned_modes(before.settings.profiles(), before.startup_modes@);
        let (observations, publication) = choose|
            observations: NameTable<CredentialObservation>,
            publication: PublicationEffects,
        |
            {
                &&& observes(observations, pinned, &before.settings, replies)
                &&& #[trigger] published(
                    &before.routes,
                    &after.routes,
                    models_of(profiles.profiles(), profiles.names(), &before.routes.catalog),
                    observations,
                    publication,
                )
                &&& effects_after == effects_before.push(Effect::Publication(publication))
            };
        declaration_is_complete(
            &before.routes,
            &after.routes,
            models_of(profiles.profiles(), profiles.names(), &before.routes.catalog),
            observations,
            publication,
            0,
        );
    }
}

/// A supervised route is what its resolution came to: a resolved ChatGPT route as it is, nothing
/// for any other, and after a refresh the refreshed one; without a refresh the storage counts as
/// unreachable.
pub proof fn supervised_route_is_the_resolved_one(
    attempt: RouteAttempt,
    codex: &CodexRoutes,
    refreshed: Option<Result<OpenAiAuth, RefreshCredentialsError>>,
    now_ms: u64,
    config: Option<ResolvedConfig>,
)
    requires
        attempt_config(attempt, codex, refreshed, now_ms, config),
    ensures
        attempt.model is None ==> config is None,
        attempt.model is Some ==> (attempt.start matches RouteStart::Resolved(backend) ==> (
        match backend {
            Some(PromptBackend::Responses(resolved)) => config == Some(resolved),
            _ => config is None,
        })),
        attempt.model matches Some(model) ==> (attempt.start is Refresh ==> (config matches Some(
            resolved,
        ) ==> resolved.model == model && (refreshed matches Some(Ok(fresh))
            ==> resolved.access_token@ == fresh.access_token@))),
        attempt.start matches RouteStart::Refresh { forced, .. } ==> (forced && (refreshed is None
            || refreshed->0 is Err) ==> config is None),
{
    if let (Some(model), RouteStart::Refresh { forced, .. }) = (attempt.model, attempt.start) {
        let outcome = match refreshed {
            Some(refreshed) => refreshed,
            None => Err(RefreshCredentialsError::Storage(StorageFailure::RpcUnavailable)),
        };
        if let Err(error) = outcome {
            if let Some(ProfileContent::Chatgpt { auth, .. }) = lookup(
                attempt.profiles.profiles(),
                model.provider@,
            ) {
                failed_recovery_is_unusable(auth, error, now_ms);
            }
        }
    }
}

/// Loading one profile changes only the routes, tells only what it published, and loads no other
/// provider; without secret storage it changes nothing.
pub proof fn selected_loading_is_contained(
    before: &ProviderRuntime,
    after: &ProviderRuntime,
    provider: Seq<char>,
    replies: Map<Seq<char>, SecretReply>,
    profiles: &BuiltinProviderProfiles,
    effects_before: Seq<Effect>,
    effects_after: Seq<Effect>,
    name: Seq<char>,
)
    requires
        selected_loaded(
            before,
            after,
            provider,
            replies,
            profiles,
            effects_before,
            effects_after,
        ),
    ensures
        *after == (ProviderRuntime { routes: after.routes, ..*before }),
        profiles.profiles().contains_key(name) ==> name == provider
            && before.settings.profiles().contains_key(name),
        before.secret_rpc ==> {
            &&& effects_after.len() == effects_before.len() + 1
            &&& effects_after.drop_last() == effects_before
            &&& effects_after.last() is Publication
        },
        !before.secret_rpc ==> *after == *before && effects_after == effects_before,
{
    if before.secret_rpc {
        let (settings, observations, publication) = choose|
            settings: BuiltinProviderProfiles,
            observations: NameTable<CredentialObservation>,
            publication: PublicationEffects,
        |
            {
                &&& #[trigger] before.loads(provider, &settings)
                &&& hydrates(profiles, settings.profiles(), &settings, replies)
                &&& observes(observations, settings.profiles(), &settings, replies)
                &&& #[trigger] selected_published(
                    &before.routes,
                    &after.routes,
                    provider,
                    profiles,
                    observations,
                    publication,
                )
                &&& effects_after == effects_before.push(Effect::Publication(publication))
                &&& *after == (ProviderRuntime { routes: after.routes, ..*before })
            };
        assert(effects_after.drop_last() == effects_before);
        assert(profiles.profiles().contains_key(name) ==> settings.profiles().contains_key(name));
    }
}

/// A supervised attempt resolves the model that was asked for, from that model's own provider, and
/// ends without reading anything again unless its credential is a stored login.
pub proof fn attempt_is_for_the_asked_model(
    before: &ProviderRuntime,
    after: &ProviderRuntime,
    model: ModelId,
    replies: Map<Seq<char>, SecretReply>,
    claims: &JwtClaims,
    now_ms: u64,
    effects_before: Seq<Effect>,
    effects_after: Seq<Effect>,
    attempt: RouteAttempt,
    name: Seq<char>,
)
    requires
        attempt_begun(
            before,
            after,
            model,
            replies,
            claims,
            now_ms,
            effects_before,
            effects_after,
            attempt,
        ),
    ensures
        attempt.model == Some(model),
        attempt.profiles.profiles().contains_key(name) ==> name == model.provider@,
        attempt.observes_refresh <==> attempt.profiles.credential_map().contains_key(
            model.provider@,
        ) && (attempt.profiles.credential_map()[model.provider@] matches ProviderCredential::Stored(
            reference,
        ) && reference.slot == ProviderCredentialSlot::OAuth),
        !(attempt.profiles.profiles().contains_key(model.provider@)
            && attempt.profiles.profiles()[model.provider@] is Chatgpt) ==> attempt.start
            == RouteStart::Resolved(None),
        *after == (ProviderRuntime { routes: after.routes, ..*before }),
        effects_before.len() <= effects_after.len(),
        effects_after.take(effects_before.len() as int) == effects_before,
{
    let loaded = choose|loaded: ProviderRuntime|
        {
            &&& #[trigger] selected_loaded(
                before,
                &loaded,
                model.provider@,
                replies,
                &attempt.profiles,
                effects_before,
                effects_after,
            )
            &&& responses_route_begun(
                &loaded.routes,
                &after.routes,
                model,
                &attempt.profiles,
                claims,
                now_ms,
                attempt.start,
            )
            &&& *after == (ProviderRuntime { routes: after.routes, ..loaded })
            &&& attempt.model == Some(model)
            &&& attempt.observes_refresh == (attempt.profiles.oauth_path(
                model.provider@,
            ) is Some)
        };
    selected_loading_is_contained(
        before,
        &loaded,
        model.provider@,
        replies,
        &attempt.profiles,
        effects_before,
        effects_after,
        name,
    );
    if before.secret_rpc {
        assert(effects_after.take(effects_before.len() as int) == effects_after.drop_last());
    } else {
        assert(effects_after.take(effects_before.len() as int) == effects_before);
    }
}

/// An attempt that could not have replaced a stored credential ends without a trace; any other
/// ends with a change of the routes alone.
pub proof fn ended_attempt_changes_only_routes(
    before: &ProviderRuntime,
    after: &ProviderRuntime,
    attempt: RouteAttempt,
    replies: Map<Seq<char>, SecretReply>,
    effects_before: Seq<Effect>,
    effects_after: Seq<Effect>,
)
    requires
        attempt_ended(before, after, attempt, replies, effects_before, effects_after),
    ensures
        attempt.model is None || !attempt.observes_refresh || !before.secret_rpc ==> *after
            == *before && effects_after == effects_before,
        attempt.model is Some && attempt.observes_refresh && before.secret_rpc ==> {
            &&& *after == (ProviderRuntime { routes: after.routes, ..*before })
            &&& effects_after.len() == effects_before.len() + 1
            &&& effects_after.last() is Publication
        },
{
    if let Some(model) = attempt.model {
        if attempt.observes_refresh {
            let profiles = choose|profiles: BuiltinProviderProfiles| #[trigger]
                selected_loaded(
                    before,
                    after,
                    model.provider@,
                    replies,
                    &profiles,
                    effects_before,
                    effects_after,
                );
            selected_loading_is_contained(
                before,
                after,
                model.provider@,
                replies,
                &profiles,
                effects_before,
                effects_after,
                model.provider@,
            );
        }
    }
}

} // verus!
