//! Route resolution that may need a credential refresh.

use vstd::prelude::*;

use crate::credentials::{
    auth_key, begin_chatgpt_resolution, failed_recovery_is_unusable, finish_chatgpt_resolution,
    is_config, resolution_start, settled_auth, ResolutionStart,
};
use crate::oauth::{
    recoverable, spent, usable, AuthContent, JwtClaims, OpenAiAuth, RefreshCredentialsError,
    StorageFailure,
};
use crate::profiles::{
    resolve_prompt_backend_without_refresh, resolves_to, with_auth, BuiltinProviderProfile,
    BuiltinProviderProfiles, ProfileContent,
};
use crate::prompt::{
    backend_key, known_routes, names_route, BackendProfileIdentity, CodexRoutes, ModelId,
    PromptBackend, ResolvedConfig,
};
use crate::retry::lookup;
use crate::routes::{identifies, route_observed, Now, RouteEffects, Routes};
use crate::text::{blank, optional_text};

verus! {

/// How the resolution of a route begins.
pub enum RouteStart {
    /// The route is decided: its backend, or `None` when it has none.
    Resolved(Option<PromptBackend>),
    /// The credential at `path` must be refreshed first.
    Refresh { path: String, forced: bool },
}

/// Nothing but the identities and the remembered rejections differ.
pub open spec fn same_but_evidence(after: &Routes, before: &Routes) -> bool {
    *after == (Routes {
        identities: after.identities,
        rejections: after.rejections,
        ..*before
    })
}

/// What beginning the resolution of one route does. Recovery authority for exactly the profile's
/// credentials is consumed here.
pub open spec fn route_begun(
    before: &Routes,
    after: &Routes,
    model: ModelId,
    profiles: &BuiltinProviderProfiles,
    claims: &JwtClaims,
    now_ms: u64,
    start: RouteStart,
) -> bool {
    let provider = model.provider@;
    let profile = lookup(profiles.profiles(), provider);
    &&& same_but_evidence(after, before)
    &&& after.identities.wf()
    &&& match profile {
        Some(ProfileContent::Chatgpt { auth, lite_compatibility }) => match profiles.oauth_path(
            provider,
        ) {
            None => start == RouteStart::Resolved(None) && *after == *before,
            Some(path) => exists|identity: BackendProfileIdentity|
                {
                    let begun = resolution_start(
                        auth,
                        before.rejections.unauthorized_of(provider),
                        identity.hash,
                        before.rejections.rejections().contains_key(provider),
                        claims,
                        now_ms,
                    );
                    &&& #[trigger] names_route(
                        after.identities@,
                        identity,
                        auth_key(model, &before.codex, auth, lite_compatibility),
                    )
                    &&& after.identities@ == known_routes(
                        before.identities@,
                        Some(auth_key(model, &before.codex, auth, lite_compatibility)),
                    )
                    &&& after.rejections.rejections() == before.rejections.rejections()
                    &&& after.rejections.unauthorized_map() == if begun
                        == (ResolutionStart::Refresh { forced: true }) {
                        before.rejections.unauthorized_map().insert(
                            provider,
                            spent(before.rejections.unauthorized_of(provider), identity.hash),
                        )
                    } else {
                        before.rejections.unauthorized_map()
                    }
                    &&& match begun {
                        ResolutionStart::Exhausted => start == RouteStart::Resolved(None),
                        ResolutionStart::Refresh { forced } => match start {
                            RouteStart::Refresh { path: at, forced: recovering } => at@ == path@
                                && recovering == forced,
                            RouteStart::Resolved(_) => false,
                        },
                        ResolutionStart::Direct => match start {
                            RouteStart::Resolved(backend) => resolves_to(
                                model,
                                &before.codex,
                                profile,
                                now_ms,
                                backend,
                            ),
                            RouteStart::Refresh { .. } => false,
                        },
                    }
                },
        },
        _ => {
            &&& after.identities == before.identities
            &&& after.rejections.unauthorized_map() == before.rejections.unauthorized_map()
            &&& after.rejections.rejections() == before.rejections.rejections().remove(provider)
            &&& match start {
                RouteStart::Resolved(backend) => resolves_to(
                    model,
                    &before.codex,
                    profile,
                    now_ms,
                    backend,
                ),
                RouteStart::Refresh { .. } => false,
            }
        },
    }
}

/// What beginning the resolution of one ChatGPT route does; any other profile has none and
/// forgets a remembered rejection.
pub open spec fn responses_route_begun(
    before: &Routes,
    after: &Routes,
    model: ModelId,
    profiles: &BuiltinProviderProfiles,
    claims: &JwtClaims,
    now_ms: u64,
    start: RouteStart,
) -> bool {
    match lookup(profiles.profiles(), model.provider@) {
        Some(ProfileContent::Chatgpt { .. }) => route_begun(
            before,
            after,
            model,
            profiles,
            claims,
            now_ms,
            start,
        ),
        _ => {
            &&& start == RouteStart::Resolved(None)
            &&& after.rejections.unauthorized_map() == before.rejections.unauthorized_map()
            &&& after.rejections.rejections() == before.rejections.rejections().remove(
                model.provider@,
            )
            &&& *after == (Routes { rejections: after.rejections, ..*before })
        },
    }
}

/// The ChatGPT route that a refresh attempt leaves; `None` when no credential is usable.
pub open spec fn route_refreshed(
    model: ModelId,
    codex: &CodexRoutes,
    profiles: Map<Seq<char>, ProfileContent>,
    refreshed: Result<OpenAiAuth, RefreshCredentialsError>,
    forced: bool,
    now_ms: u64,
    config: Option<ResolvedConfig>,
) -> bool {
    match lookup(profiles, model.provider@) {
        Some(ProfileContent::Chatgpt { auth, lite_compatibility }) => {
            let settled = settled_auth(auth, Some(refreshed), forced);
            match config {
                Some(config) => usable(settled, now_ms) && is_config(
                    config,
                    model,
                    codex,
                    settled,
                    lite_compatibility,
                ),
                None => !usable(settled, now_ms),
            }
        },
        _ => config is None,
    }
}

/// The profiles that a refresh attempt leaves.
pub open spec fn refreshed_profiles(
    profiles: Map<Seq<char>, ProfileContent>,
    provider: Seq<char>,
    refreshed: Result<OpenAiAuth, RefreshCredentialsError>,
    forced: bool,
) -> Map<Seq<char>, ProfileContent> {
    match lookup(profiles, provider) {
        Some(ProfileContent::Chatgpt { auth, .. }) => with_auth(
            profiles,
            provider,
            settled_auth(auth, Some(refreshed), forced),
        ),
        _ => profiles,
    }
}

/// Ends the resolution of a ChatGPT route with the outcome of its refresh. The profile keeps what
/// the refresh left.
pub fn finish_route(
    model: &ModelId,
    codex: &CodexRoutes,
    profiles: &mut BuiltinProviderProfiles,
    refreshed: Result<OpenAiAuth, RefreshCredentialsError>,
    forced: bool,
    now_ms: u64,
) -> (res: Option<ResolvedConfig>)
    ensures
        route_refreshed(
            *model,
            codex,
            old(profiles).profiles(),
            refreshed,
            forced,
            now_ms,
            res,
        ),
        final(profiles).profiles() == refreshed_profiles(
            old(profiles).profiles(),
            model.provider@,
            refreshed,
            forced,
        ),
        final(profiles).credential_map() == old(profiles).credential_map(),
        final(profiles).missing() == old(profiles).missing(),
{
    let (mut auth, lite_compatibility) = match profiles.get(model.provider.as_str()) {
        Some(BuiltinProviderProfile::Chatgpt(profile)) => (
            profile.auth.clone(),
            profile.responses_lite_compatibility,
        ),
        _ => {
            return None;
        },
    };
    let config = finish_chatgpt_resolution(
        model,
        codex,
        &mut auth,
        lite_compatibility,
        Some(refreshed),
        forced,
        now_ms,
    );
    profiles.set_auth(model.provider.as_str(), auth);
    config
}

/// What a runtime without secret storage resolves a route to: a refresh cannot happen there.
pub open spec fn resolved_without_storage(
    model: ModelId,
    codex: &CodexRoutes,
    profiles: &BuiltinProviderProfiles,
    now_ms: u64,
    start: RouteStart,
    backend: Option<PromptBackend>,
) -> bool {
    match start {
        RouteStart::Resolved(resolved) => backend == resolved,
        RouteStart::Refresh { forced, .. } => exists|config: Option<ResolvedConfig>|
            {
                &&& #[trigger] route_refreshed(
                    model,
                    codex,
                    profiles.profiles(),
                    Err(RefreshCredentialsError::Storage(StorageFailure::RpcUnavailable)),
                    forced,
                    now_ms,
                    config,
                )
                &&& backend == match config {
                    Some(config) => Some(PromptBackend::Responses(config)),
                    None => None,
                }
            },
    }
}

/// The backend handed to a job: what the route resolved to, or unavailable.
pub open spec fn reached_backend(
    model: ModelId,
    profiles: &BuiltinProviderProfiles,
    resolved: Option<PromptBackend>,
) -> PromptBackend {
    match resolved {
        Some(backend) => backend,
        None => PromptBackend::Unavailable {
            login_required: if profiles.missing().contains(model.provider@) {
                Some(model.provider)
            } else {
                None
            },
        },
    }
}

/// What resolving and observing a route does in a runtime without secret storage.
pub open spec fn route_resolved_offline(
    before: &Routes,
    after: &Routes,
    model: ModelId,
    profiles: &BuiltinProviderProfiles,
    claims: &JwtClaims,
    now: Now,
    backend: PromptBackend,
    identity: Option<BackendProfileIdentity>,
    effects: RouteEffects,
) -> bool {
    exists|begun: Routes, start: RouteStart, resolved: Option<PromptBackend>|
        {
            &&& #[trigger] route_begun(
                before,
                &begun,
                model,
                profiles,
                claims,
                now.unix_ms,
                start,
            )
            &&& #[trigger] resolved_without_storage(
                model,
                &before.codex,
                profiles,
                now.unix_ms,
                start,
                resolved,
            )
            &&& backend == reached_backend(model, profiles, resolved)
            &&& route_followed(
                &begun,
                after,
                model.provider,
                profiles,
                now,
                backend,
                identity,
                effects,
            )
        }
}

/// What observing a resolved backend does: its identity is looked up, and the route state follows.
pub open spec fn route_followed(
    before: &Routes,
    after: &Routes,
    provider: String,
    profiles: &BuiltinProviderProfiles,
    now: Now,
    backend: PromptBackend,
    identity: Option<BackendProfileIdentity>,
    effects: RouteEffects,
) -> bool {
    &&& after.identities.wf()
    &&& after.identities@ == known_routes(before.identities@, backend_key(backend))
    &&& identifies(after.identities@, identity, backend)
    &&& after.catalog == before.catalog
    &&& after.codex == before.codex
    &&& after.rejections == before.rejections
    &&& route_observed(before, after, provider, profiles, now, backend, identity, effects)
}

impl Routes {
    /// Begins the resolution of one route.
    pub fn begin_route(
        &mut self,
        model: &ModelId,
        profiles: &BuiltinProviderProfiles,
        claims: &JwtClaims,
        now_ms: u64,
    ) -> (res: RouteStart)
        requires
            old(self).identities.wf(),
        ensures
            route_begun(old(self), final(self), *model, profiles, claims, now_ms, res),
    {
        let profile = match profiles.get(model.provider.as_str()) {
            Some(BuiltinProviderProfile::Chatgpt(profile)) => profile,
            _ => {
                return RouteStart::Resolved(
                    resolve_prompt_backend_without_refresh(
                        model,
                        &self.codex,
                        profiles,
                        &mut self.rejections,
                        now_ms,
                    ),
                );
            },
        };
        let path = match profiles.chatgpt_credential_reference(model.provider.as_str()) {
            Some(path) => path,
            None => {
                return RouteStart::Resolved(None);
            },
        };
        let (start, identity) = begin_chatgpt_resolution(
            model,
            &self.codex,
            &profile.auth,
            profile.responses_lite_compatibility,
            &mut self.rejections,
            &mut self.identities,
            claims,
            now_ms,
        );
        assert(names_route(
            self.identities@,
            identity,
            auth_key(
                *model,
                &self.codex,
                profile.auth.content(),
                profile.responses_lite_compatibility,
            ),
        ));
        match start {
            ResolutionStart::Exhausted => RouteStart::Resolved(None),
            ResolutionStart::Refresh { forced } => RouteStart::Refresh { path, forced },
            ResolutionStart::Direct => {
                let mut auth = profile.auth.clone();
                match finish_chatgpt_resolution(
                    model,
                    &self.codex,
                    &mut auth,
                    profile.responses_lite_compatibility,
                    None,
                    false,
                    now_ms,
                ) {
                    Some(config) => RouteStart::Resolved(Some(PromptBackend::Responses(config))),
                    None => RouteStart::Resolved(None),
                }
            },
        }
    }

    /// Begins the resolution of one ChatGPT route; any other profile has none.
    pub fn begin_responses_route(
        &mut self,
        model: &ModelId,
        profiles: &BuiltinProviderProfiles,
        claims: &JwtClaims,
        now_ms: u64,
    ) -> (res: RouteStart)
        requires
            old(self).identities.wf(),
        ensures
            responses_route_begun(old(self), final(self), *model, profiles, claims, now_ms, res),
    {
        match profiles.get(model.provider.as_str()) {
            Some(BuiltinProviderProfile::Chatgpt(_)) => self.begin_route(
                model,
                profiles,
                claims,
                now_ms,
            ),
            _ => {
                self.rejections.clear(&model.provider);
                RouteStart::Resolved(None)
            },
        }
    }

    /// Resolves and observes one route in a runtime without secret storage.
    pub fn resolve_backend_with_quota(
        &mut self,
        model: &ModelId,
        profiles: &BuiltinProviderProfiles,
        claims: &JwtClaims,
        now: Now,
    ) -> (res: (PromptBackend, Option<BackendProfileIdentity>, RouteEffects))
        requires
            old(self).identities.wf(),
        ensures
            route_resolved_offline(
                old(self),
                final(self),
                *model,
                profiles,
                claims,
                now,
                res.0,
                res.1,
                res.2,
            ),
    {
        let start = self.begin_route(model, profiles, claims, now.unix_ms);
        let ghost begun = *self;
        let ghost began = start;
        assert(route_begun(old(self), &begun, *model, profiles, claims, now.unix_ms, began));
        let resolved = match start {
            RouteStart::Resolved(resolved) => resolved,
            RouteStart::Refresh { forced, .. } => {
                let mut settled = profiles.duplicate();
                match finish_route(
                    model,
                    &self.codex,
                    &mut settled,
                    Err(RefreshCredentialsError::Storage(StorageFailure::RpcUnavailable)),
                    forced,
                    now.unix_ms,
                ) {
                    Some(config) => Some(PromptBackend::Responses(config)),
                    None => None,
                }
            },
        };
        assert(resolved_without_storage(
            *model,
            &old(self).codex,
            profiles,
            now.unix_ms,
            began,
            resolved,
        ));
        assert(resolved is Some ==> resolved->0 !is Unavailable);
        self.observe_resolved_backend(model, profiles, resolved, now)
    }
}

/// A finished refresh is what the route is resolved with: fresh credentials are used at once while
/// they can be, with the profile's mode, and the profile holds them from then on.
pub proof fn fresh_credentials_are_used(
    model: ModelId,
    codex: &CodexRoutes,
    profiles: Map<Seq<char>, ProfileContent>,
    fresh: OpenAiAuth,
    forced: bool,
    now_ms: u64,
    config: Option<ResolvedConfig>,
    auth: AuthContent,
    lite_compatibility: bool,
)
    requires
        route_refreshed(model, codex, profiles, Ok(fresh), forced, now_ms, config),
        profiles.contains_key(model.provider@),
        profiles[model.provider@] == (ProfileContent::Chatgpt { auth, lite_compatibility }),
    ensures
        config is Some <==> !blank(fresh.access_token@) && now_ms < fresh.expires_at_ms,
        config matches Some(resolved) ==> {
            &&& resolved.model == model
            &&& resolved.access_token@ == fresh.access_token@
            &&& optional_text(resolved.account_id) == optional_text(fresh.account_id)
            &&& resolved.lite_compatibility == lite_compatibility
        },
        refreshed_profiles(profiles, model.provider@, Ok(fresh), forced).contains_key(
            model.provider@,
        ),
        refreshed_profiles(profiles, model.provider@, Ok(fresh), forced)[model.provider@]
            == (ProfileContent::Chatgpt { auth: fresh.content(), lite_compatibility }),
{
}

/// A refresh that failed leaves a route only with credentials that may still be sent: never after a
/// forced recovery, never across accounts, and otherwise while the known ones last.
pub proof fn failed_refresh_resolves_only_what_lasts(
    model: ModelId,
    codex: &CodexRoutes,
    profiles: Map<Seq<char>, ProfileContent>,
    error: RefreshCredentialsError,
    forced: bool,
    now_ms: u64,
    config: Option<ResolvedConfig>,
    auth: AuthContent,
    lite_compatibility: bool,
)
    requires
        route_refreshed(model, codex, profiles, Err(error), forced, now_ms, config),
        profiles.contains_key(model.provider@),
        profiles[model.provider@] == (ProfileContent::Chatgpt { auth, lite_compatibility }),
    ensures
        forced ==> config is None,
        error is IdentityMismatch || error is RejectedGeneration ==> config is None,
        !forced && error is Storage ==> (config is Some <==> !blank(auth.access_token) && now_ms
            < auth.expires_at_ms),
        config matches Some(resolved) ==> resolved.model == model && (error is Storage
            ==> resolved.access_token@ == auth.access_token),
{
    failed_recovery_is_unusable(auth, error, now_ms);
}

/// A refresh settles one profile: every other one, and every generic route, is as it was.
pub proof fn refresh_settles_one_profile(
    profiles: Map<Seq<char>, ProfileContent>,
    provider: Seq<char>,
    refreshed: Result<OpenAiAuth, RefreshCredentialsError>,
    forced: bool,
    other: Seq<char>,
)
    ensures
        ({
            let after = refreshed_profiles(profiles, provider, refreshed, forced);
            &&& after.contains_key(other) == profiles.contains_key(other)
            &&& other != provider && profiles.contains_key(other) ==> after[other]
                == profiles[other]
            &&& profiles.contains_key(provider) && !(profiles[provider] is Chatgpt)
                ==> after[provider] == profiles[provider]
        }),
{
}

/// A resolved backend is used as it is; without one the prompt learns whether a login is missing.
pub proof fn missing_route_asks_for_a_login(
    model: ModelId,
    profiles: &BuiltinProviderProfiles,
    resolved: Option<PromptBackend>,
)
    ensures
        resolved matches Some(backend) ==> reached_backend(model, profiles, resolved) == backend,
        resolved is None ==> (reached_backend(
            model,
            profiles,
            resolved,
        ) matches PromptBackend::Unavailable { login_required } && (login_required is Some
            <==> profiles.missing().contains(model.provider@)) && (login_required matches Some(
            named,
        ) ==> named == model.provider)),
{
}

/// A route begins with its credentials: a ChatGPT profile without a stored OAuth record has none, a
/// generation that used its recovery has none, one that still has it is refreshed by force, at its
/// own path, and spends it. Any other profile is resolved at once.
pub proof fn route_begins_with_its_credentials(
    before: &Routes,
    after: &Routes,
    model: ModelId,
    profiles: &BuiltinProviderProfiles,
    claims: &JwtClaims,
    now_ms: u64,
    start: RouteStart,
)
    requires
        route_begun(before, after, model, profiles, claims, now_ms, start),
    ensures
        ({
            let provider = model.provider@;
            let known = profiles.profiles().contains_key(provider);
            let unauthorized = before.rejections.unauthorized_of(provider);
            &&& after.shared_cooldowns == before.shared_cooldowns
            &&& after.quota == before.quota
            &&& after.declared_models == before.declared_models
            &&& !known ==> start == RouteStart::Resolved(None)
            &&& known && !(profiles.profiles()[provider] is Chatgpt) ==> start is Resolved
            &&& known && profiles.profiles()[provider] is Chatgpt ==> {
                &&& profiles.oauth_path(provider) is None ==> start == RouteStart::Resolved(None)
                &&& profiles.oauth_path(provider) is Some && unauthorized.saturated ==> start
                    == RouteStart::Resolved(None)
                &&& start matches RouteStart::Refresh { path, .. } ==> (profiles.oauth_path(
                    provider,
                ) matches Some(stored) && path@ == stored@)
                &&& start matches RouteStart::Refresh { forced, .. } ==> (forced
                    ==> after.rejections.unauthorized_map().contains_key(provider)
                    && after.rejections.unauthorized_map() != before.rejections.unauthorized_map())
                &&& start is Resolved ==> after.rejections.unauthorized_map()
                    == before.rejections.unauthorized_map()
            }
        }),
{
    let provider = model.provider@;
    if let Some(ProfileContent::Chatgpt { auth, lite_compatibility }) = lookup(
        profiles.profiles(),
        provider,
    ) {
        if profiles.oauth_path(provider) is Some {
            let key = auth_key(model, &before.codex, auth, lite_compatibility);
            if let RouteStart::Refresh { forced, .. } = start {
                if forced {
                    let unauthorized = before.rejections.unauthorized_of(provider);
                    let identity = choose|identity: BackendProfileIdentity| #[trigger]
                        names_route(after.identities@, identity, key) && resolution_start(
                            auth,
                            unauthorized,
                            identity.hash,
                            before.rejections.rejections().contains_key(provider),
                            claims,
                            now_ms,
                        ) == (ResolutionStart::Refresh { forced: true })
                            && after.rejections.unauthorized_map()
                            == before.rejections.unauthorized_map().insert(
                            provider,
                            spent(unauthorized, identity.hash),
                        );
                    assert(recoverable(unauthorized, identity.hash));
                    let map_before = before.rejections.unauthorized_map();
                    let map_after = after.rejections.unauthorized_map();
                    assert(map_after[provider].generations[identity.hash]);
                    if map_before.contains_key(provider) {
                        assert(!map_before[provider].generations[identity.hash]);
                    }
                }
            }
        }
    }
}

/// Only a ChatGPT profile begins a route that logs in; for any other the provider is not asked
/// for, and an earlier rejection of its login no longer counts.
pub proof fn only_a_login_profile_begins_a_route(
    before: &Routes,
    after: &Routes,
    model: ModelId,
    profiles: &BuiltinProviderProfiles,
    claims: &JwtClaims,
    now_ms: u64,
    start: RouteStart,
    name: Seq<char>,
)
    requires
        responses_route_begun(before, after, model, profiles, claims, now_ms, start),
        !(profiles.profiles().contains_key(model.provider@)
            && profiles.profiles()[model.provider@] is Chatgpt),
    ensures
        start == RouteStart::Resolved(None),
        !after.rejections.rejections().contains_key(model.provider@),
        name != model.provider@ ==> lookup(after.rejections.rejections(), name) == lookup(
            before.rejections.rejections(),
            name,
        ),
        after.rejections.unauthorized_map() == before.rejections.unauthorized_map(),
        *after == (Routes { rejections: after.rejections, ..*before }),
{
}

} // verus!
