//! Background upkeep in the main loop: compaction evidence and quota.

use vstd::prelude::*;

use crate::clock::{Span, NANOS_PER_SEC};
use crate::models::{
    apply_compact_route_downgrades, clone_declaration, compact_negative_identity_is_owned,
    declared_contents, downgraded_all, model_contents, models_for_profiles, models_of, owned,
    CompactState, ModelContent, ProviderModelInfo,
};
use crate::names::NameTable;
use crate::oauth::{JwtClaims, OpenAiAuth, RefreshCredentialsError, StorageFailure};
use crate::pairs::PairKey;
use crate::profiles::{
    only, resolve_prompt_backend_without_refresh, resolves_to, take_next_initial_quota_profile,
    BuiltinProviderProfile, BuiltinProviderProfiles, ProfileContent, SecretReply,
};
use crate::prompt::{
    config_key, known_routes, names_route, BackendProfileIdentity, CodexRoutes, ModelId,
    PromptBackend, ResolvedConfig,
};
use crate::quota::{
    cleared, failed_fetches_back_off, failure_delay_secs, fetch_failed, fetch_finished, fetch_fits,
    fetch_replaces_what_is_older, has_room, is_refresh_delay, refresh_armed, rolled,
    rolling_usage_is_current, QuotaCoordinator, QuotaEpoch, QuotaReport, QuotaWindowObservation,
    RollingQuotaObservation, QUOTA_FETCH_MIN_INTERVAL_SECS,
};
use crate::resolution::{
    finish_route, refreshed_profiles, responses_route_begun, route_refreshed, RouteStart,
};
use crate::retry::lookup;
use crate::routes::{quota_ensured, Now, RouteEffects, Routes};
use crate::runtime::{Effect, ProviderRuntime};
use crate::supervise::{
    all_loaded, selected_loaded, selected_loading_is_contained, RouteAttempt,
};

verus! {

/// Some profile is a ChatGPT profile.
pub open spec fn any_chatgpt(profiles: Map<Seq<char>, ProfileContent>) -> bool {
    exists|name: Seq<char>| #[trigger] profiles.contains_key(name) && profiles[name] is Chatgpt
}

/// Reports whether some profile is a ChatGPT profile.
pub fn has_chatgpt(profiles: &BuiltinProviderProfiles) -> (res: bool)
    ensures
        res == any_chatgpt(profiles.profiles()),
{
    let n: usize = profiles.len();
    let mut i: usize = 0;
    while i < n
        invariant
            n == profiles.names().len(),
            i <= n,
            forall|j: int|
                0 <= j < i ==> !(profiles.profiles()[#[trigger] profiles.names()[j]] is Chatgpt),
        decreases n - i,
    {
        if let BuiltinProviderProfile::Chatgpt(_) = profiles.profile_at(i) {
            assert(profiles.profiles().contains_key(profiles.names()[i as int]));
            return true;
        }
        i = i + 1;
    }
    proof {
        assert forall|name: Seq<char>| #[trigger] profiles.profiles().contains_key(
            name,
        ) implies !(profiles.profiles()[name] is Chatgpt) by {
            assert(profiles.names().contains(name));
            let j = profiles.names().index_of(name);
            assert(profiles.names()[j] == name);
        }
    }
    false
}

/// The ChatGPT route that one compaction lookup ends with.
pub open spec fn compact_config(
    model: ModelId,
    codex: &CodexRoutes,
    profiles: Map<Seq<char>, ProfileContent>,
    start: RouteStart,
    refreshed: Option<Result<OpenAiAuth, RefreshCredentialsError>>,
    now_ms: u64,
    config: Option<ResolvedConfig>,
) -> bool {
    match start {
        RouteStart::Resolved(Some(PromptBackend::Responses(resolved))) => config == Some(resolved),
        RouteStart::Resolved(_) => config is None,
        RouteStart::Refresh { forced, .. } => route_refreshed(
            model,
            codex,
            profiles,
            settled_outcome(refreshed),
            forced,
            now_ms,
            config,
        ),
    }
}

/// The outcome of a refresh: one that could not be made failed in storage.
pub open spec fn settled_outcome(
    refreshed: Option<Result<OpenAiAuth, RefreshCredentialsError>>,
) -> Result<OpenAiAuth, RefreshCredentialsError> {
    match refreshed {
        Some(refreshed) => refreshed,
        None => Err(RefreshCredentialsError::Storage(StorageFailure::RpcUnavailable)),
    }
}

/// What one resolved compaction route does to the route state.
pub open spec fn compact_recorded(
    before: &Routes,
    after: &Routes,
    provider: Seq<char>,
    config: Option<ResolvedConfig>,
) -> bool {
    match config {
        None => *after == *before,
        Some(config) => exists|identity: BackendProfileIdentity|
            {
                &&& #[trigger] names_route(after.identities@, identity, config_key(config))
                &&& after.identities.wf()
                &&& after.identities@ == known_routes(
                    before.identities@,
                    Some(config_key(config)),
                )
                &&& after.compact.identities@ == before.compact.identities@.insert(
                    provider,
                    identity,
                )
                &&& *after == (Routes {
                    identities: after.identities,
                    compact: (CompactState {
                        identities: after.compact.identities,
                        ..before.compact
                    }),
                    ..*before
                })
            },
    }
}

/// What a generic compact-route rejection does once every route was resolved: an identity that a
/// provider still has is downgraded and declared once, and any other is retired.
pub open spec fn compact_downgraded(
    before: &ProviderRuntime,
    after: &ProviderRuntime,
    identity: BackendProfileIdentity,
    profiles: &BuiltinProviderProfiles,
    effects_before: Seq<Effect>,
    effects_after: Seq<Effect>,
) -> bool {
    let evidence = &before.routes.compact;
    if !owned(evidence.identities@, identity) {
        &&& *after == *before
        &&& effects_after == effects_before.push(Effect::RetireCompactIdentity(identity))
    } else if evidence.unavailable@.contains(identity.hash) {
        *after == *before && effects_after == effects_before
    } else {
        let complete = downgraded_all(
            models_of(profiles.profiles(), profiles.names(), &before.routes.catalog),
            evidence.identities@,
            evidence.unavailable@.insert(identity.hash),
        );
        &&& after.routes.compact.unavailable@ == evidence.unavailable@.insert(identity.hash)
        &&& declared_contents(after.routes.declared_models) == Some(complete)
        &&& exists|declared: Vec<ProviderModelInfo>|
            {
                &&& #[trigger] model_contents(declared@) == complete
                &&& effects_after == effects_before.push(Effect::ModelsDeclared(declared))
            }
        &&& *after == (ProviderRuntime {
            routes: (Routes {
                compact: (CompactState {
                    unavailable: after.routes.compact.unavailable,
                    ..before.routes.compact
                }),
                declared_models: after.routes.declared_models,
                ..before.routes
            }),
            ..*before
        })
    }
}

impl ProviderRuntime {
    /// Ends one compaction lookup and remembers the identity that it found.
    pub fn finish_compact_route(
        &mut self,
        model: &ModelId,
        profiles: &mut BuiltinProviderProfiles,
        start: RouteStart,
        refreshed: Option<Result<OpenAiAuth, RefreshCredentialsError>>,
        now_ms: u64,
    )
        requires
            old(self).wf(),
        ensures
            final(self).wf(),
            exists|config: Option<ResolvedConfig>|
                {
                    &&& #[trigger] compact_config(
                        *model,
                        &old(self).routes.codex,
                        old(profiles).profiles(),
                        start,
                        refreshed,
                        now_ms,
                        config,
                    )
                    &&& compact_recorded(
                        &old(self).routes,
                        &final(self).routes,
                        model.provider@,
                        config,
                    )
                },
            *final(self) == (ProviderRuntime { routes: final(self).routes, ..*old(self) }),
            final(profiles).profiles() == match start {
                RouteStart::Resolved(_) => old(profiles).profiles(),
                RouteStart::Refresh { forced, .. } => refreshed_profiles(
                    old(profiles).profiles(),
                    model.provider@,
                    settled_outcome(refreshed),
                    forced,
                ),
            },
            final(profiles).credential_map() == old(profiles).credential_map(),
            final(profiles).missing() == old(profiles).missing(),
    {
        let config = match start {
            RouteStart::Resolved(Some(PromptBackend::Responses(config))) => Some(config),
            RouteStart::Resolved(_) => None,
            RouteStart::Refresh { forced, .. } => finish_route(
                model,
                &self.routes.codex,
                profiles,
                match refreshed {
                    Some(refreshed) => refreshed,
                    None => Err(RefreshCredentialsError::Storage(StorageFailure::RpcUnavailable)),
                },
                forced,
                now_ms,
            ),
        };
        assert(compact_config(
            *model,
            &old(self).routes.codex,
            old(profiles).profiles(),
            start,
            refreshed,
            now_ms,
            config,
        ));
        if let Some(config) = config {
            let identity = self.routes.identities.inference_identity(&config);
            assert(names_route(self.routes.identities@, identity, config_key(config)));
            self.routes.compact.identities.insert(model.provider.clone(), identity);
        }
    }

    /// Reads and publishes everything again after a compaction lookup that may have replaced a
    /// stored ChatGPT credential.
    pub fn observe_all_oauth_resolutions(
        &mut self,
        profiles: &BuiltinProviderProfiles,
        replies: &NameTable<SecretReply>,
        out: &mut Vec<Effect>,
    )
        requires
            old(self).wf(),
        ensures
            final(self).wf(),
            if any_chatgpt(profiles.profiles()) {
                exists|loaded: BuiltinProviderProfiles| #[trigger]
                    all_loaded(
                        old(self),
                        final(self),
                        replies@,
                        &loaded,
                        old(out)@,
                        final(out)@,
                    )
            } else {
                *final(self) == *old(self) && final(out)@ == old(out)@
            },
    {
        if has_chatgpt(profiles) {
            let loaded = self.load_all_profiles(replies, out);
            assert(all_loaded(old(self), self, replies@, &loaded, old(out)@, out@));
        }
    }

    /// Downgrades or retires an identity whose compact route was rejected.
    pub fn finish_compact_route_unavailable(
        &mut self,
        identity: BackendProfileIdentity,
        profiles: &BuiltinProviderProfiles,
        out: &mut Vec<Effect>,
    )
        requires
            old(self).wf(),
        ensures
            final(self).wf(),
            compact_downgraded(
                old(self),
                final(self),
                identity,
                profiles,
                old(out)@,
                final(out)@,
            ),
    {
        broadcast use vstd::std_specs::btree::group_btree_axioms;
        broadcast use vstd::laws_cmp::group_laws_cmp;

        if !compact_negative_identity_is_owned(identity, &self.routes.compact.identities) {
            out.push(Effect::RetireCompactIdentity(identity));
            return ;
        }
        if self.routes.compact.unavailable.contains(&identity.hash) {
            return ;
        }
        let _ = self.routes.compact.unavailable.insert(identity.hash);
        let mut models = models_for_profiles(profiles, &self.routes.catalog);
        apply_compact_route_downgrades(
            &mut models,
            &self.routes.compact.identities,
            &self.routes.compact.unavailable,
        );
        let declared = clone_declaration(&models);
        self.routes.declared_models = Some(models);
        out.push(Effect::ModelsDeclared(declared));
    }
}

/// The models that a compaction lookup resolves.
pub fn compact_models(
    profiles: &BuiltinProviderProfiles,
    runtime: &ProviderRuntime,
) -> (res: Vec<ModelId>)
    ensures
        res@.len() == models_of(
            profiles.profiles(),
            profiles.names(),
            &runtime.routes.catalog,
        ).len(),
        forall|i: int|
            0 <= i < res@.len() ==> {
                let listed = models_of(
                    profiles.profiles(),
                    profiles.names(),
                    &runtime.routes.catalog,
                )[i];
                &&& (#[trigger] res@[i]).provider@ == listed.provider
                &&& res@[i].model@ == listed.model
            },
{
    let models = models_for_profiles(profiles, &runtime.routes.catalog);
    let ghost listed = model_contents(models@);
    let mut ids: Vec<ModelId> = Vec::new();
    let mut i: usize = 0;
    while i < models.len()
        invariant
            i <= models@.len(),
            ids@.len() == i,
            listed == model_contents(models@),
            forall|j: int|
                0 <= j < i ==> (#[trigger] ids@[j]).provider@ == listed[j].provider
                    && ids@[j].model@ == listed[j].model,
        decreases models@.len() - i,
    {
        ids.push(models[i].id.clone());
        i = i + 1;
    }
    ids
}

/// What arming the next quota refresh does: the host wakes the loop after `delay`, unless the
/// epoch is over.
pub open spec fn refresh_scheduled(
    before: &ProviderRuntime,
    after: &ProviderRuntime,
    provider: String,
    epoch: QuotaEpoch,
    delay: Span,
    effects_before: Seq<Effect>,
    effects_after: Seq<Effect>,
) -> bool {
    exists|generation: Option<u64>|
        {
            &&& #[trigger] refresh_armed(
                &before.routes.quota,
                &after.routes.quota,
                provider@,
                epoch,
                generation,
            )
            &&& effects_after == match generation {
                Some(refresh_generation) => effects_before.push(
                    Effect::QuotaRefreshTimer {
                        provider,
                        profile_epoch: epoch,
                        refresh_generation,
                        delay,
                    },
                ),
                None => effects_before,
            }
            &&& *after == (ProviderRuntime {
                routes: (Routes { quota: after.routes.quota, ..before.routes }),
                ..*before
            })
        }
}

/// `delay` is when a successful quota fetch is followed by the next.
pub open spec fn follows_success(
    quota: &QuotaCoordinator,
    provider: Seq<char>,
    now_ms: u64,
    delay: Span,
) -> bool {
    &&& is_refresh_delay(
        quota.known_windows(provider),
        now_ms,
        delay.nanos as int / NANOS_PER_SEC as int,
    )
    &&& delay.nanos as int % NANOS_PER_SEC as int == 0
}

/// `delay` is when a failed quota fetch is followed by the next.
pub open spec fn follows_failure(
    quota: &QuotaCoordinator,
    provider: Seq<char>,
    delay: Span,
) -> bool {
    delay.nanos == NANOS_PER_SEC * failure_delay_secs(
        if quota@.contains_key(provider) {
            quota@[provider].failure_attempt
        } else {
            0
        },
    )
}

/// The runtime with another quota state.
pub open spec fn with_quota(runtime: &ProviderRuntime, quota: QuotaCoordinator) -> ProviderRuntime {
    ProviderRuntime { routes: Routes { quota, ..runtime.routes }, ..*runtime }
}

/// What ending a failed quota fetch does after its state was recorded: the next one is armed while
/// the epoch lasts.
pub open spec fn failure_followed(
    before: &ProviderRuntime,
    after: &ProviderRuntime,
    provider: String,
    epoch: QuotaEpoch,
    effects_before: Seq<Effect>,
    effects_after: Seq<Effect>,
) -> bool {
    if before.routes.quota.in_epoch(provider@, epoch) {
        exists|delay: Span|
            follows_failure(&before.routes.quota, provider@, delay) && #[trigger] refresh_scheduled(
                before,
                after,
                provider,
                epoch,
                delay,
                effects_before,
                effects_after,
            )
    } else {
        *after == *before && effects_after == effects_before
    }
}

/// What the end of a full quota fetch does: an accepted snapshot is reported and followed by the
/// next refresh, anything else by a retry while the epoch lasts.
pub open spec fn quota_fetch_ended(
    before: &ProviderRuntime,
    after: &ProviderRuntime,
    provider: String,
    epoch: QuotaEpoch,
    start: u64,
    observed_at_unix_ms: u64,
    snapshot: Option<Vec<QuotaWindowObservation>>,
    now_ms: u64,
    effects_before: Seq<Effect>,
    effects_after: Seq<Effect>,
) -> bool {
    match snapshot {
        Some(observations) => exists|quota: QuotaCoordinator, report: Option<QuotaReport>|
            {
                let recorded = with_quota(before, quota);
                &&& #[trigger] fetch_finished(
                    &before.routes.quota,
                    &quota,
                    provider,
                    epoch,
                    start,
                    observations@,
                    observed_at_unix_ms,
                    report,
                )
                &&& match report {
                    Some(report) => exists|delay: Span|
                        follows_success(&quota, provider@, now_ms, delay)
                            && #[trigger] refresh_scheduled(
                            &recorded,
                            after,
                            provider,
                            epoch,
                            delay,
                            effects_before.push(Effect::Quota(report)),
                            effects_after,
                        ),
                    None => failure_followed(
                        &recorded,
                        after,
                        provider,
                        epoch,
                        effects_before,
                        effects_after,
                    ),
                }
            },
        None => exists|quota: QuotaCoordinator|
            {
                &&& #[trigger] fetch_failed(&before.routes.quota, &quota, provider@, epoch)
                &&& failure_followed(
                    &with_quota(before, quota),
                    after,
                    provider,
                    epoch,
                    effects_before,
                    effects_after,
                )
            },
    }
}

/// What a rolling quota observation does.
pub open spec fn quota_rolled(
    before: &ProviderRuntime,
    after: &ProviderRuntime,
    model: ModelId,
    identity: u64,
    observation: RollingQuotaObservation,
    observed_at_unix_ms: u64,
    effects_before: Seq<Effect>,
    effects_after: Seq<Effect>,
) -> bool {
    exists|report: Option<QuotaReport>|
        {
            &&& #[trigger] rolled(
                &before.routes.quota,
                &after.routes.quota,
                model,
                identity,
                observation,
                observed_at_unix_ms,
                report,
            )
            &&& *after == with_quota(before, after.routes.quota)
            &&& effects_after == match report {
                Some(report) => effects_before.push(Effect::Quota(report)),
                None => effects_before,
            }
        }
}

/// The first model of `provider` among some profiles.
pub open spec fn is_first_model(
    models: Seq<ModelContent>,
    provider: Seq<char>,
    model: Option<ModelId>,
) -> bool {
    &&& model is Some ==> exists|i: int| #[trigger] first_model_at(models, provider, model->0, i)
    &&& model is None ==> forall|j: int|
        0 <= j < models.len() ==> (#[trigger] models[j]).provider != provider
}

/// `model` is the first model of `provider`, at `i`.
pub open spec fn first_model_at(
    models: Seq<ModelContent>,
    provider: Seq<char>,
    model: ModelId,
    i: int,
) -> bool {
    &&& 0 <= i < models.len()
    &&& model_at(models, i, model)
    &&& model.provider@ == provider
    &&& forall|j: int| 0 <= j < i ==> (#[trigger] models[j]).provider != provider
}

/// The `i`th of some models is `model`.
pub open spec fn model_at(models: Seq<ModelContent>, i: int, model: ModelId) -> bool {
    models[i].provider == model.provider@ && models[i].model == model.model@
}

fn first_model(
    profiles: &BuiltinProviderProfiles,
    runtime: &ProviderRuntime,
    provider: &String,
) -> (res: Option<ModelId>)
    ensures
        is_first_model(
            models_of(profiles.profiles(), profiles.names(), &runtime.routes.catalog),
            provider@,
            res,
        ),
{
    let models = models_for_profiles(profiles, &runtime.routes.catalog);
    let ghost listed = model_contents(models@);
    let mut i: usize = 0;
    while i < models.len()
        invariant
            i <= models@.len(),
            listed == model_contents(models@),
            listed == models_of(profiles.profiles(), profiles.names(), &runtime.routes.catalog),
            forall|j: int| 0 <= j < i ==> (#[trigger] listed[j]).provider != provider@,
        decreases models@.len() - i,
    {
        assert(listed[i as int] == models@[i as int].content());
        if models[i].id.provider == *provider {
            let model = models[i].id.clone();
            assert(first_model_at(listed, provider@, model, i as int));
            let found: Option<ModelId> = Some(model);
            assert(found->0 == model);
            return found;
        }
        i = i + 1;
    }
    None
}

/// A quota profile that a route resolution leaves.
pub open spec fn quota_followed(
    before: &ProviderRuntime,
    after: &ProviderRuntime,
    provider: String,
    config: ResolvedConfig,
    identity: BackendProfileIdentity,
    now: Now,
    effects: RouteEffects,
) -> bool {
    &&& names_route(after.routes.identities@, identity, config_key(config))
    &&& after.routes.identities.wf()
    &&& after.routes.identities@ == known_routes(
        before.routes.identities@,
        Some(config_key(config)),
    )
    &&& quota_ensured(
        &before.routes,
        &after.routes,
        provider,
        config,
        identity,
        now,
        effects,
    )
    &&& effects.provider == provider
    &&& effects.released is None
    &&& !effects.profile_changed
    &&& effects.declared is None
    &&& *after == (ProviderRuntime {
        routes: (Routes {
            identities: after.routes.identities,
            prewarm_profile_identities: after.routes.prewarm_profile_identities,
            quota: after.routes.quota,
            ..before.routes
        }),
        ..*before
    })
}

/// What a quota refresh does once its route is resolved: the profile is ensured and, where no
/// fetch started, the next refresh is armed; without a route the profile is forgotten.
pub open spec fn quota_refreshed(
    before: &ProviderRuntime,
    after: &ProviderRuntime,
    provider: String,
    config: Option<ResolvedConfig>,
    now: Now,
    effects_before: Seq<Effect>,
    effects_after: Seq<Effect>,
) -> bool {
    match config {
        Some(config) => exists|
            ensured: ProviderRuntime,
            identity: BackendProfileIdentity,
            effects: RouteEffects,
        |
            {
                let told = effects_before.push(Effect::Route(effects));
                &&& #[trigger] quota_followed(
                    before,
                    &ensured,
                    provider,
                    config,
                    identity,
                    now,
                    effects,
                )
                &&& if effects.fetch is None && ensured.routes.quota@.contains_key(provider@) {
                    refresh_scheduled(
                        &ensured,
                        after,
                        provider,
                        ensured.routes.quota@[provider@].epoch,
                        Span { nanos: (QUOTA_FETCH_MIN_INTERVAL_SECS * NANOS_PER_SEC) as u128 },
                        told,
                        effects_after,
                    )
                } else {
                    *after == ensured && effects_after == told
                }
            },
        None => exists|report: Option<QuotaReport>|
            {
                &&& #[trigger] cleared(
                    &before.routes.quota,
                    &after.routes.quota,
                    provider,
                    report,
                )
                &&& after.routes.prewarm_profile_identities@
                    == before.routes.prewarm_profile_identities@.remove(provider@)
                &&& *after == (ProviderRuntime {
                    routes: (Routes {
                        prewarm_profile_identities: after.routes.prewarm_profile_identities,
                        quota: after.routes.quota,
                        ..before.routes
                    }),
                    ..*before
                })
                &&& effects_after == effects_before.push(
                    Effect::Route(
                        (RouteEffects {
                            provider,
                            released: None,
                            profile_changed: false,
                            declared: None,
                            prewarm_changed: before.routes.prewarm_profile_identities@.contains_key(
                                provider@,
                            ),
                            quota_report: report,
                            fetch: None,
                        }),
                    ),
                )
            },
    }
}

impl ProviderRuntime {
    fn schedule_quota_refresh(
        &mut self,
        provider: String,
        epoch: QuotaEpoch,
        delay: Span,
        out: &mut Vec<Effect>,
    )
        requires
            old(self).wf(),
        ensures
            final(self).wf(),
            refresh_scheduled(
                old(self),
                final(self),
                provider,
                epoch,
                delay,
                old(out)@,
                final(out)@,
            ),
    {
        let generation = self.routes.quota.schedule_refresh(&provider, epoch);
        assert(refresh_armed(
            &old(self).routes.quota,
            &self.routes.quota,
            provider@,
            epoch,
            generation,
        ));
        if let Some(refresh_generation) = generation {
            out.push(
                Effect::QuotaRefreshTimer {
                    provider,
                    profile_epoch: epoch,
                    refresh_generation,
                    delay,
                },
            );
        }
    }

    fn follow_failure(&mut self, provider: String, epoch: QuotaEpoch, out: &mut Vec<Effect>)
        requires
            old(self).wf(),
        ensures
            final(self).wf(),
            failure_followed(
                old(self),
                final(self),
                provider,
                epoch,
                old(out)@,
                final(out)@,
            ),
    {
        if self.routes.quota.epoch_matches(&provider, epoch) {
            let delay: Span = self.routes.quota.failure_delay(&provider);
            assert(follows_failure(&old(self).routes.quota, provider@, delay));
            self.schedule_quota_refresh(provider, epoch, delay, out);
            assert(refresh_scheduled(
                old(self),
                self,
                provider,
                epoch,
                delay,
                old(out)@,
                out@,
            ));
        }
    }

    /// Ends one full quota fetch; `None` when it failed.
    pub fn handle_quota_fetch_finished(
        &mut self,
        provider: String,
        epoch: QuotaEpoch,
        fetch_start_sequence: u64,
        observed_at_unix_ms: u64,
        snapshot: Option<Vec<QuotaWindowObservation>>,
        now_ms: u64,
        out: &mut Vec<Effect>,
    )
        requires
            old(self).wf(),
        ensures
            final(self).wf(),
            quota_fetch_ended(
                old(self),
                final(self),
                provider,
                epoch,
                fetch_start_sequence,
                observed_at_unix_ms,
                snapshot,
                now_ms,
                old(out)@,
                final(out)@,
            ),
    {
        match snapshot {
            Some(observations) => {
                let ghost observed = observations@;
                let report = self.routes.quota.finish_fetch(
                    provider.clone(),
                    epoch,
                    fetch_start_sequence,
                    observations,
                    observed_at_unix_ms,
                );
                let ghost recorded = *self;
                assert(fetch_finished(
                    &old(self).routes.quota,
                    &recorded.routes.quota,
                    provider,
                    epoch,
                    fetch_start_sequence,
                    observed,
                    observed_at_unix_ms,
                    report,
                ));
                assert(recorded == with_quota(old(self), recorded.routes.quota));
                match report {
                    Some(report) => {
                        out.push(Effect::Quota(report));
                        let ghost told = out@;
                        let delay: Span = self.routes.quota.refresh_delay(&provider, now_ms);
                        self.schedule_quota_refresh(provider, epoch, delay, out);
                        assert(refresh_scheduled(
                            &recorded,
                            self,
                            provider,
                            epoch,
                            delay,
                            told,
                            out@,
                        ));
                    },
                    None => {
                        self.follow_failure(provider, epoch, out);
                    },
                }
            },
            None => {
                self.routes.quota.fail_fetch(&provider, epoch);
                let ghost recorded = *self;
                assert(fetch_failed(
                    &old(self).routes.quota,
                    &recorded.routes.quota,
                    provider@,
                    epoch,
                ));
                assert(recorded == with_quota(old(self), recorded.routes.quota));
                self.follow_failure(provider, epoch, out);
            },
        }
    }

    /// Merges one rolling quota observation.
    pub fn handle_quota_rolling(
        &mut self,
        model: ModelId,
        profile_identity: u64,
        observation: RollingQuotaObservation,
        observed_at_unix_ms: u64,
        out: &mut Vec<Effect>,
    )
        requires
            old(self).wf(),
        ensures
            final(self).wf(),
            quota_rolled(
                old(self),
                final(self),
                model,
                profile_identity,
                observation,
                observed_at_unix_ms,
                old(out)@,
                final(out)@,
            ),
    {
        let report = self.routes.quota.merge_rolling(
            model,
            profile_identity,
            observation,
            observed_at_unix_ms,
        );
        assert(rolled(
            &old(self).routes.quota,
            &self.routes.quota,
            model,
            profile_identity,
            observation,
            observed_at_unix_ms,
            report,
        ));
        if let Some(report) = report {
            out.push(Effect::Quota(report));
        }
    }

    /// Reports whether a quota refresh wake is the latest of its epoch.
    pub fn quota_refresh_is_current(
        &self,
        provider: &String,
        epoch: QuotaEpoch,
        refresh_generation: u64,
    ) -> (res: bool)
        ensures
            res == (self.routes.quota.in_epoch(provider@, epoch)
                && self.routes.quota@[provider@].refresh_generation == refresh_generation),
    {
        self.routes.quota.refresh_is_current(provider, epoch, refresh_generation)
    }

    /// Begins a quota refresh: the provider's first model is resolved. Without one there is
    /// nothing to resolve.
    pub fn begin_quota_refresh(
        &mut self,
        provider: &String,
        replies: &NameTable<SecretReply>,
        claims: &JwtClaims,
        now_ms: u64,
        out: &mut Vec<Effect>,
    ) -> (res: RouteAttempt)
        requires
            old(self).wf(),
        ensures
            final(self).wf(),
            quota_refresh_begun(
                old(self),
                final(self),
                provider@,
                replies@,
                claims,
                now_ms,
                old(out)@,
                final(out)@,
                res,
            ),
    {
        let profiles = self.load_selected_profile(provider, replies, out);
        let ghost loaded = *self;
        assert(selected_loaded(
            old(self),
            &loaded,
            provider@,
            replies@,
            &profiles,
            old(out)@,
            out@,
        ));
        let observes_refresh: bool = profiles.chatgpt_credential_reference(
            provider.as_str(),
        ).is_some();
        match first_model(&profiles, self, provider) {
            Some(model) => {
                let start = self.routes.begin_responses_route(&model, &profiles, claims, now_ms);
                RouteAttempt { model: Some(model), profiles, start, observes_refresh }
            },
            None => RouteAttempt {
                model: None,
                profiles,
                start: RouteStart::Resolved(None),
                observes_refresh,
            },
        }
    }

    /// Ensures a provider's quota profile on a resolved route.
    fn follow_quota(&mut self, provider: &String, config: &ResolvedConfig, now: Now) -> (res:
        RouteEffects)
        requires
            old(self).wf(),
        ensures
            final(self).wf(),
            exists|identity: BackendProfileIdentity| #[trigger]
                quota_followed(
                    old(self),
                    final(self),
                    *provider,
                    *config,
                    identity,
                    now,
                    res,
                ),
    {
        let identity = self.routes.identities.inference_identity(config);
        let mut effects = RouteEffects {
            provider: provider.clone(),
            released: None,
            profile_changed: false,
            declared: None,
            prewarm_changed: false,
            quota_report: None,
            fetch: None,
        };
        let ghost interned = self.routes;
        self.routes.ensure_quota_profile(provider, config, identity, now, &mut effects);
        assert(quota_ensured(
            &old(self).routes,
            &self.routes,
            *provider,
            *config,
            identity,
            now,
            effects,
        )) by {
            assert(quota_ensured(
                &interned,
                &self.routes,
                *provider,
                *config,
                identity,
                now,
                effects,
            ));
        }
        assert(quota_followed(old(self), self, *provider, *config, identity, now, effects));
        effects
    }

    /// Ends a quota refresh with its resolved route.
    pub fn finish_quota_refresh(
        &mut self,
        provider: String,
        config: Option<ResolvedConfig>,
        now: Now,
        out: &mut Vec<Effect>,
    )
        requires
            old(self).wf(),
        ensures
            final(self).wf(),
            quota_refreshed(
                old(self),
                final(self),
                provider,
                config,
                now,
                old(out)@,
                final(out)@,
            ),
    {
        match config {
            Some(config) => {
                let effects = self.follow_quota(&provider, &config, now);
                let ghost told_of = effects;
                let ghost ensured = *self;
                let ghost identity = choose|identity: BackendProfileIdentity| #[trigger]
                    quota_followed(
                        old(self),
                        &ensured,
                        provider,
                        config,
                        identity,
                        now,
                        told_of,
                    );
                assert(quota_followed(
                    old(self),
                    &ensured,
                    provider,
                    config,
                    identity,
                    now,
                    told_of,
                ));
                let started: bool = effects.fetch.is_some();
                out.push(Effect::Route(effects));
                if !started {
                    if let Some(epoch) = self.routes.quota.profile_epoch(&provider) {
                        let delay: Span = Span::from_secs(QUOTA_FETCH_MIN_INTERVAL_SECS);
                        self.schedule_quota_refresh(provider, epoch, delay, out);
                    }
                }
            },
            None => {
                let report = self.routes.quota.clear_profile(&provider);
                assert(cleared(
                    &old(self).routes.quota,
                    &self.routes.quota,
                    provider,
                    report,
                ));
                let forgotten: bool = self.routes.clear_prewarm_profile(&provider);
                out.push(
                    Effect::Route(
                        RouteEffects {
                            provider,
                            released: None,
                            profile_changed: false,
                            declared: None,
                            prewarm_changed: forgotten,
                            quota_report: report,
                            fetch: None,
                        },
                    ),
                );
            },
        }
    }

    /// Marks the initial quota pass as begun: later loads no longer retain a snapshot for it.
    pub fn initialize_quota(&mut self)
        requires
            old(self).wf(),
        ensures
            final(self).wf(),
            *final(self) == (ProviderRuntime { initial_quota_started: true, ..*old(self) }),
    {
        self.initial_quota_started = true;
    }

    /// Starts initial quota work for at most one provider. Returns whether more remain.
    pub fn advance_initial_quota(&mut self, now: Now, out: &mut Vec<Effect>) -> (res: bool)
        requires
            old(self).wf(),
        ensures
            final(self).wf(),
            initial_quota_advanced(old(self), final(self), now, old(out)@, final(out)@),
            res == (final(self).startup_quota_profiles is Some),
    {
        let selected = match take_next_initial_quota_profile(&mut self.startup_quota_profiles) {
            Some(selected) => selected,
            None => {
                return false;
            },
        };
        let ghost taken = *self;
        let models = models_for_profiles(&selected, &self.routes.catalog);
        if models.len() > 0 {
            let model = models[0].id.clone();
            assert(model_contents(models@)[0] == models@[0].content());
            let resolved = resolve_prompt_backend_without_refresh(
                &model,
                &self.routes.codex,
                &selected,
                &mut self.routes.rejections,
                now.unix_ms,
            );
            let ghost looked_up = *self;
            assert(initial_lookup(&taken, &looked_up, &selected, model, now, resolved));
            if let Some(PromptBackend::Responses(config)) = resolved {
                let effects = self.follow_quota(&model.provider, &config, now);
                out.push(Effect::Route(effects));
            }
        }
        assert(first_profile_advanced(&taken, self, &selected, now, old(out)@, out@));
        self.startup_quota_profiles.is_some()
    }
}

/// What beginning a quota refresh does.
pub open spec fn quota_refresh_begun(
    before: &ProviderRuntime,
    after: &ProviderRuntime,
    provider: Seq<char>,
    replies: Map<Seq<char>, SecretReply>,
    claims: &JwtClaims,
    now_ms: u64,
    effects_before: Seq<Effect>,
    effects_after: Seq<Effect>,
    attempt: RouteAttempt,
) -> bool {
    exists|loaded: ProviderRuntime|
        {
            &&& #[trigger] selected_loaded(
                before,
                &loaded,
                provider,
                replies,
                &attempt.profiles,
                effects_before,
                effects_after,
            )
            &&& is_first_model(
                models_of(
                    attempt.profiles.profiles(),
                    attempt.profiles.names(),
                    &loaded.routes.catalog,
                ),
                provider,
                attempt.model,
            )
            &&& attempt.observes_refresh == (attempt.profiles.oauth_path(provider) is Some)
            &&& match attempt.model {
                Some(model) => {
                    &&& responses_route_begun(
                        &loaded.routes,
                        &after.routes,
                        model,
                        &attempt.profiles,
                        claims,
                        now_ms,
                        attempt.start,
                    )
                    &&& *after == (ProviderRuntime { routes: after.routes, ..loaded })
                },
                None => attempt.start == RouteStart::Resolved(None) && *after == loaded,
            }
        }
}

/// What resolving the first model of a startup profile does.
pub open spec fn initial_lookup(
    before: &ProviderRuntime,
    after: &ProviderRuntime,
    selected: &BuiltinProviderProfiles,
    model: ModelId,
    now: Now,
    resolved: Option<PromptBackend>,
) -> bool {
    let models = models_of(
        selected.profiles(),
        selected.names(),
        &before.routes.catalog,
    );
    &&& models.len() > 0
    &&& model_at(models, 0, model)
    &&& resolves_to(
        model,
        &before.routes.codex,
        lookup(selected.profiles(), model.provider@),
        now.unix_ms,
        resolved,
    )
    &&& after.routes.rejections.unauthorized_map() == before.routes.rejections.unauthorized_map()
    &&& after.routes.rejections.rejections() == match lookup(
        selected.profiles(),
        model.provider@,
    ) {
        Some(ProfileContent::Chatgpt { .. }) => before.routes.rejections.rejections(),
        _ => before.routes.rejections.rejections().remove(model.provider@),
    }
    &&& *after == (ProviderRuntime {
        routes: (Routes { rejections: after.routes.rejections, ..before.routes }),
        ..*before
    })
}

/// What initial quota work for one startup profile does: a ChatGPT route that needs no refresh
/// gets its quota profile.
pub open spec fn first_profile_advanced(
    before: &ProviderRuntime,
    after: &ProviderRuntime,
    selected: &BuiltinProviderProfiles,
    now: Now,
    effects_before: Seq<Effect>,
    effects_after: Seq<Effect>,
) -> bool {
    let models = models_of(
        selected.profiles(),
        selected.names(),
        &before.routes.catalog,
    );
    if models.len() == 0 {
        *after == *before && effects_after == effects_before
    } else {
        exists|looked_up: ProviderRuntime, model: ModelId, resolved: Option<PromptBackend>|
            {
                &&& #[trigger] initial_lookup(before, &looked_up, selected, model, now, resolved)
                &&& match resolved {
                    Some(PromptBackend::Responses(config)) => exists|
                        identity: BackendProfileIdentity,
                        effects: RouteEffects,
                    |
                        {
                            &&& #[trigger] quota_followed(
                                &looked_up,
                                after,
                                model.provider,
                                config,
                                identity,
                                now,
                                effects,
                            )
                            &&& effects_after == effects_before.push(Effect::Route(effects))
                        },
                    _ => *after == looked_up && effects_after == effects_before,
                }
            }
    }
}

/// What one round of initial quota work does: the first retained profile by name is taken and
/// advanced, so newly arrived prompts go ahead of the next.
pub open spec fn initial_quota_advanced(
    before: &ProviderRuntime,
    after: &ProviderRuntime,
    now: Now,
    effects_before: Seq<Effect>,
    effects_after: Seq<Effect>,
) -> bool {
    match before.startup_quota_profiles {
        Some(retained) if retained.names().len() > 0 => {
            let first = retained.names()[0];
            &&& exists|selected: BuiltinProviderProfiles|
                {
                    &&& selected.profiles() == only(retained.profiles(), first)
                    &&& selected.credential_map() == only(retained.credential_map(), first)
                    &&& selected.missing() == Set::<Seq<char>>::empty()
                    &&& #[trigger] first_profile_advanced(
                        &(ProviderRuntime {
                            startup_quota_profiles: after.startup_quota_profiles,
                            ..*before
                        }),
                        after,
                        &selected,
                        now,
                        effects_before,
                        effects_after,
                    )
                }
            &&& match after.startup_quota_profiles {
                Some(rest) => {
                    &&& rest.profiles() == retained.profiles().remove(first)
                    &&& rest.credential_map() == retained.credential_map().remove(first)
                    &&& rest.missing() == retained.missing().remove(first)
                },
                None => retained.profiles().remove(first) == Map::<
                    Seq<char>,
                    ProfileContent,
                >::empty(),
            }
        },
        _ => {
            &&& after.startup_quota_profiles is None
            &&& *after == (ProviderRuntime { startup_quota_profiles: None, ..*before })
            &&& effects_after == effects_before
        },
    }
}

/// A route found to lack standalone compaction loses it for every provider that resolves to it, at
/// once and in a complete declaration; one that nobody resolves to any more is only forgotten, and
/// one that is known changes nothing.
pub proof fn missing_compaction_is_declared(
    before: &ProviderRuntime,
    after: &ProviderRuntime,
    identity: BackendProfileIdentity,
    profiles: &BuiltinProviderProfiles,
    effects_before: Seq<Effect>,
    effects_after: Seq<Effect>,
    i: int,
)
    requires
        compact_downgraded(before, after, identity, profiles, effects_before, effects_after),
    ensures
        ({
            let identities = before.routes.compact.identities@;
            let known = before.routes.compact.unavailable@;
            let models = models_of(profiles.profiles(), profiles.names(), &before.routes.catalog);
            let resolved = exists|name: Seq<char>| #[trigger]
                identities.contains_key(name) && identities[name] == identity;
            &&& !resolved ==> *after == *before && effects_after == effects_before.push(
                Effect::RetireCompactIdentity(identity),
            )
            &&& resolved && known.contains(identity.hash) ==> *after == *before && effects_after
                == effects_before
            &&& resolved && !known.contains(identity.hash) ==> {
                &&& after.routes.compact.unavailable@.contains(identity.hash)
                &&& effects_after.len() == effects_before.len() + 1
                &&& effects_after.last() matches Effect::ModelsDeclared(declared)
                &&& declared@.len() == models.len()
                &&& 0 <= i < models.len() ==> {
                    &&& declared@[i].content().provider == models[i].provider
                    &&& declared@[i].content().model == models[i].model
                    &&& identities.contains_key(models[i].provider)
                        && identities[models[i].provider] == identity
                        ==> !declared@[i].content().supports_standalone_compaction
                    &&& !identities.contains_key(models[i].provider) ==> declared@[i].content()
                        == models[i]
                }
            }
        }),
        after.routes.quota == before.routes.quota,
        after.routes.shared_cooldowns == before.routes.shared_cooldowns,
        after.prompt_queue == before.prompt_queue,
{
    let identities = before.routes.compact.identities@;
    if owned(identities, identity) && !before.routes.compact.unavailable@.contains(
        identity.hash,
    ) {
        if let Effect::ModelsDeclared(declared) = effects_after.last() {
            let contents = model_contents(declared@);
            let models = models_of(profiles.profiles(), profiles.names(), &before.routes.catalog);
            assert(contents.len() == models.len());
            if 0 <= i < models.len() {
                assert(contents[i] == declared@[i].content());
            }
        }
    }
}

/// A scheduled refresh is armed as the current one of its epoch, with exactly its delay; in another
/// epoch nothing is armed.
pub proof fn refresh_timer_is_the_current_one(
    before: &ProviderRuntime,
    after: &ProviderRuntime,
    provider: String,
    epoch: QuotaEpoch,
    delay: Span,
    effects_before: Seq<Effect>,
    effects_after: Seq<Effect>,
)
    requires
        refresh_scheduled(before, after, provider, epoch, delay, effects_before, effects_after),
    ensures
        before.routes.quota@.contains_key(provider@) && before.routes.quota@[provider@].epoch
            == epoch ==> {
            &&& effects_after.len() == effects_before.len() + 1
            &&& effects_after.last() matches Effect::QuotaRefreshTimer {
                provider: timed,
                profile_epoch,
                refresh_generation,
                delay: wait,
            }
            &&& timed == provider
            &&& profile_epoch == epoch
            &&& wait == delay
            &&& after.routes.quota@[provider@].refresh_generation == refresh_generation
            &&& after.routes.quota@[provider@].epoch == epoch
        },
        !before.routes.quota@.contains_key(provider@) || before.routes.quota@[provider@].epoch
            != epoch ==> effects_after == effects_before && after.routes.quota@
            == before.routes.quota@,
{
}

/// A failed fetch is tried again after a whole minute at the earliest and a quarter of an hour at
/// the latest, later with each failure in a row.
pub proof fn failed_fetch_waits(
    quota: &QuotaCoordinator,
    provider: Seq<char>,
    delay: Span,
)
    requires
        follows_failure(quota, provider, delay),
    ensures
        60_000_000_000 <= delay.nanos <= 900_000_000_000,
        quota@.contains_key(provider) && quota@[provider].failure_attempt == 1 ==> delay.nanos
            == 120_000_000_000,
        quota@.contains_key(provider) && quota@[provider].failure_attempt == 2 ==> delay.nanos
            == 240_000_000_000,
        quota@.contains_key(provider) && quota@[provider].failure_attempt == 3 ==> delay.nanos
            == 480_000_000_000,
        quota@.contains_key(provider) && quota@[provider].failure_attempt >= 4 ==> delay.nanos
            == 900_000_000_000,
{
    if quota@.contains_key(provider) {
        failed_fetches_back_off(quota@[provider].failure_attempt);
        let attempt = quota@[provider].failure_attempt;
        assert(failure_delay_secs(1) == 120);
        assert(failure_delay_secs(2) == 240);
        assert(failure_delay_secs(3) == 480);
    } else {
        failed_fetches_back_off(0);
    }
}

/// A fetch that came back without a snapshot counts as a failure of its epoch, and the next one is
/// timed; in another epoch it is ignored.
pub proof fn failed_fetch_is_tried_again(
    before: &ProviderRuntime,
    after: &ProviderRuntime,
    provider: String,
    epoch: QuotaEpoch,
    start: u64,
    observed_at_unix_ms: u64,
    now_ms: u64,
    effects_before: Seq<Effect>,
    effects_after: Seq<Effect>,
)
    requires
        quota_fetch_ended(
            before,
            after,
            provider,
            epoch,
            start,
            observed_at_unix_ms,
            None,
            now_ms,
            effects_before,
            effects_after,
        ),
    ensures
        before.routes.quota@.contains_key(provider@) && before.routes.quota@[provider@].epoch
            == epoch ==> {
            let was = before.routes.quota@[provider@];
            let held = after.routes.quota@[provider@];
            &&& !held.fetch_in_flight
            &&& was.failure_attempt < u8::MAX ==> held.failure_attempt == was.failure_attempt + 1
            &&& held.windows == was.windows
            &&& effects_after.len() == effects_before.len() + 1
            &&& effects_after.last() matches Effect::QuotaRefreshTimer {
                provider: timed,
                delay,
                refresh_generation,
                ..
            }
            &&& timed == provider
            &&& refresh_generation == held.refresh_generation
            &&& 60_000_000_000 <= delay.nanos <= 900_000_000_000
        },
        !before.routes.quota@.contains_key(provider@) || before.routes.quota@[provider@].epoch
            != epoch ==> effects_after == effects_before && after.routes.quota@
            == before.routes.quota@,
{
    let quota = choose|quota: QuotaCoordinator|
        {
            &&& #[trigger] fetch_failed(&before.routes.quota, &quota, provider@, epoch)
            &&& failure_followed(
                &with_quota(before, quota),
                after,
                provider,
                epoch,
                effects_before,
                effects_after,
            )
        };
    let middle = with_quota(before, quota);
    if quota.in_epoch(provider@, epoch) {
        let delay = choose|delay: Span|
            follows_failure(&quota, provider@, delay) && #[trigger] refresh_scheduled(
                &middle,
                after,
                provider,
                epoch,
                delay,
                effects_before,
                effects_after,
            );
        failed_fetch_waits(&quota, provider@, delay);
        refresh_timer_is_the_current_one(
            &middle,
            after,
            provider,
            epoch,
            delay,
            effects_before,
            effects_after,
        );
    }
}

/// A rolling observation that the profile has room for reaches the harness: every observed window
/// of known duration is in the state and in the patch that is sent, with the observed usage.
pub proof fn rolling_usage_reaches_the_harness(
    before: &ProviderRuntime,
    after: &ProviderRuntime,
    model: ModelId,
    identity: u64,
    observation: RollingQuotaObservation,
    observed_at_unix_ms: u64,
    effects_before: Seq<Effect>,
    effects_after: Seq<Effect>,
    i: int,
)
    requires
        quota_rolled(
            before,
            after,
            model,
            identity,
            observation,
            observed_at_unix_ms,
            effects_before,
            effects_after,
        ),
        before.routes.quota@.contains_key(model.provider@),
        before.routes.quota@[model.provider@].identity == identity,
        has_room(
            before.routes.quota@[model.provider@],
            before.routes.quota.spec_limits(),
            model,
            observation,
        ),
        0 <= i < observation.windows@.len(),
        observation.windows@[i].window_seconds is Some
            || before.routes.quota@[model.provider@].windows.contains_key(
            observation.windows@[i].key(),
        ),
    ensures
        ({
            let seen = observation.windows@[i];
            let held = after.routes.quota@[model.provider@].windows;
            &&& held.contains_key(seen.key())
            &&& held[seen.key()].window.used_basis_points == seen.used_basis_points
            &&& held[seen.key()].window.usage_observed_at_unix_ms == observed_at_unix_ms
            &&& effects_after.len() == effects_before.len() + 1
            &&& effects_after.last() matches Effect::Quota(
                QuotaReport::Patch { provider, windows, .. },
            )
            &&& provider == model.provider
            &&& windows@.contains(held[seen.key()].window)
        }),
        after.prompt_queue == before.prompt_queue,
        after.routes.shared_cooldowns == before.routes.shared_cooldowns,
{
    let report = choose|report: Option<QuotaReport>|
        {
            &&& #[trigger] rolled(
                &before.routes.quota,
                &after.routes.quota,
                model,
                identity,
                observation,
                observed_at_unix_ms,
                report,
            )
            &&& *after == with_quota(before, after.routes.quota)
            &&& effects_after == match report {
                Some(report) => effects_before.push(Effect::Quota(report)),
                None => effects_before,
            }
        };
    rolling_usage_is_current(
        &before.routes.quota,
        &after.routes.quota,
        model,
        identity,
        observation,
        observed_at_unix_ms,
        report,
        i,
    );
}

/// A complete snapshot that the profile has room for replaces what is older, is reported, and times
/// the next refresh within a quarter of an hour.
pub proof fn finished_fetch_is_reported(
    before: &ProviderRuntime,
    after: &ProviderRuntime,
    provider: String,
    epoch: QuotaEpoch,
    start: u64,
    observed_at_unix_ms: u64,
    observations: Vec<QuotaWindowObservation>,
    now_ms: u64,
    effects_before: Seq<Effect>,
    effects_after: Seq<Effect>,
)
    requires
        quota_fetch_ended(
            before,
            after,
            provider,
            epoch,
            start,
            observed_at_unix_ms,
            Some(observations),
            now_ms,
            effects_before,
            effects_after,
        ),
        fetch_fits(&before.routes.quota, provider@, epoch, observations@),
    ensures
        effects_after.len() == effects_before.len() + 2,
        effects_after[effects_before.len() as int] matches Effect::Quota(
            QuotaReport::Replace { provider: named, profile_epoch, .. },
        ) && named == provider && profile_epoch == epoch,
        effects_after.last() matches Effect::QuotaRefreshTimer { provider: timed, delay, .. }
            && timed == provider && 1_000_000_000 <= delay.nanos <= 900_000_000_000,
        !after.routes.quota@[provider@].fetch_in_flight,
        after.routes.quota@[provider@].failure_attempt == 0,
{
    let (quota, report) = choose|quota: QuotaCoordinator, report: Option<QuotaReport>|
        {
            let recorded = with_quota(before, quota);
            &&& #[trigger] fetch_finished(
                &before.routes.quota,
                &quota,
                provider,
                epoch,
                start,
                observations@,
                observed_at_unix_ms,
                report,
            )
            &&& match report {
                Some(report) => exists|delay: Span|
                    follows_success(&quota, provider@, now_ms, delay)
                        && #[trigger] refresh_scheduled(
                        &recorded,
                        after,
                        provider,
                        epoch,
                        delay,
                        effects_before.push(Effect::Quota(report)),
                        effects_after,
                    ),
                None => failure_followed(
                    &recorded,
                    after,
                    provider,
                    epoch,
                    effects_before,
                    effects_after,
                ),
            }
        };
    let key: PairKey = (provider@, provider@);
    fetch_replaces_what_is_older(
        &before.routes.quota,
        &quota,
        provider,
        epoch,
        start,
        observations@,
        observed_at_unix_ms,
        report,
        key,
        0,
    );
    let told = report->0;
    let recorded = with_quota(before, quota);
    let delay = choose|delay: Span|
        follows_success(&quota, provider@, now_ms, delay) && #[trigger] refresh_scheduled(
            &recorded,
            after,
            provider,
            epoch,
            delay,
            effects_before.push(Effect::Quota(told)),
            effects_after,
        );
    refresh_timer_is_the_current_one(
        &recorded,
        after,
        provider,
        epoch,
        delay,
        effects_before.push(Effect::Quota(told)),
        effects_after,
    );
    let secs = delay.nanos as int / NANOS_PER_SEC as int;
    assert(1 <= secs <= 900);
    assert(delay.nanos == secs * 1_000_000_000);
}

/// The model that a quota route is resolved for is the first one of its provider.
pub proof fn quota_uses_the_first_model(
    models: Seq<ModelContent>,
    provider: Seq<char>,
    model: Option<ModelId>,
    i: int,
)
    requires
        is_first_model(models, provider, model),
        0 <= i < models.len(),
        models[i].provider == provider,
        forall|j: int| 0 <= j < i ==> (#[trigger] models[j]).provider != provider,
    ensures
        model matches Some(found) && found.provider@ == provider && found.model@ == models[i].model,
{
    if let Some(found) = model {
        let k = choose|k: int| #[trigger] first_model_at(models, provider, found, k);
        if k < i {
            assert(models[k].provider != provider);
        } else if i < k {
            assert(models[i].provider != provider);
        }
    }
}

/// The initial quota pass takes the retained profiles one at a time, from the first, resolves each
/// on its own, and asks at most once for each; with none left it changes nothing more.
pub proof fn initial_quota_takes_one_profile(
    before: &ProviderRuntime,
    after: &ProviderRuntime,
    now: Now,
    effects_before: Seq<Effect>,
    effects_after: Seq<Effect>,
    name: Seq<char>,
)
    requires
        initial_quota_advanced(before, after, now, effects_before, effects_after),
    ensures
        before.startup_quota_profiles is None ==> *after == *before && effects_after
            == effects_before,
        before.startup_quota_profiles matches Some(retained) ==> (retained.names().len() == 0 ==> {
            &&& after.startup_quota_profiles is None
            &&& effects_after == effects_before
        }),
        before.startup_quota_profiles matches Some(retained) ==> (retained.names().len() > 0 ==> {
            &&& after.startup_quota_profiles matches Some(rest) ==> {
                &&& !rest.profiles().contains_key(retained.names()[0])
                &&& name != retained.names()[0] ==> lookup(rest.profiles(), name) == lookup(
                    retained.profiles(),
                    name,
                ) && lookup(rest.credential_map(), name) == lookup(retained.credential_map(), name)
            }
            &&& after.startup_quota_profiles is None ==> (retained.profiles().contains_key(name)
                ==> name == retained.names()[0])
        }),
        effects_before.len() <= effects_after.len() <= effects_before.len() + 1,
        effects_after.take(effects_before.len() as int) == effects_before,
        effects_before.len() < effects_after.len() ==> effects_after.last() is Route,
        after.prompt_queue == before.prompt_queue,
        after.admission == before.admission,
        after.routes.codex == before.routes.codex,
{
    assert(effects_before.take(effects_before.len() as int) == effects_before);
    match before.startup_quota_profiles {
        Some(retained) if retained.names().len() > 0 => {
            let first = retained.names()[0];
            let taken = ProviderRuntime {
                startup_quota_profiles: after.startup_quota_profiles,
                ..*before
            };
            let selected = choose|selected: BuiltinProviderProfiles|
                {
                    &&& selected.profiles() == only(retained.profiles(), first)
                    &&& selected.credential_map() == only(retained.credential_map(), first)
                    &&& selected.missing() == Set::<Seq<char>>::empty()
                    &&& #[trigger] first_profile_advanced(
                        &taken,
                        after,
                        &selected,
                        now,
                        effects_before,
                        effects_after,
                    )
                };
            assert(first_profile_advanced(
                &taken,
                after,
                &selected,
                now,
                effects_before,
                effects_after,
            ));
            lemma_first_profile(&taken, after, &selected, now, effects_before, effects_after);
            if after.startup_quota_profiles is None && retained.profiles().contains_key(name)
                && name != first {
                assert(retained.profiles().remove(first).contains_key(name));
            }
        },
        _ => {},
    }
}

proof fn lemma_first_profile(
    before: &ProviderRuntime,
    after: &ProviderRuntime,
    selected: &BuiltinProviderProfiles,
    now: Now,
    effects_before: Seq<Effect>,
    effects_after: Seq<Effect>,
)
    requires
        first_profile_advanced(before, after, selected, now, effects_before, effects_after),
    ensures
        effects_before.len() <= effects_after.len() <= effects_before.len() + 1,
        effects_after.take(effects_before.len() as int) == effects_before,
        effects_before.len() < effects_after.len() ==> effects_after.last() is Route,
        *after == (ProviderRuntime { routes: after.routes, ..*before }),
        after.routes.codex == before.routes.codex,
{
    let models = models_of(selected.profiles(), selected.names(), &before.routes.catalog);
    assert(effects_before.take(effects_before.len() as int) == effects_before);
    if models.len() > 0 {
        let (looked_up, model, resolved) = choose|
            looked_up: ProviderRuntime,
            model: ModelId,
            resolved: Option<PromptBackend>,
        |
            {
                &&& #[trigger] initial_lookup(before, &looked_up, selected, model, now, resolved)
                &&& match resolved {
                    Some(PromptBackend::Responses(config)) => exists|
                        identity: BackendProfileIdentity,
                        effects: RouteEffects,
                    |
                        {
                            &&& #[trigger] quota_followed(
                                &looked_up,
                                after,
                                model.provider,
                                config,
                                identity,
                                now,
                                effects,
                            )
                            &&& effects_after == effects_before.push(Effect::Route(effects))
                        },
                    _ => *after == looked_up && effects_after == effects_before,
                }
            };
        if let Some(PromptBackend::Responses(config)) = resolved {
            let (identity, effects) = choose|
                identity: BackendProfileIdentity,
                effects: RouteEffects,
            |
                {
                    &&& #[trigger] quota_followed(
                        &looked_up,
                        after,
                        model.provider,
                        config,
                        identity,
                        now,
                        effects,
                    )
                    &&& effects_after == effects_before.push(Effect::Route(effects))
                };
            assert(effects_after.take(effects_before.len() as int) == effects_before);
        }
    }
}

/// A quota refresh resolves the first model of the provider that was asked for, from that
/// provider's profile alone; a provider without models is not resolved.
pub proof fn quota_refresh_is_for_its_provider(
    before: &ProviderRuntime,
    after: &ProviderRuntime,
    provider: Seq<char>,
    replies: Map<Seq<char>, SecretReply>,
    claims: &JwtClaims,
    now_ms: u64,
    effects_before: Seq<Effect>,
    effects_after: Seq<Effect>,
    attempt: RouteAttempt,
    name: Seq<char>,
)
    requires
        quota_refresh_begun(
            before,
            after,
            provider,
            replies,
            claims,
            now_ms,
            effects_before,
            effects_after,
            attempt,
        ),
    ensures
        attempt.profiles.profiles().contains_key(name) ==> name == provider,
        attempt.model matches Some(model) ==> model.provider@ == provider,
        attempt.model is None ==> attempt.start == RouteStart::Resolved(None),
        *after == (ProviderRuntime { routes: after.routes, ..*before }),
        before.secret_rpc ==> effects_after.len() == effects_before.len() + 1
            && effects_after.last() is Publication,
        !before.secret_rpc ==> effects_after == effects_before,
{
    let loaded = choose|loaded: ProviderRuntime|
        {
            &&& #[trigger] selected_loaded(
                before,
                &loaded,
                provider,
                replies,
                &attempt.profiles,
                effects_before,
                effects_after,
            )
            &&& is_first_model(
                models_of(
                    attempt.profiles.profiles(),
                    attempt.profiles.names(),
                    &loaded.routes.catalog,
                ),
                provider,
                attempt.model,
            )
            &&& attempt.observes_refresh == (attempt.profiles.oauth_path(provider) is Some)
            &&& match attempt.model {
                Some(model) => {
                    &&& responses_route_begun(
                        &loaded.routes,
                        &after.routes,
                        model,
                        &attempt.profiles,
                        claims,
                        now_ms,
                        attempt.start,
                    )
                    &&& *after == (ProviderRuntime { routes: after.routes, ..loaded })
                },
                None => attempt.start == RouteStart::Resolved(None) && *after == loaded,
            }
        };
    selected_loading_is_contained(
        before,
        &loaded,
        provider,
        replies,
        &attempt.profiles,
        effects_before,
        effects_after,
        name,
    );
}

/// A compaction lookup that found a route remembers that route's identity for its provider, and
/// for no other; one that found none remembers nothing.
pub proof fn found_compaction_route_is_remembered(
    before: &Routes,
    after: &Routes,
    provider: Seq<char>,
    config: Option<ResolvedConfig>,
    name: Seq<char>,
)
    requires
        compact_recorded(before, after, provider, config),
    ensures
        config is None ==> *after == *before,
        config matches Some(found) ==> {
            &&& after.compact.identities@.contains_key(provider)
            &&& names_route(
                after.identities@,
                after.compact.identities@[provider],
                config_key(found),
            )
        },
        name != provider ==> lookup(after.compact.identities@, name) == lookup(
            before.compact.identities@,
            name,
        ),
        after.compact.unavailable == before.compact.unavailable,
        after.codex == before.codex && after.rejections == before.rejections,
        after.shared_cooldowns == before.shared_cooldowns,
{
}

/// A compaction lookup that needs no refresh takes the route that was resolved, and takes none
/// from a backend without responses.
pub proof fn resolved_compaction_route_is_taken(
    model: ModelId,
    codex: &CodexRoutes,
    profiles: Map<Seq<char>, ProfileContent>,
    start: RouteStart,
    refreshed: Option<Result<OpenAiAuth, RefreshCredentialsError>>,
    now_ms: u64,
    config: Option<ResolvedConfig>,
)
    requires
        compact_config(model, codex, profiles, start, refreshed, now_ms, config),
        start is Resolved,
    ensures
        start matches RouteStart::Resolved(Some(PromptBackend::Responses(resolved))) ==> config
            == Some(resolved),
        config matches Some(found) ==> start == RouteStart::Resolved(
            Some(PromptBackend::Responses(found)),
        ),
{
}

/// A provider whose route is lost is forgotten by the quota and by prewarming, and both say so; one
/// whose route is found is followed, and is looked at again after a while when nothing is fetched.
pub proof fn lost_route_is_forgotten(
    before: &ProviderRuntime,
    after: &ProviderRuntime,
    provider: String,
    config: Option<ResolvedConfig>,
    now: Now,
    effects_before: Seq<Effect>,
    effects_after: Seq<Effect>,
)
    requires
        quota_refreshed(before, after, provider, config, now, effects_before, effects_after),
    ensures
        config is None ==> {
            &&& !after.routes.quota@.contains_key(provider@)
            &&& !after.routes.prewarm_profile_identities@.contains_key(provider@)
            &&& effects_after.len() == effects_before.len() + 1
            &&& effects_after.last() matches Effect::Route(effects) && {
                &&& effects.provider == provider
                &&& effects.fetch is None
                &&& effects.quota_report is Some <==> before.routes.quota@.contains_key(provider@)
                &&& effects.prewarm_changed
                    == before.routes.prewarm_profile_identities@.contains_key(provider@)
            }
        },
        config is Some ==> {
            &&& effects_after.len() > effects_before.len()
            &&& effects_after[effects_before.len() as int] matches Effect::Route(effects)
                && effects.provider == provider
            &&& effects_after.len() > effects_before.len() + 1 ==> {
                &&& effects_after[effects_before.len() as int] matches Effect::Route(effects)
                    && effects.fetch is None
                &&& effects_after.len() == effects_before.len() + 2
                &&& effects_after.last() matches Effect::QuotaRefreshTimer {
                    provider: timed,
                    delay,
                    ..
                } && timed == provider && delay.nanos == 60_000_000_000
            }
        },
        after.prompt_queue == before.prompt_queue,
        after.admission == before.admission,
        effects_after.take(effects_before.len() as int) == effects_before,
{
    match config {
        Some(config) => {
            let (ensured, identity, effects) = choose|
                ensured: ProviderRuntime,
                identity: BackendProfileIdentity,
                effects: RouteEffects,
            |
                {
                    let told = effects_before.push(Effect::Route(effects));
                    &&& #[trigger] quota_followed(
                        before,
                        &ensured,
                        provider,
                        config,
                        identity,
                        now,
                        effects,
                    )
                    &&& if effects.fetch is None && ensured.routes.quota@.contains_key(
                        provider@,
                    ) {
                        refresh_scheduled(
                            &ensured,
                            after,
                            provider,
                            ensured.routes.quota@[provider@].epoch,
                            Span { nanos: (QUOTA_FETCH_MIN_INTERVAL_SECS * NANOS_PER_SEC) as u128 },
                            told,
                            effects_after,
                        )
                    } else {
                        *after == ensured && effects_after == told
                    }
                };
            assert(effects_after.take(effects_before.len() as int) == effects_before);
        },
        None => {
            assert(effects_after.take(effects_before.len() as int) == effects_before);
        },
    }
}

} // verus!
