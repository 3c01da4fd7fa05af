//! Provider routes of the running extension: identities, cooldowns, declarations, and quota.

use vstd::prelude::*;

use crate::clock::Moment;
use crate::credentials::CredentialObservation;
use crate::models::{
    apply_compact_route_downgrades, clone_declaration, declaration_needs_publication,
    declared_contents, declared_generations, downgraded_all, model_contents, models_for_profiles,
    models_of, reconciled_evidence, replace_provider_models, replaced_models, replacement_is_exact,
    ChatGptCatalog, CompactEvidence, CompactState, ModelContent, ProviderModelInfo,
};
use crate::names::NameTable;
use crate::oauth::{OAuthRefreshRejection, OAuthRefreshRejectionCache, Unauthorized};
use crate::pairs::PairKey;
use crate::profiles::{
    generations, resolve_prompt_backend_without_refresh, resolves_to, BuiltinProviderProfiles,
    ProfileContent,
};
use crate::prompt::{
    backend_key, known_routes, names_route, BackendIdentities, BackendProfileIdentity, CodexRoute,
    CodexRoutes, ModelId, PromptBackend, ResolvedConfig, RouteKey,
};
use crate::quota::{
    begun, cleared, ensured, QuotaCoordinator, QuotaEpoch, QuotaLimits, QuotaProfile, QuotaReport,
};
use crate::retry::{identity_changed, lookup, reconcile_inference_identity, SharedCooldown};
use crate::text::{blank, optional_text};

verus! {

/// One observation of the clocks.
#[derive(Clone, Copy, Debug, PartialEq, Eq, Structural)]
pub struct Now {
    /// Monotonic instant.
    pub moment: Moment,
    /// Unix time in milliseconds.
    pub unix_ms: u64,
}

/// A full quota fetch to start.
pub struct QuotaFetch {
    pub provider: String,
    pub config: ResolvedConfig,
    pub profile_epoch: QuotaEpoch,
    pub fetch_start_sequence: u64,
}

/// What one route resolution asks the host to do, in this order.
pub struct RouteEffects {
    pub provider: String,
    /// Shared cooldown generation whose parked work is released.
    pub released: Option<u64>,
    /// The inference identity changed: cancel prewarms and drop the provider's connections.
    pub profile_changed: bool,
    /// Complete declaration to publish.
    pub declared: Option<Vec<ProviderModelInfo>>,
    /// The prewarm identity changed: cancel prewarms and drop the provider's connections.
    pub prewarm_changed: bool,
    /// Quota report to publish.
    pub quota_report: Option<QuotaReport>,
    /// Quota fetch to start.
    pub fetch: Option<QuotaFetch>,
}

/// What one publication asks the host to do, in this order.
pub struct PublicationEffects {
    /// Compact identities that no provider has any more.
    pub retired: Vec<BackendProfileIdentity>,
    /// Complete declaration to publish.
    pub declared: Option<Vec<ProviderModelInfo>>,
}

/// Route state owned by the main loop.
pub struct Routes {
    pub catalog: ChatGptCatalog,
    /// Identities that the host has described.
    pub codex: CodexRoutes,
    pub identities: BackendIdentities,
    /// Last resolved inference identity of every provider.
    pub provider_profile_identities: NameTable<Option<BackendProfileIdentity>>,
    /// Account or profile cooldowns by provider.
    pub shared_cooldowns: NameTable<SharedCooldown>,
    /// Latest cooldown evidence generation.
    pub shared_cooldown_generation: u64,
    /// Last identity used to supervise prewarm transport state.
    pub prewarm_profile_identities: NameTable<BackendProfileIdentity>,
    pub rejections: OAuthRefreshRejectionCache,
    pub compact: CompactState,
    /// Latest complete declaration.
    pub declared_models: Option<Vec<ProviderModelInfo>>,
    /// Credential generations observed by the latest publication.
    pub declared_observations: Option<NameTable<CredentialObservation>>,
    pub quota: QuotaCoordinator,
}

/// Providers with a table entry other than `identity`.
pub open spec fn replaces<V>(table: Map<Seq<char>, V>, key: Seq<char>, value: V) -> bool {
    table.contains_key(key) && table[key] != value
}

/// Everything but the declaration and the compact evidence is as in `other`.
pub open spec fn same_but_declaration(after: &Routes, before: &Routes) -> bool {
    &&& after.catalog == before.catalog
    &&& after.codex == before.codex
    &&& after.identities == before.identities
    &&& after.provider_profile_identities == before.provider_profile_identities
    &&& after.shared_cooldowns == before.shared_cooldowns
    &&& after.shared_cooldown_generation == before.shared_cooldown_generation
    &&& after.prewarm_profile_identities == before.prewarm_profile_identities
    &&& after.rejections == before.rejections
    &&& after.quota == before.quota
}

/// What publishing complete snapshots does: stale compact evidence is dropped, downgrades are
/// applied, and an unchanged declaration is not repeated.
pub open spec fn published(
    before: &Routes,
    after: &Routes,
    models: Seq<ModelContent>,
    observations: NameTable<CredentialObservation>,
    effects: PublicationEffects,
) -> bool {
    let evidence = match before.declared_observations {
        Some(previous) => reconciled_evidence(
            reconciled_evidence(
                before.compact.evidence(),
                previous.keys(),
                generations(previous@),
                generations(observations@),
            ),
            observations.keys(),
            generations(previous@),
            generations(observations@),
        ),
        None => before.compact.evidence(),
    };
    let complete = downgraded_all(models, evidence.identities, evidence.unavailable);
    let current = declared_contents(before.declared_models) == Some(complete)
        && declared_generations(before.declared_observations) == Some(generations(observations@));
    &&& same_but_declaration(after, before)
    &&& (CompactEvidence {
        identities: after.compact.identities@,
        unavailable: after.compact.unavailable@,
        retired: effects.retired@,
    }) == evidence
    &&& if current {
        &&& effects.declared is None
        &&& after.declared_models == before.declared_models
        &&& after.declared_observations == before.declared_observations
    } else {
        &&& declared_contents(effects.declared) == Some(complete)
        &&& declared_contents(after.declared_models) == Some(complete)
        &&& after.declared_observations == Some(observations)
    }
}

/// The observations of a complete declaration after one provider was read again.
pub open spec fn refreshed_observations(
    declared: Option<NameTable<CredentialObservation>>,
    provider: Seq<char>,
    observations: Map<Seq<char>, CredentialObservation>,
) -> Map<Seq<char>, CredentialObservation> {
    let previous = match declared {
        Some(declared) => declared@,
        None => Map::empty(),
    };
    previous.remove(provider).union_prefer_right(observations)
}

impl Routes {
    /// No route is resolved, nothing is declared, and quota work has `limits`.
    pub open spec fn unresolved(&self, catalog: ChatGptCatalog, limits: QuotaLimits) -> bool {
        &&& self.catalog == catalog
        &&& self.codex@ == Seq::<CodexRoute>::empty()
        &&& self.identities@ == Seq::<RouteKey>::empty()
        &&& self.provider_profile_identities@ == Map::<
            Seq<char>,
            Option<BackendProfileIdentity>,
        >::empty()
        &&& self.shared_cooldowns@ == Map::<Seq<char>, SharedCooldown>::empty()
        &&& self.shared_cooldown_generation == 0
        &&& self.prewarm_profile_identities@ == Map::<Seq<char>, BackendProfileIdentity>::empty()
        &&& self.rejections.rejections() == Map::<Seq<char>, OAuthRefreshRejection>::empty()
        &&& self.rejections.unauthorized_map() == Map::<Seq<char>, Unauthorized>::empty()
        &&& self.compact.identities@ == Map::<Seq<char>, BackendProfileIdentity>::empty()
        &&& self.compact.unavailable@ == Set::<u64>::empty()
        &&& self.declared_models is None
        &&& self.declared_observations is None
        &&& self.quota@ == Map::<Seq<char>, QuotaProfile>::empty()
        &&& self.quota.last_epoch() == 0
        &&& self.quota.spec_limits() == limits
    }

    /// A runtime without any resolved route.
    pub fn new(catalog: ChatGptCatalog, limits: QuotaLimits) -> (res: Self)
        ensures
            res.identities.wf(),
            res.unresolved(catalog, limits),
    {
        Routes {
            catalog,
            codex: CodexRoutes::new(),
            identities: BackendIdentities::new(),
            provider_profile_identities: NameTable::new(),
            shared_cooldowns: NameTable::new(),
            shared_cooldown_generation: 0,
            prewarm_profile_identities: NameTable::new(),
            rejections: OAuthRefreshRejectionCache::new(),
            compact: CompactState::new(),
            declared_models: None,
            declared_observations: None,
            quota: QuotaCoordinator::new(limits),
        }
    }

    /// Publishes a replacement from complete model and credential snapshots.
    pub fn publish_models_if_changed_from_models(
        &mut self,
        models: Vec<ProviderModelInfo>,
        observations: NameTable<CredentialObservation>,
    ) -> (res: PublicationEffects)
        ensures
            published(old(self), final(self), model_contents(models@), observations, res),
    {
        let mut models = models;
        let retired: Vec<BackendProfileIdentity> = match &self.declared_observations {
            Some(previous) => self.compact.reconcile_compact_state_after_credential_changes(
                previous,
                &observations,
            ),
            None => Vec::new(),
        };
        assert(old(self).declared_observations is None ==> retired@ =~= Seq::<
            BackendProfileIdentity,
        >::empty());
        apply_compact_route_downgrades(
            &mut models,
            &self.compact.identities,
            &self.compact.unavailable,
        );
        if !declaration_needs_publication(
            &self.declared_models,
            &self.declared_observations,
            &models,
            &observations,
        ) {
            return PublicationEffects { retired, declared: None };
        }
        let declared = clone_declaration(&models);
        self.declared_models = Some(models);
        self.declared_observations = Some(observations);
        PublicationEffects { retired, declared: Some(declared) }
    }

    /// Publishes one replacement declaration after credential or route usability changes.
    pub fn publish_models_if_changed(
        &mut self,
        profiles: &BuiltinProviderProfiles,
        observations: NameTable<CredentialObservation>,
    ) -> (res: PublicationEffects)
        ensures
            published(
                old(self),
                final(self),
                models_of(profiles.profiles(), profiles.names(), &old(self).catalog),
                observations,
                res,
            ),
    {
        let models = models_for_profiles(profiles, &self.catalog);
        self.publish_models_if_changed_from_models(models, observations)
    }

    /// Replaces one provider's contribution inside the latest complete declaration after selected
    /// credential hydration.
    pub fn publish_selected_models_if_changed(
        &mut self,
        provider: &String,
        profiles: &BuiltinProviderProfiles,
        observations: NameTable<CredentialObservation>,
    ) -> (res: PublicationEffects)
        ensures
            selected_published(old(self), final(self), provider@, profiles, observations, res),
    {
        let models = match &self.declared_models {
            None => {
                return self.publish_models_if_changed(profiles, observations);
            },
            Some(previous) => replace_provider_models(previous, provider, profiles, &self.catalog),
        };
        let mut complete: NameTable<CredentialObservation> = NameTable::new();
        if let Some(previous) = &self.declared_observations {
            copy_observations(&mut complete, previous);
        }
        let _ = complete.remove(provider.as_str());
        copy_observations(&mut complete, &observations);
        let ghost expected = refreshed_observations(
            self.declared_observations,
            provider@,
            observations@,
        );
        assert(complete@ =~= expected);
        let effects = self.publish_models_if_changed_from_models(models, complete);
        assert(published_observations(expected, complete));
        effects
    }
}

/// `table` holds `observations`.
pub open spec fn published_observations(
    observations: Map<Seq<char>, CredentialObservation>,
    table: NameTable<CredentialObservation>,
) -> bool {
    table@ == observations
}

/// What publishing one provider's contribution does: everything known of the others is kept.
pub open spec fn selected_published(
    before: &Routes,
    after: &Routes,
    provider: Seq<char>,
    profiles: &BuiltinProviderProfiles,
    observations: NameTable<CredentialObservation>,
    effects: PublicationEffects,
) -> bool {
    let selected = models_of(profiles.profiles(), profiles.names(), &before.catalog);
    match declared_contents(before.declared_models) {
        None => published(before, after, selected, observations, effects),
        Some(previous) => exists|complete: NameTable<CredentialObservation>|
            {
                &&& #[trigger] published_observations(
                    refreshed_observations(
                        before.declared_observations,
                        provider,
                        observations@,
                    ),
                    complete,
                )
                &&& published(
                    before,
                    after,
                    replaced_models(previous, provider, selected),
                    complete,
                    effects,
                )
            },
    }
}

/// Adds every observation of `from` to `to`.
fn copy_observations(
    to: &mut NameTable<CredentialObservation>,
    from: &NameTable<CredentialObservation>,
)
    ensures
        final(to)@ == old(to)@.union_prefer_right(from@),
{
    let n: usize = from.len();
    let mut i: usize = 0;
    let ghost start = to@;
    assert(start.union_prefer_right(from@.restrict(from.keys().take(0).to_set())) =~= start);
    while i < n
        invariant
            n == from.keys().len(),
            i <= n,
            to@ == start.union_prefer_right(
                from@.restrict(from.keys().take(i as int).to_set()),
            ),
        decreases n - i,
    {
        let name = from.key_at(i);
        to.insert(name.clone(), from.value_at(i).clone());
        proof {
            let before = from.keys().take(i as int);
            let after = from.keys().take(i + 1);
            assert(after =~= before.push(name@));
            assert forall|x: Seq<char>| after.to_set().contains(x) == (before.to_set().contains(x)
                || x == name@) by {
                if before.contains(x) {
                    let j = before.index_of(x);
                    assert(after[j] == x);
                }
                if x == name@ {
                    assert(after[i as int] == x);
                }
                if after.contains(x) && x != name@ {
                    let j = after.index_of(x);
                    assert(before[j] == x);
                }
            }
            assert(to@ =~= start.union_prefer_right(from@.restrict(after.to_set())));
        }
        i = i + 1;
    }
    proof {
        assert(from.keys().take(n as int) =~= from.keys());
        assert(from@.restrict(from.keys().to_set()) =~= from@);
    }
}

/// The backend of a prompt: what its profile resolves to, or unavailable, naming the provider when
/// it needs a fresh login.
pub open spec fn admitted_backend(
    model: ModelId,
    codex: &CodexRoutes,
    profiles: &BuiltinProviderProfiles,
    now_ms: u64,
    backend: PromptBackend,
) -> bool {
    ||| resolves_to(
        model,
        codex,
        lookup(profiles.profiles(), model.provider@),
        now_ms,
        Some(backend),
    )
    ||| {
        &&& resolves_to(model, codex, lookup(profiles.profiles(), model.provider@), now_ms, None)
        &&& backend == PromptBackend::Unavailable {
            login_required: if profiles.missing().contains(model.provider@) {
                Some(model.provider)
            } else {
                None
            },
        }
    }
}

/// The identity of a resolved backend among the known routes.
pub open spec fn identifies(
    routes: Seq<RouteKey>,
    identity: Option<BackendProfileIdentity>,
    backend: PromptBackend,
) -> bool {
    match (identity, backend_key(backend)) {
        (Some(identity), Some(key)) => names_route(routes, identity, key),
        (None, None) => true,
        _ => false,
    }
}

/// What resolving a prompt's backend does to the route state.
pub open spec fn route_admitted(
    before: &Routes,
    after: &Routes,
    model: ModelId,
    profiles: &BuiltinProviderProfiles,
    now: Now,
    backend: PromptBackend,
    identity: Option<BackendProfileIdentity>,
    effects: RouteEffects,
) -> bool {
    &&& admitted_backend(model, &before.codex, profiles, now.unix_ms, backend)
    &&& after.identities.wf()
    &&& after.identities@ == known_routes(before.identities@, backend_key(backend))
    &&& identifies(after.identities@, identity, backend)
    &&& after.catalog == before.catalog
    &&& after.codex == before.codex
    &&& after.rejections.unauthorized_map() == before.rejections.unauthorized_map()
    &&& after.rejections.rejections() == match lookup(
        profiles.profiles(),
        model.provider@,
    ) {
        Some(ProfileContent::Chatgpt { .. }) => before.rejections.rejections(),
        _ => before.rejections.rejections().remove(model.provider@),
    }
    &&& route_observed(before, after, model.provider, profiles, now, backend, identity, effects)
}

/// What observing a resolved backend does to the route state: a changed identity releases the
/// provider's cooldown, and quota and prewarm state follow the route.
pub open spec fn route_observed(
    before: &Routes,
    after: &Routes,
    provider: String,
    profiles: &BuiltinProviderProfiles,
    now: Now,
    backend: PromptBackend,
    identity: Option<BackendProfileIdentity>,
    effects: RouteEffects,
) -> bool {
    let changed = identity_changed(before.provider_profile_identities@, provider@, identity);
    &&& effects.provider == provider
    &&& effects.profile_changed == changed
    &&& effects.released == if changed {
        match lookup(before.shared_cooldowns@, provider@) {
            Some(cooldown) => Some(cooldown.generation),
            None => None,
        }
    } else {
        None
    }
    &&& after.provider_profile_identities@ == before.provider_profile_identities@.insert(
        provider@,
        identity,
    )
    &&& after.shared_cooldowns@ == if changed {
        before.shared_cooldowns@.remove(provider@)
    } else {
        before.shared_cooldowns@
    }
    &&& after.shared_cooldown_generation == before.shared_cooldown_generation
    &&& after.declared_observations == before.declared_observations
    &&& after.compact.unavailable@ == before.compact.unavailable@
    &&& match (backend, identity) {
        (PromptBackend::Responses(config), Some(identity)) => {
            let superseded = replaces(before.compact.identities@, provider@, identity);
            &&& after.compact.identities@ == before.compact.identities@.insert(provider@, identity)
            &&& if superseded {
                let selected = models_of(
                    profiles.profiles(),
                    profiles.names(),
                    &before.catalog,
                );
                let complete = downgraded_all(
                    match declared_contents(before.declared_models) {
                        Some(previous) => replaced_models(previous, provider@, selected),
                        None => selected,
                    },
                    after.compact.identities@,
                    after.compact.unavailable@,
                );
                &&& declared_contents(effects.declared) == Some(complete)
                &&& declared_contents(after.declared_models) == Some(complete)
            } else {
                effects.declared is None && after.declared_models == before.declared_models
            }
            &&& quota_ensured(before, after, provider, config, identity, now, effects)
        },
        _ => {
            &&& after.compact.identities@ == before.compact.identities@
            &&& effects.declared is None
            &&& after.declared_models == before.declared_models
            &&& effects.prewarm_changed == before.prewarm_profile_identities@.contains_key(
                provider@,
            )
            &&& after.prewarm_profile_identities@ == before.prewarm_profile_identities@.remove(
                provider@,
            )
            &&& cleared(&before.quota, &after.quota, provider, effects.quota_report)
            &&& effects.fetch is None
        },
    }
}

/// What ensuring a provider's quota profile does: prewarm state follows the identity, a new
/// identity starts a new epoch, and a full fetch starts when one is due.
pub open spec fn quota_ensured(
    before: &Routes,
    after: &Routes,
    provider: String,
    config: ResolvedConfig,
    identity: BackendProfileIdentity,
    now: Now,
    effects: RouteEffects,
) -> bool {
    &&& effects.prewarm_changed == replaces(
        before.prewarm_profile_identities@,
        provider@,
        identity,
    )
    &&& after.prewarm_profile_identities@ == before.prewarm_profile_identities@.insert(
        provider@,
        identity,
    )
    &&& exists|ready: QuotaCoordinator, started: Option<(QuotaEpoch, u64)>|
        {
            &&& #[trigger] ensured(
                &before.quota,
                &ready,
                provider,
                config.identity.quota,
                now.unix_ms,
                effects.quota_report,
            )
            &&& #[trigger] begun(
                &ready,
                &after.quota,
                provider@,
                now.unix_ms,
                now.moment,
                started,
            )
            &&& effects.fetch == match started {
                Some((profile_epoch, fetch_start_sequence)) => Some(
                    QuotaFetch { provider, config, profile_epoch, fetch_start_sequence },
                ),
                None => None,
            }
        }
}

impl Routes {
    /// Follows a provider's prewarm identity; reports whether it changed.
    pub fn reconcile_prewarm_profile(
        &mut self,
        provider: &String,
        identity: BackendProfileIdentity,
    ) -> (res: bool)
        ensures
            res == replaces(old(self).prewarm_profile_identities@, provider@, identity),
            final(self).prewarm_profile_identities@ == old(
                self,
            ).prewarm_profile_identities@.insert(provider@, identity),
            *final(self) == (Routes {
                prewarm_profile_identities: final(self).prewarm_profile_identities,
                ..*old(self)
            }),
    {
        let changed: bool = match self.prewarm_profile_identities.get(provider.as_str()) {
            Some(previous) => *previous != identity,
            None => false,
        };
        self.prewarm_profile_identities.insert(provider.clone(), identity);
        changed
    }

    /// Forgets a provider's prewarm identity; reports whether there was one.
    pub fn clear_prewarm_profile(&mut self, provider: &String) -> (res: bool)
        ensures
            res == old(self).prewarm_profile_identities@.contains_key(provider@),
            final(self).prewarm_profile_identities@ == old(
                self,
            ).prewarm_profile_identities@.remove(provider@),
            *final(self) == (Routes {
                prewarm_profile_identities: final(self).prewarm_profile_identities,
                ..*old(self)
            }),
    {
        match self.prewarm_profile_identities.remove(provider.as_str()) {
            Some(_) => true,
            None => false,
        }
    }

    /// Ensures a provider's quota profile and starts a full fetch when one is due.
    pub fn ensure_quota_profile(
        &mut self,
        provider: &String,
        config: &ResolvedConfig,
        identity: BackendProfileIdentity,
        now: Now,
        effects: &mut RouteEffects,
    )
        ensures
            quota_ensured(
                old(self),
                final(self),
                *provider,
                *config,
                identity,
                now,
                *final(effects),
            ),
            *final(self) == (Routes {
                prewarm_profile_identities: final(self).prewarm_profile_identities,
                quota: final(self).quota,
                ..*old(self)
            }),
            *final(effects) == (RouteEffects {
                prewarm_changed: final(effects).prewarm_changed,
                quota_report: final(effects).quota_report,
                fetch: final(effects).fetch,
                ..*old(effects)
            }),
    {
        effects.prewarm_changed = self.reconcile_prewarm_profile(provider, identity);
        effects.quota_report = self.quota.ensure_profile(
            provider.clone(),
            config.identity.quota,
            now.unix_ms,
        );
        let ghost ready = self.quota;
        let started = self.quota.begin_fetch(provider, now.unix_ms, now.moment);
        effects.fetch = match started {
            Some((profile_epoch, fetch_start_sequence)) => Some(
                QuotaFetch {
                    provider: provider.clone(),
                    config: config.clone(),
                    profile_epoch,
                    fetch_start_sequence,
                },
            ),
            None => None,
        };
        assert(ensured(
            &old(self).quota,
            &ready,
            *provider,
            config.identity.quota,
            now.unix_ms,
            effects.quota_report,
        ));
        assert(begun(
            &ready,
            &self.quota,
            provider@,
            now.unix_ms,
            now.moment,
            started,
        ));
    }

    /// Observes one resolved backend: identities, cooldowns, declarations, prewarms, and quota.
    fn observe_route(
        &mut self,
        provider: &String,
        profiles: &BuiltinProviderProfiles,
        now: Now,
        backend: &PromptBackend,
        identity: Option<BackendProfileIdentity>,
    ) -> (res: RouteEffects)
        requires
            identity is Some <==> *backend !is Unavailable,
        ensures
            route_observed(
                old(self),
                final(self),
                *provider,
                profiles,
                now,
                *backend,
                identity,
                res,
            ),
            final(self).catalog == old(self).catalog,
            final(self).codex == old(self).codex,
            final(self).identities == old(self).identities,
            final(self).rejections == old(self).rejections,
    {
        let (changed, removed) = reconcile_inference_identity(
            &mut self.provider_profile_identities,
            &mut self.shared_cooldowns,
            provider,
            identity,
        );
        let mut effects = RouteEffects {
            provider: provider.clone(),
            released: match removed {
                Some(cooldown) => Some(cooldown.generation),
                None => None,
            },
            profile_changed: changed,
            declared: None,
            prewarm_changed: false,
            quota_report: None,
            fetch: None,
        };
        match (backend, identity) {
            (PromptBackend::Responses(config), Some(identity)) => {
                let superseded: bool = match self.compact.identities.get(provider.as_str()) {
                    Some(previous) => *previous != identity,
                    None => false,
                };
                self.compact.identities.insert(provider.clone(), identity);
                if superseded {
                    let mut models = match &self.declared_models {
                        Some(previous) => replace_provider_models(
                            previous,
                            provider,
                            profiles,
                            &self.catalog,
                        ),
                        None => models_for_profiles(profiles, &self.catalog),
                    };
                    apply_compact_route_downgrades(
                        &mut models,
                        &self.compact.identities,
                        &self.compact.unavailable,
                    );
                    effects.declared = Some(clone_declaration(&models));
                    self.declared_models = Some(models);
                }
                self.ensure_quota_profile(provider, config, identity, now, &mut effects);
            },
            _ => {
                effects.prewarm_changed = self.clear_prewarm_profile(provider);
                effects.quota_report = self.quota.clear_profile(provider);
            },
        }
        effects
    }

    /// Resolves a prompt whose OAuth state machine already completed, without re-entering
    /// blocking secret or network work.
    pub fn resolve_admitted_backend_with_quota(
        &mut self,
        model: &ModelId,
        profiles: &BuiltinProviderProfiles,
        now: Now,
    ) -> (res: (PromptBackend, Option<BackendProfileIdentity>, RouteEffects))
        requires
            old(self).identities.wf(),
        ensures
            route_admitted(
                old(self),
                final(self),
                *model,
                profiles,
                now,
                res.0,
                res.1,
                res.2,
            ),
    {
        let resolved = resolve_prompt_backend_without_refresh(
            model,
            &self.codex,
            profiles,
            &mut self.rejections,
            now.unix_ms,
        );
        let backend = match resolved {
            Some(backend) => backend,
            None => PromptBackend::Unavailable {
                login_required: if profiles.missing_login(model.provider.as_str()) {
                    Some(model.provider.clone())
                } else {
                    None
                },
            },
        };
        let identity = self.identities.backend_profile_identity(&backend);
        let effects = self.observe_route(&model.provider, profiles, now, &backend, identity);
        (backend, identity, effects)
    }

    /// Observes a backend that the host resolved through a credential refresh.
    pub fn observe_resolved_backend(
        &mut self,
        model: &ModelId,
        profiles: &BuiltinProviderProfiles,
        resolved: Option<PromptBackend>,
        now: Now,
    ) -> (res: (PromptBackend, Option<BackendProfileIdentity>, RouteEffects))
        requires
            old(self).identities.wf(),
            resolved is Some ==> resolved->0 !is Unavailable,
        ensures
            final(self).identities.wf(),
            final(self).identities@ == known_routes(old(self).identities@, backend_key(res.0)),
            identifies(final(self).identities@, res.1, res.0),
            final(self).catalog == old(self).catalog,
            final(self).codex == old(self).codex,
            final(self).rejections == old(self).rejections,
            res.0 == match resolved {
                Some(backend) => backend,
                None => PromptBackend::Unavailable {
                    login_required: if profiles.missing().contains(model.provider@) {
                        Some(model.provider)
                    } else {
                        None
                    },
                },
            },
            route_observed(
                old(self),
                final(self),
                model.provider,
                profiles,
                now,
                res.0,
                res.1,
                res.2,
            ),
    {
        let backend = match resolved {
            Some(backend) => backend,
            None => PromptBackend::Unavailable {
                login_required: if profiles.missing_login(model.provider.as_str()) {
                    Some(model.provider.clone())
                } else {
                    None
                },
            },
        };
        let identity = self.identities.backend_profile_identity(&backend);
        let effects = self.observe_route(&model.provider, profiles, now, &backend, identity);
        (backend, identity, effects)
    }

    /// Invalidates one provider's cooldown; the generation is released in the scheduler.
    pub fn release_shared_cooldown(&mut self, provider: &String) -> (res: Option<u64>)
        ensures
            res == match lookup(old(self).shared_cooldowns@, provider@) {
                Some(cooldown) => Some(cooldown.generation),
                None => None,
            },
            final(self).shared_cooldowns@ == old(self).shared_cooldowns@.remove(provider@),
            *final(self) == (Routes {
                shared_cooldowns: final(self).shared_cooldowns,
                ..*old(self)
            }),
    {
        match self.shared_cooldowns.remove(provider.as_str()) {
            Some(cooldown) => Some(cooldown.generation),
            None => None,
        }
    }
}

/// A declaration is complete: whether or not it has to be published again, what is declared
/// afterwards are the given models, place by place, with nothing but their compaction downgraded.
pub proof fn declaration_is_complete(
    before: &Routes,
    after: &Routes,
    models: Seq<ModelContent>,
    observations: NameTable<CredentialObservation>,
    effects: PublicationEffects,
    i: int,
)
    requires
        published(before, after, models, observations, effects),
    ensures
        after.declared_models is Some,
        after.declared_models matches Some(declared) ==> {
            &&& declared@.len() == models.len()
            &&& 0 <= i < models.len() ==> {
                &&& declared@[i].content().provider == models[i].provider
                &&& declared@[i].content().model == models[i].model
                &&& declared@[i].content().detail == models[i].detail
                &&& declared@[i].content().supports_standalone_compaction
                    ==> models[i].supports_standalone_compaction
            }
        },
        effects.declared matches Some(told) ==> (after.declared_models matches Some(declared)
            && model_contents(told@) == model_contents(declared@)),
        before.declared_models is None || before.declared_observations is None
            ==> effects.declared is Some,
        effects.declared is None ==> after.declared_models == before.declared_models,
        after.declared_observations matches Some(seen) && generations(seen@) == generations(
            observations@,
        ),
        after.shared_cooldowns == before.shared_cooldowns,
        after.quota == before.quota,
        after.rejections == before.rejections,
{
    if let Some(declared) = after.declared_models {
        let contents = model_contents(declared@);
        assert(contents.len() == models.len());
        if 0 <= i < models.len() {
            assert(contents[i] == declared@[i].content());
        }
    }
}

/// A provider's new observations replace its old ones, and those of every other provider stay
/// unless they were read again.
pub proof fn observations_replace_their_provider(
    declared: NameTable<CredentialObservation>,
    provider: Seq<char>,
    observations: Map<Seq<char>, CredentialObservation>,
    name: Seq<char>,
)
    ensures
        ({
            let after = refreshed_observations(Some(declared), provider, observations);
            &&& observations.contains_key(name) ==> after.contains_key(name) && after[name]
                == observations[name]
            &&& !observations.contains_key(name) && name != provider ==> after.contains_key(name)
                == declared@.contains_key(name) && (declared@.contains_key(name) ==> after[name]
                == declared@[name])
            &&& !observations.contains_key(name) && name == provider ==> !after.contains_key(name)
        }),
        refreshed_observations(None, provider, observations) =~= observations,
{
}

/// A backend is admitted from the selected profile alone; without one the prompt is told to log in
/// exactly when the login is known to be missing.
pub proof fn admission_uses_the_selected_profile(
    model: ModelId,
    codex: &CodexRoutes,
    profiles: &BuiltinProviderProfiles,
    now_ms: u64,
    backend: PromptBackend,
)
    requires
        admitted_backend(model, codex, profiles, now_ms, backend),
    ensures
        !profiles.profiles().contains_key(model.provider@) ==> backend is Unavailable,
        profiles.profiles().contains_key(model.provider@) ==> match profiles.profiles()[
        model.provider@] {
            ProfileContent::Chatgpt { auth, .. } => {
                &&& backend is Responses || backend is Unavailable
                &&& backend is Responses <==> !blank(auth.access_token) && now_ms
                    < auth.expires_at_ms
                &&& backend matches PromptBackend::Responses(config) ==> config.access_token@
                    == auth.access_token && config.model == model
            },
            ProfileContent::ChatCompletions(route) => backend is ChatCompletions
                || backend is Unavailable,
            ProfileContent::OpenRouter(route) => backend is ChatCompletions
                || backend is Unavailable,
            ProfileContent::Responses(route) => backend is PublicResponses
                || backend is Unavailable,
        },
        backend matches PromptBackend::Unavailable { login_required } ==> (if
            profiles.missing().contains(model.provider@) {
            login_required == Some(model.provider)
        } else {
            login_required is None
        }),
{
}

/// A changed identity lifts the boundary of its provider, under the generation that was in force,
/// and an unchanged one keeps it; no other provider's boundary or identity is touched.
pub proof fn changed_identity_lifts_its_boundary(
    before: &Routes,
    after: &Routes,
    provider: String,
    profiles: &BuiltinProviderProfiles,
    now: Now,
    backend: PromptBackend,
    identity: Option<BackendProfileIdentity>,
    effects: RouteEffects,
    other: Seq<char>,
)
    requires
        route_observed(before, after, provider, profiles, now, backend, identity, effects),
    ensures
        effects.provider == provider,
        after.provider_profile_identities@.contains_key(provider@),
        after.provider_profile_identities@[provider@] == identity,
        effects.profile_changed <==> before.provider_profile_identities@.contains_key(provider@)
            && before.provider_profile_identities@[provider@] != identity,
        effects.profile_changed ==> !after.shared_cooldowns@.contains_key(provider@),
        effects.profile_changed && before.shared_cooldowns@.contains_key(provider@)
            ==> effects.released == Some(before.shared_cooldowns@[provider@].generation),
        !effects.profile_changed ==> after.shared_cooldowns@ == before.shared_cooldowns@
            && effects.released is None,
        other != provider@ && before.shared_cooldowns@.contains_key(other)
            ==> after.shared_cooldowns@.contains_key(other) && after.shared_cooldowns@[other]
            == before.shared_cooldowns@[other],
        other != provider@ ==> (after.provider_profile_identities@.contains_key(other)
            == before.provider_profile_identities@.contains_key(other)),
        after.shared_cooldown_generation == before.shared_cooldown_generation,
{
}

/// Only a ChatGPT route has a quota and prewarms: on any other its quota is forgotten and reported
/// so, its prewarm identity goes, and nothing is fetched.
pub proof fn other_routes_have_no_quota(
    before: &Routes,
    after: &Routes,
    provider: String,
    profiles: &BuiltinProviderProfiles,
    now: Now,
    backend: PromptBackend,
    identity: Option<BackendProfileIdentity>,
    effects: RouteEffects,
)
    requires
        route_observed(before, after, provider, profiles, now, backend, identity, effects),
        !(backend is Responses),
    ensures
        effects.fetch is None,
        effects.declared is None,
        after.declared_models == before.declared_models,
        !after.quota@.contains_key(provider@),
        effects.quota_report is Some <==> before.quota@.contains_key(provider@),
        !after.prewarm_profile_identities@.contains_key(provider@),
        effects.prewarm_changed == before.prewarm_profile_identities@.contains_key(provider@),
{
}

/// A ChatGPT route keeps a quota of its own account: another account's starts anew, a fetch is
/// asked for with the route that was resolved, in the current epoch, and only one at a time.
pub proof fn route_quota_follows_its_account(
    before: &Routes,
    after: &Routes,
    provider: String,
    config: ResolvedConfig,
    identity: BackendProfileIdentity,
    now: Now,
    effects: RouteEffects,
)
    requires
        quota_ensured(before, after, provider, config, identity, now, effects),
    ensures
        after.quota@.contains_key(provider@),
        after.quota@[provider@].identity == config.identity.quota,
        after.prewarm_profile_identities@.contains_key(provider@),
        after.prewarm_profile_identities@[provider@] == identity,
        effects.prewarm_changed <==> before.prewarm_profile_identities@.contains_key(provider@)
            && before.prewarm_profile_identities@[provider@] != identity,
        effects.fetch matches Some(fetch) ==> {
            &&& fetch.provider == provider
            &&& fetch.config == config
            &&& fetch.profile_epoch == after.quota@[provider@].epoch
            &&& fetch.fetch_start_sequence == after.quota@[provider@].sequence
            &&& after.quota@[provider@].fetch_in_flight
            &&& after.quota@[provider@].last_fetch_started == Some(now.moment)
        },
        !before.quota@.contains_key(provider@) || before.quota@[provider@].identity
            != config.identity.quota ==> effects.quota_report is Some && effects.fetch is Some
            && after.quota@[provider@].windows.dom() == Set::<PairKey>::empty(),
        before.quota@.contains_key(provider@) && before.quota@[provider@].identity
            == config.identity.quota ==> effects.quota_report is None
            && after.quota@[provider@].windows == before.quota@[provider@].windows,
        before.quota@.contains_key(provider@) && before.quota@[provider@].identity
            == config.identity.quota && before.quota@[provider@].fetch_in_flight
            ==> effects.fetch is None,
{
}

/// An identity names the backend's own route, and only an unavailable backend has none.
pub proof fn identity_names_the_backend(
    routes: Seq<RouteKey>,
    identity: Option<BackendProfileIdentity>,
    backend: PromptBackend,
)
    requires
        identifies(routes, identity, backend),
    ensures
        identity is None <==> backend is Unavailable,
        identity matches Some(named) ==> (backend matches PromptBackend::Responses(config)
            ==> routes[named.hash as int] == RouteKey::Responses(
            config.access_token@,
            optional_text(config.account_id),
            config.identity.inference,
        )),
{
}

/// Publishing one provider's models declares each of them, keeps every model that another provider
/// had declared, and declares nothing else.
pub proof fn publication_keeps_the_other_providers(
    before: &Routes,
    after: &Routes,
    provider: Seq<char>,
    profiles: &BuiltinProviderProfiles,
    observations: NameTable<CredentialObservation>,
    effects: PublicationEffects,
    previous: Vec<ProviderModelInfo>,
    model: ModelContent,
)
    requires
        selected_published(before, after, provider, profiles, observations, effects),
        before.declared_models == Some(previous),
    ensures
        ({
            let selected = models_of(profiles.profiles(), profiles.names(), &before.catalog);
            after.declared_models matches Some(declared) && {
                &&& selected.contains(model) || (model_contents(previous@).contains(model)
                    && model.provider != provider) ==> exists|k: int|
                    0 <= k < declared@.len() && (#[trigger] declared@[k]).content().provider
                        == model.provider && declared@[k].content().model == model.model
                        && declared@[k].content().detail == model.detail
                &&& forall|k: int|
                    0 <= k < declared@.len() ==> exists|source: ModelContent|
                        (#[trigger] declared@[k]).content().provider == source.provider
                            && declared@[k].content().model == source.model && (
                        #[trigger] selected.contains(source) || model_contents(previous@).contains(
                            source,
                        ) && source.provider != provider)
            }
        }),
{
    let selected = models_of(profiles.profiles(), profiles.names(), &before.catalog);
    let old_models = model_contents(previous@);
    let all = replaced_models(old_models, provider, selected);
    let complete = choose|complete: NameTable<CredentialObservation>|
        {
            &&& #[trigger] published_observations(
                refreshed_observations(before.declared_observations, provider, observations@),
                complete,
            )
            &&& published(before, after, all, complete, effects)
        };
    replacement_is_exact(old_models, provider, selected, model);
    declaration_is_complete(before, after, all, complete, effects, 0);
    let declared = after.declared_models->0;
    if all.contains(model) {
        let k = all.index_of(model);
        declaration_is_complete(before, after, all, complete, effects, k);
        assert(declared@[k].content().model == model.model);
    }
    assert forall|k: int| 0 <= k < declared@.len() implies exists|source: ModelContent|
        (#[trigger] declared@[k]).content().provider == source.provider
            && declared@[k].content().model == source.model && (#[trigger] selected.contains(source)
            || old_models.contains(source) && source.provider != provider) by {
        declaration_is_complete(before, after, all, complete, effects, k);
        let source = all[k];
        assert(all.contains(source));
        replacement_is_exact(old_models, provider, selected, source);
        assert(selected.contains(source) || old_models.contains(source) && source.provider
            != provider);
    }
}

} // verus!
