//! Built-in provider profiles, their credentials, and credential hydration.

use vstd::prelude::*;

use crate::credentials::{
    content_generation, generation_of, is_config, resolved_config_for_provider_model,
    CredentialObservation,
};
use crate::names::{strictly_ordered, NameTable};
use crate::oauth::{is_usable, usable, AuthContent, OAuthRefreshRejectionCache, OpenAiAuth};
use crate::prompt::{CodexRoutes, ModelId, PromptBackend, RouteSnapshot};
use crate::retry::lookup;
use crate::text::{blank, is_blank, optional_text};

verus! {

/// Tau-owned prompt-cache key namespace selected for an OpenAI-compatible route.
#[derive(Clone, Copy, Debug, PartialEq, Eq, Structural)]
pub enum OpenAiPromptCacheKey {
    /// Derive a stable key from the durable agent identifier.
    Agent,
}

/// Why a model's local summary limits are inconsistent.
#[derive(Clone, Copy, Debug, PartialEq, Eq, Structural)]
pub enum SummaryCompactionConfigError {
    MaxOutputTokensExceedContextWindow,
    MaxOutputBytesExceedNarrativeLimit,
}

/// One model of a route, as far as this registry reads it.
pub struct ModelEntry {
    pub id: String,
    pub supports_standalone_compaction: bool,
    pub standalone_compaction_threshold: Option<u64>,
    /// Host handle of the remaining published metadata.
    pub detail: u64,
    /// Verdict on the model's local summary limits.
    pub summary_error: Option<SummaryCompactionConfigError>,
}

impl Clone for ModelEntry {
    fn clone(&self) -> (res: Self)
        ensures
            res == *self,
    {
        ModelEntry {
            id: self.id.clone(),
            supports_standalone_compaction: self.supports_standalone_compaction,
            standalone_compaction_threshold: self.standalone_compaction_threshold,
            detail: self.detail,
            summary_error: self.summary_error,
        }
    }
}

/// Clones a model list.
pub fn clone_models(models: &Vec<ModelEntry>) -> (res: Vec<ModelEntry>)
    ensures
        res@ == models@,
{
    let mut res: Vec<ModelEntry> = Vec::new();
    let mut i: usize = 0;
    while i < models.len()
        invariant
            i <= models@.len(),
            res@ == models@.take(i as int),
        decreases models@.len() - i,
    {
        res.push(models[i].clone());
        assert(res@ =~= models@.take(i + 1));
        i = i + 1;
    }
    assert(models@.take(i as int) =~= models@);
    res
}

/// A generic API-key route.
pub struct GenericRoute {
    pub base_url: String,
    pub api_key: String,
    pub models: Vec<ModelEntry>,
    /// Host handle of the complete route configuration.
    pub snapshot: u64,
    /// Verdict on the route's own settings.
    pub valid: bool,
}

/// The content of a generic route.
pub struct RouteContent {
    pub base_url: Seq<char>,
    pub api_key: Seq<char>,
    pub models: Seq<ModelEntry>,
    pub snapshot: u64,
    pub valid: bool,
}

impl GenericRoute {
    /// The content of this route.
    pub open spec fn content(self) -> RouteContent {
        RouteContent {
            base_url: self.base_url@,
            api_key: self.api_key@,
            models: self.models@,
            snapshot: self.snapshot,
            valid: self.valid,
        }
    }

    /// Clones this route.
    pub fn duplicate(&self) -> (res: Self)
        ensures
            res.content() == self.content(),
    {
        GenericRoute {
            base_url: self.base_url.clone(),
            api_key: self.api_key.clone(),
            models: clone_models(&self.models),
            snapshot: self.snapshot,
            valid: self.valid,
        }
    }

    fn validate_local_summary_compaction(&self) -> (res: Result<(), SummaryCompactionConfigError>)
        ensures
            res == first_summary_error(self.models@),
    {
        let mut i: usize = 0;
        assert(self.models@.skip(0) =~= self.models@);
        while i < self.models.len()
            invariant
                i <= self.models@.len(),
                first_summary_error(self.models@) == first_summary_error(
                    self.models@.skip(i as int),
                ),
            decreases self.models@.len() - i,
        {
            if let Some(error) = self.models[i].summary_error {
                assert(self.models@.skip(i as int)[0] == self.models@[i as int]);
                return Err(error);
            }
            assert(self.models@.skip(i as int)[0] == self.models@[i as int]);
            assert(self.models@.skip(i as int).drop_first() =~= self.models@.skip(i + 1));
            i = i + 1;
        }
        Ok(())
    }
}

/// The first inconsistent summary limit of some models, in order.
pub open spec fn first_summary_error(models: Seq<ModelEntry>) -> Result<
    (),
    SummaryCompactionConfigError,
>
    decreases models.len(),
{
    if models.len() == 0 {
        Ok(())
    } else {
        match models[0].summary_error {
            Some(error) => Err(error),
            None => first_summary_error(models.drop_first()),
        }
    }
}

/// ChatGPT/Codex provider profile.
pub struct ChatGptProfile {
    /// OAuth credentials used for ChatGPT/Codex Responses calls.
    pub auth: OpenAiAuth,
    /// Use the legacy Responses Lite contract for audited routes. This is startup-stable route
    /// configuration, not authentication data.
    pub responses_lite_compatibility: bool,
}

impl ChatGptProfile {
    /// Replaces the credentials and nothing else.
    pub fn replace_auth(&mut self, refreshed: OpenAiAuth)
        ensures
            final(self).auth == refreshed,
            final(self).responses_lite_compatibility == old(self).responses_lite_compatibility,
    {
        self.auth = refreshed;
    }
}

/// One built-in provider profile hydrated from settings plus a typed credential.
pub enum BuiltinProviderProfile {
    /// ChatGPT/Codex OAuth provider using the Responses backend.
    Chatgpt(ChatGptProfile),
    /// OpenAI-compatible Chat Completions provider.
    ChatCompletions(GenericRoute),
    /// OpenRouter provider using a wrapped Chat Completions backend.
    OpenRouter(GenericRoute),
    /// Generic public API-key Responses provider with explicit transport.
    Responses(GenericRoute),
}

/// The content of a profile.
pub enum ProfileContent {
    Chatgpt { auth: AuthContent, lite_compatibility: bool },
    ChatCompletions(RouteContent),
    OpenRouter(RouteContent),
    Responses(RouteContent),
}

impl BuiltinProviderProfile {
    /// The content of this profile.
    pub open spec fn content(self) -> ProfileContent {
        match self {
            BuiltinProviderProfile::Chatgpt(profile) => ProfileContent::Chatgpt {
                auth: profile.auth.content(),
                lite_compatibility: profile.responses_lite_compatibility,
            },
            BuiltinProviderProfile::ChatCompletions(route) => ProfileContent::ChatCompletions(
                route.content(),
            ),
            BuiltinProviderProfile::OpenRouter(route) => ProfileContent::OpenRouter(
                route.content(),
            ),
            BuiltinProviderProfile::Responses(route) => ProfileContent::Responses(route.content()),
        }
    }

    /// Clones this profile.
    pub fn duplicate(&self) -> (res: Self)
        ensures
            res.content() == self.content(),
    {
        match self {
            BuiltinProviderProfile::Chatgpt(profile) => BuiltinProviderProfile::Chatgpt(
                ChatGptProfile {
                    auth: profile.auth.clone(),
                    responses_lite_compatibility: profile.responses_lite_compatibility,
                },
            ),
            BuiltinProviderProfile::ChatCompletions(route) =>
                BuiltinProviderProfile::ChatCompletions(route.duplicate()),
            BuiltinProviderProfile::OpenRouter(route) => BuiltinProviderProfile::OpenRouter(
                route.duplicate(),
            ),
            BuiltinProviderProfile::Responses(route) => BuiltinProviderProfile::Responses(
                route.duplicate(),
            ),
        }
    }

    /// Reports whether the profile's own settings are consistent.
    pub fn validate(&self) -> (res: bool)
        ensures
            res == profile_valid(self.content()),
    {
        match self {
            BuiltinProviderProfile::ChatCompletions(route) => route.valid,
            BuiltinProviderProfile::OpenRouter(route) => route.valid,
            BuiltinProviderProfile::Responses(route) => route.valid,
            BuiltinProviderProfile::Chatgpt(_) => true,
        }
    }

    /// Checks model-local summary limits consistently across compatible provider families.
    pub fn validate_local_summary_compaction(&self) -> (res: Result<
        (),
        SummaryCompactionConfigError,
    >)
        ensures
            res == summary_verdict(self.content()),
    {
        match self {
            BuiltinProviderProfile::ChatCompletions(route) =>
                route.validate_local_summary_compaction(),
            BuiltinProviderProfile::OpenRouter(route) => route.validate_local_summary_compaction(),
            BuiltinProviderProfile::Responses(route) => route.validate_local_summary_compaction(),
            BuiltinProviderProfile::Chatgpt(_) => Ok(()),
        }
    }
}

/// The profile's own settings are consistent.
pub open spec fn profile_valid(profile: ProfileContent) -> bool {
    match profile {
        ProfileContent::ChatCompletions(route) => route.valid,
        ProfileContent::OpenRouter(route) => route.valid,
        ProfileContent::Responses(route) => route.valid,
        ProfileContent::Chatgpt { .. } => true,
    }
}

/// The verdict on a profile's local summary limits.
pub open spec fn summary_verdict(profile: ProfileContent) -> Result<
    (),
    SummaryCompactionConfigError,
> {
    match profile {
        ProfileContent::ChatCompletions(route) => first_summary_error(route.models),
        ProfileContent::OpenRouter(route) => first_summary_error(route.models),
        ProfileContent::Responses(route) => first_summary_error(route.models),
        ProfileContent::Chatgpt { .. } => Ok(()),
    }
}

/// Which credential record a profile uses.
#[derive(Clone, Copy, Debug, PartialEq, Eq, Structural)]
pub enum ProviderCredentialSlot {
    OAuth,
    ApiKey,
}

/// A stored credential of one provider.
pub struct ProviderCredentialReference {
    pub slot: ProviderCredentialSlot,
    /// Opaque path in secret storage.
    pub path: String,
}

/// Authentication selection of one profile.
pub enum ProviderCredential {
    Stored(ProviderCredentialReference),
    Keyless,
}

impl Clone for ProviderCredential {
    fn clone(&self) -> (res: Self)
        ensures
            res == *self,
    {
        match self {
            ProviderCredential::Stored(reference) => ProviderCredential::Stored(
                ProviderCredentialReference { slot: reference.slot, path: reference.path.clone() },
            ),
            ProviderCredential::Keyless => ProviderCredential::Keyless,
        }
    }
}

/// Reply to reading one stored credential.
pub enum SecretReply {
    /// The read failed; `not_found` when storage positively has no such record.
    Failed { not_found: bool },
    /// Storage answered with something other than file contents.
    Unexpected,
    /// File contents, with the records they decode to.
    Contents { contents: Vec<u8>, oauth: Option<OpenAiAuth>, api_key: Option<String> },
}

/// Registered built-in providers keyed by namespace.
pub struct BuiltinProviderProfiles {
    providers: NameTable<BuiltinProviderProfile>,
    credentials: NameTable<ProviderCredential>,
    missing_logins: NameTable<()>,
}

/// Contents of a profile table.
pub open spec fn profile_contents(providers: Map<Seq<char>, BuiltinProviderProfile>) -> Map<
    Seq<char>,
    ProfileContent,
> {
    providers.map_values(|profile: BuiltinProviderProfile| profile.content())
}

impl BuiltinProviderProfiles {
    /// The profiles by name.
    pub closed spec fn profiles(&self) -> Map<Seq<char>, ProfileContent> {
        profile_contents(self.providers@)
    }

    /// The names of the profiles in order.
    pub closed spec fn names(&self) -> Seq<Seq<char>> {
        self.providers.keys()
    }

    /// The authentication selections by name.
    pub closed spec fn credential_map(&self) -> Map<Seq<char>, ProviderCredential> {
        self.credentials@
    }

    /// ChatGPT profiles whose OAuth record was positively found absent.
    pub closed spec fn missing(&self) -> Set<Seq<char>> {
        self.missing_logins@.dom()
    }

    /// No profile.
    pub fn new() -> (res: Self)
        ensures
            res.profiles() == Map::<Seq<char>, ProfileContent>::empty(),
            res.names() == Seq::<Seq<char>>::empty(),
            res.credential_map() == Map::<Seq<char>, ProviderCredential>::empty(),
            res.missing() == Set::<Seq<char>>::empty(),
    {
        let res = BuiltinProviderProfiles {
            providers: NameTable::new(),
            credentials: NameTable::new(),
            missing_logins: NameTable::new(),
        };
        assert(res.profiles() =~= Map::<Seq<char>, ProfileContent>::empty());
        assert(res.missing() =~= Set::<Seq<char>>::empty());
        res
    }

    /// Registers one profile with its authentication selection.
    pub fn insert(
        &mut self,
        name: String,
        profile: BuiltinProviderProfile,
        credential: ProviderCredential,
    )
        ensures
            final(self).profiles() == old(self).profiles().insert(name@, profile.content()),
            final(self).credential_map() == old(self).credential_map().insert(name@, credential),
            final(self).missing() == old(self).missing(),
    {
        self.credentials.insert(name.clone(), credential);
        self.providers.insert(name, profile);
        assert(self.profiles() =~= old(self).profiles().insert(name@, profile.content()));
    }

    /// One profile.
    pub fn get(&self, provider: &str) -> (res: Option<&BuiltinProviderProfile>)
        ensures
            match res {
                Some(profile) => lookup(self.profiles(), provider@) == Some(profile.content()),
                None => !self.profiles().contains_key(provider@),
            },
    {
        self.providers.get(provider)
    }

    /// The number of profiles, whose names are ordered.
    pub fn len(&self) -> (res: usize)
        ensures
            res == self.names().len(),
            strictly_ordered(self.names()),
            forall|i: int|
                0 <= i < self.names().len() ==> self.profiles().contains_key(
                    #[trigger] self.names()[i],
                ),
            forall|name: Seq<char>| #[trigger]
                self.profiles().contains_key(name) ==> self.names().contains(name),
    {
        let res: usize = self.providers.len();
        proof {
            assert forall|i: int| 0 <= i < self.names().len() implies self.profiles().contains_key(
                #[trigger] self.names()[i],
            ) by {
                assert(self.providers@.contains_key(self.providers.keys()[i]));
            }
            assert forall|name: Seq<char>| #[trigger] self.profiles().contains_key(
                name,
            ) implies self.names().contains(name) by {
                assert(self.providers@.contains_key(name));
            }
        }
        res
    }

    /// The name at position `i`.
    pub fn name_at(&self, i: usize) -> (res: &String)
        requires
            i < self.names().len(),
        ensures
            res@ == self.names()[i as int],
    {
        self.providers.key_at(i)
    }

    /// The profile at position `i`.
    pub fn profile_at(&self, i: usize) -> (res: &BuiltinProviderProfile)
        requires
            i < self.names().len(),
        ensures
            lookup(self.profiles(), self.names()[i as int]) == Some(res.content()),
    {
        self.providers.value_at(i)
    }

    /// Copies only one profile and its credential selection.
    pub fn selected(&self, provider: &str) -> (res: Self)
        ensures
            res.profiles() == only(self.profiles(), provider@),
            res.credential_map() == only(self.credential_map(), provider@),
            res.missing() == Set::<Seq<char>>::empty(),
    {
        let mut selected = BuiltinProviderProfiles::new();
        if let Some(profile) = self.providers.get(provider) {
            selected.providers.insert(provider.to_owned(), profile.duplicate());
        }
        if let Some(credential) = self.credentials.get(provider) {
            selected.credentials.insert(provider.to_owned(), credential.clone());
        }
        assert(selected.profiles() =~= only(self.profiles(), provider@));
        assert(selected.credential_map() =~= only(self.credential_map(), provider@));
        selected
    }

    /// Copies every profile.
    pub fn duplicate(&self) -> (res: Self)
        ensures
            res.profiles() == self.profiles(),
            res.credential_map() == self.credential_map(),
            res.missing() == self.missing(),
    {
        let mut res = BuiltinProviderProfiles::new();
        let n: usize = self.providers.len();
        let mut i: usize = 0;
        while i < n
            invariant
                n == self.providers.keys().len(),
                i <= n,
                res.credentials@ == Map::<Seq<char>, ProviderCredential>::empty(),
                res.missing_logins@ == Map::<Seq<char>, ()>::empty(),
                res.profiles() == self.profiles().restrict(
                    self.providers.keys().take(i as int).to_set(),
                ),
            decreases n - i,
        {
            let ghost before = res.profiles();
            let name = self.providers.key_at(i);
            let profile = self.providers.value_at(i);
            res.providers.insert(name.clone(), profile.duplicate());
            proof {
                lemma_take_set(self.providers.keys(), i as int);
                assert(res.profiles() =~= before.insert(name@, profile.content()));
                assert(res.profiles() =~= self.profiles().restrict(
                    self.providers.keys().take(i + 1).to_set(),
                ));
            }
            i = i + 1;
        }
        proof {
            assert(self.providers.keys().take(n as int) =~= self.providers.keys());
            assert forall|name: Seq<char>| self.profiles().contains_key(name) implies
                self.providers.keys().to_set().contains(name) by {
                assert(self.providers@.contains_key(name));
            }
            assert(res.profiles() =~= self.profiles());
        }
        let m: usize = self.credentials.len();
        let mut k: usize = 0;
        while k < m
            invariant
                m == self.credentials.keys().len(),
                k <= m,
                res.profiles() == self.profiles(),
                res.missing_logins@ == Map::<Seq<char>, ()>::empty(),
                res.credentials@ == self.credentials@.restrict(
                    self.credentials.keys().take(k as int).to_set(),
                ),
            decreases m - k,
        {
            let ghost before = res.credentials@;
            let name = self.credentials.key_at(k);
            let credential = self.credentials.value_at(k);
            res.credentials.insert(name.clone(), credential.clone());
            proof {
                lemma_take_set(self.credentials.keys(), k as int);
                assert(res.credentials@ =~= self.credentials@.restrict(
                    self.credentials.keys().take(k + 1).to_set(),
                ));
            }
            k = k + 1;
        }
        proof {
            assert(self.credentials.keys().take(m as int) =~= self.credentials.keys());
            assert(res.credentials@ =~= self.credentials@);
        }
        let o: usize = self.missing_logins.len();
        let mut x: usize = 0;
        while x < o
            invariant
                o == self.missing_logins.keys().len(),
                x <= o,
                res.profiles() == self.profiles(),
                res.credentials@ == self.credentials@,
                res.missing() == self.missing_logins.keys().take(x as int).to_set(),
            decreases o - x,
        {
            let ghost before = res.missing();
            let name = self.missing_logins.key_at(x);
            res.missing_logins.insert(name.clone(), ());
            proof {
                lemma_take_set(self.missing_logins.keys(), x as int);
                assert(res.missing() =~= before.insert(name@));
            }
            x = x + 1;
        }
        proof {
            assert(self.missing_logins.keys().take(o as int) =~= self.missing_logins.keys());
            assert(res.missing() =~= self.missing());
        }
        res
    }

    /// Forgets one profile.
    pub fn remove(&mut self, provider: &str)
        ensures
            final(self).profiles() == old(self).profiles().remove(provider@),
            final(self).credential_map() == old(self).credential_map().remove(provider@),
            final(self).missing() == old(self).missing().remove(provider@),
    {
        let _ = self.providers.remove(provider);
        let _ = self.credentials.remove(provider);
        let _ = self.missing_logins.remove(provider);
        assert(self.profiles() =~= old(self).profiles().remove(provider@));
        assert(self.missing() =~= old(self).missing().remove(provider@));
    }

    /// Replaces the credentials of one ChatGPT profile.
    pub fn set_auth(&mut self, provider: &str, auth: OpenAiAuth)
        ensures
            final(self).credential_map() == old(self).credential_map(),
            final(self).missing() == old(self).missing(),
            final(self).profiles() == with_auth(
                old(self).profiles(),
                provider@,
                auth.content(),
            ),
    {
        match self.providers.remove(provider) {
            Some(BuiltinProviderProfile::Chatgpt(profile)) => {
                self.providers.insert(
                    provider.to_owned(),
                    BuiltinProviderProfile::Chatgpt(
                        ChatGptProfile {
                            auth,
                            responses_lite_compatibility: profile.responses_lite_compatibility,
                        },
                    ),
                );
            },
            Some(other) => {
                self.providers.insert(provider.to_owned(), other);
            },
            None => {},
        }
        assert(self.profiles() =~= with_auth(old(self).profiles(), provider@, auth.content()));
    }

    /// Returns whether hydration found this ChatGPT profile logged out.
    pub fn missing_login(&self, provider: &str) -> (res: bool)
        ensures
            res == self.missing().contains(provider@),
    {
        self.missing_logins.contains_key(provider)
    }

    /// The stored credential path of one profile.
    pub fn stored_credential_path(&self, provider: &str) -> (res: Option<String>)
        ensures
            match (res, lookup(self.credential_map(), provider@)) {
                (Some(path), Some(ProviderCredential::Stored(reference))) => path
                    == reference.path,
                (None, Some(ProviderCredential::Stored(_))) => false,
                (Some(_), _) => false,
                (None, _) => true,
            },
    {
        match self.credentials.get(provider) {
            Some(ProviderCredential::Stored(reference)) => Some(reference.path.clone()),
            _ => None,
        }
    }

    /// The stored OAuth credential path of one profile.
    pub open spec fn oauth_path(&self, provider: Seq<char>) -> Option<String> {
        match lookup(self.credential_map(), provider) {
            Some(ProviderCredential::Stored(reference)) => if reference.slot
                == ProviderCredentialSlot::OAuth {
                Some(reference.path)
            } else {
                None
            },
            _ => None,
        }
    }

    /// Returns the stored OAuth credential selection of one ChatGPT profile.
    pub fn chatgpt_credential_reference(&self, provider: &str) -> (res: Option<String>)
        ensures
            res == self.oauth_path(provider@),
    {
        match self.credentials.get(provider) {
            Some(ProviderCredential::Stored(reference)) => {
                if reference.slot == ProviderCredentialSlot::OAuth {
                    Some(reference.path.clone())
                } else {
                    None
                }
            },
            _ => None,
        }
    }

    /// Whether each ChatGPT profile selects the lite compatibility mode.
    pub fn startup_responses_modes(&self) -> (res: NameTable<bool>)
        ensures
            res@ == lite_modes(self.profiles()),
    {
        let mut modes: NameTable<bool> = NameTable::new();
        let n: usize = self.providers.len();
        let mut i: usize = 0;
        while i < n
            invariant
                n == self.providers.keys().len(),
                i <= n,
                modes@ == lite_modes(self.profiles()).restrict(
                    self.providers.keys().take(i as int).to_set(),
                ),
            decreases n - i,
        {
            let name = self.providers.key_at(i);
            if let BuiltinProviderProfile::Chatgpt(profile) = self.providers.value_at(i) {
                modes.insert(name.clone(), profile.responses_lite_compatibility);
            }
            proof {
                lemma_take_set(self.providers.keys(), i as int);
                assert(self.profiles().contains_key(name@));
                assert(modes@ =~= lite_modes(self.profiles()).restrict(
                    self.providers.keys().take(i + 1).to_set(),
                ));
            }
            i = i + 1;
        }
        proof {
            assert(self.providers.keys().take(n as int) =~= self.providers.keys());
            assert forall|name: Seq<char>| self.profiles().contains_key(name) implies
                self.providers.keys().to_set().contains(name) by {
                assert(self.providers@.contains_key(name));
            }
            assert(modes@ =~= lite_modes(self.profiles()));
        }
        modes
    }

    /// Pins every ChatGPT profile to the mode captured at startup; a later profile is standard.
    pub fn apply_startup_responses_modes(&mut self, startup_modes: &NameTable<bool>)
        ensures
            final(self).profiles() == pinned_modes(old(self).profiles(), startup_modes@),
            final(self).credential_map() == old(self).credential_map(),
            final(self).missing() == old(self).missing(),
    {
        let mut pinned: NameTable<BuiltinProviderProfile> = NameTable::new();
        let n: usize = self.providers.len();
        let mut i: usize = 0;
        let ghost target = pinned_modes(self.profiles(), startup_modes@);
        assert(profile_contents(pinned@) =~= target.restrict(
            self.providers.keys().take(0).to_set(),
        ));
        while i < n
            invariant
                *self == *old(self),
                n == self.providers.keys().len(),
                i <= n,
                target == pinned_modes(self.profiles(), startup_modes@),
                profile_contents(pinned@) == target.restrict(
                    self.providers.keys().take(i as int).to_set(),
                ),
            decreases n - i,
        {
            let ghost before = pinned@;
            let name = self.providers.key_at(i);
            let profile = match self.providers.value_at(i) {
                BuiltinProviderProfile::Chatgpt(profile) => {
                    let lite: bool = match startup_modes.get(name.as_str()) {
                        Some(lite) => *lite,
                        None => false,
                    };
                    BuiltinProviderProfile::Chatgpt(
                        ChatGptProfile {
                            auth: profile.auth.clone(),
                            responses_lite_compatibility: lite,
                        },
                    )
                },
                other => other.duplicate(),
            };
            let ghost content = profile.content();
            proof {
                assert(self.profiles().contains_key(name@));
                assert(content == target[name@]);
            }
            pinned.insert(name.clone(), profile);
            proof {
                lemma_take_set(self.providers.keys(), i as int);
                assert(profile_contents(pinned@) =~= profile_contents(before).insert(
                    name@,
                    content,
                ));
                assert(profile_contents(pinned@) =~= target.restrict(
                    self.providers.keys().take(i + 1).to_set(),
                ));
            }
            i = i + 1;
        }
        proof {
            assert(self.providers.keys().take(n as int) =~= self.providers.keys());
            assert forall|name: Seq<char>| self.profiles().contains_key(name) implies
                self.providers.keys().to_set().contains(name) by {
                assert(self.providers@.contains_key(name));
            }
            assert(profile_contents(pinned@) =~= target);
        }
        self.providers = pinned;
    }
}

/// The entry of `key` alone.
pub open spec fn only<V>(table: Map<Seq<char>, V>, key: Seq<char>) -> Map<Seq<char>, V> {
    if table.contains_key(key) {
        map![key => table[key]]
    } else {
        Map::empty()
    }
}

/// The profiles after replacing the credentials of one ChatGPT profile.
pub open spec fn with_auth(
    profiles: Map<Seq<char>, ProfileContent>,
    provider: Seq<char>,
    auth: AuthContent,
) -> Map<Seq<char>, ProfileContent> {
    match lookup(profiles, provider) {
        Some(ProfileContent::Chatgpt { lite_compatibility, .. }) => profiles.insert(
            provider,
            ProfileContent::Chatgpt { auth, lite_compatibility },
        ),
        _ => profiles,
    }
}

/// The mode selections of ChatGPT profiles.
pub open spec fn lite_modes(profiles: Map<Seq<char>, ProfileContent>) -> Map<Seq<char>, bool> {
    Map::new(
        |name: Seq<char>| profiles.contains_key(name) && profiles[name] is Chatgpt,
        |name: Seq<char>| profiles[name]->lite_compatibility,
    )
}

/// The profiles with ChatGPT modes pinned to those captured at startup.
pub open spec fn pinned_modes(
    profiles: Map<Seq<char>, ProfileContent>,
    modes: Map<Seq<char>, bool>,
) -> Map<Seq<char>, ProfileContent> {
    Map::new(
        |name: Seq<char>| profiles.contains_key(name),
        |name: Seq<char>|
            match profiles[name] {
                ProfileContent::Chatgpt { auth, .. } => ProfileContent::Chatgpt {
                    auth,
                    lite_compatibility: modes.contains_key(name) && modes[name],
                },
                other => other,
            },
    )
}

proof fn lemma_take_set(keys: Seq<Seq<char>>, i: int)
    requires
        0 <= i < keys.len(),
    ensures
        keys.take(i + 1).to_set() == keys.take(i).to_set().insert(keys[i]),
{
    let before = keys.take(i);
    let after = keys.take(i + 1);
    assert(after =~= before.push(keys[i]));
    assert forall|x: Seq<char>| after.to_set().contains(x) == before.to_set().insert(
        keys[i],
    ).contains(x) by {
        if before.contains(x) {
            let j = before.index_of(x);
            assert(after[j] == x);
        }
        if x == keys[i] {
            assert(after[i] == x);
        }
        if after.contains(x) && x != keys[i] {
            let j = after.index_of(x);
            assert(before[j] == x);
        }
    }
    assert(after.to_set() =~= before.to_set().insert(keys[i]));
}

/// Applying the modes captured from these very profiles changes nothing.
pub proof fn startup_modes_are_stable(profiles: Map<Seq<char>, ProfileContent>)
    ensures
        pinned_modes(profiles, lite_modes(profiles)) == profiles,
{
    assert(pinned_modes(profiles, lite_modes(profiles)) =~= profiles);
}

/// What a reply makes of one profile; `None` when the profile cannot be used.
pub open spec fn hydrated_profile(
    profile: ProfileContent,
    credential: Option<ProviderCredential>,
    reply: Option<SecretReply>,
) -> Option<ProfileContent> {
    match credential {
        None => None,
        Some(ProviderCredential::Keyless) => Some(profile),
        Some(ProviderCredential::Stored(_)) => supplied_profile(profile, reply),
    }
}

/// What a reply makes of one profile with a stored credential.
pub open spec fn supplied_profile(
    profile: ProfileContent,
    reply: Option<SecretReply>,
) -> Option<ProfileContent> {
    match reply {
        Some(SecretReply::Contents { oauth, api_key, .. }) => match profile {
            ProfileContent::Chatgpt { lite_compatibility, .. } => match oauth {
                Some(auth) => Some(
                    ProfileContent::Chatgpt { auth: auth.content(), lite_compatibility },
                ),
                None => None,
            },
            ProfileContent::ChatCompletions(route) => match keyed(route, api_key) {
                Some(route) => Some(ProfileContent::ChatCompletions(route)),
                None => None,
            },
            ProfileContent::OpenRouter(route) => match keyed(route, api_key) {
                Some(route) => Some(ProfileContent::OpenRouter(route)),
                None => None,
            },
            ProfileContent::Responses(route) => match keyed(route, api_key) {
                Some(route) => Some(ProfileContent::Responses(route)),
                None => None,
            },
        },
        _ => None,
    }
}

/// The reply behind a reference.
pub open spec fn reply_value(reply: Option<&SecretReply>) -> Option<SecretReply> {
    match reply {
        Some(reply) => Some(*reply),
        None => None,
    }
}

/// A route with its API key; `None` without a usable key.
pub open spec fn keyed(route: RouteContent, api_key: Option<String>) -> Option<RouteContent> {
    match api_key {
        Some(key) => if blank(key@) {
            None
        } else {
            Some(RouteContent { api_key: key@, ..route })
        },
        None => None,
    }
}

/// The observed generation of one profile's credential; `None` when nothing is read for it.
pub open spec fn observed_generation(
    credential: Option<ProviderCredential>,
    reply: Option<SecretReply>,
) -> Option<Option<Seq<char>>> {
    match credential {
        Some(ProviderCredential::Stored(_)) => match reply {
            Some(SecretReply::Contents { contents, .. }) => Some(Some(generation_of(contents@))),
            _ => Some(None),
        },
        _ => None,
    }
}

/// The reply proves a ChatGPT profile logged out: storage owns the not-found classification.
pub open spec fn logged_out(
    profile: ProfileContent,
    credential: Option<ProviderCredential>,
    reply: Option<SecretReply>,
) -> bool {
    &&& profile is Chatgpt
    &&& match credential {
        Some(ProviderCredential::Stored(reference)) => reference.slot
            == ProviderCredentialSlot::OAuth,
        _ => false,
    }
    &&& match reply {
        Some(SecretReply::Failed { not_found }) => not_found,
        _ => false,
    }
}

/// Returns whether a failed read safely proves a ChatGPT profile needs login.
pub fn credential_error_means_logged_out(
    profile: &BuiltinProviderProfile,
    credential: &ProviderCredential,
    not_found: bool,
) -> (res: bool)
    ensures
        res == logged_out(
            profile.content(),
            Some(*credential),
            Some(SecretReply::Failed { not_found }),
        ),
{
    let chatgpt: bool = match profile {
        BuiltinProviderProfile::Chatgpt(_) => true,
        _ => false,
    };
    let oauth: bool = match credential {
        ProviderCredential::Stored(reference) => reference.slot == ProviderCredentialSlot::OAuth,
        ProviderCredential::Keyless => false,
    };
    chatgpt && oauth && not_found
}

/// The reply to reading the credential of a profile.
pub open spec fn reply_for(
    credential: Option<ProviderCredential>,
    replies: Map<Seq<char>, SecretReply>,
) -> Option<SecretReply> {
    match credential {
        Some(ProviderCredential::Stored(reference)) => lookup(replies, reference.path@),
        _ => None,
    }
}

/// The profiles after hydration with the replies by path.
pub open spec fn hydrated_profiles(
    profiles: Map<Seq<char>, ProfileContent>,
    credentials: Map<Seq<char>, ProviderCredential>,
    replies: Map<Seq<char>, SecretReply>,
) -> Map<Seq<char>, ProfileContent> {
    Map::new(
        |name: Seq<char>|
            profiles.contains_key(name) && hydrated_at(profiles, credentials, replies, name) is Some,
        |name: Seq<char>| hydrated_at(profiles, credentials, replies, name)->0,
    )
}

/// One profile after hydration.
pub open spec fn hydrated_at(
    profiles: Map<Seq<char>, ProfileContent>,
    credentials: Map<Seq<char>, ProviderCredential>,
    replies: Map<Seq<char>, SecretReply>,
    name: Seq<char>,
) -> Option<ProfileContent> {
    let credential = lookup(credentials, name);
    hydrated_profile(profiles[name], credential, reply_for(credential, replies))
}

/// The observed generations by provider.
pub open spec fn observed_generations(
    profiles: Map<Seq<char>, ProfileContent>,
    credentials: Map<Seq<char>, ProviderCredential>,
    replies: Map<Seq<char>, SecretReply>,
) -> Map<Seq<char>, Option<Seq<char>>> {
    Map::new(
        |name: Seq<char>|
            profiles.contains_key(name) && observed_at(credentials, replies, name) is Some,
        |name: Seq<char>| observed_at(credentials, replies, name)->0,
    )
}

/// The observed generation of one provider.
pub open spec fn observed_at(
    credentials: Map<Seq<char>, ProviderCredential>,
    replies: Map<Seq<char>, SecretReply>,
    name: Seq<char>,
) -> Option<Option<Seq<char>>> {
    let credential = lookup(credentials, name);
    observed_generation(credential, reply_for(credential, replies))
}

/// Generations of an observation table.
pub open spec fn generations(observations: Map<Seq<char>, CredentialObservation>) -> Map<
    Seq<char>,
    Option<Seq<char>>,
> {
    observations.map_values(|observation: CredentialObservation| observation.generation())
}

/// The profiles that a hydration proves logged out.
pub open spec fn newly_missing(
    profiles: Map<Seq<char>, ProfileContent>,
    credentials: Map<Seq<char>, ProviderCredential>,
    replies: Map<Seq<char>, SecretReply>,
) -> Set<Seq<char>> {
    Set::new(
        |name: Seq<char>|
            {
                let credential = lookup(credentials, name);
                profiles.contains_key(name) && logged_out(
                    profiles[name],
                    credential,
                    reply_for(credential, replies),
                )
            },
    )
}

/// Applies one reply to one profile.
fn hydrate_profile(
    profile: &BuiltinProviderProfile,
    reply: Option<&SecretReply>,
) -> (res: Option<BuiltinProviderProfile>)
    ensures
        match res {
            Some(hydrated) => supplied_profile(profile.content(), reply_value(reply)) == Some(
                hydrated.content(),
            ),
            None => supplied_profile(profile.content(), reply_value(reply)) is None,
        },
{
    let (oauth, api_key) = match reply {
        Some(SecretReply::Contents { oauth, api_key, .. }) => (oauth, api_key),
        _ => {
            return None;
        },
    };
    if let BuiltinProviderProfile::Chatgpt(current) = profile {
        return match oauth {
            Some(auth) => Some(
                BuiltinProviderProfile::Chatgpt(
                    ChatGptProfile {
                        auth: auth.clone(),
                        responses_lite_compatibility: current.responses_lite_compatibility,
                    },
                ),
            ),
            None => None,
        };
    }
    let key = match api_key {
        Some(key) => {
            if is_blank(key.as_str()) {
                return None;
            }
            key.clone()
        },
        None => {
            return None;
        },
    };
    let mut hydrated = profile.duplicate();
    match &mut hydrated {
        BuiltinProviderProfile::Chatgpt(_) => {},
        BuiltinProviderProfile::ChatCompletions(route) => {
            route.api_key = key;
        },
        BuiltinProviderProfile::OpenRouter(route) => {
            route.api_key = key;
        },
        BuiltinProviderProfile::Responses(route) => {
            route.api_key = key;
        },
    }
    Some(hydrated)
}

impl BuiltinProviderProfiles {
    /// Hydrates the profiles with credential records read by path, and returns what was observed
    /// of each stored credential. A profile without a usable credential is dropped.
    pub fn hydrate_profile_credentials_with(&mut self, replies: &NameTable<SecretReply>) -> (res:
        NameTable<CredentialObservation>)
        ensures
            final(self).profiles() == hydrated_profiles(
                old(self).profiles(),
                old(self).credential_map(),
                replies@,
            ),
            final(self).credential_map() == old(self).credential_map(),
            final(self).missing() == old(self).missing().union(
                newly_missing(old(self).profiles(), old(self).credential_map(), replies@),
            ),
            generations(res@) == observed_generations(
                old(self).profiles(),
                old(self).credential_map(),
                replies@,
            ),
    {
        let mut observations: NameTable<CredentialObservation> = NameTable::new();
        let mut hydrated: NameTable<BuiltinProviderProfile> = NameTable::new();
        let n: usize = self.providers.len();
        let mut i: usize = 0;
        let ghost profiles = self.profiles();
        let ghost credentials = self.credential_map();
        let ghost target = hydrated_profiles(profiles, credentials, replies@);
        let ghost observed = observed_generations(profiles, credentials, replies@);
        let ghost lost = newly_missing(profiles, credentials, replies@);
        let ghost keys = self.providers.keys();
        let ghost known_missing = self.missing();
        assert(keys.take(0).to_set() =~= Set::<Seq<char>>::empty());
        assert(profile_contents(hydrated@) =~= target.restrict(keys.take(0).to_set()));
        assert(generations(observations@) =~= observed.restrict(keys.take(0).to_set()));
        assert(self.missing() =~= known_missing.union(lost.intersect(keys.take(0).to_set())));
        while i < n
            invariant
                self.providers == old(self).providers,
                self.credentials == old(self).credentials,
                keys == self.providers.keys(),
                n == keys.len(),
                i <= n,
                profiles == profile_contents(self.providers@),
                credentials == self.credentials@,
                target == hydrated_profiles(profiles, credentials, replies@),
                observed == observed_generations(profiles, credentials, replies@),
                lost == newly_missing(profiles, credentials, replies@),
                profile_contents(hydrated@) == target.restrict(keys.take(i as int).to_set()),
                generations(observations@) == observed.restrict(keys.take(i as int).to_set()),
                self.missing() == known_missing.union(
                    lost.intersect(keys.take(i as int).to_set()),
                ),
            decreases n - i,
        {
            let ghost before = hydrated@;
            let ghost seen = observations@;
            let ghost missed = self.missing();
            let name = self.providers.key_at(i);
            let profile = self.providers.value_at(i);
            let ghost key = name@;
            proof {
                lemma_take_set(keys, i as int);
                assert(profiles.contains_key(key));
                assert(profiles[key] == profile.content());
            }
            match self.credentials.get(name.as_str()) {
                None => {},
                Some(credential) => match credential {
                    ProviderCredential::Keyless => {
                        hydrated.insert(name.clone(), profile.duplicate());
                    },
                    ProviderCredential::Stored(reference) => {
                        let reply = replies.get(reference.path.as_str());
                        assert(lookup(credentials, key) == Some(*credential));
                        assert(reply_for(lookup(credentials, key), replies@) == reply_value(reply));
                        let observation = match reply {
                            Some(SecretReply::Contents { contents, .. }) =>
                                CredentialObservation::Contents(
                                    content_generation(contents.as_slice()),
                                ),
                            _ => CredentialObservation::Unavailable,
                        };
                        observations.insert(name.clone(), observation);
                        let not_found: bool = match reply {
                            Some(SecretReply::Failed { not_found }) => *not_found,
                            _ => false,
                        };
                        if credential_error_means_logged_out(profile, credential, not_found) {
                            self.missing_logins.insert(name.clone(), ());
                            assert(self.missing() =~= missed.insert(key));
                        }
                        if let Some(fresh) = hydrate_profile(profile, reply) {
                            hydrated.insert(name.clone(), fresh);
                        }
                    },
                },
            }
            proof {
                let after = keys.take(i + 1).to_set();
                let verdict = hydrated_at(profiles, credentials, replies@, key);
                let generation = observed_at(credentials, replies@, key);
                if verdict is Some {
                    assert(profile_contents(hydrated@) =~= profile_contents(before).insert(
                        key,
                        verdict->0,
                    ));
                } else {
                    assert(hydrated@ == before);
                }
                if generation is Some {
                    assert(generations(observations@) =~= generations(seen).insert(
                        key,
                        generation->0,
                    ));
                } else {
                    assert(observations@ == seen);
                }
                assert(profile_contents(hydrated@) =~= target.restrict(after));
                assert(generations(observations@) =~= observed.restrict(after));
                assert(self.missing() =~= known_missing.union(lost.intersect(after)));
            }
            i = i + 1;
        }
        proof {
            assert(keys.take(n as int) =~= keys);
            assert forall|name: Seq<char>| profiles.contains_key(name) implies keys.to_set().contains(
                name,
            ) by {
                assert(self.providers@.contains_key(name));
            }
            assert(profile_contents(hydrated@) =~= target);
            assert(generations(observations@) =~= observed);
            assert(self.missing() =~= known_missing.union(lost));
        }
        self.providers = hydrated;
        observations
    }
}

/// The position of the first model named `id`.
pub open spec fn model_position(models: Seq<ModelEntry>, id: Seq<char>, i: int) -> bool {
    &&& 0 <= i < models.len()
    &&& models[i].id@ == id
    &&& forall|j: int| 0 <= j < i ==> (#[trigger] models[j]).id@ != id
}

/// Finds the first model named `id`.
fn find_model(models: &Vec<ModelEntry>, id: &String) -> (res: Option<usize>)
    ensures
        match res {
            Some(i) => model_position(models@, id@, i as int),
            None => forall|i: int| 0 <= i < models@.len() ==> (#[trigger] models@[i]).id@ != id@,
        },
{
    let mut i: usize = 0;
    while i < models.len()
        invariant
            i <= models@.len(),
            forall|j: int| 0 <= j < i ==> (#[trigger] models@[j]).id@ != id@,
        decreases models@.len() - i,
    {
        if models[i].id == *id {
            return Some(i);
        }
        i = i + 1;
    }
    None
}

/// `snapshot` is the route snapshot of `route`.
pub open spec fn is_snapshot(snapshot: RouteSnapshot, route: RouteContent) -> bool {
    &&& snapshot.base_url@ == route.base_url
    &&& snapshot.api_key@ == route.api_key
    &&& snapshot.snapshot == route.snapshot
}

/// `backend` is what `model` resolves to with the profile as it stands; `None` when the profile is
/// absent, its credentials are unusable, or it has no such model.
pub open spec fn resolves_to(
    model: ModelId,
    codex: &CodexRoutes,
    profile: Option<ProfileContent>,
    now_ms: u64,
    backend: Option<PromptBackend>,
) -> bool {
    match profile {
        None => backend is None,
        Some(ProfileContent::Chatgpt { auth, lite_compatibility }) => match backend {
            Some(PromptBackend::Responses(config)) => usable(auth, now_ms) && is_config(
                config,
                model,
                codex,
                auth,
                lite_compatibility,
            ),
            Some(_) => false,
            None => !usable(auth, now_ms),
        },
        Some(ProfileContent::ChatCompletions(route)) => resolves_to_chat(model, route, backend),
        Some(ProfileContent::OpenRouter(route)) => resolves_to_chat(model, route, backend),
        Some(ProfileContent::Responses(route)) => match backend {
            Some(PromptBackend::PublicResponses { route: snapshot, model_index }) => {
                &&& is_snapshot(snapshot, route)
                &&& model_position(route.models, model.model@, model_index as int)
            },
            Some(_) => false,
            None => no_model(route.models, model.model@),
        },
    }
}

/// No model is named `id`.
pub open spec fn no_model(models: Seq<ModelEntry>, id: Seq<char>) -> bool {
    forall|i: int| 0 <= i < models.len() ==> (#[trigger] models[i]).id@ != id
}

/// `backend` is the Chat Completions route of `model`.
pub open spec fn resolves_to_chat(
    model: ModelId,
    route: RouteContent,
    backend: Option<PromptBackend>,
) -> bool {
    match backend {
        Some(PromptBackend::ChatCompletions { route: snapshot, model_index }) => {
            &&& is_snapshot(snapshot, route)
            &&& model_position(route.models, model.model@, model_index as int)
        },
        Some(_) => false,
        None => no_model(route.models, model.model@),
    }
}

fn snapshot_of(route: &GenericRoute) -> (res: RouteSnapshot)
    ensures
        is_snapshot(res, route.content()),
{
    RouteSnapshot {
        base_url: route.base_url.clone(),
        api_key: route.api_key.clone(),
        snapshot: route.snapshot,
    }
}

/// Resolves an already-hydrated profile without performing OAuth I/O. A profile that is absent or
/// not a ChatGPT profile forgets any remembered refresh rejection.
pub fn resolve_prompt_backend_without_refresh(
    model: &ModelId,
    codex: &CodexRoutes,
    profiles: &BuiltinProviderProfiles,
    rejections: &mut OAuthRefreshRejectionCache,
    now_ms: u64,
) -> (res: Option<PromptBackend>)
    ensures
        resolves_to(*model, codex, lookup(profiles.profiles(), model.provider@), now_ms, res),
        final(rejections).unauthorized_map() == old(rejections).unauthorized_map(),
        final(rejections).rejections() == match lookup(profiles.profiles(), model.provider@) {
            Some(ProfileContent::Chatgpt { .. }) => old(rejections).rejections(),
            _ => old(rejections).rejections().remove(model.provider@),
        },
{
    match profiles.get(model.provider.as_str()) {
        None => {
            rejections.clear(&model.provider);
            None
        },
        Some(BuiltinProviderProfile::Chatgpt(profile)) => {
            if !is_usable(&profile.auth, now_ms) {
                return None;
            }
            Some(
                PromptBackend::Responses(
                    resolved_config_for_provider_model(
                        model,
                        codex,
                        &profile.auth,
                        profile.responses_lite_compatibility,
                    ),
                ),
            )
        },
        Some(BuiltinProviderProfile::ChatCompletions(route)) => {
            rejections.clear(&model.provider);
            match find_model(&route.models, &model.model) {
                Some(model_index) => Some(
                    PromptBackend::ChatCompletions { route: snapshot_of(route), model_index },
                ),
                None => None,
            }
        },
        Some(BuiltinProviderProfile::OpenRouter(route)) => {
            rejections.clear(&model.provider);
            match find_model(&route.models, &model.model) {
                Some(model_index) => Some(
                    PromptBackend::ChatCompletions { route: snapshot_of(route), model_index },
                ),
                None => None,
            }
        },
        Some(BuiltinProviderProfile::Responses(route)) => {
            rejections.clear(&model.provider);
            match find_model(&route.models, &model.model) {
                Some(model_index) => Some(
                    PromptBackend::PublicResponses { route: snapshot_of(route), model_index },
                ),
                None => None,
            }
        },
    }
}

/// Removes at most one provider, the first by name, from the startup quota snapshot. The host
/// regains control between calls, so newly arrived prompts go ahead of the next provider's
/// best-effort quota work.
pub fn take_next_initial_quota_profile(startup: &mut Option<BuiltinProviderProfiles>) -> (res:
    Option<BuiltinProviderProfiles>)
    ensures
        match (*old(startup), res) {
            (None, None) => *final(startup) is None,
            (Some(profiles), None) => {
                &&& profiles.names().len() == 0
                &&& *final(startup) is None
            },
            (Some(profiles), Some(selected)) => {
                let first = profiles.names()[0];
                &&& profiles.names().len() > 0
                &&& selected.profiles() == only(profiles.profiles(), first)
                &&& selected.credential_map() == only(profiles.credential_map(), first)
                &&& selected.missing() == Set::<Seq<char>>::empty()
                &&& match *final(startup) {
                    Some(rest) => {
                        &&& rest.profiles() == profiles.profiles().remove(first)
                        &&& rest.credential_map() == profiles.credential_map().remove(first)
                        &&& rest.missing() == profiles.missing().remove(first)
                        &&& rest.names().len() > 0
                    },
                    None => profiles.profiles().remove(first) == Map::<
                        Seq<char>,
                        ProfileContent,
                    >::empty(),
                }
            },
            (None, Some(_)) => false,
        },
{
    let mut profiles = match startup.take() {
        Some(profiles) => profiles,
        None => {
            return None;
        },
    };
    if profiles.len() == 0 {
        return None;
    }
    let first = profiles.name_at(0).clone();
    let selected = profiles.selected(first.as_str());
    profiles.remove(first.as_str());
    let rest: usize = profiles.len();
    if rest > 0 {
        *startup = Some(profiles);
    } else {
        assert(profiles.profiles() =~= Map::<Seq<char>, ProfileContent>::empty()) by {
            assert forall|name: Seq<char>| !profiles.profiles().contains_key(name) by {
                if profiles.profiles().contains_key(name) {
                    assert(profiles.names().contains(name));
                }
            }
        }
    }
    Some(selected)
}

/// The profile with a ChatGPT login whose record is kept at a path.
pub open spec fn chatgpt_login_profile(auth: OpenAiAuth) -> ProfileContent {
    ProfileContent::Chatgpt { auth: auth.content(), lite_compatibility: false }
}

/// Makes the only profile `chatgpt` from a login, in the standard mode.
pub fn profiles_with_chatgpt_auth(auth: OpenAiAuth, credential_path: String) -> (res:
    BuiltinProviderProfiles)
    ensures
        res.profiles() == map!["chatgpt"@ => chatgpt_login_profile(auth)],
        res.credential_map() == map!["chatgpt"@ => ProviderCredential::Stored(
            ProviderCredentialReference {
                slot: ProviderCredentialSlot::OAuth,
                path: credential_path,
            },
        )],
        res.missing() == Set::<Seq<char>>::empty(),
{
    let mut profiles = BuiltinProviderProfiles::new();
    profiles.insert(
        "chatgpt".to_owned(),
        BuiltinProviderProfile::Chatgpt(
            ChatGptProfile { auth, responses_lite_compatibility: false },
        ),
        ProviderCredential::Stored(
            ProviderCredentialReference {
                slot: ProviderCredentialSlot::OAuth,
                path: credential_path,
            },
        ),
    );
    assert(profiles.profiles() =~= map!["chatgpt"@ => chatgpt_login_profile(auth)]);
    profiles
}

/// Selecting one provider keeps it as it is and nothing else.
pub proof fn selection_keeps_one<V>(
    table: Map<Seq<char>, V>,
    key: Seq<char>,
    other: Seq<char>,
)
    ensures
        only(table, key).contains_key(other) <==> other == key && table.contains_key(key),
        table.contains_key(key) ==> only(table, key)[key] == table[key],
{
}

/// New credentials replace those of the one ChatGPT profile they are for; its mode, every other
/// profile and every generic route stay.
pub proof fn new_credentials_replace_one_profile(
    profiles: Map<Seq<char>, ProfileContent>,
    provider: Seq<char>,
    auth: AuthContent,
    other: Seq<char>,
)
    ensures
        profiles.contains_key(provider) ==> (profiles[provider] matches ProfileContent::Chatgpt {
            lite_compatibility,
            ..
        } ==> with_auth(profiles, provider, auth)[provider] == (ProfileContent::Chatgpt {
            auth,
            lite_compatibility,
        })),
        with_auth(profiles, provider, auth).contains_key(other) == profiles.contains_key(other),
        other != provider && profiles.contains_key(other) ==> with_auth(profiles, provider, auth)[
        other] == profiles[other],
        profiles.contains_key(provider) && !(profiles[provider] is Chatgpt) ==> with_auth(
            profiles,
            provider,
            auth,
        )[provider] == profiles[provider],
{
}

/// The mode of a ChatGPT profile is the one captured at startup, off where none was, whatever its
/// profile says later; nothing else of any profile changes.
pub proof fn startup_mode_is_pinned(
    profiles: Map<Seq<char>, ProfileContent>,
    modes: Map<Seq<char>, bool>,
    name: Seq<char>,
)
    ensures
        pinned_modes(profiles, modes).contains_key(name) == profiles.contains_key(name),
        profiles.contains_key(name) ==> match profiles[name] {
            ProfileContent::Chatgpt { auth, .. } => pinned_modes(profiles, modes)[name]
                == (ProfileContent::Chatgpt {
                auth,
                lite_compatibility: if modes.contains_key(name) {
                    modes[name]
                } else {
                    false
                },
            }),
            other => pinned_modes(profiles, modes)[name] == other,
        },
        lite_modes(profiles).contains_key(name) <==> profiles.contains_key(name)
            && profiles[name] is Chatgpt,
        profiles.contains_key(name) ==> (profiles[name] matches ProfileContent::Chatgpt {
            lite_compatibility,
            ..
        } ==> lite_modes(profiles)[name] == lite_compatibility),
{
}

/// A profile comes back with exactly what storage holds for it: a ChatGPT profile with the stored
/// record, a generic route with the stored key and all else as configured. A profile that needs
/// no key stays; one whose secret is missing, unreadable, of the wrong kind or blank is left out.
pub proof fn hydration_supplies_the_stored_secret(
    profile: ProfileContent,
    reference: ProviderCredentialReference,
    contents: Vec<u8>,
    oauth: Option<OpenAiAuth>,
    api_key: Option<String>,
)
    ensures
        hydrated_profile(profile, Some(ProviderCredential::Keyless), None) == Some(profile),
        hydrated_profile(profile, None, None) is None,
        hydrated_profile(profile, Some(ProviderCredential::Stored(reference)), None) is None,
        hydrated_profile(
            profile,
            Some(ProviderCredential::Stored(reference)),
            Some(SecretReply::Unexpected),
        ) is None,
        hydrated_profile(
            profile,
            Some(ProviderCredential::Stored(reference)),
            Some(SecretReply::Failed { not_found: true }),
        ) is None,
        hydrated_profile(
            profile,
            Some(ProviderCredential::Stored(reference)),
            Some(SecretReply::Failed { not_found: false }),
        ) is None,
        ({
            let hydrated = hydrated_profile(
                profile,
                Some(ProviderCredential::Stored(reference)),
                Some(SecretReply::Contents { contents, oauth, api_key }),
            );
            match profile {
                ProfileContent::Chatgpt { lite_compatibility, .. } => {
                    &&& hydrated is Some <==> oauth is Some
                    &&& oauth matches Some(record) ==> (hydrated matches Some(
                        ProfileContent::Chatgpt { auth, lite_compatibility: mode },
                    ) && auth == record.content() && mode == lite_compatibility)
                },
                ProfileContent::ChatCompletions(route) => {
                    &&& hydrated is Some <==> api_key is Some && !blank(api_key->0@)
                    &&& hydrated is Some ==> (hydrated matches Some(
                        ProfileContent::ChatCompletions(supplied),
                    ) && is_supplied(supplied, route, api_key->0@))
                },
                ProfileContent::OpenRouter(route) => {
                    &&& hydrated is Some <==> api_key is Some && !blank(api_key->0@)
                    &&& hydrated is Some ==> (hydrated matches Some(
                        ProfileContent::OpenRouter(supplied),
                    ) && is_supplied(supplied, route, api_key->0@))
                },
                ProfileContent::Responses(route) => {
                    &&& hydrated is Some <==> api_key is Some && !blank(api_key->0@)
                    &&& hydrated is Some ==> (hydrated matches Some(
                        ProfileContent::Responses(supplied),
                    ) && is_supplied(supplied, route, api_key->0@))
                },
            }
        }),
{
}

/// `supplied` is `route` with the key `key`.
pub open spec fn is_supplied(supplied: RouteContent, route: RouteContent, key: Seq<char>) -> bool {
    &&& supplied.api_key == key
    &&& supplied.base_url == route.base_url
    &&& supplied.models == route.models
    &&& supplied.snapshot == route.snapshot
    &&& supplied.valid == route.valid
}

/// Each profile is hydrated from the reply under its own path, and only from that: two sets of
/// replies that agree there give it the same result.
pub proof fn hydration_reads_its_own_path(
    profiles: Map<Seq<char>, ProfileContent>,
    credentials: Map<Seq<char>, ProviderCredential>,
    replies: Map<Seq<char>, SecretReply>,
    others: Map<Seq<char>, SecretReply>,
    name: Seq<char>,
)
    requires
        profiles.contains_key(name),
        credentials.contains_key(name),
        credentials[name] matches ProviderCredential::Stored(reference) ==> (replies.contains_key(
            reference.path@,
        ) == others.contains_key(reference.path@) && (replies.contains_key(reference.path@)
            ==> replies[reference.path@] == others[reference.path@])),
    ensures
        ({
            let first = hydrated_profiles(profiles, credentials, replies);
            let second = hydrated_profiles(profiles, credentials, others);
            &&& first.contains_key(name) == second.contains_key(name)
            &&& first.contains_key(name) ==> first[name] == second[name]
            &&& credentials[name] is Keyless ==> first.contains_key(name) && first[name]
                == profiles[name]
            &&& credentials[name] matches ProviderCredential::Stored(reference) ==> (
            !replies.contains_key(reference.path@) ==> !first.contains_key(name))
        }),
{
}

/// Every stored credential is observed: with the generation of the contents that came back, or as
/// unavailable; a profile without one is not.
pub proof fn stored_credentials_are_observed(
    profiles: Map<Seq<char>, ProfileContent>,
    credentials: Map<Seq<char>, ProviderCredential>,
    replies: Map<Seq<char>, SecretReply>,
    name: Seq<char>,
)
    requires
        profiles.contains_key(name),
        credentials.contains_key(name),
    ensures
        ({
            let observed = observed_generations(profiles, credentials, replies);
            &&& observed.contains_key(name) <==> credentials[name] is Stored
            &&& credentials[name] matches ProviderCredential::Stored(reference) ==> {
                &&& !replies.contains_key(reference.path@) ==> observed[name] is None
                &&& replies.contains_key(reference.path@) ==> match replies[reference.path@] {
                    SecretReply::Contents { contents, .. } => observed[name] == Some(
                        generation_of(contents@),
                    ),
                    _ => observed[name] is None,
                }
            }
        }),
{
}

/// A login is missing only where storage positively has no record of a ChatGPT profile's stored
/// credential; a failure of any other kind, and any other profile, proves nothing.
pub proof fn only_absence_means_logged_out(
    profile: ProfileContent,
    reference: ProviderCredentialReference,
    not_found: bool,
)
    ensures
        logged_out(
            profile,
            Some(ProviderCredential::Stored(reference)),
            Some(SecretReply::Failed { not_found }),
        ) <==> not_found && profile is Chatgpt && reference.slot == ProviderCredentialSlot::OAuth,
        !logged_out(profile, Some(ProviderCredential::Stored(reference)), None),
        !logged_out(
            profile,
            Some(ProviderCredential::Stored(reference)),
            Some(SecretReply::Unexpected),
        ),
        !logged_out(
            profile,
            Some(ProviderCredential::Keyless),
            Some(SecretReply::Failed { not_found }),
        ),
{
}

/// A route resolves to the profile's own kind of backend: a ChatGPT profile while its credentials
/// can be used, with exactly those, and a generic one for every model that it lists, at the
/// model's first place, with its endpoint and key.
pub proof fn resolution_uses_the_selected_profile(
    model: ModelId,
    codex: &CodexRoutes,
    profile: Option<ProfileContent>,
    now_ms: u64,
    backend: Option<PromptBackend>,
    i: int,
)
    requires
        resolves_to(model, codex, profile, now_ms, backend),
    ensures
        profile is None ==> backend is None,
        profile matches Some(ProfileContent::Chatgpt { auth, lite_compatibility }) ==> {
            &&& backend is Some <==> !blank(auth.access_token) && now_ms < auth.expires_at_ms
            &&& backend is Some ==> (backend matches Some(PromptBackend::Responses(config)) && {
                &&& config.model == model
                &&& config.access_token@ == auth.access_token
                &&& optional_text(config.account_id) == auth.account_id
                &&& config.lite_compatibility == lite_compatibility
            })
        },
        profile matches Some(ProfileContent::ChatCompletions(route)) ==> {
            &&& 0 <= i < route.models.len() && route.models[i].id@ == model.model@
                ==> backend is Some
            &&& backend matches Some(found) ==> {
                &&& found matches PromptBackend::ChatCompletions { route: snapshot, model_index }
                &&& snapshot.base_url@ == route.base_url
                &&& snapshot.api_key@ == route.api_key
                &&& snapshot.snapshot == route.snapshot
                &&& model_index < route.models.len()
                &&& route.models[model_index as int].id@ == model.model@
                &&& 0 <= i < model_index ==> route.models[i].id@ != model.model@
            }
        },
        profile matches Some(ProfileContent::OpenRouter(route)) ==> {
            &&& 0 <= i < route.models.len() && route.models[i].id@ == model.model@
                ==> backend is Some
            &&& backend matches Some(found) ==> {
                &&& found matches PromptBackend::ChatCompletions { route: snapshot, model_index }
                &&& snapshot.base_url@ == route.base_url
                &&& snapshot.api_key@ == route.api_key
                &&& snapshot.snapshot == route.snapshot
                &&& model_index < route.models.len()
                &&& route.models[model_index as int].id@ == model.model@
                &&& 0 <= i < model_index ==> route.models[i].id@ != model.model@
            }
        },
        profile matches Some(ProfileContent::Responses(route)) ==> {
            &&& 0 <= i < route.models.len() && route.models[i].id@ == model.model@
                ==> backend is Some
            &&& backend matches Some(found) ==> {
                &&& found matches PromptBackend::PublicResponses { route: snapshot, model_index }
                &&& snapshot.base_url@ == route.base_url
                &&& snapshot.api_key@ == route.api_key
                &&& snapshot.snapshot == route.snapshot
                &&& model_index < route.models.len()
                &&& route.models[model_index as int].id@ == model.model@
                &&& 0 <= i < model_index ==> route.models[i].id@ != model.model@
            }
        },
{
}

/// The summary limits of a route are refused for the first model that breaks them, and accepted
/// exactly when none does.
pub proof fn first_broken_limit_is_reported(models: Seq<ModelEntry>, i: int)
    requires
        0 <= i <= models.len(),
        forall|j: int| 0 <= j < i ==> (#[trigger] models[j]).summary_error is None,
    ensures
        i == models.len() ==> first_summary_error(models) is Ok,
        i < models.len() ==> (models[i].summary_error matches Some(error) ==> first_summary_error(
            models,
        ) == Err::<(), SummaryCompactionConfigError>(error)),
    decreases models.len(),
{
    if i > 0 {
        let rest = models.drop_first();
        assert(models[0].summary_error is None);
        assert forall|j: int| 0 <= j < i - 1 implies (#[trigger] rest[j]).summary_error is None by {
            assert(rest[j] == models[j + 1]);
        }
        first_broken_limit_is_reported(rest, i - 1);
        if i < models.len() {
            assert(rest[i - 1] == models[i]);
        }
    }
}

/// A generic route is valid when its settings are; a ChatGPT profile always is, and has no summary
/// limits of its own.
pub proof fn route_verdicts_are_their_own(route: RouteContent, auth: AuthContent, lite: bool)
    ensures
        profile_valid(ProfileContent::ChatCompletions(route)) == route.valid,
        profile_valid(ProfileContent::OpenRouter(route)) == route.valid,
        profile_valid(ProfileContent::Responses(route)) == route.valid,
        profile_valid(ProfileContent::Chatgpt { auth, lite_compatibility: lite }),
        summary_verdict(ProfileContent::Chatgpt { auth, lite_compatibility: lite }) is Ok,
        summary_verdict(ProfileContent::ChatCompletions(route)) == first_summary_error(
            route.models,
        ),
        summary_verdict(ProfileContent::OpenRouter(route)) == first_summary_error(route.models),
        summary_verdict(ProfileContent::Responses(route)) == first_summary_error(route.models),
{
}

/// A login makes a profile in the standard mode that holds the login's own tokens.
pub proof fn login_profile_holds_the_login(auth: OpenAiAuth, profile: ProfileContent)
    requires
        profile == chatgpt_login_profile(auth),
    ensures
        profile matches ProfileContent::Chatgpt { auth: held, lite_compatibility }
            && !lite_compatibility && held.access_token == auth.access_token@
            && held.refresh_token == auth.refresh_token@ && held.expires_at_ms
            == auth.expires_at_ms && held.account_id == optional_text(auth.account_id),
{
}

} // verus!
