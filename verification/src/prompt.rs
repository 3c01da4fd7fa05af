//! Logical prompts, resolved backends, and their process-local identities.

use vstd::prelude::*;

use crate::retry::PromptRetryState;
use crate::text::{clone_optional_text, optional_text, same_optional_text};

verus! {

/// A provider-qualified model.
pub struct ModelId {
    pub provider: String,
    pub model: String,
}

impl Clone for ModelId {
    fn clone(&self) -> (res: Self)
        ensures
            res == *self,
    {
        ModelId { provider: self.provider.clone(), model: self.model.clone() }
    }
}

/// What a prompt asks its provider to do.
#[derive(Clone, Copy, Debug, PartialEq, Eq, Structural)]
pub enum PromptOperation {
    /// Ordinary model inference.
    Inference,
    /// Compaction of one context without inference.
    StandaloneCompaction,
}

/// One provider work envelope. Its body is retained by the host under `content`.
pub struct Prompt {
    pub agent_prompt_id: String,
    pub agent_id: String,
    pub session_id: String,
    pub originator: String,
    pub model: ModelId,
    pub operation: PromptOperation,
    /// Transport-only reference to an earlier tool list.
    pub tools_ref: Option<u64>,
    /// Host handle of the retained prompt body.
    pub content: u64,
}

impl Clone for Prompt {
    fn clone(&self) -> (res: Self)
        ensures
            res == *self,
    {
        Prompt {
            agent_prompt_id: self.agent_prompt_id.clone(),
            agent_id: self.agent_id.clone(),
            session_id: self.session_id.clone(),
            originator: self.originator.clone(),
            model: self.model.clone(),
            operation: self.operation,
            tools_ref: self.tools_ref,
            content: self.content,
        }
    }
}

/// Consumes one work envelope and discards its transport-only tool reuse reference.
pub fn materialize_prompt(prompt: Prompt) -> (res: Prompt)
    ensures
        res == (Prompt { tools_ref: None, ..prompt }),
{
    Prompt { tools_ref: None, ..prompt }
}

/// Wire transport that carried one provider attempt.
#[derive(Clone, Copy, Debug, PartialEq, Eq, Structural)]
pub enum ProviderBackendTransport {
    Websocket,
    Http,
}

/// A provider backend that one attempt reached.
pub struct ProviderBackend {
    pub endpoint: String,
    pub transport: ProviderBackendTransport,
    /// Whether a stale response chain forced a full replay.
    pub stale_chain_fallback: bool,
}

impl Clone for ProviderBackend {
    fn clone(&self) -> (res: Self)
        ensures
            res == *self,
    {
        ProviderBackend {
            endpoint: self.endpoint.clone(),
            transport: self.transport,
            stale_chain_fallback: self.stale_chain_fallback,
        }
    }
}

/// Clones an optional backend.
pub fn clone_backend(backend: &Option<ProviderBackend>) -> (res: Option<ProviderBackend>)
    ensures
        res == *backend,
{
    match backend {
        Some(backend) => Some(backend.clone()),
        None => None,
    }
}

/// The backend of this attempt, or else the one an earlier attempt of the turn reached.
pub open spec fn observed(
    reached: Option<ProviderBackend>,
    prior: Option<ProviderBackend>,
) -> Option<ProviderBackend> {
    if reached is Some {
        reached
    } else {
        prior
    }
}

/// The backend of this attempt, or else the one an earlier attempt of the turn reached.
pub fn observed_backend(
    reached: Option<ProviderBackend>,
    prior: &Option<ProviderBackend>,
) -> (res: Option<ProviderBackend>)
    ensures
        res == observed(reached, *prior),
{
    match reached {
        Some(backend) => Some(backend),
        None => clone_backend(prior),
    }
}

/// How the ChatGPT client tells resolved routes apart, as opaque values that the host hands over.
#[derive(Clone, Copy, Debug, PartialEq, Eq, Structural)]
pub struct CodexIdentity {
    /// Identity of the route for inference, prewarms, and compaction.
    pub inference: u64,
    /// Identity of the account whose quota the route uses.
    pub quota: u64,
    /// Account anchor that every automatic retry of one prompt must keep.
    pub retry_anchor: u64,
}

/// What a ChatGPT route is resolved from.
pub struct CodexInput {
    pub provider: Seq<char>,
    pub model: Seq<char>,
    pub access_token: Seq<char>,
    pub account_id: Option<Seq<char>>,
    pub lite_compatibility: bool,
}

/// The identities that the client has for one route.
pub struct CodexRoute {
    pub model: ModelId,
    pub access_token: String,
    pub account_id: Option<String>,
    /// Whether the Responses Lite compatibility mode is selected.
    pub lite_compatibility: bool,
    pub identity: CodexIdentity,
}

impl CodexRoute {
    /// What this route is resolved from.
    pub open spec fn input(self) -> CodexInput {
        CodexInput {
            provider: self.model.provider@,
            model: self.model.model@,
            access_token: self.access_token@,
            account_id: optional_text(self.account_id),
            lite_compatibility: self.lite_compatibility,
        }
    }
}

/// The identities of the routes that the host has described; the latest description of a route
/// holds.
pub struct CodexRoutes {
    routes: Vec<CodexRoute>,
}

/// The latest of some descriptions of a route.
pub open spec fn described(routes: Seq<CodexRoute>, input: CodexInput) -> Option<CodexIdentity>
    decreases routes.len(),
{
    if routes.len() == 0 {
        None
    } else if routes.last().input() == input {
        Some(routes.last().identity)
    } else {
        described(routes.drop_last(), input)
    }
}

impl CodexRoutes {
    /// The descriptions in the order in which they were given.
    pub closed spec fn view(&self) -> Seq<CodexRoute> {
        self.routes@
    }

    /// The identity of a route. The host describes every route before it hands over the route's
    /// credentials; a route that it has not described has the zero identity.
    pub open spec fn identity_of(&self, input: CodexInput) -> CodexIdentity {
        match described(self@, input) {
            Some(identity) => identity,
            None => CodexIdentity { inference: 0, quota: 0, retry_anchor: 0 },
        }
    }

    /// No route described.
    pub fn new() -> (res: Self)
        ensures
            res@ == Seq::<CodexRoute>::empty(),
    {
        CodexRoutes { routes: Vec::new() }
    }

    /// Describes one route.
    pub fn describe(&mut self, route: CodexRoute)
        ensures
            final(self)@ == old(self)@.push(route),
            final(self).identity_of(route.input()) == route.identity,
            forall|input: CodexInput|
                input != route.input() ==> #[trigger] final(self).identity_of(input) == old(
                    self,
                ).identity_of(input),
    {
        self.routes.push(route);
        assert(self.routes@.drop_last() =~= old(self).routes@);
    }

    /// The identity of the route with some credentials.
    pub fn identity(
        &self,
        model: &ModelId,
        access_token: &String,
        account_id: &Option<String>,
        lite_compatibility: bool,
    ) -> (res: CodexIdentity)
        ensures
            res == self.identity_of(
                CodexInput {
                    provider: model.provider@,
                    model: model.model@,
                    access_token: access_token@,
                    account_id: optional_text(*account_id),
                    lite_compatibility,
                },
            ),
    {
        let ghost input = CodexInput {
            provider: model.provider@,
            model: model.model@,
            access_token: access_token@,
            account_id: optional_text(*account_id),
            lite_compatibility,
        };
        let mut i: usize = self.routes.len();
        assert(self.routes@.take(i as int) =~= self.routes@);
        while i > 0
            invariant
                i <= self.routes@.len(),
                described(self.routes@, input) == described(self.routes@.take(i as int), input),
                input == (CodexInput {
                    provider: model.provider@,
                    model: model.model@,
                    access_token: access_token@,
                    account_id: optional_text(*account_id),
                    lite_compatibility,
                }),
            decreases i,
        {
            let ghost seen = self.routes@.take(i as int);
            assert(seen.drop_last() =~= self.routes@.take(i - 1));
            assert(seen.last() == self.routes@[i - 1]);
            i = i - 1;
            let route = &self.routes[i];
            if route.model.provider == model.provider && route.model.model == model.model
                && route.access_token == *access_token && same_optional_text(
                &route.account_id,
                account_id,
            ) && route.lite_compatibility == lite_compatibility {
                return route.identity;
            }
        }
        CodexIdentity { inference: 0, quota: 0, retry_anchor: 0 }
    }
}

/// A ChatGPT route with the credential and mode one attempt uses.
pub struct ResolvedConfig {
    pub model: ModelId,
    pub access_token: String,
    pub account_id: Option<String>,
    /// Whether the Responses Lite compatibility mode is selected.
    pub lite_compatibility: bool,
    pub identity: CodexIdentity,
}

impl Clone for ResolvedConfig {
    fn clone(&self) -> (res: Self)
        ensures
            res == *self,
    {
        ResolvedConfig {
            model: self.model.clone(),
            access_token: self.access_token.clone(),
            account_id: clone_optional_text(&self.account_id),
            lite_compatibility: self.lite_compatibility,
            identity: self.identity,
        }
    }
}

/// Account anchor that every automatic retry of one prompt must keep.
#[derive(Clone, Copy, Debug, PartialEq, Eq, Structural)]
pub struct ChatGptRetryIdentity {
    pub anchor: u64,
}

impl ResolvedConfig {
    /// The account anchor of this route.
    pub fn chatgpt_retry_identity(&self) -> (res: ChatGptRetryIdentity)
        ensures
            res.anchor == self.identity.retry_anchor,
    {
        ChatGptRetryIdentity { anchor: self.identity.retry_anchor }
    }

    /// Reports whether this route keeps an account anchor.
    pub fn matches_chatgpt_retry_identity(&self, pinned: &ChatGptRetryIdentity) -> (res: bool)
        ensures
            res == (self.identity.retry_anchor == pinned.anchor),
    {
        self.identity.retry_anchor == pinned.anchor
    }
}

/// An immutable generic route: the values that identify it and the host's snapshot handle.
pub struct RouteSnapshot {
    pub base_url: String,
    pub api_key: String,
    /// Host handle of the complete route with its model catalog.
    pub snapshot: u64,
}

impl Clone for RouteSnapshot {
    fn clone(&self) -> (res: Self)
        ensures
            res == *self,
    {
        RouteSnapshot {
            base_url: self.base_url.clone(),
            api_key: self.api_key.clone(),
            snapshot: self.snapshot,
        }
    }
}

/// The backend that the next finite attempt of a prompt will use.
pub enum PromptBackend {
    /// Mutable provider profile or model state was unavailable at this attempt.
    Unavailable {
        /// Selected provider whose missing OAuth secret requires a fresh login.
        login_required: Option<String>,
    },
    /// ChatGPT through its Responses backend.
    Responses(ResolvedConfig),
    /// Generic Chat Completions route.
    ChatCompletions { route: RouteSnapshot, model_index: usize },
    /// Generic public Responses route.
    PublicResponses { route: RouteSnapshot, model_index: usize },
}

/// Reports whether a freshly resolved backend may continue an automatic retry.
pub open spec fn retry_identity_matches(
    pinned: Option<ChatGptRetryIdentity>,
    next: PromptBackend,
) -> bool {
    match pinned {
        Some(pinned) => match next {
            PromptBackend::Responses(config) => config.identity.retry_anchor == pinned.anchor,
            PromptBackend::Unavailable { .. } => true,
            _ => false,
        },
        None => true,
    }
}

/// Reports whether a freshly resolved backend may continue an automatic retry: a pinned ChatGPT
/// prompt stays on its account, or waits while the backend is unavailable.
pub fn automatic_retry_identity_matches(
    pinned: &Option<ChatGptRetryIdentity>,
    next: &PromptBackend,
) -> (res: bool)
    ensures
        res == retry_identity_matches(*pinned, *next),
{
    match (pinned, next) {
        (Some(pinned), PromptBackend::Responses(next)) => next.matches_chatgpt_retry_identity(
            pinned,
        ),
        (Some(_), PromptBackend::Unavailable { .. }) => true,
        (Some(_), _) => false,
        (None, _) => true,
    }
}

/// Process-local correlation identity of one resolved backend generation.
///
/// It combines the backend and credential state used by prompt workers, cooldowns, and OAuth
/// recovery, and never crosses a protocol or persistence boundary.
#[derive(Clone, Copy, Debug, PartialEq, Eq, Structural)]
pub struct BackendProfileIdentity {
    pub hash: u64,
}

impl BackendProfileIdentity {
    /// Constructs a deterministic identity for focused state tests.
    pub fn from_test_value(value: u64) -> (res: Self)
        ensures
            res.hash == value,
    {
        BackendProfileIdentity { hash: value }
    }
}

/// The material values of one backend generation.
pub enum BackendRoute {
    Responses { access_token: String, account_id: Option<String>, inference: u64 },
    ChatCompletions { base_url: String, api_key: String },
    PublicResponses { base_url: String, api_key: String },
}

/// The content of a [`BackendRoute`].
pub enum RouteKey {
    Responses(Seq<char>, Option<Seq<char>>, u64),
    ChatCompletions(Seq<char>, Seq<char>),
    PublicResponses(Seq<char>, Seq<char>),
}

impl BackendRoute {
    /// The content of this route.
    pub open spec fn key(self) -> RouteKey {
        match self {
            BackendRoute::Responses { access_token, account_id, inference } =>
                RouteKey::Responses(access_token@, optional_text(account_id), inference),
            BackendRoute::ChatCompletions { base_url, api_key } => RouteKey::ChatCompletions(
                base_url@,
                api_key@,
            ),
            BackendRoute::PublicResponses { base_url, api_key } => RouteKey::PublicResponses(
                base_url@,
                api_key@,
            ),
        }
    }

    fn same(&self, other: &BackendRoute) -> (res: bool)
        ensures
            res == (self.key() == other.key()),
    {
        match (self, other) {
            (
                BackendRoute::Responses { access_token, account_id, inference },
                BackendRoute::Responses {
                    access_token: token,
                    account_id: account,
                    inference: other,
                },
            ) => *access_token == *token && same_optional_text(account_id, account) && *inference
                == *other,
            (
                BackendRoute::ChatCompletions { base_url, api_key },
                BackendRoute::ChatCompletions { base_url: url, api_key: key },
            ) => *base_url == *url && *api_key == *key,
            (
                BackendRoute::PublicResponses { base_url, api_key },
                BackendRoute::PublicResponses { base_url: url, api_key: key },
            ) => *base_url == *url && *api_key == *key,
            _ => false,
        }
    }
}

/// The content that determines the identity of `backend`; `None` when it is unavailable.
pub open spec fn backend_key(backend: PromptBackend) -> Option<RouteKey> {
    match backend {
        PromptBackend::Unavailable { .. } => None,
        PromptBackend::Responses(config) => Some(config_key(config)),
        PromptBackend::ChatCompletions { route, .. } => Some(
            RouteKey::ChatCompletions(route.base_url@, route.api_key@),
        ),
        PromptBackend::PublicResponses { route, .. } => Some(
            RouteKey::PublicResponses(route.base_url@, route.api_key@),
        ),
    }
}

/// The content that determines the inference identity of a ChatGPT route: its credential, its
/// account, and whatever else the client tells routes apart by.
pub open spec fn config_key(config: ResolvedConfig) -> RouteKey {
    RouteKey::Responses(
        config.access_token@,
        optional_text(config.account_id),
        config.identity.inference,
    )
}

/// Distinct routes in the order in which the process first saw them.
pub open spec fn distinct_routes(routes: Seq<RouteKey>) -> bool {
    forall|i: int, j: int| 0 <= i < j < routes.len() ==> #[trigger] routes[i] != #[trigger] routes[j]
}

/// `identity` names `key` among `routes`.
pub open spec fn names_route(
    routes: Seq<RouteKey>,
    identity: BackendProfileIdentity,
    key: RouteKey,
) -> bool {
    &&& identity.hash < routes.len()
    &&& routes[identity.hash as int] == key
}

/// The identities handed out so far: each is the position of its route.
pub struct BackendIdentities {
    routes: Vec<BackendRoute>,
}

impl BackendIdentities {
    /// The known routes.
    pub closed spec fn view(&self) -> Seq<RouteKey> {
        Seq::new(self.routes@.len(), |i: int| self.routes@[i].key())
    }

    /// Known routes are distinct.
    pub open spec fn wf(&self) -> bool {
        distinct_routes(self@)
    }

    /// No identity handed out.
    pub fn new() -> (res: Self)
        ensures
            res.wf(),
            res@ == Seq::<RouteKey>::empty(),
    {
        let res = BackendIdentities { routes: Vec::new() };
        assert(res@ =~= Seq::<RouteKey>::empty());
        res
    }

    fn intern(&mut self, route: BackendRoute) -> (res: BackendProfileIdentity)
        requires
            old(self).wf(),
        ensures
            final(self).wf(),
            names_route(final(self)@, res, route.key()),
            final(self)@ == known_routes(old(self)@, Some(route.key())),
    {
        let ghost key = route.key();
        let mut i: usize = 0;
        while i < self.routes.len()
            invariant
                i <= self.routes@.len(),
                self.wf(),
                *self == *old(self),
                key == route.key(),
                forall|j: int| 0 <= j < i ==> #[trigger] self@[j] != key,
            decreases self.routes@.len() - i,
        {
            if self.routes[i].same(&route) {
                assert(self@[i as int] == key);
                return BackendProfileIdentity { hash: i as u64 };
            }
            i = i + 1;
        }
        self.routes.push(route);
        assert(self@ =~= old(self)@.push(key));
        assert(!old(self)@.contains(key));
        BackendProfileIdentity { hash: i as u64 }
    }

    /// The identity of `backend`, `None` when it is unavailable.
    pub fn backend_profile_identity(&mut self, backend: &PromptBackend) -> (res: Option<
        BackendProfileIdentity,
    >)
        requires
            old(self).wf(),
        ensures
            final(self).wf(),
            final(self)@ == known_routes(old(self)@, backend_key(*backend)),
            match (res, backend_key(*backend)) {
                (Some(identity), Some(key)) => names_route(final(self)@, identity, key),
                (None, None) => true,
                _ => false,
            },
    {
        match backend {
            PromptBackend::Unavailable { .. } => None,
            PromptBackend::Responses(config) => Some(self.inference_identity(config)),
            PromptBackend::ChatCompletions { route, .. } => Some(
                self.intern(
                    BackendRoute::ChatCompletions {
                        base_url: route.base_url.clone(),
                        api_key: route.api_key.clone(),
                    },
                ),
            ),
            PromptBackend::PublicResponses { route, .. } => Some(
                self.intern(
                    BackendRoute::PublicResponses {
                        base_url: route.base_url.clone(),
                        api_key: route.api_key.clone(),
                    },
                ),
            ),
        }
    }

    /// The inference identity of one ChatGPT route.
    pub fn inference_identity(&mut self, config: &ResolvedConfig) -> (res: BackendProfileIdentity)
        requires
            old(self).wf(),
        ensures
            final(self).wf(),
            final(self)@ == known_routes(old(self)@, Some(config_key(*config))),
            names_route(final(self)@, res, config_key(*config)),
    {
        self.intern(
            BackendRoute::Responses {
                access_token: config.access_token.clone(),
                account_id: clone_optional_text(&config.account_id),
                inference: config.identity.inference,
            },
        )
    }
}

/// The known routes after one lookup: a new route joins at the end, known ones keep their place.
pub open spec fn known_routes(routes: Seq<RouteKey>, key: Option<RouteKey>) -> Seq<RouteKey> {
    match key {
        Some(key) => if routes.contains(key) {
            routes
        } else {
            routes.push(key)
        },
        None => routes,
    }
}

/// Two identities of one process are equal exactly when their routes are. For a generic route that
/// is its family, its base URL, and its key; for a ChatGPT route it is its credential, its account,
/// and the client's own inference identity.
pub proof fn identity_is_material(
    routes: Seq<RouteKey>,
    first: BackendProfileIdentity,
    first_key: RouteKey,
    second: BackendProfileIdentity,
    second_key: RouteKey,
)
    requires
        distinct_routes(routes),
        names_route(routes, first, first_key),
        names_route(routes, second, second_key),
    ensures
        first == second <==> first_key == second_key,
{
}

/// An identity keeps naming its route whatever is looked up later.
pub proof fn identity_is_stable(
    routes: Seq<RouteKey>,
    identity: BackendProfileIdentity,
    key: RouteKey,
    lookup: Option<RouteKey>,
)
    requires
        names_route(routes, identity, key),
    ensures
        names_route(known_routes(routes, lookup), identity, key),
{
}

/// Exact shared cooldown generation that a manually admitted attempt may invalidate.
pub struct CooldownProbe {
    pub provider: String,
    pub generation: u64,
}

impl Clone for CooldownProbe {
    fn clone(&self) -> (res: Self)
        ensures
            res == *self,
    {
        CooldownProbe { provider: self.provider.clone(), generation: self.generation }
    }
}

/// One owned logical prompt between finite provider attempts.
pub struct PromptJob {
    pub agent_prompt_id: String,
    pub debug_provider_requests: bool,
    pub prompt: Prompt,
    pub backend: PromptBackend,
    /// Immutable account anchor for every automatic retry of this prompt.
    pub pinned_chatgpt_identity: Option<ChatGptRetryIdentity>,
    /// Inference profile identity used by the next finite attempt.
    pub profile_identity: Option<BackendProfileIdentity>,
    pub retry_state: PromptRetryState,
    /// Backend reached by any finite attempt in this logical turn.
    pub observed_backend: Option<ProviderBackend>,
    /// Global-cancel generation at logical prompt creation.
    pub cancel_generation: u64,
    /// Lets one manually released job pass a still-active shared cooldown once.
    pub manual_cooldown_bypass: bool,
    /// Shared cooldown generation this job was manually admitted to probe.
    pub cooldown_probe: Option<CooldownProbe>,
}

/// The backend of a turn is the one that this attempt reached, or else the last one reached before
/// it; it is never forgotten.
pub proof fn reached_backend_is_not_forgotten(
    reached: Option<ProviderBackend>,
    prior: Option<ProviderBackend>,
)
    ensures
        reached is Some ==> observed(reached, prior) == reached,
        reached is None ==> observed(reached, prior) == prior,
        observed(reached, prior) is None <==> reached is None && prior is None,
{
}

/// An automatic retry keeps its account: a prompt pinned to one goes on only with that account's
/// routes or with none at all, and a prompt that is not pinned goes on with any.
pub proof fn automatic_retry_keeps_its_account(
    pinned: ChatGptRetryIdentity,
    next: PromptBackend,
)
    ensures
        next matches PromptBackend::Responses(config) ==> (retry_identity_matches(
            Some(pinned),
            next,
        ) <==> config.identity.retry_anchor == pinned.anchor),
        next is Unavailable ==> retry_identity_matches(Some(pinned), next),
        next is ChatCompletions || next is PublicResponses ==> !retry_identity_matches(
            Some(pinned),
            next,
        ),
        retry_identity_matches(None, next),
{
}

/// The latest description of a route is the one that counts, and a route that was not described
/// has no identity of its own.
pub proof fn latest_description_counts(routes: Seq<CodexRoute>, i: int)
    requires
        0 <= i < routes.len(),
        forall|j: int|
            i < j < routes.len() ==> (#[trigger] routes[j]).input() != routes[i].input(),
    ensures
        described(routes, routes[i].input()) == Some(routes[i].identity),
    decreases routes.len(),
{
    if i < routes.len() - 1 {
        let init = routes.drop_last();
        assert(routes[routes.len() - 1].input() != routes[i].input());
        latest_description_counts(init, i);
    }
}

/// A route that was never described is not found.
pub proof fn unknown_route_is_not_described(routes: Seq<CodexRoute>, input: CodexInput)
    requires
        forall|j: int| 0 <= j < routes.len() ==> (#[trigger] routes[j]).input() != input,
    ensures
        described(routes, input) is None,
    decreases routes.len(),
{
    if routes.len() > 0 {
        assert(routes[routes.len() - 1].input() != input);
        unknown_route_is_not_described(routes.drop_last(), input);
    }
}

/// Everything that a route is reached with is part of its identity, and a change of any of it makes
/// another one: the endpoint and the key of a generic route, the token, the account and the
/// inference identity of a ChatGPT one. An unavailable backend has none.
pub proof fn identity_covers_the_route(backend: PromptBackend, other: PromptBackend)
    ensures
        backend_key(backend) is None <==> backend is Unavailable,
        backend matches PromptBackend::Responses(a) ==> (other matches PromptBackend::Responses(b)
            ==> (backend_key(backend) == backend_key(other) <==> a.access_token@ == b.access_token@
            && optional_text(a.account_id) == optional_text(b.account_id) && a.identity.inference
            == b.identity.inference)),
        backend matches PromptBackend::ChatCompletions { route: a, .. } ==> (
        other matches PromptBackend::ChatCompletions { route: b, .. } ==> (backend_key(backend)
            == backend_key(other) <==> a.base_url@ == b.base_url@ && a.api_key@ == b.api_key@)),
        backend matches PromptBackend::PublicResponses { route: a, .. } ==> (
        other matches PromptBackend::PublicResponses { route: b, .. } ==> (backend_key(backend)
            == backend_key(other) <==> a.base_url@ == b.base_url@ && a.api_key@ == b.api_key@)),
        backend is ChatCompletions && other is PublicResponses ==> backend_key(backend)
            != backend_key(other),
        backend is Responses && !(other is Responses) ==> backend_key(backend) != backend_key(
            other,
        ),
{
}

/// Looking a route up makes it known, once, and forgets none.
pub proof fn known_routes_only_grow(routes: Seq<RouteKey>, key: RouteKey, other: RouteKey)
    ensures
        known_routes(routes, Some(key)).contains(key),
        routes.contains(other) ==> known_routes(routes, Some(key)).contains(other),
        known_routes(routes, Some(key)).contains(other) ==> other == key || routes.contains(other),
        routes.contains(key) ==> known_routes(routes, Some(key)) == routes,
        known_routes(routes, None) == routes,
{
    let after = known_routes(routes, Some(key));
    if !routes.contains(key) {
        assert(after[after.len() - 1] == key);
        if routes.contains(other) {
            let i = routes.index_of(other);
            assert(after[i] == other);
        }
        if after.contains(other) && other != key {
            let i = after.index_of(other);
            assert(routes[i] == other);
        }
    }
}

} // verus!
