//! ChatGPT OAuth credentials: refresh, rotation checks, and rejection memory.

use std::collections::BTreeMap;

use vstd::prelude::*;

use crate::names::NameTable;
use crate::retry::lookup;
use crate::text::{blank, clone_optional_text, is_blank, optional_text, same_optional_text};

verus! {

/// OAuth credentials for the ChatGPT/Codex Responses provider.
pub struct OpenAiAuth {
    /// Access token used as bearer auth for Codex Responses calls.
    pub access_token: String,
    /// Refresh token used to renew [`Self::access_token`].
    pub refresh_token: String,
    /// Milliseconds since epoch when [`Self::access_token`] expires.
    pub expires_at_ms: u64,
    /// OpenAI account id sent as `chatgpt-account-id`, when available.
    pub account_id: Option<String>,
}

/// The content of some credentials.
pub struct AuthContent {
    pub access_token: Seq<char>,
    pub refresh_token: Seq<char>,
    pub expires_at_ms: u64,
    pub account_id: Option<Seq<char>>,
}

impl OpenAiAuth {
    /// The content of these credentials.
    pub open spec fn content(self) -> AuthContent {
        AuthContent {
            access_token: self.access_token@,
            refresh_token: self.refresh_token@,
            expires_at_ms: self.expires_at_ms,
            account_id: optional_text(self.account_id),
        }
    }

    /// Empty credentials.
    pub fn empty() -> (res: Self)
        ensures
            res.content() == (AuthContent {
                access_token: Seq::empty(),
                refresh_token: Seq::empty(),
                expires_at_ms: 0,
                account_id: None,
            }),
    {
        OpenAiAuth {
            access_token: String::new(),
            refresh_token: String::new(),
            expires_at_ms: 0,
            account_id: None,
        }
    }

    /// Compares two credentials by content.
    pub fn same(&self, other: &OpenAiAuth) -> (res: bool)
        ensures
            res == (self.content() == other.content()),
    {
        self.access_token == other.access_token && self.refresh_token == other.refresh_token
            && self.expires_at_ms == other.expires_at_ms && same_optional_text(
            &self.account_id,
            &other.account_id,
        )
    }

    /// Drops the access token, which makes the credentials unusable.
    pub fn clear_access_token(&mut self)
        ensures
            final(self).content() == without_access(old(self).content()),
            final(self).refresh_token == old(self).refresh_token,
            final(self).account_id == old(self).account_id,
    {
        self.access_token = String::new();
    }
}

impl Clone for OpenAiAuth {
    fn clone(&self) -> (res: Self)
        ensures
            res == *self,
    {
        OpenAiAuth {
            access_token: self.access_token.clone(),
            refresh_token: self.refresh_token.clone(),
            expires_at_ms: self.expires_at_ms,
            account_id: clone_optional_text(&self.account_id),
        }
    }
}

/// Credentials without their access token.
pub open spec fn without_access(auth: AuthContent) -> AuthContent {
    AuthContent { access_token: Seq::empty(), ..auth }
}

/// Reports whether a number is its type's default.
pub fn is_zero(value: &u64) -> (res: bool)
    ensures
        res == (*value == 0),
{
    *value == 0
}

/// Reports whether a flag is its type's default.
pub fn is_false(value: &bool) -> (res: bool)
    ensures
        res == !*value,
{
    !*value
}

/// Decoded claims of the access tokens at hand.
pub struct JwtClaims {
    /// Account id claim by access token.
    pub account_ids: NameTable<String>,
    /// Issue time claim, in Unix milliseconds, by access token.
    pub issued_at_ms: NameTable<u64>,
}

impl JwtClaims {
    /// The account claim of a token.
    pub open spec fn account_of(&self, access_token: Seq<char>) -> Option<Seq<char>> {
        if self.account_ids@.contains_key(access_token) {
            Some(self.account_ids@[access_token]@)
        } else {
            None
        }
    }

    /// The issue time claim of a token.
    pub open spec fn issued_of(&self, access_token: Seq<char>) -> Option<u64> {
        lookup(self.issued_at_ms@, access_token)
    }

    /// No claim known.
    pub fn new() -> (res: Self)
        ensures
            forall|token: Seq<char>| res.account_of(token) is None && res.issued_of(token) is None,
    {
        JwtClaims { account_ids: NameTable::new(), issued_at_ms: NameTable::new() }
    }

    /// The account claim of a token.
    pub fn jwt_openai_account_id(&self, access_token: &String) -> (res: Option<String>)
        ensures
            optional_text(res) == self.account_of(access_token@),
    {
        match self.account_ids.get(access_token.as_str()) {
            Some(account) => Some(account.clone()),
            None => None,
        }
    }

    /// The issue time claim of a token.
    pub fn jwt_issued_at_ms(&self, access_token: &String) -> (res: Option<u64>)
        ensures
            res == self.issued_of(access_token@),
    {
        match self.issued_at_ms.get(access_token.as_str()) {
            Some(issued) => Some(*issued),
            None => None,
        }
    }
}

/// Time before expiry at which a token is due for refresh, in milliseconds.
pub const REFRESH_MARGIN_MS: u64 = 300_000;

/// A token is due for refresh: past half of its known lifetime, or about to expire.
pub open spec fn refresh_due(issued_at_ms: Option<u64>, expires_at_ms: u64, now_ms: u64) -> bool {
    ||| match issued_at_ms {
        Some(issued) => {
            let lifetime = if issued <= expires_at_ms {
                expires_at_ms - issued
            } else {
                0
            };
            let half = issued + lifetime / 2;
            (if half > u64::MAX {
                u64::MAX as int
            } else {
                half
            }) <= now_ms
        },
        None => false,
    }
    ||| expires_at_ms <= now_ms + REFRESH_MARGIN_MS
}

/// Reports whether a token is due for refresh.
pub fn oauth_token_should_refresh(
    issued_at_ms: Option<u64>,
    expires_at_ms: u64,
    now_ms: u64,
) -> (res: bool)
    ensures
        res == refresh_due(issued_at_ms, expires_at_ms, now_ms),
{
    if let Some(issued) = issued_at_ms {
        let lifetime_ms: u64 = expires_at_ms.saturating_sub(issued);
        let refresh_at_ms: u64 = issued.saturating_add(lifetime_ms / 2);
        if refresh_at_ms <= now_ms {
            return true;
        }
    }
    expires_at_ms <= now_ms.saturating_add(REFRESH_MARGIN_MS)
}

/// Reports whether a token has expired.
pub fn oauth_token_is_expired(expires_at_ms: u64, now_ms: u64) -> (res: bool)
    ensures
        res == (expires_at_ms <= now_ms),
{
    expires_at_ms <= now_ms
}

/// Credentials that a request can be sent with.
pub open spec fn usable(auth: AuthContent, now_ms: u64) -> bool {
    !blank(auth.access_token) && now_ms < auth.expires_at_ms
}

/// Reports whether a request can be sent with some credentials.
pub fn is_usable(auth: &OpenAiAuth, now_ms: u64) -> (res: bool)
    ensures
        res == usable(auth.content(), now_ms),
{
    !(is_blank(auth.access_token.as_str()) || oauth_token_is_expired(auth.expires_at_ms, now_ms))
}

/// Typed OAuth failure with credential-safe text.
pub struct OAuthError {
    pub message: String,
    /// Whether the endpoint permanently rejects the refresh token.
    pub permanent_refresh_rejection: bool,
}

impl Clone for OAuthError {
    fn clone(&self) -> (res: Self)
        ensures
            res == *self,
    {
        OAuthError {
            message: self.message.clone(),
            permanent_refresh_rejection: self.permanent_refresh_rejection,
        }
    }
}

/// Credential storage failure during a refresh.
#[derive(Clone, Copy, Debug, PartialEq, Eq, Structural)]
pub enum StorageFailure {
    RpcUnavailable,
    ReadFailed,
    UnexpectedRead,
    InvalidRecord,
    EncodeFailed,
    UnexpectedSwap,
    SwapFailed,
    ReloadUnavailable,
    UnexpectedReload,
    InvalidReload,
}

impl StorageFailure {
    /// The text of this failure.
    pub open spec fn content(self) -> Seq<char> {
        match self {
            StorageFailure::RpcUnavailable => "Secret RPC is unavailable"@,
            StorageFailure::ReadFailed => "could not read OAuth credential through Secret RPC"@,
            StorageFailure::UnexpectedRead => "unexpected OAuth credential read result"@,
            StorageFailure::InvalidRecord => "invalid version-zero OAuth credential"@,
            StorageFailure::EncodeFailed => "could not encode refreshed OAuth credential"@,
            StorageFailure::UnexpectedSwap => "unexpected OAuth credential CAS result"@,
            StorageFailure::SwapFailed => "OAuth credential CAS failed"@,
            StorageFailure::ReloadUnavailable =>
                "OAuth credential CAS failed and reload was unavailable"@,
            StorageFailure::UnexpectedReload => "unexpected OAuth credential reload result"@,
            StorageFailure::InvalidReload => "invalid reloaded version-zero OAuth credential"@,
        }
    }

    fn text(self) -> (res: &'static str)
        ensures
            res@ == self.content(),
    {
        match self {
            StorageFailure::RpcUnavailable => "Secret RPC is unavailable",
            StorageFailure::ReadFailed => "could not read OAuth credential through Secret RPC",
            StorageFailure::UnexpectedRead => "unexpected OAuth credential read result",
            StorageFailure::InvalidRecord => "invalid version-zero OAuth credential",
            StorageFailure::EncodeFailed => "could not encode refreshed OAuth credential",
            StorageFailure::UnexpectedSwap => "unexpected OAuth credential CAS result",
            StorageFailure::SwapFailed => "OAuth credential CAS failed",
            StorageFailure::ReloadUnavailable =>
                "OAuth credential CAS failed and reload was unavailable",
            StorageFailure::UnexpectedReload => "unexpected OAuth credential reload result",
            StorageFailure::InvalidReload => "invalid reloaded version-zero OAuth credential",
        }
    }
}

/// Typed failure of a credential refresh.
#[allow(inconsistent_fields)]
pub enum RefreshCredentialsError {
    /// Credential storage or encoding failed.
    Storage(StorageFailure),
    /// Refreshed or concurrently published credentials crossed identity.
    IdentityMismatch,
    /// Forced recovery retained the provider-rejected access token.
    RejectedGeneration,
    /// The OAuth endpoint rejected the authoritative credential generation.
    OAuth { credentials: OpenAiAuth, error: OAuthError },
    /// The authoritative generation already had a permanent rejection.
    Suppressed { credentials: OpenAiAuth, error: OAuthError },
}

impl RefreshCredentialsError {
    /// The credential-safe text of this failure.
    pub open spec fn content(self) -> Seq<char> {
        match self {
            RefreshCredentialsError::Storage(failure) => "credential storage failed: "@
                + failure.content(),
            RefreshCredentialsError::IdentityMismatch => "ChatGPT identity changed"@,
            RefreshCredentialsError::RejectedGeneration =>
                "ChatGPT access token was not replaced"@,
            RefreshCredentialsError::OAuth { error, .. } => error.message@,
            RefreshCredentialsError::Suppressed { error, .. } =>
                "OAuth refresh suppressed for unchanged credentials: "@ + error.message@,
        }
    }

    /// Renders this failure without any credential.
    pub fn text(&self) -> (res: String)
        ensures
            res@ == self.content(),
    {
        match self {
            RefreshCredentialsError::Storage(failure) => {
                let mut res = "credential storage failed: ".to_owned();
                res.append(failure.text());
                res
            },
            RefreshCredentialsError::IdentityMismatch => "ChatGPT identity changed".to_owned(),
            RefreshCredentialsError::RejectedGeneration =>
                "ChatGPT access token was not replaced".to_owned(),
            RefreshCredentialsError::OAuth { error, .. } => error.message.clone(),
            RefreshCredentialsError::Suppressed { error, .. } => {
                let mut res = "OAuth refresh suppressed for unchanged credentials: ".to_owned();
                res.append(error.message.as_str());
                res
            },
        }
    }
}

/// A text that is not blank.
pub open spec fn nonblank(text: Option<Seq<char>>) -> Option<Seq<char>> {
    match text {
        Some(content) => if blank(content) {
            None
        } else {
            Some(content)
        },
        None => None,
    }
}

fn keep_nonblank(text: Option<String>) -> (res: Option<String>)
    ensures
        optional_text(res) == nonblank(optional_text(text)),
{
    match text {
        Some(content) => {
            if is_blank(content.as_str()) {
                None
            } else {
                Some(content)
            }
        },
        None => None,
    }
}

/// The account of some credentials: the stored id and the token's claim must agree. `Err` when
/// they do not.
pub open spec fn account_identity(auth: AuthContent, claims: &JwtClaims) -> Result<
    Option<Seq<char>>,
    (),
> {
    let stored = nonblank(auth.account_id);
    let claim = nonblank(claims.account_of(auth.access_token));
    if stored is Some && claim is Some && stored != claim {
        Err(())
    } else if stored is Some {
        Ok(stored)
    } else {
        Ok(claim)
    }
}

/// Finds the account of some credentials.
pub fn chatgpt_account_identity(auth: &OpenAiAuth, claims: &JwtClaims) -> (res: Result<
    Option<String>,
    RefreshCredentialsError,
>)
    ensures
        match (res, account_identity(auth.content(), claims)) {
            (Ok(account), Ok(expected)) => optional_text(account) == expected,
            (Err(RefreshCredentialsError::IdentityMismatch), Err(())) => true,
            _ => false,
        },
{
    let stored = keep_nonblank(clone_optional_text(&auth.account_id));
    let claim = keep_nonblank(claims.jwt_openai_account_id(&auth.access_token));
    if stored.is_some() && claim.is_some() && !same_optional_text(&stored, &claim) {
        return Err(RefreshCredentialsError::IdentityMismatch);
    }
    Ok(if stored.is_some() {
        stored
    } else {
        claim
    })
}

/// What a rotation check finds.
#[derive(Clone, Copy, Debug, PartialEq, Eq, Structural)]
pub enum RotationVerdict {
    Valid,
    IdentityMismatch,
    RejectedGeneration,
}

/// The verdict on replacing `current` by `authoritative`: the account must be known and the same,
/// and forced recovery must bring another access token.
pub open spec fn rotation_verdict(
    current: AuthContent,
    authoritative: AuthContent,
    force: bool,
    claims: &JwtClaims,
) -> RotationVerdict {
    match (account_identity(current, claims), account_identity(authoritative, claims)) {
        (Ok(Some(before)), Ok(Some(after))) => if before != after {
            RotationVerdict::IdentityMismatch
        } else if force && authoritative.access_token == current.access_token {
            RotationVerdict::RejectedGeneration
        } else {
            RotationVerdict::Valid
        },
        _ => RotationVerdict::IdentityMismatch,
    }
}

/// Checks an authoritative record before it replaces the current credentials.
pub fn validate_authoritative_rotation(
    current: &OpenAiAuth,
    authoritative: &OpenAiAuth,
    force: bool,
    claims: &JwtClaims,
) -> (res: Result<(), RefreshCredentialsError>)
    ensures
        res == match rotation_verdict(current.content(), authoritative.content(), force, claims) {
            RotationVerdict::Valid => Ok::<(), RefreshCredentialsError>(()),
            RotationVerdict::IdentityMismatch => Err(RefreshCredentialsError::IdentityMismatch),
            RotationVerdict::RejectedGeneration => Err(RefreshCredentialsError::RejectedGeneration),
        },
{
    let current_identity = match chatgpt_account_identity(current, claims) {
        Ok(identity) => identity,
        Err(_) => {
            return Err(RefreshCredentialsError::IdentityMismatch);
        },
    };
    let authoritative_identity = match chatgpt_account_identity(authoritative, claims) {
        Ok(identity) => identity,
        Err(_) => {
            return Err(RefreshCredentialsError::IdentityMismatch);
        },
    };
    if current_identity.is_none() || !same_optional_text(
        &authoritative_identity,
        &current_identity,
    ) {
        return Err(RefreshCredentialsError::IdentityMismatch);
    }
    if force && authoritative.access_token == current.access_token {
        return Err(RefreshCredentialsError::RejectedGeneration);
    }
    Ok(())
}

/// Token endpoint reply. An absent value keeps the current one.
pub struct OAuthTokenRefresh {
    pub access_token: Option<String>,
    pub refresh_token: Option<String>,
    pub expires_at_ms: Option<u64>,
    pub account_id: Option<String>,
}

/// The account that a token endpoint reply speaks for.
pub open spec fn refreshed_account(
    current: AuthContent,
    tokens: OAuthTokenRefresh,
    claims: &JwtClaims,
) -> Option<Seq<char>> {
    match tokens.access_token {
        Some(access) => if tokens.account_id is Some {
            optional_text(tokens.account_id)
        } else {
            claims.account_of(access@)
        },
        None => match account_identity(current, claims) {
            Ok(expected) => expected,
            Err(()) => None,
        },
    }
}

/// The credentials after a token endpoint reply; `Err` when the reply would cross accounts.
pub open spec fn merged_auth(
    current: AuthContent,
    tokens: OAuthTokenRefresh,
    claims: &JwtClaims,
) -> Result<AuthContent, ()> {
    match account_identity(current, claims) {
        Ok(Some(expected)) => if refreshed_account(current, tokens, claims) == Some(expected) {
            Ok(
                AuthContent {
                    access_token: match tokens.access_token {
                        Some(access) => access@,
                        None => current.access_token,
                    },
                    refresh_token: match tokens.refresh_token {
                        Some(refresh) => refresh@,
                        None => current.refresh_token,
                    },
                    expires_at_ms: match tokens.expires_at_ms {
                        Some(expires) => expires,
                        None => current.expires_at_ms,
                    },
                    account_id: Some(expected),
                },
            )
        } else {
            Err(())
        },
        _ => Err(()),
    }
}

/// Applies a token endpoint reply to the current credentials of the same account.
pub fn merge_chatgpt_refresh(
    current: &OpenAiAuth,
    tokens: OAuthTokenRefresh,
    claims: &JwtClaims,
) -> (res: Result<OpenAiAuth, RefreshCredentialsError>)
    ensures
        match (res, merged_auth(current.content(), tokens, claims)) {
            (Ok(auth), Ok(expected)) => auth.content() == expected,
            (Err(RefreshCredentialsError::IdentityMismatch), Err(())) => true,
            _ => false,
        },
        res matches Ok(stored) ==> {
            &&& match tokens.access_token {
                Some(access) => stored.access_token@ == access@,
                None => stored.access_token@ == current.access_token@,
            }
            &&& match tokens.refresh_token {
                Some(refresh) => stored.refresh_token@ == refresh@,
                None => stored.refresh_token@ == current.refresh_token@,
            }
            &&& match tokens.expires_at_ms {
                Some(expires) => stored.expires_at_ms == expires,
                None => stored.expires_at_ms == current.expires_at_ms,
            }
        },
{
    let expected_account = match chatgpt_account_identity(current, claims) {
        Ok(account) => account,
        Err(_) => {
            return Err(RefreshCredentialsError::IdentityMismatch);
        },
    };
    let replaced_access: bool = tokens.access_token.is_some();
    let access_token = match tokens.access_token {
        Some(access) => access,
        None => current.access_token.clone(),
    };
    let account_id = if replaced_access {
        if tokens.account_id.is_some() {
            tokens.account_id
        } else {
            claims.jwt_openai_account_id(&access_token)
        }
    } else {
        clone_optional_text(&expected_account)
    };
    if expected_account.is_none() || !same_optional_text(&account_id, &expected_account) {
        return Err(RefreshCredentialsError::IdentityMismatch);
    }
    Ok(
        OpenAiAuth {
            access_token,
            refresh_token: match tokens.refresh_token {
                Some(refresh) => refresh,
                None => current.refresh_token.clone(),
            },
            expires_at_ms: match tokens.expires_at_ms {
                Some(expires) => expires,
                None => current.expires_at_ms,
            },
            account_id,
        },
    )
}

/// A merged refresh keeps the account: it is known, and unchanged.
pub proof fn refresh_keeps_account(
    current: AuthContent,
    tokens: OAuthTokenRefresh,
    claims: &JwtClaims,
)
    requires
        merged_auth(current, tokens, claims) is Ok,
    ensures
        merged_auth(current, tokens, claims)->Ok_0.account_id is Some,
        account_identity(current, claims) == Ok::<Option<Seq<char>>, ()>(
            merged_auth(current, tokens, claims)->Ok_0.account_id,
        ),
{
}

/// What a refresh of the current credentials calls for.
#[derive(Clone, Copy, Debug, PartialEq, Eq, Structural)]
pub enum RefreshNeed {
    Required,
    NotRequired,
    /// Forced recovery without a refresh token.
    Rejected,
}

/// Whether credentials need a refresh; forced recovery without a refresh token is rejected.
pub open spec fn refresh_need(
    current: AuthContent,
    force: bool,
    claims: &JwtClaims,
    now_ms: u64,
) -> RefreshNeed {
    if blank(current.refresh_token) {
        if force {
            RefreshNeed::Rejected
        } else {
            RefreshNeed::NotRequired
        }
    } else if force || refresh_due(
        claims.issued_of(current.access_token),
        current.expires_at_ms,
        now_ms,
    ) {
        RefreshNeed::Required
    } else {
        RefreshNeed::NotRequired
    }
}

/// Reports whether credentials need a refresh.
pub fn refresh_required(
    current: &OpenAiAuth,
    force: bool,
    claims: &JwtClaims,
    now_ms: u64,
) -> (res: Result<bool, RefreshCredentialsError>)
    ensures
        res == match refresh_need(current.content(), force, claims, now_ms) {
            RefreshNeed::Required => Ok::<bool, RefreshCredentialsError>(true),
            RefreshNeed::NotRequired => Ok(false),
            RefreshNeed::Rejected => Err(RefreshCredentialsError::RejectedGeneration),
        },
{
    if is_blank(current.refresh_token.as_str()) {
        return if force {
            Err(RefreshCredentialsError::RejectedGeneration)
        } else {
            Ok(false)
        };
    }
    Ok(
        force || oauth_token_should_refresh(
            claims.jwt_issued_at_ms(&current.access_token),
            current.expires_at_ms,
            now_ms,
        ),
    )
}

/// Largest number of exact unauthorized generations remembered per provider.
pub const MAX_UNAUTHORIZED_GENERATIONS_PER_PROVIDER: usize = 64;

/// One permanently rejected credential generation and its typed error.
pub struct OAuthRefreshRejection {
    /// Exact credentials that the provider rejected.
    pub auth: OpenAiAuth,
    /// Startup-selected Responses mode of the profile.
    pub lite_compatibility: bool,
    pub error: OAuthError,
}

/// Exact generations plus fail-closed overflow state of one provider.
pub struct UnauthorizedGenerations {
    /// Whether each observed generation spent its forced recovery.
    generations: BTreeMap<u64, bool>,
    /// Whether capacity exhaustion disables unknown-generation recovery.
    saturated: bool,
}

/// The content of one provider's unauthorized generations.
pub struct Unauthorized {
    pub generations: Map<u64, bool>,
    pub saturated: bool,
}

impl UnauthorizedGenerations {
    /// The content of these generations.
    pub closed spec fn view(&self) -> Unauthorized {
        Unauthorized { generations: self.generations@, saturated: self.saturated }
    }
}

/// No generation observed.
pub open spec fn no_unauthorized() -> Unauthorized {
    Unauthorized { generations: Map::empty(), saturated: false }
}

/// The state after one canonical unauthorized answer for `identity`.
pub open spec fn recorded(state: Unauthorized, identity: u64) -> Unauthorized {
    if state.generations.contains_key(identity) || state.saturated {
        state
    } else if MAX_UNAUTHORIZED_GENERATIONS_PER_PROVIDER <= state.generations.dom().len() {
        Unauthorized { saturated: true, ..state }
    } else {
        Unauthorized { generations: state.generations.insert(identity, false), ..state }
    }
}

/// `identity` holds unspent recovery authority.
pub open spec fn recoverable(state: Unauthorized, identity: u64) -> bool {
    state.generations.contains_key(identity) && !state.generations[identity]
}

/// `identity` may not recover: it spent its recovery, or the provider is saturated.
pub open spec fn exhausted(state: Unauthorized, identity: u64) -> bool {
    state.saturated || (state.generations.contains_key(identity) && state.generations[identity])
}

/// The state after taking recovery authority for `identity`.
pub open spec fn spent(state: Unauthorized, identity: u64) -> Unauthorized {
    if recoverable(state, identity) {
        Unauthorized { generations: state.generations.insert(identity, true), ..state }
    } else {
        state
    }
}

/// Remembered generations never exceed the capacity.
pub open spec fn within_capacity(state: Unauthorized) -> bool {
    &&& state.generations.dom().finite()
    &&& state.generations.dom().len() <= MAX_UNAUTHORIZED_GENERATIONS_PER_PROVIDER
}

/// Recovery is spent at most once per exact generation, and is then exhausted for good, whatever
/// is recorded later; the memory stays within its capacity.
pub proof fn recovery_is_spent_once(state: Unauthorized, identity: u64, other: u64)
    requires
        within_capacity(state),
    ensures
        !recoverable(spent(state, identity), identity),
        recoverable(state, identity) ==> exhausted(spent(state, identity), identity),
        recoverable(state, identity) ==> exhausted(
            recorded(spent(state, identity), other),
            identity,
        ),
        within_capacity(spent(state, identity)),
        within_capacity(recorded(state, other)),
{
}

/// A saturated provider fails closed: every generation is exhausted, and stays so.
pub proof fn saturation_fails_closed(state: Unauthorized, identity: u64, other: u64)
    requires
        state.saturated,
    ensures
        exhausted(state, identity),
        recorded(state, other) == state,
        exhausted(spent(state, other), identity),
{
}

/// Process-local suppression of permanently rejected OAuth generations.
pub struct OAuthRefreshRejectionCache {
    providers: NameTable<OAuthRefreshRejection>,
    unauthorized: NameTable<UnauthorizedGenerations>,
}

impl OAuthRefreshRejectionCache {
    /// Last permanently rejected generation of each provider.
    pub closed spec fn rejections(&self) -> Map<Seq<char>, OAuthRefreshRejection> {
        self.providers@
    }

    /// Unauthorized generations of each provider.
    pub closed spec fn unauthorized_map(&self) -> Map<Seq<char>, Unauthorized> {
        self.unauthorized@.map_values(|state: UnauthorizedGenerations| state@)
    }

    /// Unauthorized generations of `provider`.
    pub open spec fn unauthorized_of(&self, provider: Seq<char>) -> Unauthorized {
        if self.unauthorized_map().contains_key(provider) {
            self.unauthorized_map()[provider]
        } else {
            no_unauthorized()
        }
    }

    /// Nothing rejected.
    pub fn new() -> (res: Self)
        ensures
            res.rejections() == Map::<Seq<char>, OAuthRefreshRejection>::empty(),
            res.unauthorized_map() == Map::<Seq<char>, Unauthorized>::empty(),
    {
        let res = OAuthRefreshRejectionCache {
            providers: NameTable::new(),
            unauthorized: NameTable::new(),
        };
        assert(res.unauthorized_map() =~= Map::<Seq<char>, Unauthorized>::empty());
        res
    }

    /// Returns whether this provider has a remembered rejected generation.
    pub fn contains(&self, provider: &String) -> (res: bool)
        ensures
            res == self.rejections().contains_key(provider@),
    {
        self.providers.contains_key(provider.as_str())
    }

    /// Records one canonical unauthorized answer for an exact resolved identity.
    pub fn record_unauthorized(&mut self, provider: String, identity: u64)
        ensures
            final(self).rejections() == old(self).rejections(),
            final(self).unauthorized_map() == old(self).unauthorized_map().insert(
                provider@,
                recorded(old(self).unauthorized_of(provider@), identity),
            ),
    {
        broadcast use vstd::std_specs::btree::group_btree_axioms;
        broadcast use vstd::laws_cmp::group_laws_cmp;

        let mut state = match self.unauthorized.remove(provider.as_str()) {
            Some(state) => state,
            None => UnauthorizedGenerations { generations: BTreeMap::new(), saturated: false },
        };
        let ghost before = state@;
        assert(before == old(self).unauthorized_of(provider@));
        if !state.generations.contains_key(&identity) && !state.saturated {
            if MAX_UNAUTHORIZED_GENERATIONS_PER_PROVIDER <= state.generations.len() {
                state.saturated = true;
            } else {
                state.generations.insert(identity, false);
            }
        }
        assert(state@ == recorded(before, identity));
        self.unauthorized.insert(provider, state);
        assert(self.unauthorized_map() =~= old(self).unauthorized_map().insert(
            provider@,
            recorded(before, identity),
        ));
    }

    /// Consumes forced-refresh authority only for the exact rejected identity.
    pub fn take_unauthorized(&mut self, provider: &String, identity: u64) -> (res: bool)
        ensures
            res == recoverable(old(self).unauthorized_of(provider@), identity),
            final(self).rejections() == old(self).rejections(),
            final(self).unauthorized_map() == if res {
                old(self).unauthorized_map().insert(
                    provider@,
                    spent(old(self).unauthorized_of(provider@), identity),
                )
            } else {
                old(self).unauthorized_map()
            },
    {
        broadcast use vstd::std_specs::btree::group_btree_axioms;
        broadcast use vstd::laws_cmp::group_laws_cmp;

        let spendable: bool = match self.unauthorized.get(provider.as_str()) {
            Some(state) => match state.generations.get(&identity) {
                Some(consumed) => !*consumed,
                None => false,
            },
            None => false,
        };
        if !spendable {
            return false;
        }
        if let Some(mut state) = self.unauthorized.remove(provider.as_str()) {
            let ghost before = state@;
            state.generations.insert(identity, true);
            assert(state@ == spent(before, identity));
            self.unauthorized.insert(provider.clone(), state);
        }
        assert(self.unauthorized_map() =~= old(self).unauthorized_map().insert(
            provider@,
            spent(old(self).unauthorized_of(provider@), identity),
        ));
        true
    }

    /// Returns whether this exact rejected generation already spent recovery.
    pub fn unauthorized_exhausted(&self, provider: &String, identity: u64) -> (res: bool)
        ensures
            res == exhausted(self.unauthorized_of(provider@), identity),
    {
        broadcast use vstd::std_specs::btree::group_btree_axioms;
        broadcast use vstd::laws_cmp::group_laws_cmp;

        match self.unauthorized.get(provider.as_str()) {
            Some(state) => state.saturated || match state.generations.get(&identity) {
                Some(consumed) => *consumed,
                None => false,
            },
            None => false,
        }
    }

    /// The remembered rejection of exactly these credentials and this mode.
    pub open spec fn rejection_of(
        &self,
        provider: Seq<char>,
        auth: AuthContent,
        lite_compatibility: bool,
    ) -> Option<OAuthError> {
        if self.rejections().contains_key(provider) && self.rejections()[provider].auth.content()
            == auth && self.rejections()[provider].lite_compatibility == lite_compatibility {
            Some(self.rejections()[provider].error)
        } else {
            None
        }
    }

    /// Returns the typed rejection of an exact unchanged generation, and forgets the rejection of
    /// any other.
    pub fn rejection(
        &mut self,
        provider: &String,
        auth: &OpenAiAuth,
        lite_compatibility: bool,
    ) -> (res: Option<OAuthError>)
        ensures
            res == old(self).rejection_of(provider@, auth.content(), lite_compatibility),
            final(self).unauthorized_map() == old(self).unauthorized_map(),
            final(self).rejections() == if res is Some {
                old(self).rejections()
            } else {
                old(self).rejections().remove(provider@)
            },
    {
        let unchanged: bool = match self.providers.get(provider.as_str()) {
            Some(rejection) => rejection.auth.same(auth) && rejection.lite_compatibility
                == lite_compatibility,
            None => false,
        };
        if !unchanged {
            let _ = self.providers.remove(provider.as_str());
            return None;
        }
        match self.providers.get(provider.as_str()) {
            Some(rejection) => Some(rejection.error.clone()),
            None => None,
        }
    }

    /// Records an error only when it permanently rejects one authoritative generation.
    pub fn record_if_permanent(
        &mut self,
        provider: &String,
        auth: &OpenAiAuth,
        lite_compatibility: bool,
        error: &OAuthError,
    )
        ensures
            final(self).unauthorized_map() == old(self).unauthorized_map(),
            final(self).rejections() == if error.permanent_refresh_rejection {
                old(self).rejections().insert(
                    provider@,
                    (OAuthRefreshRejection { auth: *auth, lite_compatibility, error: *error }),
                )
            } else {
                old(self).rejections()
            },
    {
        if !error.permanent_refresh_rejection {
            return ;
        }
        self.providers.insert(
            provider.clone(),
            OAuthRefreshRejection { auth: auth.clone(), lite_compatibility, error: error.clone() },
        );
    }

    /// Clears any rejection of a removed or non-ChatGPT profile.
    pub fn clear(&mut self, provider: &String)
        ensures
            final(self).unauthorized_map() == old(self).unauthorized_map(),
            final(self).rejections() == old(self).rejections().remove(provider@),
    {
        let _ = self.providers.remove(provider.as_str());
    }

    /// Clears refresh-endpoint rejection state after a successful rotation; spent recovery stays
    /// spent.
    pub fn clear_refresh_rejection(&mut self, provider: &String)
        ensures
            final(self).unauthorized_map() == old(self).unauthorized_map(),
            final(self).rejections() == old(self).rejections().remove(provider@),
    {
        let _ = self.providers.remove(provider.as_str());
    }
}

/// A refresh stores what the reply holds: each of the access token, the refresh token and the
/// expiry is the reply's where the reply has one, and the current one where it has none. The
/// account is the one that the current credentials name.
pub proof fn refresh_takes_what_the_reply_holds(
    current: AuthContent,
    tokens: OAuthTokenRefresh,
    claims: &JwtClaims,
    stored: AuthContent,
)
    requires
        merged_auth(current, tokens, claims) == Ok::<AuthContent, ()>(stored),
    ensures
        tokens.access_token matches Some(access) ==> stored.access_token == access@,
        tokens.access_token is None ==> stored.access_token == current.access_token,
        tokens.refresh_token matches Some(refresh) ==> stored.refresh_token == refresh@,
        tokens.refresh_token is None ==> stored.refresh_token == current.refresh_token,
        tokens.expires_at_ms matches Some(expires) ==> stored.expires_at_ms == expires,
        tokens.expires_at_ms is None ==> stored.expires_at_ms == current.expires_at_ms,
        stored.account_id matches Some(account) && !blank(account),
        current.account_id matches Some(account) ==> blank(account) || stored.account_id == Some(
            account,
        ),
{
}

/// A reply is accepted exactly when it stays with the account: one without an access token always
/// does, and one with an access token does when it names the account, or names none and its token
/// claims it.
pub proof fn refresh_accepts_only_its_account(
    current: AuthContent,
    tokens: OAuthTokenRefresh,
    claims: &JwtClaims,
    account: Seq<char>,
)
    requires
        !blank(account),
        current.account_id == Some(account),
        match claims.account_of(current.access_token) {
            Some(claim) => blank(claim) || claim == account,
            None => true,
        },
    ensures
        tokens.access_token is None ==> merged_auth(current, tokens, claims) is Ok,
        tokens.access_token matches Some(access) ==> match tokens.account_id {
            Some(named) => merged_auth(current, tokens, claims) is Ok <==> named@ == account,
            None => merged_auth(current, tokens, claims) is Ok <==> claims.account_of(access@)
                == Some(account),
        },
{
}

/// The account of some credentials is their stored id or, without one, their token's claim; blank
/// values count as absent, and a stored id that contradicts the claim is an error.
pub proof fn account_is_stored_or_claimed(
    auth: AuthContent,
    claims: &JwtClaims,
    id: Seq<char>,
    claim: Seq<char>,
)
    ensures
        auth.account_id == Some(id) && claims.account_of(auth.access_token) == Some(claim) && !blank(
            id,
        ) && !blank(claim) ==> (if id == claim {
            account_identity(auth, claims) == Ok::<Option<Seq<char>>, ()>(Some(id))
        } else {
            account_identity(auth, claims) is Err
        }),
        auth.account_id == Some(id) && !blank(id) && (claims.account_of(auth.access_token) is None
            || claims.account_of(auth.access_token) == Some(claim) && blank(claim))
            ==> account_identity(auth, claims) == Ok::<Option<Seq<char>>, ()>(Some(id)),
        (auth.account_id is None || auth.account_id == Some(id) && blank(id))
            && claims.account_of(auth.access_token) == Some(claim) && !blank(claim)
            ==> account_identity(auth, claims) == Ok::<Option<Seq<char>>, ()>(Some(claim)),
        (auth.account_id is None || auth.account_id == Some(id) && blank(id)) && (
        claims.account_of(auth.access_token) is None || claims.account_of(auth.access_token)
            == Some(claim) && blank(claim)) ==> account_identity(auth, claims) == Ok::<
            Option<Seq<char>>,
            (),
        >(None),
{
}

/// A rotation never crosses accounts: it is valid only between credentials of one known account,
/// always is when it brings another access token there, and forced recovery with the rejected
/// token is refused.
pub proof fn rotation_never_crosses_accounts(
    current: AuthContent,
    authoritative: AuthContent,
    force: bool,
    claims: &JwtClaims,
)
    ensures
        rotation_verdict(current, authoritative, force, claims) == RotationVerdict::Valid ==> {
            &&& account_identity(current, claims) == account_identity(authoritative, claims)
            &&& account_identity(current, claims) matches Ok(Some(account))
            &&& !blank(account)
        },
        (account_identity(current, claims) matches Ok(Some(account))) && account_identity(
            current,
            claims,
        ) == account_identity(authoritative, claims) ==> (
        if authoritative.access_token != current.access_token || !force {
            rotation_verdict(current, authoritative, force, claims) == RotationVerdict::Valid
        } else {
            rotation_verdict(current, authoritative, force, claims)
                == RotationVerdict::RejectedGeneration
        }),
        !(account_identity(current, claims) matches Ok(Some(account))) || account_identity(
            current,
            claims,
        ) != account_identity(authoritative, claims) ==> rotation_verdict(
            current,
            authoritative,
            force,
            claims,
        ) == RotationVerdict::IdentityMismatch,
{
}

/// A token is refreshed from five minutes before it expires, and already from the middle of its
/// lifetime where its issue time is known; before both it is not, and once due it stays due.
pub proof fn refresh_comes_before_expiry(
    issued_at_ms: Option<u64>,
    expires_at_ms: u64,
    now_ms: u64,
    later_ms: u64,
)
    requires
        now_ms <= later_ms,
    ensures
        expires_at_ms <= now_ms + 300_000 ==> refresh_due(issued_at_ms, expires_at_ms, now_ms),
        issued_at_ms matches Some(issued) ==> (issued <= expires_at_ms && issued + expires_at_ms
            <= 2 * now_ms ==> refresh_due(issued_at_ms, expires_at_ms, now_ms)),
        issued_at_ms is None && now_ms + 300_000 < expires_at_ms ==> !refresh_due(
            issued_at_ms,
            expires_at_ms,
            now_ms,
        ),
        issued_at_ms matches Some(issued) ==> (issued <= expires_at_ms && now_ms + 300_000
            < expires_at_ms && 2 * now_ms + 1 < issued + expires_at_ms ==> !refresh_due(
            issued_at_ms,
            expires_at_ms,
            now_ms,
        )),
        refresh_due(issued_at_ms, expires_at_ms, now_ms) ==> refresh_due(
            issued_at_ms,
            expires_at_ms,
            later_ms,
        ),
{
}

/// Credentials can be used exactly while they have a token that has not expired, so never again
/// once they could not be for their age.
pub proof fn expired_credentials_stay_unusable(auth: AuthContent, now_ms: u64, later_ms: u64)
    requires
        now_ms <= later_ms,
    ensures
        auth.expires_at_ms <= now_ms ==> !usable(auth, now_ms) && !usable(auth, later_ms),
        blank(auth.access_token) ==> !usable(auth, now_ms),
        now_ms < auth.expires_at_ms && !blank(auth.access_token) ==> usable(auth, now_ms),
        !usable(without_access(auth), now_ms),
        without_access(auth).refresh_token == auth.refresh_token,
        without_access(auth).account_id == auth.account_id,
        without_access(auth).expires_at_ms == auth.expires_at_ms,
        without_access(auth).access_token.len() == 0,
{
}

/// Nothing is refreshed without a refresh token, and forced recovery then is an error; with one,
/// forced recovery always refreshes and anything else does exactly when the token is due.
pub proof fn refresh_needs_a_refresh_token(
    current: AuthContent,
    force: bool,
    claims: &JwtClaims,
    now_ms: u64,
)
    ensures
        blank(current.refresh_token) && force ==> refresh_need(current, force, claims, now_ms)
            == RefreshNeed::Rejected,
        blank(current.refresh_token) && !force ==> refresh_need(current, force, claims, now_ms)
            == RefreshNeed::NotRequired,
        !blank(current.refresh_token) && force ==> refresh_need(current, force, claims, now_ms)
            == RefreshNeed::Required,
        !blank(current.refresh_token) && current.expires_at_ms <= now_ms + 300_000
            ==> refresh_need(current, force, claims, now_ms) == RefreshNeed::Required,
        !blank(current.refresh_token) && !force && claims.issued_of(current.access_token) is None
            && now_ms + 300_000 < current.expires_at_ms ==> refresh_need(
            current,
            force,
            claims,
            now_ms,
        ) == RefreshNeed::NotRequired,
        !blank(current.refresh_token) ==> (claims.issued_of(current.access_token) matches Some(
            issued,
        ) ==> (issued <= current.expires_at_ms && issued + current.expires_at_ms <= 2 * now_ms
            ==> refresh_need(current, force, claims, now_ms) == RefreshNeed::Required)),
{
}

/// A rejected generation gains one recovery while fewer than 64 are remembered; the next unknown
/// one closes the provider, a known one changes nothing, and no other generation is touched.
pub proof fn unauthorized_generation_gains_one_recovery(
    state: Unauthorized,
    identity: u64,
    other: u64,
)
    requires
        !state.saturated,
    ensures
        !state.generations.contains_key(identity) && state.generations.dom().len() < 64 ==> {
            &&& recoverable(recorded(state, identity), identity)
            &&& !exhausted(recorded(state, identity), identity)
            &&& !recorded(state, identity).saturated
        },
        !state.generations.contains_key(identity) && state.generations.dom().len() >= 64 ==> {
            &&& recorded(state, identity).saturated
            &&& exhausted(recorded(state, identity), identity)
            &&& !recoverable(recorded(state, identity), identity)
        },
        state.generations.contains_key(identity) ==> recorded(state, identity) == state,
        other != identity ==> recoverable(recorded(state, identity), other) == recoverable(
            state,
            other,
        ),
        other != identity ==> recoverable(spent(state, identity), other) == recoverable(
            state,
            other,
        ),
        !recoverable(no_unauthorized(), identity) && !exhausted(no_unauthorized(), identity),
{
}

/// A permanent rejection is remembered for exactly its credentials and mode, and for nothing else.
pub proof fn rejection_is_exact(
    cache: &OAuthRefreshRejectionCache,
    provider: Seq<char>,
    remembered: OAuthRefreshRejection,
    auth: AuthContent,
    lite_compatibility: bool,
)
    requires
        cache.rejections().contains_key(provider),
        cache.rejections()[provider] == remembered,
    ensures
        remembered.auth.content() == auth && remembered.lite_compatibility == lite_compatibility
            ==> cache.rejection_of(provider, auth, lite_compatibility) == Some(remembered.error),
        remembered.auth.access_token@ != auth.access_token || remembered.auth.refresh_token@
            != auth.refresh_token || remembered.auth.expires_at_ms != auth.expires_at_ms
            || remembered.lite_compatibility != lite_compatibility ==> cache.rejection_of(
            provider,
            auth,
            lite_compatibility,
        ) is None,
{
}

} // verus!
