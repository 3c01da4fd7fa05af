//! Credential generations, the refresh protocol, and ChatGPT route resolution.
//!
//! Each protocol state is a type: the host performs what the state asks for and hands the reply
//! to the state's method.

use vstd::prelude::*;

use crate::oauth::{
    account_identity, exhausted, is_usable, merge_chatgpt_refresh, merged_auth,
    oauth_token_should_refresh, recoverable, refresh_due, refresh_need, refresh_required,
    rotation_verdict, spent, usable, validate_authoritative_rotation, without_access, AuthContent,
    JwtClaims, OAuthError, OAuthRefreshRejection, OAuthRefreshRejectionCache, OAuthTokenRefresh,
    OpenAiAuth, RefreshCredentialsError, RefreshNeed, RotationVerdict, StorageFailure, Unauthorized,
};
use crate::prompt::{
    known_routes, names_route, BackendIdentities, BackendProfileIdentity, CodexInput, CodexRoutes,
    ModelId, ResolvedConfig, RouteKey,
};
use crate::text::{blank, clone_optional_text, is_blank, optional_text};

verus! {

/// The BLAKE3 digest of some bytes.
pub uninterp spec fn blake3_digest(contents: Seq<u8>) -> Seq<u8>;

/// Calls `blake3::hash` and hands its digest over as bytes. The claim is that the digest is a
/// function of the contents alone and is 32 bytes long; which function it is stays unstated.
#[verifier::external_body]
fn content_digest(contents: &[u8]) -> (res: Vec<u8>)
    ensures
        res@ == blake3_digest(contents@),
        res@.len() == 32,
{
    blake3::hash(contents).as_bytes().to_vec()
}

/// The lowercase hexadecimal digit of `n`.
pub open spec fn hex_digit(n: u8) -> char {
    if n < 10 {
        (48 + n) as char
    } else {
        (87 + n) as char
    }
}

/// The lowercase hexadecimal text of some bytes.
pub open spec fn hex(bytes: Seq<u8>) -> Seq<char>
    decreases bytes.len(),
{
    if bytes.len() == 0 {
        Seq::empty()
    } else {
        hex(bytes.drop_last()).push(hex_digit(bytes.last() / 16)).push(
            hex_digit(bytes.last() % 16),
        )
    }
}

fn hex_digit_text(n: u8) -> (res: &'static str)
    requires
        n < 16,
    ensures
        res@ == seq![hex_digit(n)],
{
    proof {
        reveal_strlit("0");
        reveal_strlit("1");
        reveal_strlit("2");
        reveal_strlit("3");
        reveal_strlit("4");
        reveal_strlit("5");
        reveal_strlit("6");
        reveal_strlit("7");
        reveal_strlit("8");
        reveal_strlit("9");
        reveal_strlit("a");
        reveal_strlit("b");
        reveal_strlit("c");
        reveal_strlit("d");
        reveal_strlit("e");
        reveal_strlit("f");
    }
    let res = match n {
        0 => "0",
        1 => "1",
        2 => "2",
        3 => "3",
        4 => "4",
        5 => "5",
        6 => "6",
        7 => "7",
        8 => "8",
        9 => "9",
        10 => "a",
        11 => "b",
        12 => "c",
        13 => "d",
        14 => "e",
        _ => "f",
    };
    assert(res@ =~= seq![hex_digit(n)]);
    res
}

/// Renders bytes in lowercase hexadecimal.
pub fn hex_text(bytes: &[u8]) -> (res: String)
    ensures
        res@ == hex(bytes@),
{
    let mut res = String::new();
    let mut i: usize = 0;
    assert(bytes@.take(0) =~= Seq::<u8>::empty());
    while i < bytes.len()
        invariant
            i <= bytes@.len(),
            res@ == hex(bytes@.take(i as int)),
        decreases bytes@.len() - i,
    {
        res.append(hex_digit_text(bytes[i] / 16));
        res.append(hex_digit_text(bytes[i] % 16));
        proof {
            let next = bytes@.take(i + 1);
            assert(next.drop_last() =~= bytes@.take(i as int));
            assert(res@ =~= hex(next));
        }
        i = i + 1;
    }
    assert(bytes@.take(i as int) =~= bytes@);
    res
}

/// The opaque generation of stored bytes: their digest in hexadecimal.
pub open spec fn generation_of(contents: Seq<u8>) -> Seq<char> {
    hex(blake3_digest(contents))
}

/// Names the opaque generation of stored bytes.
pub fn content_generation(contents: &[u8]) -> (res: String)
    ensures
        res@ == generation_of(contents@),
{
    hex_text(content_digest(contents).as_slice())
}

/// Secret-free evidence used to detect a changed credential generation.
pub enum CredentialObservation {
    /// Storage returned no credential bytes for the profile.
    Unavailable,
    /// Storage returned this content generation.
    Contents(String),
}

impl CredentialObservation {
    /// The observed generation.
    pub open spec fn generation(self) -> Option<Seq<char>> {
        match self {
            CredentialObservation::Unavailable => None,
            CredentialObservation::Contents(generation) => Some(generation@),
        }
    }

    /// Compares two observations by content.
    pub fn same(&self, other: &CredentialObservation) -> (res: bool)
        ensures
            res == (self.generation() == other.generation()),
    {
        match (self, other) {
            (CredentialObservation::Contents(a), CredentialObservation::Contents(b)) => *a == *b,
            (CredentialObservation::Unavailable, CredentialObservation::Unavailable) => true,
            _ => false,
        }
    }
}

impl Clone for CredentialObservation {
    fn clone(&self) -> (res: Self)
        ensures
            res == *self,
    {
        match self {
            CredentialObservation::Unavailable => CredentialObservation::Unavailable,
            CredentialObservation::Contents(generation) => CredentialObservation::Contents(
                generation.clone(),
            ),
        }
    }
}

/// Reply to a credential read.
pub enum SecretRead {
    /// The read failed.
    Unavailable,
    /// Storage answered with something other than file contents.
    Unexpected,
    /// File contents, with the OAuth record they decode to.
    Contents { contents: Vec<u8>, record: Option<OpenAiAuth> },
}

/// Reply to publishing a refreshed credential.
#[derive(Clone, Copy, Debug, PartialEq, Eq, Structural)]
pub enum SwapReply {
    /// The replacement could not be encoded.
    EncodeFailed,
    /// The replacement was published.
    Swapped,
    /// Storage answered with something else.
    Unexpected,
    /// Another refresher replaced the credential since the read.
    GenerationMismatch,
    /// The request failed otherwise.
    Unavailable,
}

/// One credential refresh that waits for the current record.
pub struct CredentialRefresh {
    pub provider: String,
    /// Startup-selected Responses mode of the profile.
    pub lite_compatibility: bool,
    /// Whether the provider rejected the current access token.
    pub force: bool,
}

/// A refresh that waits for the token endpoint.
pub struct RefreshPending {
    pub refresh: CredentialRefresh,
    /// The record that was read. Its refresh token is the one to use.
    pub current: OpenAiAuth,
    /// The generation that was read.
    pub generation: String,
}

/// A refresh that waits for its compare-and-swap.
pub struct SwapPending {
    pub refresh: CredentialRefresh,
    pub current: OpenAiAuth,
    /// The generation that the swap expects.
    pub generation: String,
    /// The record to publish.
    pub refreshed: OpenAiAuth,
}

/// A refresh that lost its swap and waits for the winner's record.
pub struct ReloadPending {
    pub refresh: CredentialRefresh,
    pub current: OpenAiAuth,
}

/// A finished refresh, or the state to continue with.
pub enum RefreshProgress<T> {
    Done(Result<OpenAiAuth, RefreshCredentialsError>),
    Continue(T),
}

impl CredentialRefresh {
    /// Continues with the record that was read. A remembered permanent rejection suppresses the
    /// refresh, and a record that needs none is adopted as it is.
    pub fn read(
        self,
        read: SecretRead,
        rejections: &mut OAuthRefreshRejectionCache,
        claims: &JwtClaims,
        now_ms: u64,
    ) -> (res: RefreshProgress<RefreshPending>)
        ensures
            final(rejections).unauthorized_map() == old(rejections).unauthorized_map(),
            match read {
                SecretRead::Unavailable => {
                    &&& failed(res, StorageFailure::ReadFailed)
                    &&& final(rejections).rejections() == old(rejections).rejections()
                },
                SecretRead::Unexpected => {
                    &&& failed(res, StorageFailure::UnexpectedRead)
                    &&& final(rejections).rejections() == old(rejections).rejections()
                },
                SecretRead::Contents { contents, record } => match record {
                    None => {
                        &&& failed(res, StorageFailure::InvalidRecord)
                        &&& final(rejections).rejections() == old(rejections).rejections()
                    },
                    Some(current) => {
                        let rejection = old(rejections).rejection_of(
                            self.provider@,
                            current.content(),
                            self.lite_compatibility,
                        );
                        &&& final(rejections).rejections() == if rejection is Some {
                            old(rejections).rejections()
                        } else {
                            old(rejections).rejections().remove(self.provider@)
                        }
                        &&& match rejection {
                            Some(error) => res == RefreshProgress::<RefreshPending>::Done(
                                Err(
                                    RefreshCredentialsError::Suppressed {
                                        credentials: current,
                                        error,
                                    },
                                ),
                            ),
                            None => match refresh_need(
                                current.content(),
                                self.force,
                                claims,
                                now_ms,
                            ) {
                                RefreshNeed::Rejected => res == RefreshProgress::<
                                    RefreshPending,
                                >::Done(Err(RefreshCredentialsError::RejectedGeneration)),
                                RefreshNeed::NotRequired => res == RefreshProgress::<
                                    RefreshPending,
                                >::Done(Ok(current)),
                                RefreshNeed::Required => match res {
                                    RefreshProgress::Continue(pending) => {
                                        &&& pending.refresh == self
                                        &&& pending.current == current
                                        &&& pending.generation@ == generation_of(contents@)
                                    },
                                    _ => false,
                                },
                            },
                        }
                    },
                },
            },
    {
        let (contents, current) = match read {
            SecretRead::Unavailable => {
                return RefreshProgress::Done(
                    Err(RefreshCredentialsError::Storage(StorageFailure::ReadFailed)),
                );
            },
            SecretRead::Unexpected => {
                return RefreshProgress::Done(
                    Err(RefreshCredentialsError::Storage(StorageFailure::UnexpectedRead)),
                );
            },
            SecretRead::Contents { contents, record } => match record {
                Some(current) => (contents, current),
                None => {
                    return RefreshProgress::Done(
                        Err(RefreshCredentialsError::Storage(StorageFailure::InvalidRecord)),
                    );
                },
            },
        };
        if let Some(error) = rejections.rejection(
            &self.provider,
            &current,
            self.lite_compatibility,
        ) {
            return RefreshProgress::Done(
                Err(RefreshCredentialsError::Suppressed { credentials: current, error }),
            );
        }
        match refresh_required(&current, self.force, claims, now_ms) {
            Err(_) => RefreshProgress::Done(Err(RefreshCredentialsError::RejectedGeneration)),
            Ok(false) => {
                rejections.clear_refresh_rejection(&self.provider);
                assert(rejections.rejections() =~= old(rejections).rejections().remove(
                    self.provider@,
                ));
                RefreshProgress::Done(Ok(current))
            },
            Ok(true) => {
                let generation = content_generation(contents.as_slice());
                RefreshProgress::Continue(RefreshPending { refresh: self, current, generation })
            },
        }
    }
}

/// `progress` ends with a storage failure.
pub open spec fn failed<T>(progress: RefreshProgress<T>, failure: StorageFailure) -> bool {
    progress == RefreshProgress::<T>::Done(Err(RefreshCredentialsError::Storage(failure)))
}

impl RefreshPending {
    /// Continues with the token endpoint's answer. A permanent rejection is remembered.
    pub fn tokens(
        self,
        result: Result<OAuthTokenRefresh, OAuthError>,
        rejections: &mut OAuthRefreshRejectionCache,
        claims: &JwtClaims,
    ) -> (res: RefreshProgress<SwapPending>)
        ensures
            final(rejections).unauthorized_map() == old(rejections).unauthorized_map(),
            match result {
                Err(error) => {
                    &&& res == RefreshProgress::<SwapPending>::Done(
                        Err(RefreshCredentialsError::OAuth { credentials: self.current, error }),
                    )
                    &&& final(rejections).rejections() == if error.permanent_refresh_rejection {
                        old(rejections).rejections().insert(
                            self.refresh.provider@,
                            (OAuthRefreshRejection {
                                auth: self.current,
                                lite_compatibility: self.refresh.lite_compatibility,
                                error,
                            }),
                        )
                    } else {
                        old(rejections).rejections()
                    }
                },
                Ok(tokens) => {
                    &&& final(rejections).rejections() == old(rejections).rejections()
                    &&& match merged_auth(self.current.content(), tokens, claims) {
                        Err(()) => res == RefreshProgress::<SwapPending>::Done(
                            Err(RefreshCredentialsError::IdentityMismatch),
                        ),
                        Ok(expected) => match res {
                            RefreshProgress::Continue(pending) => {
                                &&& pending.refresh == self.refresh
                                &&& pending.current == self.current
                                &&& pending.generation == self.generation
                                &&& pending.refreshed.content() == expected
                            },
                            _ => false,
                        },
                    }
                },
            },
            result matches Ok(tokens) ==> (res matches RefreshProgress::Continue(pending) ==> {
                &&& match tokens.access_token {
                    Some(access) => pending.refreshed.access_token@ == access@,
                    None => pending.refreshed.access_token@ == self.current.access_token@,
                }
                &&& match tokens.refresh_token {
                    Some(refresh) => pending.refreshed.refresh_token@ == refresh@,
                    None => pending.refreshed.refresh_token@ == self.current.refresh_token@,
                }
                &&& match tokens.expires_at_ms {
                    Some(expires) => pending.refreshed.expires_at_ms == expires,
                    None => pending.refreshed.expires_at_ms == self.current.expires_at_ms,
                }
            }),
    {
        let tokens = match result {
            Ok(tokens) => tokens,
            Err(error) => {
                rejections.record_if_permanent(
                    &self.refresh.provider,
                    &self.current,
                    self.refresh.lite_compatibility,
                    &error,
                );
                return RefreshProgress::Done(
                    Err(RefreshCredentialsError::OAuth { credentials: self.current, error }),
                );
            },
        };
        match merge_chatgpt_refresh(&self.current, tokens, claims) {
            Ok(refreshed) => RefreshProgress::Continue(
                SwapPending {
                    refresh: self.refresh,
                    current: self.current,
                    generation: self.generation,
                    refreshed,
                },
            ),
            Err(_) => RefreshProgress::Done(Err(RefreshCredentialsError::IdentityMismatch)),
        }
    }
}

impl SwapPending {
    /// Continues with the compare-and-swap reply. A lost swap reloads the winner's record rather
    /// than retrying the consumed refresh token.
    pub fn swapped(self, reply: SwapReply, rejections: &mut OAuthRefreshRejectionCache) -> (res:
        RefreshProgress<ReloadPending>)
        ensures
            final(rejections).unauthorized_map() == old(rejections).unauthorized_map(),
            match reply {
                SwapReply::Swapped => if self.refresh.force && self.refreshed.access_token@
                    == self.current.access_token@ {
                    &&& res == RefreshProgress::<ReloadPending>::Done(
                        Err(RefreshCredentialsError::RejectedGeneration),
                    )
                    &&& final(rejections).rejections() == old(rejections).rejections()
                } else {
                    &&& res == RefreshProgress::<ReloadPending>::Done(Ok(self.refreshed))
                    &&& final(rejections).rejections() == old(rejections).rejections().remove(
                        self.refresh.provider@,
                    )
                },
                _ => {
                    &&& final(rejections).rejections() == old(rejections).rejections()
                    &&& match reply {
                        SwapReply::EncodeFailed => failed(res, StorageFailure::EncodeFailed),
                        SwapReply::Unexpected => failed(res, StorageFailure::UnexpectedSwap),
                        SwapReply::Unavailable => failed(res, StorageFailure::SwapFailed),
                        _ => res == RefreshProgress::Continue(
                            ReloadPending { refresh: self.refresh, current: self.current },
                        ),
                    }
                },
            },
    {
        match reply {
            SwapReply::Swapped => {
                if self.refresh.force && self.refreshed.access_token == self.current.access_token {
                    return RefreshProgress::Done(
                        Err(RefreshCredentialsError::RejectedGeneration),
                    );
                }
                rejections.clear_refresh_rejection(&self.refresh.provider);
                RefreshProgress::Done(Ok(self.refreshed))
            },
            SwapReply::EncodeFailed => RefreshProgress::Done(
                Err(RefreshCredentialsError::Storage(StorageFailure::EncodeFailed)),
            ),
            SwapReply::Unexpected => RefreshProgress::Done(
                Err(RefreshCredentialsError::Storage(StorageFailure::UnexpectedSwap)),
            ),
            SwapReply::Unavailable => RefreshProgress::Done(
                Err(RefreshCredentialsError::Storage(StorageFailure::SwapFailed)),
            ),
            SwapReply::GenerationMismatch => RefreshProgress::Continue(
                ReloadPending { refresh: self.refresh, current: self.current },
            ),
        }
    }
}

impl ReloadPending {
    /// Adopts the winner's record once it passes the rotation check.
    pub fn reloaded(
        self,
        read: SecretRead,
        rejections: &mut OAuthRefreshRejectionCache,
        claims: &JwtClaims,
    ) -> (res: Result<OpenAiAuth, RefreshCredentialsError>)
        ensures
            final(rejections).unauthorized_map() == old(rejections).unauthorized_map(),
            final(rejections).rejections() == if res is Ok {
                old(rejections).rejections().remove(self.refresh.provider@)
            } else {
                old(rejections).rejections()
            },
            match read {
                SecretRead::Unavailable => res == Err::<OpenAiAuth, RefreshCredentialsError>(
                    RefreshCredentialsError::Storage(StorageFailure::ReloadUnavailable),
                ),
                SecretRead::Unexpected => res == Err::<OpenAiAuth, RefreshCredentialsError>(
                    RefreshCredentialsError::Storage(StorageFailure::UnexpectedReload),
                ),
                SecretRead::Contents { record, .. } => match record {
                    None => res == Err::<OpenAiAuth, RefreshCredentialsError>(
                        RefreshCredentialsError::Storage(StorageFailure::InvalidReload),
                    ),
                    Some(authoritative) => match rotation_verdict(
                        self.current.content(),
                        authoritative.content(),
                        self.refresh.force,
                        claims,
                    ) {
                        RotationVerdict::Valid => res == Ok::<OpenAiAuth, RefreshCredentialsError>(
                            authoritative,
                        ),
                        RotationVerdict::IdentityMismatch => res == Err::<
                            OpenAiAuth,
                            RefreshCredentialsError,
                        >(RefreshCredentialsError::IdentityMismatch),
                        RotationVerdict::RejectedGeneration => res == Err::<
                            OpenAiAuth,
                            RefreshCredentialsError,
                        >(RefreshCredentialsError::RejectedGeneration),
                    },
                },
            },
    {
        let authoritative = match read {
            SecretRead::Unavailable => {
                return Err(RefreshCredentialsError::Storage(StorageFailure::ReloadUnavailable));
            },
            SecretRead::Unexpected => {
                return Err(RefreshCredentialsError::Storage(StorageFailure::UnexpectedReload));
            },
            SecretRead::Contents { record, .. } => match record {
                Some(authoritative) => authoritative,
                None => {
                    return Err(RefreshCredentialsError::Storage(StorageFailure::InvalidReload));
                },
            },
        };
        match validate_authoritative_rotation(
            &self.current,
            &authoritative,
            self.refresh.force,
            claims,
        ) {
            Ok(()) => {
                rejections.clear_refresh_rejection(&self.refresh.provider);
                Ok(authoritative)
            },
            Err(error) => Err(error),
        }
    }
}

/// A rotation that passes its check keeps the account, which is known, and under forced recovery
/// brings another access token.
pub proof fn valid_rotation_keeps_account(
    current: AuthContent,
    authoritative: AuthContent,
    force: bool,
    claims: &JwtClaims,
)
    requires
        rotation_verdict(current, authoritative, force, claims) == RotationVerdict::Valid,
    ensures
        account_identity(authoritative, claims) == account_identity(current, claims),
        account_identity(current, claims) is Ok,
        account_identity(current, claims)->Ok_0 is Some,
        force ==> authoritative.access_token != current.access_token,
{
}

/// What a ChatGPT route with some credentials is resolved from.
pub open spec fn codex_input(
    model: ModelId,
    auth: AuthContent,
    lite_compatibility: bool,
) -> CodexInput {
    CodexInput {
        provider: model.provider@,
        model: model.model@,
        access_token: auth.access_token,
        account_id: auth.account_id,
        lite_compatibility,
    }
}

/// The route of `model` with some credentials.
pub open spec fn is_config(
    config: ResolvedConfig,
    model: ModelId,
    codex: &CodexRoutes,
    auth: AuthContent,
    lite_compatibility: bool,
) -> bool {
    &&& config.model == model
    &&& config.access_token@ == auth.access_token
    &&& optional_text(config.account_id) == auth.account_id
    &&& config.lite_compatibility == lite_compatibility
    &&& config.identity == codex.identity_of(codex_input(model, auth, lite_compatibility))
}

/// Resolves a ChatGPT route from credentials that are at hand.
pub fn resolved_config_for_provider_model(
    model: &ModelId,
    codex: &CodexRoutes,
    auth: &OpenAiAuth,
    lite_compatibility: bool,
) -> (res: ResolvedConfig)
    ensures
        is_config(res, *model, codex, auth.content(), lite_compatibility),
        res.access_token == auth.access_token,
        res.account_id == auth.account_id,
{
    ResolvedConfig {
        model: model.clone(),
        access_token: auth.access_token.clone(),
        account_id: clone_optional_text(&auth.account_id),
        lite_compatibility,
        identity: codex.identity(model, &auth.access_token, &auth.account_id, lite_compatibility),
    }
}

/// The identity key of a route with some credentials.
pub open spec fn auth_key(
    model: ModelId,
    codex: &CodexRoutes,
    auth: AuthContent,
    lite_compatibility: bool,
) -> RouteKey {
    RouteKey::Responses(
        auth.access_token,
        auth.account_id,
        codex.identity_of(codex_input(model, auth, lite_compatibility)).inference,
    )
}

/// How the resolution of a ChatGPT route begins.
#[derive(Clone, Copy, Debug, PartialEq, Eq, Structural)]
pub enum ResolutionStart {
    /// The credentials may not be used and may not recover.
    Exhausted,
    /// The credentials must be refreshed first.
    Refresh { forced: bool },
    /// The credentials stand as they are.
    Direct,
}

/// How resolution begins, given the unauthorized state of the provider.
pub open spec fn resolution_start(
    auth: AuthContent,
    unauthorized: Unauthorized,
    identity: u64,
    rejection_known: bool,
    claims: &JwtClaims,
    now_ms: u64,
) -> ResolutionStart {
    if exhausted(unauthorized, identity) {
        ResolutionStart::Exhausted
    } else {
        let forced = recoverable(unauthorized, identity);
        let due = refresh_due(claims.issued_of(auth.access_token), auth.expires_at_ms, now_ms)
            && !blank(auth.refresh_token);
        if forced || due || rejection_known {
            ResolutionStart::Refresh { forced }
        } else {
            ResolutionStart::Direct
        }
    }
}

/// Begins the resolution of a ChatGPT route. Recovery authority for exactly these credentials is
/// consumed here.
pub fn begin_chatgpt_resolution(
    model: &ModelId,
    codex: &CodexRoutes,
    auth: &OpenAiAuth,
    lite_compatibility: bool,
    rejections: &mut OAuthRefreshRejectionCache,
    identities: &mut BackendIdentities,
    claims: &JwtClaims,
    now_ms: u64,
) -> (res: (ResolutionStart, BackendProfileIdentity))
    requires
        old(identities).wf(),
    ensures
        final(identities).wf(),
        final(identities)@ == known_routes(
            old(identities)@,
            Some(auth_key(*model, codex, auth.content(), lite_compatibility)),
        ),
        names_route(
            final(identities)@,
            res.1,
            auth_key(*model, codex, auth.content(), lite_compatibility),
        ),
        res.0 == resolution_start(
            auth.content(),
            old(rejections).unauthorized_of(model.provider@),
            res.1.hash,
            old(rejections).rejections().contains_key(model.provider@),
            claims,
            now_ms,
        ),
        final(rejections).rejections() == old(rejections).rejections(),
        final(rejections).unauthorized_map() == if res.0 == (ResolutionStart::Refresh {
            forced: true,
        }) {
            old(rejections).unauthorized_map().insert(
                model.provider@,
                spent(old(rejections).unauthorized_of(model.provider@), res.1.hash),
            )
        } else {
            old(rejections).unauthorized_map()
        },
{
    let config = resolved_config_for_provider_model(model, codex, auth, lite_compatibility);
    let identity = identities.inference_identity(&config);
    if rejections.unauthorized_exhausted(&model.provider, identity.hash) {
        return (ResolutionStart::Exhausted, identity);
    }
    let forced: bool = rejections.take_unauthorized(&model.provider, identity.hash);
    let due: bool = oauth_token_should_refresh(
        claims.jwt_issued_at_ms(&auth.access_token),
        auth.expires_at_ms,
        now_ms,
    ) && !is_blank(auth.refresh_token.as_str());
    if forced || due || rejections.contains(&model.provider) {
        (ResolutionStart::Refresh { forced }, identity)
    } else {
        (ResolutionStart::Direct, identity)
    }
}

/// The credentials after a refresh attempt. Forced recovery never falls back to the rejected
/// token, and a crossed identity is never used.
pub open spec fn settled_auth(
    auth: AuthContent,
    refreshed: Option<Result<OpenAiAuth, RefreshCredentialsError>>,
    forced: bool,
) -> AuthContent {
    match refreshed {
        None => auth,
        Some(Ok(fresh)) => fresh.content(),
        Some(Err(RefreshCredentialsError::Storage(_))) => if forced {
            without_access(auth)
        } else {
            auth
        },
        Some(Err(RefreshCredentialsError::IdentityMismatch)) => without_access(auth),
        Some(Err(RefreshCredentialsError::RejectedGeneration)) => without_access(auth),
        Some(Err(RefreshCredentialsError::OAuth { credentials, .. })) => if forced {
            without_access(credentials.content())
        } else {
            credentials.content()
        },
        Some(Err(RefreshCredentialsError::Suppressed { credentials, .. })) => if forced {
            without_access(credentials.content())
        } else {
            credentials.content()
        },
    }
}

/// Ends the resolution of a ChatGPT route with the outcome of its refresh, if it had one.
pub fn finish_chatgpt_resolution(
    model: &ModelId,
    codex: &CodexRoutes,
    auth: &mut OpenAiAuth,
    lite_compatibility: bool,
    refreshed: Option<Result<OpenAiAuth, RefreshCredentialsError>>,
    forced: bool,
    now_ms: u64,
) -> (res: Option<ResolvedConfig>)
    ensures
        final(auth).content() == settled_auth(old(auth).content(), refreshed, forced),
        match res {
            Some(config) => usable(final(auth).content(), now_ms) && is_config(
                config,
                *model,
                codex,
                final(auth).content(),
                lite_compatibility,
            ),
            None => !usable(final(auth).content(), now_ms),
        },
{
    match refreshed {
        None => {},
        Some(Ok(fresh)) => {
            *auth = fresh;
        },
        Some(Err(RefreshCredentialsError::Storage(_))) => {
            if forced {
                auth.clear_access_token();
            }
        },
        Some(Err(RefreshCredentialsError::IdentityMismatch)) => {
            auth.clear_access_token();
        },
        Some(Err(RefreshCredentialsError::RejectedGeneration)) => {
            auth.clear_access_token();
        },
        Some(Err(RefreshCredentialsError::OAuth { credentials, .. })) => {
            *auth = credentials;
            if forced {
                auth.clear_access_token();
            }
        },
        Some(Err(RefreshCredentialsError::Suppressed { credentials, .. })) => {
            *auth = credentials;
            if forced {
                auth.clear_access_token();
            }
        },
    }
    if !is_usable(auth, now_ms) {
        return None;
    }
    Some(resolved_config_for_provider_model(model, codex, auth, lite_compatibility))
}

/// After a failed forced recovery no credentials are usable: a rejected access token is never
/// sent again.
pub proof fn failed_recovery_is_unusable(
    auth: AuthContent,
    error: RefreshCredentialsError,
    now_ms: u64,
)
    ensures
        !usable(settled_auth(auth, Some(Err(error)), true), now_ms),
{
}

/// A generation is written two lower-case hexadecimal digits to the byte, the high half first.
pub proof fn hex_writes_every_byte(bytes: Seq<u8>, i: int)
    requires
        0 <= i < bytes.len(),
    ensures
        hex(bytes).len() == 2 * bytes.len(),
        hex(bytes)[2 * i] as int == bytes[i] / 16 + (if bytes[i] / 16 < 10 {
            48int
        } else {
            87int
        }),
        hex(bytes)[2 * i + 1] as int == bytes[i] % 16 + (if bytes[i] % 16 < 10 {
            48int
        } else {
            87int
        }),
    decreases bytes.len(),
{
    let init = bytes.drop_last();
    lemma_hex_len(init);
    if i < init.len() {
        hex_writes_every_byte(init, i);
        assert(init[i] == bytes[i]);
    }
}

proof fn lemma_hex_len(bytes: Seq<u8>)
    ensures
        hex(bytes).len() == 2 * bytes.len(),
    decreases bytes.len(),
{
    if bytes.len() > 0 {
        lemma_hex_len(bytes.drop_last());
    }
}

/// Two contents share a generation exactly when their digests agree: the text of a digest tells it
/// apart from every other.
pub proof fn generation_tells_digests_apart(contents: Seq<u8>, other: Seq<u8>)
    requires
        generation_of(contents) == generation_of(other),
    ensures
        blake3_digest(contents) == blake3_digest(other),
{
    let a = blake3_digest(contents);
    let b = blake3_digest(other);
    lemma_hex_len(a);
    lemma_hex_len(b);
    assert forall|i: int| 0 <= i < a.len() implies a[i] == b[i] by {
        hex_writes_every_byte(a, i);
        hex_writes_every_byte(b, i);
        assert(hex(a)[2 * i] as int == hex(b)[2 * i] as int);
        assert(hex(a)[2 * i + 1] as int == hex(b)[2 * i + 1] as int);
    }
    assert(a =~= b);
}

/// A resolved route is the selected model with the selected credentials and mode.
pub proof fn resolved_route_uses_the_credentials(
    config: ResolvedConfig,
    model: ModelId,
    codex: &CodexRoutes,
    auth: AuthContent,
    lite_compatibility: bool,
)
    requires
        is_config(config, model, codex, auth, lite_compatibility),
    ensures
        config.model == model,
        config.access_token@ == auth.access_token,
        optional_text(config.account_id) == auth.account_id,
        config.lite_compatibility == lite_compatibility,
        auth_key(model, codex, auth, lite_compatibility) == (RouteKey::Responses(
            auth.access_token,
            auth.account_id,
            config.identity.inference,
        )),
{
}

/// A rejected generation that used its recovery is not tried again; one that still has it is
/// refreshed by force; any other is refreshed when its token is due or a rejection is remembered,
/// and otherwise used as it is.
pub proof fn rejected_generation_recovers_once(
    auth: AuthContent,
    unauthorized: Unauthorized,
    identity: u64,
    rejection_known: bool,
    claims: &JwtClaims,
    now_ms: u64,
)
    ensures
        ({
            let start = resolution_start(
                auth,
                unauthorized,
                identity,
                rejection_known,
                claims,
                now_ms,
            );
            let seen = unauthorized.generations.contains_key(identity);
            &&& start is Exhausted <==> unauthorized.saturated || seen
                && unauthorized.generations[identity]
            &&& !unauthorized.saturated && seen && !unauthorized.generations[identity] ==> start
                == (ResolutionStart::Refresh { forced: true })
            &&& !unauthorized.saturated && !seen && rejection_known ==> start
                == (ResolutionStart::Refresh { forced: false })
            &&& !unauthorized.saturated && !seen && !rejection_known && !blank(auth.refresh_token)
                && auth.expires_at_ms <= now_ms + 300_000 ==> start == (ResolutionStart::Refresh {
                forced: false,
            })
            &&& !unauthorized.saturated && !seen && !rejection_known && (blank(auth.refresh_token)
                || claims.issued_of(auth.access_token) is None && now_ms + 300_000
                < auth.expires_at_ms) ==> start is Direct
        }),
{
}

/// A finished refresh replaces the credentials; a failed one leaves those that are known to be
/// current, and after a forced recovery, or across accounts, nothing that could be sent.
pub proof fn failed_refresh_leaves_the_current_credentials(
    auth: AuthContent,
    fresh: OpenAiAuth,
    credentials: OpenAiAuth,
    error: OAuthError,
    failure: StorageFailure,
    forced: bool,
)
    ensures
        settled_auth(auth, None, forced) == auth,
        settled_auth(auth, Some(Ok(fresh)), forced) == fresh.content(),
        !forced ==> settled_auth(auth, Some(Err(RefreshCredentialsError::Storage(failure))), forced)
            == auth,
        forced ==> settled_auth(
            auth,
            Some(Err(RefreshCredentialsError::Storage(failure))),
            forced,
        ).access_token.len() == 0,
        settled_auth(
            auth,
            Some(Err(RefreshCredentialsError::IdentityMismatch)),
            forced,
        ).access_token.len() == 0,
        settled_auth(
            auth,
            Some(Err(RefreshCredentialsError::RejectedGeneration)),
            forced,
        ).access_token.len() == 0,
        !forced ==> settled_auth(
            auth,
            Some(Err(RefreshCredentialsError::OAuth { credentials, error })),
            forced,
        ) == credentials.content(),
        !forced ==> settled_auth(
            auth,
            Some(Err(RefreshCredentialsError::Suppressed { credentials, error })),
            forced,
        ) == credentials.content(),
        forced ==> settled_auth(
            auth,
            Some(Err(RefreshCredentialsError::OAuth { credentials, error })),
            forced,
        ).access_token.len() == 0,
        forced ==> settled_auth(
            auth,
            Some(Err(RefreshCredentialsError::Suppressed { credentials, error })),
            forced,
        ).access_token.len() == 0,
{
}

} // verus!
