//! Credentials: generations, refresh decisions, rotation, and recovery.

use tau_ext_provider_builtin::clock::Moment;
use tau_ext_provider_builtin::credentials::{
    content_generation, hex_text, CredentialObservation, CredentialRefresh, RefreshProgress,
    SecretRead, SwapReply,
};
use tau_ext_provider_builtin::deadline::{
    PromptCredentialDeadlineCommand, PromptCredentialDeadlineQueue,
};
use tau_ext_provider_builtin::models::{models_for_profiles, ChatGptCatalog};
use tau_ext_provider_builtin::names::NameTable;
use tau_ext_provider_builtin::oauth::{
    chatgpt_account_identity, is_usable, merge_chatgpt_refresh, oauth_token_is_expired,
    oauth_token_should_refresh, refresh_required, validate_authoritative_rotation, JwtClaims,
    OAuthError, OAuthRefreshRejectionCache, OAuthTokenRefresh, OpenAiAuth,
    RefreshCredentialsError, StorageFailure,
};
use tau_ext_provider_builtin::profiles::{
    profiles_with_chatgpt_auth, BuiltinProviderProfile, BuiltinProviderProfiles, ChatGptProfile,
    GenericRoute, ModelEntry, ProviderCredential, ProviderCredentialReference,
    ProviderCredentialSlot, SecretReply,
};
use tau_ext_provider_builtin::prompt::{
    BackendIdentities, CodexIdentity, ModelId, PromptBackend, ResolvedConfig, RouteSnapshot,
};
use tau_ext_provider_builtin::resolution::RouteStart;
use tau_ext_provider_builtin::routes::{Now, Routes};
use tau_ext_provider_builtin::quota::QuotaLimits;

fn text(value: &str) -> String {
    value.to_owned()
}

fn auth(token: &str) -> OpenAiAuth {
    OpenAiAuth {
        access_token: text(token),
        refresh_token: text("refresh"),
        expires_at_ms: 10_000_000,
        account_id: Some(text("account")),
    }
}

fn error(permanent: bool) -> OAuthError {
    OAuthError { message: text("invalid_grant"), permanent_refresh_rejection: permanent }
}

#[test]
fn a_generation_is_the_hexadecimal_content_digest() {
    assert_eq!(
        content_generation(b""),
        "af1349b9f5f9a1a6a0404dea36dcc9499bcb25c9adc112b7cc9a93cae41f3262"
    );
    let generation = content_generation(b"abc");
    assert_eq!(
        generation,
        "6437b3ac38465133ffb63b75273a8db548c558465d79db03fd359c6cd5bd9d85"
    );
    assert_eq!(generation, blake3::hash(b"abc").to_hex().as_str());
    assert_eq!(hex_text(&[0x00, 0x9f, 0xa0, 0xff]), "009fa0ff");
    assert!(CredentialObservation::Contents(text("a"))
        .same(&CredentialObservation::Contents(text("a"))));
    assert!(!CredentialObservation::Contents(text("a")).same(&CredentialObservation::Unavailable));
}

#[test]
fn tokens_are_refreshed_past_half_their_life_or_near_expiry() {
    assert!(!oauth_token_should_refresh(Some(0), 1_000_000_000, 499_999_999));
    assert!(oauth_token_should_refresh(Some(0), 1_000_000_000, 500_000_000));
    assert!(!oauth_token_should_refresh(None, 1_000_000, 699_999));
    assert!(oauth_token_should_refresh(None, 1_000_000, 700_000));
    assert!(oauth_token_should_refresh(None, u64::MAX, u64::MAX));
    assert!(!oauth_token_is_expired(10, 9));
    assert!(oauth_token_is_expired(10, 10));
    assert!(is_usable(&auth("a"), 0));
    assert!(!is_usable(&auth("a"), 10_000_000));
    assert!(!is_usable(&auth(" "), 0));
}

#[test]
fn forced_recovery_needs_a_refresh_token() {
    let claims = JwtClaims::new();
    assert!(matches!(refresh_required(&auth("a"), false, &claims, 0), Ok(false)));
    assert!(matches!(refresh_required(&auth("a"), true, &claims, 0), Ok(true)));
    let bare = OpenAiAuth { refresh_token: text(" "), ..auth("a") };
    assert!(matches!(refresh_required(&bare, false, &claims, u64::MAX), Ok(false)));
    assert!(matches!(
        refresh_required(&bare, true, &claims, 0),
        Err(RefreshCredentialsError::RejectedGeneration)
    ));
}

#[test]
fn a_refresh_never_changes_the_account() {
    let mut claims = JwtClaims::new();
    claims.account_ids.insert(text("new"), text("account"));
    claims.account_ids.insert(text("foreign"), text("elsewhere"));
    let reply = |access: Option<&str>, account: Option<&str>| OAuthTokenRefresh {
        access_token: access.map(text),
        refresh_token: None,
        expires_at_ms: Some(77),
        account_id: account.map(text),
    };
    let merged = merge_chatgpt_refresh(&auth("old"), reply(Some("new"), None), &claims)
        .unwrap_or_else(|error| panic!("{}", error.text()));
    assert_eq!(merged.access_token, "new");
    assert_eq!(merged.refresh_token, "refresh");
    assert_eq!(merged.expires_at_ms, 77);
    assert_eq!(merged.account_id.as_deref(), Some("account"));
    for tokens in [
        reply(Some("foreign"), None),
        reply(Some("new"), Some("elsewhere")),
        reply(Some("unknown"), None),
    ] {
        assert!(matches!(
            merge_chatgpt_refresh(&auth("old"), tokens, &claims),
            Err(RefreshCredentialsError::IdentityMismatch)
        ));
    }
    assert!(merge_chatgpt_refresh(&auth("old"), reply(None, None), &claims).is_ok());
    assert!(matches!(
        chatgpt_account_identity(&auth("foreign"), &claims),
        Err(RefreshCredentialsError::IdentityMismatch)
    ));
    let unnamed = OpenAiAuth { account_id: Some(text("  ")), ..auth("new") };
    assert!(matches!(
        chatgpt_account_identity(&unnamed, &claims),
        Ok(Some(account)) if account == "account"
    ));
}

#[test]
fn an_authoritative_rotation_is_checked() {
    let claims = JwtClaims::new();
    let other = OpenAiAuth { account_id: Some(text("other")), ..auth("b") };
    assert!(validate_authoritative_rotation(&auth("a"), &auth("b"), true, &claims).is_ok());
    assert!(validate_authoritative_rotation(&auth("a"), &auth("a"), false, &claims).is_ok());
    assert!(matches!(
        validate_authoritative_rotation(&auth("a"), &auth("a"), true, &claims),
        Err(RefreshCredentialsError::RejectedGeneration)
    ));
    assert!(matches!(
        validate_authoritative_rotation(&auth("a"), &other, false, &claims),
        Err(RefreshCredentialsError::IdentityMismatch)
    ));
    let unknown = OpenAiAuth { account_id: None, ..auth("a") };
    assert!(matches!(
        validate_authoritative_rotation(&unknown, &unknown, false, &claims),
        Err(RefreshCredentialsError::IdentityMismatch)
    ));
}

#[test]
fn refresh_failures_have_credential_free_texts() {
    for (failure, words) in [
        (StorageFailure::RpcUnavailable, "Secret RPC is unavailable"),
        (
            StorageFailure::ReadFailed,
            "could not read OAuth credential through Secret RPC",
        ),
        (StorageFailure::UnexpectedRead, "unexpected OAuth credential read result"),
        (StorageFailure::InvalidRecord, "invalid version-zero OAuth credential"),
        (StorageFailure::EncodeFailed, "could not encode refreshed OAuth credential"),
        (StorageFailure::UnexpectedSwap, "unexpected OAuth credential CAS result"),
        (StorageFailure::SwapFailed, "OAuth credential CAS failed"),
        (
            StorageFailure::ReloadUnavailable,
            "OAuth credential CAS failed and reload was unavailable",
        ),
        (
            StorageFailure::UnexpectedReload,
            "unexpected OAuth credential reload result",
        ),
        (
            StorageFailure::InvalidReload,
            "invalid reloaded version-zero OAuth credential",
        ),
    ] {
        assert_eq!(
            RefreshCredentialsError::Storage(failure).text(),
            format!("credential storage failed: {words}")
        );
    }
    assert_eq!(RefreshCredentialsError::IdentityMismatch.text(), "ChatGPT identity changed");
    assert_eq!(
        RefreshCredentialsError::RejectedGeneration.text(),
        "ChatGPT access token was not replaced"
    );
    let suppressed =
        RefreshCredentialsError::Suppressed { credentials: auth("secret"), error: error(true) };
    assert_eq!(
        suppressed.text(),
        "OAuth refresh suppressed for unchanged credentials: invalid_grant"
    );
}

#[test]
fn recovery_from_an_unauthorized_answer_is_spent_once() {
    let provider = text("chatgpt");
    let mut cache = OAuthRefreshRejectionCache::new();
    cache.record_unauthorized(provider.clone(), 5);
    assert!(cache.take_unauthorized(&provider, 5));
    assert!(!cache.take_unauthorized(&provider, 5));
    assert!(cache.unauthorized_exhausted(&provider, 5));
    cache.record_unauthorized(provider.clone(), 5);
    assert!(!cache.take_unauthorized(&provider, 5), "a spent generation stays spent");
    assert!(!cache.unauthorized_exhausted(&provider, 6));
    for identity in 10..100 {
        cache.record_unauthorized(provider.clone(), identity);
    }
    assert!(
        !cache.take_unauthorized(&provider, 99),
        "beyond its capacity nothing recovers"
    );
    assert!(cache.unauthorized_exhausted(&provider, 99));
}

#[test]
fn a_permanent_rejection_suppresses_only_its_generation() {
    let provider = text("chatgpt");
    let mut cache = OAuthRefreshRejectionCache::new();
    cache.record_if_permanent(&provider, &auth("a"), false, &error(false));
    assert!(!cache.contains(&provider));
    cache.record_if_permanent(&provider, &auth("a"), false, &error(true));
    assert!(cache.rejection(&provider, &auth("a"), false).is_some());
    assert!(cache.rejection(&provider, &auth("b"), false).is_none());
    assert!(!cache.contains(&provider), "another generation forgets the rejection");
}

fn refresh(force: bool) -> CredentialRefresh {
    CredentialRefresh { provider: text("chatgpt"), lite_compatibility: false, force }
}

fn contents(token: &str, expires_at_ms: u64) -> SecretRead {
    SecretRead::Contents {
        contents: token.as_bytes().to_vec(),
        record: Some(OpenAiAuth { expires_at_ms, ..auth(token) }),
    }
}

#[test]
fn a_refresh_reads_renews_and_swaps() {
    let claims = JwtClaims::new();
    let mut cache = OAuthRefreshRejectionCache::new();
    let pending = match refresh(false).read(contents("old", 1_000), &mut cache, &claims, 900) {
        RefreshProgress::Continue(pending) => pending,
        RefreshProgress::Done(_) => panic!("a due record is refreshed"),
    };
    assert_eq!(pending.generation, content_generation(b"old"));
    let tokens = OAuthTokenRefresh {
        access_token: Some(text("new")),
        refresh_token: Some(text("next")),
        expires_at_ms: Some(9_000_000),
        account_id: Some(text("account")),
    };
    let swap = match pending.tokens(Ok(tokens), &mut cache, &claims) {
        RefreshProgress::Continue(swap) => swap,
        RefreshProgress::Done(_) => panic!("renewed tokens are published"),
    };
    assert_eq!(swap.generation, content_generation(b"old"));
    assert_eq!(swap.refreshed.access_token, "new");
    match swap.swapped(SwapReply::GenerationMismatch, &mut cache) {
        RefreshProgress::Continue(reload) => {
            match reload.reloaded(contents("winner", 8_000), &mut cache, &claims) {
                Ok(adopted) => assert_eq!(adopted.access_token, "winner"),
                Err(error) => panic!("{}", error.text()),
            }
        }
        RefreshProgress::Done(_) => panic!("a lost swap reloads the winner"),
    }
}

#[test]
fn a_fresh_record_is_adopted_and_failures_end_the_refresh() {
    let claims = JwtClaims::new();
    let mut cache = OAuthRefreshRejectionCache::new();
    assert!(matches!(
        refresh(false).read(contents("fine", 10_000_000), &mut cache, &claims, 0),
        RefreshProgress::Done(Ok(adopted)) if adopted.access_token == "fine"
    ));
    for (read, failure) in [
        (SecretRead::Unavailable, StorageFailure::ReadFailed),
        (SecretRead::Unexpected, StorageFailure::UnexpectedRead),
        (
            SecretRead::Contents { contents: Vec::new(), record: None },
            StorageFailure::InvalidRecord,
        ),
    ] {
        assert!(matches!(
            refresh(false).read(read, &mut cache, &claims, 0),
            RefreshProgress::Done(Err(RefreshCredentialsError::Storage(found)))
                if found == failure
        ));
    }
    let pending = match refresh(true).read(contents("bad", 10_000_000), &mut cache, &claims, 0) {
        RefreshProgress::Continue(pending) => pending,
        RefreshProgress::Done(_) => panic!("forced recovery refreshes"),
    };
    assert!(matches!(
        pending.tokens(Err(error(true)), &mut cache, &claims),
        RefreshProgress::Done(Err(RefreshCredentialsError::OAuth { .. }))
    ));
    assert!(matches!(
        refresh(false).read(contents("bad", 10_000_000), &mut cache, &claims, 0),
        RefreshProgress::Done(Err(RefreshCredentialsError::Suppressed { .. }))
    ));
}

fn model_entry(id: &str) -> ModelEntry {
    ModelEntry {
        id: text(id),
        supports_standalone_compaction: true,
        standalone_compaction_threshold: Some(100),
        detail: 3,
        summary_error: None,
    }
}

fn generic(base_url: &str, api_key: &str) -> PromptBackend {
    PromptBackend::ChatCompletions {
        route: RouteSnapshot { base_url: text(base_url), api_key: text(api_key), snapshot: 1 },
        model_index: 0,
    }
}

fn responses(token: &str, account: &str) -> PromptBackend {
    PromptBackend::Responses(ResolvedConfig {
        model: ModelId { provider: text("chatgpt"), model: text("gpt-5.6-sol") },
        access_token: text(token),
        account_id: Some(text(account)),
        lite_compatibility: false,
        identity: CodexIdentity { inference: 0, quota: 0, retry_anchor: 0 },
    })
}

#[test]
fn inference_profile_identity_tracks_chat_completions_rotation() {
    let mut identities = BackendIdentities::new();
    let old = identities.backend_profile_identity(&generic("https://generic.invalid/v1", "old-key"));
    let new = identities.backend_profile_identity(&generic("https://generic.invalid/v1", "new-key"));
    let moved = identities
        .backend_profile_identity(&generic("https://replacement.invalid/v1", "new-key"));
    let chatgpt = identities.backend_profile_identity(&responses("access", "account"));
    assert_ne!(old, new);
    assert_ne!(new, chatgpt, "backend-kind replacement changes inference identity");
    assert_ne!(old, moved, "generic Chat Completions base URL is material identity");
    assert_ne!(
        identities.backend_profile_identity(&generic("https://openrouter.ai/api/v1", "router-old")),
        identities.backend_profile_identity(&generic("https://openrouter.ai/api/v1", "router-new")),
        "OpenRouter route credential rotation changes identity"
    );
    for rotated in [
        responses("rotated-token", "account"),
        responses("token", "replacement-account"),
    ] {
        assert_ne!(
            chatgpt,
            identities.backend_profile_identity(&rotated),
            "Responses key and account are material profile identity"
        );
    }
    assert_eq!(
        identities.backend_profile_identity(&PromptBackend::Unavailable { login_required: None }),
        None,
        "removed profiles carry no stale identity"
    );
    assert_eq!(
        old,
        identities.backend_profile_identity(&generic("https://generic.invalid/v1", "old-key")),
        "an identity is stable"
    );
}

#[test]
fn resolves_chatgpt_to_codex_responses_backend() {
    let profiles = profiles_with_chatgpt_auth(
        OpenAiAuth { expires_at_ms: u64::MAX, ..auth("access") },
        text("oauth"),
    );
    let catalog = ChatGptCatalog { standard: vec![model_entry("gpt-5.4")], lite: Vec::new() };
    let mut routes = Routes::new(catalog, QuotaLimits { max_windows: 8, max_bindings: 8 });
    let model = ModelId { provider: text("chatgpt"), model: text("gpt-5.4") };
    let (backend, identity, _) = routes.resolve_backend_with_quota(
        &model,
        &profiles,
        &JwtClaims::new(),
        Now { moment: Moment { nanos: 0 }, unix_ms: 0 },
    );
    assert!(identity.is_some());
    match backend {
        PromptBackend::Responses(config) => {
            assert_eq!(config.access_token, "access");
            assert_eq!(config.account_id.as_deref(), Some("account"));
            assert_eq!(config.model.model, "gpt-5.4");
            assert!(!config.lite_compatibility);
        }
        _ => panic!("chatgpt backend"),
    }
    assert!(matches!(
        routes.begin_responses_route(&model, &profiles, &JwtClaims::new(), 0),
        RouteStart::Resolved(Some(PromptBackend::Responses(_)))
    ));
}

fn stored(slot: ProviderCredentialSlot, path: &str) -> ProviderCredential {
    ProviderCredential::Stored(ProviderCredentialReference { slot, path: text(path) })
}

fn mixed_profiles() -> BuiltinProviderProfiles {
    let mut profiles = BuiltinProviderProfiles::new();
    profiles.insert(
        text("zeta"),
        BuiltinProviderProfile::Chatgpt(ChatGptProfile {
            auth: OpenAiAuth::empty(),
            responses_lite_compatibility: true,
        }),
        stored(ProviderCredentialSlot::OAuth, "zeta-path"),
    );
    let route = || GenericRoute {
        base_url: text("https://x"),
        api_key: String::new(),
        models: vec![model_entry("m"), model_entry("n")],
        snapshot: 0,
        valid: true,
    };
    profiles.insert(
        text("alpha"),
        BuiltinProviderProfile::Responses(route()),
        ProviderCredential::Keyless,
    );
    profiles.insert(
        text("mid"),
        BuiltinProviderProfile::ChatCompletions(route()),
        stored(ProviderCredentialSlot::ApiKey, "mid-path"),
    );
    profiles
}

#[test]
fn hydration_fills_credentials_and_drops_what_has_none() {
    let mut profiles = mixed_profiles();
    let mut replies = NameTable::new();
    replies.insert(
        text("zeta-path"),
        SecretReply::Contents {
            contents: b"oauth".to_vec(),
            oauth: Some(auth("hydrated")),
            api_key: None,
        },
    );
    replies.insert(text("mid-path"), SecretReply::Failed { not_found: false });
    let observations = profiles.hydrate_profile_credentials_with(&replies);
    assert_eq!(profiles.len(), 2);
    assert_eq!(profiles.name_at(0), "alpha");
    assert_eq!(profiles.name_at(1), "zeta");
    match profiles.get("zeta") {
        Some(BuiltinProviderProfile::Chatgpt(profile)) => {
            assert_eq!(profile.auth.access_token, "hydrated");
            assert!(profile.responses_lite_compatibility);
        }
        _ => panic!("a ChatGPT profile"),
    }
    assert!(matches!(
        observations.get("zeta"),
        Some(CredentialObservation::Contents(generation))
            if *generation == content_generation(b"oauth")
    ));
    assert!(!profiles.missing_login("zeta"));
    assert!(!profiles.missing_login("mid"));
}

#[test]
fn profiles_are_ordered_and_selected_by_name() {
    let profiles = mixed_profiles();
    let names = (0..profiles.len()).map(|i| profiles.name_at(i).clone()).collect::<Vec<_>>();
    assert_eq!(names, vec![text("alpha"), text("mid"), text("zeta")]);
    let selected = profiles.selected("mid");
    assert_eq!(selected.len(), 1);
    assert_eq!(selected.stored_credential_path("mid").as_deref(), Some("mid-path"));
    assert_eq!(profiles.chatgpt_credential_reference("zeta").as_deref(), Some("zeta-path"));
    assert_eq!(profiles.chatgpt_credential_reference("mid"), None);
    let catalog = ChatGptCatalog {
        standard: vec![model_entry("standard")],
        lite: vec![model_entry("lite")],
    };
    let models = models_for_profiles(&profiles, &catalog);
    let ids = models
        .iter()
        .map(|model| format!("{}/{}", model.id.provider, model.id.model))
        .collect::<Vec<_>>();
    assert_eq!(
        ids,
        vec!["alpha/m", "alpha/n", "mid/m", "mid/n", "zeta/lite"]
    );
    let modes = profiles.startup_responses_modes();
    assert_eq!(modes.get("zeta"), Some(&true));
    assert_eq!(modes.get("mid"), None);
    let mut edited = mixed_profiles();
    edited.insert(
        text("zeta"),
        BuiltinProviderProfile::Chatgpt(ChatGptProfile {
            auth: OpenAiAuth::empty(),
            responses_lite_compatibility: false,
        }),
        stored(ProviderCredentialSlot::OAuth, "zeta-path"),
    );
    edited.apply_startup_responses_modes(&modes);
    assert!(matches!(
        edited.get("zeta"),
        Some(BuiltinProviderProfile::Chatgpt(profile)) if profile.responses_lite_compatibility
    ));
}

#[test]
fn a_canceled_deadline_stays_canceled_when_its_request_is_armed_again() {
    let at = |nanos: u128| Moment { nanos };
    let arm = |id: &str, due: u128| PromptCredentialDeadlineCommand::Schedule {
        request_id: text(id),
        due: at(due),
    };
    let mut queue = PromptCredentialDeadlineQueue::new();
    queue.apply(arm("a", 10));
    queue.apply(arm("b", 5));
    queue.apply(PromptCredentialDeadlineCommand::Cancel(text("a")));
    queue.apply(arm("a", 20));
    assert_eq!(queue.pop_due(at(10)), vec![text("b")]);
    assert_eq!(queue.next_due().map(|due| due.nanos), Some(20));
    assert!(queue.pop_due(at(10)).is_empty());
    queue.apply(PromptCredentialDeadlineCommand::CancelAll);
    queue.apply(arm("a", 40));
    assert!(queue.pop_due(at(39)).is_empty());
    assert_eq!(queue.pop_due(at(40)), vec![text("a")]);
}

#[test]
fn a_request_that_was_armed_twice_expires_once_at_its_first_deadline() {
    let at = |nanos: u128| Moment { nanos };
    let mut queue = PromptCredentialDeadlineQueue::new();
    for (id, due) in [("a", 30), ("b", 20), ("a", 10)] {
        queue.apply(PromptCredentialDeadlineCommand::Schedule {
            request_id: text(id),
            due: at(due),
        });
    }
    assert_eq!(queue.pop_due(at(25)), vec![text("a"), text("b")]);
    assert!(queue.next_due().is_none());
    assert!(queue.pop_due(at(30)).is_empty());
}

#[test]
fn an_answered_request_never_times_out() {
    let at = |nanos: u128| Moment { nanos };
    let mut queue = PromptCredentialDeadlineQueue::new();
    for (id, due) in [("b", 20), ("a", 10), ("c", 20)] {
        queue.apply(PromptCredentialDeadlineCommand::Schedule {
            request_id: text(id),
            due: at(due),
        });
    }
    assert_eq!(queue.next_due().map(|due| due.nanos), Some(10));
    queue.apply(PromptCredentialDeadlineCommand::Cancel(text("a")));
    assert_eq!(queue.next_due().map(|due| due.nanos), Some(20));
    assert!(queue.pop_due(at(19)).is_empty());
    assert_eq!(queue.pop_due(at(20)), vec![text("b"), text("c")]);
    assert!(queue.pop_due(at(1_000)).is_empty());
    queue.apply(PromptCredentialDeadlineCommand::Schedule {
        request_id: text("d"),
        due: at(30),
    });
    queue.apply(PromptCredentialDeadlineCommand::CancelAll);
    assert!(queue.next_due().is_none());
}
