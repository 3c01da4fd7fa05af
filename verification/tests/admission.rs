//! Prompts that wait for their stored credential, in source order.

use tau_ext_provider_builtin::clock::{Moment, Span};
use tau_ext_provider_builtin::credentials::content_generation;
use tau_ext_provider_builtin::deadline::PromptCredentialDeadlineCommand;
use tau_ext_provider_builtin::event_loop::{run, LoopEnd, LoopInput, LoopRound, WorkerMessage};
use tau_ext_provider_builtin::exchange::{prompt_oauth_cas_requires_reload, SecretPayload};
use tau_ext_provider_builtin::models::ChatGptCatalog;
use tau_ext_provider_builtin::names::NameTable;
use tau_ext_provider_builtin::oauth::{JwtClaims, OAuthError, OAuthTokenRefresh, OpenAiAuth};
use tau_ext_provider_builtin::profiles::{
    BuiltinProviderProfile, BuiltinProviderProfiles, ChatGptProfile, GenericRoute, ModelEntry,
    ProviderCredential, ProviderCredentialReference, ProviderCredentialSlot, SecretReply,
};
use tau_ext_provider_builtin::prompt::{
    ModelId, Prompt, PromptBackend, PromptJob, PromptOperation,
};
use tau_ext_provider_builtin::quota::QuotaLimits;
use tau_ext_provider_builtin::report::Report;
use tau_ext_provider_builtin::routes::Now;
use tau_ext_provider_builtin::runtime::{prompt_concurrency_limit, Effect, ProviderRuntime};

fn text(value: &str) -> String {
    value.to_owned()
}

fn auth(token: &str, expires_at_ms: u64) -> OpenAiAuth {
    OpenAiAuth {
        access_token: text(token),
        refresh_token: text("refresh"),
        expires_at_ms,
        account_id: Some(text("account")),
    }
}

fn model(id: &str) -> ModelEntry {
    ModelEntry {
        id: text(id),
        supports_standalone_compaction: false,
        standalone_compaction_threshold: None,
        detail: 0,
        summary_error: None,
    }
}

fn settings() -> BuiltinProviderProfiles {
    let mut profiles = BuiltinProviderProfiles::new();
    profiles.insert(
        text("chatgpt"),
        BuiltinProviderProfile::Chatgpt(ChatGptProfile {
            auth: OpenAiAuth::empty(),
            responses_lite_compatibility: false,
        }),
        ProviderCredential::Stored(ProviderCredentialReference {
            slot: ProviderCredentialSlot::OAuth,
            path: text("oauth-path"),
        }),
    );
    profiles.insert(
        text("keyless"),
        BuiltinProviderProfile::ChatCompletions(GenericRoute {
            base_url: text("http://local"),
            api_key: String::new(),
            models: vec![model("m")],
            snapshot: 0,
            valid: true,
        }),
        ProviderCredential::Keyless,
    );
    profiles
}

fn prompt(id: &str, provider: &str, model: &str) -> Prompt {
    Prompt {
        agent_prompt_id: text(id),
        agent_id: text("agent-1"),
        session_id: text("session-1"),
        originator: text("user"),
        model: ModelId { provider: text(provider), model: text(model) },
        operation: PromptOperation::Inference,
        tools_ref: Some(4),
        content: 0,
    }
}

struct World {
    runtime: ProviderRuntime,
    started: Vec<PromptJob>,
    effects: Vec<Effect>,
    reports: Vec<Report>,
    end: Option<LoopEnd>,
}

impl World {
    fn new() -> World {
        let catalog = ChatGptCatalog { standard: vec![model("gpt")], lite: vec![model("gpt")] };
        let limits = QuotaLimits { max_windows: 4, max_bindings: 4 };
        World {
            runtime: ProviderRuntime::new(settings(), true, 4, 2, catalog, limits),
            started: Vec::new(),
            effects: Vec::new(),
            reports: Vec::new(),
            end: None,
        }
    }

    fn step(&mut self, input: Option<LoopInput>, workers: Vec<WorkerMessage>) {
        let mut rounds = Vec::new();
        rounds.push(LoopRound {
            input,
            workers,
            now: Now { moment: Moment { nanos: 1_000 }, unix_ms: 1_000 },
        });
        let (effects, end) = run(&mut self.runtime, rounds, &JwtClaims::new());
        self.end = end;
        for effect in effects {
            match effect {
                Effect::StartPrompt { job, .. } => self.started.push(job),
                Effect::Report(report) => self.reports.push(report),
                effect => self.effects.push(effect),
            }
        }
    }

    fn create(&mut self, id: &str, provider: &str, model: &str, read_id: &str) {
        self.step(
            Some(LoopInput::PromptCreated {
                prompt: prompt(id, provider, model),
                read_id: text(read_id),
            }),
            Vec::new(),
        );
    }

    fn answer(&mut self, request_id: &str, payload: SecretPayload, next_id: &str) {
        self.step(
            Some(LoopInput::Storage {
                request_id: text(request_id),
                payload,
                next_id: text(next_id),
            }),
            Vec::new(),
        );
    }

    fn reads(&self) -> Vec<(String, String)> {
        self.effects
            .iter()
            .filter_map(|effect| match effect {
                Effect::ReadCredential { request_id, path } => {
                    Some((request_id.clone(), path.clone()))
                }
                _ => None,
            })
            .collect()
    }
}

fn contents(bytes: &str, auth: OpenAiAuth) -> SecretPayload {
    SecretPayload::Contents {
        contents: bytes.as_bytes().to_vec(),
        oauth: Some(auth),
        api_key: None,
    }
}

#[test]
fn a_prompt_starts_with_the_credential_that_storage_returns() {
    let mut world = World::new();
    world.create("p", "chatgpt", "gpt", "r1");
    assert_eq!(world.reads(), vec![(text("r1"), text("oauth-path"))]);
    assert!(world.started.is_empty());
    assert!(world.effects.iter().any(|effect| matches!(
        effect,
        Effect::Deadline(PromptCredentialDeadlineCommand::Schedule { request_id, due })
            if request_id == "r1" && due.nanos == 1_000 + Span::from_secs(30).nanos
    )));
    world.answer("unknown", contents("x", auth("nobody", u64::MAX)), "n");
    assert!(world.started.is_empty());
    world.answer("r1", contents("x", auth("stored", u64::MAX)), "n");
    assert_eq!(world.started.len(), 1);
    assert!(matches!(
        &world.started[0].backend,
        PromptBackend::Responses(config) if config.access_token == "stored"
    ));
    assert_eq!(world.started[0].prompt.tools_ref, None, "the transport reference is dropped");
    assert!(world.reports.iter().any(|report| matches!(
        report,
        Report::PromptSubmitted { agent_prompt_id, .. } if agent_prompt_id == "p"
    )));
}

#[test]
fn admissions_keep_source_order() {
    let mut world = World::new();
    world.create("first", "chatgpt", "gpt", "r1");
    world.create("second", "keyless", "m", "unused");
    assert!(world.started.is_empty(), "a ready prompt waits for the one before it");
    world.answer("r1", contents("x", auth("stored", u64::MAX)), "n");
    let order = world
        .started
        .iter()
        .map(|job| job.agent_prompt_id.clone())
        .collect::<Vec<_>>();
    assert_eq!(order, vec![text("first"), text("second")]);
}

#[test]
fn a_keyless_prompt_starts_at_once() {
    let mut world = World::new();
    world.create("p", "keyless", "m", "unused");
    assert_eq!(world.started.len(), 1);
    assert!(world.reads().is_empty());
}

#[test]
fn a_lost_credential_leaves_the_prompt_unavailable() {
    let mut world = World::new();
    world.create("p", "chatgpt", "gpt", "r1");
    world.answer("r1", SecretPayload::NotFound, "n");
    assert!(matches!(
        &world.started[0].backend,
        PromptBackend::Unavailable { login_required: Some(provider) } if provider == "chatgpt"
    ));
    let mut timed_out = World::new();
    timed_out.create("p", "chatgpt", "gpt", "r1");
    timed_out.step(
        None,
        vec![WorkerMessage::CredentialTimeout { request_id: text("r1") }],
    );
    assert!(matches!(
        &timed_out.started[0].backend,
        PromptBackend::Unavailable { login_required: None }
    ));
}

#[test]
fn a_canceled_admission_ends_without_a_start() {
    let mut world = World::new();
    world.create("p", "chatgpt", "gpt", "r1");
    world.step(
        Some(LoopInput::CancelPrompt { agent_prompt_id: Some(text("p")) }),
        Vec::new(),
    );
    assert!(world.effects.iter().any(|effect| matches!(
        effect,
        Effect::Deadline(PromptCredentialDeadlineCommand::Cancel(id)) if id == "r1"
    )));
    world.answer("r1", contents("x", auth("stored", u64::MAX)), "n");
    assert!(world.started.is_empty());
    world.step(Some(LoopInput::Closed), Vec::new());
    assert_eq!(world.end, Some(LoopEnd::Finished));
}

#[test]
fn an_expiring_token_is_refreshed_once_for_all_waiters() {
    let mut world = World::new();
    world.create("a", "chatgpt", "gpt", "r1");
    world.create("b", "chatgpt", "gpt", "r2");
    world.answer("r1", contents("x", auth("old", 1_001)), "n1");
    world.answer("r2", contents("x", auth("old", 1_001)), "n2");
    assert!(world.started.is_empty());
    let position = world
        .effects
        .iter()
        .position(|effect| matches!(effect, Effect::RefreshOAuth(_)))
        .expect("one refresh");
    let key = match world.effects.remove(position) {
        Effect::RefreshOAuth(start) => {
            assert_eq!(start.refresh_token, "refresh");
            start.key
        }
        _ => panic!("a refresh"),
    };
    assert_eq!(key.generation, content_generation(b"x"));
    assert!(!world.effects.iter().any(|effect| matches!(effect, Effect::RefreshOAuth(_))));
    world.step(
        None,
        vec![WorkerMessage::OAuthRefreshFinished {
            key,
            result: Ok(OAuthTokenRefresh {
                access_token: Some(text("new")),
                refresh_token: None,
                expires_at_ms: Some(9_000_000),
                account_id: Some(text("account")),
            }),
            request_id: text("swap"),
        }],
    );
    assert!(world.effects.iter().any(|effect| matches!(
        effect,
        Effect::SwapCredential { request_id, path, expected_generation, replacement }
            if request_id == "swap"
                && path == "oauth-path"
                && *expected_generation == content_generation(b"x")
                && replacement.access_token == "new"
    )));
    world.answer("swap", SecretPayload::Swapped, "reload");
    assert!(world.reads().contains(&(text("reload"), text("oauth-path"))));
    world.answer("reload", contents("y", auth("new", 9_000_000)), "n");
    assert_eq!(world.started.len(), 2);
    for job in &world.started {
        assert!(matches!(
            &job.backend,
            PromptBackend::Responses(config) if config.access_token == "new"
        ));
    }
}

#[test]
fn a_failed_refresh_keeps_a_still_valid_token() {
    let mut world = World::new();
    world.create("a", "chatgpt", "gpt", "r1");
    world.answer("r1", contents("x", auth("old", 2_000)), "n1");
    let position = world
        .effects
        .iter()
        .position(|effect| matches!(effect, Effect::RefreshOAuth(_)))
        .expect("one refresh");
    let Effect::RefreshOAuth(start) = world.effects.remove(position) else {
        panic!("a refresh");
    };
    world.step(
        None,
        vec![WorkerMessage::OAuthRefreshFinished {
            key: start.key,
            result: Err(OAuthError {
                message: text("temporarily unavailable"),
                permanent_refresh_rejection: false,
            }),
            request_id: text("swap"),
        }],
    );
    assert!(matches!(
        &world.started[0].backend,
        PromptBackend::Responses(config) if config.access_token == "old"
    ));
}

#[test]
fn a_swap_is_settled_by_a_reload() {
    assert!(prompt_oauth_cas_requires_reload(&SecretPayload::Swapped));
    assert!(prompt_oauth_cas_requires_reload(&SecretPayload::GenerationMismatch));
    assert!(!prompt_oauth_cas_requires_reload(&SecretPayload::NotFound));
    assert!(!prompt_oauth_cas_requires_reload(&SecretPayload::Unexpected));
    assert!(!prompt_oauth_cas_requires_reload(&SecretPayload::Failed));
}

#[test]
fn settings_are_accepted_once_and_declared_completely() {
    let mut world = World::new();
    let mut replies = NameTable::new();
    replies.insert(
        text("oauth-path"),
        SecretReply::Contents {
            contents: b"x".to_vec(),
            oauth: Some(auth("stored", u64::MAX)),
            api_key: None,
        },
    );
    world.step(
        Some(LoopInput::Configured { settings: settings(), replies }),
        Vec::new(),
    );
    assert!(world.runtime.configured);
    let declared = world
        .effects
        .iter()
        .find_map(|effect| match effect {
            Effect::Publication(publication) => publication.declared.as_ref(),
            _ => None,
        })
        .expect("a declaration");
    let ids = declared
        .iter()
        .map(|model| format!("{}/{}", model.id.provider, model.id.model))
        .collect::<Vec<_>>();
    assert_eq!(ids, vec!["chatgpt/gpt", "keyless/m"]);
    world.effects.clear();
    world.step(
        Some(LoopInput::Configured {
            settings: BuiltinProviderProfiles::new(),
            replies: NameTable::new(),
        }),
        Vec::new(),
    );
    assert_eq!(world.runtime.settings.len(), 2, "later settings are ignored");
}

#[test]
fn the_concurrency_override_must_be_a_positive_count() {
    for (value, limit) in [
        (None, 8),
        (Some("3"), 3),
        (Some("+3"), 3),
        (Some("0"), 8),
        (Some("-1"), 8),
        (Some("many"), 8),
        (Some(""), 8),
        (Some("99999999999999999999999999"), 8),
    ] {
        assert_eq!(prompt_concurrency_limit(&value.map(text)), limit, "{value:?}");
    }
}
