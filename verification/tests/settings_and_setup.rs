//! Provider settings, profile setup, and the provider commands.

use tau_ext_provider_builtin::cli::{
    authenticated_notice, check_login_arity, choose_subcommand, find_kind, list_profiles,
    login_declined, login_profile, offer_login_for_existing_config_profile, parse_add_args,
    parse_list_args, parse_remove_args, provider_cli_entry_is_builtin, provider_cli_help,
    provider_cli_target, provider_kinds, provider_login_command, registered_notice,
    removal_notice, rename_names, rename_notice, show_profile, single_name, AddRequest,
    ExistingLogin, ExtensionEntry, LoginAction, OAuthRecord, ProfileFailure, ProfileSource,
    ProfileTarget, ProviderKind, ShowFailure, StoredProfile, Subcommand,
};
use tau_ext_provider_builtin::names::NameTable;
use tau_ext_provider_builtin::oauth::OpenAiAuth;
use tau_ext_provider_builtin::profiles::{
    BuiltinProviderProfile, ChatGptProfile, GenericRoute, ModelEntry, ProviderCredential,
    ProviderCredentialReference, ProviderCredentialSlot, SummaryCompactionConfigError,
};
use tau_ext_provider_builtin::settings::{
    credential_placeholder, parse_settings_profile, profile_document, read_settings_document,
    validate_configure_settings, CredentialPlaceholder, ProviderSettingsValidationReason,
    SettingsDocument, SettingsFile, SettingsReading, SettingsSnapshotError,
};
use tau_ext_provider_builtin::setup::{
    api_key_choices, api_key_record, check_login_state, configured_named_secret,
    credential_publication, named_secret_at, openrouter_models, parse_model_list, plan_credential,
    provider_setup_payload, recommended_responses_transport, transport_choices,
    write_dotfiles_profile, ApiKeyChoice, ApiKeySource, CredentialKeeping, CredentialPublication,
    CredentialReferenceDocument, CredentialSetup, OpenRouterModels, ProviderSetupInput,
    ResponsesTransport, SetupError,
};

fn text(value: &str) -> String {
    value.to_owned()
}

fn args(values: &[&str]) -> Vec<String> {
    values.iter().map(|value| text(value)).collect()
}

fn bytes(value: &str) -> Vec<u8> {
    value.as_bytes().to_vec()
}

fn model(id: &str) -> ModelEntry {
    ModelEntry {
        id: text(id),
        supports_standalone_compaction: false,
        standalone_compaction_threshold: None,
        detail: 0,
        summary_error: None,
    }
}

fn route(base_url: &str, ids: &[&str]) -> GenericRoute {
    GenericRoute {
        base_url: text(base_url),
        api_key: String::new(),
        models: ids.iter().map(|id| model(id)).collect(),
        snapshot: 0,
        valid: true,
    }
}

fn chatgpt(lite: bool) -> BuiltinProviderProfile {
    BuiltinProviderProfile::Chatgpt(ChatGptProfile {
        auth: OpenAiAuth::empty(),
        responses_lite_compatibility: lite,
    })
}

fn stored(slot: ProviderCredentialSlot) -> ProviderCredential {
    ProviderCredential::Stored(ProviderCredentialReference { slot, path: text("providers/x") })
}

fn reading(profile: BuiltinProviderProfile, credential: ProviderCredential) -> SettingsReading {
    SettingsReading {
        obsolete_summary_fields: false,
        credential: Some(credential),
        profile: Some(profile),
    }
}

fn generic_reading() -> SettingsReading {
    reading(
        BuiltinProviderProfile::ChatCompletions(route("https://x.invalid", &["m"])),
        stored(ProviderCredentialSlot::ApiKey),
    )
}

fn refusal(contents: &str, reading: SettingsReading) -> Option<ProviderSettingsValidationReason> {
    parse_settings_profile(&bytes(contents), reading).err()
}

#[test]
fn settings_are_refused_in_order() {
    assert_eq!(refusal("{", generic_reading()), Some(ProviderSettingsValidationReason::InvalidJson));
    assert_eq!(refusal("", generic_reading()), Some(ProviderSettingsValidationReason::InvalidJson));
    assert_eq!(refusal("[1]", generic_reading()), Some(ProviderSettingsValidationReason::NotObject));
    for field in ["auth", "api_key", "api_key_secret"] {
        let contents = format!("{{\"{field}\": null, \"other\": 1}}");
        assert_eq!(
            refusal(&contents, generic_reading()),
            Some(ProviderSettingsValidationReason::CredentialFieldsPresent),
            "{field}"
        );
    }
    assert_eq!(
        refusal("{\"nested\": {\"auth\": 1}}", generic_reading()),
        None,
        "only the document's own fields count"
    );
    assert_eq!(
        refusal("{}", SettingsReading { obsolete_summary_fields: true, ..generic_reading() }),
        Some(ProviderSettingsValidationReason::ObsoleteLocalSummaryFields)
    );
    assert_eq!(
        refusal("{}", SettingsReading { credential: None, ..generic_reading() }),
        Some(ProviderSettingsValidationReason::InvalidCredentialReference)
    );
    assert_eq!(
        refusal("{}", SettingsReading { profile: None, ..generic_reading() }),
        Some(ProviderSettingsValidationReason::InvalidProfile)
    );
    let mut inconsistent = route("https://x.invalid", &["m"]);
    inconsistent.valid = false;
    assert_eq!(
        refusal(
            "{}",
            reading(
                BuiltinProviderProfile::Responses(inconsistent),
                ProviderCredential::Keyless
            )
        ),
        Some(ProviderSettingsValidationReason::InvalidProfile)
    );
    for (error, reason) in [
        (
            SummaryCompactionConfigError::MaxOutputTokensExceedContextWindow,
            ProviderSettingsValidationReason::LocalSummaryOutputTokensExceedContextWindow,
        ),
        (
            SummaryCompactionConfigError::MaxOutputBytesExceedNarrativeLimit,
            ProviderSettingsValidationReason::LocalSummaryOutputBytesExceedNarrativeLimit,
        ),
    ] {
        let mut limited = route("https://x.invalid", &["m", "n"]);
        limited.models[1].summary_error = Some(error);
        assert_eq!(
            refusal(
                "{}",
                reading(
                    BuiltinProviderProfile::ChatCompletions(limited),
                    ProviderCredential::Keyless
                )
            ),
            Some(reason)
        );
    }
}

#[test]
fn a_credential_must_fit_its_profile() {
    let router = || BuiltinProviderProfile::OpenRouter(route("https://openrouter.ai", &["m"]));
    let generic = || BuiltinProviderProfile::ChatCompletions(route("https://x", &["m"]));
    let responses = || BuiltinProviderProfile::Responses(route("https://x", &["m"]));
    let key = || stored(ProviderCredentialSlot::ApiKey);
    let oauth = || stored(ProviderCredentialSlot::OAuth);
    for (profile, credential, fits) in [
        (chatgpt(false), oauth(), true),
        (chatgpt(false), key(), false),
        (chatgpt(false), ProviderCredential::Keyless, false),
        (router(), key(), true),
        (router(), oauth(), false),
        (router(), ProviderCredential::Keyless, false),
        (generic(), key(), true),
        (generic(), oauth(), false),
        (generic(), ProviderCredential::Keyless, true),
        (responses(), key(), true),
        (responses(), oauth(), false),
        (responses(), ProviderCredential::Keyless, true),
    ] {
        assert_eq!(
            refusal("{}", reading(profile, credential)),
            if fits { None } else { Some(ProviderSettingsValidationReason::CredentialKindMismatch) }
        );
    }
    assert_eq!(credential_placeholder(&oauth()), CredentialPlaceholder::Auth);
    assert_eq!(credential_placeholder(&key()), CredentialPlaceholder::ApiKey);
    assert_eq!(
        credential_placeholder(&ProviderCredential::Keyless),
        CredentialPlaceholder::ApiKey
    );
}

fn file(name: &str, contents: &str) -> SettingsFile {
    SettingsFile {
        file_name: text(name),
        contents: bytes(contents),
        valid_namespace: true,
        reading: generic_reading(),
    }
}

#[test]
fn a_settings_snapshot_loads_all_or_nothing() {
    let loaded = validate_configure_settings(vec![file("b.json", "{}"), file("a.json", "{}")])
        .unwrap_or_else(|_| panic!("valid snapshot"));
    assert_eq!(loaded.len(), 2);
    assert_eq!(loaded.name_at(0), "a");
    assert_eq!(loaded.name_at(1), "b");
    assert!(loaded.stored_credential_path("a").is_some());

    let named = validate_configure_settings(vec![file("a.json", "{"), file("b.toml", "{}")]);
    assert!(
        matches!(named, Err(SettingsSnapshotError::InvalidFileName)),
        "names are checked before contents"
    );
    let mut reserved = file("a.json", "{}");
    reserved.valid_namespace = false;
    assert!(matches!(
        validate_configure_settings(vec![reserved]),
        Err(SettingsSnapshotError::InvalidFileName)
    ));
    let refused = validate_configure_settings(vec![
        file("a.json", "{}"),
        file("b.json", "[]"),
        file("c.json", "{"),
    ]);
    assert!(matches!(
        refused,
        Err(SettingsSnapshotError::InvalidProvider { provider, reason })
            if provider == "b" && reason == ProviderSettingsValidationReason::NotObject
    ));
}

fn reference() -> Option<CredentialReferenceDocument> {
    Some(CredentialReferenceDocument {
        path: text("providers/id/secret.json"),
        document: bytes("{\"kind\":\"stored\",\"id\":\"id\"}"),
    })
}

fn json(value: &str) -> serde_json::Value {
    serde_json::from_str(value).expect("printed settings are JSON")
}

#[test]
fn setup_publishes_settings_without_their_credential() {
    let payload = provider_setup_payload(
        &chatgpt(true),
        &bytes("{\"auth\":{\"access_token\":\"SECRET\"},\"responses_lite_compatibility\":true,\"kind\":\"chatgpt\"}"),
        ProviderSetupInput::ProfileOAuth,
        reference(),
        Some(bytes("record")),
    )
    .unwrap_or_else(|error| panic!("{}", error.text()));
    assert!(!payload.settings.contains("SECRET"));
    assert_eq!(
        json(&payload.settings),
        json("{\"responses_lite_compatibility\":true,\"kind\":\"chatgpt\",\"credential\":{\"kind\":\"stored\",\"id\":\"id\"}}")
    );
    assert!(payload.settings.contains("\n  \"credential\": {"), "settings are indented");
    match &payload.credential {
        CredentialSetup::Stored { path, contents, named_source } => {
            assert_eq!(path, "providers/id/secret.json");
            assert_eq!(contents, b"record");
            assert!(named_source.is_none());
        }
        _ => panic!("a stored record"),
    }
    assert_eq!(credential_publication(&payload.credential), CredentialPublication::Published);
}

#[test]
fn setup_of_an_api_key_profile_follows_its_source() {
    let generic = || BuiltinProviderProfile::ChatCompletions(route("https://x", &["m"]));
    let serialized = bytes("{\"api_key\":\"SECRET\",\"api_key_secret\":\"n\",\"base_url\":\"https://x\"}");
    let keyless = provider_setup_payload(
        &generic(),
        &serialized,
        ProviderSetupInput::ApiKey(ApiKeySource::Keyless),
        None,
        None,
    )
    .unwrap_or_else(|error| panic!("{}", error.text()));
    assert_eq!(
        json(&keyless.settings),
        json("{\"base_url\":\"https://x\",\"credential\":{\"kind\":\"none\"}}")
    );
    assert!(matches!(keyless.credential, CredentialSetup::Keyless));

    let deferred = provider_setup_payload(
        &generic(),
        &serialized,
        ProviderSetupInput::ApiKey(ApiKeySource::DeferredNamed { name: text("later") }),
        reference(),
        None,
    )
    .unwrap_or_else(|error| panic!("{}", error.text()));
    assert!(matches!(
        &deferred.credential,
        CredentialSetup::DeferredNamed { path } if path == "providers/id/secret.json"
    ));
    assert_eq!(credential_publication(&deferred.credential), CredentialPublication::Deferred);

    let named = provider_setup_payload(
        &generic(),
        &serialized,
        ProviderSetupInput::ApiKey(ApiKeySource::ConfiguredNamed {
            name: text("configured"),
            declaration: 4,
        }),
        reference(),
        Some(bytes("empty")),
    )
    .unwrap_or_else(|error| panic!("{}", error.text()));
    match named.credential {
        CredentialSetup::Stored { named_source: Some(source), .. } => {
            assert_eq!(source.name, "configured");
            assert_eq!(source.declaration, 4);
        }
        _ => panic!("a stored record of a named secret"),
    }
    match plan_credential(
        &generic(),
        &ProviderSetupInput::ApiKey(ApiKeySource::DeferredNamed { name: text("later") }),
    ) {
        Ok(CredentialKeeping::Stored { slot, named_source, deferred }) => {
            assert_eq!(slot, ProviderCredentialSlot::ApiKey);
            assert_eq!(named_source.as_deref(), Some("later"));
            assert!(deferred);
        }
        _ => panic!("a deferred record"),
    }
}

#[test]
fn setup_errors_have_their_inputs() {
    let generic = || BuiltinProviderProfile::ChatCompletions(route("https://x", &["m"]));
    let router = || BuiltinProviderProfile::OpenRouter(route("https://x", &["m"]));
    let direct = || ProviderSetupInput::ApiKey(ApiKeySource::Direct(text("key")));
    let make = |profile: &BuiltinProviderProfile,
                serialized: &str,
                input: ProviderSetupInput,
                reference: Option<CredentialReferenceDocument>,
                secret: Option<Vec<u8>>| {
        provider_setup_payload(profile, &bytes(serialized), input, reference, secret).err()
    };
    assert_eq!(
        make(&generic(), "{", direct(), reference(), Some(bytes("r"))),
        Some(SetupError::InvalidSettings)
    );
    assert_eq!(
        make(&generic(), "3", direct(), reference(), Some(bytes("r"))),
        Some(SetupError::NotObject)
    );
    assert_eq!(
        make(&chatgpt(false), "{}", direct(), reference(), Some(bytes("r"))),
        Some(SetupError::ChatGptRequiresOAuth)
    );
    assert_eq!(
        make(&generic(), "{}", ProviderSetupInput::ProfileOAuth, reference(), None),
        Some(SetupError::ApiKeyAuthorityRequired)
    );
    assert_eq!(
        make(
            &router(),
            "{}",
            ProviderSetupInput::ApiKey(ApiKeySource::Keyless),
            None,
            None
        ),
        Some(SetupError::OpenRouterRequiresApiKey)
    );
    assert_eq!(
        make(&generic(), "{}", direct(), None, Some(bytes("r"))),
        Some(SetupError::InvalidReference)
    );
    assert_eq!(
        make(&generic(), "{}", direct(), reference(), None),
        Some(SetupError::MissingCredentialBytes)
    );
    for (error, message) in [
        (SetupError::NotObject, "provider settings must serialize as an object"),
        (
            SetupError::ChatGptRequiresOAuth,
            "ChatGPT setup requires profile OAuth credentials",
        ),
        (
            SetupError::ApiKeyAuthorityRequired,
            "API-key provider setup requires an API-key authority",
        ),
        (SetupError::OpenRouterRequiresApiKey, "OpenRouter requires an API key"),
        (
            SetupError::MissingCredentialBytes,
            "stored credential setup requires credential bytes",
        ),
        (SetupError::InvalidSettings, "provider settings are not valid JSON"),
        (SetupError::InvalidReference, "provider credential reference is invalid"),
        (SetupError::UnprintableSettings, "provider settings cannot be printed"),
    ] {
        assert_eq!(error.text(), message);
    }
}

#[test]
fn api_key_sources_have_a_value_only_when_entered_now() {
    assert_eq!(ApiKeySource::Direct(text("key")).value(), "key");
    assert_eq!(ApiKeySource::Keyless.value(), "");
    assert_eq!(ApiKeySource::DeferredNamed { name: text("n") }.value(), "");
    assert_eq!(
        api_key_record(text("key"), &ApiKeySource::Direct(text("key"))).as_deref(),
        Some("key")
    );
    assert_eq!(
        api_key_record(text("key"), &ApiKeySource::DeferredNamed { name: text("n") }),
        None
    );
    assert_eq!(
        api_key_choices(true),
        vec![ApiKeyChoice::EnterNow, ApiKeyChoice::Named, ApiKeyChoice::Keyless]
    );
    assert_eq!(api_key_choices(false), vec![ApiKeyChoice::EnterNow, ApiKeyChoice::Named]);
}

#[test]
fn named_secrets_are_offered_in_order() {
    let mut declared = NameTable::new();
    declared.insert(text("zeta"), 2);
    declared.insert(text("alpha"), 1);
    assert!(matches!(
        named_secret_at(&declared, 0),
        Some(ApiKeySource::ConfiguredNamed { name, declaration: 1 }) if name == "alpha"
    ));
    assert!(named_secret_at(&declared, 2).is_none());
    assert!(matches!(
        configured_named_secret(&declared, "zeta"),
        Ok(source) if source.name == "zeta" && source.declaration == 2
    ));
    assert_eq!(
        configured_named_secret(&declared, "beta").err().as_deref(),
        Some("configured named secret 'beta' is not declared")
    );
}

#[test]
fn the_public_api_is_offered_websockets_first() {
    for (base_url, transport) in [
        ("https://api.openai.com/v1", ResponsesTransport::Websocket),
        ("https://api.openai.com/v1///", ResponsesTransport::Websocket),
        ("https://api.openai.com/v1/x", ResponsesTransport::Sse),
        ("http://api.openai.com/v1", ResponsesTransport::Sse),
        ("", ResponsesTransport::Sse),
    ] {
        assert_eq!(recommended_responses_transport(base_url), transport, "{base_url}");
        let (first, second) = transport_choices(base_url);
        assert_eq!(first, transport);
        assert_ne!(first, second);
    }
}

#[test]
fn model_lists_are_split_and_trimmed() {
    assert_eq!(
        parse_model_list(" gpt-4o, ,gpt-4o-mini,\t"),
        Some(args(&["gpt-4o", "gpt-4o-mini"]))
    );
    assert_eq!(parse_model_list(" , ,"), None);
    assert_eq!(parse_model_list(""), None);
    assert!(matches!(openrouter_models(" \n"), OpenRouterModels::Fetch));
    assert!(matches!(openrouter_models(","), OpenRouterModels::Missing));
    assert!(matches!(
        openrouter_models("a,b"),
        OpenRouterModels::Listed(names) if names == args(&["a", "b"])
    ));
}

#[test]
fn dotfiles_output_holds_the_settings_alone() {
    let (output, notice) = write_dotfiles_profile("{}", CredentialPublication::Published);
    assert_eq!(output, "{}\n");
    assert_eq!(
        notice,
        "Published the host-local credential; deploy this config profile before restart.\n"
    );
    assert_eq!(
        write_dotfiles_profile("{}", CredentialPublication::Deferred).1,
        "No host-local credential was written; declare and provide the named secret before restarting Tau.\n"
    );
    assert_eq!(
        write_dotfiles_profile("{}", CredentialPublication::Keyless).1,
        "This keyless profile needs no host-local credential; deploy it before restart.\n"
    );
}

#[test]
fn a_login_accepts_only_its_own_state() {
    assert!(check_login_state("state", "state").is_ok());
    assert_eq!(
        check_login_state("state", "other").err().as_deref(),
        Some("state mismatch \u{2014} possible CSRF attack or stale URL")
    );
}

#[test]
fn subcommands_have_their_names() {
    for (name, subcommand) in [
        ("add", Subcommand::Add),
        ("login", Subcommand::Login),
        ("remove", Subcommand::Remove),
        ("delete", Subcommand::Remove),
        ("rename", Subcommand::Rename),
        ("list", Subcommand::List),
        ("status", Subcommand::List),
        ("show", Subcommand::Show),
        ("help", Subcommand::Help),
        ("--help", Subcommand::Help),
        ("-h", Subcommand::Help),
    ] {
        assert_eq!(choose_subcommand(&args(&[name])), Ok(subcommand));
    }
    assert_eq!(choose_subcommand(&Vec::new()), Ok(Subcommand::Help));
    assert_eq!(
        choose_subcommand(&args(&["frobnicate"])),
        Err(text("unknown provider subcommand: frobnicate"))
    );
    assert!(provider_cli_help().starts_with("Usage: tau provider [--extension INSTANCE]"));
    assert!(provider_cli_help().ends_with("  openrouter        OpenRouter"));
    assert!(check_login_arity(&args(&["login", "x"])).is_ok());
    assert!(check_login_arity(&args(&["list"])).is_ok());
    assert_eq!(
        check_login_arity(&args(&["login"])),
        Err(text("tau provider login requires exactly one NAME"))
    );
    assert_eq!(
        single_name(&args(&["a", "b"]), Subcommand::Show),
        Err(text("tau provider show requires exactly one NAME"))
    );
    assert_eq!(single_name(&args(&["a"]), Subcommand::Login), Ok(text("a")));
    assert_eq!(rename_names(&args(&["a", "b"])), Ok((text("a"), text("b"))));
    assert_eq!(
        rename_names(&args(&["a"])),
        Err(text("tau provider rename requires OLD and NEW"))
    );
}

fn entry(name: &str) -> ExtensionEntry {
    ExtensionEntry {
        name: text(name),
        enable: None,
        role: None,
        has_command: false,
        has_suffix: false,
        suffix_is_provider: false,
    }
}

#[test]
fn only_the_builtin_provider_component_is_addressed() {
    let component = |name: &str| ExtensionEntry {
        role: Some(text("provider")),
        has_suffix: true,
        suffix_is_provider: true,
        ..entry(name)
    };
    assert!(provider_cli_entry_is_builtin(&entry("provider-builtin")));
    assert!(!provider_cli_entry_is_builtin(&entry("other")));
    assert!(provider_cli_entry_is_builtin(&component("other")));
    assert!(!provider_cli_entry_is_builtin(&ExtensionEntry {
        role: None,
        ..component("other")
    }));
    assert!(provider_cli_entry_is_builtin(&ExtensionEntry {
        role: None,
        ..component("provider-builtin")
    }));
    for refused in [
        ExtensionEntry { enable: Some(false), ..component("other") },
        ExtensionEntry { role: Some(text("tool")), ..component("other") },
        ExtensionEntry { has_command: true, ..component("other") },
        ExtensionEntry { suffix_is_provider: false, ..component("other") },
        ExtensionEntry { has_command: true, ..entry("provider-builtin") },
    ] {
        assert!(!provider_cli_entry_is_builtin(&refused));
    }

    let entries = vec![component("work"), ExtensionEntry {
        enable: Some(false),
        ..component("off")
    }];
    let valid = NameTable::new();
    assert_eq!(
        provider_cli_target(&args(&["--extension", "work", "list"]), &entries, &valid),
        Ok((text("work"), args(&["list"])))
    );
    assert_eq!(
        provider_cli_target(&args(&["list"]), &entries, &valid),
        Ok((text("provider-builtin"), args(&["list"])))
    );
    assert_eq!(
        provider_cli_target(&args(&["--extension"]), &entries, &valid),
        Err(text("--extension requires an exact configured instance name"))
    );
    assert_eq!(
        provider_cli_target(&args(&["--extension", "off"]), &entries, &valid),
        Err(text("extension instance 'off' is missing, disabled, or is not the built-in provider component with role 'provider'"))
    );
    let disabled = vec![ExtensionEntry { enable: Some(false), ..entry("provider-builtin") }];
    assert_eq!(
        provider_cli_target(&args(&["list"]), &disabled, &valid),
        Err(text("the default provider-builtin extension is disabled"))
    );
    let mut invalid = NameTable::new();
    invalid.insert(text("work"), text("bad name"));
    assert_eq!(
        provider_cli_target(&args(&["--extension", "work", "list"]), &entries, &invalid),
        Err(text("invalid provider extension instance: bad name"))
    );
    assert_eq!(
        provider_cli_target(&args(&["list"]), &entries, &invalid),
        Ok((text("provider-builtin"), args(&["list"])))
    );
}

#[test]
fn add_arguments_choose_target_and_kind() {
    let request = |target, implicit_state_target, kind| {
        Ok(AddRequest { target, implicit_state_target, kind })
    };
    assert_eq!(parse_add_args(&args(&[])), request(ProfileTarget::State, true, None));
    assert_eq!(
        parse_add_args(&args(&["chatgpt"])),
        request(ProfileTarget::State, true, Some(ProviderKind::Chatgpt))
    );
    assert_eq!(
        parse_add_args(&args(&["--state", "responses"])),
        request(ProfileTarget::State, false, Some(ProviderKind::Responses))
    );
    assert_eq!(
        parse_add_args(&args(&["openrouter", "--config"])),
        request(ProfileTarget::Config, false, Some(ProviderKind::OpenRouter))
    );
    assert_eq!(
        parse_add_args(&args(&["--config", "--output", "-", "chat-completions"])),
        request(ProfileTarget::Stdout, false, Some(ProviderKind::ChatCompletions))
    );
    for (arguments, message) in [
        (args(&["--state", "--config"]), "provider add accepts exactly one source flag"),
        (args(&["--config", "--config"]), "provider add accepts exactly one source flag"),
        (
            args(&["--config", "--output", "-", "--output", "-"]),
            "provider add accepts --output - only once",
        ),
        (args(&["--output", "x"]), "unknown provider add option '--output'"),
        (args(&["--output"]), "unknown provider add option '--output'"),
        (args(&["-x"]), "unknown provider add option '-x'"),
        (args(&["--output", "-"]), "--output - requires --config"),
        (args(&["--state", "--output", "-"]), "--output - requires --config"),
        (
            args(&["gpt"]),
            "unknown provider kind 'gpt'; valid kinds: chatgpt, chat-completions, responses, openrouter",
        ),
        (args(&["chatgpt", "responses"]), "tau provider add accepts at most one KIND"),
    ] {
        assert_eq!(parse_add_args(&arguments), Err(text(message)), "{arguments:?}");
    }
    for kind in provider_kinds() {
        assert_eq!(find_kind(kind.token()), Some(kind));
    }
    assert_eq!(
        provider_kinds().iter().map(|kind| kind.label()).collect::<Vec<_>>(),
        vec![
            "ChatGPT / Codex",
            "OpenAI-compatible Chat Completions",
            "OpenAI Responses API",
            "OpenRouter",
        ]
    );
}

#[test]
fn remove_and_list_arguments() {
    let parsed = parse_remove_args(&args(&["--config", "name"]))
        .unwrap_or_else(|message| panic!("{message}"));
    assert_eq!(parsed.source, Some(ProfileSource::Config));
    assert_eq!(parsed.name.as_deref(), Some("name"));
    let bare = parse_remove_args(&args(&[])).unwrap_or_else(|message| panic!("{message}"));
    assert_eq!(bare.source, None);
    assert_eq!(bare.name, None);
    for (arguments, message) in [
        (args(&["--state", "--state"]), "provider remove accepts exactly one source flag"),
        (args(&["-f"]), "unknown provider remove option '-f'"),
        (args(&["a", "b"]), "tau provider remove accepts one NAME"),
    ] {
        assert_eq!(parse_remove_args(&arguments).err().as_deref(), Some(message));
    }
    assert_eq!(parse_list_args(&args(&[])), Ok(None));
    assert_eq!(parse_list_args(&args(&["--all"])), Ok(None));
    assert_eq!(parse_list_args(&args(&["--config"])), Ok(Some(ProfileSource::Config)));
    assert_eq!(parse_list_args(&args(&["--state"])), Ok(Some(ProfileSource::State)));
    assert_eq!(
        parse_list_args(&args(&["--state", "--config"])),
        Err(text("tau provider list accepts one of --all, --config, or --state"))
    );
}

fn profile(name: &str, source: ProfileSource, reading: SettingsReading) -> StoredProfile {
    StoredProfile {
        provider: text(name),
        source,
        path: format!("/etc/{name}.json"),
        contents: bytes("{}"),
        reading,
        oauth: OAuthRecord::Missing,
        has_api_key: false,
        named_source: None,
    }
}

fn chatgpt_profile(name: &str, source: ProfileSource, oauth: OAuthRecord) -> StoredProfile {
    StoredProfile {
        oauth,
        ..profile(
            name,
            source,
            reading(chatgpt(false), stored(ProviderCredentialSlot::OAuth)),
        )
    }
}

#[test]
fn listing_prints_one_line_per_profile() {
    let profiles = || {
        vec![
            chatgpt_profile("gpt", ProfileSource::State, OAuthRecord::Unexpired),
            StoredProfile {
                oauth: OAuthRecord::Expired,
                ..profile(
                    "lite",
                    ProfileSource::Config,
                    reading(chatgpt(true), stored(ProviderCredentialSlot::OAuth)),
                )
            },
            StoredProfile {
                has_api_key: true,
                ..profile(
                    "local",
                    ProfileSource::Config,
                    reading(
                        BuiltinProviderProfile::ChatCompletions(route("http://l/v1", &["a", "b"])),
                        stored(ProviderCredentialSlot::ApiKey),
                    ),
                )
            },
            profile(
                "router",
                ProfileSource::State,
                reading(
                    BuiltinProviderProfile::OpenRouter(route("unused", &["r"])),
                    stored(ProviderCredentialSlot::ApiKey),
                ),
            ),
            StoredProfile {
                has_api_key: true,
                ..profile(
                    "resp",
                    ProfileSource::State,
                    reading(
                        BuiltinProviderProfile::Responses(route("https://r/v1", &[])),
                        ProviderCredential::Keyless,
                    ),
                )
            },
        ]
    };
    let (all, failure) = list_profiles("provider-builtin", None, profiles());
    assert!(failure.is_none());
    assert_eq!(
        all,
        "provider-builtin\tgpt\tchatgpt\tlogged-in\tresponses-standard\tstate\n\
         provider-builtin\tlite\tchatgpt\texpired\tresponses-lite-compatibility\tconfig\tlogin: tau provider login lite\n\
         provider-builtin\tlocal\tchat_completions\thttp://l/v1\ta,b\tapi-key\tconfig\n\
         provider-builtin\trouter\topenrouter\thttps://openrouter.ai/api/v1\tr\tno-api-key\tstate\n\
         provider-builtin\tresp\tresponses\thttps://r/v1\t\tno-api-key\tstate\n"
    );
    let (config, _) = list_profiles("work", Some(ProfileSource::Config), profiles());
    assert_eq!(
        config,
        "work\tlite\tchatgpt\texpired\tresponses-lite-compatibility\tconfig\tlogin: tau provider --extension work login lite\n\
         work\tlocal\tchat_completions\thttp://l/v1\ta,b\tapi-key\tconfig\n"
    );
    let (none, _) = list_profiles("work", None, Vec::new());
    assert_eq!(none, "No providers configured.\n");
}

#[test]
fn listing_stops_at_an_invalid_profile() {
    let mut broken = profile("broken", ProfileSource::State, generic_reading());
    broken.contents = bytes("{");
    let (output, failure) = list_profiles(
        "provider-builtin",
        None,
        vec![
            chatgpt_profile("gpt", ProfileSource::State, OAuthRecord::Missing),
            broken,
            chatgpt_profile("after", ProfileSource::State, OAuthRecord::Missing),
        ],
    );
    assert_eq!(
        output,
        "provider-builtin\tgpt\tchatgpt\tnot-configured\tresponses-standard\tstate\tlogin: tau provider login gpt\n"
    );
    let failure = failure.expect("the broken profile");
    assert!(matches!(
        &failure,
        ProfileFailure::Invalid { reason, .. }
            if *reason == ProviderSettingsValidationReason::InvalidJson
    ));
    assert_eq!(
        failure.text("invalid JSON"),
        "provider profile 'broken' is invalid: invalid JSON (source=state, path=/etc/broken.json)"
    );
}

#[test]
fn show_prints_indented_settings_and_their_source() {
    let mut shown = profile("x", ProfileSource::Config, generic_reading());
    shown.contents = bytes("{\"b\":[1],\"a\":2}");
    let mut broken = profile("broken", ProfileSource::Config, generic_reading());
    broken.contents = bytes("nope");
    let profiles = vec![shown, broken];
    match show_profile(&profiles, "x") {
        Ok(text) => assert_eq!(
            text,
            "source: config\npath: /etc/x.json\n{\n  \"a\": 2,\n  \"b\": [\n    1\n  ]\n}\n"
        ),
        Err(_) => panic!("a shown profile"),
    }
    assert!(matches!(show_profile(&profiles, "broken"), Err(ShowFailure::InvalidJson)));
    assert!(matches!(
        show_profile(&profiles, "y"),
        Err(ShowFailure::Message(message)) if message == "provider profile 'y' is not configured"
    ));
}

fn message(failure: Option<ProfileFailure>) -> Option<String> {
    failure.map(|failure| failure.text("reason"))
}

#[test]
fn login_publishes_to_the_only_profile() {
    let generic = || StoredProfile {
        named_source: Some(text("source")),
        ..profile("local", ProfileSource::State, generic_reading())
    };
    assert!(matches!(
        login_profile("gpt", vec![
            generic(),
            chatgpt_profile("gpt", ProfileSource::State, OAuthRecord::Missing)
        ]),
        Ok(LoginAction::OAuth { path }) if path == "providers/x"
    ));
    assert!(matches!(
        login_profile("local", vec![generic()]),
        Ok(LoginAction::ApiKey { path, named_source })
            if path == "providers/x" && named_source.as_deref() == Some("source")
    ));
    assert_eq!(
        message(login_profile("none", vec![generic()]).err()).as_deref(),
        Some("provider profile 'none' is not configured")
    );
    assert_eq!(
        message(login_profile("local", vec![generic(), generic()]).err()).as_deref(),
        Some("provider profile 'local' is duplicated across config and state")
    );
    let keyless = profile(
        "local",
        ProfileSource::State,
        reading(
            BuiltinProviderProfile::Responses(route("x", &["m"])),
            ProviderCredential::Keyless,
        ),
    );
    assert_eq!(
        message(login_profile("local", vec![keyless]).err()).as_deref(),
        Some("provider profile 'local' is keyless and does not require login")
    );
}

#[test]
fn an_existing_config_profile_is_offered_a_login() {
    let offer = |profiles: Vec<StoredProfile>, interactive: bool| {
        offer_login_for_existing_config_profile("provider-builtin", "gpt", profiles, interactive)
    };
    assert!(matches!(offer(Vec::new(), true), Ok(ExistingLogin::Absent)));
    assert!(matches!(
        offer(
            vec![chatgpt_profile("gpt", ProfileSource::State, OAuthRecord::Missing)],
            true
        ),
        Ok(ExistingLogin::Absent)
    ));
    let config =
        |record: OAuthRecord| vec![chatgpt_profile("gpt", ProfileSource::Config, record)];
    assert!(matches!(
        offer(config(OAuthRecord::Expired), true),
        Ok(ExistingLogin::Ask(prompt)) if prompt
            == "Provider 'gpt' already exists in config and needs authentication. Log in now?"
    ));
    assert_eq!(
        message(offer(config(OAuthRecord::Missing), false).err()).as_deref(),
        Some("provider 'gpt' already exists in config and needs authentication; run `tau provider login gpt`")
    );
    assert_eq!(
        message(offer(config(OAuthRecord::Unexpired), true).err()).as_deref(),
        Some("provider 'gpt' already exists in config and is authenticated; use `tau provider login gpt` to refresh its credentials")
    );
    assert_eq!(
        message(
            offer(vec![profile("gpt", ProfileSource::Config, generic_reading())], true).err()
        )
        .as_deref(),
        Some("provider 'gpt' already exists in config")
    );
    assert_eq!(
        login_declined("work", "gpt"),
        "provider authentication cancelled; run `tau provider --extension work login gpt` when ready"
    );
}

#[test]
fn notices_name_what_was_done() {
    assert_eq!(provider_login_command("provider-builtin", "x"), "tau provider login x");
    assert_eq!(
        authenticated_notice("work", "x"),
        "Authenticated provider 'x' for extension 'work'; settings were unchanged."
    );
    assert_eq!(removal_notice("x", true), "Removed provider profile 'x'.");
    assert_eq!(removal_notice("x", false), "Provider profile 'x' was not configured.");
    assert_eq!(
        rename_notice(ProfileSource::State, "a", "b"),
        "Renamed state provider profile 'a' to 'b'; credentials were unchanged."
    );
    assert_eq!(
        registered_notice("work", "x", ProfileSource::Config, "/p"),
        "Provider 'x' registered for extension 'work' in config. Settings: /p"
    );
}

fn parsed(document: &str) -> serde_json::Value {
    serde_json::from_str(document).expect("a JSON document")
}

#[test]
fn a_profile_is_decoded_with_an_empty_credential() {
    let settings = bytes("{\"kind\":\"chatgpt\",\"credential\":{\"id\":1},\"n\":[1.5]}");
    let oauth = stored(ProviderCredentialSlot::OAuth);
    let document = profile_document(&settings, &oauth).expect("a document");
    assert_eq!(parsed(&document), parsed("{\"kind\":\"chatgpt\",\"auth\":{},\"n\":[1.5]}"));
    for credential in [stored(ProviderCredentialSlot::ApiKey), ProviderCredential::Keyless] {
        let document = profile_document(&settings, &credential).expect("a document");
        assert_eq!(
            parsed(&document),
            parsed("{\"kind\":\"chatgpt\",\"api_key\":\"\",\"n\":[1.5]}")
        );
    }
    assert!(profile_document(&bytes("[]"), &oauth).is_none());
    assert!(profile_document(&bytes("{"), &oauth).is_none());
}

#[test]
fn published_settings_load_as_the_profile_that_was_set_up() {
    let serialized =
        "{\"kind\":\"responses\",\"base_url\":\"u\",\"api_key\":\"k\",\"api_key_secret\":\"s\"}";
    let payload = provider_setup_payload(
        &BuiltinProviderProfile::Responses(route("u", &["m"])),
        &bytes(serialized),
        ProviderSetupInput::ApiKey(ApiKeySource::Direct(text("k"))),
        Some(CredentialReferenceDocument {
            path: text("providers/r"),
            document: bytes("{\"kind\":\"stored\"}"),
        }),
        Some(bytes("record")),
    )
    .ok()
    .expect("a payload");
    assert!(!payload.settings.contains("api_key"));
    assert_eq!(
        read_settings_document(&bytes(&payload.settings)),
        SettingsDocument::Object { holds_credential: false }
    );
    let document =
        profile_document(&bytes(&payload.settings), &stored(ProviderCredentialSlot::ApiKey))
            .expect("a document");
    assert_eq!(
        parsed(&document),
        parsed("{\"kind\":\"responses\",\"base_url\":\"u\",\"api_key\":\"\"}")
    );
}
