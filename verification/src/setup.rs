//! Provider setup: what a new or authenticated profile publishes.

use vstd::prelude::*;
use vstd::string::StringSliceAdditionalSpecFns;

use crate::json::{
    insert_member, is_object, json_document, json_members, json_pretty, json_text, pretty_text,
    prints, read_json, reads_back, remove_member, rereads,
};
use crate::names::NameTable;
use crate::oauth::AuthContent;
use crate::profiles::{
    BuiltinProviderProfile, ProfileContent, ProviderCredential, ProviderCredentialSlot,
    RouteContent,
};
use crate::retry::lookup;
use crate::settings::{
    credential_fits, decoded_members, holds_credential, placeholder_document, placeholder_of,
    settings_document, settings_verdict, CredentialPlaceholder, SettingsDocument, SettingsReading,
};
use crate::text::{
    only_the_trailing_character_is_taken, optional_text, same_text, split, split_text, texts,
    trim_text, trim_trailing, trimmed, without_trailing,
};

verus! {

/// Where an API key comes from: direct user input, an intentionally keyless profile, or a named
/// secret that is materialized now or at the next start.
pub enum ApiKeySource {
    /// A masked prompt supplied the value.
    Direct(String),
    /// The profile is genuinely keyless.
    Keyless,
    /// Trusted setup materialized this configured secret.
    ConfiguredNamed {
        /// Exact configured source name serialized into provider settings.
        name: String,
        /// Host handle of the declaration captured from the extension's configuration.
        declaration: u64,
    },
    /// The profile defers binding this source until persistent startup.
    DeferredNamed {
        /// Exact source name serialized into provider settings.
        name: String,
    },
}

/// The setup-time value of a source, empty where it is materialized later.
pub open spec fn source_value(source: ApiKeySource) -> Seq<char> {
    match source {
        ApiKeySource::Direct(value) => value@,
        _ => Seq::empty(),
    }
}

/// The configured name that a source is bound to.
pub open spec fn source_name(source: ApiKeySource) -> Option<Seq<char>> {
    match source {
        ApiKeySource::ConfiguredNamed { name, .. } => Some(name@),
        ApiKeySource::DeferredNamed { name } => Some(name@),
        _ => None,
    }
}

impl ApiKeySource {
    /// Returns the setup-time value or the empty materialization placeholder.
    pub fn value(&self) -> (res: String)
        ensures
            res@ == source_value(*self),
    {
        match self {
            ApiKeySource::Direct(value) => value.clone(),
            _ => {
                proof {
                    reveal_strlit("");
                }
                let empty = "".to_owned();
                assert(empty@ =~= Seq::<char>::empty());
                empty
            },
        }
    }

    /// Returns the configured name that this source is bound to.
    pub fn named(&self) -> (res: Option<String>)
        ensures
            optional_text(res) == source_name(*self),
    {
        match self {
            ApiKeySource::ConfiguredNamed { name, .. } => Some(name.clone()),
            ApiKeySource::DeferredNamed { name } => Some(name.clone()),
            _ => None,
        }
    }
}

/// The credential input accepted by profile setup.
pub enum ProviderSetupInput {
    /// Serialize the OAuth credential already present in a ChatGPT profile.
    ProfileOAuth,
    /// Apply one explicit API-key authority selection to an API-key profile.
    ApiKey(ApiKeySource),
}

/// Why a profile cannot be set up.
#[derive(Clone, Copy, Debug, PartialEq, Eq, Structural)]
pub enum SetupError {
    /// The serialized profile is not one JSON document.
    InvalidSettings,
    /// The serialized profile is not an object.
    NotObject,
    /// A ChatGPT profile was given an API key.
    ChatGptRequiresOAuth,
    /// An API-key profile was given no API-key authority.
    ApiKeyAuthorityRequired,
    /// An OpenRouter profile was made keyless.
    OpenRouterRequiresApiKey,
    /// There is no valid reference to the credential.
    InvalidReference,
    /// The edited settings cannot be printed.
    UnprintableSettings,
    /// The credential is published now, and its bytes are missing.
    MissingCredentialBytes,
}

impl SetupError {
    /// The message shown to the user.
    pub open spec fn message(self) -> Seq<char> {
        match self {
            SetupError::InvalidSettings => "provider settings are not valid JSON"@,
            SetupError::NotObject => "provider settings must serialize as an object"@,
            SetupError::ChatGptRequiresOAuth => "ChatGPT setup requires profile OAuth credentials"@,
            SetupError::ApiKeyAuthorityRequired =>
                "API-key provider setup requires an API-key authority"@,
            SetupError::OpenRouterRequiresApiKey => "OpenRouter requires an API key"@,
            SetupError::InvalidReference => "provider credential reference is invalid"@,
            SetupError::UnprintableSettings => "provider settings cannot be printed"@,
            SetupError::MissingCredentialBytes =>
                "stored credential setup requires credential bytes"@,
        }
    }

    /// Writes the message shown to the user.
    pub fn text(&self) -> (res: String)
        ensures
            res@ == self.message(),
    {
        match self {
            SetupError::InvalidSettings => "provider settings are not valid JSON".to_owned(),
            SetupError::NotObject => "provider settings must serialize as an object".to_owned(),
            SetupError::ChatGptRequiresOAuth =>
                "ChatGPT setup requires profile OAuth credentials".to_owned(),
            SetupError::ApiKeyAuthorityRequired =>
                "API-key provider setup requires an API-key authority".to_owned(),
            SetupError::OpenRouterRequiresApiKey => "OpenRouter requires an API key".to_owned(),
            SetupError::InvalidReference => "provider credential reference is invalid".to_owned(),
            SetupError::UnprintableSettings => "provider settings cannot be printed".to_owned(),
            SetupError::MissingCredentialBytes =>
                "stored credential setup requires credential bytes".to_owned(),
        }
    }
}

/// How the credential of a new profile is kept.
pub enum CredentialKeeping {
    /// No credential at all.
    Keyless,
    /// One stored record.
    Stored {
        slot: ProviderCredentialSlot,
        /// The configured name that the record is materialized from.
        named_source: Option<String>,
        /// The record is written at the next start, not now.
        deferred: bool,
    },
}

/// The content of a keeping.
pub enum KeepingContent {
    Keyless,
    Stored { slot: ProviderCredentialSlot, named_source: Option<Seq<char>>, deferred: bool },
}

impl CredentialKeeping {
    /// The content of this keeping.
    pub open spec fn content(self) -> KeepingContent {
        match self {
            CredentialKeeping::Keyless => KeepingContent::Keyless,
            CredentialKeeping::Stored { slot, named_source, deferred } => KeepingContent::Stored {
                slot,
                named_source: optional_text(named_source),
                deferred,
            },
        }
    }
}

/// How the credential of a profile set up with an input is kept.
pub open spec fn credential_keeping(profile: ProfileContent, input: ProviderSetupInput) -> Result<
    KeepingContent,
    SetupError,
> {
    match (profile, input) {
        (ProfileContent::Chatgpt { .. }, ProviderSetupInput::ProfileOAuth) => Ok(
            KeepingContent::Stored {
                slot: ProviderCredentialSlot::OAuth,
                named_source: None,
                deferred: false,
            },
        ),
        (ProfileContent::Chatgpt { .. }, ProviderSetupInput::ApiKey(_)) => Err(
            SetupError::ChatGptRequiresOAuth,
        ),
        (_, ProviderSetupInput::ProfileOAuth) => Err(SetupError::ApiKeyAuthorityRequired),
        (ProfileContent::OpenRouter(_), ProviderSetupInput::ApiKey(ApiKeySource::Keyless)) => Err(
            SetupError::OpenRouterRequiresApiKey,
        ),
        (_, ProviderSetupInput::ApiKey(ApiKeySource::Keyless)) => Ok(KeepingContent::Keyless),
        (_, ProviderSetupInput::ApiKey(source)) => Ok(
            KeepingContent::Stored {
                slot: ProviderCredentialSlot::ApiKey,
                named_source: source_name(source),
                deferred: source is DeferredNamed,
            },
        ),
    }
}

/// The outcome that a plan reports.
pub open spec fn planned(res: Result<CredentialKeeping, SetupError>) -> Result<
    KeepingContent,
    SetupError,
> {
    match res {
        Ok(keeping) => Ok(keeping.content()),
        Err(error) => Err(error),
    }
}

/// Plans how the credential of a profile is kept.
pub fn plan_credential(profile: &BuiltinProviderProfile, input: &ProviderSetupInput) -> (res:
    Result<CredentialKeeping, SetupError>)
    ensures
        planned(res) == credential_keeping(profile.content(), *input),
{
    match (profile, input) {
        (BuiltinProviderProfile::Chatgpt(_), ProviderSetupInput::ProfileOAuth) => Ok(
            CredentialKeeping::Stored {
                slot: ProviderCredentialSlot::OAuth,
                named_source: None,
                deferred: false,
            },
        ),
        (BuiltinProviderProfile::Chatgpt(_), ProviderSetupInput::ApiKey(_)) => Err(
            SetupError::ChatGptRequiresOAuth,
        ),
        (_, ProviderSetupInput::ProfileOAuth) => Err(SetupError::ApiKeyAuthorityRequired),
        (
            BuiltinProviderProfile::OpenRouter(_),
            ProviderSetupInput::ApiKey(ApiKeySource::Keyless),
        ) => Err(SetupError::OpenRouterRequiresApiKey),
        (_, ProviderSetupInput::ApiKey(ApiKeySource::Keyless)) => Ok(CredentialKeeping::Keyless),
        (_, ProviderSetupInput::ApiKey(source)) => Ok(
            CredentialKeeping::Stored {
                slot: ProviderCredentialSlot::ApiKey,
                named_source: source.named(),
                deferred: match source {
                    ApiKeySource::DeferredNamed { .. } => true,
                    _ => false,
                },
            },
        ),
    }
}

/// The value of the API-key record that setup writes now; `None` where it is deferred.
pub fn api_key_record(value: String, source: &ApiKeySource) -> (res: Option<String>)
    ensures
        res == if *source is DeferredNamed {
            None
        } else {
            Some(value)
        },
{
    match source {
        ApiKeySource::DeferredNamed { .. } => None,
        _ => Some(value),
    }
}

/// A reference to one stored credential.
pub struct CredentialReferenceDocument {
    /// Opaque path in secret storage.
    pub path: String,
    /// The reference as it stands in settings, in JSON.
    pub document: Vec<u8>,
}

/// A configured named secret, with the host handle of its declaration.
pub struct NamedSecretSource {
    pub name: String,
    pub declaration: u64,
}

/// What becomes of the credential when the settings are published.
pub enum CredentialSetup {
    Keyless,
    /// Only the binding is written.
    DeferredNamed { path: String },
    /// The record is written now.
    Stored { path: String, contents: Vec<u8>, named_source: Option<NamedSecretSource> },
}

/// Credential-free settings and what becomes of the credential.
pub struct ProviderSetupPayload {
    /// Credential-free provider settings.
    pub settings: String,
    pub credential: CredentialSetup,
}

/// The members of settings without the fields that hold this profile's credential.
pub open spec fn stripped_members(
    profile: ProfileContent,
    members: Map<Seq<char>, Seq<char>>,
) -> Map<Seq<char>, Seq<char>> {
    match profile {
        ProfileContent::Chatgpt { .. } => members.remove("auth"@),
        _ => members.remove("api_key"@).remove("api_key_secret"@),
    }
}

/// The settings of a keyless credential.
pub open spec fn keyless_document() -> Seq<u8> {
    "{\"kind\":\"none\"}".spec_bytes()
}

/// The bytes that stand for the credential in settings; `None` when there is no reference.
pub open spec fn credential_document(
    keeping: KeepingContent,
    reference: Option<CredentialReferenceDocument>,
) -> Option<Seq<u8>> {
    match (keeping, reference) {
        (KeepingContent::Keyless, _) => Some(keyless_document()),
        (KeepingContent::Stored { .. }, Some(reference)) => Some(reference.document@),
        (KeepingContent::Stored { .. }, None) => None,
    }
}

/// The members of published settings: the profile's own without its credential, and the reference.
pub open spec fn published_members(
    profile: ProfileContent,
    members: Map<Seq<char>, Seq<char>>,
    credential: Seq<char>,
) -> Map<Seq<char>, Seq<char>> {
    stripped_members(profile, members).insert("credential"@, credential)
}

/// The credential is kept as planned, with the reference and the record that were given.
pub open spec fn kept_as(
    keeping: KeepingContent,
    input: ProviderSetupInput,
    reference: Option<CredentialReferenceDocument>,
    secret: Option<Vec<u8>>,
    credential: CredentialSetup,
) -> bool {
    match keeping {
        KeepingContent::Keyless => credential is Keyless,
        KeepingContent::Stored { deferred: true, .. } => credential == (
        CredentialSetup::DeferredNamed { path: reference->0.path }),
        KeepingContent::Stored { deferred: false, .. } => match credential {
            CredentialSetup::Stored { path, contents, named_source } => {
                &&& path == reference->0.path
                &&& secret == Some(contents)
                &&& match (input, named_source) {
                    (
                        ProviderSetupInput::ApiKey(
                            ApiKeySource::ConfiguredNamed { name, declaration },
                        ),
                        Some(source),
                    ) => source.name@ == name@ && source.declaration == declaration,
                    (ProviderSetupInput::ApiKey(ApiKeySource::ConfiguredNamed { .. }), None) =>
                        false,
                    (_, source) => source is None,
                }
            },
            _ => false,
        },
    }
}

/// What the setup of a profile publishes. The checks are made in this order, and the first that
/// fails decides: the serialized profile, the credential input, the reference, the printing, and
/// the credential's record.
pub open spec fn payload_made(
    profile: ProfileContent,
    document: Option<Seq<char>>,
    input: ProviderSetupInput,
    reference: Option<CredentialReferenceDocument>,
    secret: Option<Vec<u8>>,
    res: Result<ProviderSetupPayload, SetupError>,
) -> bool {
    match document {
        None => res == Err::<ProviderSetupPayload, _>(SetupError::InvalidSettings),
        Some(text) => match json_members(text) {
            None => res == Err::<ProviderSetupPayload, _>(SetupError::NotObject),
            Some(members) => match credential_keeping(profile, input) {
                Err(error) => res == Err::<ProviderSetupPayload, _>(error),
                Ok(keeping) => match credential_document(keeping, reference) {
                    None => res == Err::<ProviderSetupPayload, _>(SetupError::InvalidReference),
                    Some(bytes) => match json_document(bytes) {
                        None => res == Err::<ProviderSetupPayload, _>(
                            SetupError::InvalidReference,
                        ),
                        Some(credential) => payload_printed(
                            keeping,
                            input,
                            reference,
                            secret,
                            published_members(profile, members, credential),
                            res,
                        ),
                    },
                },
            },
        },
    }
}

/// What is published once the settings' members are known.
pub open spec fn payload_printed(
    keeping: KeepingContent,
    input: ProviderSetupInput,
    reference: Option<CredentialReferenceDocument>,
    secret: Option<Vec<u8>>,
    members: Map<Seq<char>, Seq<char>>,
    res: Result<ProviderSetupPayload, SetupError>,
) -> bool {
    let record_missing = (keeping matches KeepingContent::Stored { deferred, .. } && !deferred)
        && secret is None;
    match res {
        Ok(payload) => {
            &&& !record_missing
            &&& prints(members, Some(payload.settings@))
            &&& kept_as(keeping, input, reference, secret, payload.credential)
        },
        Err(SetupError::UnprintableSettings) => prints(members, None),
        Err(SetupError::MissingCredentialBytes) => record_missing && exists|settings: Seq<char>|
            #[trigger] prints(members, Some(settings)),
        Err(_) => false,
    }
}

fn strip_credential(profile: &BuiltinProviderProfile, value: &mut serde_json::Value)
    requires
        json_members(json_text(*old(value))) is Some,
    ensures
        json_members(json_text(*final(value))) == Some(
            stripped_members(profile.content(), json_members(json_text(*old(value)))->0),
        ),
{
    match profile {
        BuiltinProviderProfile::Chatgpt(_) => {
            remove_member(value, "auth");
        },
        _ => {
            remove_member(value, "api_key");
            remove_member(value, "api_key_secret");
        },
    }
}

fn read_credential(
    keeping: &CredentialKeeping,
    reference: &Option<CredentialReferenceDocument>,
) -> (res: Option<serde_json::Value>)
    ensures
        match (credential_document(keeping.content(), *reference), res) {
            (Some(bytes), Some(value)) => json_document(bytes) == Some(json_text(value)),
            (Some(bytes), None) => json_document(bytes) is None,
            (None, value) => value is None,
        },
{
    match (keeping, reference) {
        (CredentialKeeping::Keyless, _) => read_json("{\"kind\":\"none\"}".as_bytes()),
        (CredentialKeeping::Stored { .. }, Some(reference)) => read_json(
            reference.document.as_slice(),
        ),
        (CredentialKeeping::Stored { .. }, None) => None,
    }
}

fn keep_credential(
    keeping: CredentialKeeping,
    input: ProviderSetupInput,
    reference: Option<CredentialReferenceDocument>,
    secret: Option<Vec<u8>>,
) -> (res: Option<CredentialSetup>)
    requires
        keeping.content() is Stored ==> reference is Some,
    ensures
        match res {
            Some(credential) => kept_as(keeping.content(), input, reference, secret, credential),
            None => secret is None && (keeping.content() matches KeepingContent::Stored {
                deferred,
                ..
            } && !deferred),
        },
        secret is None && (keeping.content() matches KeepingContent::Stored { deferred, .. }
            && !deferred) ==> res is None,
{
    match (keeping, reference) {
        (CredentialKeeping::Keyless, _) => Some(CredentialSetup::Keyless),
        (CredentialKeeping::Stored { deferred, .. }, Some(reference)) => {
            if deferred {
                return Some(CredentialSetup::DeferredNamed { path: reference.path });
            }
            match secret {
                None => None,
                Some(contents) => {
                    let named_source = match input {
                        ProviderSetupInput::ApiKey(
                            ApiKeySource::ConfiguredNamed { name, declaration },
                        ) => Some(NamedSecretSource { name, declaration }),
                        _ => None,
                    };
                    Some(CredentialSetup::Stored { path: reference.path, contents, named_source })
                },
            }
        },
        (CredentialKeeping::Stored { .. }, None) => None,
    }
}

/// Makes the settings and the credential plan of a profile, from its serialized form, the
/// reference to its credential, and the credential's record.
pub fn provider_setup_payload(
    profile: &BuiltinProviderProfile,
    serialized: &Vec<u8>,
    input: ProviderSetupInput,
    reference: Option<CredentialReferenceDocument>,
    secret: Option<Vec<u8>>,
) -> (res: Result<ProviderSetupPayload, SetupError>)
    ensures
        payload_made(
            profile.content(),
            json_document(serialized@),
            input,
            reference,
            secret,
            res,
        ),
{
    let mut value = match read_json(serialized.as_slice()) {
        None => {
            return Err(SetupError::InvalidSettings);
        },
        Some(value) => value,
    };
    if !is_object(&value) {
        return Err(SetupError::NotObject);
    }
    let ghost members = json_members(json_text(value))->0;
    let keeping = match plan_credential(profile, &input) {
        Err(error) => {
            return Err(error);
        },
        Ok(keeping) => keeping,
    };
    let credential = match read_credential(&keeping, &reference) {
        None => {
            return Err(SetupError::InvalidReference);
        },
        Some(credential) => credential,
    };
    strip_credential(profile, &mut value);
    let ghost text = json_text(credential);
    insert_member(&mut value, "credential", credential);
    let ghost published = published_members(profile.content(), members, text);
    assert(json_members(json_text(value)) == Some(published));
    let settings = match pretty_text(&value) {
        None => {
            assert(prints(published, None));
            return Err(SetupError::UnprintableSettings);
        },
        Some(settings) => settings,
    };
    assert(prints(published, Some(settings@)));
    match keep_credential(keeping, input, reference, secret) {
        None => Err(SetupError::MissingCredentialBytes),
        Some(credential) => Ok(ProviderSetupPayload { settings, credential }),
    }
}

/// The settings that setup publishes hold no credential. A serialized ChatGPT profile has an
/// `auth` field and no API key; every other one has API-key fields and no `auth`.
pub proof fn published_settings_hold_no_credential(
    profile: ProfileContent,
    members: Map<Seq<char>, Seq<char>>,
    credential: Seq<char>,
)
    requires
        profile is Chatgpt ==> !members.contains_key("api_key"@) && !members.contains_key(
            "api_key_secret"@,
        ),
        !(profile is Chatgpt) ==> !members.contains_key("auth"@),
    ensures
        !holds_credential(published_members(profile, members, credential)),
        published_members(profile, members, credential).contains_key("credential"@),
{
    reveal_strlit("auth");
    reveal_strlit("api_key");
    reveal_strlit("api_key_secret");
    reveal_strlit("credential");
    assert("credential"@[0] != "auth"@[0]);
    assert("credential"@[0] != "api_key"@[0]);
    assert("credential"@[0] != "api_key_secret"@[0]);
    assert("api_key"@.len() != "api_key_secret"@.len());
}

/// Setup changes no field of the settings but the credential's.
pub proof fn published_settings_keep_the_rest(
    profile: ProfileContent,
    members: Map<Seq<char>, Seq<char>>,
    credential: Seq<char>,
    name: Seq<char>,
)
    requires
        name != "auth"@ && name != "api_key"@ && name != "api_key_secret"@ && name
            != "credential"@,
    ensures
        published_members(profile, members, credential).contains_key(name)
            == members.contains_key(name),
        members.contains_key(name) ==> published_members(profile, members, credential)[name]
            == members[name],
{
}

/// What setup publishes is what loading decodes: the profile's own fields come back, with an empty
/// credential in place of the one that is kept elsewhere.
pub proof fn published_settings_decode_to_the_profile(
    profile: ProfileContent,
    members: Map<Seq<char>, Seq<char>>,
    credential: Seq<char>,
    empty: Seq<char>,
)
    requires
        !members.contains_key("credential"@),
    ensures
        profile is Chatgpt ==> decoded_members(
            published_members(profile, members, credential),
            CredentialPlaceholder::Auth,
            empty,
        ) == members.insert("auth"@, empty),
        !(profile is Chatgpt) ==> decoded_members(
            published_members(profile, members, credential),
            CredentialPlaceholder::ApiKey,
            empty,
        ) == members.remove("api_key_secret"@).insert("api_key"@, empty),
{
    reveal_strlit("api_key");
    reveal_strlit("api_key_secret");
    assert("api_key"@.len() != "api_key_secret"@.len());
    let published = published_members(profile, members, credential);
    if profile is Chatgpt {
        assert(decoded_members(published, CredentialPlaceholder::Auth, empty) =~= members.insert(
            "auth"@,
            empty,
        ));
    } else {
        assert(decoded_members(published, CredentialPlaceholder::ApiKey, empty)
            =~= members.remove("api_key_secret"@).insert("api_key"@, empty));
    }
}

/// A profile with its credential blanked.
pub open spec fn blanked(profile: ProfileContent) -> ProfileContent {
    match profile {
        ProfileContent::Chatgpt { lite_compatibility, .. } => ProfileContent::Chatgpt {
            auth: AuthContent {
                access_token: Seq::empty(),
                refresh_token: Seq::empty(),
                expires_at_ms: 0,
                account_id: None,
            },
            lite_compatibility,
        },
        ProfileContent::ChatCompletions(route) => ProfileContent::ChatCompletions(
            RouteContent { api_key: Seq::empty(), ..route },
        ),
        ProfileContent::OpenRouter(route) => ProfileContent::OpenRouter(
            RouteContent { api_key: Seq::empty(), ..route },
        ),
        ProfileContent::Responses(route) => ProfileContent::Responses(
            RouteContent { api_key: Seq::empty(), ..route },
        ),
    }
}

/// The members of a serialized profile whose credential gave way to an empty one.
pub open spec fn blanked_members(
    profile: ProfileContent,
    members: Map<Seq<char>, Seq<char>>,
    empty: Seq<char>,
) -> Map<Seq<char>, Seq<char>> {
    match profile {
        ProfileContent::Chatgpt { .. } => members.insert("auth"@, empty),
        _ => members.remove("api_key_secret"@).insert("api_key"@, empty),
    }
}

/// The published settings, where they are read at all, are an object with a reference to the
/// credential and without any field that would hold the credential itself.
pub proof fn published_settings_are_credential_free(
    profile: ProfileContent,
    members: Map<Seq<char>, Seq<char>>,
    credential: Seq<char>,
    settings: Seq<char>,
)
    requires
        prints(published_members(profile, members, credential), Some(settings)),
        profile is Chatgpt ==> !members.contains_key("api_key"@) && !members.contains_key(
            "api_key_secret"@,
        ),
        !(profile is Chatgpt) ==> !members.contains_key("auth"@),
    ensures
        match json_document(vstd::utf8::encode_utf8(settings)) {
            None => settings_document(vstd::utf8::encode_utf8(settings))
                == SettingsDocument::Invalid,
            Some(read) => {
                &&& settings_document(vstd::utf8::encode_utf8(settings)) == (
                SettingsDocument::Object { holds_credential: false })
                &&& json_members(read)->0.contains_key("credential"@)
            },
        },
{
    published_settings_hold_no_credential(profile, members, credential);
    let published = published_members(profile, members, credential);
    let text = choose|text: Seq<char>| #[trigger]
        json_members(text) == Some(published) && json_pretty(text) == Some(settings) && reads_back(
            text,
            settings,
        );
    if let Some(read) = json_document(vstd::utf8::encode_utf8(settings)) {
        let again = json_members(read)->0;
        assert(again.dom() == published.dom());
        assert(forall|name: Seq<char>| #[trigger]
            again.contains_key(name) == published.dom().contains(name)) by {
            assert forall|name: Seq<char>| #[trigger] again.contains_key(name)
                == published.dom().contains(name) by {
                assert(again.dom().contains(name) == published.dom().contains(name));
            }
        }
        assert(!published.contains_key("auth"@));
        assert(!published.contains_key("api_key"@));
        assert(!published.contains_key("api_key_secret"@));
    }
}

/// Setup round trip: where the settings that setup publishes are accepted on loading, they give
/// back the profile that was set up, with its credential blanked. `decode` is how the host decodes
/// a profile from the members of its serialized form: it gives back the blanked profile from the
/// profile's own members with an empty credential. The settings read back, and the host decodes
/// the reference to a credential that the profile can use.
pub proof fn published_settings_give_back_the_profile(
    profile: ProfileContent,
    text: Seq<char>,
    members: Map<Seq<char>, Seq<char>>,
    input: ProviderSetupInput,
    reference: Option<CredentialReferenceDocument>,
    secret: Option<Vec<u8>>,
    payload: ProviderSetupPayload,
    credential: ProviderCredential,
    empty: Seq<char>,
    reading: SettingsReading,
    decode: spec_fn(Map<Seq<char>, Seq<char>>) -> Option<ProfileContent>,
)
    requires
        payload_made(profile, Some(text), input, reference, secret, Ok(payload)),
        json_members(text) == Some(members),
        !members.contains_key("credential"@),
        forall|published: Seq<char>| #[trigger]
            json_pretty(published) == Some(payload.settings@) ==> rereads(published),
        reading.credential == Some(credential),
        credential_fits(profile, credential),
        json_document(placeholder_document(placeholder_of(credential))) == Some(empty),
        ({
            let read = json_document(vstd::utf8::encode_utf8(payload.settings@));
            reading.profile matches Some(decoded) && decode(
                decoded_members(json_members(read->0)->0, placeholder_of(credential), empty),
            ) == Some(decoded.content())
        }),
        decode(blanked_members(profile, members, empty)) == Some(blanked(profile)),
    ensures
        match settings_verdict(
            settings_document(vstd::utf8::encode_utf8(payload.settings@)),
            reading,
        ) {
            Ok(loaded) => loaded.profile == blanked(profile) && loaded.credential == credential,
            Err(_) => true,
        },
{
    let keeping = credential_keeping(profile, input)->Ok_0;
    let document = json_document(credential_document(keeping, reference)->0)->0;
    let published = published_members(profile, members, document);
    assert(prints(published, Some(payload.settings@)));
    let printed = choose|printed: Seq<char>| #[trigger]
        json_members(printed) == Some(published) && json_pretty(printed) == Some(
            payload.settings@,
        ) && reads_back(printed, payload.settings@);
    assert(rereads(printed));
    published_settings_decode_to_the_profile(profile, members, document, empty);
}

/// The credential plan follows the input alone: a keyless profile keeps nothing, a deferred name
/// writes only its binding, and everything else is stored now.
pub proof fn credential_plan_follows_the_input(
    profile: ProfileContent,
    document: Option<Seq<char>>,
    input: ProviderSetupInput,
    reference: Option<CredentialReferenceDocument>,
    secret: Option<Vec<u8>>,
    payload: ProviderSetupPayload,
)
    requires
        payload_made(profile, document, input, reference, secret, Ok(payload)),
    ensures
        payload.credential is Keyless <==> input == ProviderSetupInput::ApiKey(
            ApiKeySource::Keyless,
        ),
        payload.credential is DeferredNamed <==> (input matches ProviderSetupInput::ApiKey(source)
            && source is DeferredNamed),
        payload.credential is Stored <==> (input is ProfileOAuth || (
        input matches ProviderSetupInput::ApiKey(source) && (source is Direct
            || source is ConfiguredNamed))),
{
}

/// User-visible credential publication effect of provider setup.
#[derive(Clone, Copy, Debug, PartialEq, Eq, Structural)]
pub enum CredentialPublication {
    /// Setup published a complete host-local typed record.
    Published,
    /// Setup wrote only an explicitly deferred named-source binding.
    Deferred,
    /// The profile explicitly needs no credential.
    Keyless,
}

/// The publication effect of a credential plan.
pub open spec fn publication_of(credential: CredentialSetup) -> CredentialPublication {
    match credential {
        CredentialSetup::Stored { .. } => CredentialPublication::Published,
        CredentialSetup::DeferredNamed { .. } => CredentialPublication::Deferred,
        CredentialSetup::Keyless => CredentialPublication::Keyless,
    }
}

/// Tells the publication effect of a credential plan.
pub fn credential_publication(credential: &CredentialSetup) -> (res: CredentialPublication)
    ensures
        res == publication_of(*credential),
{
    match credential {
        CredentialSetup::Stored { .. } => CredentialPublication::Published,
        CredentialSetup::DeferredNamed { .. } => CredentialPublication::Deferred,
        CredentialSetup::Keyless => CredentialPublication::Keyless,
    }
}

/// The notice that accompanies printed settings.
pub open spec fn publication_notice(publication: CredentialPublication) -> Seq<char> {
    match publication {
        CredentialPublication::Published =>
            "Published the host-local credential; deploy this config profile before restart.\n"@,
        CredentialPublication::Deferred =>
            "No host-local credential was written; declare and provide the named secret before restarting Tau.\n"@,
        CredentialPublication::Keyless =>
            "This keyless profile needs no host-local credential; deploy it before restart.\n"@,
    }
}

/// Writes a profile for a dotfiles repository: the settings alone go to standard output, the
/// notice to standard error.
pub fn write_dotfiles_profile(settings: &str, publication: CredentialPublication) -> (res: (
    String,
    String,
))
    ensures
        res.0@ == settings@ + "\n"@,
        res.1@ == publication_notice(publication),
{
    let mut output = settings.to_owned();
    output.append("\n");
    let notice = match publication {
        CredentialPublication::Published =>
            "Published the host-local credential; deploy this config profile before restart.\n",
        CredentialPublication::Deferred =>
            "No host-local credential was written; declare and provide the named secret before restarting Tau.\n",
        CredentialPublication::Keyless =>
            "This keyless profile needs no host-local credential; deploy it before restart.\n",
    };
    (output, notice.to_owned())
}

/// Transport of a public Responses route.
#[derive(Clone, Copy, Debug, PartialEq, Eq, Structural)]
pub enum ResponsesTransport {
    Sse,
    Websocket,
}

/// The recommended transport of a base URL: websockets for the public OpenAI API only.
pub open spec fn recommended_transport(base_url: Seq<char>) -> ResponsesTransport {
    if without_trailing(base_url, '/') == "https://api.openai.com/v1"@ {
        ResponsesTransport::Websocket
    } else {
        ResponsesTransport::Sse
    }
}

/// Recommends a transport for a base URL.
pub fn recommended_responses_transport(base_url: &str) -> (res: ResponsesTransport)
    ensures
        res == recommended_transport(base_url@),
{
    let base = trim_trailing(base_url, '/');
    if same_text(base.as_str(), "https://api.openai.com/v1") {
        ResponsesTransport::Websocket
    } else {
        ResponsesTransport::Sse
    }
}

/// The transports in the order in which they are offered, the recommended one first.
pub fn transport_choices(base_url: &str) -> (res: (ResponsesTransport, ResponsesTransport))
    ensures
        res.0 == recommended_transport(base_url@),
        res.1 != res.0,
{
    match recommended_responses_transport(base_url) {
        ResponsesTransport::Sse => (ResponsesTransport::Sse, ResponsesTransport::Websocket),
        ResponsesTransport::Websocket => (ResponsesTransport::Websocket, ResponsesTransport::Sse),
    }
}

/// The trimmed parts that are not empty.
pub open spec fn model_names(parts: Seq<Seq<char>>) -> Seq<Seq<char>>
    decreases parts.len(),
{
    if parts.len() == 0 {
        Seq::empty()
    } else {
        let rest = model_names(parts.drop_last());
        if trimmed(parts.last()).len() == 0 {
            rest
        } else {
            rest.push(trimmed(parts.last()))
        }
    }
}

/// Reads a comma-separated model list; `None` when it names no model.
pub fn parse_model_list(input: &str) -> (res: Option<Vec<String>>)
    ensures
        match res {
            Some(names) => names@.len() > 0 && texts(names@) == model_names(split(input@, ',')),
            None => model_names(split(input@, ',')).len() == 0,
        },
{
    let parts = split_text(input, ',');
    let ghost all = split(input@, ',');
    let mut names: Vec<String> = Vec::new();
    let mut i: usize = 0;
    assert(all.take(0) =~= Seq::<Seq<char>>::empty());
    assert(texts(names@) =~= Seq::<Seq<char>>::empty());
    while i < parts.len()
        invariant
            i <= parts@.len(),
            texts(parts@) == all,
            texts(names@) == model_names(all.take(i as int)),
        decreases parts@.len() - i,
    {
        let name = trim_text(parts[i].as_str());
        proof {
            assert(all.take(i + 1).drop_last() =~= all.take(i as int));
            assert(all.take(i + 1).last() == all[i as int]);
            assert(texts(parts@)[i as int] == parts@[i as int]@);
        }
        let ghost seen = names@;
        if name.as_str().unicode_len() > 0 {
            names.push(name);
            assert(texts(names@) =~= texts(seen).push(name@));
        }
        i = i + 1;
    }
    assert(all.take(i as int) =~= all);
    assert(texts(names@).len() == names@.len());
    if names.len() == 0 {
        None
    } else {
        Some(names)
    }
}

/// Where the models of an OpenRouter profile come from.
pub enum OpenRouterModels {
    /// The service's own catalog.
    Fetch,
    /// The listed names.
    Listed(Vec<String>),
    /// The list names no model.
    Missing,
}

/// Reads an OpenRouter model list; nothing but white space asks for the service's own catalog.
pub fn openrouter_models(input: &str) -> (res: OpenRouterModels)
    ensures
        match res {
            OpenRouterModels::Fetch => trimmed(input@).len() == 0,
            OpenRouterModels::Listed(names) => trimmed(input@).len() > 0 && names@.len() > 0
                && texts(names@) == model_names(split(input@, ',')),
            OpenRouterModels::Missing => trimmed(input@).len() > 0 && model_names(
                split(input@, ','),
            ).len() == 0,
        },
{
    if trim_text(input).as_str().unicode_len() == 0 {
        OpenRouterModels::Fetch
    } else {
        match parse_model_list(input) {
            Some(names) => OpenRouterModels::Listed(names),
            None => OpenRouterModels::Missing,
        }
    }
}

/// What a user chose as the source of an API key.
#[derive(Clone, Copy, Debug, PartialEq, Eq, Structural)]
pub enum ApiKeyChoice {
    EnterNow,
    Named,
    Keyless,
}

/// The choices offered: a keyless profile only where it is allowed.
pub fn api_key_choices(allow_keyless: bool) -> (res: Vec<ApiKeyChoice>)
    ensures
        res@ == if allow_keyless {
            seq![ApiKeyChoice::EnterNow, ApiKeyChoice::Named, ApiKeyChoice::Keyless]
        } else {
            seq![ApiKeyChoice::EnterNow, ApiKeyChoice::Named]
        },
{
    let mut choices: Vec<ApiKeyChoice> = Vec::new();
    choices.push(ApiKeyChoice::EnterNow);
    choices.push(ApiKeyChoice::Named);
    if allow_keyless {
        choices.push(ApiKeyChoice::Keyless);
    }
    assert(allow_keyless ==> choices@ =~= seq![
        ApiKeyChoice::EnterNow,
        ApiKeyChoice::Named,
        ApiKeyChoice::Keyless,
    ]);
    assert(!allow_keyless ==> choices@ =~= seq![ApiKeyChoice::EnterNow, ApiKeyChoice::Named]);
    choices
}

/// The named source at position `index` of the ordered declarations; the position after the last
/// one asks for a deferred name.
pub fn named_secret_at(declared: &NameTable<u64>, index: usize) -> (res: Option<ApiKeySource>)
    ensures
        match res {
            Some(ApiKeySource::ConfiguredNamed { name, declaration }) => {
                &&& index < declared.keys().len()
                &&& name@ == declared.keys()[index as int]
                &&& lookup(declared@, name@) == Some(declaration)
            },
            Some(_) => false,
            None => index >= declared.keys().len(),
        },
{
    if index < declared.len() {
        let name = declared.key_at(index).clone();
        let declaration: u64 = *declared.value_at(index);
        Some(ApiKeySource::ConfiguredNamed { name, declaration })
    } else {
        None
    }
}

/// Finds the declaration of a named secret.
pub fn configured_named_secret(declared: &NameTable<u64>, source_name: &str) -> (res: Result<
    NamedSecretSource,
    String,
>)
    ensures
        match res {
            Ok(source) => source.name@ == source_name@ && lookup(declared@, source_name@) == Some(
                source.declaration,
            ),
            Err(message) => !declared@.contains_key(source_name@) && message@
                == "configured named secret '"@ + source_name@ + "' is not declared"@,
        },
{
    match declared.get(source_name) {
        Some(declaration) => Ok(
            NamedSecretSource { name: source_name.to_owned(), declaration: *declaration },
        ),
        None => {
            let mut message = "configured named secret '".to_owned();
            message.append(source_name);
            message.append("' is not declared");
            Err(message)
        },
    }
}

/// Accepts the redirect of a browser login only for the state that the login was started with.
pub fn check_login_state(expected: &str, returned: &str) -> (res: Result<(), String>)
    ensures
        res is Ok <==> returned@ == expected@,
        res is Err ==> res->Err_0@
            == "state mismatch \u{2014} possible CSRF attack or stale URL"@,
{
    if same_text(returned, expected) {
        Ok(())
    } else {
        Err("state mismatch \u{2014} possible CSRF attack or stale URL".to_owned())
    }
}

/// The plan follows the profile and the source: a login record for a ChatGPT profile, an API-key
/// record under the source's own name for the others, written at the next start only when the
/// source defers it, and no record only where the source says so.
pub proof fn plan_keeps_the_source(
    profile: ProfileContent,
    input: ProviderSetupInput,
    res: Result<CredentialKeeping, SetupError>,
)
    requires
        planned(res) == credential_keeping(profile, input),
    ensures
        res is Ok <==> if profile is Chatgpt {
            input is ProfileOAuth
        } else {
            input matches ProviderSetupInput::ApiKey(source) && !(profile is OpenRouter
                && source is Keyless)
        },
        res matches Err(error) ==> match error {
            SetupError::ChatGptRequiresOAuth => profile is Chatgpt,
            SetupError::ApiKeyAuthorityRequired => !(profile is Chatgpt) && input is ProfileOAuth,
            SetupError::OpenRouterRequiresApiKey => profile is OpenRouter && input
                == ProviderSetupInput::ApiKey(ApiKeySource::Keyless),
            _ => false,
        },
        res matches Ok(CredentialKeeping::Keyless) ==> input == ProviderSetupInput::ApiKey(
            ApiKeySource::Keyless,
        ),
        res matches Ok(CredentialKeeping::Stored { slot, named_source, deferred }) ==> {
            &&& slot == ProviderCredentialSlot::OAuth <==> profile is Chatgpt
            &&& input matches ProviderSetupInput::ApiKey(source) ==> match source {
                ApiKeySource::Direct(_) => named_source is None && !deferred,
                ApiKeySource::Keyless => false,
                ApiKeySource::ConfiguredNamed { name, .. } => named_source is Some
                    && named_source->0@ == name@ && !deferred,
                ApiKeySource::DeferredNamed { name } => named_source is Some && named_source->0@
                    == name@ && deferred,
            }
            &&& input is ProfileOAuth ==> named_source is None && !deferred
        },
{
}

/// A record is published at the reference's path, with the given bytes, from the configured secret
/// that the source names; a deferred one only leaves its path.
pub proof fn published_record_is_the_secret(
    profile: ProfileContent,
    document: Option<Seq<char>>,
    input: ProviderSetupInput,
    reference: Option<CredentialReferenceDocument>,
    secret: Option<Vec<u8>>,
    payload: ProviderSetupPayload,
)
    requires
        payload_made(profile, document, input, reference, secret, Ok(payload)),
    ensures
        match payload.credential {
            CredentialSetup::Keyless => true,
            CredentialSetup::DeferredNamed { path } => reference is Some && path
                == reference->0.path,
            CredentialSetup::Stored { path, contents, named_source } => {
                &&& reference is Some
                &&& path == reference->0.path
                &&& secret == Some(contents)
                &&& named_source is Some <==> (input matches ProviderSetupInput::ApiKey(source)
                    && source is ConfiguredNamed)
                &&& named_source matches Some(named) ==> (
                input matches ProviderSetupInput::ApiKey(
                    ApiKeySource::ConfiguredNamed { name, declaration },
                ) && named.name@ == name@ && named.declaration == declaration)
            },
        },
{
}

/// Published settings print the profile's own members, without the credential that the profile
/// kept in them, and with the reference in its place.
pub proof fn published_settings_hold_the_reference(
    profile: ProfileContent,
    text: Seq<char>,
    members: Map<Seq<char>, Seq<char>>,
    input: ProviderSetupInput,
    reference: Option<CredentialReferenceDocument>,
    secret: Option<Vec<u8>>,
    payload: ProviderSetupPayload,
) -> (printed: (Seq<char>, Map<Seq<char>, Seq<char>>))
    requires
        payload_made(profile, Some(text), input, reference, secret, Ok(payload)),
        json_members(text) == Some(members),
    ensures
        json_pretty(printed.0) == Some(payload.settings@),
        json_members(printed.0) == Some(printed.1),
        profile is Chatgpt ==> !printed.1.contains_key("auth"@),
        !(profile is Chatgpt) ==> !printed.1.contains_key("api_key"@) && !printed.1.contains_key(
            "api_key_secret"@,
        ),
        printed.1.contains_key("credential"@),
        payload.credential is Keyless ==> json_document("{\"kind\":\"none\"}".spec_bytes()) == Some(
            printed.1["credential"@],
        ),
        !(payload.credential is Keyless) ==> reference is Some && json_document(
            reference->0.document@,
        ) == Some(printed.1["credential"@]),
        forall|name: Seq<char>|
            name != "auth"@ && name != "api_key"@ && name != "api_key_secret"@ && name
                != "credential"@ ==> #[trigger] printed.1.contains_key(name)
                == members.contains_key(name) && (members.contains_key(name) ==> printed.1[name]
                == members[name]),
{
    reveal_strlit("credential");
    reveal_strlit("auth");
    reveal_strlit("api_key");
    reveal_strlit("api_key_secret");
    assert("credential"@.len() == 10 && "auth"@.len() == 4 && "api_key"@.len() == 7
        && "api_key_secret"@.len() == 14);
    let keeping = credential_keeping(profile, input)->Ok_0;
    let credential = json_document(credential_document(keeping, reference)->0)->0;
    let published = published_members(profile, members, credential);
    assert(prints(published, Some(payload.settings@)));
    let shown = choose|shown: Seq<char>| #[trigger]
        json_members(shown) == Some(published) && json_pretty(shown) == Some(payload.settings@)
            && reads_back(shown, payload.settings@);
    (shown, published)
}

/// Setup fails only for a reason that its inputs show.
pub proof fn setup_fails_for_a_reason(
    profile: ProfileContent,
    document: Option<Seq<char>>,
    input: ProviderSetupInput,
    reference: Option<CredentialReferenceDocument>,
    secret: Option<Vec<u8>>,
    error: SetupError,
)
    requires
        payload_made(profile, document, input, reference, secret, Err(error)),
    ensures
        error == SetupError::InvalidSettings <==> document is None,
        error == SetupError::NotObject <==> (document matches Some(text) && json_members(
            text,
        ) is None),
        error == SetupError::InvalidReference ==> reference is None || json_document(
            reference->0.document@,
        ) is None || input == ProviderSetupInput::ApiKey(ApiKeySource::Keyless),
        error == SetupError::MissingCredentialBytes ==> secret is None && !(
        input matches ProviderSetupInput::ApiKey(source) && (source is Keyless
            || source is DeferredNamed)),
{
}

/// The listed models are the parts of the list that are not blank, each without the white space
/// around it, in their order.
pub proof fn listed_models_are_the_parts(parts: Seq<Seq<char>>, name: Seq<char>)
    ensures
        model_names(parts).contains(name) <==> name.len() > 0 && exists|i: int|
            0 <= i < parts.len() && trimmed(#[trigger] parts[i]) == name,
        model_names(parts).len() <= parts.len(),
        (forall|i: int| 0 <= i < parts.len() ==> trimmed(#[trigger] parts[i]).len() > 0)
            ==> model_names(parts).len() == parts.len() && forall|i: int|
            0 <= i < parts.len() ==> #[trigger] model_names(parts)[i] == trimmed(parts[i]),
    decreases parts.len(),
{
    if parts.len() > 0 {
        let rest = parts.drop_last();
        let last = trimmed(parts.last());
        listed_models_are_the_parts(rest, name);
        assert forall|i: int| 0 <= i < rest.len() implies #[trigger] rest[i] == parts[i] by {}
        if model_names(parts).contains(name) {
            let k = choose|k: int|
                0 <= k < model_names(parts).len() && model_names(parts)[k] == name;
            if k < model_names(rest).len() {
                assert(model_names(rest)[k] == name);
                assert(model_names(rest).contains(name));
                let i = choose|i: int| 0 <= i < rest.len() && trimmed(#[trigger] rest[i]) == name;
                assert(trimmed(parts[i]) == name);
            } else {
                assert(trimmed(parts[parts.len() - 1]) == name);
            }
        }
        if name.len() > 0 && exists|i: int|
            0 <= i < parts.len() && trimmed(#[trigger] parts[i]) == name {
            let i = choose|i: int| 0 <= i < parts.len() && trimmed(#[trigger] parts[i]) == name;
            if i < rest.len() {
                assert(trimmed(rest[i]) == name);
                assert(model_names(rest).contains(name));
                let k = choose|k: int|
                    0 <= k < model_names(rest).len() && model_names(rest)[k] == name;
                assert(model_names(parts)[k] == name);
            } else {
                assert(model_names(parts).last() == name);
            }
        }
        if forall|i: int| 0 <= i < parts.len() ==> trimmed(#[trigger] parts[i]).len() > 0 {
            assert forall|i: int| 0 <= i < rest.len() implies trimmed(#[trigger] rest[i]).len()
                > 0 by {
                assert(rest[i] == parts[i]);
            }
            assert(trimmed(parts[parts.len() - 1]).len() > 0);
            assert forall|i: int| 0 <= i < parts.len() implies #[trigger] model_names(parts)[i]
                == trimmed(parts[i]) by {
                if i < rest.len() {
                    assert(model_names(rest)[i] == trimmed(rest[i]));
                }
            }
        }
    }
}

/// Models come out in the order in which the list gives them: those of a longer list begin with
/// those of a shorter one.
pub proof fn listed_models_keep_their_order(first: Seq<Seq<char>>, second: Seq<Seq<char>>)
    ensures
        model_names(first + second) == model_names(first) + model_names(second),
    decreases second.len(),
{
    if second.len() == 0 {
        assert(first + second == first);
        assert(model_names(first) + model_names(second) == model_names(first));
    } else {
        assert((first + second).drop_last() == first + second.drop_last());
        listed_models_keep_their_order(first, second.drop_last());
        let head = model_names(first);
        let tail = model_names(second.drop_last());
        let last = trimmed(second.last());
        assert((head + tail).push(last) == head + tail.push(last));
    }
}

/// The service's own address, with any number of slashes behind it, is served over the web
/// socket; every other address streams.
pub proof fn own_address_uses_the_web_socket(base_url: Seq<char>, slashes: Seq<char>)
    ensures
        (forall|i: int| 0 <= i < slashes.len() ==> #[trigger] slashes[i] == '/')
            ==> recommended_transport("https://api.openai.com/v1"@ + slashes)
            == ResponsesTransport::Websocket,
        recommended_transport(base_url) == ResponsesTransport::Websocket ==> {
            let n = "https://api.openai.com/v1"@.len() as int;
            &&& n <= base_url.len()
            &&& base_url.take(n) == "https://api.openai.com/v1"@
            &&& forall|i: int| n <= i < base_url.len() ==> #[trigger] base_url[i] == '/'
        },
    decreases slashes.len(),
{
    only_the_trailing_character_is_taken(base_url, '/');
    reveal_strlit("https://api.openai.com/v1");
    let own = "https://api.openai.com/v1"@;
    assert(own.len() == 25 && own.last() == '1');
    if forall|i: int| 0 <= i < slashes.len() ==> #[trigger] slashes[i] == '/' {
        let address = own + slashes;
        if slashes.len() == 0 {
            assert(address == own);
        } else {
            let rest = slashes.drop_last();
            assert forall|i: int| 0 <= i < rest.len() implies #[trigger] rest[i] == '/' by {
                assert(rest[i] == slashes[i]);
            }
            own_address_uses_the_web_socket(base_url, rest);
            assert(slashes[slashes.len() - 1] == '/');
            assert(address.last() == '/');
            assert(address.drop_last() == own + rest);
            assert(without_trailing(address, '/') == without_trailing(own + rest, '/'));
        }
    }
}

/// Only a source that was entered holds a value, and only a named one has a name.
pub proof fn sources_hold_what_was_given(source: ApiKeySource)
    ensures
        source matches ApiKeySource::Direct(value) ==> source_value(source) == value@
            && source_name(source) is None,
        source matches ApiKeySource::ConfiguredNamed { name, .. } ==> source_value(source).len()
            == 0 && source_name(source) == Some(name@),
        source matches ApiKeySource::DeferredNamed { name } ==> source_value(source).len() == 0
            && source_name(source) == Some(name@),
        source is Keyless ==> source_value(source).len() == 0 && source_name(source) is None,
{
}

/// A record that was written is published, a deferred one is not, and a keyless profile needs
/// none.
pub proof fn publication_follows_the_record(credential: CredentialSetup)
    ensures
        publication_of(credential) == CredentialPublication::Published <==> credential is Stored,
        publication_of(credential) == CredentialPublication::Deferred
            <==> credential is DeferredNamed,
        publication_of(credential) == CredentialPublication::Keyless <==> credential is Keyless,
{
}

/// The notice says what is left to do before the restart.
pub proof fn notice_says_what_is_left_to_do(publication: CredentialPublication)
    ensures
        match publication {
            CredentialPublication::Published => publication_notice(publication)
                == "Published the host-local credential; deploy this config profile before restart.\n"@,
            CredentialPublication::Deferred => publication_notice(publication)
                == "No host-local credential was written; declare and provide the named secret before restarting Tau.\n"@,
            CredentialPublication::Keyless => publication_notice(publication)
                == "This keyless profile needs no host-local credential; deploy it before restart.\n"@,
        },
{
}

} // verus!
