//! Credential-free provider settings: their validation and loading.

use vstd::prelude::*;
use vstd::string::StringSliceAdditionalSpecFns;

use crate::json::{
    has_member, insert_member, is_object, json_document, json_members, json_text, pretty_text,
    prints, read_json, remove_member,
};
use crate::profiles::{
    profile_valid, summary_verdict, BuiltinProviderProfile, BuiltinProviderProfiles,
    ProfileContent, ProviderCredential, ProviderCredentialSlot, SummaryCompactionConfigError,
};
use crate::text::{optional_text, strip_suffix, stripped, stripped_text_lacks_its_suffix};

verus! {

/// Why one settings document is refused.
#[derive(Clone, Copy, Debug, PartialEq, Eq, Structural)]
pub enum ProviderSettingsValidationReason {
    /// The contents are not one JSON document.
    InvalidJson,
    /// The document is not an object.
    NotObject,
    /// The document holds a credential itself.
    CredentialFieldsPresent,
    /// The document holds summary fields that are no longer accepted.
    ObsoleteLocalSummaryFields,
    /// The document's credential member is absent or malformed.
    InvalidCredentialReference,
    /// The document does not describe a profile, or describes an inconsistent one.
    InvalidProfile,
    /// A model's summary output does not fit in its context window.
    LocalSummaryOutputTokensExceedContextWindow,
    /// A model's summary output exceeds the narrative limit.
    LocalSummaryOutputBytesExceedNarrativeLimit,
    /// The credential is of a kind that the profile cannot use.
    CredentialKindMismatch,
}

/// What the host decoded from one settings document.
pub struct SettingsReading {
    /// The document holds obsolete summary fields.
    pub obsolete_summary_fields: bool,
    /// The credential member; `None` when it is absent or malformed.
    pub credential: Option<ProviderCredential>,
    /// The profile with an empty credential; `None` when the document describes none.
    pub profile: Option<BuiltinProviderProfile>,
}

/// A settings document, as far as its own rules read it.
#[derive(Clone, Copy, Debug, PartialEq, Eq, Structural)]
pub enum SettingsDocument {
    /// The contents are not one JSON document.
    Invalid,
    /// The document is not an object.
    NotObject,
    /// The document is an object, which may hold a credential field.
    Object { holds_credential: bool },
}

/// The members that would hold a credential in the settings themselves.
pub open spec fn holds_credential(members: Map<Seq<char>, Seq<char>>) -> bool {
    members.contains_key("auth"@) || members.contains_key("api_key"@) || members.contains_key(
        "api_key_secret"@,
    )
}

/// The document that some bytes hold.
pub open spec fn settings_document(contents: Seq<u8>) -> SettingsDocument {
    match json_document(contents) {
        None => SettingsDocument::Invalid,
        Some(text) => match json_members(text) {
            None => SettingsDocument::NotObject,
            Some(members) => SettingsDocument::Object {
                holds_credential: holds_credential(members),
            },
        },
    }
}

/// Reads the document that some bytes hold.
pub fn read_settings_document(contents: &Vec<u8>) -> (res: SettingsDocument)
    ensures
        res == settings_document(contents@),
{
    match read_json(contents.as_slice()) {
        None => SettingsDocument::Invalid,
        Some(value) => {
            if !is_object(&value) {
                SettingsDocument::NotObject
            } else {
                SettingsDocument::Object {
                    holds_credential: has_member(&value, "auth") || has_member(&value, "api_key")
                        || has_member(&value, "api_key_secret"),
                }
            }
        },
    }
}

/// A profile of this kind can use this credential.
pub open spec fn credential_fits(profile: ProfileContent, credential: ProviderCredential) -> bool {
    match (profile, credential) {
        (ProfileContent::Chatgpt { .. }, ProviderCredential::Stored(reference)) => reference.slot
            == ProviderCredentialSlot::OAuth,
        (ProfileContent::Chatgpt { .. }, ProviderCredential::Keyless) => false,
        (_, ProviderCredential::Stored(reference)) => reference.slot
            == ProviderCredentialSlot::ApiKey,
        (ProfileContent::OpenRouter(_), ProviderCredential::Keyless) => false,
        (_, ProviderCredential::Keyless) => true,
    }
}

/// Reports whether a profile of this kind can use this credential.
pub fn profile_matches_credential(
    profile: &BuiltinProviderProfile,
    credential: &ProviderCredential,
) -> (res: bool)
    ensures
        res == credential_fits(profile.content(), *credential),
{
    match (profile, credential) {
        (BuiltinProviderProfile::Chatgpt(_), ProviderCredential::Stored(reference)) => {
            match reference.slot {
                ProviderCredentialSlot::OAuth => true,
                ProviderCredentialSlot::ApiKey => false,
            }
        },
        (BuiltinProviderProfile::Chatgpt(_), ProviderCredential::Keyless) => false,
        (_, ProviderCredential::Stored(reference)) => match reference.slot {
            ProviderCredentialSlot::OAuth => false,
            ProviderCredentialSlot::ApiKey => true,
        },
        (BuiltinProviderProfile::OpenRouter(_), ProviderCredential::Keyless) => false,
        (_, ProviderCredential::Keyless) => true,
    }
}

/// The settings of one accepted document.
pub struct SettingsContent {
    pub profile: ProfileContent,
    pub credential: ProviderCredential,
}

/// The verdict on one document with what the host decoded from it. The rules are applied in this
/// order, and the first that fails decides.
pub open spec fn settings_verdict(document: SettingsDocument, reading: SettingsReading) -> Result<
    SettingsContent,
    ProviderSettingsValidationReason,
> {
    if document == SettingsDocument::Invalid {
        Err(ProviderSettingsValidationReason::InvalidJson)
    } else if document == SettingsDocument::NotObject {
        Err(ProviderSettingsValidationReason::NotObject)
    } else if document->holds_credential {
        Err(ProviderSettingsValidationReason::CredentialFieldsPresent)
    } else if reading.obsolete_summary_fields {
        Err(ProviderSettingsValidationReason::ObsoleteLocalSummaryFields)
    } else {
        match (reading.credential, reading.profile) {
            (None, _) => Err(ProviderSettingsValidationReason::InvalidCredentialReference),
            (_, None) => Err(ProviderSettingsValidationReason::InvalidProfile),
            (Some(credential), Some(profile)) => match summary_verdict(profile.content()) {
                Err(SummaryCompactionConfigError::MaxOutputTokensExceedContextWindow) => Err(
                    ProviderSettingsValidationReason::LocalSummaryOutputTokensExceedContextWindow,
                ),
                Err(SummaryCompactionConfigError::MaxOutputBytesExceedNarrativeLimit) => Err(
                    ProviderSettingsValidationReason::LocalSummaryOutputBytesExceedNarrativeLimit,
                ),
                Ok(_) => if !profile_valid(profile.content()) {
                    Err(ProviderSettingsValidationReason::InvalidProfile)
                } else if !credential_fits(profile.content(), credential) {
                    Err(ProviderSettingsValidationReason::CredentialKindMismatch)
                } else {
                    Ok(SettingsContent { profile: profile.content(), credential })
                },
            },
        }
    }
}

/// The verdict that a parse reports.
pub open spec fn parsed_settings(
    res: Result<(BuiltinProviderProfile, ProviderCredential), ProviderSettingsValidationReason>,
) -> Result<SettingsContent, ProviderSettingsValidationReason> {
    match res {
        Ok(parsed) => Ok(SettingsContent { profile: parsed.0.content(), credential: parsed.1 }),
        Err(reason) => Err(reason),
    }
}

/// Applies the rules of settings to one document and what the host decoded from it.
pub fn judge_settings(document: SettingsDocument, reading: SettingsReading) -> (res: Result<
    (BuiltinProviderProfile, ProviderCredential),
    ProviderSettingsValidationReason,
>)
    ensures
        parsed_settings(res) == settings_verdict(document, reading),
{
    match document {
        SettingsDocument::Invalid => {
            return Err(ProviderSettingsValidationReason::InvalidJson);
        },
        SettingsDocument::NotObject => {
            return Err(ProviderSettingsValidationReason::NotObject);
        },
        SettingsDocument::Object { holds_credential } => {
            if holds_credential {
                return Err(ProviderSettingsValidationReason::CredentialFieldsPresent);
            }
        },
    }
    if reading.obsolete_summary_fields {
        return Err(ProviderSettingsValidationReason::ObsoleteLocalSummaryFields);
    }
    match (reading.credential, reading.profile) {
        (None, _) => Err(ProviderSettingsValidationReason::InvalidCredentialReference),
        (Some(_), None) => Err(ProviderSettingsValidationReason::InvalidProfile),
        (Some(credential), Some(profile)) => {
            match profile.validate_local_summary_compaction() {
                Err(SummaryCompactionConfigError::MaxOutputTokensExceedContextWindow) => {
                    return Err(
                        ProviderSettingsValidationReason::LocalSummaryOutputTokensExceedContextWindow,
                    );
                },
                Err(SummaryCompactionConfigError::MaxOutputBytesExceedNarrativeLimit) => {
                    return Err(
                        ProviderSettingsValidationReason::LocalSummaryOutputBytesExceedNarrativeLimit,
                    );
                },
                Ok(_) => {},
            }
            if !profile.validate() {
                return Err(ProviderSettingsValidationReason::InvalidProfile);
            }
            if !profile_matches_credential(&profile, &credential) {
                return Err(ProviderSettingsValidationReason::CredentialKindMismatch);
            }
            Ok((profile, credential))
        },
    }
}

/// Parses one settings document with what the host decoded from it.
pub fn parse_settings_profile(contents: &Vec<u8>, reading: SettingsReading) -> (res: Result<
    (BuiltinProviderProfile, ProviderCredential),
    ProviderSettingsValidationReason,
>)
    ensures
        parsed_settings(res) == settings_verdict(settings_document(contents@), reading),
{
    judge_settings(read_settings_document(contents), reading)
}

/// The empty credential field that stands in a document while its profile is decoded.
#[derive(Clone, Copy, Debug, PartialEq, Eq, Structural)]
pub enum CredentialPlaceholder {
    /// An empty `auth` object.
    Auth,
    /// An empty `api_key` text.
    ApiKey,
}

/// The placeholder of a credential.
pub open spec fn placeholder_of(credential: ProviderCredential) -> CredentialPlaceholder {
    match credential {
        ProviderCredential::Stored(reference) => match reference.slot {
            ProviderCredentialSlot::OAuth => CredentialPlaceholder::Auth,
            ProviderCredentialSlot::ApiKey => CredentialPlaceholder::ApiKey,
        },
        ProviderCredential::Keyless => CredentialPlaceholder::ApiKey,
    }
}

/// Chooses the placeholder of a credential.
pub fn credential_placeholder(credential: &ProviderCredential) -> (res: CredentialPlaceholder)
    ensures
        res == placeholder_of(*credential),
{
    match credential {
        ProviderCredential::Stored(reference) => match reference.slot {
            ProviderCredentialSlot::OAuth => CredentialPlaceholder::Auth,
            ProviderCredentialSlot::ApiKey => CredentialPlaceholder::ApiKey,
        },
        ProviderCredential::Keyless => CredentialPlaceholder::ApiKey,
    }
}

/// The JSON document of a placeholder.
pub open spec fn placeholder_document(placeholder: CredentialPlaceholder) -> Seq<u8> {
    match placeholder {
        CredentialPlaceholder::Auth => "{}".spec_bytes(),
        CredentialPlaceholder::ApiKey => "\"\"".spec_bytes(),
    }
}

/// The members that a profile is decoded from: the reference gives way to an empty credential.
pub open spec fn decoded_members(
    members: Map<Seq<char>, Seq<char>>,
    placeholder: CredentialPlaceholder,
    empty: Seq<char>,
) -> Map<Seq<char>, Seq<char>> {
    members.remove("credential"@).insert(
        match placeholder {
            CredentialPlaceholder::Auth => "auth"@,
            CredentialPlaceholder::ApiKey => "api_key"@,
        },
        empty,
    )
}

/// Prepares the document that a profile is decoded from. There is none when the contents are not
/// a JSON object.
pub fn profile_document(contents: &Vec<u8>, credential: &ProviderCredential) -> (res: Option<
    String,
>)
    ensures
        match (
            json_document(contents@),
            json_document(placeholder_document(placeholder_of(*credential))),
        ) {
            (Some(text), Some(empty)) => match json_members(text) {
                Some(members) => prints(
                    decoded_members(members, placeholder_of(*credential), empty),
                    optional_text(res),
                ),
                None => res is None,
            },
            _ => res is None,
        },
{
    let placeholder = credential_placeholder(credential);
    let empty = match placeholder {
        CredentialPlaceholder::Auth => read_json("{}".as_bytes()),
        CredentialPlaceholder::ApiKey => read_json("\"\"".as_bytes()),
    };
    match (read_json(contents.as_slice()), empty) {
        (Some(value), Some(empty)) => {
            let mut value = value;
            if !is_object(&value) {
                return None;
            }
            let ghost text = json_text(empty);
            let ghost members = json_members(json_text(value))->0;
            remove_member(&mut value, "credential");
            match placeholder {
                CredentialPlaceholder::Auth => insert_member(&mut value, "auth", empty),
                CredentialPlaceholder::ApiKey => insert_member(&mut value, "api_key", empty),
            }
            let printed = pretty_text(&value);
            assert(prints(decoded_members(members, placeholder, text), optional_text(printed)));
            printed
        },
        _ => None,
    }
}

/// One file of a settings snapshot.
pub struct SettingsFile {
    pub file_name: String,
    pub contents: Vec<u8>,
    /// The file name's stem is a valid provider namespace.
    pub valid_namespace: bool,
    pub reading: SettingsReading,
}

/// Why a settings snapshot is refused.
pub enum SettingsSnapshotError {
    /// A file name is not a provider namespace followed by `.json`.
    InvalidFileName,
    /// The settings of a provider are invalid.
    InvalidProvider { provider: String, reason: ProviderSettingsValidationReason },
}

/// The provider that a settings file configures; `None` when its name is invalid.
pub open spec fn settings_provider(file: SettingsFile) -> Option<Seq<char>> {
    if file.valid_namespace {
        stripped(file.file_name@, ".json"@)
    } else {
        None
    }
}

/// Every file of a snapshot is named after a provider.
pub open spec fn all_named(files: Seq<SettingsFile>) -> bool {
    forall|i: int| 0 <= i < files.len() ==> settings_provider(#[trigger] files[i]) is Some
}

/// The verdict on one file.
pub open spec fn file_verdict(file: SettingsFile) -> Result<
    SettingsContent,
    ProviderSettingsValidationReason,
> {
    settings_verdict(settings_document(file.contents@), file.reading)
}

/// The settings of file `i` are accepted.
pub open spec fn file_accepted(files: Seq<SettingsFile>, i: int) -> bool {
    file_verdict(files[i]) is Ok
}

/// The profiles of some accepted files, the later of two files with one name winning.
pub open spec fn loaded_profiles(files: Seq<SettingsFile>) -> Map<Seq<char>, ProfileContent>
    decreases files.len(),
{
    if files.len() == 0 {
        Map::empty()
    } else {
        loaded_profiles(files.drop_last()).insert(
            settings_provider(files.last())->0,
            file_verdict(files.last())->Ok_0.profile,
        )
    }
}

/// The credentials of some accepted files, the later of two files with one name winning.
pub open spec fn loaded_credentials(files: Seq<SettingsFile>) -> Map<Seq<char>, ProviderCredential>
    decreases files.len(),
{
    if files.len() == 0 {
        Map::empty()
    } else {
        loaded_credentials(files.drop_last()).insert(
            settings_provider(files.last())->0,
            file_verdict(files.last())->Ok_0.credential,
        )
    }
}

/// File `i` is the first whose settings are refused.
pub open spec fn first_refused(files: Seq<SettingsFile>, i: int) -> bool {
    &&& 0 <= i < files.len()
    &&& !file_accepted(files, i)
    &&& forall|j: int| 0 <= j < i ==> #[trigger] file_accepted(files, j)
}

/// What a snapshot with these files loads to. All names are looked at before any settings; then
/// the first refused file decides.
pub open spec fn snapshot_loaded(
    files: Seq<SettingsFile>,
    res: Result<BuiltinProviderProfiles, SettingsSnapshotError>,
) -> bool {
    match res {
        Err(SettingsSnapshotError::InvalidFileName) => !all_named(files),
        Err(SettingsSnapshotError::InvalidProvider { provider, reason }) => all_named(files)
            && exists|i: int| #[trigger]
            first_refused(files, i) && settings_provider(files[i]) == Some(provider@)
                && file_verdict(files[i]) == Err::<SettingsContent, _>(reason),
        Ok(profiles) => {
            &&& all_named(files)
            &&& forall|i: int| 0 <= i < files.len() ==> #[trigger] file_accepted(files, i)
            &&& profiles.profiles() == loaded_profiles(files)
            &&& profiles.credential_map() == loaded_credentials(files)
            &&& profiles.missing() == Set::<Seq<char>>::empty()
        },
    }
}

/// Registers one provider from its settings document.
pub fn insert_settings_profile(
    profiles: &mut BuiltinProviderProfiles,
    name: String,
    contents: &Vec<u8>,
    reading: SettingsReading,
) -> (res: Result<(), SettingsSnapshotError>)
    ensures
        final(profiles).missing() == old(profiles).missing(),
        match settings_verdict(settings_document(contents@), reading) {
            Ok(settings) => {
                &&& res is Ok
                &&& final(profiles).profiles() == old(profiles).profiles().insert(
                    name@,
                    settings.profile,
                )
                &&& final(profiles).credential_map() == old(profiles).credential_map().insert(
                    name@,
                    settings.credential,
                )
            },
            Err(reason) => {
                &&& res == Err::<(), _>(
                    SettingsSnapshotError::InvalidProvider { provider: name, reason },
                )
                &&& *final(profiles) == *old(profiles)
            },
        },
{
    match parse_settings_profile(contents, reading) {
        Ok((profile, credential)) => {
            profiles.insert(name, profile, credential);
            Ok(())
        },
        Err(reason) => Err(SettingsSnapshotError::InvalidProvider { provider: name, reason }),
    }
}

/// The names that precede some files agree with them.
spec fn names_match(names: Seq<String>, files: Seq<SettingsFile>) -> bool {
    &&& names.len() == files.len()
    &&& forall|i: int|
        0 <= i < files.len() ==> settings_provider(#[trigger] files[i]) == Some(names[i]@)
}

fn provider_names(files: &Vec<SettingsFile>) -> (res: Option<Vec<String>>)
    ensures
        match res {
            Some(names) => names_match(names@, files@),
            None => !all_named(files@),
        },
{
    let mut names: Vec<String> = Vec::new();
    let mut i: usize = 0;
    while i < files.len()
        invariant
            i <= files@.len(),
            names@.len() == i,
            forall|j: int| 0 <= j < i ==> settings_provider(#[trigger] files@[j]) == Some(names@[j]@),
        decreases files@.len() - i,
    {
        let stem = strip_suffix(files[i].file_name.as_str(), ".json");
        if !files[i].valid_namespace {
            assert(settings_provider(files@[i as int]) is None);
            return None;
        }
        match stem {
            Some(name) => {
                assert(settings_provider(files@[i as int]) == Some(name@));
                names.push(name);
            },
            None => {
                assert(settings_provider(files@[i as int]) is None);
                return None;
            },
        }
        i = i + 1;
    }
    Some(names)
}

/// Loads the accepted profiles of some named files; the first refused file decides.
fn try_load_settings_profiles(files: Vec<SettingsFile>, names: Vec<String>) -> (res: Result<
    BuiltinProviderProfiles,
    SettingsSnapshotError,
>)
    requires
        names_match(names@, files@),
    ensures
        snapshot_loaded(files@, res),
{
    let mut profiles = BuiltinProviderProfiles::new();
    let mut refused: Option<SettingsSnapshotError> = None;
    let mut rest = files;
    let mut names = names;
    let ghost all = files@;
    let ghost mut done: int = 0;
    assert(all.take(0) =~= Seq::<SettingsFile>::empty());
    assert(all.skip(0) =~= all);
    while rest.len() > 0 && refused.is_none()
        invariant
            0 <= done <= all.len(),
            names_match(names@, rest@),
            all_named(all),
            refused is None ==> {
                &&& rest@ == all.skip(done)
                &&& forall|j: int| 0 <= j < done ==> #[trigger] file_accepted(all, j)
                &&& profiles.profiles() == loaded_profiles(all.take(done))
                &&& profiles.credential_map() == loaded_credentials(all.take(done))
                &&& profiles.missing() == Set::<Seq<char>>::empty()
            },
            refused is Some ==> {
                &&& first_refused(all, done)
                &&& refused->0 is InvalidProvider
                &&& settings_provider(all[done]) == Some(refused->0->provider@)
                &&& file_verdict(all[done]) == Err::<SettingsContent, _>(
                    refused->0->reason,
                )
            },
        decreases rest@.len(),
    {
        let ghost before = rest@;
        let ghost names_before = names@;
        let file = rest.remove(0);
        let name = names.remove(0);
        proof {
            assert(file == all[done]);
            assert(settings_provider(before[0]) == Some(names_before[0]@));
            assert forall|i: int| 0 <= i < rest@.len() implies settings_provider(
                #[trigger] rest@[i],
            ) == Some(names@[i]@) by {
                assert(rest@[i] == before[i + 1]);
                assert(settings_provider(before[i + 1]) == Some(names_before[i + 1]@));
            }
            assert(all.take(done + 1).drop_last() =~= all.take(done));
            assert(all.skip(done).skip(1) =~= all.skip(done + 1));
        }
        match insert_settings_profile(&mut profiles, name, &file.contents, file.reading) {
            Ok(_) => {
                proof {
                    assert(file_accepted(all, done));
                    assert(rest@ =~= all.skip(done + 1));
                    done = done + 1;
                }
            },
            Err(error) => {
                assert(first_refused(all, done));
                refused = Some(error);
            },
        }
    }
    match refused {
        Some(error) => {
            assert(first_refused(all, done));
            Err(error)
        },
        None => {
            assert(all.take(done) =~= all);
            Ok(profiles)
        },
    }
}

/// Loads a settings snapshot.
pub fn validate_configure_settings(files: Vec<SettingsFile>) -> (res: Result<
    BuiltinProviderProfiles,
    SettingsSnapshotError,
>)
    ensures
        snapshot_loaded(files@, res),
{
    match provider_names(&files) {
        Some(names) => {
            assert(all_named(files@));
            try_load_settings_profiles(files, names)
        },
        None => Err(SettingsSnapshotError::InvalidFileName),
    }
}

/// A snapshot that loads registers exactly the providers that its files name.
pub proof fn loaded_providers_are_named(files: Seq<SettingsFile>, provider: Seq<char>)
    ensures
        loaded_profiles(files).contains_key(provider) <==> exists|i: int|
            0 <= i < files.len() && settings_provider(#[trigger] files[i])->0 == provider,
        loaded_profiles(files).dom() == loaded_credentials(files).dom(),
    decreases files.len(),
{
    if files.len() > 0 {
        let rest = files.drop_last();
        loaded_providers_are_named(rest, provider);
        if loaded_profiles(files).contains_key(provider) {
            if settings_provider(files.last())->0 == provider {
                assert(settings_provider(files[files.len() - 1])->0 == provider);
            } else {
                let i = choose|i: int|
                    0 <= i < rest.len() && settings_provider(#[trigger] rest[i])->0 == provider;
                assert(settings_provider(files[i])->0 == provider);
            }
        }
        if exists|i: int|
            0 <= i < files.len() && settings_provider(#[trigger] files[i])->0 == provider {
            let i = choose|i: int|
                0 <= i < files.len() && settings_provider(#[trigger] files[i])->0 == provider;
            if i < rest.len() {
                assert(settings_provider(rest[i])->0 == provider);
            }
        }
        assert(loaded_profiles(files).dom() =~= loaded_credentials(files).dom());
    }
}

/// Accepted settings hold no credential: a document with a credential field is refused, whatever
/// else it holds.
pub proof fn accepted_settings_hold_no_credential(contents: Seq<u8>, reading: SettingsReading)
    requires
        settings_verdict(settings_document(contents), reading) is Ok,
    ensures
        json_document(contents) is Some,
        json_members(json_document(contents)->0) is Some,
        !holds_credential(json_members(json_document(contents)->0)->0),
{
}

/// A profile that logs in takes an OAuth record, OpenRouter an API-key record, and the other
/// services an API-key record or none.
pub proof fn credential_kind_follows_the_profile(
    profile: ProfileContent,
    credential: ProviderCredential,
    res: bool,
)
    requires
        res == credential_fits(profile, credential),
    ensures
        profile is Chatgpt ==> (res <==> credential is Stored && credential->Stored_0.slot
            == ProviderCredentialSlot::OAuth),
        profile is OpenRouter ==> (res <==> credential is Stored && credential->Stored_0.slot
            == ProviderCredentialSlot::ApiKey),
        profile is ChatCompletions || profile is Responses ==> (res <==> credential is Keyless
            || credential->Stored_0.slot == ProviderCredentialSlot::ApiKey),
{
}

/// Settings are accepted exactly when they are one object that holds no credential and no obsolete
/// summary field, with a profile whose routes and summary limits are valid and a credential of the
/// kind that it takes; what is accepted is the profile and the credential that were read.
pub proof fn accepted_settings_are_what_was_read(
    contents: Seq<u8>,
    reading: SettingsReading,
    res: Result<(BuiltinProviderProfile, ProviderCredential), ProviderSettingsValidationReason>,
)
    requires
        parsed_settings(res) == settings_verdict(settings_document(contents), reading),
    ensures
        res is Ok <==> {
            &&& json_document(contents) matches Some(text) && json_members(text) matches Some(
                members,
            ) && !members.contains_key("auth"@) && !members.contains_key("api_key"@)
                && !members.contains_key("api_key_secret"@)
            &&& !reading.obsolete_summary_fields
            &&& reading.credential is Some
            &&& reading.profile is Some
            &&& summary_verdict(reading.profile->0.content()) is Ok
            &&& profile_valid(reading.profile->0.content())
            &&& match reading.profile->0.content() {
                ProfileContent::Chatgpt { .. } => reading.credential->0 is Stored
                    && reading.credential->0->Stored_0.slot == ProviderCredentialSlot::OAuth,
                ProfileContent::OpenRouter(_) => reading.credential->0 is Stored
                    && reading.credential->0->Stored_0.slot == ProviderCredentialSlot::ApiKey,
                _ => reading.credential->0 is Keyless || reading.credential->0->Stored_0.slot
                    == ProviderCredentialSlot::ApiKey,
            }
        },
        res is Ok ==> {
            &&& Some(res->Ok_0.1) == reading.credential
            &&& res->Ok_0.0.content() == reading.profile->0.content()
        },
{
}

/// Each refusal names what is wrong with the settings: first the document, then the credential
/// that it holds, the obsolete fields, the credential's reference, the profile, and last the
/// credential's kind.
pub proof fn refused_settings_name_the_reason(
    contents: Seq<u8>,
    reading: SettingsReading,
    res: Result<(BuiltinProviderProfile, ProviderCredential), ProviderSettingsValidationReason>,
)
    requires
        parsed_settings(res) == settings_verdict(settings_document(contents), reading),
        res is Err,
    ensures
        res->Err_0 == ProviderSettingsValidationReason::InvalidJson <==> json_document(
            contents,
        ) is None,
        res->Err_0 == ProviderSettingsValidationReason::NotObject <==> (json_document(
            contents,
        ) matches Some(text) && json_members(text) is None),
        res->Err_0 == ProviderSettingsValidationReason::CredentialFieldsPresent <==> (
        json_document(contents) matches Some(text) && json_members(text) matches Some(members) && (
        members.contains_key("auth"@) || members.contains_key("api_key"@) || members.contains_key(
            "api_key_secret"@,
        ))),
        res->Err_0 == ProviderSettingsValidationReason::ObsoleteLocalSummaryFields
            ==> reading.obsolete_summary_fields,
        res->Err_0 == ProviderSettingsValidationReason::InvalidCredentialReference
            ==> !reading.obsolete_summary_fields && reading.credential is None,
        res->Err_0 == ProviderSettingsValidationReason::InvalidProfile
            ==> !reading.obsolete_summary_fields && reading.credential is Some && (
        reading.profile is None || !profile_valid(reading.profile->0.content())),
        res->Err_0
            == ProviderSettingsValidationReason::LocalSummaryOutputTokensExceedContextWindow
            ==> reading.profile is Some && summary_verdict(reading.profile->0.content()) == Err::<
            (),
            _,
        >(SummaryCompactionConfigError::MaxOutputTokensExceedContextWindow),
        res->Err_0
            == ProviderSettingsValidationReason::LocalSummaryOutputBytesExceedNarrativeLimit
            ==> reading.profile is Some && summary_verdict(reading.profile->0.content()) == Err::<
            (),
            _,
        >(SummaryCompactionConfigError::MaxOutputBytesExceedNarrativeLimit),
        res->Err_0 == ProviderSettingsValidationReason::CredentialKindMismatch ==> {
            &&& reading.credential is Some
            &&& reading.profile is Some
            &&& summary_verdict(reading.profile->0.content()) is Ok
            &&& profile_valid(reading.profile->0.content())
        },
{
}

/// A settings file belongs to the provider whose name precedes `.json`, when that name is a
/// namespace.
pub proof fn file_name_gives_the_provider(file: SettingsFile, provider: Seq<char>)
    ensures
        settings_provider(file) == Some(provider) <==> file.valid_namespace && file.file_name@
            == provider + ".json"@,
{
    stripped_text_lacks_its_suffix(file.file_name@, provider, ".json"@);
}

/// The last file of a provider gives the profile and the credential that a snapshot holds for it.
pub proof fn snapshot_holds_each_file(
    files: Seq<SettingsFile>,
    profiles: BuiltinProviderProfiles,
    i: int,
    provider: Seq<char>,
)
    requires
        snapshot_loaded(files, Ok(profiles)),
        0 <= i < files.len(),
        files[i].file_name@ == provider + ".json"@,
        forall|j: int|
            i < j < files.len() ==> (#[trigger] files[j]).file_name@ != provider + ".json"@,
    ensures
        files[i].reading.profile is Some,
        files[i].reading.credential is Some,
        profiles.profiles().contains_pair(provider, files[i].reading.profile->0.content()),
        profiles.credential_map().contains_pair(provider, files[i].reading.credential->0),
{
    assert(file_accepted(files, i));
    assert(settings_provider(files[i]) is Some);
    lemma_last_file_loads(files, i, provider);
}

proof fn lemma_last_file_loads(files: Seq<SettingsFile>, i: int, provider: Seq<char>)
    requires
        all_named(files),
        0 <= i < files.len(),
        files[i].file_name@ == provider + ".json"@,
        forall|j: int|
            i < j < files.len() ==> (#[trigger] files[j]).file_name@ != provider + ".json"@,
    ensures
        loaded_profiles(files).contains_pair(provider, file_verdict(files[i])->Ok_0.profile),
        loaded_credentials(files).contains_pair(
            provider,
            file_verdict(files[i])->Ok_0.credential,
        ),
    decreases files.len(),
{
    let last = files.last();
    assert(settings_provider(last) is Some && settings_provider(files[i]) is Some);
    file_name_gives_the_provider(files[i], provider);
    file_name_gives_the_provider(last, provider);
    if i < files.len() - 1 {
        let rest = files.drop_last();
        assert forall|k: int| 0 <= k < rest.len() implies settings_provider(
            #[trigger] rest[k],
        ) is Some by {
            assert(rest[k] == files[k]);
        }
        assert forall|j: int| i < j < rest.len() implies (#[trigger] rest[j]).file_name@ != provider
            + ".json"@ by {
            assert(rest[j] == files[j]);
        }
        lemma_last_file_loads(rest, i, provider);
        assert(last.file_name@ != provider + ".json"@);
    }
}

/// A snapshot holds no provider that has no file, and misses no credential.
pub proof fn snapshot_holds_nothing_else(
    files: Seq<SettingsFile>,
    profiles: BuiltinProviderProfiles,
    provider: Seq<char>,
)
    requires
        snapshot_loaded(files, Ok(profiles)),
        forall|i: int|
            0 <= i < files.len() ==> (#[trigger] files[i]).file_name@ != provider + ".json"@,
    ensures
        !profiles.profiles().contains_key(provider),
        !profiles.credential_map().contains_key(provider),
        !profiles.missing().contains(provider),
{
    loaded_providers_are_named(files, provider);
    assert forall|i: int| 0 <= i < files.len() implies settings_provider(#[trigger] files[i])->0
        != provider by {
        file_name_gives_the_provider(files[i], provider);
    }
    assert(loaded_profiles(files).dom().contains(provider) == loaded_credentials(
        files,
    ).dom().contains(provider));
}

/// A profile is decoded with its credential's reference left out, an empty credential in its
/// place, and every other member as it was.
pub proof fn decoding_replaces_only_the_credential(
    members: Map<Seq<char>, Seq<char>>,
    credential: ProviderCredential,
    empty: Seq<char>,
    name: Seq<char>,
)
    ensures
        ({
            let decoded = decoded_members(members, placeholder_of(credential), empty);
            let logs_in = credential is Stored && credential->Stored_0.slot
                == ProviderCredentialSlot::OAuth;
            &&& !decoded.contains_key("credential"@)
            &&& logs_in ==> decoded.contains_pair("auth"@, empty)
            &&& !logs_in ==> decoded.contains_pair("api_key"@, empty)
            &&& name != "credential"@ && name != "auth"@ && name != "api_key"@ ==> (
            decoded.contains_key(name) == members.contains_key(name) && decoded[name]
                == members[name])
        }),
{
    reveal_strlit("credential");
    reveal_strlit("auth");
    reveal_strlit("api_key");
    assert("credential"@.len() == 10 && "auth"@.len() == 4 && "api_key"@.len() == 7);
}

} // verus!
