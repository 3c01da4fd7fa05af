//! Quota windows, their reports, and published model declarations.

use std::collections::BTreeSet;

use tau_ext_provider_builtin::clock::{Moment, Span};
use tau_ext_provider_builtin::credentials::CredentialObservation;
use tau_ext_provider_builtin::models::{
    apply_compact_route_downgrades, compact_negative_identity_is_owned,
    declaration_needs_publication, replace_provider_models, ChatGptCatalog, CompactState,
    ProviderModelInfo,
};
use tau_ext_provider_builtin::names::NameTable;
use tau_ext_provider_builtin::oauth::OpenAiAuth;
use tau_ext_provider_builtin::profiles::{profiles_with_chatgpt_auth, ModelEntry};
use tau_ext_provider_builtin::prompt::{BackendProfileIdentity, ModelId};
use tau_ext_provider_builtin::quota::{
    elapsed_seconds_since, full_quota_window, merge_sparse_quota_window, BindingProvenance,
    QuotaCoordinator, QuotaLimits, QuotaReport, QuotaWindowObservation, RollingQuotaObservation,
};
use tau_ext_provider_builtin::rolling::QuotaForwarder;
use tau_ext_provider_builtin::text::{
    decimal_text, is_blank, is_text_less, parse_count, split_text, strip_suffix, trim_text,
    trim_trailing,
};

fn text(value: &str) -> String {
    value.to_owned()
}

fn observation(window: &str, used: u32) -> QuotaWindowObservation {
    QuotaWindowObservation {
        limit_id: text("codex"),
        window_id: text(window),
        used_basis_points: used,
        window_seconds: Some(18_000),
        reset_at_unix_seconds: Some(5_000),
        remaining_seconds: Some(1_000),
    }
}

#[test]
fn a_full_window_keeps_the_server_clock_offset() {
    let window = full_quota_window(observation("primary", 250), 3_999_000).expect("a window");
    assert_eq!(window.used_basis_points, 250);
    assert_eq!(window.window_seconds, 18_000);
    assert_eq!(window.server_offset_ms, Some(1_000));
    assert_eq!(window.timing_anchor_observed_at_unix_ms, Some(3_999_000));
    let unknown = QuotaWindowObservation { window_seconds: None, ..observation("primary", 0) };
    assert!(full_quota_window(unknown, 0).is_none());
    assert_eq!(elapsed_seconds_since(1_000, 1_000), 0);
    assert_eq!(elapsed_seconds_since(1_000, 1_001), 1);
    assert_eq!(elapsed_seconds_since(2_000, 1_000), 0);
}

#[test]
fn a_sparse_window_keeps_trusted_timing_only() {
    let previous = full_quota_window(observation("primary", 500), 4_000_000).expect("a window");
    let sparse = |used: u32, reset: Option<i64>, seconds: Option<u64>| QuotaWindowObservation {
        limit_id: text("codex"),
        window_id: text("primary"),
        used_basis_points: used,
        window_seconds: seconds,
        reset_at_unix_seconds: reset,
        remaining_seconds: None,
    };
    let kept = merge_sparse_quota_window(Some(&previous), sparse(400, None, None), 4_001_000)
        .expect("merged");
    assert_eq!(kept.window_seconds, 18_000);
    assert_eq!(kept.reset_at_unix_seconds, Some(5_000));
    assert_eq!(kept.remaining_seconds_at_timing_anchor, Some(1_000));
    assert_eq!(kept.usage_observed_at_unix_ms, 4_001_000);
    let dropped = merge_sparse_quota_window(Some(&previous), sparse(399, None, None), 4_001_000)
        .expect("merged");
    assert_eq!(dropped.remaining_seconds_at_timing_anchor, None, "usage fell too far");
    let near =
        merge_sparse_quota_window(Some(&previous), sparse(500, Some(5_060), None), 4_001_000)
            .expect("merged");
    assert_eq!(near.server_offset_ms, previous.server_offset_ms);
    assert_eq!(near.remaining_seconds_at_timing_anchor, None);
    let far = merge_sparse_quota_window(Some(&previous), sparse(500, Some(5_061), None), 4_001_000)
        .expect("merged");
    assert_eq!(far.server_offset_ms, None);
    let rolled =
        merge_sparse_quota_window(Some(&previous), sparse(500, Some(23_000), None), 4_700_000)
            .expect("merged");
    assert_eq!(rolled.server_offset_ms, previous.server_offset_ms, "a window near its end rolls");
    let resized =
        merge_sparse_quota_window(Some(&previous), sparse(500, None, Some(60)), 4_001_000)
            .expect("merged");
    assert_eq!(resized.server_offset_ms, None);
    assert!(merge_sparse_quota_window(None, sparse(1, None, None), 0).is_none());
}

fn coordinator() -> QuotaCoordinator {
    QuotaCoordinator::new(QuotaLimits { max_windows: 2, max_bindings: 2 })
}

fn at(secs: u64) -> Moment {
    Moment { nanos: Span::from_secs(secs).nanos }
}

fn rolling(windows: Vec<QuotaWindowObservation>) -> RollingQuotaObservation {
    RollingQuotaObservation {
        windows,
        active_limit_id: Some(text("codex")),
        binding_provenance: Some(BindingProvenance { code: 1 }),
    }
}

#[test]
fn quota_reports_are_sequenced_within_an_epoch() {
    let provider = text("chatgpt");
    let mut quota = coordinator();
    let first = quota.ensure_profile(provider.clone(), 1, 10).expect("a new epoch");
    let QuotaReport::Replace { profile_epoch, sequence, establishes_new_epoch, .. } = &first else {
        panic!("a replacement");
    };
    assert!(*establishes_new_epoch);
    assert_eq!(*sequence, 1);
    let epoch = *profile_epoch;
    assert!(quota.ensure_profile(provider.clone(), 1, 20).is_none(), "the same identity");
    assert!(quota.epoch_matches(&provider, epoch));
    let model = || ModelId { provider: text("chatgpt"), model: text("gpt") };
    let patch = quota.merge_rolling(model(), 1, rolling(vec![observation("primary", 5)]), 1_000);
    match patch {
        Some(QuotaReport::Patch { sequence, windows, route_bindings, .. }) => {
            assert_eq!(sequence, 2);
            assert_eq!(windows.len(), 1);
            assert_eq!(route_bindings.len(), 1);
        }
        _ => panic!("a patch"),
    }
    assert!(
        quota.merge_rolling(model(), 2, rolling(vec![observation("primary", 5)]), 1_000).is_none(),
        "another identity's telemetry"
    );
    let too_many = vec![observation("a", 1), observation("b", 1), observation("c", 1)];
    assert!(quota.merge_rolling(model(), 1, rolling(too_many), 1_000).is_none());
    assert!(matches!(
        quota.clear_profile(&provider),
        Some(QuotaReport::Clear { sequence: 3, .. })
    ));
    assert!(quota.clear_profile(&provider).is_none());
}

#[test]
fn full_fetches_are_spaced_and_back_off() {
    let provider = text("chatgpt");
    let mut quota = coordinator();
    assert!(quota.begin_fetch(&provider, 0, at(0)).is_none(), "no profile");
    quota.ensure_profile(provider.clone(), 1, 0);
    let (epoch, sequence) = quota.begin_fetch(&provider, 0, at(100)).expect("a first fetch");
    assert!(quota.begin_fetch(&provider, 0, at(200)).is_none(), "one at a time");
    let replaced = quota.finish_fetch(
        provider.clone(),
        epoch,
        sequence,
        vec![observation("primary", 5), observation("weekly", 7)],
        1_000,
    );
    assert!(matches!(
        replaced,
        Some(QuotaReport::Replace { windows, establishes_new_epoch: false, .. })
            if windows.len() == 2
    ));
    assert!(quota.begin_fetch(&provider, 1_000, at(120)).is_none(), "too soon");
    assert!(quota.begin_fetch(&provider, 1_000, at(160)).is_none(), "no window has reset");
    assert!(quota.begin_fetch(&provider, 1_002_000, at(159)).is_none(), "too soon");
    assert!(quota.begin_fetch(&provider, 1_002_000, at(160)).is_some(), "a window has reset");
    for secs in [60_u64, 120, 240, 480, 900, 900] {
        assert_eq!(quota.failure_delay(&provider), Span::from_secs(secs));
        quota.fail_fetch(&provider, epoch);
    }
    assert_eq!(
        coordinator().refresh_delay(&provider, 0),
        Span::from_secs(900),
        "without a window the long interval applies"
    );
    let generation = quota.schedule_refresh(&provider, epoch).expect("armed");
    assert!(quota.refresh_is_current(&provider, epoch, generation));
    let newer = quota.schedule_refresh(&provider, epoch).expect("armed again");
    assert!(!quota.refresh_is_current(&provider, epoch, generation));
    assert!(quota.refresh_is_current(&provider, epoch, newer));
}

#[test]
fn repeated_telemetry_is_forwarded_once() {
    let mut forwarder = QuotaForwarder::new(true);
    assert!(forwarder.observe(&rolling(vec![observation("primary", 1)])));
    assert!(!forwarder.observe(&rolling(vec![observation("primary", 1)])));
    assert!(forwarder.observe(&rolling(vec![observation("primary", 2)])));
    assert!(forwarder.observe(&rolling(vec![observation("primary", 1)])));
    let mut deaf = QuotaForwarder::new(false);
    assert!(!deaf.observe(&rolling(vec![observation("primary", 1)])));
}

fn info(provider: &str, model: &str) -> ProviderModelInfo {
    ProviderModelInfo {
        id: ModelId { provider: text(provider), model: text(model) },
        supports_standalone_compaction: true,
        standalone_compaction_generation_negative: false,
        standalone_compaction_threshold: Some(9),
        detail: 1,
    }
}

#[test]
fn a_compact_downgrade_follows_the_route_generation() {
    let mut identities = NameTable::new();
    identities.insert(text("a"), BackendProfileIdentity::from_test_value(1));
    identities.insert(text("b"), BackendProfileIdentity::from_test_value(2));
    let mut models = vec![info("a", "m"), info("b", "m"), info("c", "m")];
    apply_compact_route_downgrades(&mut models, &identities, &BTreeSet::from([2]));
    assert!(models[0].supports_standalone_compaction);
    assert!(!models[1].supports_standalone_compaction);
    assert!(models[1].standalone_compaction_generation_negative);
    assert_eq!(models[1].standalone_compaction_threshold, None);
    assert!(models[2].supports_standalone_compaction);
    assert!(compact_negative_identity_is_owned(
        BackendProfileIdentity::from_test_value(2),
        &identities
    ));
    assert!(!compact_negative_identity_is_owned(
        BackendProfileIdentity::from_test_value(3),
        &identities
    ));

    let observed = |generation: &str| {
        let mut table = NameTable::new();
        table.insert(text("b"), CredentialObservation::Contents(text(generation)));
        table
    };
    let mut compact = CompactState::new();
    compact.identities = identities;
    compact.unavailable.insert(2);
    let kept =
        compact.reconcile_compact_state_after_credential_changes(&observed("1"), &observed("1"));
    assert!(kept.is_empty());
    let retired =
        compact.reconcile_compact_state_after_credential_changes(&observed("1"), &observed("2"));
    assert_eq!(retired, vec![BackendProfileIdentity::from_test_value(2)]);
    assert!(!compact.unavailable.contains(&2));
}

#[test]
fn an_unchanged_declaration_is_not_repeated() {
    let observations = |generation: &str| {
        let mut table = NameTable::new();
        table.insert(text("a"), CredentialObservation::Contents(text(generation)));
        table
    };
    let models = vec![info("a", "m")];
    assert!(declaration_needs_publication(&None, &None, &models, &observations("1")));
    let declared = Some(vec![info("a", "m")]);
    let observed = Some(observations("1"));
    assert!(!declaration_needs_publication(&declared, &observed, &models, &observations("1")));
    assert!(declaration_needs_publication(&declared, &observed, &models, &observations("2")));
    assert!(declaration_needs_publication(
        &declared,
        &observed,
        &vec![info("a", "n")],
        &observations("1")
    ));
}

#[test]
fn replacing_one_provider_keeps_its_siblings() {
    let catalog = ChatGptCatalog {
        standard: vec![ModelEntry {
            id: text("new"),
            supports_standalone_compaction: false,
            standalone_compaction_threshold: None,
            detail: 0,
            summary_error: None,
        }],
        lite: Vec::new(),
    };
    let previous = vec![info("alpha", "m"), info("chatgpt", "old"), info("zeta", "m")];
    let selected = profiles_with_chatgpt_auth(OpenAiAuth::empty(), text("path"));
    let replaced = replace_provider_models(&previous, &text("chatgpt"), &selected, &catalog);
    let ids = replaced
        .iter()
        .map(|model| format!("{}/{}", model.id.provider, model.id.model))
        .collect::<Vec<_>>();
    assert_eq!(ids, vec!["alpha/m", "chatgpt/new", "zeta/m"]);
}

#[test]
fn text_helpers_agree_with_std() {
    for (a, b) in [("", "a"), ("a", "b"), ("a", "aa"), ("\u{e9}", "z"), ("a", "a"), ("b", "a")] {
        assert_eq!(is_text_less(a, b), a < b, "{a} {b}");
    }
    for value in ["", " a b\t", "\u{3000}x\u{2028}", " \n", "a"] {
        assert_eq!(trim_text(value), value.trim());
        assert_eq!(is_blank(value), value.trim().is_empty());
        assert_eq!(
            split_text(value, ' '),
            value.split(' ').map(str::to_owned).collect::<Vec<_>>()
        );
        assert_eq!(strip_suffix(value, "b\t").as_deref(), value.strip_suffix("b\t"));
    }
    assert_eq!(trim_trailing("x//", '/'), "x");
    assert_eq!(trim_trailing("///", '/'), "");
    for value in [0, 9, 10, 1_234_567, u64::MAX] {
        assert_eq!(decimal_text(value), value.to_string());
    }
    for value in ["", "+", "7", "+7", "-7", "007", "1 ", "18446744073709551616"] {
        assert_eq!(parse_count(value), value.parse::<usize>().ok(), "{value}");
    }
}

#[test]
fn name_tables_are_ordered_maps() {
    let mut table = NameTable::new();
    assert!(table.is_empty());
    for (name, value) in [("b", 1), ("a", 2), ("b", 3)] {
        table.insert(text(name), value);
    }
    assert_eq!(table.len(), 2);
    assert_eq!(table.key_at(0), "a");
    assert_eq!(table.value_at(1), &3);
    assert_eq!(table.get("b"), Some(&3));
    assert_eq!(table.remove("a"), Some(2));
    assert_eq!(table.remove("a"), None);
    assert!(!table.contains_key("a"));
}

#[test]
fn replaced_credentials_keep_the_route_mode() {
    let mut profile = tau_ext_provider_builtin::profiles::ChatGptProfile {
        auth: OpenAiAuth::empty(),
        responses_lite_compatibility: true,
    };
    let refreshed = OpenAiAuth { access_token: text("new"), ..OpenAiAuth::empty() };
    profile.replace_auth(refreshed);
    assert_eq!(profile.auth.access_token, "new");
    assert!(profile.responses_lite_compatibility);
}
