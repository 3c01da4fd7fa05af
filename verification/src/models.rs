//! Published model declarations and process-local compaction downgrades.

use std::collections::BTreeSet;
use vstd::prelude::*;

use crate::credentials::CredentialObservation;
use crate::names::NameTable;
use crate::profiles::{
    generations, BuiltinProviderProfile, BuiltinProviderProfiles, ModelEntry, ProfileContent,
};
use crate::prompt::{BackendProfileIdentity, ModelId};
use crate::retry::lookup;
use crate::text::{
    is_text_less, text_less, text_less_irreflexive, text_less_total, text_less_transitive,
};

verus! {

/// One published model.
pub struct ProviderModelInfo {
    pub id: ModelId,
    pub supports_standalone_compaction: bool,
    /// Whether this process observed that the route lacks standalone compaction.
    pub standalone_compaction_generation_negative: bool,
    pub standalone_compaction_threshold: Option<u64>,
    /// Host handle of the remaining published metadata.
    pub detail: u64,
}

/// The content of a published model.
pub struct ModelContent {
    pub provider: Seq<char>,
    pub model: Seq<char>,
    pub supports_standalone_compaction: bool,
    pub generation_negative: bool,
    pub threshold: Option<u64>,
    pub detail: u64,
}

impl ProviderModelInfo {
    /// The content of this model.
    pub open spec fn content(self) -> ModelContent {
        ModelContent {
            provider: self.id.provider@,
            model: self.id.model@,
            supports_standalone_compaction: self.supports_standalone_compaction,
            generation_negative: self.standalone_compaction_generation_negative,
            threshold: self.standalone_compaction_threshold,
            detail: self.detail,
        }
    }

    fn same(&self, other: &ProviderModelInfo) -> (res: bool)
        ensures
            res == (self.content() == other.content()),
    {
        let same_threshold: bool = match (
            self.standalone_compaction_threshold,
            other.standalone_compaction_threshold,
        ) {
            (Some(a), Some(b)) => a == b,
            (None, None) => true,
            _ => false,
        };
        self.id.provider == other.id.provider && self.id.model == other.id.model
            && self.supports_standalone_compaction == other.supports_standalone_compaction
            && self.standalone_compaction_generation_negative
            == other.standalone_compaction_generation_negative && same_threshold && self.detail
            == other.detail
    }
}

impl Clone for ProviderModelInfo {
    fn clone(&self) -> (res: Self)
        ensures
            res == *self,
    {
        ProviderModelInfo {
            id: self.id.clone(),
            supports_standalone_compaction: self.supports_standalone_compaction,
            standalone_compaction_generation_negative:
                self.standalone_compaction_generation_negative,
            standalone_compaction_threshold: self.standalone_compaction_threshold,
            detail: self.detail,
        }
    }
}

/// Contents of some models, in order.
pub open spec fn model_contents(models: Seq<ProviderModelInfo>) -> Seq<ModelContent> {
    Seq::new(models.len(), |i: int| models[i].content())
}

/// Clones a declaration.
pub fn clone_declaration(models: &Vec<ProviderModelInfo>) -> (res: Vec<ProviderModelInfo>)
    ensures
        res@ == models@,
{
    let mut res: Vec<ProviderModelInfo> = Vec::new();
    let mut i: usize = 0;
    while i < models.len()
        invariant
            i <= models@.len(),
            res@ == models@.take(i as int),
        decreases models@.len() - i,
    {
        res.push(models[i].clone());
        assert(res@ =~= models@.take(i + 1));
        i = i + 1;
    }
    assert(models@.take(i as int) =~= models@);
    res
}

/// The models that ChatGPT profiles publish in each mode.
pub struct ChatGptCatalog {
    pub standard: Vec<ModelEntry>,
    pub lite: Vec<ModelEntry>,
}

impl ChatGptCatalog {
    /// The models of a mode.
    pub open spec fn models(&self, lite_compatibility: bool) -> Seq<ModelEntry> {
        if lite_compatibility {
            self.lite@
        } else {
            self.standard@
        }
    }
}

/// A route's model as published by `provider`.
pub open spec fn published(provider: Seq<char>, entry: ModelEntry) -> ModelContent {
    ModelContent {
        provider,
        model: entry.id@,
        supports_standalone_compaction: entry.supports_standalone_compaction,
        generation_negative: false,
        threshold: entry.standalone_compaction_threshold,
        detail: entry.detail,
    }
}

/// A route's models as published by `provider`.
pub open spec fn published_all(provider: Seq<char>, entries: Seq<ModelEntry>) -> Seq<ModelContent> {
    Seq::new(entries.len(), |i: int| published(provider, entries[i]))
}

/// The models of one profile.
pub open spec fn profile_models(
    provider: Seq<char>,
    profile: ProfileContent,
    catalog: &ChatGptCatalog,
) -> Seq<ModelContent> {
    match profile {
        ProfileContent::Chatgpt { lite_compatibility, .. } => published_all(
            provider,
            catalog.models(lite_compatibility),
        ),
        ProfileContent::ChatCompletions(route) => published_all(provider, route.models),
        ProfileContent::OpenRouter(route) => published_all(provider, route.models),
        ProfileContent::Responses(route) => published_all(provider, route.models),
    }
}

/// The models of some profiles, provider by provider.
pub open spec fn models_of(
    profiles: Map<Seq<char>, ProfileContent>,
    names: Seq<Seq<char>>,
    catalog: &ChatGptCatalog,
) -> Seq<ModelContent>
    decreases names.len(),
{
    if names.len() == 0 {
        Seq::empty()
    } else {
        models_of(profiles, names.drop_last(), catalog) + profile_models(
            names.last(),
            profiles[names.last()],
            catalog,
        )
    }
}

fn push_models(
    models: &mut Vec<ProviderModelInfo>,
    provider: &String,
    entries: &Vec<ModelEntry>,
)
    ensures
        model_contents(final(models)@) == model_contents(old(models)@) + published_all(
            provider@,
            entries@,
        ),
{
    let mut i: usize = 0;
    let ghost before = model_contents(models@);
    assert(before + published_all(provider@, entries@).take(0) =~= before);
    while i < entries.len()
        invariant
            i <= entries@.len(),
            model_contents(models@) == before + published_all(provider@, entries@).take(i as int),
        decreases entries@.len() - i,
    {
        let ghost seen = models@;
        let entry = &entries[i];
        let info = ProviderModelInfo {
            id: ModelId { provider: provider.clone(), model: entry.id.clone() },
            supports_standalone_compaction: entry.supports_standalone_compaction,
            standalone_compaction_generation_negative: false,
            standalone_compaction_threshold: entry.standalone_compaction_threshold,
            detail: entry.detail,
        };
        let ghost content = info.content();
        models.push(info);
        proof {
            let all = published_all(provider@, entries@);
            assert(model_contents(models@) =~= model_contents(seen).push(content));
            assert(all.take(i + 1) =~= all.take(i as int).push(all[i as int]));
            assert(model_contents(models@) =~= before + all.take(i + 1));
        }
        i = i + 1;
    }
    let ghost all = published_all(provider@, entries@);
    assert(all.take(all.len() as int) =~= all);
}

/// Lists the models of every profile, in provider order.
pub fn models_for_profiles(
    profiles: &BuiltinProviderProfiles,
    catalog: &ChatGptCatalog,
) -> (res: Vec<ProviderModelInfo>)
    ensures
        model_contents(res@) == models_of(profiles.profiles(), profiles.names(), catalog),
{
    let mut models: Vec<ProviderModelInfo> = Vec::new();
    let n: usize = profiles.len();
    let mut i: usize = 0;
    let ghost names = profiles.names();
    assert(names.take(0) =~= Seq::<Seq<char>>::empty());
    assert(model_contents(models@) =~= Seq::<ModelContent>::empty());
    while i < n
        invariant
            names == profiles.names(),
            n == names.len(),
            i <= n,
            model_contents(models@) == models_of(
                profiles.profiles(),
                names.take(i as int),
                catalog,
            ),
        decreases n - i,
    {
        let name = profiles.name_at(i);
        match profiles.profile_at(i) {
            BuiltinProviderProfile::Chatgpt(profile) => {
                if profile.responses_lite_compatibility {
                    push_models(&mut models, name, &catalog.lite);
                } else {
                    push_models(&mut models, name, &catalog.standard);
                }
            },
            BuiltinProviderProfile::ChatCompletions(route) => {
                push_models(&mut models, name, &route.models);
            },
            BuiltinProviderProfile::OpenRouter(route) => {
                push_models(&mut models, name, &route.models);
            },
            BuiltinProviderProfile::Responses(route) => {
                push_models(&mut models, name, &route.models);
            },
        }
        assert(names.take(i + 1).drop_last() =~= names.take(i as int));
        i = i + 1;
    }
    assert(names.take(n as int) =~= names);
    models
}

/// The models of other providers, in order.
pub open spec fn siblings(models: Seq<ModelContent>, provider: Seq<char>) -> Seq<ModelContent>
    decreases models.len(),
{
    if models.len() == 0 {
        Seq::empty()
    } else if models.last().provider != provider {
        siblings(models.drop_last(), provider).push(models.last())
    } else {
        siblings(models.drop_last(), provider)
    }
}

/// The number of leading models whose provider does not come after `provider`.
pub open spec fn sorted_position(models: Seq<ModelContent>, provider: Seq<char>) -> int
    decreases models.len(),
{
    if models.len() == 0 {
        0
    } else if text_less(provider, models.last().provider) {
        sorted_position(models.drop_last(), provider)
    } else {
        models.len() as int
    }
}

/// The models in stable provider order.
pub open spec fn provider_order(models: Seq<ModelContent>) -> Seq<ModelContent>
    decreases models.len(),
{
    if models.len() == 0 {
        Seq::empty()
    } else {
        let before = provider_order(models.drop_last());
        before.insert(sorted_position(before, models.last().provider), models.last())
    }
}

/// No provider comes before one listed earlier.
pub open spec fn in_provider_order(models: Seq<ModelContent>) -> bool {
    forall|i: int, j: int|
        0 <= i < j < models.len() ==> !text_less(
            (#[trigger] models[j]).provider,
            (#[trigger] models[i]).provider,
        )
}

proof fn lemma_sorted_position(models: Seq<ModelContent>, provider: Seq<char>)
    requires
        in_provider_order(models),
    ensures
        0 <= sorted_position(models, provider) <= models.len(),
        forall|i: int|
            sorted_position(models, provider) <= i < models.len() ==> text_less(
                provider,
                (#[trigger] models[i]).provider,
            ),
        sorted_position(models, provider) > 0 ==> !text_less(
            provider,
            models[sorted_position(models, provider) - 1].provider,
        ),
    decreases models.len(),
{
    if models.len() > 0 && text_less(provider, models.last().provider) {
        let rest = models.drop_last();
        assert(in_provider_order(rest)) by {
            assert forall|i: int, j: int| 0 <= i < j < rest.len() implies !text_less(
                (#[trigger] rest[j]).provider,
                (#[trigger] rest[i]).provider,
            ) by {
                assert(rest[i] == models[i] && rest[j] == models[j]);
            }
        }
        lemma_sorted_position(rest, provider);
        assert forall|i: int| sorted_position(models, provider) <= i < models.len() implies text_less(
            provider,
            (#[trigger] models[i]).provider,
        ) by {
            if i < rest.len() {
                assert(models[i] == rest[i]);
            }
        }
    }
}

proof fn lemma_not_less_transitive(a: Seq<char>, b: Seq<char>, c: Seq<char>)
    requires
        !text_less(b, a),
        !text_less(c, b),
    ensures
        !text_less(c, a),
{
    if text_less(c, a) {
        text_less_total(a, b);
        text_less_total(b, c);
        if text_less(a, b) {
            text_less_transitive(c, a, b);
        }
    }
}

/// The stable provider order is ordered by provider and holds exactly the given models.
pub proof fn provider_order_is_sorted(models: Seq<ModelContent>)
    ensures
        in_provider_order(provider_order(models)),
        provider_order(models).to_multiset() == models.to_multiset(),
        provider_order(models).len() == models.len(),
    decreases models.len(),
{
    if models.len() == 0 {
        assert(provider_order(models) =~= models);
    } else {
        let rest = models.drop_last();
        let last = models.last();
        provider_order_is_sorted(rest);
        let before = provider_order(rest);
        lemma_sorted_position(before, last.provider);
        let k = sorted_position(before, last.provider);
        let after = before.insert(k, last);
        assert forall|i: int, j: int| 0 <= i < j < after.len() implies !text_less(
            (#[trigger] after[j]).provider,
            (#[trigger] after[i]).provider,
        ) by {
            let a = after[i].provider;
            let b = after[j].provider;
            if i == k {
                assert(after[j] == before[j - 1]);
                assert(text_less(last.provider, before[j - 1].provider));
                if text_less(b, a) {
                    text_less_transitive(a, b, a);
                    text_less_irreflexive(a);
                }
            } else if j == k {
                assert(after[i] == before[i]);
                if i < k - 1 {
                    assert(!text_less(before[k - 1].provider, before[i].provider));
                    lemma_not_less_transitive(a, before[k - 1].provider, b);
                }
            } else {
                let i2 = if i < k {
                    i
                } else {
                    i - 1
                };
                let j2 = if j < k {
                    j
                } else {
                    j - 1
                };
                assert(after[i] == before[i2] && after[j] == before[j2]);
            }
        }
        vstd::seq_lib::to_multiset_insert(before, k, last);
        assert(models =~= rest.push(last));
        vstd::seq_lib::to_multiset_build(rest, last);
    }
}

fn find_sorted_position(models: &Vec<ProviderModelInfo>, provider: &String) -> (res: usize)
    ensures
        res == sorted_position(model_contents(models@), provider@),
        res <= models@.len(),
{
    let mut k: usize = models.len();
    let ghost all = model_contents(models@);
    assert(all.take(k as int) =~= all);
    while k > 0 && is_text_less(provider.as_str(), models[k - 1].id.provider.as_str())
        invariant
            k <= models@.len(),
            all == model_contents(models@),
            sorted_position(all, provider@) == sorted_position(all.take(k as int), provider@),
        decreases k,
    {
        assert(all.take(k as int).drop_last() =~= all.take(k - 1));
        assert(all.take(k as int).last() == all[k - 1]);
        k = k - 1;
    }
    assert(k > 0 ==> all.take(k as int).last() == all[k - 1]);
    k
}

/// The complete declaration after one provider's contribution is replaced.
pub open spec fn replaced_models(
    previous: Seq<ModelContent>,
    provider: Seq<char>,
    selected: Seq<ModelContent>,
) -> Seq<ModelContent> {
    provider_order(siblings(previous, provider) + selected)
}

/// Replaces one provider's models while preserving every sibling contribution and deterministic
/// provider order.
pub fn replace_provider_models(
    previous: &Vec<ProviderModelInfo>,
    provider: &String,
    selected_profiles: &BuiltinProviderProfiles,
    catalog: &ChatGptCatalog,
) -> (res: Vec<ProviderModelInfo>)
    ensures
        model_contents(res@) == replaced_models(
            model_contents(previous@),
            provider@,
            models_of(selected_profiles.profiles(), selected_profiles.names(), catalog),
        ),
{
    let ghost all = model_contents(previous@);
    let ghost selected = models_of(
        selected_profiles.profiles(),
        selected_profiles.names(),
        catalog,
    );
    let mut unordered: Vec<ProviderModelInfo> = Vec::new();
    let mut i: usize = 0;
    assert(all.take(0) =~= Seq::<ModelContent>::empty());
    assert(model_contents(unordered@) =~= Seq::<ModelContent>::empty());
    while i < previous.len()
        invariant
            i <= previous@.len(),
            all == model_contents(previous@),
            model_contents(unordered@) == siblings(all.take(i as int), provider@),
        decreases previous@.len() - i,
    {
        let ghost before = unordered@;
        assert(all.take(i + 1).drop_last() =~= all.take(i as int));
        assert(all.take(i + 1).last() == all[i as int]);
        if !(previous[i].id.provider == *provider) {
            unordered.push(previous[i].clone());
            assert(model_contents(unordered@) =~= model_contents(before).push(all[i as int]));
        }
        i = i + 1;
    }
    assert(all.take(i as int) =~= all);
    let mut fresh = models_for_profiles(selected_profiles, catalog);
    let ghost kept = unordered@;
    let ghost added = fresh@;
    unordered.append(&mut fresh);
    assert(model_contents(unordered@) =~= model_contents(kept) + model_contents(added));
    let ghost complete = model_contents(unordered@);
    let mut ordered: Vec<ProviderModelInfo> = Vec::new();
    let mut k: usize = 0;
    assert(complete.take(0) =~= Seq::<ModelContent>::empty());
    assert(model_contents(ordered@) =~= Seq::<ModelContent>::empty());
    while k < unordered.len()
        invariant
            k <= unordered@.len(),
            complete == model_contents(unordered@),
            model_contents(ordered@) == provider_order(complete.take(k as int)),
        decreases unordered@.len() - k,
    {
        let ghost before = ordered@;
        let position: usize = find_sorted_position(&ordered, &unordered[k].id.provider);
        ordered.insert(position, unordered[k].clone());
        proof {
            assert(complete.take(k + 1).drop_last() =~= complete.take(k as int));
            assert(complete.take(k + 1).last() == complete[k as int]);
            assert(model_contents(ordered@) =~= model_contents(before).insert(
                position as int,
                complete[k as int],
            ));
        }
        k = k + 1;
    }
    assert(complete.take(k as int) =~= complete);
    ordered
}

/// Replacing one provider keeps every model of every other provider, and only the selected
/// profile contributes otherwise.
pub proof fn replacement_keeps_siblings(
    previous: Seq<ModelContent>,
    provider: Seq<char>,
    selected: Seq<ModelContent>,
)
    ensures
        in_provider_order(replaced_models(previous, provider, selected)),
        replaced_models(previous, provider, selected).to_multiset() == siblings(
            previous,
            provider,
        ).to_multiset().add(selected.to_multiset()),
        forall|model: ModelContent| #[trigger]
            previous.contains(model) && model.provider != provider ==> siblings(
                previous,
                provider,
            ).contains(model),
{
    provider_order_is_sorted(siblings(previous, provider) + selected);
    vstd::seq_lib::lemma_multiset_commutative(siblings(previous, provider), selected);
    assert forall|model: ModelContent| #[trigger]
        previous.contains(model) && model.provider != provider implies siblings(
        previous,
        provider,
    ).contains(model) by {
        lemma_sibling_kept(previous, provider, model);
    }
}

proof fn lemma_sibling_kept(previous: Seq<ModelContent>, provider: Seq<char>, model: ModelContent)
    requires
        previous.contains(model),
        model.provider != provider,
    ensures
        siblings(previous, provider).contains(model),
    decreases previous.len(),
{
    let rest = previous.drop_last();
    let kept = siblings(rest, provider);
    if previous.last() == model {
        assert(siblings(previous, provider) == kept.push(model));
        assert(kept.push(model)[kept.len() as int] == model);
    } else {
        let i = previous.index_of(model);
        assert(rest[i] == model);
        lemma_sibling_kept(rest, provider, model);
        let j = kept.index_of(model);
        if previous.last().provider != provider {
            assert(kept.push(previous.last())[j] == model);
        }
    }
}

/// A published model after the route's downgrades.
pub open spec fn downgraded(
    model: ModelContent,
    identities: Map<Seq<char>, BackendProfileIdentity>,
    unavailable: Set<u64>,
) -> ModelContent {
    if model.supports_standalone_compaction && match lookup(identities, model.provider) {
        Some(identity) => unavailable.contains(identity.hash),
        None => false,
    } {
        ModelContent {
            supports_standalone_compaction: false,
            generation_negative: true,
            threshold: None,
            ..model
        }
    } else {
        model
    }
}

/// Every published model after the routes' downgrades.
pub open spec fn downgraded_all(
    models: Seq<ModelContent>,
    identities: Map<Seq<char>, BackendProfileIdentity>,
    unavailable: Set<u64>,
) -> Seq<ModelContent> {
    Seq::new(models.len(), |i: int| downgraded(models[i], identities, unavailable))
}

/// Withdraws standalone compaction from models whose current route generation was observed to
/// lack it.
pub fn apply_compact_route_downgrades(
    models: &mut Vec<ProviderModelInfo>,
    identities: &NameTable<BackendProfileIdentity>,
    unavailable: &BTreeSet<u64>,
)
    ensures
        model_contents(final(models)@) == downgraded_all(
            model_contents(old(models)@),
            identities@,
            unavailable@,
        ),
{
    broadcast use vstd::std_specs::btree::group_btree_axioms;
    broadcast use vstd::laws_cmp::group_laws_cmp;

    let ghost before = model_contents(models@);
    let mut i: usize = 0;
    while i < models.len()
        invariant
            models@.len() == before.len(),
            i <= before.len(),
            forall|j: int|
                0 <= j < i ==> (#[trigger] models@[j]).content() == downgraded(
                    before[j],
                    identities@,
                    unavailable@,
                ),
            forall|j: int| i <= j < before.len() ==> (#[trigger] models@[j]).content() == before[j],
        decreases before.len() - i,
    {
        let negative: bool = match identities.get(models[i].id.provider.as_str()) {
            Some(identity) => unavailable.contains(&identity.hash),
            None => false,
        };
        if negative && models[i].supports_standalone_compaction {
            let model = &mut models[i];
            model.supports_standalone_compaction = false;
            model.standalone_compaction_generation_negative = true;
            model.standalone_compaction_threshold = None;
        }
        i = i + 1;
    }
    assert(model_contents(models@) =~= downgraded_all(before, identities@, unavailable@));
}

/// Compact evidence of the process: the latest identity of each provider, the identities observed
/// to lack compaction, and those just retired.
pub struct CompactEvidence {
    pub identities: Map<Seq<char>, BackendProfileIdentity>,
    pub unavailable: Set<u64>,
    pub retired: Seq<BackendProfileIdentity>,
}

/// Some provider still has `identity`.
pub open spec fn owned(
    identities: Map<Seq<char>, BackendProfileIdentity>,
    identity: BackendProfileIdentity,
) -> bool {
    exists|name: Seq<char>| #[trigger]
        identities.contains_key(name) && identities[name] == identity
}

/// The evidence after one provider's credential was compared.
pub open spec fn reconciled_one(
    evidence: CompactEvidence,
    name: Seq<char>,
    changed: bool,
) -> CompactEvidence {
    if changed && evidence.identities.contains_key(name) {
        let identity = evidence.identities[name];
        let rest = evidence.identities.remove(name);
        if owned(rest, identity) {
            CompactEvidence { identities: rest, ..evidence }
        } else {
            CompactEvidence {
                identities: rest,
                unavailable: evidence.unavailable.remove(identity.hash),
                retired: evidence.retired.push(identity),
            }
        }
    } else {
        evidence
    }
}

/// The evidence after comparing the credentials of `names` in order.
pub open spec fn reconciled_evidence(
    evidence: CompactEvidence,
    names: Seq<Seq<char>>,
    previous: Map<Seq<char>, Option<Seq<char>>>,
    current: Map<Seq<char>, Option<Seq<char>>>,
) -> CompactEvidence
    decreases names.len(),
{
    if names.len() == 0 {
        evidence
    } else {
        reconciled_one(
            reconciled_evidence(evidence, names.drop_last(), previous, current),
            names.last(),
            lookup(previous, names.last()) != lookup(current, names.last()),
        )
    }
}

/// Returns whether a route-negative result still belongs to any current provider alias sharing its
/// inference identity.
pub fn compact_negative_identity_is_owned(
    identity: BackendProfileIdentity,
    identities: &NameTable<BackendProfileIdentity>,
) -> (res: bool)
    ensures
        res == owned(identities@, identity),
{
    let n: usize = identities.len();
    let mut i: usize = 0;
    while i < n
        invariant
            n == identities.keys().len(),
            i <= n,
            forall|name: Seq<char>| #[trigger]
                identities@.contains_key(name) ==> identities.keys().contains(name),
            forall|j: int| 0 <= j < i ==> identities@[#[trigger] identities.keys()[j]] != identity,
        decreases n - i,
    {
        let current = identities.value_at(i);
        if *current == identity {
            assert(identities@.contains_key(identities.keys()[i as int]));
            return true;
        }
        i = i + 1;
    }
    proof {
        assert forall|name: Seq<char>| #[trigger] identities@.contains_key(
            name,
        ) implies identities@[name] != identity by {
            let j = identities.keys().index_of(name);
            assert(identities.keys()[j] == name);
        }
    }
    false
}

fn observation_changed(
    previous: &NameTable<CredentialObservation>,
    current: &NameTable<CredentialObservation>,
    name: &String,
) -> (res: bool)
    ensures
        res == (lookup(generations(previous@), name@) != lookup(generations(current@), name@)),
{
    match (previous.get(name.as_str()), current.get(name.as_str())) {
        (Some(a), Some(b)) => !a.same(b),
        (None, None) => false,
        _ => true,
    }
}

/// The latest compaction evidence of the process.
pub struct CompactState {
    /// Latest resolved compaction generation of each provider.
    pub identities: NameTable<BackendProfileIdentity>,
    /// Generations observed to lack standalone compaction.
    pub unavailable: BTreeSet<u64>,
}

impl CompactState {
    /// No evidence.
    pub fn new() -> (res: Self)
        ensures
            res.identities@ == Map::<Seq<char>, BackendProfileIdentity>::empty(),
            res.unavailable@ == Set::<u64>::empty(),
    {
        CompactState { identities: NameTable::new(), unavailable: BTreeSet::new() }
    }

    /// This evidence, with nothing retired.
    pub open spec fn evidence(&self) -> CompactEvidence {
        CompactEvidence {
            identities: self.identities@,
            unavailable: self.unavailable@,
            retired: Seq::empty(),
        }
    }

    fn reconcile_one(
        &mut self,
        name: &String,
        changed: bool,
        retired: &mut Vec<BackendProfileIdentity>,
    )
        ensures
            (CompactEvidence {
                identities: final(self).identities@,
                unavailable: final(self).unavailable@,
                retired: final(retired)@,
            }) == reconciled_one(
                CompactEvidence {
                    identities: old(self).identities@,
                    unavailable: old(self).unavailable@,
                    retired: old(retired)@,
                },
                name@,
                changed,
            ),
    {
        broadcast use vstd::std_specs::btree::group_btree_axioms;
        broadcast use vstd::laws_cmp::group_laws_cmp;

        if changed {
            if let Some(identity) = self.identities.remove(name.as_str()) {
                if !compact_negative_identity_is_owned(identity, &self.identities) {
                    self.unavailable.remove(&identity.hash);
                    retired.push(identity);
                }
            }
        }
    }

    fn reconcile_names(
        &mut self,
        names: &NameTable<CredentialObservation>,
        previous: &NameTable<CredentialObservation>,
        current: &NameTable<CredentialObservation>,
        retired: &mut Vec<BackendProfileIdentity>,
    )
        ensures
            (CompactEvidence {
                identities: final(self).identities@,
                unavailable: final(self).unavailable@,
                retired: final(retired)@,
            }) == reconciled_evidence(
                CompactEvidence {
                    identities: old(self).identities@,
                    unavailable: old(self).unavailable@,
                    retired: old(retired)@,
                },
                names.keys(),
                generations(previous@),
                generations(current@),
            ),
    {
        let ghost start = CompactEvidence {
            identities: self.identities@,
            unavailable: self.unavailable@,
            retired: retired@,
        };
        let ghost keys = names.keys();
        let n: usize = names.len();
        let mut i: usize = 0;
        assert(keys.take(0) =~= Seq::<Seq<char>>::empty());
        while i < n
            invariant
                keys == names.keys(),
                n == keys.len(),
                i <= n,
                (CompactEvidence {
                    identities: self.identities@,
                    unavailable: self.unavailable@,
                    retired: retired@,
                }) == reconciled_evidence(
                    start,
                    keys.take(i as int),
                    generations(previous@),
                    generations(current@),
                ),
            decreases n - i,
        {
            let name = names.key_at(i);
            let changed: bool = observation_changed(previous, current, name);
            self.reconcile_one(name, changed, retired);
            assert(keys.take(i + 1).drop_last() =~= keys.take(i as int));
            i = i + 1;
        }
        assert(keys.take(n as int) =~= keys);
    }

    /// Drops stale compact evidence without restoring aliases that share an identity. Returns the
    /// identities that no provider has any more.
    pub fn reconcile_compact_state_after_credential_changes(
        &mut self,
        previous: &NameTable<CredentialObservation>,
        current: &NameTable<CredentialObservation>,
    ) -> (res: Vec<BackendProfileIdentity>)
        ensures
            (CompactEvidence {
                identities: final(self).identities@,
                unavailable: final(self).unavailable@,
                retired: res@,
            }) == reconciled_evidence(
                reconciled_evidence(
                    old(self).evidence(),
                    previous.keys(),
                    generations(previous@),
                    generations(current@),
                ),
                current.keys(),
                generations(previous@),
                generations(current@),
            ),
    {
        let mut retired: Vec<BackendProfileIdentity> = Vec::new();
        assert(retired@ =~= Seq::<BackendProfileIdentity>::empty());
        self.reconcile_names(previous, previous, current, &mut retired);
        self.reconcile_names(current, previous, current, &mut retired);
        retired
    }
}

fn same_declaration(a: &Vec<ProviderModelInfo>, b: &Vec<ProviderModelInfo>) -> (res: bool)
    ensures
        res == (model_contents(a@) == model_contents(b@)),
{
    let ghost x = model_contents(a@);
    let ghost y = model_contents(b@);
    if a.len() != b.len() {
        assert(x.len() != y.len());
        return false;
    }
    let mut i: usize = 0;
    while i < a.len()
        invariant
            i <= a@.len(),
            a@.len() == b@.len(),
            x == model_contents(a@),
            y == model_contents(b@),
            forall|j: int| 0 <= j < i ==> #[trigger] x[j] == y[j],
        decreases a@.len() - i,
    {
        if !a[i].same(&b[i]) {
            assert(x[i as int] != y[i as int]);
            return false;
        }
        assert(x[i as int] == y[i as int]);
        i = i + 1;
    }
    assert(x =~= y);
    true
}

fn covers(
    a: &NameTable<CredentialObservation>,
    b: &NameTable<CredentialObservation>,
) -> (res: bool)
    ensures
        res == forall|name: Seq<char>| #[trigger]
            generations(a@).contains_key(name) ==> lookup(generations(b@), name) == Some(
                generations(a@)[name],
            ),
{
    let n: usize = a.len();
    let mut i: usize = 0;
    while i < n
        invariant
            n == a.keys().len(),
            i <= n,
            forall|k: int| 0 <= k < a.keys().len() ==> a@.contains_key(#[trigger] a.keys()[k]),
            forall|name: Seq<char>| #[trigger] a@.contains_key(name) ==> a.keys().contains(name),
            forall|j: int|
                0 <= j < i ==> lookup(generations(b@), #[trigger] a.keys()[j]) == Some(
                    generations(a@)[a.keys()[j]],
                ),
        decreases n - i,
    {
        let name = a.key_at(i);
        let changed: bool = observation_changed(a, b, name);
        if changed {
            assert(generations(a@).contains_key(name@));
            return false;
        }
        assert(lookup(generations(a@), name@) == Some(generations(a@)[name@]));
        i = i + 1;
    }
    proof {
        assert forall|name: Seq<char>| #[trigger] generations(a@).contains_key(
            name,
        ) implies lookup(generations(b@), name) == Some(generations(a@)[name]) by {
            assert(a@.contains_key(name));
            let j = a.keys().index_of(name);
            assert(a.keys()[j] == name);
        }
    }
    true
}

/// Compares two observation tables by content.
pub fn same_observations(
    a: &NameTable<CredentialObservation>,
    b: &NameTable<CredentialObservation>,
) -> (res: bool)
    ensures
        res == (generations(a@) == generations(b@)),
{
    let forward: bool = covers(a, b);
    let backward: bool = covers(b, a);
    proof {
        if forward && backward {
            assert(generations(a@) =~= generations(b@));
        }
    }
    forward && backward
}

/// Returns whether current local route or credential evidence replaces the last declaration.
pub fn declaration_needs_publication(
    declared_models: &Option<Vec<ProviderModelInfo>>,
    declared_observations: &Option<NameTable<CredentialObservation>>,
    models: &Vec<ProviderModelInfo>,
    observations: &NameTable<CredentialObservation>,
) -> (res: bool)
    ensures
        res == !(declared_contents(*declared_models) == Some(model_contents(models@))
            && declared_generations(*declared_observations) == Some(generations(observations@))),
{
    let models_current: bool = match declared_models {
        Some(declared) => same_declaration(declared, models),
        None => false,
    };
    let observations_current: bool = match declared_observations {
        Some(declared) => same_observations(declared, observations),
        None => false,
    };
    !(models_current && observations_current)
}

/// Contents of the last declaration.
pub open spec fn declared_contents(models: Option<Vec<ProviderModelInfo>>) -> Option<
    Seq<ModelContent>,
> {
    match models {
        Some(models) => Some(model_contents(models@)),
        None => None,
    }
}

/// Generations of the last declaration's credentials.
pub open spec fn declared_generations(
    observations: Option<NameTable<CredentialObservation>>,
) -> Option<Map<Seq<char>, Option<Seq<char>>>> {
    match observations {
        Some(observations) => Some(generations(observations@)),
        None => None,
    }
}

/// A model is published as configured, under its provider, and not yet downgraded.
pub proof fn model_is_published_as_configured(provider: Seq<char>, entry: ModelEntry)
    ensures
        published(provider, entry).provider == provider,
        published(provider, entry).model == entry.id@,
        published(provider, entry).supports_standalone_compaction
            == entry.supports_standalone_compaction,
        published(provider, entry).threshold == entry.standalone_compaction_threshold,
        published(provider, entry).detail == entry.detail,
        !published(provider, entry).generation_negative,
{
}

/// `model` is what `entry` is published as under `provider`.
pub open spec fn publishes(model: ModelContent, provider: Seq<char>, entry: ModelEntry) -> bool {
    &&& model.provider == provider
    &&& model.model == entry.id@
    &&& model.supports_standalone_compaction == entry.supports_standalone_compaction
    &&& model.threshold == entry.standalone_compaction_threshold
    &&& model.detail == entry.detail
    &&& !model.generation_negative
}

/// A profile declares every model of its own list and nothing else, in order: a generic route its
/// configured one, and a ChatGPT profile the catalog of its mode.
pub proof fn profile_declares_its_list(
    provider: Seq<char>,
    profile: ProfileContent,
    catalog: &ChatGptCatalog,
    i: int,
)
    ensures
        ({
            let declared = profile_models(provider, profile, catalog);
            let list = match profile {
                ProfileContent::Chatgpt { lite_compatibility, .. } => if lite_compatibility {
                    catalog.lite@
                } else {
                    catalog.standard@
                },
                ProfileContent::ChatCompletions(route) => route.models,
                ProfileContent::OpenRouter(route) => route.models,
                ProfileContent::Responses(route) => route.models,
            };
            &&& declared.len() == list.len()
            &&& 0 <= i < list.len() ==> publishes(declared[i], provider, list[i])
        }),
{
}

/// The declaration of several profiles holds every model of each of them.
pub proof fn declaration_holds_every_profile(
    profiles: Map<Seq<char>, ProfileContent>,
    names: Seq<Seq<char>>,
    catalog: &ChatGptCatalog,
    n: int,
    i: int,
)
    requires
        0 <= n < names.len(),
        0 <= i < profile_models(names[n], profiles[names[n]], catalog).len(),
    ensures
        models_of(profiles, names, catalog).contains(
            profile_models(names[n], profiles[names[n]], catalog)[i],
        ),
    decreases names.len(),
{
    let all = models_of(profiles, names, catalog);
    let init = names.drop_last();
    let before = models_of(profiles, init, catalog);
    let model = profile_models(names[n], profiles[names[n]], catalog)[i];
    if n < init.len() {
        declaration_holds_every_profile(profiles, init, catalog, n, i);
        let p = before.index_of(model);
        assert(all[p] == model);
    } else {
        assert(all[before.len() + i] == model);
    }
}

/// A declaration holds nothing but models of the declared providers.
pub proof fn declaration_holds_only_its_profiles(
    profiles: Map<Seq<char>, ProfileContent>,
    names: Seq<Seq<char>>,
    catalog: &ChatGptCatalog,
    p: int,
)
    requires
        0 <= p < models_of(profiles, names, catalog).len(),
    ensures
        names.contains(models_of(profiles, names, catalog)[p].provider),
    decreases names.len(),
{
    let all = models_of(profiles, names, catalog);
    let init = names.drop_last();
    let before = models_of(profiles, init, catalog);
    if p < before.len() {
        declaration_holds_only_its_profiles(profiles, init, catalog, p);
        let k = init.index_of(before[p].provider);
        assert(names[k] == all[p].provider);
    } else {
        profile_declares_its_list(
            names.last(),
            profiles[names.last()],
            catalog,
            p - before.len(),
        );
        assert(names[names.len() - 1] == all[p].provider);
    }
}

proof fn lemma_siblings(models: Seq<ModelContent>, provider: Seq<char>, model: ModelContent)
    ensures
        siblings(models, provider).contains(model) <==> models.contains(model) && model.provider
            != provider,
    decreases models.len(),
{
    let kept = siblings(models, provider);
    if models.len() == 0 {
        assert(!kept.contains(model));
    } else {
        let init = models.drop_last();
        let before = siblings(init, provider);
        lemma_siblings(init, provider, model);
        if before.contains(model) {
            let p = before.index_of(model);
            assert(kept[p] == model);
            let q = init.index_of(model);
            assert(models[q] == model);
        }
        if kept.contains(model) && !before.contains(model) {
            let p = kept.index_of(model);
            if p < before.len() {
                assert(before[p] == model);
            }
            assert(models[models.len() - 1] == model);
        }
        if models.contains(model) && !init.contains(model) {
            let p = models.index_of(model);
            if p < init.len() {
                assert(init[p] == model);
            }
            if model.provider != provider {
                assert(kept[kept.len() - 1] == model);
            }
        }
    }
}

/// Replacing one provider's models drops all of its old ones, adds all of the new ones, and keeps
/// those of every other provider.
pub proof fn replacement_is_exact(
    previous: Seq<ModelContent>,
    provider: Seq<char>,
    selected: Seq<ModelContent>,
    model: ModelContent,
)
    ensures
        replaced_models(previous, provider, selected).contains(model) <==> selected.contains(model)
            || previous.contains(model) && model.provider != provider,
{
    let all = siblings(previous, provider) + selected;
    let after = replaced_models(previous, provider, selected);
    provider_order_is_sorted(all);
    lemma_siblings(previous, provider, model);
    vstd::seq_lib::to_multiset_contains(all, model);
    vstd::seq_lib::to_multiset_contains(after, model);
    assert(after.contains(model) <==> all.contains(model));
    if selected.contains(model) {
        let p = selected.index_of(model);
        assert(all[siblings(previous, provider).len() + p] == model);
    }
    if siblings(previous, provider).contains(model) {
        let p = siblings(previous, provider).index_of(model);
        assert(all[p] == model);
    }
    if all.contains(model) {
        let p = all.index_of(model);
        if p < siblings(previous, provider).len() {
            assert(siblings(previous, provider)[p] == model);
        } else {
            assert(selected[p - siblings(previous, provider).len()] == model);
        }
    }
}

/// The models of one provider, in the order in which they stand.
pub open spec fn of_provider(models: Seq<ModelContent>, provider: Seq<char>) -> Seq<ModelContent>
    decreases models.len(),
{
    if models.len() == 0 {
        Seq::empty()
    } else if models.last().provider == provider {
        of_provider(models.drop_last(), provider).push(models.last())
    } else {
        of_provider(models.drop_last(), provider)
    }
}

proof fn lemma_of_provider_joined(
    a: Seq<ModelContent>,
    b: Seq<ModelContent>,
    provider: Seq<char>,
)
    ensures
        of_provider(a + b, provider) == of_provider(a, provider) + of_provider(b, provider),
    decreases b.len(),
{
    if b.len() == 0 {
        assert(a + b =~= a);
        assert(of_provider(a, provider) + of_provider(b, provider) =~= of_provider(a, provider));
    } else {
        assert((a + b).drop_last() =~= a + b.drop_last());
        lemma_of_provider_joined(a, b.drop_last(), provider);
        assert((a + b).last() == b.last());
        assert(of_provider(a + b, provider) =~= of_provider(a, provider) + of_provider(b, provider));
    }
}

proof fn lemma_of_no_provider(models: Seq<ModelContent>, provider: Seq<char>)
    requires
        forall|i: int| 0 <= i < models.len() ==> (#[trigger] models[i]).provider != provider,
    ensures
        of_provider(models, provider).len() == 0,
    decreases models.len(),
{
    if models.len() > 0 {
        let init = models.drop_last();
        assert forall|i: int| 0 <= i < init.len() implies (#[trigger] init[i]).provider
            != provider by {
            assert(init[i] == models[i]);
        }
        assert(models[models.len() - 1].provider != provider);
        lemma_of_no_provider(init, provider);
    }
}

/// Ordering by provider never reorders the models of one provider.
pub proof fn provider_order_is_stable(models: Seq<ModelContent>, provider: Seq<char>)
    ensures
        of_provider(provider_order(models), provider) == of_provider(models, provider),
    decreases models.len(),
{
    if models.len() > 0 {
        let init = models.drop_last();
        let before = provider_order(init);
        let model = models.last();
        let at = sorted_position(before, model.provider);
        provider_order_is_stable(init, provider);
        provider_order_is_sorted(init);
        lemma_sorted_position(before, model.provider);
        let head = before.take(at);
        let tail = before.skip(at);
        assert(before =~= head + tail);
        assert(before.insert(at, model) =~= head + (seq![model] + tail));
        lemma_of_provider_joined(head, tail, provider);
        lemma_of_provider_joined(seq![model], tail, provider);
        lemma_of_provider_joined(head, seq![model] + tail, provider);
        assert(seq![model].drop_last() =~= Seq::<ModelContent>::empty());
        assert(of_provider(seq![model], provider) =~= if model.provider == provider {
            seq![model]
        } else {
            Seq::empty()
        }) by {
            reveal_with_fuel(of_provider, 2);
        }
        if model.provider == provider {
            assert forall|i: int| 0 <= i < tail.len() implies (#[trigger] tail[i]).provider
                != provider by {
                assert(tail[i] == before[at + i]);
                assert(text_less(provider, before[at + i].provider));
                if before[at + i].provider == provider {
                    text_less_irreflexive(provider);
                }
            }
            lemma_of_no_provider(tail, provider);
            assert(of_provider(tail, provider) =~= Seq::<ModelContent>::empty());
        }
        assert(of_provider(provider_order(models), provider) =~= of_provider(models, provider));
    }
}

/// A model loses standalone compaction exactly when the current generation of its provider is
/// known to lack it, and then it says so; nothing else of any model changes.
pub proof fn missing_route_downgrades_its_provider(
    model: ModelContent,
    identities: Map<Seq<char>, BackendProfileIdentity>,
    unavailable: Set<u64>,
)
    ensures
        ({
            let after = downgraded(model, identities, unavailable);
            let lacking = identities.contains_key(model.provider) && unavailable.contains(
                identities[model.provider].hash,
            );
            &&& after.provider == model.provider
            &&& after.model == model.model
            &&& after.detail == model.detail
            &&& lacking ==> !after.supports_standalone_compaction
            &&& !lacking ==> after == model
            &&& lacking && model.supports_standalone_compaction ==> after.generation_negative
                && after.threshold is None
            &&& !model.supports_standalone_compaction ==> after == model
        }),
{
}

/// Downgrading keeps the declaration's length and places.
pub proof fn downgrade_keeps_places(
    models: Seq<ModelContent>,
    identities: Map<Seq<char>, BackendProfileIdentity>,
    unavailable: Set<u64>,
    i: int,
)
    requires
        0 <= i < models.len(),
    ensures
        downgraded_all(models, identities, unavailable).len() == models.len(),
        downgraded_all(models, identities, unavailable)[i].provider == models[i].provider,
        downgraded_all(models, identities, unavailable)[i].model == models[i].model,
        downgraded_all(models, identities, unavailable)[i].detail == models[i].detail,
{
}

/// A changed credential forgets its provider's generation, and with its last owner the evidence
/// against that generation; another owner keeps it, and an unchanged credential changes nothing.
pub proof fn changed_credential_forgets_its_evidence(
    evidence: CompactEvidence,
    name: Seq<char>,
    changed: bool,
    other: Seq<char>,
)
    ensures
        ({
            let after = reconciled_one(evidence, name, changed);
            &&& !changed || !evidence.identities.contains_key(name) ==> after == evidence
            &&& changed ==> !after.identities.contains_key(name)
            &&& other != name && evidence.identities.contains_key(other)
                ==> after.identities.contains_key(other) && after.identities[other]
                == evidence.identities[other]
            &&& changed && evidence.identities.contains_key(name) && other != name
                && evidence.identities.contains_key(other) && evidence.identities[other]
                == evidence.identities[name] ==> after.unavailable == evidence.unavailable
                && after.retired == evidence.retired
            &&& changed && evidence.identities.contains_key(name) && (forall|owner: Seq<char>|
                owner != name && #[trigger] evidence.identities.contains_key(owner)
                    ==> evidence.identities[owner] != evidence.identities[name]) ==> {
                &&& !after.unavailable.contains(evidence.identities[name].hash)
                &&& after.retired.len() == evidence.retired.len() + 1
                &&& after.retired.last() == evidence.identities[name]
            }
        }),
{
    let rest = evidence.identities.remove(name);
    if other != name && evidence.identities.contains_key(other) {
        assert(rest.contains_key(other));
    }
    if changed && evidence.identities.contains_key(name) {
        let identity = evidence.identities[name];
        if owned(rest, identity) {
            let owner = choose|owner: Seq<char>| #[trigger]
                rest.contains_key(owner) && rest[owner] == identity;
            assert(evidence.identities.contains_key(owner));
        }
    }
}

} // verus!
