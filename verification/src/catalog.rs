//! The catalog of models: which providers it keeps, what is known of their
//! capabilities, and how it is shown.

use crate::text;
use crate::text::{concat, concat3, concat5, decimal_text, same_text};
use crate::text_map::TextMap;
use vstd::prelude::*;

verus! {

/// Whether two snapshots of the catalog are the same, character by character.
pub fn verify_snapshot_bytes(fresh_canonical: &str, committed: &str) -> (r: bool)
    ensures
        r == (fresh_canonical@ == committed@),
{
    same_text(fresh_canonical, committed)
}

/// The file form of a catalog that has been written as JSON: a line feed follows.
pub fn canonicalize_json(json: &str) -> (r: String)
    ensures
        r@ == json@ + "\n"@,
{
    concat(json, "\n")
}

pub open spec fn is_one_of(providers: Seq<Seq<char>>, id: Seq<char>) -> bool {
    exists|i: int| 0 <= i < providers.len() && #[trigger] providers[i] == id
}

fn one_of(providers: &Vec<String>, id: &str) -> (r: bool)
    ensures
        r == is_one_of(providers.deep_view(), id@),
{
    let mut i: usize = 0;
    while i < providers.len()
        invariant
            i <= providers.len(),
            forall|k: int| 0 <= k < i ==> #[trigger] providers.deep_view()[k] != id@,
        decreases providers.len() - i,
    {
        if same_text(providers[i].as_str(), id) {
            assert(providers.deep_view()[i as int] == id@);
            return true;
        }
        i += 1;
    }
    false
}

/// The entries of a catalog whose providers are wanted, in their order.
pub open spec fn wanted_entries<P>(
    entries: Seq<(String, P)>,
    providers: Seq<Seq<char>>,
) -> Seq<(String, P)>
    decreases entries.len(),
{
    if entries.len() == 0 {
        Seq::empty()
    } else {
        let before = wanted_entries(entries.drop_last(), providers);
        if is_one_of(providers, entries.last().0@) {
            before.push(entries.last())
        } else {
            before
        }
    }
}

/// Keeps the wanted providers of a catalog.
pub fn filter_catalog<P>(full: Vec<(String, P)>, providers: &Vec<String>) -> (r: Vec<(String, P)>)
    ensures
        r@ == wanted_entries(full@, providers.deep_view()),
{
    let ghost entries = full@;
    let mut kept: Vec<(String, P)> = Vec::new();
    proof {
        assert(entries.take(0) =~= Seq::empty());
        assert(kept@ =~= Seq::empty());
    }
    for entry in it: full
        invariant
            it.seq() == entries,
            kept@ == wanted_entries(entries.take(it.index() as int), providers.deep_view()),
    {
        proof {
            let at = it.index() as int;
            assert(entries.take(at + 1).drop_last() =~= entries.take(at));
            assert(entries.take(at + 1).last() == entry);
        }
        if one_of(providers, entry.0.as_str()) {
            kept.push(entry);
        }
    }
    proof {
        assert(entries.take(entries.len() as int) =~= entries);
    }
    kept
}

/// Every provider that is kept is wanted, every wanted one that was there is kept, and
/// what is kept of it is what was there.
pub proof fn law_filter_keeps_exactly_the_wanted<P>(
    entries: Seq<(String, P)>,
    providers: Seq<Seq<char>>,
    entry: (String, P),
)
    ensures
        wanted_entries(entries, providers).contains(entry) <==> entries.contains(entry)
            && is_one_of(providers, entry.0@),
    decreases entries.len(),
{
    if entries.len() > 0 {
        let first = entries.drop_last();
        law_filter_keeps_exactly_the_wanted(first, providers, entry);
        let before = wanted_entries(first, providers);
        assert(entries.contains(entry) <==> first.contains(entry) || entry == entries.last()) by {
            if entries.contains(entry) {
                let i = choose|i: int| 0 <= i < entries.len() && entries[i] == entry;
                if i < entries.len() - 1 {
                    assert(first[i] == entry);
                }
            }
            if first.contains(entry) {
                let i = choose|i: int| 0 <= i < first.len() && first[i] == entry;
                assert(entries[i] == entry);
            }
            assert(entries[entries.len() - 1] == entries.last());
        }
        assert(before.push(entries.last()).contains(entry) <==> before.contains(entry) || entry
            == entries.last()) by {
            if before.contains(entry) {
                let i = choose|i: int| 0 <= i < before.len() && before[i] == entry;
                assert(before.push(entries.last())[i] == entry);
            }
            assert(before.push(entries.last())[before.len() as int] == entries.last());
        }
    }
}

/// What is known of a model's or a provider's capabilities beyond the catalog.
#[derive(Debug, Clone, Copy, PartialEq, Eq)]
pub struct CapsOverrideEntry {
    pub supports_streaming: Option<bool>,
    pub supports_tools: Option<bool>,
    pub deprecated: Option<bool>,
}

impl Default for CapsOverrideEntry {
    fn default() -> (r: Self)
        ensures
            r == (CapsOverrideEntry {
                supports_streaming: None,
                supports_tools: None,
                deprecated: None,
            }),
    {
        CapsOverrideEntry { supports_streaming: None, supports_tools: None, deprecated: None }
    }
}

/// What is known of capabilities: by model, under `provider/model`, and by provider.
#[derive(Debug, PartialEq, Eq)]
pub struct CapsOverrides {
    pub overrides: TextMap<CapsOverrideEntry>,
    pub provider_defaults: TextMap<CapsOverrideEntry>,
}

impl Default for CapsOverrides {
    fn default() -> (r: Self)
        ensures
            r.well_formed(),
            r.overrides@ == Map::<Seq<char>, CapsOverrideEntry>::empty(),
            r.provider_defaults@ == Map::<Seq<char>, CapsOverrideEntry>::empty(),
    {
        CapsOverrides { overrides: TextMap::new(), provider_defaults: TextMap::new() }
    }
}

impl CapsOverrides {
    pub open spec fn well_formed(self) -> bool {
        self.overrides.well_formed() && self.provider_defaults.well_formed()
    }

    /// A model of a provider is marked as deprecated.
    pub open spec fn deprecates(self, provider: Seq<char>, model: Seq<char>) -> bool {
        let key = provider + "/"@ + model;
        self.overrides@.dom().contains(key) && self.overrides@[key].deprecated == Some(true)
    }

    /// Whether a model of a provider is marked as deprecated.
    pub fn is_deprecated(&self, provider: &str, model: &str) -> (r: bool)
        requires
            self.well_formed(),
        ensures
            r == self.deprecates(provider@, model@),
    {
        let key = concat3(provider, "/", model);
        match self.overrides.get(key.as_str()) {
            Some(entry) => match entry.deprecated {
                Some(deprecated) => deprecated,
                None => false,
            },
            None => false,
        }
    }
}

/// What a provider is taken to support where nothing else is known: streaming.
pub open spec fn assumed_capabilities() -> CapsOverrideEntry {
    CapsOverrideEntry { supports_streaming: Some(true), supports_tools: None, deprecated: None }
}

/// The defaults with an entry for each of the providers.
pub open spec fn with_defaults(
    defaults: Map<Seq<char>, CapsOverrideEntry>,
    providers: Seq<Seq<char>>,
) -> Map<Seq<char>, CapsOverrideEntry>
    decreases providers.len(),
{
    if providers.len() == 0 {
        defaults
    } else {
        let before = with_defaults(defaults, providers.drop_last());
        if before.dom().contains(providers.last()) {
            before
        } else {
            before.insert(providers.last(), assumed_capabilities())
        }
    }
}

/// Gives every provider without one an entry. Entries that are there stay.
pub fn merge_overrides(existing: CapsOverrides, providers: &Vec<String>) -> (r: CapsOverrides)
    requires
        existing.well_formed(),
    ensures
        r.well_formed(),
        r.overrides == existing.overrides,
        r.provider_defaults@ == with_defaults(
            existing.provider_defaults@,
            providers.deep_view(),
        ),
{
    let mut merged = existing;
    let ghost names = providers.deep_view();
    let ghost start = existing.provider_defaults@;
    let mut i: usize = 0;
    proof {
        assert(names.take(0) =~= Seq::empty());
    }
    while i < providers.len()
        invariant
            i <= providers.len(),
            names == providers.deep_view(),
            merged.well_formed(),
            merged.overrides == existing.overrides,
            merged.provider_defaults@ == with_defaults(start, names.take(i as int)),
        decreases providers.len() - i,
    {
        proof {
            assert(names.take(i as int + 1).drop_last() =~= names.take(i as int));
            assert(names.take(i as int + 1).last() == providers@[i as int]@);
        }
        if !merged.provider_defaults.contains_key(providers[i].as_str()) {
            merged.provider_defaults.insert(
                providers[i].clone(),
                CapsOverrideEntry {
                    supports_streaming: Some(true),
                    supports_tools: None,
                    deprecated: None,
                },
            );
        }
        i += 1;
    }
    proof {
        assert(names.take(i as int) =~= names);
    }
    merged
}

/// Merging loses nothing and makes nothing up: an entry that was there is there as it
/// was, each of the providers has one, and nobody else has got one.
pub proof fn law_merge_adds_only_what_is_missing(
    defaults: Map<Seq<char>, CapsOverrideEntry>,
    providers: Seq<Seq<char>>,
    name: Seq<char>,
)
    ensures
        ({
            let merged = with_defaults(defaults, providers);
            &&& merged.dom().contains(name) <==> defaults.dom().contains(name) || is_one_of(
                providers,
                name,
            )
            &&& defaults.dom().contains(name) ==> merged[name] == defaults[name]
            &&& !defaults.dom().contains(name) && is_one_of(providers, name) ==> merged[name]
                == assumed_capabilities()
        }),
    decreases providers.len(),
{
    if providers.len() > 0 {
        let first = providers.drop_last();
        law_merge_adds_only_what_is_missing(defaults, first, name);
        assert(is_one_of(providers, name) <==> is_one_of(first, name) || name
            == providers.last()) by {
            if is_one_of(providers, name) {
                let i = choose|i: int| 0 <= i < providers.len() && #[trigger] providers[i] == name;
                if i < providers.len() - 1 {
                    assert(first[i] == name);
                }
            }
            if is_one_of(first, name) {
                let i = choose|i: int| 0 <= i < first.len() && #[trigger] first[i] == name;
                assert(providers[i] == name);
            }
            assert(providers[providers.len() - 1] == providers.last());
        }
    }
}

/// A provider of the catalog, and the names of its models.
#[derive(Debug, PartialEq, Eq)]
pub struct ProviderModels {
    pub provider: String,
    pub models: Vec<String>,
}

/// The model of a [`ProviderModels`].
pub struct ListedProvider {
    pub provider: Seq<char>,
    pub models: Seq<Seq<char>>,
}

impl DeepView for ProviderModels {
    type V = ListedProvider;

    open spec fn deep_view(&self) -> ListedProvider {
        ListedProvider { provider: self.provider@, models: self.models.deep_view() }
    }
}

/// How many models of a provider a catalog lists: those of its first entry for it.
pub open spec fn model_count(catalog: Seq<ListedProvider>, provider: Seq<char>) -> nat
    decreases catalog.len(),
{
    if catalog.len() == 0 {
        0
    } else if catalog[0].provider == provider {
        catalog[0].models.len()
    } else {
        model_count(catalog.skip(1), provider)
    }
}

fn count_models(catalog: &Vec<ProviderModels>, provider: &str) -> (r: usize)
    ensures
        r == model_count(catalog.deep_view(), provider@),
{
    let ghost models = catalog.deep_view();
    let mut i: usize = 0;
    proof {
        assert(models.skip(0) =~= models);
    }
    while i < catalog.len()
        invariant
            i <= catalog.len(),
            models == catalog.deep_view(),
            model_count(models, provider@) == model_count(models.skip(i as int), provider@),
        decreases catalog.len() - i,
    {
        proof {
            assert(models.skip(i as int)[0] == catalog@[i as int].deep_view());
            assert(models.skip(i as int).skip(1) =~= models.skip(i as int + 1));
        }
        if same_text(catalog[i].provider.as_str(), provider) {
            return catalog[i].models.len();
        }
        i += 1;
    }
    0
}

/// A provider whose number of models has changed.
#[derive(Debug, PartialEq, Eq)]
pub struct CatalogDrift {
    pub provider: String,
    pub committed: usize,
    pub fresh: usize,
}

/// The model of a [`CatalogDrift`].
pub struct DriftModel {
    pub provider: Seq<char>,
    pub committed: nat,
    pub fresh: nat,
}

impl DeepView for CatalogDrift {
    type V = DriftModel;

    open spec fn deep_view(&self) -> DriftModel {
        DriftModel {
            provider: self.provider@,
            committed: self.committed as nat,
            fresh: self.fresh as nat,
        }
    }
}

/// The providers whose number of models differs between two catalogs.
pub open spec fn drift_of(
    committed: Seq<ListedProvider>,
    fresh: Seq<ListedProvider>,
    providers: Seq<Seq<char>>,
) -> Seq<DriftModel>
    decreases providers.len(),
{
    if providers.len() == 0 {
        Seq::empty()
    } else {
        let before = drift_of(committed, fresh, providers.drop_last());
        let name = providers.last();
        if model_count(committed, name) != model_count(fresh, name) {
            before.push(
                DriftModel {
                    provider: name,
                    committed: model_count(committed, name),
                    fresh: model_count(fresh, name),
                },
            )
        } else {
            before
        }
    }
}

/// The providers whose number of models differs between the committed catalog and a
/// fresh one.
pub fn catalog_drift(
    committed: &Vec<ProviderModels>,
    fresh: &Vec<ProviderModels>,
    providers: &Vec<String>,
) -> (r: Vec<CatalogDrift>)
    ensures
        r.deep_view() == drift_of(
            committed.deep_view(),
            fresh.deep_view(),
            providers.deep_view(),
        ),
{
    let ghost names = providers.deep_view();
    let mut drift: Vec<CatalogDrift> = Vec::new();
    let mut i: usize = 0;
    proof {
        assert(names.take(0) =~= Seq::empty());
        assert(drift.deep_view() =~= Seq::empty());
    }
    while i < providers.len()
        invariant
            i <= providers.len(),
            names == providers.deep_view(),
            drift.deep_view() == drift_of(
                committed.deep_view(),
                fresh.deep_view(),
                names.take(i as int),
            ),
        decreases providers.len() - i,
    {
        let ghost before = drift.deep_view();
        proof {
            assert(names.take(i as int + 1).drop_last() =~= names.take(i as int));
            assert(names.take(i as int + 1).last() == providers@[i as int]@);
        }
        let old_count: usize = count_models(committed, providers[i].as_str());
        let new_count: usize = count_models(fresh, providers[i].as_str());
        if old_count != new_count {
            let entry = CatalogDrift {
                provider: providers[i].clone(),
                committed: old_count,
                fresh: new_count,
            };
            drift.push(entry);
            proof {
                assert(drift.deep_view() =~= before.push(entry.deep_view()));
            }
        }
        i += 1;
    }
    proof {
        assert(names.take(i as int) =~= names);
    }
    drift
}

/// A line for every model.
pub open spec fn model_lines(models: Seq<Seq<char>>) -> Seq<char>
    decreases models.len(),
{
    if models.len() == 0 {
        Seq::empty()
    } else {
        model_lines(models.drop_last()) + ("  - "@ + models.last() + "\n"@)
    }
}

/// The lines about a provider.
pub open spec fn provider_lines(listed: ListedProvider) -> Seq<char> {
    "\n"@ + listed.provider + " ("@ + text::decimal(listed.models.len()) + " models):\n"@
        + model_lines(listed.models)
}

pub open spec fn all_provider_lines(catalog: Seq<ListedProvider>) -> Seq<char>
    decreases catalog.len(),
{
    if catalog.len() == 0 {
        Seq::empty()
    } else {
        all_provider_lines(catalog.drop_last()) + provider_lines(catalog.last())
    }
}

/// How many models a catalog lists in all.
pub open spec fn total_models(catalog: Seq<ListedProvider>) -> nat
    decreases catalog.len(),
{
    if catalog.len() == 0 {
        0
    } else {
        total_models(catalog.drop_last()) + catalog.last().models.len()
    }
}

/// A catalog as it is shown.
pub open spec fn summary_of(catalog: Seq<ListedProvider>) -> Seq<char> {
    "Pinned Model Catalog\n====================\n"@ + all_provider_lines(catalog) + (
    "\nTotal: "@ + text::decimal(total_models(catalog)) + " models across "@ + text::decimal(catalog.len())
        + " providers\n"@)
}

proof fn lemma_first_models(catalog: Seq<ListedProvider>, upto: int)
    requires
        0 <= upto <= catalog.len(),
    ensures
        total_models(catalog.take(upto)) <= total_models(catalog),
    decreases catalog.len() - upto,
{
    if upto == catalog.len() {
        assert(catalog.take(upto) =~= catalog);
    } else {
        assert(catalog.take(upto + 1).drop_last() =~= catalog.take(upto));
        lemma_first_models(catalog, upto + 1);
    }
}

fn append_model_lines(out: &mut String, models: &Vec<String>)
    ensures
        final(out)@ == old(out)@ + model_lines(models.deep_view()),
{
    let ghost start = out@;
    let ghost names = models.deep_view();
    let mut i: usize = 0;
    proof {
        assert(names.take(0) =~= Seq::empty());
        assert(start + Seq::<char>::empty() =~= start);
    }
    while i < models.len()
        invariant
            i <= models.len(),
            names == models.deep_view(),
            out@ == start + model_lines(names.take(i as int)),
        decreases models.len() - i,
    {
        proof {
            assert(names.take(i as int + 1).drop_last() =~= names.take(i as int));
            assert(names.take(i as int + 1).last() == models@[i as int]@);
        }
        let line = concat3("  - ", models[i].as_str(), "\n");
        out.append(line.as_str());
        proof {
            assert(start + model_lines(names.take(i as int)) + line@ =~= start + (model_lines(
                names.take(i as int),
            ) + line@));
        }
        i += 1;
    }
    proof {
        assert(names.take(i as int) =~= names);
    }
}

/// A catalog as it is shown.
pub fn show_catalog_summary(catalog: &Vec<ProviderModels>) -> (r: String)
    requires
        total_models(catalog.deep_view()) <= u64::MAX,
    ensures
        r@ == summary_of(catalog.deep_view()),
{
    let ghost models = catalog.deep_view();
    let ghost title = "Pinned Model Catalog\n====================\n"@;
    let mut out = "Pinned Model Catalog\n====================\n".to_owned();
    let mut total: u64 = 0;
    let mut i: usize = 0;
    proof {
        assert(models.take(0) =~= Seq::empty());
        assert(title + Seq::<char>::empty() =~= title);
    }
    while i < catalog.len()
        invariant
            i <= catalog.len(),
            models == catalog.deep_view(),
            total_models(models) <= u64::MAX,
            total == total_models(models.take(i as int)),
            out@ == title + all_provider_lines(models.take(i as int)),
        decreases catalog.len() - i,
    {
        let listed = &catalog[i];
        proof {
            assert(models.take(i as int + 1).drop_last() =~= models.take(i as int));
            assert(models.take(i as int + 1).last() == listed.deep_view());
            lemma_first_models(models, i as int + 1);
        }
        let count = decimal_text(listed.models.len() as u64);
        let head = concat5("\n", listed.provider.as_str(), " (", count.as_str(), " models):\n");
        let ghost before = out@;
        out.append(head.as_str());
        append_model_lines(&mut out, &listed.models);
        proof {
            assert(out@ =~= before + provider_lines(listed.deep_view()));
            assert(out@ =~= title + (all_provider_lines(models.take(i as int)) + provider_lines(
                listed.deep_view(),
            )));
        }
        total = total + listed.models.len() as u64;
        i += 1;
    }
    proof {
        assert(models.take(i as int) =~= models);
    }
    let total_text = decimal_text(total);
    let providers_text = decimal_text(catalog.len() as u64);
    let last = concat5(
        "\nTotal: ",
        total_text.as_str(),
        " models across ",
        providers_text.as_str(),
        " providers\n",
    );
    out.append(last.as_str());
    out
}

/// Two snapshots are the same where every character is, and the file form of a catalog ends
/// with one line feed more than its JSON.
pub proof fn law_snapshots_are_told_apart(
    one: &str,
    other: &str,
    same: bool,
    first: String,
    second: String,
)
    requires
        call_ensures(verify_snapshot_bytes, (one, other), same),
        call_ensures(canonicalize_json, (one,), first),
        call_ensures(canonicalize_json, (other,), second),
    ensures
        same <==> first@ == second@,
        first@.len() == one@.len() + 1,
        first@.last() == '\n',
        first@.drop_last() == one@,
{
    reveal_strlit("\n");
    assert("\n"@ =~= seq!['\n']);
    assert(first@.drop_last() =~= one@);
    assert(second@.drop_last() =~= other@);
}

/// A filtered catalog holds the providers that are wanted, each as it was, and nobody else.
pub proof fn law_wanted_providers_are_kept<P>(
    full: Vec<(String, P)>,
    providers: Vec<String>,
    r: Vec<(String, P)>,
    i: int,
    k: int,
)
    requires
        call_ensures(filter_catalog::<P>, (full, &providers), r),
    ensures
        0 <= i < full@.len() && 0 <= k < providers@.len() && full@[i].0@ == providers@[k]@
            ==> r@.contains(full@[i]),
        0 <= i < r@.len() ==> full@.contains(r@[i]) && (exists|j: int|
            0 <= j < providers@.len() && (#[trigger] providers@[j])@ == r@[i].0@),
{
    text::lemma_list(providers);
    let names = providers.deep_view();
    if 0 <= i < full@.len() && 0 <= k < providers@.len() && full@[i].0@ == providers@[k]@ {
        assert(names[k] == full@[i].0@);
        assert(full@.contains(full@[i]));
        law_filter_keeps_exactly_the_wanted(full@, names, full@[i]);
    }
    if 0 <= i < r@.len() {
        assert(r@.contains(r@[i]));
        law_filter_keeps_exactly_the_wanted(full@, names, r@[i]);
        let j = choose|j: int| 0 <= j < names.len() && #[trigger] names[j] == r@[i].0@;
        assert(providers@[j]@ == r@[i].0@);
    }
}

/// Merged overrides hold what was there, and for each provider without an entry that it
/// streams and nothing else.
pub proof fn law_missing_defaults_are_added(
    existing: CapsOverrides,
    providers: Vec<String>,
    r: CapsOverrides,
    name: Seq<char>,
    k: int,
)
    requires
        existing.well_formed(),
        call_ensures(merge_overrides, (existing, &providers), r),
    ensures
        r.overrides@ == existing.overrides@,
        existing.provider_defaults@.dom().contains(name) ==> r.provider_defaults@.dom().contains(
            name,
        ) && r.provider_defaults@[name] == existing.provider_defaults@[name],
        0 <= k < providers@.len() && !existing.provider_defaults@.dom().contains(providers@[k]@)
            ==> r.provider_defaults@.dom().contains(providers@[k]@)
            && r.provider_defaults@[providers@[k]@].supports_streaming == Some(true)
            && r.provider_defaults@[providers@[k]@].supports_tools is None
            && r.provider_defaults@[providers@[k]@].deprecated is None,
{
    text::lemma_list(providers);
    let names = providers.deep_view();
    law_merge_adds_only_what_is_missing(existing.provider_defaults@, names, name);
    if 0 <= k < providers@.len() {
        assert(names[k] == providers@[k]@);
        law_merge_adds_only_what_is_missing(existing.provider_defaults@, names, names[k]);
    }
}

/// A model is deprecated where the entry under its provider and its name says so, and only
/// there.
pub proof fn law_deprecated_models_are_marked(
    overrides: CapsOverrides,
    provider: &str,
    model: &str,
    r: bool,
)
    requires
        overrides.well_formed(),
        call_ensures(CapsOverrides::is_deprecated, (&overrides, provider, model), r),
    ensures
        r <==> overrides.overrides@.dom().contains(provider@ + "/"@ + model@)
            && overrides.overrides@[provider@ + "/"@ + model@].deprecated == Some(true),
{
}

proof fn lemma_drift_found(
    committed: Seq<ListedProvider>,
    fresh: Seq<ListedProvider>,
    providers: Seq<Seq<char>>,
    k: int,
) -> (at: int)
    requires
        0 <= k < providers.len(),
        model_count(committed, providers[k]) != model_count(fresh, providers[k]),
    ensures
        0 <= at < drift_of(committed, fresh, providers).len(),
        drift_of(committed, fresh, providers)[at].provider == providers[k],
        drift_of(committed, fresh, providers)[at].committed == model_count(
            committed,
            providers[k],
        ),
        drift_of(committed, fresh, providers)[at].fresh == model_count(fresh, providers[k]),
    decreases providers.len(),
{
    if k == providers.len() - 1 {
        drift_of(committed, fresh, providers.drop_last()).len() as int
    } else {
        lemma_drift_found(committed, fresh, providers.drop_last(), k)
    }
}

proof fn lemma_drift_is_drift(
    committed: Seq<ListedProvider>,
    fresh: Seq<ListedProvider>,
    providers: Seq<Seq<char>>,
    at: int,
)
    requires
        0 <= at < drift_of(committed, fresh, providers).len(),
    ensures
        drift_of(committed, fresh, providers)[at].committed != drift_of(
            committed,
            fresh,
            providers,
        )[at].fresh,
    decreases providers.len(),
{
    let before = drift_of(committed, fresh, providers.drop_last());
    if at < before.len() {
        lemma_drift_is_drift(committed, fresh, providers.drop_last(), at);
    }
}

proof fn lemma_first_listed(catalog: Seq<ListedProvider>, i: int)
    requires
        0 <= i < catalog.len(),
        forall|k: int| 0 <= k < i ==> (#[trigger] catalog[k]).provider != catalog[i].provider,
    ensures
        model_count(catalog, catalog[i].provider) == catalog[i].models.len(),
    decreases i,
{
    if i > 0 {
        let rest = catalog.skip(1);
        assert(rest[i - 1] == catalog[i]);
        assert forall|k: int| 0 <= k < i - 1 implies (#[trigger] rest[k]).provider
            != rest[i - 1].provider by {
            assert(rest[k] == catalog[k + 1]);
        }
        assert(catalog[0].provider != catalog[i].provider);
        lemma_first_listed(rest, i - 1);
    }
}

/// A provider that lists more or fewer models than was committed is reported, with both
/// numbers; whatever is reported has two different numbers.
pub proof fn law_drift_is_reported(
    committed: Vec<ProviderModels>,
    fresh: Vec<ProviderModels>,
    providers: Vec<String>,
    r: Vec<CatalogDrift>,
    c: int,
    f: int,
    k: int,
) -> (at: int)
    requires
        call_ensures(catalog_drift, (&committed, &fresh, &providers), r),
        0 <= k < providers@.len(),
        0 <= c < committed@.len(),
        0 <= f < fresh@.len(),
        committed@[c].provider@ == providers@[k]@,
        fresh@[f].provider@ == providers@[k]@,
        forall|j: int| 0 <= j < c ==> (#[trigger] committed@[j]).provider@ != providers@[k]@,
        forall|j: int| 0 <= j < f ==> (#[trigger] fresh@[j]).provider@ != providers@[k]@,
    ensures
        committed@[c].models@.len() != fresh@[f].models@.len() ==> 0 <= at < r@.len()
            && r@[at].provider@ == providers@[k]@ && r@[at].committed == committed@[c].models@.len()
            && r@[at].fresh == fresh@[f].models@.len(),
        forall|j: int| 0 <= j < r@.len() ==> (#[trigger] r@[j]).committed != r@[j].fresh,
{
    let old_list = committed.deep_view();
    let new_list = fresh.deep_view();
    let names = providers.deep_view();
    text::lemma_list(providers);
    assert forall|j: int| 0 <= j < committed@.len() implies #[trigger] old_list[j]
        == committed@[j].deep_view() by {}
    assert forall|j: int| 0 <= j < fresh@.len() implies #[trigger] new_list[j]
        == fresh@[j].deep_view() by {}
    assert(old_list[c].provider == names[k]);
    assert(new_list[f].provider == names[k]);
    lemma_first_listed(old_list, c);
    lemma_first_listed(new_list, f);
    text::lemma_list(committed@[c].models);
    text::lemma_list(fresh@[f].models);
    assert(r.deep_view().len() == r@.len());
    assert forall|j: int| 0 <= j < r@.len() implies (#[trigger] r@[j]).committed != r@[j].fresh by {
        assert(r.deep_view()[j] == r@[j].deep_view());
        lemma_drift_is_drift(old_list, new_list, names, j);
    }
    if committed@[c].models@.len() != fresh@[f].models@.len() {
        let at = lemma_drift_found(old_list, new_list, names, k);
        assert(r.deep_view()[at] == r@[at].deep_view());
        at
    } else {
        0
    }
}

proof fn lemma_model_line(models: Seq<Seq<char>>, i: int)
    requires
        0 <= i < models.len(),
    ensures
        text::stands_in(model_lines(models), "  - "@ + models[i] + "\n"@),
    decreases models.len(),
{
    let line = "  - "@ + models.last() + "\n"@;
    let before = model_lines(models.drop_last());
    if i == models.len() - 1 {
        text::law_text_stands_between(before, line, Seq::empty());
        assert(before + line + Seq::<char>::empty() =~= before + line);
    } else {
        lemma_model_line(models.drop_last(), i);
        let part = "  - "@ + models[i] + "\n"@;
        let at = choose|at: int| text::stands_at(before, part, at);
        assert(text::stands_at(before, part, at));
        assert((before + line).subrange(at, at + part.len()) =~= before.subrange(
            at,
            at + part.len(),
        ));
        assert(text::stands_at(before + line, part, at));
    }
}

proof fn lemma_provider_line(catalog: Seq<ListedProvider>, i: int, part: Seq<char>)
    requires
        0 <= i < catalog.len(),
        text::stands_in(provider_lines(catalog[i]), part),
    ensures
        text::stands_in(all_provider_lines(catalog), part),
    decreases catalog.len(),
{
    let before = all_provider_lines(catalog.drop_last());
    let lines = provider_lines(catalog.last());
    if i == catalog.len() - 1 {
        let at = choose|at: int| text::stands_at(lines, part, at);
        assert(text::stands_at(lines, part, at));
        assert((before + lines).subrange(before.len() + at, before.len() + at + part.len())
            =~= lines.subrange(at, at + part.len()));
        assert(text::stands_at(before + lines, part, before.len() + at));
    } else {
        lemma_provider_line(catalog.drop_last(), i, part);
        let at = choose|at: int| text::stands_at(before, part, at);
        assert(text::stands_at(before, part, at));
        assert((before + lines).subrange(at, at + part.len()) =~= before.subrange(
            at,
            at + part.len(),
        ));
        assert(text::stands_at(before + lines, part, at));
    }
}

/// A catalog is shown with a line for each model of each provider.
pub proof fn law_every_model_is_shown(catalog: Vec<ProviderModels>, r: String, i: int, k: int)
    requires
        total_models(catalog.deep_view()) <= u64::MAX,
        call_ensures(show_catalog_summary, (&catalog,), r),
        0 <= i < catalog@.len(),
        0 <= k < catalog@[i].models@.len(),
    ensures
        text::stands_in(r@, "  - "@ + catalog@[i].models@[k]@ + "\n"@),
{
    let listed = catalog.deep_view();
    assert(listed[i] == catalog@[i].deep_view());
    text::lemma_list(catalog@[i].models);
    let models = listed[i].models;
    let part = "  - "@ + models[k] + "\n"@;
    lemma_model_line(models, k);
    let head = "\n"@ + listed[i].provider + " ("@ + text::decimal(models.len()) + " models):\n"@;
    let lines = model_lines(models);
    let at = choose|at: int| text::stands_at(lines, part, at);
    assert(text::stands_at(lines, part, at));
    assert((head + lines).subrange(head.len() + at, head.len() + at + part.len())
        =~= lines.subrange(at, at + part.len()));
    assert(text::stands_at(head + lines, part, head.len() + at));
    lemma_provider_line(listed, i, part);
    let top = "Pinned Model Catalog\n====================\n"@;
    let middle = all_provider_lines(listed);
    let end = "\nTotal: "@ + text::decimal(total_models(listed)) + " models across "@
        + text::decimal(listed.len()) + " providers\n"@;
    let place = choose|place: int| text::stands_at(middle, part, place);
    assert(text::stands_at(middle, part, place));
    assert((top + middle + end).subrange(top.len() + place, top.len() + place + part.len())
        =~= middle.subrange(place, place + part.len()));
    assert(text::stands_at(top + middle + end, part, top.len() + place));
}

} // verus!
