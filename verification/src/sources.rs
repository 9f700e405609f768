//! Remote model sources and the bundled offline fallback.
//!
//! - LiteLLM cost map: the industry-standard open JSON of per-model pricing.
//! - OpenRouter `/api/v1/models`: rich metadata (context, pricing, modalities).
//! - Bundled fallback: ships with the program so the brain works offline
//!   before the first sync.

use vstd::prelude::*;
use crate::catalog;
use crate::model;
use crate::model::{Benchmarks, Model, ModelData};
use crate::text;
use crate::text_map;
use crate::text_map::TextMap;

verus! {

/// A model stamped with the time of a refresh.
pub open spec fn stamped(model: ModelData, now: i64) -> ModelData {
    ModelData { updated_at: now, ..model }
}

/// Models stamped with the time of a refresh.
pub open spec fn all_stamped(models: Seq<ModelData>, now: i64) -> Seq<ModelData> {
    Seq::new(models.len(), |i: int| stamped(models[i], now))
}

/// The models of a bundled list, or none where it could not be read.
pub open spec fn bundled_or_none(bundled: Option<Vec<Model>>) -> Seq<ModelData> {
    match bundled {
        Some(models) => catalog::data_of(models@),
        None => Seq::empty(),
    }
}

/// Bundled snapshot, with approximate prices so the tool works offline: the
/// list as it was read, stamped with the time. Nothing where it could not be
/// read.
pub fn from_fallback(bundled: Option<Vec<Model>>, now: i64) -> (r: Vec<Model>)
    ensures
        catalog::data_of(r@) == all_stamped(bundled_or_none(bundled), now),
{
    let mut r: Vec<Model> = Vec::new();
    match bundled {
        Some(models) => {
            let mut i: usize = 0;
            while i < models.len()
                invariant
                    i <= models.len(),
                    r.len() == i,
                    forall|j: int|
                        0 <= j < i ==> (#[trigger] r@[j])@ == stamped(models@[j]@, now),
                decreases models.len() - i,
            {
                let mut model = models[i].clone();
                model.updated_at = now;
                r.push(model);
                i = i + 1;
            }
            assert(catalog::data_of(r@) =~= all_stamped(bundled_or_none(bundled), now));
        },
        None => {
            assert(catalog::data_of(r@) =~= all_stamped(bundled_or_none(bundled), now));
        },
    }
    r
}

/// One entry of the LiteLLM model cost map.
#[derive(Debug, Clone, Copy, PartialEq, Eq)]
pub struct LiteLlmEntry {
    /// USD per 1M input tokens, as bits.
    pub input_price_usd: Option<u64>,
    /// USD per 1M output tokens, as bits.
    pub output_price_usd: Option<u64>,
    /// Context window in tokens.
    pub max_tokens: Option<u64>,
}

impl View for LiteLlmEntry {
    type V = LiteLlmEntry;

    open spec fn view(&self) -> LiteLlmEntry {
        *self
    }
}

/// The cost map, keyed by model slug.
pub type LiteLlmMap = TextMap<LiteLlmEntry>;

/// The provider that a slug names: what stands before its first slash.
pub open spec fn provider_of(slug: Seq<char>) -> Seq<char> {
    text::split(slug, seq!['/'])[0]
}

/// The provider that a slug names: what stands before its first slash.
pub fn provider_name(slug: &str) -> (r: String)
    ensures
        r@ == provider_of(slug@),
{
    let mut slash: Vec<char> = Vec::new();
    slash.push('/');
    assert(slash@ =~= seq!['/']);
    let pieces = text::split_text(slug, &slash);
    proof {
        text::lemma_split_nonempty(slug@, slash@);
    }
    assert(text::texts(pieces@)[0] == pieces@[0]@);
    pieces[0].clone()
}

/// A price, or nothing to pay where none is known.
pub open spec fn price_or_free(price: Option<u64>) -> u64 {
    match price {
        Some(price) => price,
        None => 0,
    }
}

/// A number of tokens, or zero where none is known.
pub open spec fn tokens_or_zero(tokens: Option<u64>) -> usize {
    match tokens {
        Some(tokens) => tokens as usize,
        None => 0,
    }
}

/// The model that a cost-map entry describes; none for an entry without any
/// price, which is not routable.
pub open spec fn litellm_model(slug: Seq<char>, entry: LiteLlmEntry, now: i64) -> Option<
    ModelData,
> {
    if entry.input_price_usd is None && entry.output_price_usd is None {
        None
    } else {
        Some(
            ModelData {
                slug,
                name: slug,
                provider: provider_of(slug),
                context_window: tokens_or_zero(entry.max_tokens),
                price_in_usd: price_or_free(entry.input_price_usd),
                price_out_usd: price_or_free(entry.output_price_usd),
                tpm: None,
                rpm: None,
                supports_tools: false,
                supports_vision: false,
                benchmarks: model::no_benchmarks(),
                region: None,
                updated_at: now,
            },
        )
    }
}

/// The models that cost-map entries describe.
pub open spec fn litellm_models(entries: Seq<(Seq<char>, LiteLlmEntry)>, now: i64) -> Seq<ModelData>
    decreases entries.len(),
{
    if entries.len() == 0 {
        Seq::empty()
    } else {
        let rest = litellm_models(entries.drop_last(), now);
        match litellm_model(entries.last().0, entries.last().1, now) {
            Some(model) => rest.push(model),
            None => rest,
        }
    }
}

/// Map the LiteLLM cost map onto models, in the order of their slugs. Sparse by
/// design: it carries pricing and context, not modalities or limits.
pub fn from_litellm(map: &LiteLlmMap, now: i64) -> (r: Vec<Model>)
    ensures
        catalog::data_of(r@) == litellm_models(text_map::ordered_pairs(map@), now),
{
    let count = map.len();
    let ghost pairs = map.pairs();
    let mut r: Vec<Model> = Vec::new();
    let mut i: usize = 0;
    assert(pairs.take(0) =~= Seq::empty());
    assert(catalog::data_of(r@) =~= Seq::empty());
    while i < count
        invariant
            i <= count,
            count == pairs.len(),
            pairs == map.pairs(),
            catalog::data_of(r@) == litellm_models(pairs.take(i as int), now),
        decreases count - i,
    {
        let ghost before = catalog::data_of(r@);
        let (slug, entry) = map.entry(i);
        proof {
            assert(pairs.take(i + 1).drop_last() =~= pairs.take(i as int));
            assert(pairs.take(i + 1).last() == (slug@, *entry));
        }
        if entry.input_price_usd.is_some() || entry.output_price_usd.is_some() {
            let model = Model {
                slug: slug.to_owned(),
                name: slug.to_owned(),
                provider: provider_name(slug),
                context_window: match entry.max_tokens {
                    Some(tokens) => tokens as usize,
                    None => 0,
                },
                price_in_usd: match entry.input_price_usd {
                    Some(price) => price,
                    None => 0,
                },
                price_out_usd: match entry.output_price_usd {
                    Some(price) => price,
                    None => 0,
                },
                tpm: None,
                rpm: None,
                supports_tools: false,
                supports_vision: false,
                benchmarks: Benchmarks::default(),
                region: None,
                updated_at: now,
            };
            let ghost data = model@;
            r.push(model);
            assert(catalog::data_of(r@) =~= before.push(data));
        }
        i = i + 1;
    }
    assert(pairs.take(count as int) =~= pairs);
    r
}

/// `GET /api/v1/models` response shape (subset we care about).
#[derive(Debug, PartialEq, Eq)]
pub struct OpenRouterResponse {
    /// The listed models.
    pub data: Vec<OpenRouterModel>,
}

/// One listed model.
#[derive(Debug, PartialEq, Eq)]
pub struct OpenRouterModel {
    /// Its slug.
    pub id: String,
    /// Its human name.
    pub name: String,
    /// Its context window in tokens.
    pub context_length: Option<u64>,
    /// What it costs.
    pub pricing: OpenRouterPricing,
    /// What it reads.
    pub architecture: Option<OpenRouterArchitecture>,
    /// The request parameters that it understands.
    pub supported_parameters: Option<Vec<String>>,
}

/// What a listed model costs.
#[derive(Debug, PartialEq, Eq)]
pub struct OpenRouterPricing {
    /// Per-token input price, written out.
    pub prompt: Option<String>,
    /// Per-token output price, written out.
    pub completion: Option<String>,
}

/// What a listed model reads.
#[derive(Debug, PartialEq, Eq)]
pub struct OpenRouterArchitecture {
    /// The kinds of input that it reads.
    pub input_modalities: Option<Vec<String>>,
}

/// Whether a list that may be missing holds a text.
pub open spec fn lists(list: Option<Vec<String>>, wanted: Seq<char>) -> bool {
    match list {
        Some(list) => text::texts(list@).contains(wanted),
        None => false,
    }
}

/// Whether a listed model reads images.
pub open spec fn reads_images(listed: OpenRouterModel) -> bool {
    match listed.architecture {
        Some(architecture) => lists(architecture.input_modalities, "image"@),
        None => false,
    }
}

/// The model that a listing describes, at given prices.
pub open spec fn openrouter_model(
    listed: OpenRouterModel,
    price_in_usd: u64,
    price_out_usd: u64,
    now: i64,
) -> ModelData {
    ModelData {
        slug: listed.id@,
        name: listed.name@,
        provider: provider_of(listed.id@),
        context_window: tokens_or_zero(listed.context_length),
        price_in_usd,
        price_out_usd,
        tpm: None,
        rpm: None,
        supports_tools: lists(listed.supported_parameters, "tools"@),
        supports_vision: reads_images(listed),
        benchmarks: model::no_benchmarks(),
        region: None,
        updated_at: now,
    }
}

/// Whether a price can come out of a written one: what the reader makes of it,
/// and nothing to pay where there is none or it cannot be read.
pub open spec fn can_cost<F: Fn(&str) -> Option<u64>>(
    reader: &F,
    written: Option<String>,
    price: u64,
) -> bool {
    match written {
        Some(written) => exists|asked: &str, read: Option<u64>|
            asked@ == written@ && price == price_or_free(read) && #[trigger] call_ensures(
                *reader,
                (asked,),
                read,
            ),
        None => price == 0,
    }
}

/// A written price as a number; nothing to pay where there is none or it cannot
/// be read.
fn parse_price<F: Fn(&str) -> Option<u64>>(written: &Option<String>, reader: &F) -> (r: u64)
    requires
        forall|asked: &str| #[trigger] call_requires(*reader, (asked,)),
    ensures
        can_cost(reader, *written, r),
{
    match written {
        Some(written) => {
            match reader(written.as_str()) {
                Some(price) => price,
                None => 0,
            }
        },
        None => 0,
    }
}

/// Whether a list holds a text.
fn has_entry(list: &Option<Vec<String>>, wanted: &str) -> (r: bool)
    ensures
        r == lists(*list, wanted@),
        r == (match *list {
            Some(entries) => exists|k: int|
                0 <= k < entries@.len() && (#[trigger] entries@[k])@ == wanted@,
            None => false,
        }),
{
    match list {
        Some(entries) => {
            let mut i: usize = 0;
            while i < entries.len()
                invariant
                    list == Some(*entries),
                    i <= entries.len(),
                    forall|j: int| 0 <= j < i ==> (#[trigger] text::texts(entries@)[j]) != wanted@,
                decreases entries.len() - i,
            {
                assert(text::texts(entries@)[i as int] == entries@[i as int]@);
                if text::same_text(entries[i].as_str(), wanted) {
                    assert(entries@[i as int]@ == wanted@);
                    return true;
                }
                i = i + 1;
            }
            assert forall|k: int| 0 <= k < entries@.len() implies (#[trigger] entries@[k])@
                != wanted@ by {
                assert(text::texts(entries@)[k] != wanted@);
            }
            false
        },
        None => false,
    }
}

/// Map an OpenRouter listing onto models: the richest source. `reader` turns a
/// written per-token price into USD per 1M tokens, as bits, where it can.
pub fn from_openrouter<F: Fn(&str) -> Option<u64>>(
    resp: &OpenRouterResponse,
    now: i64,
    reader: &F,
) -> (r: Vec<Model>)
    requires
        forall|asked: &str| #[trigger] call_requires(*reader, (asked,)),
    ensures
        r.len() == resp.data.len(),
        forall|i: int|
            0 <= i < r.len() ==> {
                let listed = resp.data@[i];
                let model = #[trigger] r@[i];
                &&& can_cost(reader, listed.pricing.prompt, model.price_in_usd)
                &&& can_cost(reader, listed.pricing.completion, model.price_out_usd)
                &&& model@ == openrouter_model(
                    listed,
                    model.price_in_usd,
                    model.price_out_usd,
                    now,
                )
                &&& model.supports_vision == (match listed.architecture {
                    Some(architecture) => match architecture.input_modalities {
                        Some(inputs) => exists|k: int|
                            0 <= k < inputs@.len() && (#[trigger] inputs@[k])@ == "image"@,
                        None => false,
                    },
                    None => false,
                })
                &&& model.supports_tools == (match listed.supported_parameters {
                    Some(parameters) => exists|k: int|
                        0 <= k < parameters@.len() && (#[trigger] parameters@[k])@ == "tools"@,
                    None => false,
                })
                &&& model.slug@ == listed.id@ && model.name@ == listed.name@
                &&& listed.pricing.prompt is None ==> model.price_in_usd == 0
                &&& listed.pricing.completion is None ==> model.price_out_usd == 0
            },
{
    let mut r: Vec<Model> = Vec::new();
    let mut i: usize = 0;
    while i < resp.data.len()
        invariant
            i <= resp.data.len(),
            r.len() == i,
            forall|asked: &str| #[trigger] call_requires(*reader, (asked,)),
            forall|j: int|
                0 <= j < i ==> {
                    let listed = resp.data@[j];
                    let model = #[trigger] r@[j];
                    &&& can_cost(reader, listed.pricing.prompt, model.price_in_usd)
                    &&& can_cost(reader, listed.pricing.completion, model.price_out_usd)
                    &&& model@ == openrouter_model(
                        listed,
                        model.price_in_usd,
                        model.price_out_usd,
                        now,
                    )
                    &&& model.supports_vision == (match listed.architecture {
                        Some(architecture) => match architecture.input_modalities {
                            Some(inputs) => exists|k: int|
                                0 <= k < inputs@.len() && (#[trigger] inputs@[k])@ == "image"@,
                            None => false,
                        },
                        None => false,
                    })
                    &&& model.supports_tools == (match listed.supported_parameters {
                        Some(parameters) => exists|k: int|
                            0 <= k < parameters@.len() && (#[trigger] parameters@[k])@
                                == "tools"@,
                        None => false,
                    })
                    &&& model.slug@ == listed.id@ && model.name@ == listed.name@
                    &&& listed.pricing.prompt is None ==> model.price_in_usd == 0
                    &&& listed.pricing.completion is None ==> model.price_out_usd == 0
                },
        decreases resp.data.len() - i,
    {
        let listed = &resp.data[i];
        let vision = match &listed.architecture {
            Some(architecture) => has_entry(&architecture.input_modalities, "image"),
            None => false,
        };
        r.push(
            Model {
                slug: listed.id.clone(),
                name: listed.name.clone(),
                provider: provider_name(listed.id.as_str()),
                context_window: match listed.context_length {
                    Some(tokens) => tokens as usize,
                    None => 0,
                },
                price_in_usd: parse_price(&listed.pricing.prompt, reader),
                price_out_usd: parse_price(&listed.pricing.completion, reader),
                tpm: None,
                rpm: None,
                supports_tools: has_entry(&listed.supported_parameters, "tools"),
                supports_vision: vision,
                benchmarks: Benchmarks::default(),
                region: None,
                updated_at: now,
            },
        );
        i = i + 1;
    }
    r
}

proof fn lemma_litellm_slugs(entries: Seq<(Seq<char>, LiteLlmEntry)>, now: i64)
    ensures
        forall|i: int|
            0 <= i < litellm_models(entries, now).len() ==> exists|j: int|
                0 <= j < entries.len() && litellm_model(
                    (#[trigger] entries[j]).0,
                    entries[j].1,
                    now,
                ) == Some(#[trigger] litellm_models(entries, now)[i]),
    decreases entries.len(),
{
    if entries.len() > 0 {
        let rest = entries.drop_last();
        let all = litellm_models(entries, now);
        lemma_litellm_slugs(rest, now);
        assert forall|i: int| 0 <= i < all.len() implies exists|j: int|
            0 <= j < entries.len() && litellm_model((#[trigger] entries[j]).0, entries[j].1, now)
                == Some(#[trigger] all[i]) by {
            if i < litellm_models(rest, now).len() {
                let j = choose|j: int|
                    0 <= j < rest.len() && litellm_model((#[trigger] rest[j]).0, rest[j].1, now)
                        == Some(litellm_models(rest, now)[i]);
                assert(entries[j] == rest[j]);
            } else {
                assert(entries[entries.len() - 1] == entries.last());
            }
        }
    }
}

/// Entries without pricing are skipped: every model that a cost map gives comes
/// from an entry that names a price.
pub proof fn unpriced_entries_are_skipped(
    entries: Seq<(Seq<char>, LiteLlmEntry)>,
    now: i64,
    i: int,
)
    requires
        0 <= i < litellm_models(entries, now).len(),
    ensures
        exists|j: int|
            0 <= j < entries.len() && (#[trigger] entries[j]).0 == litellm_models(entries, now)[i].slug
                && (entries[j].1.input_price_usd is Some || entries[j].1.output_price_usd is Some),
{
    lemma_litellm_slugs(entries, now);
    let j = choose|j: int|
        0 <= j < entries.len() && litellm_model((#[trigger] entries[j]).0, entries[j].1, now)
            == Some(litellm_models(entries, now)[i]);
    assert(entries[j].0 == litellm_models(entries, now)[i].slug);
}

} // verus!
