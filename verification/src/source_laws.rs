//! What each source says of a model, field by field.

use vstd::prelude::*;
use crate::model::{Benchmarks, ModelData};
use crate::sources;
use crate::sources::{LiteLlmEntry, OpenRouterModel};
use crate::text;

verus! {

/// The provider of a slug is what stands before its first slash: it starts the
/// slug, has no slash itself, and is followed by one unless it is all of it.
pub proof fn providers_stand_before_the_first_slash(slug: Seq<char>)
    ensures
        ({
            let provider = sources::provider_of(slug);
            &&& provider.len() <= slug.len()
            &&& slug.take(provider.len() as int) == provider
            &&& !provider.contains('/')
            &&& provider.len() < slug.len() ==> slug[provider.len() as int] == '/'
        }),
{
    lemma_first_piece(slug);
}

proof fn lemma_first_piece(s: Seq<char>)
    ensures
        ({
            let pieces = text::split(s, seq!['/']);
            let first = pieces[0];
            &&& pieces.len() > 0
            &&& first.len() <= s.len()
            &&& s.take(first.len() as int) == first
            &&& !first.contains('/')
            &&& first.len() < s.len() ==> s[first.len() as int] == '/'
            &&& pieces.len() == 1 <==> first.len() == s.len()
        }),
    decreases s.len(),
{
    let slash = seq!['/'];
    if s.len() > 0 {
        let rest = s.drop_last();
        lemma_first_piece(rest);
        let before = text::split(rest, slash);
        let pieces = text::split(s, slash);
        let c = s.last();
        assert(slash.contains('/')) by {
            assert(slash[0] == '/');
        }
        if slash.contains(c) {
            assert(c == '/');
            assert(pieces[0] == before[0]);
            assert(s.take(before[0].len() as int) =~= rest.take(before[0].len() as int));
        } else if before.len() == 1 {
            assert(rest.take(rest.len() as int) =~= rest);
            assert(before[0] == rest);
            assert(pieces[0] == rest.push(c));
            assert(pieces[0] =~= s);
            assert(s.take(s.len() as int) =~= s);
            assert(!s.contains('/')) by {
                if s.contains('/') {
                    let i = choose|i: int| 0 <= i < s.len() && s[i] == '/';
                    if i < rest.len() {
                        assert(rest[i] == '/');
                    }
                }
            }
        } else {
            assert(pieces[0] == before[0]);
            assert(s.take(before[0].len() as int) =~= rest.take(before[0].len() as int));
        }
    } else {
        assert(s.take(0) =~= Seq::empty());
    }
}

/// Whether a text stands in a list that may be missing.
pub open spec fn names(list: Option<Vec<String>>, wanted: Seq<char>) -> bool {
    list is Some && exists|i: int| 0 <= i < list->0@.len() && (#[trigger] list->0@[i])@ == wanted
}

/// A listed model reads images exactly where its architecture lists the input
/// `image`, and calls tools exactly where its parameters list `tools`. Its slug
/// and name are those listed, its context window is the length listed or zero,
/// its prices are the ones given, in that order, and nothing more is known.
pub proof fn listings_become_the_models_they_describe(
    listed: OpenRouterModel,
    price_in: u64,
    price_out: u64,
    now: i64,
)
    ensures
        ({
            let model = sources::openrouter_model(listed, price_in, price_out, now);
            &&& model.supports_vision <==> listed.architecture is Some && names(
                listed.architecture->0.input_modalities,
                "image"@,
            )
            &&& model.supports_tools <==> names(listed.supported_parameters, "tools"@)
            &&& model.slug == listed.id@ && model.name == listed.name@
            &&& listed.context_length is Some ==> model.context_window
                == listed.context_length->0 as usize
            &&& listed.context_length is None ==> model.context_window == 0
            &&& model.price_in_usd == price_in && model.price_out_usd == price_out
            &&& model.updated_at == now
            &&& model.tpm is None && model.rpm is None && model.region is None
            &&& model.benchmarks == (Benchmarks {
                mmlu: None,
                humaneval: None,
                math: None,
                latency_ms: None,
            })
            &&& !model.provider.contains('/') && listed.id@.take(model.provider.len() as int)
                == model.provider
        }),
{
    providers_stand_before_the_first_slash(listed.id@);
    lemma_lists(listed.supported_parameters, "tools"@);
    if listed.architecture is Some {
        lemma_lists(listed.architecture->0.input_modalities, "image"@);
    }
}

proof fn lemma_lists(list: Option<Vec<String>>, wanted: Seq<char>)
    ensures
        sources::lists(list, wanted) <==> names(list, wanted),
{
    if list is Some {
        let entries = list->0@;
        if sources::lists(list, wanted) {
            let i = choose|i: int|
                0 <= i < text::texts(entries).len() && text::texts(entries)[i] == wanted;
            assert(entries[i]@ == wanted);
        }
        if names(list, wanted) {
            let i = choose|i: int| 0 <= i < entries.len() && (#[trigger] entries[i])@ == wanted;
            assert(text::texts(entries)[i] == wanted);
        }
    }
}

/// Whether an entry of the cost map names a price.
pub open spec fn is_priced(entry: (Seq<char>, LiteLlmEntry)) -> bool {
    entry.1.input_price_usd is Some || entry.1.output_price_usd is Some
}

/// What an entry of the cost map says of a model: the slug is also its name,
/// the input price and the output price each stand in their own place and are
/// nothing to pay where they are missing, and no ability is claimed.
pub open spec fn says(entry: (Seq<char>, LiteLlmEntry), model: ModelData, now: i64) -> bool {
    &&& model.slug == entry.0 && model.name == entry.0
    &&& !model.provider.contains('/') && entry.0.take(model.provider.len() as int)
        == model.provider
    &&& model.provider.len() < entry.0.len() ==> entry.0[model.provider.len() as int] == '/'
    &&& entry.1.input_price_usd is Some ==> model.price_in_usd == entry.1.input_price_usd->0
    &&& entry.1.input_price_usd is None ==> model.price_in_usd == 0
    &&& entry.1.output_price_usd is Some ==> model.price_out_usd == entry.1.output_price_usd->0
    &&& entry.1.output_price_usd is None ==> model.price_out_usd == 0
    &&& entry.1.max_tokens is Some ==> model.context_window == entry.1.max_tokens->0 as usize
    &&& entry.1.max_tokens is None ==> model.context_window == 0
    &&& !model.supports_tools && !model.supports_vision
    &&& model.tpm is None && model.rpm is None && model.region is None
    &&& model.benchmarks == (Benchmarks {
        mmlu: None,
        humaneval: None,
        math: None,
        latency_ms: None,
    })
    &&& model.updated_at == now
}

/// The cost map gives one model for each entry that names a price, in order, as
/// that entry says, and none for any other.
pub proof fn cost_maps_become_the_models_they_price(
    entries: Seq<(Seq<char>, LiteLlmEntry)>,
    now: i64,
)
    ensures
        ({
            let models = sources::litellm_models(entries, now);
            let priced = entries.filter(|entry: (Seq<char>, LiteLlmEntry)| is_priced(entry));
            &&& models.len() == priced.len()
            &&& forall|i: int|
                0 <= i < models.len() ==> says(priced[i], #[trigger] models[i], now)
        }),
    decreases entries.len(),
{
    reveal(Seq::filter);
    if entries.len() > 0 {
        cost_maps_become_the_models_they_price(entries.drop_last(), now);
        providers_stand_before_the_first_slash(entries.last().0);
    }
}

/// The bundled models are kept as they are, in order, and only stamped with the
/// time; a list that cannot be read gives none.
pub proof fn bundled_models_are_only_stamped(bundled: Option<Vec<crate::model::Model>>, now: i64)
    ensures
        ({
            let models = sources::all_stamped(sources::bundled_or_none(bundled), now);
            &&& bundled is None ==> models.len() == 0
            &&& bundled is Some ==> models.len() == bundled->0@.len()
            &&& forall|i: int|
                0 <= i < models.len() ==> {
                    let before = bundled->0@[i]@;
                    let after = #[trigger] models[i];
                    &&& after.updated_at == now
                    &&& after == (ModelData { updated_at: after.updated_at, ..before })
                }
        }),
{
}

} // verus!
