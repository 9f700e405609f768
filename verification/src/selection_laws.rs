//! Which models a catalog finds, and in which order.

use vstd::prelude::*;
use crate::catalog;
use crate::model;
use crate::model::ModelData;
use crate::text;
use crate::text_case;
use crate::text_laws;

verus! {

/// A filtered list keeps what the test accepts, and nothing else.
proof fn lemma_kept(models: Seq<ModelData>, test: spec_fn(ModelData) -> bool, model: ModelData)
    ensures
        models.filter(test).contains(model) <==> models.contains(model) && test(model),
    decreases models.len(),
{
    reveal(Seq::filter);
    if models.len() > 0 {
        let rest = models.drop_last();
        let kept = rest.filter(test);
        lemma_kept(rest, test, model);
        assert(models.contains(model) <==> rest.contains(model) || model == models.last()) by {
            if models.contains(model) {
                let i = choose|i: int| 0 <= i < models.len() && models[i] == model;
                if i < rest.len() {
                    assert(rest[i] == model);
                }
            }
            if rest.contains(model) {
                let i = choose|i: int| 0 <= i < rest.len() && rest[i] == model;
                assert(models[i] == model);
            }
            assert(models[models.len() - 1] == models.last());
        }
        if test(models.last()) {
            let more = kept.push(models.last());
            assert(more.contains(model) <==> kept.contains(model) || model == models.last()) by {
                if more.contains(model) {
                    let i = choose|i: int| 0 <= i < more.len() && more[i] == model;
                    if i < kept.len() {
                        assert(kept[i] == model);
                    }
                }
                if kept.contains(model) {
                    let i = choose|i: int| 0 <= i < kept.len() && kept[i] == model;
                    assert(more[i] == model);
                }
                assert(more[more.len() - 1] == models.last());
            }
        }
    }
}

/// A model is among the capable ones where its context window is large enough,
/// and it takes tools and images where they are needed; what is not needed does
/// not matter.
pub proof fn capable_models_meet_every_demand(
    models: Seq<ModelData>,
    min_context: usize,
    needs_tools: bool,
    needs_vision: bool,
    model: ModelData,
)
    ensures
        models.filter(
            catalog::capability_test(min_context, needs_tools, needs_vision),
        ).contains(model) <==> {
            &&& models.contains(model)
            &&& model.context_window >= min_context
            &&& model.supports_tools || !needs_tools
            &&& model.supports_vision || !needs_vision
        },
{
    lemma_kept(
        models,
        catalog::capability_test(min_context, needs_tools, needs_vision),
        model,
    );
}

/// Whether one text is part of another.
pub open spec fn is_part(part: Seq<char>, whole: Seq<char>) -> bool {
    exists|front: Seq<char>, back: Seq<char>| whole == #[trigger] (front + part + back)
}

proof fn lemma_is_part(part: Seq<char>, whole: Seq<char>)
    ensures
        text::holds_text(whole, part) <==> is_part(part, whole),
{
    if text::holds_text(whole, part) {
        text_laws::held_texts_stand_somewhere(whole, part);
    }
    if is_part(part, whole) {
        let (front, back) = choose|front: Seq<char>, back: Seq<char>|
            whole == #[trigger] (front + part + back);
        text_laws::texts_hold_their_parts(front, part, back);
    }
}

/// A text is found in a model where it is part of its slug, its name or its
/// provider, and an empty text is found in every model.
pub proof fn models_are_found_by_their_texts(
    needle: Seq<char>,
    slug: Seq<char>,
    name: Seq<char>,
    provider: Seq<char>,
)
    ensures
        model::is_mentioned(needle, slug, name, provider) <==> needle.len() == 0 || is_part(
            needle,
            slug,
        ) || is_part(needle, name) || is_part(needle, provider),
{
    lemma_is_part(needle, slug);
    lemma_is_part(needle, name);
    lemma_is_part(needle, provider);
}

/// A search finds the models of a catalog whose slug, name or provider holds the
/// query in lower case, without the white space around it, and no others.
pub proof fn searches_find_by_slug_name_and_provider(
    models: Seq<ModelData>,
    query: Seq<char>,
    model: ModelData,
)
    ensures
        models.filter(catalog::match_test(query)).contains(model) <==> models.contains(model) && {
            let needle = text_case::lowercase(text::trimmed(query));
            ||| needle.len() == 0
            ||| is_part(needle, text_case::lowercase(model.slug))
            ||| is_part(needle, text_case::lowercase(model.name))
            ||| is_part(needle, text_case::lowercase(model.provider))
        },
{
    lemma_kept(models, catalog::match_test(query), model);
    models_are_found_by_their_texts(
        text_case::lowercase(text::trimmed(query)),
        text_case::lowercase(model.slug),
        text_case::lowercase(model.name),
        text_case::lowercase(model.provider),
    );
}

/// Any part of a model's slug, name or provider finds it, in any case and with
/// any white space around it, where all is ASCII.
pub proof fn models_are_found_in_any_case(
    model: ModelData,
    front: Seq<char>,
    part: Seq<char>,
    back: Seq<char>,
    before: Seq<char>,
    query: Seq<char>,
    after: Seq<char>,
)
    requires
        model.slug == front + part + back || model.name == front + part + back || model.provider
            == front + part + back,
        text_case::ascii_lower(query) == text_case::ascii_lower(part),
        text_laws::is_blank(before),
        text_laws::is_blank(after),
        query.len() > 0 ==> !text::white_space(query[0]) && !text::white_space(query.last()),
    ensures
        model::is_ascii_match(model, before + query + after),
{
    let whole = front + part + back;
    text_laws::white_space_around_a_text_is_trimmed(before, query, after);
    let needle = text_case::ascii_lower(query);
    let lower = text_case::ascii_lower(whole);
    assert(lower =~= text_case::ascii_lower(front) + needle + text_case::ascii_lower(back)) by {
        assert(needle =~= text_case::ascii_lower(part));
    }
    text_laws::texts_hold_their_parts(
        text_case::ascii_lower(front),
        needle,
        text_case::ascii_lower(back),
    );
}

/// Amounts are ordered as the doubles that their bits write: a negative one
/// comes before one that is not, of two that are not negative the smaller comes
/// first, and of two negative ones that with the greater magnitude. No two
/// amounts share a place.
pub proof fn amounts_are_ordered_as_doubles(a: u64, b: u64)
    ensures
        ({
            let sign: u64 = 0x8000_0000_0000_0000;
            let first = model::amount_rank(a);
            let second = model::amount_rank(b);
            &&& a >= sign && b < sign ==> first < second
            &&& a < sign && b < sign ==> (first < second <==> a < b)
            &&& a >= sign && b >= sign ==> (first < second <==> a > b)
            &&& first == second <==> a == b
        }),
{
}

/// The cheapest capable model costs no more than any other capable one, and
/// comes before every other that costs the same.
pub proof fn nothing_capable_is_cheaper(
    models: Seq<ModelData>,
    costs: Seq<u64>,
    min_context: usize,
    needs_tools: bool,
    needs_vision: bool,
    cheapest: int,
    other: int,
)
    requires
        catalog::is_cheapest(
            models,
            costs,
            catalog::capability_test(min_context, needs_tools, needs_vision),
            cheapest,
        ),
        0 <= other < models.len(),
        models[other].context_window >= min_context,
        needs_tools ==> models[other].supports_tools,
        needs_vision ==> models[other].supports_vision,
    ensures
        0 <= cheapest < models.len(),
        models[cheapest].context_window >= min_context,
        needs_tools ==> models[cheapest].supports_tools,
        needs_vision ==> models[cheapest].supports_vision,
        model::amount_rank(costs[cheapest]) <= model::amount_rank(costs[other]),
        costs[cheapest] == costs[other] ==> cheapest <= other,
{
    let test = catalog::capability_test(min_context, needs_tools, needs_vision);
    assert(test(models[other]));
    if cheapest != other {
        assert(catalog::costs_less(costs, cheapest, other));
    }
}

/// In the order of price each model comes once, none costs more than one behind
/// it, and those that cost the same keep the order of the catalog.
pub proof fn prices_rise(
    models: Seq<ModelData>,
    costs: Seq<u64>,
    order: Seq<int>,
    i: int,
    j: int,
)
    requires
        costs.len() == models.len(),
        catalog::is_arrangement(order, models.len()),
        catalog::by_cost(order, costs),
        0 <= i < j < models.len(),
    ensures
        catalog::arranged(models, order).len() == models.len(),
        catalog::arranged(models, order)[i] == models[order[i]],
        order[i] != order[j],
        0 <= order[i] < models.len(),
        model::amount_rank(costs[order[i]]) <= model::amount_rank(costs[order[j]]),
        costs[order[i]] == costs[order[j]] ==> order[i] < order[j],
{
    assert(catalog::costs_less(costs, order[i], order[j]));
}

/// A model that is upserted takes the place of the one with its slug, and stands
/// at the end where there is none; every other model stays as and where it is.
pub proof fn upserts_keep_the_order(models: Seq<ModelData>, model: ModelData, i: int)
    requires
        catalog::unique_slugs(models),
        0 <= i < models.len(),
    ensures
        ({
            let after = catalog::upserted(models, model);
            &&& models[i].slug == model.slug ==> after.len() == models.len() && after[i] == model
            &&& models[i].slug != model.slug ==> after[i] == models[i]
            &&& (forall|k: int|
                0 <= k < models.len() ==> (#[trigger] models[k]).slug != model.slug)
                ==> after.len() == models.len() + 1 && after.last() == model
        }),
{
    if models[i].slug == model.slug {
        assert(catalog::is_at(models, model.slug, i));
        catalog::lemma_position(models, model.slug, i);
    } else if catalog::has_slug(models, model.slug) {
        assert(catalog::is_at(models, model.slug, catalog::position(models, model.slug)));
    }
    if catalog::has_slug(models, model.slug) {
        let p = catalog::position(models, model.slug);
        assert(catalog::is_at(models, model.slug, p));
        assert(models[p].slug == model.slug);
    }
}

/// A lookup finds the model with the slug, and nothing where no model has it.
pub proof fn lookups_find_by_slug(models: Seq<ModelData>, slug: Seq<char>, i: int)
    requires
        catalog::unique_slugs(models),
    ensures
        0 <= i < models.len() && models[i].slug == slug ==> catalog::lookup(models, slug) == Some(
            models[i],
        ),
        (forall|k: int| 0 <= k < models.len() ==> (#[trigger] models[k]).slug != slug)
            ==> catalog::lookup(models, slug) is None,
{
    if 0 <= i < models.len() && models[i].slug == slug {
        assert(catalog::is_at(models, slug, i));
        catalog::lemma_position(models, slug, i);
    }
}

} // verus!
