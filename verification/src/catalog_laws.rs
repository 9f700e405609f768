//! What holds of every catalog.

use vstd::prelude::*;
use crate::catalog;
use crate::model::ModelData;

verus! {

/// The last model of a batch with a slug, if there is one.
pub open spec fn last_of(batch: Seq<ModelData>, slug: Seq<char>) -> Option<ModelData>
    decreases batch.len(),
{
    if batch.len() == 0 {
        None
    } else if batch.last().slug == slug {
        Some(batch.last())
    } else {
        last_of(batch.drop_last(), slug)
    }
}

/// An upsert is what a later lookup of its slug finds, and no other lookup
/// notices it. Slugs stay unique.
pub proof fn upsert_is_found_again(models: Seq<ModelData>, model: ModelData, slug: Seq<char>)
    requires
        catalog::unique_slugs(models),
    ensures
        catalog::unique_slugs(catalog::upserted(models, model)),
        catalog::lookup(catalog::upserted(models, model), slug) == if slug == model.slug {
            Some(model)
        } else {
            catalog::lookup(models, slug)
        },
{
    let after = catalog::upserted(models, model);
    let at = if catalog::has_slug(models, model.slug) {
        catalog::position(models, model.slug)
    } else {
        models.len() as int
    };
    if catalog::has_slug(models, model.slug) {
        assert(catalog::is_at(models, model.slug, at));
        assert forall|i: int| 0 <= i < models.len() implies (#[trigger] after[i]).slug
            == models[i].slug by {}
    } else {
        assert forall|i: int| 0 <= i < models.len() implies (#[trigger] models[i]).slug
            != model.slug by {
            assert(!catalog::is_at(models, model.slug, i));
        }
    }
    assert(catalog::unique_slugs(after));
    assert(catalog::is_at(after, model.slug, at));
    catalog::lemma_position(after, model.slug, at);
    if slug != model.slug {
        if catalog::has_slug(models, slug) {
            let p = catalog::position(models, slug);
            assert(catalog::is_at(models, slug, p));
            assert(catalog::is_at(after, slug, p));
            catalog::lemma_position(after, slug, p);
        } else {
            assert forall|i: int| !catalog::is_at(after, slug, i) by {
                if catalog::is_at(after, slug, i) {
                    assert(i != at);
                    assert(catalog::is_at(models, slug, i));
                }
            }
        }
    }
}

/// Merging a batch overrides by slug: a lookup finds the last model of the
/// batch with the slug, and what was there before where the batch has none.
pub proof fn merge_overrides_by_slug(
    models: Seq<ModelData>,
    batch: Seq<ModelData>,
    slug: Seq<char>,
)
    requires
        catalog::unique_slugs(models),
    ensures
        catalog::unique_slugs(catalog::merged(models, batch)),
        catalog::lookup(catalog::merged(models, batch), slug) == match last_of(batch, slug) {
            Some(model) => Some(model),
            None => catalog::lookup(models, slug),
        },
    decreases batch.len(),
{
    if batch.len() > 0 {
        merge_overrides_by_slug(models, batch.drop_last(), slug);
        upsert_is_found_again(catalog::merged(models, batch.drop_last()), batch.last(), slug);
    }
}

proof fn lemma_last_of(batch: Seq<ModelData>, i: int)
    requires
        0 <= i < batch.len(),
    ensures
        last_of(batch, batch[i].slug) is Some,
    decreases batch.len(),
{
    if batch.last().slug != batch[i].slug {
        lemma_last_of(batch.drop_last(), i);
    }
}

proof fn lemma_known_slugs_stay(models: Seq<ModelData>, batch: Seq<ModelData>)
    requires
        catalog::unique_slugs(models),
        forall|i: int|
            0 <= i < batch.len() ==> catalog::has_slug(models, (#[trigger] batch[i]).slug),
    ensures
        catalog::merged(models, batch).len() == models.len(),
        forall|i: int|
            0 <= i < models.len() ==> (#[trigger] catalog::merged(models, batch)[i]).slug
                == models[i].slug,
    decreases batch.len(),
{
    if batch.len() > 0 {
        let rest = batch.drop_last();
        assert forall|i: int| 0 <= i < rest.len() implies catalog::has_slug(
            models,
            (#[trigger] rest[i]).slug,
        ) by {
            assert(rest[i] == batch[i]);
        }
        lemma_known_slugs_stay(models, rest);
        let before = catalog::merged(models, rest);
        let model = batch.last();
        assert(batch[batch.len() - 1] == model);
        let p = catalog::position(models, model.slug);
        assert(catalog::is_at(models, model.slug, p));
        assert(catalog::is_at(before, model.slug, p));
        assert(catalog::is_at(before, model.slug, catalog::position(before, model.slug)));
    }
}

/// Merging the same batch again changes nothing, and adds no model.
pub proof fn merging_again_changes_nothing(models: Seq<ModelData>, batch: Seq<ModelData>)
    requires
        catalog::unique_slugs(models),
    ensures
        catalog::merged(catalog::merged(models, batch), batch) == catalog::merged(models, batch),
{
    let once = catalog::merged(models, batch);
    let twice = catalog::merged(once, batch);
    merge_overrides_by_slug(models, batch, Seq::empty());
    assert forall|i: int| 0 <= i < batch.len() implies catalog::has_slug(
        once,
        (#[trigger] batch[i]).slug,
    ) by {
        lemma_last_of(batch, i);
        merge_overrides_by_slug(models, batch, batch[i].slug);
    }
    lemma_known_slugs_stay(once, batch);
    assert forall|i: int| 0 <= i < once.len() implies #[trigger] twice[i] == once[i] by {
        let slug = once[i].slug;
        merge_overrides_by_slug(models, batch, slug);
        merge_overrides_by_slug(once, batch, slug);
        assert(catalog::is_at(once, slug, i));
        assert(catalog::is_at(twice, slug, i));
        catalog::lemma_position(once, slug, i);
        catalog::lemma_position(twice, slug, i);
    }
    assert(twice =~= once);
}

/// A catalog is what its own models merge to: nothing is lost, and their order
/// stays, when it is written out as a list and read back.
pub proof fn a_list_of_models_restores_the_catalog(models: Seq<ModelData>)
    requires
        catalog::unique_slugs(models),
    ensures
        catalog::merged(Seq::empty(), models) == models,
    decreases models.len(),
{
    if models.len() > 0 {
        let rest = models.drop_last();
        assert(catalog::unique_slugs(rest)) by {
            assert forall|i: int, j: int| 0 <= i < j < rest.len() implies (#[trigger] rest[i]).slug
                != (#[trigger] rest[j]).slug by {
                assert(models[i].slug != models[j].slug);
            }
        }
        a_list_of_models_restores_the_catalog(rest);
        assert forall|i: int| !catalog::is_at(rest, models.last().slug, i) by {
            if 0 <= i < rest.len() {
                assert(models[i].slug != models[models.len() - 1].slug);
            }
        }
        assert(rest.push(models.last()) =~= models);
    } else {
        assert(models =~= Seq::empty());
    }
}

/// The cheapest capable model is the first capable one in the order of price.
pub proof fn cheapest_leads_the_order_of_price(
    models: Seq<ModelData>,
    costs: Seq<u64>,
    test: spec_fn(ModelData) -> bool,
    order: Seq<int>,
    cheapest: int,
    at: int,
)
    requires
        costs.len() == models.len(),
        catalog::is_arrangement(order, models.len()),
        catalog::by_cost(order, costs),
        catalog::is_cheapest(models, costs, test, cheapest),
        0 <= at < order.len(),
        order[at] == cheapest,
    ensures
        forall|i: int| 0 <= i < at ==> !test(models[#[trigger] order[i]]),
{
    assert forall|i: int| 0 <= i < at implies !test(models[#[trigger] order[i]]) by {
        assert(catalog::costs_less(costs, order[i], order[at]));
        let j = order[i];
        if test(models[j]) {
            assert(catalog::costs_less(costs, cheapest, j));
        }
    }
}

proof fn lemma_named(order: Seq<int>, n: nat, x: int)
    requires
        catalog::is_arrangement(order, n),
        0 <= x < n,
    ensures
        exists|i: int| 0 <= i < order.len() && order[i] == x,
{
    if !(exists|i: int| 0 <= i < order.len() && order[i] == x) {
        let named = order.to_set();
        let all = vstd::set_lib::set_int_range(0, n as int);
        vstd::set_lib::lemma_int_range(0, n as int);
        order.unique_seq_to_set();
        assert(named.subset_of(all.remove(x))) by {
            assert forall|y: int| named.contains(y) implies all.remove(x).contains(y) by {
                let i = choose|i: int| 0 <= i < order.len() && order[i] == y;
                assert(0 <= order[i] < n);
            }
        }
        vstd::set_lib::lemma_len_subset(named, all.remove(x));
    }
}

/// There is one order of price: costs alone decide it.
pub proof fn the_order_of_price_is_unique(a: Seq<int>, b: Seq<int>, costs: Seq<u64>)
    requires
        catalog::is_arrangement(a, costs.len()),
        catalog::is_arrangement(b, costs.len()),
        catalog::by_cost(a, costs),
        catalog::by_cost(b, costs),
    ensures
        a == b,
{
    assert forall|i: int| 0 <= i < a.len() implies #[trigger] a[i] == b[i] by {
        lemma_same_prefix(a, b, costs, i);
    }
    assert(a =~= b);
}

proof fn lemma_same_prefix(a: Seq<int>, b: Seq<int>, costs: Seq<u64>, i: int)
    requires
        catalog::is_arrangement(a, costs.len()),
        catalog::is_arrangement(b, costs.len()),
        catalog::by_cost(a, costs),
        catalog::by_cost(b, costs),
        0 <= i < a.len(),
    ensures
        a[i] == b[i],
    decreases i,
{
    assert forall|j: int| 0 <= j < i implies #[trigger] a[j] == b[j] by {
        lemma_same_prefix(a, b, costs, j);
    }
    if a[i] != b[i] {
        lemma_named(b, costs.len(), a[i]);
        lemma_named(a, costs.len(), b[i]);
        let p = choose|p: int| 0 <= p < b.len() && b[p] == a[i];
        let q = choose|q: int| 0 <= q < a.len() && a[q] == b[i];
        if p < i {
            assert(a[p] == b[p]);
        }
        if q < i {
            assert(a[q] == b[q]);
        }
        assert(catalog::costs_less(costs, b[i], b[p]));
        assert(catalog::costs_less(costs, a[i], a[q]));
    }
}

} // verus!
