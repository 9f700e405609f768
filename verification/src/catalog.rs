//! The in-memory model catalog.
//!
//! Zero database, zero bloat: a `Vec` plus a slug index, loaded into RAM at
//! startup and queried by plain passes over it.

use vstd::hash_map::StringHashMap;
use vstd::prelude::*;
use crate::model;
use crate::model::{Model, ModelData};
use crate::text;
use crate::text_map;
use crate::text_map::TextMap;
use crate::text_order;

verus! {

/// What a list of models denotes.
pub open spec fn data_of(models: Seq<Model>) -> Seq<ModelData> {
    Seq::new(models.len(), |i: int| models[i]@)
}

/// What a list of references to models denotes.
pub open spec fn data_behind(models: Seq<&Model>) -> Seq<ModelData> {
    Seq::new(models.len(), |i: int| models[i]@)
}

/// Whether no two models have the same slug.
pub open spec fn unique_slugs(models: Seq<ModelData>) -> bool {
    forall|i: int, j: int|
        0 <= i < j < models.len() ==> (#[trigger] models[i]).slug != (#[trigger] models[j]).slug
}

/// Whether a model stands at a position under a slug.
pub open spec fn is_at(models: Seq<ModelData>, slug: Seq<char>, i: int) -> bool {
    0 <= i < models.len() && models[i].slug == slug
}

/// Whether a slug is taken.
pub open spec fn has_slug(models: Seq<ModelData>, slug: Seq<char>) -> bool {
    exists|i: int| is_at(models, slug, i)
}

/// Where the model with a slug stands.
pub open spec fn position(models: Seq<ModelData>, slug: Seq<char>) -> int {
    choose|i: int| is_at(models, slug, i)
}

/// The model with a slug, if there is one.
pub open spec fn lookup(models: Seq<ModelData>, slug: Seq<char>) -> Option<ModelData> {
    if has_slug(models, slug) {
        Some(models[position(models, slug)])
    } else {
        None
    }
}

/// The models after one was inserted, or replaced by its slug.
pub open spec fn upserted(models: Seq<ModelData>, model: ModelData) -> Seq<ModelData> {
    if has_slug(models, model.slug) {
        models.update(position(models, model.slug), model)
    } else {
        models.push(model)
    }
}

/// The models after a batch was inserted or replaced, one after the other.
pub open spec fn merged(models: Seq<ModelData>, incoming: Seq<ModelData>) -> Seq<ModelData>
    decreases incoming.len(),
{
    if incoming.len() == 0 {
        models
    } else {
        upserted(merged(models, incoming.drop_last()), incoming.last())
    }
}

/// Whether a model meets hard constraints.
pub open spec fn is_capable(
    model: ModelData,
    min_context: usize,
    needs_tools: bool,
    needs_vision: bool,
) -> bool {
    &&& model.context_window >= min_context
    &&& needs_tools ==> model.supports_tools
    &&& needs_vision ==> model.supports_vision
}

/// Which models meet hard constraints.
pub open spec fn capability_test(
    min_context: usize,
    needs_tools: bool,
    needs_vision: bool,
) -> spec_fn(ModelData) -> bool {
    |model: ModelData| is_capable(model, min_context, needs_tools, needs_vision)
}

/// Which models a query finds.
pub open spec fn match_test(query: Seq<char>) -> spec_fn(ModelData) -> bool {
    |model: ModelData| model::is_match(model, query)
}

/// Whether one model comes before another by cost, the earlier one first where
/// both cost the same.
pub open spec fn costs_less(costs: Seq<u64>, i: int, j: int) -> bool {
    ||| model::amount_rank(costs[i]) < model::amount_rank(costs[j])
    ||| model::amount_rank(costs[i]) == model::amount_rank(costs[j]) && i < j
}

/// Whether a list of positions names each of the first `n` once.
pub open spec fn is_arrangement(order: Seq<int>, n: nat) -> bool {
    &&& order.len() == n
    &&& forall|i: int| 0 <= i < order.len() ==> 0 <= #[trigger] order[i] < n
    &&& forall|i: int, j: int|
        0 <= i < j < order.len() ==> (#[trigger] order[i]) != (#[trigger] order[j])
}

/// Whether positions stand in the order of their costs.
pub open spec fn by_cost(order: Seq<int>, costs: Seq<u64>) -> bool {
    forall|i: int, j: int|
        0 <= i < j < order.len() ==> costs_less(costs, #[trigger] order[i], #[trigger] order[j])
}

/// The models at a list of positions.
pub open spec fn arranged(models: Seq<ModelData>, order: Seq<int>) -> Seq<ModelData> {
    Seq::new(order.len(), |i: int| models[order[i]])
}

/// Whether a position holds the cheapest of the capable models, the earliest
/// one where several cost the same.
pub open spec fn is_cheapest(
    models: Seq<ModelData>,
    costs: Seq<u64>,
    test: spec_fn(ModelData) -> bool,
    i: int,
) -> bool {
    &&& 0 <= i < models.len()
    &&& test(models[i])
    &&& forall|j: int|
        0 <= j < models.len() && j != i && test(#[trigger] models[j]) ==> costs_less(costs, i, j)
}

/// A read-mostly, in-memory collection of models with O(1) slug lookup.
pub struct Catalog {
    models: Vec<Model>,
    /// Where the model with each slug stands.
    by_slug: StringHashMap<usize>,
}

/// Whether an index names the position of each slug, and nothing else.
pub open spec fn is_index(index: Map<Seq<char>, usize>, models: Seq<ModelData>) -> bool {
    &&& forall|i: int|
        0 <= i < models.len() ==> index.dom().contains((#[trigger] models[i]).slug)
            && index[models[i].slug] == i
    &&& forall|slug: Seq<char>|
        #[trigger] index.dom().contains(slug) ==> is_at(models, slug, index[slug] as int)
}

impl View for Catalog {
    type V = Seq<ModelData>;

    closed spec fn view(&self) -> Seq<ModelData> {
        data_of(self.models@)
    }
}

impl Default for Catalog {
    fn default() -> (r: Self)
        ensures
            r@ == Seq::<ModelData>::empty(),
    {
        Catalog::new()
    }
}

impl Clone for Catalog {
    fn clone(&self) -> (r: Self)
        ensures
            r@ == self@,
    {
        proof {
            use_type_invariant(self);
        }
        let mut models: Vec<Model> = Vec::new();
        let mut by_slug: StringHashMap<usize> = StringHashMap::new();
        let mut i: usize = 0;
        while i < self.models.len()
            invariant
                i <= self.models.len(),
                models.len() == i,
                is_index(self.by_slug@, self@),
                self@ == data_of(self.models@),
                forall|j: int| 0 <= j < i ==> (#[trigger] models@[j])@ == self@[j],
                is_index(by_slug@, data_of(models@)),
            decreases self.models.len() - i,
        {
            let ghost before = data_of(models@);
            let ghost index = by_slug@;
            let model = self.models[i].clone();
            by_slug.insert(model.slug.clone(), i);
            models.push(model);
            proof {
                assert(data_of(models@) =~= before.push(self@[i as int]));
                let slug = self@[i as int].slug;
                assert forall|j: int| 0 <= j < i implies (#[trigger] before[j]).slug != slug by {
                    assert(before[j] == self@[j]);
                    assert(self.by_slug@[self@[j].slug] == j);
                    assert(self.by_slug@[self@[i as int].slug] == i);
                }
                lemma_index_push(index, before, self@[i as int], i);
            }
            i = i + 1;
        }
        assert(data_of(models@) =~= self@);
        Catalog { models, by_slug }
    }
}

proof fn lemma_index_unique(index: Map<Seq<char>, usize>, models: Seq<ModelData>)
    requires
        is_index(index, models),
    ensures
        unique_slugs(models),
{
    assert forall|i: int, j: int| 0 <= i < j < models.len() implies (#[trigger] models[i]).slug != (
    #[trigger] models[j]).slug by {
        assert(index[models[i].slug] == i);
        assert(index[models[j].slug] == j);
    }
}

proof fn lemma_index_push(
    index: Map<Seq<char>, usize>,
    models: Seq<ModelData>,
    model: ModelData,
    at: usize,
)
    requires
        is_index(index, models),
        at == models.len(),
        forall|j: int| 0 <= j < models.len() ==> (#[trigger] models[j]).slug != model.slug,
    ensures
        is_index(index.insert(model.slug, at), models.push(model)),
{
    let after = models.push(model);
    let new_index = index.insert(model.slug, at);
    assert forall|i: int| 0 <= i < after.len() implies new_index.dom().contains(
        (#[trigger] after[i]).slug,
    ) && new_index[after[i].slug] == i by {
        if i < models.len() {
            assert(after[i] == models[i]);
        }
    }
    assert forall|slug: Seq<char>| #[trigger] new_index.dom().contains(slug) implies is_at(
        after,
        slug,
        new_index[slug] as int,
    ) by {
        if slug != model.slug {
            assert(index.dom().contains(slug));
            assert(is_at(models, slug, index[slug] as int));
        }
    }
}

proof fn lemma_index_set(
    index: Map<Seq<char>, usize>,
    models: Seq<ModelData>,
    model: ModelData,
    at: int,
)
    requires
        is_index(index, models),
        is_at(models, model.slug, at),
    ensures
        is_index(index, models.update(at, model)),
{
    let after = models.update(at, model);
    assert forall|i: int| 0 <= i < after.len() implies index.dom().contains(
        (#[trigger] after[i]).slug,
    ) && index[after[i].slug] == i by {
        assert(models[i].slug == after[i].slug);
    }
    assert forall|slug: Seq<char>| #[trigger] index.dom().contains(slug) implies is_at(
        after,
        slug,
        index[slug] as int,
    ) by {
        assert(is_at(models, slug, index[slug] as int));
    }
}

/// A slug stands at one position only.
pub proof fn lemma_position(models: Seq<ModelData>, slug: Seq<char>, i: int)
    requires
        unique_slugs(models),
        is_at(models, slug, i),
    ensures
        has_slug(models, slug),
        position(models, slug) == i,
{
    let p = position(models, slug);
    assert(is_at(models, slug, p));
    if p < i {
        assert(models[p].slug != models[i].slug);
    } else if i < p {
        assert(models[i].slug != models[p].slug);
    }
}

impl Catalog {
    #[verifier::type_invariant]
    spec fn indexed(&self) -> bool {
        is_index(self.by_slug@, self@)
    }

    /// An empty catalog.
    pub fn new() -> (r: Self)
        ensures
            r@ == Seq::<ModelData>::empty(),
    {
        let models: Vec<Model> = Vec::new();
        assert(data_of(models@) =~= Seq::empty());
        Catalog { models, by_slug: StringHashMap::new() }
    }

    /// How many models there are. No two have the same slug.
    pub fn len(&self) -> (r: usize)
        ensures
            r == self@.len(),
            unique_slugs(self@),
    {
        proof {
            use_type_invariant(self);
            lemma_index_unique(self.by_slug@, self@);
        }
        self.models.len()
    }

    /// Whether there are no models.
    pub fn is_empty(&self) -> (r: bool)
        ensures
            r == (self@.len() == 0),
    {
        self.models.len() == 0
    }

    /// The models, in the order in which they came.
    pub fn iter(&self) -> (r: &Vec<Model>)
        ensures
            data_of(r@) == self@,
    {
        &self.models
    }

    /// O(1) lookup by canonical slug.
    pub fn get(&self, slug: &str) -> (r: Option<&Model>)
        ensures
            match r {
                Some(model) => lookup(self@, slug@) == Some(model@),
                None => lookup(self@, slug@) is None,
            },
    {
        proof {
            use_type_invariant(self);
            lemma_index_unique(self.by_slug@, self@);
        }
        match self.by_slug.get(slug) {
            Some(i) => {
                proof {
                    lemma_position(self@, slug@, *i as int);
                }
                Some(&self.models[*i])
            },
            None => {
                assert(!has_slug(self@, slug@));
                None
            },
        }
    }

    /// Insert or replace by slug. Returns `true` when it was a new model.
    pub fn upsert(&mut self, model: Model) -> (r: bool)
        ensures
            final(self)@ == upserted(old(self)@, model@),
            r == !has_slug(old(self)@, model@.slug),
            unique_slugs(final(self)@),
    {
        proof {
            use_type_invariant(&*self);
            lemma_index_unique(self.by_slug@, self@);
        }
        let ghost before = self@;
        let ghost index = self.by_slug@;
        let ghost data = model@;
        let mut taken = Catalog::new();
        std::mem::swap(self, &mut taken);
        let Catalog { mut models, mut by_slug } = taken;
        let found: Option<usize> = match by_slug.get(model.slug.as_str()) {
            Some(i) => Some(*i),
            None => None,
        };
        match found {
            Some(i) => {
                proof {
                    lemma_position(before, data.slug, i as int);
                    lemma_index_set(index, before, data, i as int);
                }
                models.set(i, model);
                assert(data_of(models@) =~= before.update(i as int, data));
                *self = Catalog { models, by_slug };
                proof {
                    lemma_index_unique(self.by_slug@, self@);
                }
                false
            },
            None => {
                proof {
                    assert(!has_slug(before, data.slug));
                    assert forall|j: int| 0 <= j < before.len() implies (#[trigger] before[j]).slug
                        != data.slug by {
                        assert(!is_at(before, data.slug, j));
                    }
                    lemma_index_push(index, before, data, models.len());
                }
                by_slug.insert(model.slug.clone(), models.len());
                models.push(model);
                assert(data_of(models@) =~= before.push(data));
                *self = Catalog { models, by_slug };
                proof {
                    lemma_index_unique(self.by_slug@, self@);
                }
                true
            },
        }
    }

    /// Merge a batch (e.g. one sync source). Returns how many were new.
    pub fn merge(&mut self, incoming: Vec<Model>) -> (r: usize)
        ensures
            final(self)@ == merged(old(self)@, data_of(incoming@)),
            r == final(self)@.len() - old(self)@.len(),
            unique_slugs(final(self)@),
    {
        let ghost all = data_of(incoming@);
        let ghost before = self@;
        let mut added: usize = 0;
        let count = incoming.len();
        let mut done: usize = 0;
        let _ = self.len();
        assert(all.take(0) =~= Seq::empty());
        while done < count
            invariant
                done <= count,
                count == all.len(),
                count == incoming.len(),
                all == data_of(incoming@),
                self@ == merged(before, all.take(done as int)),
                added == self@.len() - before.len(),
                added <= done,
                unique_slugs(self@),
            decreases count - done,
        {
            let model = incoming[done].clone();
            proof {
                assert(all.take(done + 1).drop_last() =~= all.take(done as int));
                assert(all.take(done + 1).last() == model@);
            }
            if self.upsert(model) {
                added = added + 1;
            }
            done = done + 1;
        }
        assert(all.take(count as int) =~= all);
        added
    }

    /// Distinct provider names, sorted.
    pub fn providers(&self) -> (r: Vec<String>)
        ensures
            text_order::increasing(text::texts(r@)),
            forall|name: Seq<char>|
                #[trigger] text::texts(r@).contains(name) <==> exists|i: int|
                    0 <= i < self@.len() && (#[trigger] self@[i]).provider == name,
    {
        let mut names: TextMap<()> = TextMap::new();
        let mut i: usize = 0;
        while i < self.models.len()
            invariant
                i <= self.models.len(),
                self@ == data_of(self.models@),
                forall|name: Seq<char>|
                    #[trigger] names@.dom().contains(name) <==> exists|j: int|
                        0 <= j < i && (#[trigger] self@[j]).provider == name,
            decreases self.models.len() - i,
        {
            let ghost before = names@;
            let name = self.models[i].provider.clone();
            let ghost provider = name@;
            names.insert(name, ());
            proof {
                assert(self@[i as int].provider == provider);
                assert forall|name: Seq<char>| #[trigger] names@.dom().contains(
                    name,
                ) <==> exists|j: int| 0 <= j < i + 1 && (#[trigger] self@[j]).provider == name by {
                    if names@.dom().contains(name) {
                        if name == provider {
                            assert(self@[i as int].provider == name);
                        } else {
                            assert(before.dom().contains(name));
                            let j = choose|j: int|
                                0 <= j < i && (#[trigger] self@[j]).provider == name;
                            assert(self@[j].provider == name);
                        }
                    }
                    if exists|j: int| 0 <= j < i + 1 && (#[trigger] self@[j]).provider == name {
                        let j = choose|j: int|
                            0 <= j < i + 1 && (#[trigger] self@[j]).provider == name;
                        if j < i {
                            assert(before.dom().contains(name));
                        }
                    }
                }
            }
            i = i + 1;
        }
        let count = names.len();
        let ghost keys = text_map::keys_of(names.pairs());
        let mut r: Vec<String> = Vec::new();
        let mut k: usize = 0;
        while k < count
            invariant
                k <= count,
                count == names.pairs().len(),
                keys == text_map::keys_of(names.pairs()),
                r.len() == k,
                forall|j: int| 0 <= j < k ==> (#[trigger] r@[j])@ == keys[j],
            decreases count - k,
        {
            let (name, _) = names.entry(k);
            r.push(name.to_owned());
            k = k + 1;
        }
        proof {
            assert(text::texts(r@) =~= keys);
            text_map::lemma_map_of(names.pairs());
            assert forall|name: Seq<char>| #[trigger] keys.contains(name) <==> names@.dom().contains(
                name,
            ) by {
                if keys.contains(name) {
                    let j = choose|j: int| 0 <= j < keys.len() && keys[j] == name;
                    assert(names.pairs()[j].0 == name);
                }
            }
        }
        r
    }

    /// Loose text search across slug, name and provider.
    pub fn search(&self, query: &str) -> (r: Vec<&Model>)
        ensures
            data_behind(r@) == self@.filter(match_test(query@)),
            text::trimmed(query@).len() == 0 ==> data_behind(r@) == self@,
    {
        let mut r: Vec<&Model> = Vec::new();
        let ghost test = match_test(query@);
        let mut i: usize = 0;
        proof {
            reveal(Seq::filter);
            assert(self@.take(0) =~= Seq::empty());
            assert(data_behind(r@) =~= self@.take(0).filter(test));
        }
        while i < self.models.len()
            invariant
                i <= self.models.len(),
                self@ == data_of(self.models@),
                test == match_test(query@),
                data_behind(r@) == self@.take(i as int).filter(test),
                text::trimmed(query@).len() == 0 ==> data_behind(r@) == self@.take(i as int),
            decreases self.models.len() - i,
        {
            let ghost before = data_behind(r@);
            proof {
                reveal(Seq::filter);
                assert(self@.take(i + 1).drop_last() =~= self@.take(i as int));
                assert(self@.take(i + 1).last() == self.models@[i as int]@);
                assert(self@.take(i + 1) =~= self@.take(i as int).push(self@[i as int]));
            }
            if self.models[i].matches(query) {
                r.push(&self.models[i]);
                assert(data_behind(r@) =~= before.push(self@[i as int]));
            }
            i = i + 1;
        }
        assert(self@.take(i as int) =~= self@);
        r
    }

    /// Models meeting hard constraints.
    pub fn capable(&self, min_context: usize, needs_tools: bool, needs_vision: bool) -> (r: Vec<
        &Model,
    >)
        ensures
            data_behind(r@) == self@.filter(
                capability_test(min_context, needs_tools, needs_vision),
            ),
    {
        let mut r: Vec<&Model> = Vec::new();
        let ghost test = capability_test(min_context, needs_tools, needs_vision);
        let mut i: usize = 0;
        proof {
            reveal(Seq::filter);
            assert(self@.take(0) =~= Seq::empty());
            assert(data_behind(r@) =~= self@.take(0).filter(test));
        }
        while i < self.models.len()
            invariant
                i <= self.models.len(),
                self@ == data_of(self.models@),
                test == capability_test(min_context, needs_tools, needs_vision),
                data_behind(r@) == self@.take(i as int).filter(test),
            decreases self.models.len() - i,
        {
            let ghost before = data_behind(r@);
            proof {
                reveal(Seq::filter);
                assert(self@.take(i + 1).drop_last() =~= self@.take(i as int));
                assert(self@.take(i + 1).last() == self.models@[i as int]@);
            }
            if meets(&self.models[i], min_context, needs_tools, needs_vision) {
                r.push(&self.models[i]);
                assert(data_behind(r@) =~= before.push(self@[i as int]));
            }
            i = i + 1;
        }
        assert(self@.take(i as int) =~= self@);
        r
    }

    /// Cheapest capable model. `costs` holds, for each model of the catalog,
    /// the price of a representative request, as bits.
    pub fn cheapest(
        &self,
        min_context: usize,
        needs_tools: bool,
        needs_vision: bool,
        costs: &Vec<u64>,
    ) -> (r: Option<&Model>)
        requires
            costs.len() == self@.len(),
        ensures
            match r {
                Some(model) => exists|i: int| #[trigger]
                    is_cheapest(
                        self@,
                        costs@,
                        capability_test(min_context, needs_tools, needs_vision),
                        i,
                    ) && model@ == self@[i],
                None => forall|i: int|
                    0 <= i < self@.len() ==> !is_capable(
                        #[trigger] self@[i],
                        min_context,
                        needs_tools,
                        needs_vision,
                    ),
            },
    {
        let ghost test = capability_test(min_context, needs_tools, needs_vision);
        let mut best: Option<usize> = None;
        let mut i: usize = 0;
        while i < self.models.len()
            invariant
                i <= self.models.len(),
                self.models.len() == costs.len(),
                self@ == data_of(self.models@),
                test == capability_test(min_context, needs_tools, needs_vision),
                match best {
                    Some(b) => {
                        &&& b < i
                        &&& test(self@[b as int])
                        &&& forall|j: int|
                            0 <= j < i && j != b && test(#[trigger] self@[j]) ==> costs_less(
                                costs@,
                                b as int,
                                j,
                            )
                    },
                    None => forall|j: int| 0 <= j < i ==> !test(#[trigger] self@[j]),
                },
            decreases self.models.len() - i,
        {
            if meets(&self.models[i], min_context, needs_tools, needs_vision) {
                assert(test(self@[i as int]));
                match best {
                    Some(b) => {
                        if model::is_less(costs[i], costs[b]) {
                            best = Some(i);
                        }
                    },
                    None => {
                        best = Some(i);
                    },
                }
            } else {
                assert(!test(self@[i as int]));
            }
            i = i + 1;
        }
        match best {
            Some(b) => {
                assert(is_cheapest(self@, costs@, test, b as int));
                Some(&self.models[b])
            },
            None => {
                assert forall|j: int| 0 <= j < self@.len() implies !is_capable(
                    #[trigger] self@[j],
                    min_context,
                    needs_tools,
                    needs_vision,
                ) by {
                    assert(!test(self@[j]));
                }
                None
            },
        }
    }

    /// All models sorted by the price of a representative request, cheapest
    /// first. `costs` holds that price for each model of the catalog, as bits.
    pub fn by_price(&self, costs: &Vec<u64>) -> (r: Vec<&Model>)
        requires
            costs.len() == self@.len(),
        ensures
            exists|order: Seq<int>| #[trigger]
                is_arrangement(order, self@.len()) && by_cost(order, costs@) && data_behind(r@)
                    == arranged(self@, order),
    {
        let mut places: Vec<usize> = Vec::new();
        let mut i: usize = 0;
        while i < self.models.len()
            invariant
                i <= self.models.len(),
                self.models.len() == costs.len(),
                self@ == data_of(self.models@),
                is_arrangement(order_of(places@), i as nat),
                by_cost(order_of(places@), costs@),
            decreases self.models.len() - i,
        {
            let ghost before = order_of(places@);
            let mut at: usize = places.len();
            assert forall|j: int| 0 <= j < places.len() implies #[trigger] places@[j] < i by {
                assert(before[j] == places@[j]);
            }
            while at > 0 && model::is_less(costs[i], costs[places[at - 1]])
                invariant
                    at <= places.len(),
                    i < costs.len(),
                    before == order_of(places@),
                    forall|j: int| 0 <= j < places.len() ==> #[trigger] places@[j] < i,
                    is_arrangement(before, i as nat),
                    forall|j: int|
                        at <= j < before.len() ==> costs_less(costs@, i as int, #[trigger] before[j]),
                decreases at,
            {
                assert(before[at - 1] == places@[at - 1]);
                at = at - 1;
            }
            proof {
                if at > 0 {
                    assert(before[at - 1] == places@[at - 1]);
                }
                lemma_insert_in_order(before, costs@, i as int, at as int);
            }
            places.insert(at, i);
            assert(order_of(places@) =~= before.insert(at as int, i as int));
            i = i + 1;
        }
        let ghost order = order_of(places@);
        let mut r: Vec<&Model> = Vec::new();
        let mut k: usize = 0;
        while k < places.len()
            invariant
                k <= places.len(),
                self@ == data_of(self.models@),
                order == order_of(places@),
                is_arrangement(order, self@.len()),
                r.len() == k,
                forall|j: int| 0 <= j < k ==> (#[trigger] r@[j])@ == self@[order[j]],
            decreases places.len() - k,
        {
            assert(order[k as int] == places@[k as int]);
            r.push(&self.models[places[k]]);
            k = k + 1;
        }
        assert(data_behind(r@) =~= arranged(self@, order));
        r
    }
}

/// Whether a model meets hard constraints.
fn meets(model: &Model, min_context: usize, needs_tools: bool, needs_vision: bool) -> (r: bool)
    ensures
        r == is_capable(model@, min_context, needs_tools, needs_vision),
{
    model.context_window >= min_context && (!needs_tools || model.supports_tools) && (!needs_vision
        || model.supports_vision)
}

/// The positions that a list of machine integers names.
spec fn order_of(places: Seq<usize>) -> Seq<int> {
    Seq::new(places.len(), |i: int| places[i] as int)
}

proof fn lemma_insert_in_order(order: Seq<int>, costs: Seq<u64>, new: int, at: int)
    requires
        0 <= new < costs.len(),
        is_arrangement(order, new as nat),
        by_cost(order, costs),
        0 <= at <= order.len(),
        forall|j: int| at <= j < order.len() ==> costs_less(costs, new, #[trigger] order[j]),
        at > 0 ==> !(model::amount_rank(costs[new]) < model::amount_rank(costs[order[at - 1]])),
    ensures
        is_arrangement(order.insert(at, new), (new + 1) as nat),
        by_cost(order.insert(at, new), costs),
{
    let after = order.insert(at, new);
    assert forall|j: int| 0 <= j < at implies costs_less(costs, #[trigger] order[j], new) by {
        if j < at - 1 {
            assert(costs_less(costs, order[j], order[at - 1]));
        }
    }
    assert forall|i: int, j: int| 0 <= i < j < after.len() implies costs_less(
        costs,
        #[trigger] after[i],
        #[trigger] after[j],
    ) && after[i] != after[j] by {
        let x = if i < at {
            i
        } else {
            i - 1
        };
        let y = if j < at {
            j
        } else {
            j - 1
        };
        if i != at {
            assert(after[i] == order[x]);
        }
        if j != at {
            assert(after[j] == order[y]);
        }
        if i != at && j != at {
            assert(costs_less(costs, order[x], order[y]));
        }
    }
}

} // verus!
