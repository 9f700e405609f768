//! A map from texts to values, kept in the order of its keys.

use vstd::prelude::*;
use crate::text;
use crate::text_order;

verus! {

/// The map that a list of entries makes, later entries over earlier ones.
pub open spec fn map_of<V>(entries: Seq<(Seq<char>, V)>) -> Map<Seq<char>, V>
    decreases entries.len(),
{
    if entries.len() == 0 {
        Map::empty()
    } else {
        map_of(entries.drop_last()).insert(entries.last().0, entries.last().1)
    }
}

/// The keys of a list of entries.
pub open spec fn keys_of<V>(entries: Seq<(Seq<char>, V)>) -> Seq<Seq<char>> {
    Seq::new(entries.len(), |i: int| entries[i].0)
}

/// What a map of distinct entries holds: each of them, and nothing else.
pub proof fn lemma_map_of<V>(entries: Seq<(Seq<char>, V)>)
    requires
        text_order::increasing(keys_of(entries)),
    ensures
        forall|i: int|
            0 <= i < entries.len() ==> map_of(entries).dom().contains(#[trigger] entries[i].0)
                && map_of(entries)[entries[i].0] == entries[i].1,
        forall|k: Seq<char>|
            #[trigger] map_of(entries).dom().contains(k) ==> keys_of(entries).contains(k),
    decreases entries.len(),
{
    if entries.len() > 0 {
        let rest = entries.drop_last();
        let last = entries.last();
        let keys = keys_of(entries);
        assert forall|i: int, j: int| 0 <= i < j < rest.len() implies text_order::before(
            #[trigger] keys_of(rest)[i],
            #[trigger] keys_of(rest)[j],
        ) by {
            assert(keys_of(rest)[i] == keys[i] && keys_of(rest)[j] == keys[j]);
        }
        lemma_map_of(rest);
        assert forall|i: int| 0 <= i < entries.len() implies map_of(entries).dom().contains(
            #[trigger] entries[i].0,
        ) && map_of(entries)[entries[i].0] == entries[i].1 by {
            if i < rest.len() {
                assert(rest[i].0 == entries[i].0);
                assert(text_order::before(keys[i], keys[entries.len() - 1]));
                text_order::lemma_irreflexive(last.0);
            }
        }
        assert forall|k: Seq<char>| #[trigger] map_of(entries).dom().contains(k) implies keys_of(
            entries,
        ).contains(k) by {
            if k == last.0 {
                assert(keys[entries.len() - 1] == k);
            } else {
                assert(map_of(rest).dom().contains(k));
                let j = choose|j: int| 0 <= j < keys_of(rest).len() && keys_of(rest)[j] == k;
                assert(keys[j] == k);
            }
        }
    }
}

/// Whether a list of entries is that of a map, in the order of the keys.
pub open spec fn is_ordered_form<V>(pairs: Seq<(Seq<char>, V)>, map: Map<Seq<char>, V>) -> bool {
    text_order::increasing(keys_of(pairs)) && map_of(pairs) == map
}

/// The entries of a map, in the order of their keys.
pub open spec fn ordered_pairs<V>(map: Map<Seq<char>, V>) -> Seq<(Seq<char>, V)> {
    choose|pairs: Seq<(Seq<char>, V)>| is_ordered_form(pairs, map)
}

/// The names of a set, in order.
pub open spec fn ordered_names(names: Set<Seq<char>>) -> Seq<Seq<char>> {
    keys_of(ordered_pairs(Map::new(|name: Seq<char>| names.contains(name), |name: Seq<char>| ())))
}

proof fn lemma_without_last<V>(pairs: Seq<(Seq<char>, V)>)
    requires
        pairs.len() > 0,
        text_order::increasing(keys_of(pairs)),
    ensures
        text_order::increasing(keys_of(pairs.drop_last())),
        map_of(pairs.drop_last()) == map_of(pairs).remove(pairs.last().0),
        forall|k: Seq<char>|
            #[trigger] map_of(pairs).dom().contains(k) ==> k == pairs.last().0
                || text_order::before(k, pairs.last().0),
{
    let rest = pairs.drop_last();
    let last = pairs.last().0;
    let keys = keys_of(pairs);
    assert forall|i: int, j: int| 0 <= i < j < rest.len() implies text_order::before(
        #[trigger] keys_of(rest)[i],
        #[trigger] keys_of(rest)[j],
    ) by {
        assert(keys_of(rest)[i] == keys[i] && keys_of(rest)[j] == keys[j]);
    }
    lemma_map_of(pairs);
    lemma_map_of(rest);
    assert(!map_of(rest).dom().contains(last)) by {
        if map_of(rest).dom().contains(last) {
            let j = choose|j: int| 0 <= j < keys_of(rest).len() && keys_of(rest)[j] == last;
            assert(text_order::before(keys[j], keys[pairs.len() - 1]));
            text_order::lemma_irreflexive(last);
        }
    }
    assert(map_of(rest) =~= map_of(pairs).remove(last));
    assert forall|k: Seq<char>| #[trigger] map_of(pairs).dom().contains(k) implies k == last
        || text_order::before(k, last) by {
        let j = choose|j: int| 0 <= j < keys.len() && keys[j] == k;
        if j < pairs.len() - 1 {
            assert(text_order::before(keys[j], keys[pairs.len() - 1]));
        }
    }
}

/// A map has one list of entries in order.
pub proof fn lemma_pairs_unique<V>(a: Seq<(Seq<char>, V)>, b: Seq<(Seq<char>, V)>)
    requires
        text_order::increasing(keys_of(a)),
        text_order::increasing(keys_of(b)),
        map_of(a) == map_of(b),
    ensures
        a == b,
    decreases a.len(),
{
    lemma_map_of(a);
    lemma_map_of(b);
    if a.len() == 0 {
        if b.len() > 0 {
            assert(map_of(b).dom().contains(b[0].0));
        }
        assert(a =~= b);
    } else {
        let x = a.last().0;
        assert(a[a.len() - 1].0 == x);
        assert(map_of(b).dom().contains(x));
        if b.len() == 0 {
            assert(keys_of(b).contains(x));
        }
        let y = b.last().0;
        assert(b[b.len() - 1].0 == y);
        assert(map_of(a).dom().contains(y));
        lemma_without_last(a);
        lemma_without_last(b);
        if x != y {
            text_order::lemma_transitive(x, y, x);
            text_order::lemma_irreflexive(x);
        }
        lemma_pairs_unique(a.drop_last(), b.drop_last());
        assert(a.last() == b.last());
        assert(a =~= a.drop_last().push(a.last()));
        assert(b =~= b.drop_last().push(b.last()));
    }
}

/// A map from texts to values. Its entries stand in the order of their keys.
#[derive(Debug, PartialEq, Eq)]
pub struct TextMap<V: View> {
    entries: Vec<(String, V)>,
}

impl<V: View> View for TextMap<V> {
    type V = Map<Seq<char>, <V as View>::V>;

    closed spec fn view(&self) -> Map<Seq<char>, <V as View>::V> {
        map_of(self.pairs())
    }
}

/// What a list of entries denotes.
pub open spec fn entry_models<V: View>(entries: Seq<(String, V)>) -> Seq<
    (Seq<char>, <V as View>::V),
> {
    Seq::new(entries.len(), |i: int| (entries[i].0@, entries[i].1@))
}

impl<V: View> TextMap<V> {
    /// The entries, in the order of their keys.
    pub closed spec fn pairs(&self) -> Seq<(Seq<char>, <V as View>::V)> {
        entry_models(self.entries@)
    }

    #[verifier::type_invariant]
    spec fn ordered(&self) -> bool {
        text_order::increasing(keys_of(self.pairs()))
    }

    /// A map without entries.
    pub fn new() -> (r: Self)
        ensures
            r@ == Map::<Seq<char>, <V as View>::V>::empty(),
            r.pairs().len() == 0,
    {
        let r = TextMap { entries: Vec::new() };
        assert(r.pairs() =~= Seq::empty());
        r
    }

    /// How many entries there are. They stand in the order of their keys and
    /// are what the map holds.
    pub fn len(&self) -> (r: usize)
        ensures
            r == self.pairs().len(),
            self.pairs() == ordered_pairs(self@),
            is_ordered_form(self.pairs(), self@),
    {
        proof {
            use_type_invariant(self);
            assert(is_ordered_form(self.pairs(), self@));
            lemma_pairs_unique(self.pairs(), ordered_pairs(self@));
        }
        self.entries.len()
    }

    /// The entry at a position.
    pub fn entry(&self, i: usize) -> (r: (&str, &V))
        requires
            i < self.pairs().len(),
        ensures
            r.0@ == self.pairs()[i as int].0,
            r.1@ == self.pairs()[i as int].1,
            self@.dom().contains(r.0@),
            self@[r.0@] == r.1@,
    {
        proof {
            use_type_invariant(self);
            lemma_map_of(self.pairs());
        }
        let entry = &self.entries[i];
        (entry.0.as_str(), &entry.1)
    }

    /// The position of a key, or where it would stand.
    fn find(&self, key: &str) -> (r: (bool, usize))
        ensures
            r.1 <= self.pairs().len(),
            r.0 ==> r.1 < self.pairs().len() && self.pairs()[r.1 as int].0 == key@,
            !r.0 ==> !self@.dom().contains(key@),
            r.0 ==> self@.dom().contains(key@) && self@[key@] == self.pairs()[r.1 as int].1,
            forall|j: int|
                0 <= j < r.1 ==> text_order::before(#[trigger] keys_of(self.pairs())[j], key@),
            forall|j: int|
                r.1 <= j < self.pairs().len() && !r.0 ==> text_order::before(
                    key@,
                    #[trigger] keys_of(self.pairs())[j],
                ),
    {
        proof {
            use_type_invariant(self);
            lemma_map_of(self.pairs());
        }
        let ghost pairs = self.pairs();
        let ghost keys = keys_of(pairs);
        let mut i: usize = 0;
        while i < self.entries.len() && text_order::is_before(self.entries[i].0.as_str(), key)
            invariant
                i <= self.entries.len(),
                pairs == self.pairs(),
                keys == keys_of(pairs),
                keys.len() == self.entries.len(),
                forall|j: int| 0 <= j < i ==> text_order::before(#[trigger] keys[j], key@),
            decreases self.entries.len() - i,
        {
            assert(keys[i as int] == self.entries@[i as int].0@);
            i = i + 1;
        }
        if i < self.entries.len() && text::same_text(self.entries[i].0.as_str(), key) {
            assert(pairs[i as int].0 == key@);
            return (true, i);
        }
        proof {
            assert forall|j: int| i <= j < keys.len() implies text_order::before(
                key@,
                #[trigger] keys[j],
            ) by {
                text_order::lemma_total(keys[i as int], key@);
                if j > i {
                    text_order::lemma_transitive(key@, keys[i as int], keys[j]);
                }
            }
            if self@.dom().contains(key@) {
                let j = choose|j: int| 0 <= j < keys.len() && keys[j] == key@;
                text_order::lemma_irreflexive(key@);
            }
        }
        (false, i)
    }

    /// The value of a key.
    pub fn get(&self, key: &str) -> (r: Option<&V>)
        ensures
            match r {
                Some(value) => self@.dom().contains(key@) && value@ == self@[key@],
                None => !self@.dom().contains(key@),
            },
    {
        let (found, i) = self.find(key);
        if found {
            Some(&self.entries[i].1)
        } else {
            None
        }
    }

    /// Set the value of a key.
    pub fn insert(&mut self, key: String, value: V)
        ensures
            final(self)@ == old(self)@.insert(key@, value@),
    {
        let (found, i) = self.find(key.as_str());
        proof {
            use_type_invariant(&*self);
        }
        let ghost before = self.pairs();
        let ghost keys = keys_of(before);
        let mut entries: Vec<(String, V)> = Vec::new();
        std::mem::swap(&mut self.entries, &mut entries);
        let ghost name = key@;
        if found {
            entries.remove(i);
        }
        entries.insert(i, (key, value));
        let ghost after = entry_models(entries@);
        proof {
            let new_keys = keys_of(after);
            if found {
                assert(after =~= before.update(i as int, (name, value@)));
                assert(new_keys =~= keys);
            } else {
                assert(after =~= before.insert(i as int, (name, value@)));
                assert forall|j: int, k: int| 0 <= j < k < new_keys.len() implies text_order::before(
                    #[trigger] new_keys[j],
                    #[trigger] new_keys[k],
                ) by {
                    let old_j = if j < i { j } else { j - 1 };
                    let old_k = if k < i { k } else { k - 1 };
                    if j != i {
                        assert(new_keys[j] == keys[old_j]);
                    }
                    if k != i {
                        assert(new_keys[k] == keys[old_k]);
                    }
                }
            }
            lemma_map_of(before);
            lemma_map_of(after);
            let wanted = map_of(before).insert(name, value@);
            assert forall|k: Seq<char>| map_of(after).dom().contains(k) == wanted.dom().contains(
                k,
            ) by {
                if map_of(after).dom().contains(k) && k != name {
                    let j = choose|j: int| 0 <= j < new_keys.len() && new_keys[j] == k;
                    let old_j = if found || j < i { j } else { j - 1 };
                    assert(before[old_j].0 == k);
                }
                if wanted.dom().contains(k) {
                    if k == name {
                        assert(after[i as int].0 == k);
                    } else {
                        let j = choose|j: int| 0 <= j < keys.len() && keys[j] == k;
                        let new_j = if found || j < i { j } else { j + 1 };
                        assert(after[new_j].0 == k);
                    }
                }
            }
            assert forall|k: Seq<char>| map_of(after).dom().contains(k) implies map_of(after)[k]
                == wanted[k] by {
                let j = choose|j: int| 0 <= j < new_keys.len() && new_keys[j] == k;
                assert(after[j].0 == k);
                if j != i {
                    let old_j = if found || j < i { j } else { j - 1 };
                    assert(before[old_j] == after[j]);
                    assert(k != name) by {
                        text_order::lemma_irreflexive(name);
                        assert(new_keys[i as int] == name);
                        if j < i {
                            assert(text_order::before(new_keys[j], new_keys[i as int]));
                        } else {
                            assert(text_order::before(new_keys[i as int], new_keys[j]));
                        }
                    }
                }
            }
            assert(map_of(after) =~= wanted);
        }
        self.entries = entries;
        assert(self.pairs() =~= after);
    }

    /// Remove a key.
    pub fn remove(&mut self, key: &str)
        ensures
            final(self)@ == old(self)@.remove(key@),
    {
        let (found, i) = self.find(key);
        proof {
            use_type_invariant(&*self);
        }
        if !found {
            assert(self@.remove(key@) =~= self@);
            return ;
        }
        let ghost before = self.pairs();
        let ghost keys = keys_of(before);
        let ghost name = key@;
        let mut entries: Vec<(String, V)> = Vec::new();
        std::mem::swap(&mut self.entries, &mut entries);
        entries.remove(i);
        let ghost after = entry_models(entries@);
        proof {
            let new_keys = keys_of(after);
            assert(after =~= before.remove(i as int));
            assert forall|j: int, k: int| 0 <= j < k < new_keys.len() implies text_order::before(
                #[trigger] new_keys[j],
                #[trigger] new_keys[k],
            ) by {
                let old_j = if j < i { j } else { j + 1 };
                let old_k = if k < i { k } else { k + 1 };
                assert(new_keys[j] == keys[old_j]);
                assert(new_keys[k] == keys[old_k]);
            }
            lemma_map_of(before);
            lemma_map_of(after);
            text_order::lemma_irreflexive(name);
            let wanted = map_of(before).remove(name);
            assert forall|k: Seq<char>| map_of(after).dom().contains(k) == wanted.dom().contains(
                k,
            ) by {
                if map_of(after).dom().contains(k) {
                    let j = choose|j: int| 0 <= j < new_keys.len() && new_keys[j] == k;
                    let old_j = if j < i { j } else { j + 1 };
                    assert(before[old_j].0 == k);
                    assert(keys[old_j] == k);
                    if old_j < i {
                        assert(text_order::before(keys[old_j], keys[i as int]));
                    } else {
                        assert(text_order::before(keys[i as int], keys[old_j]));
                    }
                }
                if wanted.dom().contains(k) {
                    let j = choose|j: int| 0 <= j < keys.len() && keys[j] == k;
                    let new_j = if j < i { j } else { j - 1 };
                    assert(after[new_j].0 == k);
                }
            }
            assert forall|k: Seq<char>| map_of(after).dom().contains(k) implies map_of(after)[k]
                == wanted[k] by {
                let j = choose|j: int| 0 <= j < new_keys.len() && new_keys[j] == k;
                let old_j = if j < i { j } else { j + 1 };
                assert(after[j].0 == k);
                assert(before[old_j] == after[j]);
                assert(before[old_j].0 == k);
                assert(wanted.dom().contains(k));
            }
            assert(map_of(after) =~= wanted);
        }
        self.entries = entries;
        assert(self.pairs() =~= after);
    }
}

impl Clone for TextMap<String> {
    fn clone(&self) -> (r: Self)
        ensures
            r@ == self@,
            r.pairs() == self.pairs(),
    {
        proof {
            use_type_invariant(self);
        }
        let mut entries: Vec<(String, String)> = Vec::new();
        let mut i: usize = 0;
        while i < self.entries.len()
            invariant
                i <= self.entries.len(),
                entries.len() == i,
                forall|j: int|
                    0 <= j < i ==> (#[trigger] entries@[j]).0@ == self.entries@[j].0@ && entries@[j].1@
                        == self.entries@[j].1@,
            decreases self.entries.len() - i,
        {
            entries.push((self.entries[i].0.clone(), self.entries[i].1.clone()));
            i = i + 1;
        }
        let ghost copied = entry_models(entries@);
        assert(copied =~= self.pairs());
        TextMap { entries }
    }
}

impl Clone for TextMap<()> {
    fn clone(&self) -> (r: Self)
        ensures
            r@ == self@,
            r.pairs() == self.pairs(),
    {
        proof {
            use_type_invariant(self);
        }
        let mut entries: Vec<(String, ())> = Vec::new();
        let mut i: usize = 0;
        while i < self.entries.len()
            invariant
                i <= self.entries.len(),
                entries.len() == i,
                forall|j: int|
                    0 <= j < i ==> (#[trigger] entries@[j]).0@ == self.entries@[j].0@ && entries@[j].1@
                        == self.entries@[j].1@,
            decreases self.entries.len() - i,
        {
            entries.push((self.entries[i].0.clone(), ()));
            i = i + 1;
        }
        let ghost copied = entry_models(entries@);
        assert(copied =~= self.pairs());
        TextMap { entries }
    }
}

} // verus!
