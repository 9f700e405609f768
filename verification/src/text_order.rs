//! The order of texts: by the first character in which they differ, with a
//! prefix before its extensions. It is the order of their UTF-8 bytes.

use vstd::prelude::*;
use crate::text;

verus! {

/// Whether one text comes before another.
pub open spec fn before(a: Seq<char>, b: Seq<char>) -> bool
    decreases a.len(),
{
    if b.len() == 0 {
        false
    } else if a.len() == 0 {
        true
    } else if a[0] != b[0] {
        a[0] < b[0]
    } else {
        before(a.skip(1), b.skip(1))
    }
}

/// Whether the texts of a list come one before the next.
pub open spec fn increasing(list: Seq<Seq<char>>) -> bool {
    forall|i: int, j: int| 0 <= i < j < list.len() ==> before(#[trigger] list[i], #[trigger] list[j])
}

/// Whether no text of a list comes before an earlier one.
pub open spec fn ascending(list: Seq<Seq<char>>) -> bool {
    forall|i: int, j: int|
        0 <= i < j < list.len() ==> !before(#[trigger] list[j], #[trigger] list[i])
}

/// No text comes before itself.
pub proof fn lemma_irreflexive(a: Seq<char>)
    ensures
        !before(a, a),
    decreases a.len(),
{
    if a.len() > 0 {
        lemma_irreflexive(a.skip(1));
    }
}

/// The order is transitive.
pub proof fn lemma_transitive(a: Seq<char>, b: Seq<char>, c: Seq<char>)
    requires
        before(a, b),
        before(b, c),
    ensures
        before(a, c),
    decreases a.len(),
{
    if a.len() > 0 && a[0] == b[0] && b[0] == c[0] {
        lemma_transitive(a.skip(1), b.skip(1), c.skip(1));
    }
}

/// Of two different texts one comes before the other.
pub proof fn lemma_total(a: Seq<char>, b: Seq<char>)
    ensures
        a == b || before(a, b) || before(b, a),
    decreases a.len(),
{
    if a.len() == 0 {
        if b.len() == 0 {
            assert(a =~= b);
        }
    } else if b.len() > 0 && a[0] == b[0] {
        lemma_total(a.skip(1), b.skip(1));
        if a.skip(1) == b.skip(1) {
            assert(a =~= seq![a[0]] + a.skip(1));
            assert(b =~= seq![b[0]] + b.skip(1));
        }
    }
}

/// Whether one text comes before another.
pub fn is_before(a: &str, b: &str) -> (r: bool)
    ensures
        r == before(a@, b@),
{
    let x = text::chars_of(a);
    let y = text::chars_of(b);
    let mut i: usize = 0;
    assert(x@.skip(0) =~= x@);
    assert(y@.skip(0) =~= y@);
    while i < x.len() && i < y.len()
        invariant
            i <= x.len(),
            i <= y.len(),
            x@ == a@,
            y@ == b@,
            before(a@, b@) == before(x@.skip(i as int), y@.skip(i as int)),
        decreases x.len() - i,
    {
        assert(x@.skip(i as int)[0] == x@[i as int]);
        assert(y@.skip(i as int)[0] == y@[i as int]);
        if x[i] != y[i] {
            return x[i] < y[i];
        }
        assert(x@.skip(i as int).skip(1) =~= x@.skip(i + 1));
        assert(y@.skip(i as int).skip(1) =~= y@.skip(i + 1));
        i = i + 1;
    }
    i < y.len()
}

/// An ascending list with the texts of a given one.
pub open spec fn is_sorted_form(sorted: Seq<Seq<char>>, list: Seq<Seq<char>>) -> bool {
    ascending(sorted) && sorted.to_multiset() == list.to_multiset()
}

/// The texts of a list in order.
pub open spec fn sorted(list: Seq<Seq<char>>) -> Seq<Seq<char>> {
    choose|form: Seq<Seq<char>>| is_sorted_form(form, list)
}

/// A list has one sorted form.
pub proof fn lemma_sorted_unique(a: Seq<Seq<char>>, b: Seq<Seq<char>>)
    requires
        ascending(a),
        ascending(b),
        a.to_multiset() == b.to_multiset(),
    ensures
        a == b,
    decreases a.len(),
{
    a.to_multiset_ensures();
    b.to_multiset_ensures();
    if a.len() == 0 {
        assert(a =~= b);
    } else {
        let x = a[0];
        let y = b[0];
        assert(a.contains(x) && b.contains(y));
        assert(b.to_multiset().count(x) > 0 && a.to_multiset().count(y) > 0);
        assert(b.contains(x) && a.contains(y));
        let i = choose|i: int| 0 <= i < b.len() && b[i] == x;
        let j = choose|j: int| 0 <= j < a.len() && a[j] == y;
        assert(!before(x, y)) by {
            lemma_irreflexive(x);
            if i > 0 {
                assert(!before(b[i], b[0]));
            }
        }
        assert(!before(y, x)) by {
            lemma_irreflexive(y);
            if j > 0 {
                assert(!before(a[j], a[0]));
            }
        }
        lemma_total(x, y);
        let rest_a = a.remove(0);
        let rest_b = b.remove(0);
        assert(rest_a.to_multiset() == rest_b.to_multiset());
        assert forall|k: int, l: int| 0 <= k < l < rest_a.len() implies !before(
            #[trigger] rest_a[l],
            #[trigger] rest_a[k],
        ) by {
            assert(rest_a[l] == a[l + 1] && rest_a[k] == a[k + 1]);
        }
        assert forall|k: int, l: int| 0 <= k < l < rest_b.len() implies !before(
            #[trigger] rest_b[l],
            #[trigger] rest_b[k],
        ) by {
            assert(rest_b[l] == b[l + 1] && rest_b[k] == b[k + 1]);
        }
        lemma_sorted_unique(rest_a, rest_b);
        assert(a =~= seq![x] + rest_a);
        assert(b =~= seq![y] + rest_b);
    }
}

/// Put a text into an ascending list, behind what it does not come before.
fn insert_ascending(list: &mut Vec<String>, item: String)
    requires
        ascending(text::texts(old(list)@)),
    ensures
        ascending(text::texts(final(list)@)),
        text::texts(final(list)@).to_multiset() == text::texts(old(list)@).to_multiset().insert(
            item@,
        ),
        final(list).len() == old(list).len() + 1,
{
    let ghost start = text::texts(list@);
    let mut i: usize = list.len();
    while i > 0 && is_before(item.as_str(), list[i - 1].as_str())
        invariant
            i <= list.len(),
            start == text::texts(list@),
            forall|j: int| i <= j < list.len() ==> before(item@, #[trigger] start[j]),
        decreases i,
    {
        i = i - 1;
    }
    proof {
        assert(i > 0 ==> !before(item@, start[i - 1]));
    }
    list.insert(i, item);
    proof {
        let after = text::texts(list@);
        assert(after =~= start.insert(i as int, item@));
        assert forall|j: int, k: int| 0 <= j < k < after.len() implies !before(
            #[trigger] after[k],
            #[trigger] after[j],
        ) by {
            if k == i {
                if j < i - 1 {
                    if before(after[k], after[j]) {
                        // `after[j]` does not come after the one just before the gap.
                        lemma_total(start[j], start[i - 1]);
                        if before(start[j], start[i - 1]) {
                            lemma_transitive(item@, start[j], start[i - 1]);
                        }
                    }
                }
            } else if j == i {
                if before(after[k], item@) {
                    lemma_transitive(item@, after[k], item@);
                    lemma_irreflexive(item@);
                }
            } else if j < i {
                assert(after[j] == start[j]);
                if k < i {
                    assert(after[k] == start[k]);
                } else {
                    assert(after[k] == start[k - 1]);
                }
            } else {
                assert(after[j] == start[j - 1]);
                assert(after[k] == start[k - 1]);
            }
        }
        start.to_multiset_ensures();
        vstd::seq_lib::to_multiset_insert(start, i as int, item@);
    }
}

/// Sort a list of texts.
pub fn sort_texts(list: &Vec<String>) -> (r: Vec<String>)
    ensures
        text::texts(r@) == sorted(text::texts(list@)),
        is_sorted_form(text::texts(r@), text::texts(list@)),
{
    let mut in_order: Vec<String> = Vec::new();
    let mut i: usize = 0;
    let ghost all = text::texts(list@);
    assert(text::texts(in_order@) =~= all.take(0));
    while i < list.len()
        invariant
            i <= list.len(),
            all == text::texts(list@),
            ascending(text::texts(in_order@)),
            text::texts(in_order@).to_multiset() == all.take(i as int).to_multiset(),
        decreases list.len() - i,
    {
        insert_ascending(&mut in_order, list[i].clone());
        i = i + 1;
        proof {
            assert(all.take(i as int) =~= all.take(i - 1).push(all[i - 1]));
            all.take(i - 1).to_multiset_ensures();
        }
    }
    proof {
        assert(all.take(i as int) =~= all);
        assert(is_sorted_form(text::texts(in_order@), all));
        lemma_sorted_unique(text::texts(in_order@), sorted(all));
    }
    in_order
}

} // verus!
