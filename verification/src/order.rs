//! The order of texts, and sorting by it.
//!
//! Texts are ordered as strings are: character by character, and a text before every
//! longer text that begins with it.

use crate::text::to_chars;
use crate::text::views;
use vstd::prelude::*;
use vstd::relations::total_ordering;

verus! {

/// Whether `a` comes before `b` or equals it.
pub open spec fn text_le(a: Seq<char>, b: Seq<char>) -> bool
    decreases a.len(),
{
    if a.len() == 0 {
        true
    } else if b.len() == 0 {
        false
    } else if a.first() != b.first() {
        a.first() < b.first()
    } else {
        text_le(a.drop_first(), b.drop_first())
    }
}

/// Every text comes before itself or equals it.
pub proof fn lemma_text_le_reflexive(a: Seq<char>)
    ensures
        text_le(a, a),
    decreases a.len(),
{
    if a.len() > 0 {
        lemma_text_le_reflexive(a.drop_first());
    }
}

/// Of two texts one comes before the other or equals it.
pub proof fn lemma_text_le_total(a: Seq<char>, b: Seq<char>)
    ensures
        text_le(a, b) || text_le(b, a),
    decreases a.len(),
{
    if a.len() > 0 && b.len() > 0 && a.first() == b.first() {
        lemma_text_le_total(a.drop_first(), b.drop_first());
    }
}

/// The order of texts is transitive.
pub proof fn lemma_text_le_transitive(a: Seq<char>, b: Seq<char>, c: Seq<char>)
    requires
        text_le(a, b),
        text_le(b, c),
    ensures
        text_le(a, c),
    decreases a.len(),
{
    if a.len() > 0 && b.len() > 0 && c.len() > 0 && a.first() == b.first() && b.first()
        == c.first() {
        lemma_text_le_transitive(a.drop_first(), b.drop_first(), c.drop_first());
    }
}

/// Two texts that each come before the other or equal it are the same text.
pub proof fn lemma_text_le_antisymmetric(a: Seq<char>, b: Seq<char>)
    requires
        text_le(a, b),
        text_le(b, a),
    ensures
        a == b,
    decreases a.len(),
{
    if a.len() > 0 && b.len() > 0 {
        lemma_text_le_antisymmetric(a.drop_first(), b.drop_first());
        assert(a =~= seq![a.first()] + a.drop_first());
    } else {
        assert(a =~= b);
    }
}

/// Whether the texts of `listed` stand in ascending order.
pub open spec fn is_ascending(listed: Seq<Seq<char>>) -> bool {
    forall|i: int, j: int| 0 <= i <= j < listed.len() ==> text_le(listed[i], listed[j])
}

/// Whether `listed` holds the texts of `items`, each as often as `items` does, in
/// ascending order.
pub open spec fn is_sorted_listing(listed: Seq<Seq<char>>, items: Seq<Seq<char>>) -> bool {
    &&& listed.to_multiset() == items.to_multiset()
    &&& is_ascending(listed)
}

/// The order of texts as a relation.
pub open spec fn text_order() -> spec_fn(Seq<char>, Seq<char>) -> bool {
    |a: Seq<char>, b: Seq<char>| text_le(a, b)
}

/// The texts of `items` in ascending order.
pub open spec fn sorted_listing(items: Seq<Seq<char>>) -> Seq<Seq<char>> {
    items.sort_by(text_order())
}

/// The order of texts is a total order.
pub proof fn lemma_text_order_total()
    ensures
        total_ordering(text_order()),
{
    let order = text_order();
    assert forall|x: Seq<char>, y: Seq<char>| #[trigger] order(x, y) && #[trigger] order(
        y,
        x,
    ) implies x == y by {
        lemma_text_le_antisymmetric(x, y);
    }
    assert forall|x: Seq<char>, y: Seq<char>, z: Seq<char>| #[trigger] order(x, y)
        && #[trigger] order(y, z) implies order(x, z) by {
        lemma_text_le_transitive(x, y, z);
    }
    assert forall|x: Seq<char>, y: Seq<char>| #[trigger] order(x, y) || #[trigger] order(
        y,
        x,
    ) by {
        lemma_text_le_total(x, y);
    }
}

/// There is one sorted listing of given texts: `sorted_listing`.
pub proof fn lemma_sorted_listing_unique(listed: Seq<Seq<char>>, items: Seq<Seq<char>>)
    ensures
        is_sorted_listing(listed, items) <==> listed == sorted_listing(items),
{
    lemma_text_order_total();
    items.lemma_sort_by_ensures(text_order());
    let sorted = sorted_listing(items);
    assert(is_ascending(sorted)) by {
        assert forall|i: int, j: int| 0 <= i <= j < sorted.len() implies text_le(
            sorted[i],
            sorted[j],
        ) by {
            if i == j {
                lemma_text_le_reflexive(sorted[i]);
            } else {
                assert(text_order()(sorted[i], sorted[j]));
            }
        }
    }
    if is_sorted_listing(listed, items) {
        vstd::seq_lib::lemma_sorted_unique(listed, sorted, text_order());
    }
}

/// Tests whether `a` comes before `b` or equals it.
pub fn chars_le(a: &Vec<char>, b: &Vec<char>) -> (le: bool)
    ensures
        le == text_le(a@, b@),
{
    let mut i: usize = 0;
    proof {
        assert(a@.skip(0) =~= a@);
        assert(b@.skip(0) =~= b@);
    }
    loop
        invariant
            i <= a.len(),
            i <= b.len(),
            text_le(a@, b@) == text_le(a@.skip(i as int), b@.skip(i as int)),
        decreases a.len() - i,
    {
        if i == a.len() {
            return true;
        }
        if i == b.len() {
            return false;
        }
        proof {
            assert(a@.skip(i as int).drop_first() =~= a@.skip(i + 1));
            assert(b@.skip(i as int).drop_first() =~= b@.skip(i + 1));
        }
        if a[i] != b[i] {
            return a[i] < b[i];
        }
        i += 1;
    }
}

/// The index of a text of `items` that comes before all the others or equals them.
fn least_index(items: &Vec<String>) -> (least: usize)
    requires
        items.len() > 0,
    ensures
        least < items.len(),
        forall|k: int| 0 <= k < items.len() ==> text_le(items@[least as int]@, #[trigger] items@[k]@),
{
    let n: usize = items.len();
    let mut least: usize = 0;
    let mut least_chars = to_chars(items[0].as_str());
    let mut k: usize = 1;
    proof {
        lemma_text_le_reflexive(items@[0]@);
    }
    while k < n
        invariant
            least < k <= n == items.len(),
            least_chars@ == items@[least as int]@,
            forall|j: int| 0 <= j < k ==> text_le(items@[least as int]@, #[trigger] items@[j]@),
        decreases n - k,
    {
        let candidate = to_chars(items[k].as_str());
        if !chars_le(&least_chars, &candidate) {
            proof {
                lemma_text_le_total(least_chars@, candidate@);
                lemma_text_le_reflexive(candidate@);
                assert forall|j: int| 0 <= j < k + 1 implies text_le(
                    items@[k as int]@,
                    #[trigger] items@[j]@,
                ) by {
                    if j < k {
                        lemma_text_le_transitive(candidate@, least_chars@, items@[j]@);
                    }
                }
            }
            least = k;
            least_chars = candidate;
        }
        k += 1;
    }
    least
}

/// Sorts strings into ascending order.
pub fn sorted_strings(items: Vec<String>) -> (listed: Vec<String>)
    ensures
        views(listed@) == sorted_listing(views(items@)),
        is_sorted_listing(views(listed@), views(items@)),
{
    broadcast use vstd::seq_lib::group_to_multiset_ensures;
    broadcast use vstd::multiset::group_multiset_axioms;

    let mut rest = items;
    let mut listed: Vec<String> = Vec::new();
    while rest.len() > 0
        invariant
            views(listed@).to_multiset().add(views(rest@).to_multiset()) == views(
                items@,
            ).to_multiset(),
            is_ascending(views(listed@)),
            forall|i: int, j: int|
                0 <= i < listed.len() && 0 <= j < rest.len() ==> text_le(
                    #[trigger] listed@[i]@,
                    #[trigger] rest@[j]@,
                ),
        decreases rest.len(),
    {
        let least = least_index(&rest);
        let ghost rest_before = rest@;
        let ghost listed_before = listed@;
        let text = rest.remove(least);
        listed.push(text);
        proof {
            assert(views(rest@) =~= views(rest_before).remove(least as int));
            assert(views(listed@) =~= views(listed_before).push(text@));
            vstd::seq_lib::to_multiset_build(views(listed_before), text@);
            vstd::seq_lib::to_multiset_remove(views(rest_before), least as int);
            views(rest_before).to_multiset_ensures();
        }
    }
    proof {
        assert(views(listed@).to_multiset() =~= views(items@).to_multiset());
        lemma_sorted_listing_unique(views(listed@), views(items@));
    }
    listed
}

} // verus!
