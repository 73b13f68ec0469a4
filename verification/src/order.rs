//! The order of texts by their characters, and sorting by it.

use vstd::prelude::*;
use vstd::relations::{sorted_by, total_ordering};
use vstd::seq_lib::lemma_sorted_unique;

use crate::text::{self, views};

verus! {

/// `a` stands before `b`, or is `b`: at the first difference `a` has the
/// character of lower code point, or `a` ends there.
pub open spec fn text_le(a: Seq<char>, b: Seq<char>) -> bool
    decreases a.len(),
{
    if a.len() == 0 {
        true
    } else if b.len() == 0 {
        false
    } else if a[0] != b[0] {
        a[0] < b[0]
    } else {
        text_le(a.drop_first(), b.drop_first())
    }
}

/// The order of texts as a relation.
pub open spec fn by_text() -> spec_fn(Seq<char>, Seq<char>) -> bool {
    |a: Seq<char>, b: Seq<char>| text_le(a, b)
}

proof fn lemma_reflexive(a: Seq<char>)
    ensures
        text_le(a, a),
    decreases a.len(),
{
    if a.len() > 0 {
        lemma_reflexive(a.drop_first());
    }
}

proof fn lemma_antisymmetric(a: Seq<char>, b: Seq<char>)
    requires
        text_le(a, b),
        text_le(b, a),
    ensures
        a == b,
    decreases a.len(),
{
    if a.len() > 0 && b.len() > 0 {
        lemma_antisymmetric(a.drop_first(), b.drop_first());
        assert(a =~= seq![a[0]] + a.drop_first());
        assert(b =~= seq![b[0]] + b.drop_first());
    } else {
        assert(a =~= b);
    }
}

proof fn lemma_transitive(a: Seq<char>, b: Seq<char>, c: Seq<char>)
    requires
        text_le(a, b),
        text_le(b, c),
    ensures
        text_le(a, c),
    decreases a.len(),
{
    if a.len() > 0 && b.len() > 0 && c.len() > 0 && a[0] == b[0] && b[0] == c[0] {
        lemma_transitive(a.drop_first(), b.drop_first(), c.drop_first());
    }
}

proof fn lemma_total(a: Seq<char>, b: Seq<char>)
    ensures
        text_le(a, b) || text_le(b, a),
    decreases a.len(),
{
    if a.len() > 0 && b.len() > 0 {
        lemma_total(a.drop_first(), b.drop_first());
    }
}

/// Texts are totally ordered.
pub proof fn lemma_text_order()
    ensures
        total_ordering(by_text()),
{
    let le = by_text();
    assert forall|a: Seq<char>| #[trigger] le(a, a) by {
        lemma_reflexive(a);
    }
    assert forall|a: Seq<char>, b: Seq<char>| #[trigger] le(a, b) && #[trigger] le(b, a) implies a
        == b by {
        lemma_antisymmetric(a, b);
    }
    assert forall|a: Seq<char>, b: Seq<char>, c: Seq<char>| #[trigger]
        le(a, b) && #[trigger] le(b, c) implies le(a, c) by {
        lemma_transitive(a, b, c);
    }
    assert forall|a: Seq<char>, b: Seq<char>| #[trigger] le(a, b) || #[trigger] le(b, a) by {
        lemma_total(a, b);
    }
}

/// `list` in order, repeated texts kept.
pub open spec fn sorted(list: Seq<Seq<char>>) -> Seq<Seq<char>> {
    list.sort_by(by_text())
}

/// What is in order and holds the same texts is the sorted list.
pub proof fn lemma_is_sorted(list: Seq<Seq<char>>, out: Seq<Seq<char>>)
    requires
        sorted_by(out, by_text()),
        out.to_multiset() == list.to_multiset(),
    ensures
        out == sorted(list),
{
    lemma_text_order();
    list.lemma_sort_by_ensures(by_text());
    lemma_sorted_unique(out, sorted(list), by_text());
}

/// Whether `a` stands before `b`, or is `b`.
pub fn at_most(a: &str, b: &str) -> (r: bool)
    ensures
        r == text_le(a@, b@),
{
    let x = text::chars_of(a);
    let y = text::chars_of(b);
    let mut i: usize = 0;
    proof {
        assert(x@.skip(0) =~= x@);
        assert(y@.skip(0) =~= y@);
    }
    while i < x.len() && i < y.len()
        invariant
            i <= x@.len(),
            i <= y@.len(),
            text_le(x@.skip(i as int), y@.skip(i as int)) == text_le(a@, b@),
        decreases x@.len() - i,
    {
        if x[i] != y[i] {
            return x[i] < y[i];
        }
        proof {
            assert(x@.skip(i as int).drop_first() =~= x@.skip(i + 1));
            assert(y@.skip(i as int).drop_first() =~= y@.skip(i + 1));
        }
        i = i + 1;
    }
    i == x.len()
}

/// Copies of `list` in order.
pub fn sort(list: &Vec<String>) -> (out: Vec<String>)
    ensures
        views(out@) == sorted(views(list@)),
{
    let ghost all = views(list@);
    let mut out: Vec<String> = Vec::new();
    let mut i: usize = 0;
    proof {
        assert(views(out@) =~= all.take(0));
    }
    while i < list.len()
        invariant
            i <= list@.len(),
            all == views(list@),
            sorted_by(views(out@), by_text()),
            views(out@).to_multiset() == all.take(i as int).to_multiset(),
        decreases list@.len() - i,
    {
        let item = &list[i];
        let mut at: usize = 0;
        while at < out.len() && at_most(out[at].as_str(), item.as_str())
            invariant
                at <= out@.len(),
                forall|j: int| 0 <= j < at ==> text_le(#[trigger] views(out@)[j], item@),
            decreases out@.len() - at,
        {
            at = at + 1;
        }
        let ghost before = views(out@);
        out.insert(at, item.clone());
        proof {
            let now = views(out@);
            assert(now =~= before.insert(at as int, item@));
            vstd::seq_lib::to_multiset_insert(before, at as int, item@);
            assert(all.take(i + 1) =~= all.take(i as int).push(item@));
            vstd::seq_lib::to_multiset_build(all.take(i as int), item@);
            let le = by_text();
            assert forall|p: int, q: int| 0 <= p < q < now.len() implies #[trigger] le(
                now[p],
                now[q],
            ) by {
                let first = at as int;
                if p < first && q < first {
                    assert(le(before[p], before[q]));
                } else if p < first && q == first {
                    assert(text_le(before[p], item@));
                } else if p < first && q > first {
                    assert(le(before[p], before[q - 1]));
                } else if p == first {
                    lemma_total(before[first], item@);
                    if q - 1 > first {
                        assert(le(before[first], before[q - 1]));
                        lemma_transitive(item@, before[first], before[q - 1]);
                    }
                } else {
                    assert(le(before[p - 1], before[q - 1]));
                }
            }
        }
        i = i + 1;
    }
    proof {
        assert(all.take(i as int) =~= all);
        lemma_is_sorted(all, views(out@));
    }
    out
}

/// Texts are ordered at their first difference, by code point, and a text
/// that goes on stands behind the one it goes on from.
pub proof fn law_first_difference_orders(
    front: Seq<char>,
    x: char,
    a: Seq<char>,
    y: char,
    b: Seq<char>,
)
    ensures
        x < y ==> text_le(front + seq![x] + a, front + seq![y] + b) && !text_le(
            front + seq![y] + b,
            front + seq![x] + a,
        ),
        text_le(front, front + a),
        a.len() > 0 ==> !text_le(front + a, front),
    decreases front.len(),
{
    let p = front + seq![x] + a;
    let q = front + seq![y] + b;
    if front.len() > 0 {
        let less = front.drop_first();
        law_first_difference_orders(less, x, a, y, b);
        assert(p.drop_first() =~= less + seq![x] + a);
        assert(q.drop_first() =~= less + seq![y] + b);
        assert((front + a).drop_first() =~= less + a);
    }
}

/// A sorted list holds the texts that it was made from, each as often, and
/// in order.
pub proof fn law_sorted_list_is_the_list_in_order(list: Seq<Seq<char>>)
    ensures
        sorted(list).to_multiset() == list.to_multiset(),
        sorted(list).len() == list.len(),
        forall|i: int, j: int|
            0 <= i < j < sorted(list).len() ==> text_le(
                #[trigger] sorted(list)[i],
                #[trigger] sorted(list)[j],
            ),
{
    lemma_text_order();
    list.lemma_sort_by_ensures(by_text());
    vstd::seq_lib::to_multiset_len(sorted(list));
    vstd::seq_lib::to_multiset_len(list);
    let le = by_text();
    assert forall|i: int, j: int| 0 <= i < j < sorted(list).len() implies text_le(
        #[trigger] sorted(list)[i],
        #[trigger] sorted(list)[j],
    ) by {
        assert(le(sorted(list)[i], sorted(list)[j]));
    }
}

} // verus!
