//! The order texts sort by is a total order, and sorting a list of texts leaves it in that
//! order with the same texts, so two lists holding the same texts sort to one list.
//! Sorting itself merges sorted halves, which that uniqueness ties to `sort_texts`.

use vstd::prelude::*;
use vstd::relations::{sorted_by, total_ordering};
use vstd::seq_lib::{
    group_to_multiset_ensures, lemma_multiset_commutative, lemma_sorted_unique, to_multiset_build,
};

use crate::text::{insert_sorted, lex_lt, sort_texts, text_lt, views};

verus! {

/// `a` sorts no later than `b`.
pub open spec fn text_le(a: Seq<char>, b: Seq<char>) -> bool {
    !lex_lt(b, a)
}

/// The order texts sort by, as a relation.
pub open spec fn text_order() -> spec_fn(Seq<char>, Seq<char>) -> bool {
    |a: Seq<char>, b: Seq<char>| text_le(a, b)
}

/// No text sorts strictly before itself.
pub proof fn lemma_lex_irreflexive(a: Seq<char>)
    ensures
        !lex_lt(a, a),
    decreases a.len(),
{
    if a.len() > 0 {
        lemma_lex_irreflexive(a.drop_first());
    }
}

/// Sorting strictly before is transitive.
pub proof fn lemma_lex_transitive(a: Seq<char>, b: Seq<char>, c: Seq<char>)
    requires
        lex_lt(a, b),
        lex_lt(b, c),
    ensures
        lex_lt(a, c),
    decreases a.len(),
{
    if a.len() > 0 && b.len() > 0 && c.len() > 0 && a[0] == b[0] && b[0] == c[0] {
        lemma_lex_transitive(a.drop_first(), b.drop_first(), c.drop_first());
    }
}

/// Of two different texts, one sorts strictly before the other.
pub proof fn lemma_lex_total(a: Seq<char>, b: Seq<char>)
    ensures
        a == b || lex_lt(a, b) || lex_lt(b, a),
    decreases a.len(),
{
    if a.len() == 0 && b.len() == 0 {
        assert(a =~= b);
    } else if a.len() > 0 && b.len() > 0 && a[0] != b[0] {
        vstd::utf8::char_u32_cast(a[0], a[0] as u32);
        vstd::utf8::char_u32_cast(b[0], b[0] as u32);
    } else if a.len() > 0 && b.len() > 0 && a[0] == b[0] {
        lemma_lex_total(a.drop_first(), b.drop_first());
        if a.drop_first() == b.drop_first() {
            assert(a =~= seq![a[0]] + a.drop_first());
            assert(b =~= seq![b[0]] + b.drop_first());
        }
    }
}

/// No two texts each sort strictly before the other.
pub proof fn lemma_lex_asymmetric(a: Seq<char>, b: Seq<char>)
    ensures
        !(lex_lt(a, b) && lex_lt(b, a)),
{
    if lex_lt(a, b) && lex_lt(b, a) {
        lemma_lex_transitive(a, b, a);
        lemma_lex_irreflexive(a);
    }
}

/// Texts are totally ordered by the order they sort by.
pub proof fn lemma_text_order_total()
    ensures
        total_ordering(text_order()),
{
    let le = text_order();
    assert forall|x: Seq<char>| #[trigger] le(x, x) by {
        lemma_lex_irreflexive(x);
    }
    assert forall|x: Seq<char>, y: Seq<char>| #[trigger] le(x, y) && #[trigger] le(y, x) implies x
        == y by {
        lemma_lex_total(x, y);
    }
    assert forall|x: Seq<char>, y: Seq<char>, z: Seq<char>| #[trigger]
        le(x, y) && #[trigger] le(y, z) implies le(x, z) by {
        lemma_lex_total(x, y);
        lemma_lex_total(y, z);
        if lex_lt(z, x) {
            if x == y {
            } else if lex_lt(x, y) {
                lemma_lex_transitive(z, x, y);
            }
        }
    }
    assert forall|x: Seq<char>, y: Seq<char>| #[trigger] le(x, y) || #[trigger] le(y, x) by {
        lemma_lex_asymmetric(x, y);
    }
}

/// Inserting a text into a sorted list keeps it sorted and adds that one text.
proof fn lemma_insert_sorted(s: Seq<Seq<char>>, x: Seq<char>)
    requires
        sorted_by(s, text_order()),
    ensures
        sorted_by(insert_sorted(s, x), text_order()),
        insert_sorted(s, x).to_multiset() =~= s.to_multiset().insert(x),
        insert_sorted(s, x).len() == s.len() + 1,
        insert_sorted(s, x)[0] == (if s.len() == 0 || lex_lt(x, s[0]) {
            x
        } else {
            s[0]
        }),
    decreases s.len(),
{
    broadcast use group_to_multiset_ensures;
    broadcast use vstd::multiset::group_multiset_axioms;

    let le = text_order();
    lemma_text_order_total();
    if s.len() == 0 {
        assert(seq![x] =~= Seq::<Seq<char>>::empty().push(x));
        assert(s =~= Seq::<Seq<char>>::empty());
    } else if lex_lt(x, s[0]) {
        lemma_lex_asymmetric(x, s[0]);
        vstd::relations::lemma_new_first_element_still_sorted_by(x, s, le);
        lemma_multiset_commutative(seq![x], s);
        assert(seq![x] =~= Seq::<Seq<char>>::empty().push(x));
        assert(seq![x].to_multiset() =~= vstd::multiset::Multiset::<Seq<char>>::empty().insert(x));
    } else {
        let t = s.drop_first();
        assert forall|i: int, j: int| 0 <= i < j < t.len() implies #[trigger] le(t[i], t[j]) by {
            assert(le(s[i + 1], s[j + 1]));
        }
        lemma_insert_sorted(t, x);
        let r = insert_sorted(t, x);
        if t.len() > 0 && !lex_lt(x, t[0]) {
            assert(le(s[0], s[1]));
        }
        vstd::relations::lemma_new_first_element_still_sorted_by(s[0], r, le);
        lemma_multiset_commutative(seq![s[0]], r);
        lemma_multiset_commutative(seq![s[0]], t);
        assert(s =~= seq![s[0]] + t);
        assert(seq![s[0]] =~= Seq::<Seq<char>>::empty().push(s[0]));
        assert(seq![s[0]].to_multiset() =~= vstd::multiset::Multiset::<Seq<char>>::empty().insert(s[0]));
    }
}

/// `sort_texts` leaves the texts in order, and holds the same texts, each as often.
pub proof fn lemma_sort_texts(s: Seq<Seq<char>>)
    ensures
        sorted_by(sort_texts(s), text_order()),
        sort_texts(s).to_multiset() =~= s.to_multiset(),
    decreases s.len(),
{
    broadcast use group_to_multiset_ensures;

    if s.len() == 0 {
    } else {
        lemma_sort_texts(s.drop_last());
        lemma_insert_sorted(sort_texts(s.drop_last()), s.last());
        assert(s.drop_last().push(s.last()) =~= s);
    }
}

/// Two lists that hold the same texts, each as often, sort to one list: the order the texts
/// came in does not show in the result.
pub proof fn lemma_sort_ignores_order(a: Seq<Seq<char>>, b: Seq<Seq<char>>)
    requires
        a.to_multiset() =~= b.to_multiset(),
    ensures
        sort_texts(a) == sort_texts(b),
{
    lemma_sort_texts(a);
    lemma_sort_texts(b);
    lemma_text_order_total();
    lemma_sorted_unique(sort_texts(a), sort_texts(b), text_order());
}

/// A sorted list with `x` after it is sorted, where `x` sorts no earlier than its last text.
proof fn lemma_push_sorted(s: Seq<Seq<char>>, x: Seq<char>)
    requires
        sorted_by(s, text_order()),
        s.len() > 0 ==> text_le(s.last(), x),
    ensures
        sorted_by(s.push(x), text_order()),
{
    lemma_text_order_total();
    let le = text_order();
    let t = s.push(x);
    assert forall|i: int, j: int| 0 <= i < j < t.len() implies #[trigger] le(t[i], t[j]) by {
        assert(t[i] == s[i]);
        if j < s.len() {
            assert(t[j] == s[j]);
            assert(le(s[i], s[j]));
        } else {
            assert(t[j] == x);
            if i < s.len() - 1 {
                assert(le(s[i], s[s.len() - 1]));
                assert(le(s[s.len() - 1], x));
            }
        }
    }
}

/// Merges two sorted lists into one sorted list holding the texts of both.
fn merge(a: &Vec<Vec<char>>, b: &Vec<Vec<char>>) -> (r: Vec<Vec<char>>)
    requires
        sorted_by(views(a@), text_order()),
        sorted_by(views(b@), text_order()),
    ensures
        sorted_by(views(r@), text_order()),
        views(r@).to_multiset() =~= views(a@).to_multiset().add(views(b@).to_multiset()),
{
    broadcast use group_to_multiset_ensures;
    broadcast use vstd::multiset::group_multiset_axioms;

    let ghost va = views(a@);
    let ghost vb = views(b@);
    let mut r: Vec<Vec<char>> = Vec::new();
    let mut i: usize = 0;
    let mut j: usize = 0;
    proof {
        lemma_text_order_total();
        assert(va.take(0) =~= Seq::<Seq<char>>::empty());
        assert(vb.take(0) =~= Seq::<Seq<char>>::empty());
        assert(views(r@) =~= Seq::<Seq<char>>::empty());
    }
    while i < a.len() || j < b.len()
        invariant
            i <= a.len(),
            j <= b.len(),
            va == views(a@),
            vb == views(b@),
            total_ordering(text_order()),
            sorted_by(va, text_order()),
            sorted_by(vb, text_order()),
            sorted_by(views(r@), text_order()),
            views(r@).to_multiset() =~= va.take(i as int).to_multiset().add(
                vb.take(j as int).to_multiset(),
            ),
            r.len() > 0 && i < a.len() ==> text_le(views(r@).last(), va[i as int]),
            r.len() > 0 && j < b.len() ==> text_le(views(r@).last(), vb[j as int]),
        decreases a.len() + b.len() - i - j,
    {
        let take_left = i < a.len() && (j == b.len() || !text_lt(&b[j], &a[i]));
        let ghost before = views(r@);
        if take_left {
            let x = a[i].clone();
            proof {
                assert(x@ == va[i as int]);
                lemma_push_sorted(before, x@);
                if i + 1 < a.len() {
                    assert(text_order()(va[i as int], va[i + 1]));
                }
            }
            let ghost xv = x@;
            r.push(x);
            proof {
                assert(views(r@) =~= before.push(xv));
                to_multiset_build(before, xv);
                assert(va.take(i + 1) =~= va.take(i as int).push(xv));
                to_multiset_build(va.take(i as int), xv);
            }
            i = i + 1;
        } else {
            let x = b[j].clone();
            proof {
                assert(x@ == vb[j as int]);
                if i < a.len() {
                    lemma_lex_asymmetric(vb[j as int], va[i as int]);
                }
                lemma_push_sorted(before, x@);
                if j + 1 < b.len() {
                    assert(text_order()(vb[j as int], vb[j + 1]));
                }
            }
            let ghost xv = x@;
            r.push(x);
            proof {
                assert(views(r@) =~= before.push(xv));
                to_multiset_build(before, xv);
                assert(vb.take(j + 1) =~= vb.take(j as int).push(xv));
                to_multiset_build(vb.take(j as int), xv);
            }
            j = j + 1;
        }
    }
    proof {
        assert(va.take(a.len() as int) =~= va);
        assert(vb.take(b.len() as int) =~= vb);
    }
    r
}

/// Sorts the texts by merging sorted halves.
fn merge_sort(items: Vec<Vec<char>>) -> (r: Vec<Vec<char>>)
    ensures
        sorted_by(views(r@), text_order()),
        views(r@).to_multiset() =~= views(items@).to_multiset(),
    decreases items.len(),
{
    broadcast use group_to_multiset_ensures;

    if items.len() <= 1 {
        return items;
    }
    let mut left = items;
    let ghost all = views(left@);
    let right = left.split_off(left.len() / 2);
    proof {
        lemma_multiset_commutative(views(left@), views(right@));
        assert(views(left@) + views(right@) =~= all);
    }
    let left = merge_sort(left);
    let right = merge_sort(right);
    merge(&left, &right)
}

/// Sorts the texts in ascending order, in O(n log n) comparisons.
pub fn sort_texts_exec(items: Vec<Vec<char>>) -> (r: Vec<Vec<char>>)
    ensures
        views(r@) == sort_texts(views(items@)),
{
    let ghost input = views(items@);
    let r = merge_sort(items);
    proof {
        lemma_sort_texts(input);
        lemma_text_order_total();
        lemma_sorted_unique(views(r@), sort_texts(input), text_order());
    }
    r
}

} // verus!
