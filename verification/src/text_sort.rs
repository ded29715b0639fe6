//! Texts in the order of their characters.
use vstd::prelude::*;
use vstd::seq_lib::group_to_multiset_ensures;

use crate::text::{chars_of, copy_text};
use crate::text::texts;

verus! {

/// From index `i` on, the text `a` comes before `b` or is equal to it.
pub open spec fn text_le_from(a: Seq<char>, b: Seq<char>, i: int) -> bool
    decreases a.len() - i,
{
    if i < 0 || i >= a.len() {
        true
    } else if i >= b.len() {
        false
    } else if a[i] != b[i] {
        a[i] < b[i]
    } else {
        text_le_from(a, b, i + 1)
    }
}

/// The text `a` comes before `b` or is equal to it.
pub open spec fn text_le(a: Seq<char>, b: Seq<char>) -> bool {
    text_le_from(a, b, 0)
}

/// An ordered list with one more text, behind those that it does not precede.
pub open spec fn inserted(list: Seq<Seq<char>>, x: Seq<char>) -> Seq<Seq<char>>
    decreases list.len(),
{
    if list.len() == 0 {
        seq![x]
    } else if text_le(list.last(), x) {
        list.push(x)
    } else {
        inserted(list.drop_last(), x).push(list.last())
    }
}

/// The texts of a list in order.
pub open spec fn sorted_texts(list: Seq<Seq<char>>) -> Seq<Seq<char>>
    decreases list.len(),
{
    if list.len() == 0 {
        list
    } else {
        inserted(sorted_texts(list.drop_last()), list.last())
    }
}

fn not_after(a: &Vec<char>, b: &Vec<char>) -> (r: bool)
    ensures
        r == text_le(a@, b@),
{
    let mut i: usize = 0;
    while i < a.len()
        invariant
            i <= a.len(),
            text_le(a@, b@) == text_le_from(a@, b@, i as int),
        decreases a.len() - i,
    {
        if i >= b.len() {
            return false;
        }
        if a[i] != b[i] {
            return a[i] < b[i];
        }
        i += 1;
    }
    true
}

proof fn lemma_inserted_at(list: Seq<Seq<char>>, x: Seq<char>, p: int)
    requires
        0 <= p <= list.len(),
        p > 0 ==> text_le(list[p - 1], x),
        forall|j: int| p <= j < list.len() ==> !text_le(#[trigger] list[j], x),
    ensures
        inserted(list, x) == list.insert(p, x),
    decreases list.len(),
{
    if list.len() == 0 {
        assert(list.insert(p, x) =~= seq![x]);
    } else if p == list.len() {
        assert(list.insert(p, x) =~= list.push(x));
    } else {
        lemma_inserted_at(list.drop_last(), x, p);
        assert(list.drop_last().insert(p, x).push(list.last()) =~= list.insert(p, x));
    }
}

fn insert_text(out: &mut Vec<String>, item: &str)
    ensures
        texts(final(out)@) == inserted(texts(old(out)@), item@),
{
    let x = chars_of(item);
    let ghost list = texts(out@);
    let mut p: usize = out.len();
    while p > 0
        invariant_except_break
            p <= out.len(),
            list == texts(out@),
            list.len() == out.len(),
            x@ == item@,
            forall|j: int| p <= j < list.len() ==> !text_le(#[trigger] list[j], item@),
        ensures
            p <= out.len(),
            list == texts(out@),
            list.len() == out.len(),
            p > 0 ==> text_le(list[p - 1], item@),
            forall|j: int| p <= j < list.len() ==> !text_le(#[trigger] list[j], item@),
        decreases p,
    {
        assert(list[p - 1] == out@[p - 1]@);
        let y = chars_of(out[p - 1].as_str());
        if not_after(&y, &x) {
            break;
        }
        p -= 1;
    }
    proof {
        lemma_inserted_at(list, item@, p as int);
    }
    let one = copy_text(item);
    out.insert(p, one);
    assert(texts(out@) =~= list.insert(p as int, item@));
}

/// The texts of a list in order.
pub fn sort_texts(list: &Vec<String>) -> (r: Vec<String>)
    ensures
        texts(r@) == sorted_texts(texts(list@)),
{
    let ghost all = texts(list@);
    let mut out: Vec<String> = Vec::new();
    let mut i: usize = 0;
    assert(texts(out@) =~= sorted_texts(all.take(0)));
    while i < list.len()
        invariant
            i <= list.len(),
            all == texts(list@),
            all.len() == list.len(),
            texts(out@) == sorted_texts(all.take(i as int)),
        decreases list.len() - i,
    {
        assert(all[i as int] == list@[i as int]@);
        insert_text(&mut out, list[i].as_str());
        i += 1;
        assert(all.take(i as int).drop_last() =~= all.take(i - 1));
    }
    assert(all.take(all.len() as int) =~= all);
    out
}

// ---------------------------------------------------------------------------
// Laws
// ---------------------------------------------------------------------------

pub open spec fn is_sorted(list: Seq<Seq<char>>) -> bool {
    forall|i: int, j: int| 0 <= i < j < list.len() ==> text_le(#[trigger] list[i], #[trigger] list[j])
}

proof fn lemma_le_total(a: Seq<char>, b: Seq<char>, i: int)
    requires
        0 <= i,
    ensures
        text_le_from(a, b, i) || text_le_from(b, a, i),
    decreases a.len() - i,
{
    if i < a.len() && i < b.len() && a[i] == b[i] {
        lemma_le_total(a, b, i + 1);
    }
}

proof fn lemma_le_transitive(a: Seq<char>, b: Seq<char>, c: Seq<char>, i: int)
    requires
        0 <= i,
        text_le_from(a, b, i),
        text_le_from(b, c, i),
    ensures
        text_le_from(a, c, i),
    decreases a.len() - i,
{
    if i < a.len() && i < c.len() && a[i] == b[i] && b[i] == c[i] {
        lemma_le_transitive(a, b, c, i + 1);
    }
}

proof fn lemma_inserted_sorted(list: Seq<Seq<char>>, x: Seq<char>)
    requires
        is_sorted(list),
    ensures
        is_sorted(inserted(list, x)),
        inserted(list, x).len() == list.len() + 1,
        inserted(list, x).to_multiset() =~= list.to_multiset().insert(x),
        forall|i: int|
            0 <= i < inserted(list, x).len() ==> #[trigger] inserted(list, x)[i] == x
                || list.contains(inserted(list, x)[i]),
    decreases list.len(),
{
    broadcast use group_to_multiset_ensures;

    if list.len() == 0 {
        assert(seq![x] =~= list.push(x));
    } else if text_le(list.last(), x) {
        let r = list.push(x);
        assert forall|i: int, j: int| 0 <= i < j < r.len() implies text_le(
            #[trigger] r[i],
            #[trigger] r[j],
        ) by {
            if j == list.len() && i < list.len() - 1 {
                lemma_le_transitive(list[i], list.last(), x, 0);
            }
        }
    } else {
        let front = list.drop_last();
        lemma_inserted_sorted(front, x);
        let mid = inserted(front, x);
        let r = mid.push(list.last());
        lemma_le_total(list.last(), x, 0);
        assert forall|i: int, j: int| 0 <= i < j < r.len() implies text_le(
            #[trigger] r[i],
            #[trigger] r[j],
        ) by {
            if j == mid.len() {
                if mid[i] != x {
                    let k = choose|k: int| 0 <= k < front.len() && front[k] == mid[i];
                    assert(list[k] == mid[i]);
                }
            }
        }
        assert(front.push(list.last()) =~= list);
        assert forall|i: int| 0 <= i < r.len() implies #[trigger] r[i] == x || list.contains(r[i]) by {
            if i < mid.len() && mid[i] != x {
                let k = choose|k: int| 0 <= k < front.len() && front[k] == mid[i];
                assert(list[k] == mid[i]);
            }
            if i == mid.len() {
                assert(list[list.len() - 1] == r[i]);
            }
        }
        assert(r.to_multiset() =~= list.to_multiset().insert(x));
    }
}

/// A sorted list is in order and holds the same texts as before.
pub proof fn law_sorting_orders_and_keeps(list: Seq<Seq<char>>)
    ensures
        is_sorted(sorted_texts(list)),
        sorted_texts(list).len() == list.len(),
        sorted_texts(list).to_multiset() =~= list.to_multiset(),
    decreases list.len(),
{
    broadcast use group_to_multiset_ensures;

    if list.len() > 0 {
        law_sorting_orders_and_keeps(list.drop_last());
        lemma_inserted_sorted(sorted_texts(list.drop_last()), list.last());
        assert(list.drop_last().push(list.last()) =~= list);
    }
}

} // verus!
