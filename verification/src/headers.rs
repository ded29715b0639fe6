//! The headers of a response, each name once and in order.
use vstd::prelude::*;
use vstd::seq_lib::group_to_multiset_ensures;

use crate::text::{copy_text, lower, push_item, same_text};
use crate::text::{lemma_texts_empty, lower_text, opt_text, texts};
use crate::text_sort::{is_sorted, law_sorting_orders_and_keeps, sort_texts};

verus! {

/// A header as it came; the value is left out where it is not text.
#[derive(Debug)]
pub struct HeaderLine {
    pub name: String,
    pub value: Option<String>,
}

#[verifier::ext_equal]
pub struct HeaderView {
    pub name: Seq<char>,
    pub value: Option<Seq<char>>,
}

impl View for HeaderLine {
    type V = HeaderView;

    open spec fn view(&self) -> HeaderView {
        HeaderView { name: self.name@, value: opt_text(self.value) }
    }
}

pub open spec fn headers_view(v: Seq<HeaderLine>) -> Seq<HeaderView> {
    Seq::new(v.len(), |i: int| v[i]@)
}

/// The last value among the first `n` headers whose name is `key` in small
/// letters; one that is not text does not count.
pub open spec fn header_value(found: Seq<HeaderView>, key: Seq<char>, n: int) -> Option<Seq<char>>
    decreases n,
{
    if n <= 0 {
        None
    } else if lower_text(found[n - 1].name) == key && found[n - 1].value is Some {
        found[n - 1].value
    } else {
        header_value(found, key, n - 1)
    }
}

/// The headers by name: `names` holds each name that has a value, in small
/// letters, once and in order, and `values` the last value of each.
pub open spec fn are_headers(
    found: Seq<HeaderView>,
    names: Seq<Seq<char>>,
    values: Seq<Seq<char>>,
) -> bool {
    &&& is_sorted(names)
    &&& names.no_duplicates()
    &&& names.len() == values.len()
    &&& forall|key: Seq<char>| #[trigger]
        names.contains(key) <==> header_value(found, key, found.len() as int) is Some
    &&& forall|i: int|
        0 <= i < names.len() ==> Some(#[trigger] values[i]) == header_value(
            found,
            names[i],
            found.len() as int,
        )
}

fn is_among(list: &Vec<String>, text: &str) -> (r: bool)
    ensures
        r == texts(list@).contains(text@),
{
    let ghost all = texts(list@);
    let mut i: usize = 0;
    while i < list.len()
        invariant
            i <= list.len(),
            all == texts(list@),
            all.len() == list.len(),
            forall|j: int| 0 <= j < i ==> #[trigger] all[j] != text@,
        decreases list.len() - i,
    {
        assert(all[i as int] == list@[i as int]@);
        if same_text(list[i].as_str(), text) {
            return true;
        }
        i += 1;
    }
    false
}

/// The names that have a value, each once, in the order in which they come.
fn distinct_names(found: &Vec<HeaderLine>) -> (r: Vec<String>)
    ensures
        texts(r@).no_duplicates(),
        forall|key: Seq<char>| #[trigger]
            texts(r@).contains(key) <==> header_value(
                headers_view(found@),
                key,
                found@.len() as int,
            ) is Some,
{
    broadcast use lemma_texts_empty;

    let ghost all = headers_view(found@);
    let mut out: Vec<String> = Vec::new();
    let mut i: usize = 0;
    while i < found.len()
        invariant
            i <= found.len(),
            all == headers_view(found@),
            texts(out@).no_duplicates(),
            forall|key: Seq<char>| #[trigger]
                texts(out@).contains(key) <==> header_value(all, key, i as int) is Some,
        decreases found.len() - i,
    {
        let ghost before = texts(out@);
        assert(all[i as int] == found@[i as int]@);
        if found[i].value.is_some() {
            let key = lower(found[i].name.as_str());
            let ghost name = key@;
            if !is_among(&out, key.as_str()) {
                push_item(&mut out, key);
                assert(texts(out@).last() == name);
                assert forall|k: Seq<char>| texts(out@).contains(k) <==> before.contains(k) || k
                    == name by {
                    if before.contains(k) {
                        let j = choose|j: int| 0 <= j < before.len() && before[j] == k;
                        assert(texts(out@)[j] == k);
                    }
                    if k == name {
                        assert(texts(out@)[before.len() as int] == k);
                    }
                }
            }
        }
        i += 1;
        assert forall|key: Seq<char>| #[trigger]
            texts(out@).contains(key) <==> header_value(all, key, i as int) is Some by {
            assert(before.contains(key) <==> header_value(all, key, i - 1) is Some);
        }
    }
    out
}

/// The last value of a name that has one.
fn last_value(found: &Vec<HeaderLine>, key: &str) -> (r: String)
    requires
        header_value(headers_view(found@), key@, found@.len() as int) is Some,
    ensures
        Some(r@) == header_value(headers_view(found@), key@, found@.len() as int),
{
    let ghost all = headers_view(found@);
    let mut n: usize = found.len();
    while n > 0
        invariant
            n <= found.len(),
            all == headers_view(found@),
            header_value(all, key@, n as int) is Some,
            header_value(all, key@, n as int) == header_value(all, key@, found@.len() as int),
        decreases n,
    {
        assert(all[n - 1] == found@[n - 1]@);
        if let Some(value) = &found[n - 1].value {
            if same_text(lower(found[n - 1].name.as_str()).as_str(), key) {
                return copy_text(value.as_str());
            }
        }
        n -= 1;
    }
    String::new()
}

/// The headers of a response by name: the names in small letters and in order,
/// and the last value of each.
pub fn response_headers(found: &Vec<HeaderLine>) -> (r: (Vec<String>, Vec<String>))
    ensures
        are_headers(headers_view(found@), texts(r.0@), texts(r.1@)),
        r.0@.len() == r.1@.len(),
{
    broadcast use lemma_texts_empty;

    let ghost all = headers_view(found@);
    let distinct = distinct_names(found);
    let names = sort_texts(&distinct);
    proof {
        broadcast use group_to_multiset_ensures;

        let a = texts(distinct@);
        let b = texts(names@);
        law_sorting_orders_and_keeps(a);
        a.lemma_multiset_has_no_duplicates();
        b.lemma_multiset_has_no_duplicates_conv();
        assert forall|key: Seq<char>| #[trigger]
            b.contains(key) <==> header_value(all, key, all.len() as int) is Some by {
            assert(a.to_multiset().count(key) == b.to_multiset().count(key));
            assert(a.contains(key) <==> b.contains(key));
        }
    }
    let mut values: Vec<String> = Vec::new();
    let mut i: usize = 0;
    while i < names.len()
        invariant
            i <= names.len(),
            all == headers_view(found@),
            texts(names@).len() == names.len(),
            texts(values@).len() == i,
            values.len() == i,
            forall|key: Seq<char>| #[trigger]
                texts(names@).contains(key) <==> header_value(all, key, all.len() as int) is Some,
            forall|j: int|
                0 <= j < i ==> Some(#[trigger] texts(values@)[j]) == header_value(
                    all,
                    texts(names@)[j],
                    all.len() as int,
                ),
        decreases names.len() - i,
    {
        assert(texts(names@)[i as int] == names@[i as int]@);
        assert(texts(names@).contains(texts(names@)[i as int]));
        let value = last_value(found, names[i].as_str());
        push_item(&mut values, value);
        i += 1;
    }
    (names, values)
}

// ---------------------------------------------------------------------------
// Laws
// ---------------------------------------------------------------------------

/// A later header takes the place of an earlier one of the same name, whatever
/// its letter case, and leaves the others alone; one that is not text changes
/// nothing.
pub proof fn law_last_header_wins(found: Seq<HeaderView>, next: HeaderView, key: Seq<char>)
    ensures
        ({
            let before = header_value(found, key, found.len() as int);
            let after = header_value(found.push(next), key, found.len() as int + 1);
            &&& next.value is Some && key == lower_text(next.name) ==> after == next.value
            &&& next.value is None || key != lower_text(next.name) ==> after == before
        }),
{
    lemma_value_before(found, next, key, found.len() as int);
}

proof fn lemma_value_before(found: Seq<HeaderView>, next: HeaderView, key: Seq<char>, n: int)
    requires
        0 <= n <= found.len(),
    ensures
        header_value(found.push(next), key, n) == header_value(found, key, n),
    decreases n,
{
    if n > 0 {
        lemma_value_before(found, next, key, n - 1);
    }
}

} // verus!
