//! The order of header keys, and sorting headers by key.
//!
//! Keys are ordered as strings are: character by character, a proper prefix
//! before what it is a prefix of. Sorting keeps headers with the same key in
//! the order in which they stood.

use vstd::prelude::*;
use crate::common::{header_views, Header, KeyValue};
use crate::text::to_chars;

verus! {

/// `a` is at most `b`, given that the two agree before index `i`.
pub open spec fn le_from(a: Seq<char>, b: Seq<char>, i: int) -> bool
    decreases a.len() - i,
{
    if i < 0 || i >= a.len() {
        true
    } else if i >= b.len() {
        false
    } else if a[i] != b[i] {
        a[i] < b[i]
    } else {
        le_from(a, b, i + 1)
    }
}

/// `a` is at most `b` in the order of strings.
pub open spec fn key_le(a: Seq<char>, b: Seq<char>) -> bool {
    le_from(a, b, 0)
}

/// The headers stand in the order of their keys.
pub open spec fn sorted_by_key(headers: Seq<KeyValue>) -> bool {
    forall|i: int, j: int|
        0 <= i <= j < headers.len() ==> key_le(
            (#[trigger] headers[i]).key,
            (#[trigger] headers[j]).key,
        )
}

/// Where a header goes into a sorted list: behind the last header whose key
/// is at most its own.
pub open spec fn insert_pos(sorted: Seq<KeyValue>, h: KeyValue) -> int
    decreases sorted.len(),
{
    if sorted.len() == 0 {
        0
    } else if key_le(sorted.last().key, h.key) {
        sorted.len() as int
    } else {
        insert_pos(sorted.drop_last(), h)
    }
}

/// The headers sorted by key. Headers with the same key keep their order.
pub open spec fn sort_by_key(headers: Seq<KeyValue>) -> Seq<KeyValue>
    decreases headers.len(),
{
    if headers.len() == 0 {
        Seq::empty()
    } else {
        let before = sort_by_key(headers.drop_last());
        before.insert(insert_pos(before, headers.last()), headers.last())
    }
}

/// Of two keys, one is at most the other.
pub proof fn lemma_le_total(a: Seq<char>, b: Seq<char>, i: int)
    requires
        0 <= i,
    ensures
        le_from(a, b, i) || le_from(b, a, i),
    decreases a.len() - i,
{
    if i < a.len() && i < b.len() && a[i] == b[i] {
        lemma_le_total(a, b, i + 1);
    }
}

/// The order of keys is transitive.
pub proof fn lemma_le_trans(a: Seq<char>, b: Seq<char>, c: Seq<char>, i: int)
    requires
        0 <= i,
        le_from(a, b, i),
        le_from(b, c, i),
    ensures
        le_from(a, c, i),
    decreases a.len() - i,
{
    if i < a.len() && a[i] == b[i] && b[i] == c[i] {
        lemma_le_trans(a, b, c, i + 1);
    }
}

/// A key is at most itself.
pub proof fn lemma_le_refl(a: Seq<char>, i: int)
    requires
        0 <= i,
    ensures
        le_from(a, a, i),
    decreases a.len() - i,
{
    if i < a.len() {
        lemma_le_refl(a, i + 1);
    }
}

/// Two keys that are each at most the other agree.
pub proof fn lemma_le_antisym(a: Seq<char>, b: Seq<char>, i: int)
    requires
        0 <= i <= a.len(),
        i <= b.len(),
        le_from(a, b, i),
        le_from(b, a, i),
    ensures
        a.skip(i) == b.skip(i),
    decreases a.len() - i,
{
    if i < a.len() {
        lemma_le_antisym(a, b, i + 1);
        assert(a.skip(i) == seq![a[i]] + a.skip(i + 1));
        assert(b.skip(i) == seq![b[i]] + b.skip(i + 1));
    } else {
        assert(a.skip(i) == Seq::<char>::empty());
        assert(b.skip(i) == Seq::<char>::empty());
    }
}

/// Two keys that are each at most the other are the same key.
pub proof fn lemma_key_le_antisym(a: Seq<char>, b: Seq<char>)
    requires
        key_le(a, b),
        key_le(b, a),
    ensures
        a == b,
{
    lemma_le_antisym(a, b, 0);
    assert(a.skip(0) == a);
    assert(b.skip(0) == b);
}

/// The place where a header goes into a sorted list lies within the list;
/// every key before it is at most the header's key, and no key from it on
/// is.
pub proof fn lemma_insert_pos(sorted: Seq<KeyValue>, h: KeyValue)
    requires
        sorted_by_key(sorted),
    ensures
        0 <= insert_pos(sorted, h) <= sorted.len(),
        forall|j: int| 0 <= j < insert_pos(sorted, h) ==> key_le((#[trigger] sorted[j]).key, h.key),
        forall|j: int|
            insert_pos(sorted, h) <= j < sorted.len() ==> !key_le(
                (#[trigger] sorted[j]).key,
                h.key,
            ),
    decreases sorted.len(),
{
    if sorted.len() == 0 {
    } else if key_le(sorted.last().key, h.key) {
        assert forall|j: int| 0 <= j < sorted.len() implies key_le(
            (#[trigger] sorted[j]).key,
            h.key,
        ) by {
            assert(key_le(sorted[j].key, sorted[sorted.len() - 1].key));
            lemma_le_trans(sorted[j].key, sorted.last().key, h.key, 0);
        }
    } else {
        let front = sorted.drop_last();
        assert forall|i: int, j: int| 0 <= i <= j < front.len() implies key_le(
            (#[trigger] front[i]).key,
            (#[trigger] front[j]).key,
        ) by {
            assert(key_le(sorted[i].key, sorted[j].key));
        }
        lemma_insert_pos(front, h);
        assert forall|j: int| 0 <= j < insert_pos(sorted, h) implies key_le(
            (#[trigger] sorted[j]).key,
            h.key,
        ) by {
            assert(sorted[j] == front[j]);
        }
        assert forall|j: int| insert_pos(sorted, h) <= j < sorted.len() implies !key_le(
            (#[trigger] sorted[j]).key,
            h.key,
        ) by {
            if j < front.len() {
                assert(sorted[j] == front[j]);
            }
        }
    }
}

/// A sorted list with one more header put in at its place is sorted.
pub proof fn lemma_insert_keeps_sorted(sorted: Seq<KeyValue>, h: KeyValue)
    requires
        sorted_by_key(sorted),
    ensures
        sorted_by_key(sorted.insert(insert_pos(sorted, h), h)),
{
    lemma_insert_pos(sorted, h);
    let p = insert_pos(sorted, h);
    let out = sorted.insert(p, h);
    assert forall|i: int, j: int| 0 <= i <= j < out.len() implies key_le(
        (#[trigger] out[i]).key,
        (#[trigger] out[j]).key,
    ) by {
        if i == j {
            lemma_le_refl(out[i].key, 0);
        } else if j == p {
            assert(out[i] == sorted[i]);
        } else if i == p {
            assert(out[j] == sorted[j - 1]);
            lemma_le_total(sorted[j - 1].key, h.key, 0);
        } else if i < p && j < p {
            assert(out[i] == sorted[i] && out[j] == sorted[j]);
        } else if i < p {
            assert(out[i] == sorted[i] && out[j] == sorted[j - 1]);
        } else {
            assert(out[i] == sorted[i - 1] && out[j] == sorted[j - 1]);
        }
    }
}

/// What [`sort_by_key`] gives is sorted by key.
pub proof fn lemma_sort_sorted(headers: Seq<KeyValue>)
    ensures
        sorted_by_key(sort_by_key(headers)),
        sort_by_key(headers).len() == headers.len(),
    decreases headers.len(),
{
    if headers.len() > 0 {
        lemma_sort_sorted(headers.drop_last());
        lemma_insert_pos(sort_by_key(headers.drop_last()), headers.last());
        lemma_insert_keeps_sorted(sort_by_key(headers.drop_last()), headers.last());
    }
}

/// What [`sort_by_key`] gives holds the same headers, each as often as
/// before.
pub proof fn lemma_sort_permutes(headers: Seq<KeyValue>)
    ensures
        sort_by_key(headers).to_multiset() == headers.to_multiset(),
    decreases headers.len(),
{
    broadcast use vstd::seq_lib::group_to_multiset_ensures;

    if headers.len() > 0 {
        let front = headers.drop_last();
        let before = sort_by_key(front);
        lemma_sort_sorted(front);
        lemma_sort_permutes(front);
        lemma_insert_pos(before, headers.last());
        let p = insert_pos(before, headers.last());
        vstd::seq_lib::to_multiset_insert(before, p, headers.last());
        assert(headers == front.push(headers.last()));
    } else {
        assert(sort_by_key(headers) == headers);
    }
}

/// A header with the given key stands in the list.
pub open spec fn has_key(headers: Seq<KeyValue>, key: Seq<char>) -> bool {
    exists|i: int| 0 <= i < headers.len() && (#[trigger] headers[i]).key == key
}

/// A key stands among the first `i + 1` headers if it stands among the
/// first `i` or is the key of the next.
pub proof fn lemma_has_key_step(headers: Seq<KeyValue>, key: Seq<char>, i: int)
    requires
        0 <= i < headers.len(),
    ensures
        has_key(headers.take(i + 1), key) == (has_key(headers.take(i), key) || headers[i].key
            == key),
{
    let shorter = headers.take(i);
    let longer = headers.take(i + 1);
    if has_key(shorter, key) {
        let j = choose|j: int| 0 <= j < shorter.len() && (#[trigger] shorter[j]).key == key;
        assert(longer[j].key == key);
    }
    if headers[i].key == key {
        assert(longer[i].key == key);
    }
    if has_key(longer, key) {
        let j = choose|j: int| 0 <= j < longer.len() && (#[trigger] longer[j]).key == key;
        if j < i {
            assert(shorter[j].key == key);
        }
    }
}

/// No two headers have the same key.
pub open spec fn distinct_header_keys(headers: Seq<KeyValue>) -> bool {
    forall|i: int, j: int|
        0 <= i < j < headers.len() ==> (#[trigger] headers[i]).key != (#[trigger] headers[j]).key
}

/// Sorting neither adds nor drops a header.
pub proof fn lemma_sort_same_elements(headers: Seq<KeyValue>, x: KeyValue)
    ensures
        sort_by_key(headers).contains(x) <==> headers.contains(x),
{
    lemma_sort_permutes(headers);
    vstd::seq_lib::to_multiset_contains(headers, x);
    vstd::seq_lib::to_multiset_contains(sort_by_key(headers), x);
}

/// Sorting headers with distinct keys leaves their keys distinct.
pub proof fn lemma_sort_keeps_distinct(headers: Seq<KeyValue>)
    requires
        distinct_header_keys(headers),
    ensures
        distinct_header_keys(sort_by_key(headers)),
    decreases headers.len(),
{
    if headers.len() > 0 {
        let front = headers.drop_last();
        let last = headers.last();
        let before = sort_by_key(front);
        assert forall|i: int, j: int| 0 <= i < j < front.len() implies (#[trigger] front[i]).key != (
        #[trigger] front[j]).key by {
            assert(front[i] == headers[i] && front[j] == headers[j]);
        }
        lemma_sort_keeps_distinct(front);
        lemma_sort_sorted(front);
        lemma_insert_pos(before, last);
        let p = insert_pos(before, last);
        let out = before.insert(p, last);
        assert forall|k: int| 0 <= k < before.len() implies (#[trigger] before[k]).key
            != last.key by {
            lemma_sort_same_elements(front, before[k]);
            assert(before.contains(before[k]));
            let m = choose|m: int| 0 <= m < front.len() && front[m] == before[k];
            assert(headers[m] == front[m]);
            assert(headers[headers.len() - 1] == last);
        }
        assert forall|i: int, j: int| 0 <= i < j < out.len() implies (#[trigger] out[i]).key != (
        #[trigger] out[j]).key by {
            let a = if i < p {
                i
            } else {
                i - 1
            };
            let b = if j < p {
                j
            } else {
                j - 1
            };
            if i == p {
                assert(out[j] == before[b]);
            } else if j == p {
                assert(out[i] == before[a]);
            } else {
                assert(out[i] == before[a] && out[j] == before[b]);
            }
        }
    }
}

/// The two lists hold the same headers.
pub open spec fn same_headers(a: Seq<KeyValue>, b: Seq<KeyValue>) -> bool {
    forall|x: KeyValue| a.contains(x) <==> b.contains(x)
}

/// The headers of a list without its first stand in order and under
/// distinct keys as those of the list do.
pub proof fn lemma_tail_sorted(x: Seq<KeyValue>)
    requires
        x.len() > 0,
        sorted_by_key(x),
        distinct_header_keys(x),
    ensures
        sorted_by_key(x.drop_first()),
        distinct_header_keys(x.drop_first()),
{
    let t = x.drop_first();
    assert forall|i: int, j: int| 0 <= i <= j < t.len() implies key_le(
        (#[trigger] t[i]).key,
        (#[trigger] t[j]).key,
    ) by {
        assert(key_le(x[i + 1].key, x[j + 1].key));
    }
    assert forall|i: int, j: int| 0 <= i < j < t.len() implies (#[trigger] t[i]).key != (
    #[trigger] t[j]).key by {
        assert(x[i + 1].key != x[j + 1].key);
    }
}

/// Two sorted lists with distinct keys that hold the same headers start
/// with the same header.
pub proof fn lemma_same_first(x: Seq<KeyValue>, y: Seq<KeyValue>)
    requires
        x.len() > 0,
        sorted_by_key(x),
        sorted_by_key(y),
        distinct_header_keys(x),
        same_headers(x, y),
    ensures
        y.len() > 0,
        x[0] == y[0],
{
    assert(x.contains(x[0]));
    assert(y.contains(x[0]));
    let j = choose|j: int| 0 <= j < y.len() && y[j] == x[0];
    assert(y.contains(y[0]));
    assert(x.contains(y[0]));
    let i = choose|i: int| 0 <= i < x.len() && x[i] == y[0];
    assert(key_le(x[0].key, x[i].key));
    assert(key_le(y[0].key, y[j].key));
    lemma_key_le_antisym(x[0].key, y[0].key);
    if i != 0 {
        assert(x[0].key != x[i].key);
    }
}

/// Two sorted lists with distinct keys that hold the same headers are the
/// same list.
pub proof fn lemma_sorted_unique(x: Seq<KeyValue>, y: Seq<KeyValue>)
    requires
        sorted_by_key(x),
        sorted_by_key(y),
        distinct_header_keys(x),
        distinct_header_keys(y),
        same_headers(x, y),
    ensures
        x == y,
    decreases x.len(),
{
    if x.len() == 0 {
        if y.len() > 0 {
            assert(y.contains(y[0]));
        }
        assert(x =~= y);
    } else {
        lemma_same_first(x, y);
        let xt = x.drop_first();
        let yt = y.drop_first();
        lemma_tail_sorted(x);
        lemma_tail_sorted(y);
        assert forall|e: KeyValue| xt.contains(e) <==> yt.contains(e) by {
            if xt.contains(e) {
                let m = choose|m: int| 0 <= m < xt.len() && xt[m] == e;
                assert(x[m + 1] == e);
                assert(x.contains(e));
                let n = choose|n: int| 0 <= n < y.len() && y[n] == e;
                if n == 0 {
                    assert(x[0].key != x[m + 1].key);
                }
                assert(yt[n - 1] == e);
            }
            if yt.contains(e) {
                let m = choose|m: int| 0 <= m < yt.len() && yt[m] == e;
                assert(y[m + 1] == e);
                assert(y.contains(e));
                let n = choose|n: int| 0 <= n < x.len() && x[n] == e;
                if n == 0 {
                    assert(y[0].key != y[m + 1].key);
                }
                assert(xt[n - 1] == e);
            }
        }
        lemma_sorted_unique(xt, yt);
        assert(x =~= seq![x[0]] + xt);
        assert(y =~= seq![y[0]] + yt);
    }
}

/// Headers with distinct keys are sorted into the same order in whatever
/// order they come.
pub proof fn lemma_sort_order_free(a: Seq<KeyValue>, b: Seq<KeyValue>)
    requires
        distinct_header_keys(a),
        distinct_header_keys(b),
        same_headers(a, b),
    ensures
        sort_by_key(a) == sort_by_key(b),
{
    lemma_sort_sorted(a);
    lemma_sort_sorted(b);
    lemma_sort_keeps_distinct(a);
    lemma_sort_keeps_distinct(b);
    assert forall|x: KeyValue| sort_by_key(a).contains(x) <==> sort_by_key(b).contains(x) by {
        lemma_sort_same_elements(a, x);
        lemma_sort_same_elements(b, x);
    }
    lemma_sorted_unique(sort_by_key(a), sort_by_key(b));
}

/// Sorting a sorted list leaves it as it is.
pub proof fn lemma_sort_of_sorted(headers: Seq<KeyValue>)
    requires
        sorted_by_key(headers),
    ensures
        sort_by_key(headers) == headers,
    decreases headers.len(),
{
    if headers.len() > 0 {
        let front = headers.drop_last();
        assert forall|i: int, j: int| 0 <= i <= j < front.len() implies key_le(
            (#[trigger] front[i]).key,
            (#[trigger] front[j]).key,
        ) by {
            assert(key_le(headers[i].key, headers[j].key));
        }
        lemma_sort_of_sorted(front);
        if front.len() > 0 {
            assert(key_le(headers[front.len() - 1].key, headers[headers.len() - 1].key));
        }
        assert(front.insert(front.len() as int, headers.last()) =~= headers);
    } else {
        assert(sort_by_key(headers) =~= headers);
    }
}

/// Whether `a` is at most `b` in the order of strings.
pub fn key_at_most(a: &str, b: &str) -> (r: bool)
    ensures
        r == key_le(a@, b@),
{
    let left = to_chars(a);
    let right = to_chars(b);
    let mut i: usize = 0;
    while i < left.len()
        invariant
            i <= left.len(),
            left@ == a@,
            right@ == b@,
            key_le(a@, b@) == le_from(a@, b@, i as int),
        decreases left.len() - i,
    {
        if i >= right.len() {
            return false;
        }
        if left[i] != right[i] {
            return left[i] < right[i];
        }
        i += 1;
    }
    true
}

/// Sorts the headers by key. Headers with the same key keep their order.
pub fn sort_headers(headers: &Vec<Header>) -> (sorted: Vec<Header>)
    ensures
        header_views(sorted@) == sort_by_key(header_views(headers@)),
{
    let mut sorted: Vec<Header> = Vec::new();
    let mut i: usize = 0;
    assert(header_views(headers@).take(0) == Seq::<KeyValue>::empty());
    assert(header_views(sorted@) == Seq::<KeyValue>::empty());
    while i < headers.len()
        invariant
            i <= headers.len(),
            header_views(sorted@) == sort_by_key(header_views(headers@).take(i as int)),
        decreases headers.len() - i,
    {
        let h = headers[i].clone();
        let ghost upto = header_views(headers@).take(i + 1);
        assert(upto.drop_last() == header_views(headers@).take(i as int));
        assert(upto.last() == h@);
        let ghost before = header_views(sorted@);
        proof {
            lemma_sort_sorted(header_views(headers@).take(i as int));
        }
        let mut p: usize = sorted.len();
        assert(before.take(p as int) == before);
        while p > 0 && !key_at_most(sorted[p - 1].key.as_str(), h.key.as_str())
            invariant
                p <= sorted.len(),
                before == header_views(sorted@),
                insert_pos(before, h@) == insert_pos(before.take(p as int), h@),
            decreases p,
        {
            assert(before.take(p as int).drop_last() == before.take(p - 1));
            assert(before.take(p as int).last() == sorted@[p - 1]@);
            p -= 1;
        }
        proof {
            if p > 0 {
                assert(before.take(p as int).last() == sorted@[p - 1]@);
            }
            assert(insert_pos(before, h@) == p);
        }
        sorted.insert(p, h);
        assert(header_views(sorted@) == before.insert(p as int, h@));
        i += 1;
    }
    assert(header_views(headers@).take(headers.len() as int) == header_views(headers@));
    sorted
}

} // verus!
