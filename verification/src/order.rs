//! Ordering of lists of texts: a stable sort, either by the text itself or by
//! its ASCII lower-cased form, and the removal of adjacent repeats.
//!
//! Texts are compared character by character by code point, which is the
//! order `String`'s `Ord` gives (UTF-8 keeps the code-point order of bytes).

use vstd::prelude::*;
use crate::text::{lower, lower_char_exec};

verus! {

broadcast use vstd::seq_lib::group_to_multiset_ensures;

/// Lexicographic order of texts by code point.
pub open spec fn text_le(a: Seq<char>, b: Seq<char>) -> bool
    decreases a.len(),
{
    if a.len() == 0 {
        true
    } else if b.len() == 0 {
        false
    } else if a[0] != b[0] {
        a[0] < b[0]
    } else {
        text_le(a.drop_first(), b.drop_first())
    }
}

/// The key a text is sorted by: the text itself, or its lower-cased form.
pub open spec fn key_of(s: Seq<char>, fold: bool) -> Seq<char> {
    if fold {
        lower(s)
    } else {
        s
    }
}

pub open spec fn key_le(a: Seq<char>, b: Seq<char>, fold: bool) -> bool {
    text_le(key_of(a, fold), key_of(b, fold))
}

/// `x` placed after the last element whose key is not greater than its own.
pub open spec fn insert_sorted(s: Seq<Seq<char>>, x: Seq<char>, fold: bool) -> Seq<Seq<char>>
    decreases s.len(),
{
    if s.len() == 0 {
        seq![x]
    } else if key_le(s.last(), x, fold) {
        s.push(x)
    } else {
        insert_sorted(s.drop_last(), x, fold).push(s.last())
    }
}

/// The stable sort of `s` by key: elements with equal keys keep their order.
pub open spec fn sort_stable(s: Seq<Seq<char>>, fold: bool) -> Seq<Seq<char>>
    decreases s.len(),
{
    if s.len() == 0 {
        Seq::empty()
    } else {
        insert_sorted(sort_stable(s.drop_last(), fold), s.last(), fold)
    }
}

/// `s` with every run of equal adjacent elements reduced to one element.
pub open spec fn dedup(s: Seq<Seq<char>>) -> Seq<Seq<char>>
    decreases s.len(),
{
    if s.len() <= 1 {
        s
    } else if s.last() == s[s.len() - 2] {
        dedup(s.drop_last())
    } else {
        dedup(s.drop_last()).push(s.last())
    }
}

/// Every element's key is not greater than the keys after it.
pub open spec fn sorted_by_key(s: Seq<Seq<char>>, fold: bool) -> bool {
    forall|i: int, j: int| 0 <= i < j < s.len() ==> key_le(#[trigger] s[i], #[trigger] s[j], fold)
}

/// Where `x` goes in `s`: after every element whose key is not greater, in
/// front of every element whose key is greater.
pub open spec fn insertion_point(s: Seq<Seq<char>>, x: Seq<char>, fold: bool, p: int) -> bool {
    &&& 0 <= p <= s.len()
    &&& forall|k: int| p <= k < s.len() ==> !key_le(#[trigger] s[k], x, fold)
    &&& p > 0 ==> key_le(s[p - 1], x, fold)
}

pub proof fn lemma_text_le_total(a: Seq<char>, b: Seq<char>)
    ensures
        text_le(a, b) || text_le(b, a),
    decreases a.len(),
{
    if a.len() > 0 && b.len() > 0 && a[0] == b[0] {
        lemma_text_le_total(a.drop_first(), b.drop_first());
    }
}

pub proof fn lemma_text_le_transitive(a: Seq<char>, b: Seq<char>, c: Seq<char>)
    requires
        text_le(a, b),
        text_le(b, c),
    ensures
        text_le(a, c),
    decreases a.len(),
{
    if a.len() > 0 && b.len() > 0 && c.len() > 0 && a[0] == b[0] && b[0] == c[0] {
        lemma_text_le_transitive(a.drop_first(), b.drop_first(), c.drop_first());
    }
}

pub proof fn lemma_text_le_antisymmetric(a: Seq<char>, b: Seq<char>)
    requires
        text_le(a, b),
        text_le(b, a),
    ensures
        a == b,
    decreases a.len(),
{
    if a.len() > 0 && b.len() > 0 {
        lemma_text_le_antisymmetric(a.drop_first(), b.drop_first());
        assert forall|i: int| 0 <= i < a.len() implies a[i] == b[i] by {
            if i > 0 {
                assert(a[i] == a.drop_first()[i - 1]);
                assert(b[i] == b.drop_first()[i - 1]);
            }
        }
        assert(a =~= b);
    }
}

/// Given an insertion point, `insert_sorted` inserts there.
pub proof fn lemma_insert_at(s: Seq<Seq<char>>, x: Seq<char>, fold: bool, p: int)
    requires
        insertion_point(s, x, fold, p),
    ensures
        insert_sorted(s, x, fold) == s.insert(p, x),
    decreases s.len(),
{
    if s.len() == 0 {
        assert(s.insert(p, x) =~= seq![x]);
    } else if p == s.len() {
        assert(s.insert(p, x) =~= s.push(x));
    } else {
        let d = s.drop_last();
        assert(!key_le(s[s.len() - 1], x, fold));
        assert forall|k: int| p <= k < d.len() implies !key_le(#[trigger] d[k], x, fold) by {
            assert(d[k] == s[k]);
        }
        if p > 0 {
            assert(d[p - 1] == s[p - 1]);
        }
        lemma_insert_at(d, x, fold, p);
        assert(d.insert(p, x).push(s.last()) =~= s.insert(p, x));
    }
}

/// Every list has an insertion point for every element.
pub proof fn lemma_insertion_point_exists(s: Seq<Seq<char>>, x: Seq<char>, fold: bool) -> (p: int)
    ensures
        insertion_point(s, x, fold, p),
    decreases s.len(),
{
    if s.len() == 0 {
        0
    } else if key_le(s.last(), x, fold) {
        s.len() as int
    } else {
        let d = s.drop_last();
        let q = lemma_insertion_point_exists(d, x, fold);
        assert forall|k: int| q <= k < s.len() implies !key_le(#[trigger] s[k], x, fold) by {
            if k < d.len() {
                assert(d[k] == s[k]);
            }
        }
        if q > 0 {
            assert(d[q - 1] == s[q - 1]);
        }
        q
    }
}

/// Inserting at an insertion point keeps a sorted list sorted.
pub proof fn lemma_insert_keeps_sorted(s: Seq<Seq<char>>, x: Seq<char>, fold: bool, p: int)
    requires
        insertion_point(s, x, fold, p),
        sorted_by_key(s, fold),
    ensures
        sorted_by_key(s.insert(p, x), fold),
{
    let t = s.insert(p, x);
    s.insert_ensures(p, x);
    assert forall|i: int, j: int| 0 <= i < j < t.len() implies key_le(#[trigger] t[i], #[trigger] t[j], fold) by {
        if j < p {
            assert(t[i] == s[i] && t[j] == s[j]);
        } else if j == p {
            assert(t[i] == s[i]);
            if i < p - 1 {
                assert(key_le(s[i], s[p - 1], fold));
                lemma_text_le_transitive(key_of(s[i], fold), key_of(s[p - 1], fold), key_of(x, fold));
            }
        } else if i == p {
            assert(t[j] == s[j - 1]);
            assert(!key_le(s[j - 1], x, fold));
            lemma_text_le_total(key_of(s[j - 1], fold), key_of(x, fold));
        } else if i < p {
            assert(t[i] == s[i] && t[j] == s[j - 1]);
        } else {
            assert(t[i] == s[i - 1] && t[j] == s[j - 1]);
        }
    }
}

/// The stable sort is a sorted permutation of its input.
pub proof fn sort_stable_is_a_sorted_permutation(s: Seq<Seq<char>>, fold: bool)
    ensures
        sort_stable(s, fold).len() == s.len(),
        sort_stable(s, fold).to_multiset() == s.to_multiset(),
        sorted_by_key(sort_stable(s, fold), fold),
    decreases s.len(),
{
    if s.len() > 0 {
        let d = s.drop_last();
        sort_stable_is_a_sorted_permutation(d, fold);
        let r = sort_stable(d, fold);
        let p = lemma_insertion_point_exists(r, s.last(), fold);
        lemma_insert_at(r, s.last(), fold, p);
        lemma_insert_keeps_sorted(r, s.last(), fold, p);
        assert(s =~= d.push(s.last()));
    } else {
        assert(s.to_multiset() =~= sort_stable(s, fold).to_multiset()) by {
            assert(s =~= Seq::<Seq<char>>::empty());
        }
    }
}

/// Removing adjacent repeats keeps exactly the same elements, leaves no two
/// equal neighbours, and keeps a sorted list sorted.
pub proof fn dedup_keeps_the_elements(s: Seq<Seq<char>>, fold: bool)
    ensures
        forall|e: Seq<char>| #[trigger] dedup(s).contains(e) <==> s.contains(e),
        forall|i: int| 0 <= i < dedup(s).len() - 1 ==> #[trigger] dedup(s)[i] != dedup(s)[i + 1],
        dedup(s).len() > 0 ==> dedup(s).last() == s.last(),
        sorted_by_key(s, fold) ==> sorted_by_key(dedup(s), fold),
    decreases s.len(),
{
    if s.len() > 1 {
        let d = s.drop_last();
        dedup_keeps_the_elements(d, fold);
        let r = dedup(d);
        if s.last() == s[s.len() - 2] {
            assert forall|e: Seq<char>| #[trigger] dedup(s).contains(e) <==> s.contains(e) by {
                if s.contains(e) {
                    let k = choose|k: int| 0 <= k < s.len() && s[k] == e;
                    if k == s.len() - 1 {
                        assert(d[s.len() - 2] == e);
                    } else {
                        assert(d[k] == e);
                    }
                }
                if d.contains(e) {
                    let k = choose|k: int| 0 <= k < d.len() && d[k] == e;
                    assert(s[k] == e);
                }
            }
            if sorted_by_key(s, fold) {
                assert(sorted_by_key(d, fold)) by {
                    assert forall|i: int, j: int| 0 <= i < j < d.len() implies key_le(#[trigger] d[i], #[trigger] d[j], fold) by {
                        assert(d[i] == s[i] && d[j] == s[j]);
                    }
                }
            }
        } else {
            let t = r.push(s.last());
            assert forall|e: Seq<char>| #[trigger] t.contains(e) <==> s.contains(e) by {
                if s.contains(e) {
                    let k = choose|k: int| 0 <= k < s.len() && s[k] == e;
                    if k == s.len() - 1 {
                        assert(t[t.len() - 1] == e);
                    } else {
                        assert(d[k] == e);
                        assert(r.contains(e));
                        let m = choose|m: int| 0 <= m < r.len() && r[m] == e;
                        assert(t[m] == e);
                    }
                }
                if t.contains(e) {
                    let k = choose|k: int| 0 <= k < t.len() && t[k] == e;
                    if k == t.len() - 1 {
                        assert(s[s.len() - 1] == e);
                    } else {
                        assert(r[k] == e);
                        assert(r.contains(e));
                        let m = choose|m: int| 0 <= m < d.len() && d[m] == e;
                        assert(s[m] == e);
                    }
                }
            }
            assert(r.len() > 0) by {
                assert(d.contains(d[0]));
                assert(r.contains(d[0]));
            }
            assert(r.last() == d.last());
            assert forall|i: int| 0 <= i < t.len() - 1 implies #[trigger] t[i] != t[i + 1] by {
                if i < t.len() - 2 {
                    assert(t[i] == r[i] && t[i + 1] == r[i + 1]);
                } else {
                    assert(t[i] == r.last());
                    assert(d.last() == s[s.len() - 2]);
                }
            }
            if sorted_by_key(s, fold) {
                assert(sorted_by_key(d, fold)) by {
                    assert forall|i: int, j: int| 0 <= i < j < d.len() implies key_le(#[trigger] d[i], #[trigger] d[j], fold) by {
                        assert(d[i] == s[i] && d[j] == s[j]);
                    }
                }
                assert forall|i: int, j: int| 0 <= i < j < t.len() implies key_le(#[trigger] t[i], #[trigger] t[j], fold) by {
                    if j < t.len() - 1 {
                        assert(t[i] == r[i] && t[j] == r[j]);
                    } else {
                        assert(t[i] == r[i]);
                        assert(r.contains(r[i]));
                        let m = choose|m: int| 0 <= m < d.len() && d[m] == r[i];
                        assert(s[m] == r[i]);
                    }
                }
            }
        }
    }
}

/// Sorted by the text itself with no equal neighbours, a list holds every
/// element only once and is strictly increasing.
pub proof fn sorted_without_repeats_is_strictly_increasing(s: Seq<Seq<char>>)
    requires
        sorted_by_key(s, false),
        forall|i: int| 0 <= i < s.len() - 1 ==> #[trigger] s[i] != s[i + 1],
    ensures
        forall|i: int, j: int| 0 <= i < j < s.len() ==> #[trigger] s[i] != #[trigger] s[j],
{
    assert forall|i: int, j: int| 0 <= i < j < s.len() implies #[trigger] s[i] != #[trigger] s[j] by {
        if s[i] == s[j] {
            assert(key_le(s[i], s[i + 1], false));
            assert(key_le(s[i + 1], s[j], false));
            lemma_text_le_antisymmetric(s[i], s[i + 1]);
            assert(s[i] != s[i + 1]);
        }
    }
}

/// Whether `a` is not after `b` in code-point order.
pub fn text_le_exec(a: &Vec<char>, b: &Vec<char>) -> (r: bool)
    ensures
        r == text_le(a@, b@),
{
    let mut i: usize = 0;
    proof {
        assert(a@.skip(0) =~= a@);
        assert(b@.skip(0) =~= b@);
    }
    while i < a.len() && i < b.len() && a[i] == b[i]
        invariant
            i <= a.len(),
            i <= b.len(),
            text_le(a@, b@) == text_le(a@.skip(i as int), b@.skip(i as int)),
        decreases a.len() - i,
    {
        proof {
            assert(a@.skip(i as int).drop_first() =~= a@.skip(i + 1));
            assert(b@.skip(i as int).drop_first() =~= b@.skip(i + 1));
        }
        i = i + 1;
    }
    if i == a.len() {
        true
    } else if i == b.len() {
        false
    } else {
        a[i] < b[i]
    }
}

/// The key of a text, as characters.
fn key_chars(s: &String, fold: bool) -> (k: Vec<char>)
    ensures
        k@ == key_of(s@, fold),
{
    let chars = crate::text::chars_of(s.as_str());
    if !fold {
        return chars;
    }
    let mut v: Vec<char> = Vec::new();
    let mut i: usize = 0;
    while i < chars.len()
        invariant
            chars@ == s@,
            i <= chars.len(),
            v@ == lower(chars@.take(i as int)),
        decreases chars.len() - i,
    {
        let c = lower_char_exec(chars[i]);
        proof {
            assert(lower(chars@.take(i + 1)) =~= lower(chars@.take(i as int)).push(c));
        }
        v.push(c);
        i = i + 1;
    }
    proof {
        assert(chars@.take(i as int) =~= chars@);
    }
    v
}

/// The stable sort of `items` by key (the text, or its lower-cased form when
/// `fold` holds).
pub fn sort_texts(items: &Vec<String>, fold: bool) -> (sorted: Vec<String>)
    ensures
        sorted.deep_view() == sort_stable(items.deep_view(), fold),
{
    let ghost input = items.deep_view();
    let mut sorted: Vec<String> = Vec::new();
    let mut keys: Vec<Vec<char>> = Vec::new();
    let mut i: usize = 0;
    while i < items.len()
        invariant
            i <= items.len(),
            input == items.deep_view(),
            keys.len() == sorted.len(),
            forall|k: int| 0 <= k < keys.len() ==> #[trigger] keys@[k]@ == key_of(sorted@[k]@, fold),
            sorted.deep_view() == sort_stable(input.take(i as int), fold),
        decreases items.len() - i,
    {
        let x = items[i].clone();
        let kx = key_chars(&x, fold);
        let ghost before = sorted.deep_view();
        let mut p: usize = sorted.len();
        while p > 0 && !text_le_exec(&keys[p - 1], &kx)
            invariant
                p <= sorted.len(),
                keys.len() == sorted.len(),
                before == sorted.deep_view(),
                forall|k: int| 0 <= k < keys.len() ==> #[trigger] keys@[k]@ == key_of(sorted@[k]@, fold),
                kx@ == key_of(x@, fold),
                forall|k: int| p <= k < before.len() ==> !key_le(#[trigger] before[k], x@, fold),
            decreases p,
        {
            proof {
                assert(before[p - 1] == sorted@[p - 1]@);
            }
            p = p - 1;
        }
        proof {
            if p > 0 {
                assert(before[p - 1] == sorted@[p - 1]@);
            }
            assert(insertion_point(before, x@, fold, p as int));
            lemma_insert_at(before, x@, fold, p as int);
            let t = input.take(i + 1);
            assert(t.drop_last() =~= input.take(i as int));
            assert(t.last() == x@);
        }
        sorted.insert(p, x);
        keys.insert(p, kx);
        proof {
            assert(sorted.deep_view() =~= before.insert(p as int, x@));
            assert forall|k: int| 0 <= k < keys.len() implies #[trigger] keys@[k]@ == key_of(sorted@[k]@, fold) by {
                if k < p {
                } else if k > p {
                }
            }
        }
        i = i + 1;
    }
    proof {
        assert(input.take(i as int) =~= input);
    }
    sorted
}

/// `items` with every run of equal adjacent texts reduced to one.
pub fn dedup_texts(items: &Vec<String>) -> (kept: Vec<String>)
    ensures
        kept.deep_view() == dedup(items.deep_view()),
{
    let ghost input = items.deep_view();
    let mut kept: Vec<String> = Vec::new();
    let mut i: usize = 0;
    while i < items.len()
        invariant
            i <= items.len(),
            input == items.deep_view(),
            kept.deep_view() == dedup(input.take(i as int)),
        decreases items.len() - i,
    {
        let ghost t = input.take(i + 1);
        proof {
            assert(t.drop_last() =~= input.take(i as int));
            assert(t.last() == items@[i as int]@);
            if i > 0 {
                assert(t[t.len() - 2] == items@[i - 1]@);
            }
        }
        if i == 0 || items[i] != items[i - 1] {
            let x = items[i].clone();
            kept.push(x);
            proof {
                if i == 0 {
                    assert(kept.deep_view() =~= t);
                } else {
                    assert(kept.deep_view() =~= dedup(input.take(i as int)).push(items@[i as int]@));
                }
            }
        }
        i = i + 1;
    }
    proof {
        assert(input.take(i as int) =~= input);
    }
    kept
}

/// `items` sorted by their ASCII lower-cased form, stably, then with adjacent
/// repeats removed: the order in which installed models are listed.
pub fn sort_model_names(items: &Vec<String>) -> (listed: Vec<String>)
    ensures
        listed.deep_view() == dedup(sort_stable(items.deep_view(), true)),
{
    let sorted = sort_texts(items, true);
    dedup_texts(&sorted)
}

/// `items` sorted and without repeats.
pub fn sort_unique(items: &Vec<String>) -> (unique: Vec<String>)
    ensures
        unique.deep_view() == dedup(sort_stable(items.deep_view(), false)),
{
    let sorted = sort_texts(items, false);
    dedup_texts(&sorted)
}

/// The model listing holds exactly the names found, in case-insensitive
/// order, with no name twice in a row.
pub proof fn model_listing_is_ordered(names: Seq<Seq<char>>)
    ensures
        forall|e: Seq<char>| #[trigger] dedup(sort_stable(names, true)).contains(e) <==> names.contains(e),
        sorted_by_key(dedup(sort_stable(names, true)), true),
        forall|i: int|
            0 <= i < dedup(sort_stable(names, true)).len() - 1 ==> #[trigger] dedup(sort_stable(names, true))[i]
                != dedup(sort_stable(names, true))[i + 1],
{
    sort_stable_is_a_sorted_permutation(names, true);
    let s = sort_stable(names, true);
    dedup_keeps_the_elements(s, true);
    assert forall|e: Seq<char>| #[trigger] s.contains(e) <==> names.contains(e) by {
        assert(s.to_multiset().count(e) == names.to_multiset().count(e));
    }
}

/// A sorted, repeat-free list holds every input once, in strictly increasing
/// order.
pub proof fn unique_listing_is_strictly_increasing(items: Seq<Seq<char>>)
    ensures
        forall|e: Seq<char>| #[trigger] dedup(sort_stable(items, false)).contains(e) <==> items.contains(e),
        forall|i: int, j: int|
            0 <= i < j < dedup(sort_stable(items, false)).len() ==> text_le(
                #[trigger] dedup(sort_stable(items, false))[i],
                #[trigger] dedup(sort_stable(items, false))[j],
            ) && dedup(sort_stable(items, false))[i] != dedup(sort_stable(items, false))[j],
{
    sort_stable_is_a_sorted_permutation(items, false);
    let s = sort_stable(items, false);
    dedup_keeps_the_elements(s, false);
    let r = dedup(s);
    assert forall|e: Seq<char>| #[trigger] s.contains(e) <==> items.contains(e) by {
        assert(s.to_multiset().count(e) == items.to_multiset().count(e));
    }
    sorted_without_repeats_is_strictly_increasing(r);
    assert forall|i: int, j: int| 0 <= i < j < r.len() implies text_le(#[trigger] r[i], #[trigger] r[j]) && r[i] != r[j] by {
        assert(key_le(r[i], r[j], false));
    }
}

} // verus!
