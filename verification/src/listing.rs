//! Newest-first listings: a stable sort by a string key, and paging.
use vstd::prelude::*;

use crate::text::{
    lemma_lex_asymmetric, lemma_lex_irreflexive, lemma_lex_total, lemma_lex_transitive, lex_lt,
    lex_lt_exec,
};

verus! {

/// Items of `s` whose key is `k`, in order.
pub open spec fn with_key<T>(s: Seq<T>, key: spec_fn(T) -> Seq<char>, k: Seq<char>) -> Seq<T> {
    s.filter(key_is(key, k))
}

/// Whether an item's key is `k`.
pub open spec fn key_is<T>(key: spec_fn(T) -> Seq<char>, k: Seq<char>) -> spec_fn(T) -> bool {
    |x: T| key(x) == k
}

/// No item of `s` has a key that sorts after the key of an item before it.
pub open spec fn sorted_desc<T>(s: Seq<T>, key: spec_fn(T) -> Seq<char>) -> bool {
    forall|i: int, j: int| 0 <= i < j < s.len() ==> !lex_lt(#[trigger] key(s[i]), #[trigger] key(s[j]))
}

/// `r` holds the items of `s`, the items of each key in the order they have in `s`.
pub open spec fn same_per_key<T>(r: Seq<T>, s: Seq<T>, key: spec_fn(T) -> Seq<char>) -> bool {
    forall|k: Seq<char>| #[trigger] with_key(r, key, k) == with_key(s, key, k)
}

/// `r` is `s` sorted newest first (by descending key), items with equal keys keeping
/// their order: what a stable `sort_by(|a, b| b.key.cmp(&a.key))` produces.
pub open spec fn stable_sorted_desc<T>(r: Seq<T>, s: Seq<T>, key: spec_fn(T) -> Seq<char>) -> bool {
    sorted_desc(r, key) && same_per_key(r, s, key)
}

/// The page of `s` that skips `offset` items and keeps at most `limit`.
pub open spec fn page_of<T>(s: Seq<T>, offset: nat, limit: nat) -> Seq<T> {
    if offset >= s.len() {
        Seq::empty()
    } else if offset + limit >= s.len() {
        s.skip(offset as int)
    } else {
        s.subrange(offset as int, (offset + limit) as int)
    }
}

/// Consecutive pages tile a listing: the page of `l1` items at `offset` followed by the
/// page of `l2` items right after it is the page of `l1 + l2` items at `offset`.
pub proof fn lemma_pages_tile<T>(s: Seq<T>, offset: nat, l1: nat, l2: nat)
    ensures
        page_of(s, offset, l1) + page_of(s, offset + l1, l2) == page_of(s, offset, l1 + l2),
{
    let a = page_of(s, offset, l1);
    let b = page_of(s, offset + l1, l2);
    let c = page_of(s, offset, l1 + l2);
    assert(a + b =~= c);
}

/// No two items of `s` have the same key.
pub open spec fn distinct_keys<T>(s: Seq<T>, key: spec_fn(T) -> Seq<char>) -> bool {
    forall|i: int, j: int| 0 <= i < j < s.len() ==> #[trigger] key(s[i]) != #[trigger] key(s[j])
}

/// With distinct keys, the items of a key are the one item that has it, or none.
proof fn lemma_with_key_distinct<T>(s: Seq<T>, key: spec_fn(T) -> Seq<char>, k: Seq<char>)
    requires
        distinct_keys(s, key),
    ensures
        forall|i: int| 0 <= i < s.len() && key(#[trigger] s[i]) == k ==> with_key(s, key, k) == seq![s[i]],
        (forall|i: int| 0 <= i < s.len() ==> key(#[trigger] s[i]) != k) ==> with_key(s, key, k) == Seq::<T>::empty(),
    decreases s.len(),
{
    if s.len() > 0 {
        let t = s.drop_last();
        let x = s.last();
        assert(t.push(x) =~= s);
        assert(distinct_keys(t, key)) by {
            assert forall|i: int, j: int| 0 <= i < j < t.len() implies #[trigger] key(t[i]) != #[trigger] key(t[j]) by {
                assert(t[i] == s[i] && t[j] == s[j]);
            }
        }
        lemma_with_key_distinct(t, key, k);
        lemma_filter_push(t, x, key_is(key, k));
        if key(x) == k {
            assert forall|i: int| 0 <= i < t.len() implies key(#[trigger] t[i]) != k by {
                assert(t[i] == s[i]);
                assert(key(s[i]) != key(s[s.len() - 1]));
            }
            assert(with_key(t, key, k) == Seq::<T>::empty());
            assert(with_key(s, key, k) =~= seq![x]);
            assert forall|i: int| 0 <= i < s.len() && key(#[trigger] s[i]) == k implies with_key(s, key, k) == seq![s[i]] by {
                if i < s.len() - 1 {
                    assert(key(s[i]) != key(s[s.len() - 1]));
                }
            }
        } else {
            assert forall|i: int| 0 <= i < s.len() && key(#[trigger] s[i]) == k implies with_key(s, key, k) == seq![s[i]] by {
                assert(i < s.len() - 1);
                assert(t[i] == s[i]);
            }
            if forall|i: int| 0 <= i < s.len() ==> key(#[trigger] s[i]) != k {
                assert forall|i: int| 0 <= i < t.len() implies key(#[trigger] t[i]) != k by {
                    assert(t[i] == s[i]);
                }
            }
        }
    } else {
        reveal(Seq::filter);
        assert(with_key(s, key, k) =~= Seq::<T>::empty());
    }
}

/// Listings of the same items, read in any orders, agree when no two items share a key:
/// their newest-first orders are the same sequence.
pub proof fn lemma_newest_first_same_items<T>(s1: Seq<T>, s2: Seq<T>, key: spec_fn(T) -> Seq<char>)
    requires
        distinct_keys(s1, key),
        distinct_keys(s2, key),
        forall|x: T| s1.contains(x) <==> s2.contains(x),
        stable_sorted_desc(newest_first(s1, key), s1, key),
        stable_sorted_desc(newest_first(s2, key), s2, key),
    ensures
        newest_first(s1, key) == newest_first(s2, key),
{
    let c1 = newest_first(s1, key);
    let c2 = newest_first(s2, key);
    assert forall|k: Seq<char>| #[trigger] with_key(c1, key, k) == with_key(c2, key, k) by {
        assert(with_key(c1, key, k) == with_key(s1, key, k));
        assert(with_key(c2, key, k) == with_key(s2, key, k));
        lemma_with_key_distinct(s1, key, k);
        lemma_with_key_distinct(s2, key, k);
        if exists|i: int| 0 <= i < s1.len() && key(#[trigger] s1[i]) == k {
            let i = choose|i: int| 0 <= i < s1.len() && key(#[trigger] s1[i]) == k;
            assert(s1.contains(s1[i]));
            assert(s2.contains(s1[i]));
            let j = choose|j: int| 0 <= j < s2.len() && s2[j] == s1[i];
            assert(key(s2[j]) == k);
        } else if exists|j: int| 0 <= j < s2.len() && key(#[trigger] s2[j]) == k {
            let j = choose|j: int| 0 <= j < s2.len() && key(#[trigger] s2[j]) == k;
            assert(s2.contains(s2[j]));
            assert(s1.contains(s2[j]));
            let i = choose|i: int| 0 <= i < s1.len() && s1[i] == s2[j];
            assert(key(s1[i]) == k);
        }
    }
    lemma_stable_sort_unique(c1, c2, key);
}

proof fn lemma_filter_none<T>(s: Seq<T>, pred: spec_fn(T) -> bool)
    requires
        forall|i: int| 0 <= i < s.len() ==> !pred(#[trigger] s[i]),
    ensures
        s.filter(pred) == Seq::<T>::empty(),
    decreases s.len(),
{
    reveal(Seq::filter);
    if s.len() > 0 {
        lemma_filter_none(s.drop_last(), pred);
        assert(!pred(s[s.len() - 1]));
    }
}

proof fn lemma_filter_single<T>(x: T, pred: spec_fn(T) -> bool)
    ensures
        seq![x].filter(pred) == (if pred(x) {
            seq![x]
        } else {
            Seq::<T>::empty()
        }),
{
    reveal_with_fuel(Seq::filter, 2);
    assert(seq![x].drop_last() =~= Seq::<T>::empty());
}

proof fn lemma_filter_push<T>(s: Seq<T>, x: T, pred: spec_fn(T) -> bool)
    ensures
        s.push(x).filter(pred) == (if pred(x) {
            s.filter(pred).push(x)
        } else {
            s.filter(pred)
        }),
{
    reveal(Seq::filter);
    assert(s.push(x).drop_last() =~= s);
}

/// Inserting `x` at `p` into a sorted `out`, where the keys before `p` are at least
/// `key(x)` and those after are smaller, keeps `out` sorted and adds `x` to its key.
proof fn lemma_insert<T>(out: Seq<T>, x: T, p: int, key: spec_fn(T) -> Seq<char>)
    requires
        0 <= p <= out.len(),
        sorted_desc(out, key),
        forall|i: int| 0 <= i < p ==> !lex_lt(#[trigger] key(out[i]), key(x)),
        forall|i: int| p <= i < out.len() ==> lex_lt(#[trigger] key(out[i]), key(x)),
    ensures
        sorted_desc(out.insert(p, x), key),
        forall|k: Seq<char>| #[trigger]
            with_key(out.insert(p, x), key, k) == if key(x) == k {
                with_key(out, key, k).push(x)
            } else {
                with_key(out, key, k)
            },
{
    let r = out.insert(p, x);
    assert forall|i: int, j: int| 0 <= i < j < r.len() implies !lex_lt(
        #[trigger] key(r[i]),
        #[trigger] key(r[j]),
    ) by {
        if j < p {
            assert(r[i] == out[i] && r[j] == out[j]);
        } else if j == p {
            assert(r[i] == out[i]);
        } else if i == p {
            assert(r[j] == out[j - 1]);
            lemma_lex_asymmetric(key(out[j - 1]), key(x));
        } else if i < p {
            assert(r[i] == out[i] && r[j] == out[j - 1]);
        } else {
            assert(r[i] == out[i - 1] && r[j] == out[j - 1]);
        }
    }
    assert forall|k: Seq<char>|
        #[trigger] with_key(r, key, k) == if key(x) == k {
            with_key(out, key, k).push(x)
        } else {
            with_key(out, key, k)
        } by {
        let pred = key_is(key, k);
        let a = out.take(p);
        let b = out.skip(p);
        assert(r =~= a + seq![x] + b);
        assert(out =~= a + b);
        Seq::filter_distributes_over_add(a + seq![x], b, pred);
        Seq::filter_distributes_over_add(a, seq![x], pred);
        Seq::filter_distributes_over_add(a, b, pred);
        lemma_filter_single(x, pred);
        if key(x) == k {
            assert forall|i: int| 0 <= i < b.len() implies !pred(#[trigger] b[i]) by {
                assert(b[i] == out[p + i]);
                lemma_lex_irreflexive(key(x));
            }
            lemma_filter_none(b, pred);
            assert(with_key(r, key, k) =~= a.filter(pred).push(x));
            assert(with_key(out, key, k) =~= a.filter(pred));
        } else {
            assert(a.filter(pred) + Seq::<T>::empty() =~= a.filter(pred));
        }
    }
}

/// Sorts `items` newest first by the key whose characters `keys` hold, keeping the order
/// of items with equal keys.
pub fn sort_desc_by_key<T>(items: Vec<T>, keys: Vec<Vec<char>>, Ghost(key): Ghost<
    spec_fn(T) -> Seq<char>,
>) -> (r: Vec<T>)
    requires
        items.len() == keys.len(),
        forall|i: int| 0 <= i < items.len() ==> (#[trigger] keys[i])@ == key(items[i]),
    ensures
        stable_sorted_desc(r@, items@, key),
        r@ == newest_first(items@, key),
        r.len() == items.len(),
{
    let ghost all = items@;
    let mut out: Vec<T> = Vec::new();
    let mut out_keys: Vec<Vec<char>> = Vec::new();
    let mut n: usize = 0;
    proof {
        assert forall|k: Seq<char>| #[trigger] with_key(out@, key, k) == with_key(all.take(0), key, k) by {
            reveal(Seq::filter);
            assert(all.take(0) =~= Seq::<T>::empty());
            assert(out@ =~= Seq::<T>::empty());
        }
    }
    for x in it: items
        invariant
            it.seq() == all,
            n == it.index(),
            all.len() == keys.len(),
            forall|i: int| 0 <= i < all.len() ==> (#[trigger] keys[i])@ == key(all[i]),
            out.len() == out_keys.len(),
            out.len() == n,
            forall|i: int| 0 <= i < out.len() ==> (#[trigger] out_keys[i])@ == key(out@[i]),
            sorted_desc(out@, key),
            same_per_key(out@, all.take(n as int), key),
    {
        let kx = &keys[n];
        assert(x == all[n as int]);
        let mut p: usize = 0;
        while p < out.len() && !lex_lt_exec(&out_keys[p], kx)
            invariant
                p <= out.len(),
                out.len() == out_keys.len(),
                forall|i: int| 0 <= i < out.len() ==> (#[trigger] out_keys[i])@ == key(out@[i]),
                kx@ == key(x),
                forall|i: int| 0 <= i < p ==> !lex_lt(#[trigger] key(out@[i]), key(x)),
            decreases out.len() - p,
        {
            p = p + 1;
        }
        proof {
            assert forall|i: int| p <= i < out.len() implies lex_lt(#[trigger] key(out@[i]), key(x)) by {
                assert(lex_lt(key(out@[p as int]), key(x)));
                if i > p {
                    assert(!lex_lt(key(out@[p as int]), key(out@[i])));
                    lemma_lex_total(key(out@[p as int]), key(out@[i]));
                    lemma_lex_transitive(key(out@[i]), key(out@[p as int]), key(x));
                }
            }
            lemma_insert(out@, x, p as int, key);
            assert forall|k: Seq<char>| #[trigger]
                with_key(out@.insert(p as int, x), key, k) == with_key(all.take(n + 1), key, k) by {
                assert(all.take(n + 1) =~= all.take(n as int).push(x));
                lemma_filter_push(all.take(n as int), x, key_is(key, k));
                assert(with_key(out@, key, k) == with_key(all.take(n as int), key, k));
            }
        }
        let kc = kx.clone();
        assert(kc@ =~= kx@);
        out.insert(p, x);
        out_keys.insert(p, kc);
        n = n + 1;
        proof {
            assert forall|i: int| 0 <= i < out.len() implies (#[trigger] out_keys[i])@ == key(out@[i]) by {
                if i < p {
                } else if i == p {
                } else {
                }
            }
        }
    }
    assert(all.take(n as int) =~= all);
    proof {
        lemma_newest_first(out@, all, key);
    }
    out
}

/// The page of `v` that skips `offset` items and keeps at most `limit`.
pub fn page<T>(v: Vec<T>, offset: usize, limit: usize) -> (r: Vec<T>)
    ensures
        r@ == page_of(v@, offset as nat, limit as nat),
{
    let ghost orig = v@;
    let mut v = v;
    if offset >= v.len() {
        return Vec::new();
    }
    let mut rest = v.split_off(offset);
    assert(rest@ =~= orig.skip(offset as int));
    if limit < rest.len() {
        rest.truncate(limit);
        assert(rest@ =~= orig.subrange(offset as int, (offset + limit) as int));
    }
    rest
}


/// The stable newest-first order of `s`.
pub open spec fn newest_first<T>(s: Seq<T>, key: spec_fn(T) -> Seq<char>) -> Seq<T> {
    choose|r: Seq<T>| stable_sorted_desc(r, s, key)
}

proof fn lemma_filter_witness<T>(s: Seq<T>, pred: spec_fn(T) -> bool)
    requires
        s.filter(pred).len() > 0,
    ensures
        exists|j: int| 0 <= j < s.len() && pred(#[trigger] s[j]),
    decreases s.len(),
{
    reveal(Seq::filter);
    if s.len() > 0 {
        if pred(s.last()) {
            assert(pred(s[s.len() - 1]));
        } else {
            lemma_filter_witness(s.drop_last(), pred);
            let j = choose|j: int| 0 <= j < s.drop_last().len() && pred(#[trigger] s.drop_last()[j]);
            assert(s[j] == s.drop_last()[j]);
        }
    }
}

/// A nonempty sorted sequence has no key below that of its last item among the keys of
/// its items: any item with key `k` forbids `k < key(last)`.
proof fn lemma_last_is_least<T>(s: Seq<T>, key: spec_fn(T) -> Seq<char>, k: Seq<char>)
    requires
        s.len() > 0,
        sorted_desc(s, key),
        with_key(s, key, k).len() > 0,
    ensures
        !lex_lt(k, key(s.last())),
{
    lemma_filter_witness(s, key_is(key, k));
    let j = choose|j: int| 0 <= j < s.len() && (key_is(key, k))(#[trigger] s[j]);
    assert(key(s[j]) == k);
    if j < s.len() - 1 {
        assert(!lex_lt(key(s[j]), key(s[s.len() - 1])));
    } else {
        lemma_lex_irreflexive(k);
    }
}

/// Two stable newest-first orders of the same items are the same sequence.
pub proof fn lemma_stable_sort_unique<T>(s1: Seq<T>, s2: Seq<T>, key: spec_fn(T) -> Seq<char>)
    requires
        sorted_desc(s1, key),
        sorted_desc(s2, key),
        forall|k: Seq<char>| #[trigger] with_key(s1, key, k) == with_key(s2, key, k),
    ensures
        s1 == s2,
    decreases s1.len() + s2.len(),
{
    if s1.len() == 0 || s2.len() == 0 {
        if s1.len() > 0 {
            let k = key(s1.last());
            lemma_filter_push(s1.drop_last(), s1.last(), key_is(key, k));
            assert(s1.drop_last().push(s1.last()) =~= s1);
            assert(key_is(key, k)(s1.last()));
            assert(with_key(s1, key, k).len() > 0);
            reveal(Seq::filter);
            assert(with_key(s2, key, k).len() == 0);
            assert(with_key(s1, key, k) == with_key(s2, key, k));
            assert(false);
        }
        if s2.len() > 0 {
            let k = key(s2.last());
            lemma_filter_push(s2.drop_last(), s2.last(), key_is(key, k));
            assert(s2.drop_last().push(s2.last()) =~= s2);
            assert(key_is(key, k)(s2.last()));
            assert(with_key(s2, key, k).len() > 0);
            reveal(Seq::filter);
            assert(with_key(s1, key, k).len() == 0);
            assert(with_key(s1, key, k) == with_key(s2, key, k));
            assert(false);
        }
        assert(s1 =~= s2);
    } else {
        let a = s1.last();
        let b = s2.last();
        let ka = key(a);
        let kb = key(b);
        assert(s1.drop_last().push(a) =~= s1);
        assert(s2.drop_last().push(b) =~= s2);
        lemma_filter_push(s1.drop_last(), a, key_is(key, ka));
        lemma_filter_push(s2.drop_last(), b, key_is(key, kb));
        assert(with_key(s1, key, ka) == with_key(s2, key, ka));
        assert(with_key(s2, key, kb) == with_key(s1, key, kb));
        lemma_last_is_least(s2, key, ka);
        lemma_last_is_least(s1, key, kb);
        lemma_lex_total(ka, kb);
        assert(ka == kb);
        assert(a == with_key(s1, key, ka).last());
        assert(b == with_key(s2, key, kb).last());
        let d1 = s1.drop_last();
        let d2 = s2.drop_last();
        assert forall|k: Seq<char>| #[trigger] with_key(d1, key, k) == with_key(d2, key, k) by {
            lemma_filter_push(d1, a, key_is(key, k));
            lemma_filter_push(d2, b, key_is(key, k));
            assert(with_key(s1, key, k) == with_key(s2, key, k));
            if ka == k {
                assert(with_key(d1, key, k) =~= with_key(s1, key, k).drop_last());
                assert(with_key(d2, key, k) =~= with_key(s2, key, k).drop_last());
            }
        }
        assert forall|i: int, j: int| 0 <= i < j < d1.len() implies !lex_lt(
            #[trigger] key(d1[i]),
            #[trigger] key(d1[j]),
        ) by {
            assert(d1[i] == s1[i] && d1[j] == s1[j]);
        }
        assert forall|i: int, j: int| 0 <= i < j < d2.len() implies !lex_lt(
            #[trigger] key(d2[i]),
            #[trigger] key(d2[j]),
        ) by {
            assert(d2[i] == s2[i] && d2[j] == s2[j]);
        }
        lemma_stable_sort_unique(d1, d2, key);
    }
}

/// Any stable newest-first order of `s` is `newest_first(s)`.
pub proof fn lemma_newest_first<T>(r: Seq<T>, s: Seq<T>, key: spec_fn(T) -> Seq<char>)
    requires
        stable_sorted_desc(r, s, key),
    ensures
        newest_first(s, key) == r,
{
    let c = newest_first(s, key);
    assert(stable_sorted_desc(c, s, key));
    assert forall|k: Seq<char>| #[trigger] with_key(c, key, k) == with_key(r, key, k) by {
        assert(with_key(c, key, k) == with_key(s, key, k));
        assert(with_key(r, key, k) == with_key(s, key, k));
    }
    lemma_stable_sort_unique(c, r, key);
}


/// Where an item with key `k` goes in the sorted `out`: after the items whose keys are at
/// least `k`, before those whose keys are smaller.
proof fn lemma_insertion_point<T>(out: Seq<T>, k: Seq<char>, key: spec_fn(T) -> Seq<char>, p: int) -> (q: int)
    requires
        0 <= p <= out.len(),
        sorted_desc(out, key),
        forall|i: int| 0 <= i < p ==> !lex_lt(#[trigger] key(out[i]), k),
    ensures
        p <= q <= out.len(),
        forall|i: int| 0 <= i < q ==> !lex_lt(#[trigger] key(out[i]), k),
        forall|i: int| q <= i < out.len() ==> lex_lt(#[trigger] key(out[i]), k),
    decreases out.len() - p,
{
    if p == out.len() {
        p
    } else if lex_lt(key(out[p]), k) {
        assert forall|i: int| p <= i < out.len() implies lex_lt(#[trigger] key(out[i]), k) by {
            if i > p {
                assert(!lex_lt(key(out[p]), key(out[i])));
                lemma_lex_total(key(out[p]), key(out[i]));
                lemma_lex_transitive(key(out[i]), key(out[p]), k);
            }
        }
        p
    } else {
        lemma_insertion_point(out, k, key, p + 1)
    }
}

/// Every sequence has a stable newest-first order, so `newest_first(s)` is one.
pub proof fn lemma_newest_first_is_stable<T>(s: Seq<T>, key: spec_fn(T) -> Seq<char>)
    ensures
        stable_sorted_desc(newest_first(s, key), s, key),
    decreases s.len(),
{
    if s.len() == 0 {
        let e = Seq::<T>::empty();
        assert forall|k: Seq<char>| #[trigger] with_key(e, key, k) == with_key(s, key, k) by {
            assert(s =~= e);
        }
        assert(stable_sorted_desc(e, s, key));
    } else {
        let d = s.drop_last();
        let x = s.last();
        lemma_newest_first_is_stable(d, key);
        let out = newest_first(d, key);
        let p = lemma_insertion_point(out, key(x), key, 0);
        lemma_insert(out, x, p, key);
        let r = out.insert(p, x);
        assert forall|k: Seq<char>| #[trigger] with_key(r, key, k) == with_key(s, key, k) by {
            assert(d.push(x) =~= s);
            lemma_filter_push(d, x, key_is(key, k));
            assert(with_key(out, key, k) == with_key(d, key, k));
        }
        assert(stable_sorted_desc(r, s, key));
    }
}

/// Every item of a stable reordering of `s` is an item of `s`.
pub proof fn lemma_member_with_key<T>(r: Seq<T>, s: Seq<T>, key: spec_fn(T) -> Seq<char>, j: int)
    requires
        same_per_key(r, s, key),
        0 <= j < r.len(),
    ensures
        exists|i: int| 0 <= i < s.len() && s[i] == r[j],
{
    let x = r[j];
    let k = key(x);
    assert(key_is(key, k)(x));
    r.filter_lemma(key_is(key, k));
    assert(with_key(r, key, k).contains(x));
    assert(with_key(s, key, k).contains(x));
    lemma_filter_member(s, key_is(key, k), x);
}

proof fn lemma_filter_member<T>(s: Seq<T>, pred: spec_fn(T) -> bool, x: T)
    requires
        s.filter(pred).contains(x),
    ensures
        exists|i: int| 0 <= i < s.len() && s[i] == x,
    decreases s.len(),
{
    reveal(Seq::filter);
    if s.len() == 0 {
    } else if s.last() == x {
        assert(s[s.len() - 1] == x);
    } else {
        let f = s.drop_last().filter(pred);
        if pred(s.last()) {
            let k = choose|k: int| 0 <= k < s.filter(pred).len() && s.filter(pred)[k] == x;
            assert(k < f.len());
            assert(f[k] == x);
        }
        lemma_filter_member(s.drop_last(), pred, x);
        let i = choose|i: int| 0 <= i < s.drop_last().len() && s.drop_last()[i] == x;
        assert(s[i] == x);
    }
}

} // verus!
