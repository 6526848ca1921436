//! Sorting: texts in dictionary order without repetition, and items by a
//! numeric key, largest first.

use vstd::prelude::*;

use crate::text::{self, chars_of, copy};

verus! {

/// Dictionary order of texts, by the numeric value of their characters.
pub open spec fn text_lt(a: Seq<char>, b: Seq<char>) -> bool
    decreases b.len(),
{
    if b.len() == 0 {
        false
    } else if a.len() == 0 {
        true
    } else {
        a[0] < b[0] || (a[0] == b[0] && text_lt(a.skip(1), b.skip(1)))
    }
}

/// Each text comes before the next ones, so none occurs twice.
pub open spec fn increasing(texts: Seq<Seq<char>>) -> bool {
    forall|i: int, j: int|
        0 <= i < j < texts.len() ==> #[trigger] text_lt(texts[i], texts[j])
}

/// `sorted` holds exactly the texts of `texts`, each once, in dictionary
/// order.
pub open spec fn sorted_set_of(sorted: Seq<Seq<char>>, texts: Seq<Seq<char>>) -> bool {
    &&& increasing(sorted)
    &&& forall|t: Seq<char>| #[trigger] sorted.contains(t) <==> texts.contains(t)
}

/// `perm` lists the positions below `keys.len()`, each once, by falling key;
/// positions with equal keys keep their order.
pub open spec fn falling_positions(perm: Seq<int>, keys: Seq<int>) -> bool {
    &&& perm.len() == keys.len()
    &&& forall|i: int| 0 <= i < perm.len() ==> 0 <= #[trigger] perm[i] < keys.len()
    &&& forall|i: int, j: int|
        0 <= i < j < perm.len() ==> falls(keys, #[trigger] perm[i], #[trigger] perm[j])
}

/// Position `a` comes before position `b` when sorting by falling key.
pub open spec fn falls(keys: Seq<int>, a: int, b: int) -> bool {
    keys[a] > keys[b] || (keys[a] == keys[b] && a < b)
}

/// `res` holds the items of `items` by falling key, items with equal keys in
/// their old order.
pub open spec fn sorted_falling<T>(res: Seq<T>, items: Seq<T>, keys: Seq<int>) -> bool {
    exists|perm: Seq<int>| #[trigger]
        falling_positions(perm, keys) && res == perm.map_values(|p: int| items[p])
}

pub proof fn lemma_lt_irreflexive(a: Seq<char>)
    ensures
        !text_lt(a, a),
    decreases a.len(),
{
    if a.len() > 0 {
        lemma_lt_irreflexive(a.skip(1));
    }
}

pub proof fn lemma_lt_transitive(a: Seq<char>, b: Seq<char>, c: Seq<char>)
    requires
        text_lt(a, b),
        text_lt(b, c),
    ensures
        text_lt(a, c),
    decreases b.len(),
{
    if a.len() > 0 && b.len() > 0 && c.len() > 0 && a[0] == b[0] && b[0] == c[0] {
        lemma_lt_transitive(a.skip(1), b.skip(1), c.skip(1));
    }
}

pub proof fn lemma_lt_total(a: Seq<char>, b: Seq<char>)
    ensures
        a == b || text_lt(a, b) || text_lt(b, a),
    decreases a.len(),
{
    if a.len() > 0 && b.len() > 0 && a[0] == b[0] {
        lemma_lt_total(a.skip(1), b.skip(1));
        if a.skip(1) == b.skip(1) {
            assert(a == seq![a[0]] + a.skip(1));
            assert(b == seq![b[0]] + b.skip(1));
        }
    } else if a.len() == 0 && b.len() == 0 {
        assert(a == b);
    }
}

/// Two sorted sets of the same texts are the same sequence.
pub proof fn lemma_sorted_set_unique(a: Seq<Seq<char>>, b: Seq<Seq<char>>, texts: Seq<Seq<char>>)
    requires
        sorted_set_of(a, texts),
        sorted_set_of(b, texts),
    ensures
        a == b,
    decreases a.len(),
{
    if a.len() == 0 {
        if b.len() > 0 {
            assert(b.contains(b[0]));
            assert(a.contains(b[0]));
        }
        assert(a == b);
    } else if b.len() == 0 {
        assert(a.contains(a[0]));
        assert(b.contains(a[0]));
    } else {
        let x = a.last();
        let y = b.last();
        assert(a.contains(x) && b.contains(y));
        assert(b.contains(x) && a.contains(y));
        let i = choose|i: int| 0 <= i < b.len() && b[i] == x;
        let j = choose|j: int| 0 <= j < a.len() && a[j] == y;
        if x != y {
            assert(text_lt(b[i], b[b.len() - 1]));
            assert(text_lt(a[j], a[a.len() - 1]));
            lemma_lt_transitive(x, y, x);
            lemma_lt_irreflexive(x);
        }
        let front = a.drop_last();
        let back = b.drop_last();
        assert(increasing(front)) by {
            assert forall|p: int, q: int| 0 <= p < q < front.len() implies #[trigger] text_lt(
                front[p],
                front[q],
            ) by {
                assert(text_lt(a[p], a[q]));
            }
        }
        assert(increasing(back)) by {
            assert forall|p: int, q: int| 0 <= p < q < back.len() implies #[trigger] text_lt(
                back[p],
                back[q],
            ) by {
                assert(text_lt(b[p], b[q]));
            }
        }
        assert forall|t: Seq<char>| #[trigger] back.contains(t) <==> front.contains(t) by {
            if back.contains(t) {
                let p = choose|p: int| 0 <= p < back.len() && back[p] == t;
                assert(b[p] == t);
                assert(b.contains(t));
                assert(texts.contains(t));
                assert(a.contains(t));
                assert(text_lt(b[p], b[b.len() - 1]));
                lemma_lt_irreflexive(t);
                let q = choose|q: int| 0 <= q < a.len() && a[q] == t;
                assert(front[q] == t);
            }
            if front.contains(t) {
                let p = choose|p: int| 0 <= p < front.len() && front[p] == t;
                assert(a[p] == t);
                assert(a.contains(t));
                assert(texts.contains(t));
                assert(b.contains(t));
                assert(text_lt(a[p], a[a.len() - 1]));
                lemma_lt_irreflexive(t);
                let q = choose|q: int| 0 <= q < b.len() && b[q] == t;
                assert(back[q] == t);
            }
        }
        lemma_sorted_set_unique(front, back, front);
        assert(a == front.push(x));
        assert(b == back.push(y));
    }
}

/// Whether `a` comes before `b` in dictionary order.
pub fn text_less(a: &str, b: &str) -> (res: bool)
    ensures
        res == text_lt(a@, b@),
{
    let left = chars_of(a);
    let right = chars_of(b);
    let mut i: usize = 0;
    assert(a@.skip(0) == a@ && b@.skip(0) == b@);
    while i < left.len() && i < right.len() && left[i] == right[i]
        invariant
            i <= left@.len(),
            i <= right@.len(),
            left@ == a@,
            right@ == b@,
            text_lt(a@, b@) == text_lt(a@.skip(i as int), b@.skip(i as int)),
        decreases left@.len() - i,
    {
        assert(a@.skip(i as int).skip(1) == a@.skip(i + 1));
        assert(b@.skip(i as int).skip(1) == b@.skip(i + 1));
        i = i + 1;
    }
    if i == right.len() {
        false
    } else if i == left.len() {
        true
    } else {
        left[i] < right[i]
    }
}

/// The texts of `texts`, each once, in dictionary order.
pub fn sorted_set(texts: &Vec<String>) -> (res: Vec<String>)
    ensures
        sorted_set_of(text::views(res@), text::views(texts@)),
{
    let mut out: Vec<String> = Vec::new();
    let mut k: usize = 0;
    let ghost all = text::views(texts@);
    while k < texts.len()
        invariant
            k <= texts@.len(),
            all == text::views(texts@),
            sorted_set_of(text::views(out@), all.take(k as int)),
        decreases texts@.len() - k,
    {
        insert_text(&mut out, texts[k].as_str(), Ghost(all.take(k as int)));
        assert(all.take(k as int).push(texts@[k as int]@) == all.take(k + 1));
        k = k + 1;
    }
    assert(all.take(k as int) == all);
    out
}

/// Put `text` in its place in a sorted set, unless it is there already.
fn insert_text(out: &mut Vec<String>, text: &str, Ghost(texts): Ghost<Seq<Seq<char>>>)
    requires
        sorted_set_of(text::views(old(out)@), texts),
    ensures
        sorted_set_of(text::views(final(out)@), texts.push(text@)),
{
    let ghost before = text::views(out@);
    let mut p: usize = 0;
    while p < out.len() && text_less(out[p].as_str(), text)
        invariant
            p <= out@.len(),
            before == text::views(out@),
            forall|i: int| 0 <= i < p ==> #[trigger] text_lt(before[i], text@),
        decreases out@.len() - p,
    {
        p = p + 1;
    }
    let present: bool = p < out.len() && !text_less(text, out[p].as_str());
    proof {
        assert forall|t: Seq<char>| #[trigger] texts.push(text@).contains(t) <==> (texts.contains(t)
            || t == text@) by {
            if texts.contains(t) {
                let i = choose|i: int| 0 <= i < texts.len() && texts[i] == t;
                assert(texts.push(text@)[i] == t);
            }
            if t == text@ {
                assert(texts.push(text@)[texts.len() as int] == t);
            }
        }
        if p < out@.len() {
            lemma_lt_total(before[p as int], text@);
        }
    }
    if present {
        assert(before[p as int] == text@);
        assert(before.contains(text@));
    } else {
        out.insert(p, copy(text));
        proof {
            let after = text::views(out@);
            assert(after =~= before.insert(p as int, text@));
            assert forall|i: int, j: int| 0 <= i < j < after.len() implies #[trigger] text_lt(
                after[i],
                after[j],
            ) by {
                if i < p && j < p {
                    assert(text_lt(before[i], before[j]));
                } else if i < p && j == p {
                } else if i < p {
                    assert(text_lt(before[i], before[j - 1]));
                } else if i == p {
                    assert(text_lt(text@, before[p as int]));
                    if j - 1 > p {
                        assert(text_lt(before[p as int], before[j - 1]));
                        lemma_lt_transitive(text@, before[p as int], before[j - 1]);
                    }
                } else {
                    assert(text_lt(before[i - 1], before[j - 1]));
                }
            }
            assert forall|t: Seq<char>| #[trigger] after.contains(t) <==> texts.push(
                text@,
            ).contains(t) by {
                if after.contains(t) {
                    let i = choose|i: int| 0 <= i < after.len() && after[i] == t;
                    if i < p {
                        assert(before[i] == t && before.contains(t));
                    } else if i > p {
                        assert(before[i - 1] == t && before.contains(t));
                    }
                }
                if texts.contains(t) {
                    assert(before.contains(t));
                    let i = choose|i: int| 0 <= i < before.len() && before[i] == t;
                    if i < p {
                        assert(after[i] == t);
                    } else {
                        assert(after[i + 1] == t);
                    }
                }
                if t == text@ {
                    assert(after[p as int] == t);
                }
            }
        }
    }
}

/// `perm` lists the positions below `keys.len()`, each once, in dictionary
/// order of their keys; positions with equal keys keep their order.
pub open spec fn rising_positions(perm: Seq<int>, keys: Seq<Seq<char>>) -> bool {
    &&& perm.len() == keys.len()
    &&& forall|i: int| 0 <= i < perm.len() ==> 0 <= #[trigger] perm[i] < keys.len()
    &&& forall|i: int, j: int|
        0 <= i < j < perm.len() ==> rises(keys, #[trigger] perm[i], #[trigger] perm[j])
}

/// Position `a` comes before position `b` when sorting by dictionary order.
pub open spec fn rises(keys: Seq<Seq<char>>, a: int, b: int) -> bool {
    text_lt(keys[a], keys[b]) || (keys[a] == keys[b] && a < b)
}

/// `res` holds the items of `items` in dictionary order of their keys, items
/// with equal keys in their old order.
pub open spec fn sorted_rising<T>(res: Seq<T>, items: Seq<T>, keys: Seq<Seq<char>>) -> bool {
    exists|perm: Seq<int>| #[trigger]
        rising_positions(perm, keys) && res == perm.map_values(|p: int| items[p])
}

/// Sort `items` in dictionary order of their keys; items with equal keys keep
/// their order.
pub fn sort_rising<T>(items: Vec<T>, keys: &Vec<String>) -> (res: Vec<T>)
    requires
        items@.len() == keys@.len(),
    ensures
        sorted_rising(res@, items@, text::views(keys@)),
{
    let ghost all = items@;
    let ghost values = text::views(keys@);
    let n: usize = keys.len();
    let mut rest = items;
    let mut out: Vec<T> = Vec::new();
    let mut places: Vec<usize> = Vec::new();
    let ghost mut perm: Seq<int> = Seq::empty();
    let mut k: usize = 0;
    assert(all.skip(0) == all);
    while k < n
        invariant
            k <= n,
            n == keys@.len(),
            all.len() == n,
            rest@ == all.skip(k as int),
            values == text::views(keys@),
            perm.len() == k,
            out@.len() == k,
            places@.len() == k,
            forall|i: int|
                0 <= i < k ==> 0 <= #[trigger] perm[i] < k && out@[i] == all[perm[i]]
                    && places@[i] == perm[i],
            forall|i: int, j: int|
                0 <= i < j < k ==> rises(values, #[trigger] perm[i], #[trigger] perm[j]),
        decreases n - k,
    {
        let item: T = rest.remove(0);
        let mut p: usize = 0;
        assert forall|i: int| 0 <= i < k implies #[trigger] places@[i] < k by {
            assert(perm[i] < k);
        }
        while p < places.len() && !text_less(keys[k].as_str(), keys[places[p]].as_str())
            invariant
                p <= places@.len(),
                places@.len() == k,
                k < n,
                n == keys@.len(),
                values == text::views(keys@),
                perm.len() == k,
                forall|i: int|
                    0 <= i < k ==> 0 <= #[trigger] perm[i] < k && places@[i] == perm[i],
                forall|i: int| 0 <= i < k ==> #[trigger] places@[i] < k,
                forall|i: int| 0 <= i < p ==> !text_lt(values[k as int], values[#[trigger] perm[i]]),
            decreases places@.len() - p,
        {
            p = p + 1;
        }
        let ghost old_perm = perm;
        proof {
            perm = perm.insert(p as int, k as int);
            assert forall|i: int, j: int| 0 <= i < j < k + 1 implies rises(
                values,
                #[trigger] perm[i],
                #[trigger] perm[j],
            ) by {
                let a = if i < p {
                    i
                } else {
                    i - 1
                };
                let b = if j < p {
                    j
                } else {
                    j - 1
                };
                if i != p && j != p {
                    assert(perm[i] == old_perm[a] && perm[j] == old_perm[b]);
                } else if j == p {
                    assert(perm[i] == old_perm[i]);
                    assert(!text_lt(values[k as int], values[old_perm[i]]));
                    lemma_lt_total(values[k as int], values[old_perm[i]]);
                } else {
                    assert(perm[j] == old_perm[b]);
                    assert(text_lt(values[k as int], values[old_perm[p as int]]));
                    if b > p {
                        assert(rises(values, old_perm[p as int], old_perm[b]));
                        if text_lt(values[old_perm[p as int]], values[old_perm[b]]) {
                            lemma_lt_transitive(
                                values[k as int],
                                values[old_perm[p as int]],
                                values[old_perm[b]],
                            );
                        }
                    }
                }
            }
        }
        out.insert(p, item);
        places.insert(p, k);
        proof {
            assert forall|i: int| 0 <= i < k + 1 implies 0 <= #[trigger] perm[i] < k + 1
                && out@[i] == all[perm[i]] && places@[i] == perm[i] by {
                if i < p {
                    assert(perm[i] == old_perm[i]);
                } else if i > p {
                    assert(perm[i] == old_perm[i - 1]);
                }
            }
        }
        k = k + 1;
        assert(rest@ == all.skip(k as int));
    }
    proof {
        assert(out@ =~= perm.map_values(|p: int| all[p]));
        assert(rising_positions(perm, values));
    }
    out
}

/// Sorting keeps exactly the items.
pub proof fn lemma_sorted_rising_items<T>(res: Seq<T>, items: Seq<T>, keys: Seq<Seq<char>>)
    requires
        sorted_rising(res, items, keys),
        items.len() == keys.len(),
    ensures
        res.len() == items.len(),
        forall|x: T| #[trigger] res.contains(x) <==> items.contains(x),
{
    let perm = choose|perm: Seq<int>| #[trigger]
        rising_positions(perm, keys) && res == perm.map_values(|p: int| items[p]);
    lemma_positions_cover(perm, keys);
    assert forall|x: T| #[trigger] res.contains(x) <==> items.contains(x) by {
        if res.contains(x) {
            let i = choose|i: int| 0 <= i < res.len() && res[i] == x;
            assert(items[perm[i]] == x);
        }
        if items.contains(x) {
            let p = choose|p: int| 0 <= p < items.len() && items[p] == x;
            assert(perm.contains(p));
            let i = choose|i: int| 0 <= i < perm.len() && perm[i] == p;
            assert(res[i] == x);
        }
    }
}

/// A list of positions in rising order leaves none out.
proof fn lemma_positions_cover(perm: Seq<int>, keys: Seq<Seq<char>>)
    requires
        rising_positions(perm, keys),
    ensures
        forall|p: int| 0 <= p < keys.len() ==> #[trigger] perm.contains(p),
{
    assert(perm.no_duplicates()) by {
        assert forall|i: int, j: int|
            0 <= i < perm.len() && 0 <= j < perm.len() && i != j implies perm[i] != perm[j] by {
            if i < j {
                assert(rises(keys, perm[i], perm[j]));
                lemma_lt_irreflexive(keys[perm[i]]);
            } else {
                assert(rises(keys, perm[j], perm[i]));
                lemma_lt_irreflexive(keys[perm[j]]);
            }
        }
    }
    let all = vstd::set_lib::set_int_range(0, keys.len() as int);
    let hit = perm.to_set();
    vstd::set_lib::lemma_int_range(0, keys.len() as int);
    perm.unique_seq_to_set();
    vstd::seq_lib::seq_to_set_is_finite(perm);
    assert(hit.subset_of(all));
    vstd::set_lib::lemma_subset_equality(hit, all);
    assert forall|p: int| 0 <= p < keys.len() implies #[trigger] perm.contains(p) by {
        assert(all.contains(p));
        assert(hit.contains(p));
    }
}

/// The keys of a list as mathematical integers.
pub open spec fn key_values(keys: Seq<i128>) -> Seq<int> {
    keys.map_values(|k: i128| k as int)
}

/// Sort `items` by falling key; items with equal keys keep their order.
pub fn sort_falling<T>(items: Vec<T>, keys: &Vec<i128>) -> (res: Vec<T>)
    requires
        items@.len() == keys@.len(),
    ensures
        sorted_falling(res@, items@, key_values(keys@)),
{
    let ghost all = items@;
    let ghost values = key_values(keys@);
    let mut rest = items;
    let mut out: Vec<T> = Vec::new();
    let mut out_keys: Vec<i128> = Vec::new();
    let ghost mut perm: Seq<int> = Seq::empty();
    let mut k: usize = 0;
    assert(all.skip(0) == all);
    while rest.len() > 0
        invariant
            k <= keys@.len(),
            all.len() == keys@.len(),
            rest@ == all.skip(k as int),
            values == key_values(keys@),
            perm.len() == k,
            out@.len() == k,
            out_keys@.len() == k,
            forall|i: int|
                0 <= i < k ==> 0 <= #[trigger] perm[i] < k && out@[i] == all[perm[i]]
                    && out_keys@[i] == values[perm[i]],
            forall|i: int, j: int|
                0 <= i < j < k ==> falls(values, #[trigger] perm[i], #[trigger] perm[j]),
        decreases rest@.len(),
    {
        assert(rest@.len() == all.len() - k);
        let key: i128 = keys[k];
        let item: T = rest.remove(0);
        let mut p: usize = 0;
        while p < out_keys.len() && out_keys[p] >= key
            invariant
                p <= out_keys@.len(),
                out_keys@.len() == k,
                forall|i: int| 0 <= i < p ==> out_keys@[i] >= key,
            decreases out_keys@.len() - p,
        {
            p = p + 1;
        }
        let ghost old_perm = perm;
        proof {
            assert(values[k as int] == key);
            perm = perm.insert(p as int, k as int);
            assert forall|i: int, j: int| 0 <= i < j < k + 1 implies falls(
                values,
                #[trigger] perm[i],
                #[trigger] perm[j],
            ) by {
                let a = if i < p {
                    i
                } else {
                    i - 1
                };
                let b = if j < p {
                    j
                } else {
                    j - 1
                };
                if i != p && j != p {
                    assert(perm[i] == old_perm[a] && perm[j] == old_perm[b]);
                } else if j == p {
                    assert(perm[i] == old_perm[i]);
                    assert(out_keys@[i] >= key);
                } else {
                    assert(perm[j] == old_perm[b]);
                    if b > p {
                        assert(falls(values, old_perm[p as int], old_perm[b]));
                    }
                }
            }
        }
        out.insert(p, item);
        out_keys.insert(p, key);
        proof {
            assert forall|i: int| 0 <= i < k + 1 implies 0 <= #[trigger] perm[i] < k + 1
                && out@[i] == all[perm[i]] && out_keys@[i] == values[perm[i]] by {
                if i < p {
                    assert(perm[i] == old_perm[i]);
                } else if i > p {
                    assert(perm[i] == old_perm[i - 1]);
                }
            }
        }
        let n: usize = keys.len();
        assert(k < n);
        k = k + 1;
        assert(rest@ == all.skip(k as int));
    }
    proof {
        assert(k == all.len());
        assert(out@ =~= perm.map_values(|p: int| all[p]));
        assert(falling_positions(perm, values));
    }
    out
}

// ---------------------------------------------------------------------------
// Laws

/// Texts are compared where they first differ, by code point; a text comes
/// before every longer text that begins with it.
pub proof fn law_first_difference_decides(a: Seq<char>, b: Seq<char>, k: int)
    requires
        0 <= k <= a.len(),
        k <= b.len(),
        a.take(k) == b.take(k),
    ensures
        k < a.len() && k < b.len() && a[k] < b[k] ==> text_lt(a, b) && !text_lt(b, a),
        k == a.len() && k < b.len() ==> text_lt(a, b) && !text_lt(b, a),
    decreases k,
{
    if k > 0 {
        assert(a[0] == a.take(k)[0] && b[0] == b.take(k)[0]);
        assert(a.skip(1).take(k - 1) =~= a.take(k).skip(1));
        assert(b.skip(1).take(k - 1) =~= b.take(k).skip(1));
        law_first_difference_decides(a.skip(1), b.skip(1), k - 1);
    }
}

/// Sorting by falling key puts no smaller key before a larger one, keeps items
/// with equal keys in their order, and keeps every item.
pub proof fn law_falling_order(perm: Seq<int>, keys: Seq<int>, i: int, j: int, p: int)
    requires
        falling_positions(perm, keys),
        0 <= i < j < perm.len(),
    ensures
        keys[perm[i]] >= keys[perm[j]],
        keys[perm[i]] == keys[perm[j]] ==> perm[i] < perm[j],
        0 <= p < keys.len() ==> perm.contains(p),
{
    assert(falls(keys, perm[i], perm[j]));
    if 0 <= p < keys.len() {
        assert forall|a: int, b: int|
            0 <= a < perm.len() && 0 <= b < perm.len() && a != b implies perm[a] != perm[b] by {
            if a < b {
                assert(falls(keys, perm[a], perm[b]));
            } else {
                assert(falls(keys, perm[b], perm[a]));
            }
        }
        lemma_every_position_occurs(perm, p);
    }
}

/// Sorting in dictionary order puts no later text before an earlier one, keeps
/// items with equal keys in their order, and keeps every item.
pub proof fn law_rising_order(perm: Seq<int>, keys: Seq<Seq<char>>, i: int, j: int, p: int)
    requires
        rising_positions(perm, keys),
        0 <= i < j < perm.len(),
    ensures
        !text_lt(keys[perm[j]], keys[perm[i]]),
        keys[perm[i]] == keys[perm[j]] ==> perm[i] < perm[j],
        0 <= p < keys.len() ==> perm.contains(p),
{
    assert(rises(keys, perm[i], perm[j]));
    lemma_lt_irreflexive(keys[perm[i]]);
    if text_lt(keys[perm[j]], keys[perm[i]]) && text_lt(keys[perm[i]], keys[perm[j]]) {
        lemma_lt_transitive(keys[perm[i]], keys[perm[j]], keys[perm[i]]);
    }
    if 0 <= p < keys.len() {
        assert forall|a: int, b: int|
            0 <= a < perm.len() && 0 <= b < perm.len() && a != b implies perm[a] != perm[b] by {
            if a < b {
                assert(rises(keys, perm[a], perm[b]));
            } else {
                assert(rises(keys, perm[b], perm[a]));
            }
            lemma_lt_irreflexive(keys[perm[a]]);
        }
        lemma_every_position_occurs(perm, p);
    }
}

proof fn lemma_every_position_occurs(perm: Seq<int>, p: int)
    requires
        perm.no_duplicates(),
        forall|i: int| 0 <= i < perm.len() ==> 0 <= #[trigger] perm[i] < perm.len(),
        0 <= p < perm.len(),
    ensures
        perm.contains(p),
{
    let all = vstd::set_lib::set_int_range(0, perm.len() as int);
    vstd::set_lib::lemma_int_range(0, perm.len() as int);
    perm.unique_seq_to_set();
    assert(perm.to_set().subset_of(all));
    vstd::set_lib::lemma_len_subset(perm.to_set(), all);
    vstd::set_lib::lemma_subset_equality(perm.to_set(), all);
    assert(all.contains(p));
}

} // verus!
