//! Stable ordering of lists by text keys, as `sort_by_key` orders them.
//!
//! Keys compare as `str` does: lexicographically by character code point.
use vstd::prelude::*;

verus! {

/// `a < b` in the lexicographic order of code points (the order of `str`).
pub open spec fn text_lt(a: Seq<char>, b: Seq<char>) -> bool
    decreases a.len(),
{
    if a.len() == 0 {
        b.len() > 0
    } else if b.len() == 0 {
        false
    } else if a[0] != b[0] {
        (a[0] as int) < (b[0] as int)
    } else {
        text_lt(a.drop_first(), b.drop_first())
    }
}

/// Element `i` of a list comes before element `j` in a stable sort by `keys`:
/// a smaller key first, equal keys in their input order.
pub open spec fn ranked_before(keys: Seq<Seq<char>>, i: int, j: int) -> bool {
    text_lt(keys[i], keys[j]) || (keys[i] == keys[j] && i < j)
}

/// `order` lists the positions `0..keys.len()` in stable sorted order.
pub open spec fn is_stable_order(keys: Seq<Seq<char>>, order: Seq<usize>) -> bool {
    &&& order.len() == keys.len()
    &&& forall|i: int| 0 <= i < order.len() ==> #[trigger] order[i] < keys.len()
    &&& forall|i: int, j: int| 0 <= i < j < order.len() ==> ranked_before(keys, #[trigger] order[i] as int, #[trigger] order[j] as int)
}

pub proof fn lemma_text_lt_irreflexive(a: Seq<char>)
    ensures
        !text_lt(a, a),
    decreases a.len(),
{
    if a.len() > 0 {
        lemma_text_lt_irreflexive(a.drop_first());
    }
}

pub proof fn lemma_text_lt_trichotomy(a: Seq<char>, b: Seq<char>)
    ensures
        text_lt(a, b) || a == b || text_lt(b, a),
        !(text_lt(a, b) && text_lt(b, a)),
    decreases a.len(),
{
    if a.len() > 0 && b.len() > 0 && a[0] == b[0] {
        lemma_text_lt_trichotomy(a.drop_first(), b.drop_first());
        if a.drop_first() == b.drop_first() {
            assert forall|i: int| 0 <= i < a.len() implies a[i] == b[i] by {
                if i > 0 {
                    assert(a[i] == a.drop_first()[i - 1]);
                    assert(b[i] == b.drop_first()[i - 1]);
                }
            }
            assert(a.len() == b.len());
            assert(a =~= b);
        }
    } else if a.len() == 0 && b.len() == 0 {
        assert(a =~= b);
    } else if a.len() > 0 && b.len() > 0 {
        assert((a[0] as int) != (b[0] as int));
    }
}

pub proof fn lemma_text_lt_transitive(a: Seq<char>, b: Seq<char>, c: Seq<char>)
    requires
        text_lt(a, b),
        text_lt(b, c),
    ensures
        text_lt(a, c),
    decreases a.len(),
{
    if a.len() > 0 && b.len() > 0 && c.len() > 0 && a[0] == b[0] && b[0] == c[0] {
        lemma_text_lt_transitive(a.drop_first(), b.drop_first(), c.drop_first());
    }
}

/// Compares two texts (`a < b` as `str` compares them).
pub fn text_less(a: &Vec<char>, b: &Vec<char>) -> (less: bool)
    ensures
        less == text_lt(a@, b@),
{
    let mut i: usize = 0;
    assert(a@.skip(0) =~= a@);
    assert(b@.skip(0) =~= b@);
    while i < a.len() && i < b.len() && a[i] == b[i]
        invariant
            i <= a.len(),
            i <= b.len(),
            text_lt(a@, b@) == text_lt(a@.skip(i as int), b@.skip(i as int)),
        decreases a.len() - i,
    {
        assert(a@.skip(i as int).drop_first() =~= a@.skip(i + 1));
        assert(b@.skip(i as int).drop_first() =~= b@.skip(i + 1));
        i += 1;
    }
    if i == a.len() {
        i < b.len()
    } else if i == b.len() {
        false
    } else {
        a[i] < b[i]
    }
}

/// The positions of `keys` in stable sorted order: smaller keys first, equal
/// keys in their input order (what `sort_by_key` produces).
pub fn stable_order(keys: &Vec<Vec<char>>) -> (order: Vec<usize>)
    ensures
        is_stable_order(keys@.map_values(|k: Vec<char>| k@), order@),
{
    let ghost ks = keys@.map_values(|k: Vec<char>| k@);
    let mut order: Vec<usize> = Vec::new();
    let mut k: usize = 0;
    while k < keys.len()
        invariant
            ks == keys@.map_values(|k: Vec<char>| k@),
            k <= keys.len(),
            order@.len() == k,
            forall|i: int| 0 <= i < order@.len() ==> #[trigger] order@[i] < k,
            forall|i: int, j: int| 0 <= i < j < order@.len() ==> ranked_before(ks, #[trigger] order@[i] as int, #[trigger] order@[j] as int),
        decreases keys.len() - k,
    {
        let mut p: usize = 0;
        while p < order.len() && !text_less(&keys[k], &keys[order[p]])
            invariant
                ks == keys@.map_values(|k: Vec<char>| k@),
                k < keys.len(),
                p <= order@.len(),
                forall|i: int| 0 <= i < order@.len() ==> #[trigger] order@[i] < k,
                forall|q: int| 0 <= q < p ==> !text_lt(ks[k as int], ks[#[trigger] order@[q] as int]),
            decreases order@.len() - p,
        {
            p += 1;
        }
        let ghost before = order@;
        order.insert(p, k);
        proof {
            assert forall|i: int, j: int| 0 <= i < j < order@.len() implies ranked_before(ks, #[trigger] order@[i] as int, #[trigger] order@[j] as int) by {
                if j < p {
                    assert(order@[i] == before[i] && order@[j] == before[j]);
                } else if j == p {
                    let oi = before[i] as int;
                    assert(order@[i] == before[i]);
                    lemma_text_lt_trichotomy(ks[k as int], ks[oi]);
                } else if i == p {
                    let oj = before[j - 1] as int;
                    assert(order@[j] == before[j - 1]);
                    assert(text_lt(ks[k as int], ks[before[p as int] as int]));
                    if j - 1 > p {
                        assert(ranked_before(ks, before[p as int] as int, oj));
                        if text_lt(ks[before[p as int] as int], ks[oj]) {
                            lemma_text_lt_transitive(ks[k as int], ks[before[p as int] as int], ks[oj]);
                        }
                    }
                } else if i < p {
                    assert(order@[i] == before[i] && order@[j] == before[j - 1]);
                    assert(ranked_before(ks, before[i] as int, before[j - 1] as int));
                } else {
                    assert(order@[i] == before[i - 1] && order@[j] == before[j - 1]);
                    assert(ranked_before(ks, before[i - 1] as int, before[j - 1] as int));
                }
            }
        }
        k += 1;
    }
    order
}

} // verus!

verus! {

/// `keys` in stable order.
pub open spec fn stably_sorted<T>(items: Seq<T>, keys: Seq<Seq<char>>, sorted: Seq<T>) -> bool {
    exists|order: Seq<usize>| #[trigger] is_stable_order(keys, order) && sorted.len() == order.len()
        && forall|i: int| 0 <= i < order.len() ==> sorted[i] == items[#[trigger] order[i] as int]
}

/// The texts of a list of strings.
pub open spec fn texts(items: Seq<String>) -> Seq<Seq<char>> {
    items.map_values(|s: String| s@)
}

/// The lower-cased texts, as `sort_by_key(|s| s.to_lowercase())` compares them.
pub open spec fn lowercase_keys(items: Seq<Seq<char>>) -> Seq<Seq<char>> {
    items.map_values(|s: Seq<char>| crate::text::unicode_lowercase(s))
}

/// Sorts texts case-insensitively (by their Unicode lower-case form), keeping
/// the input order among equal keys.
pub fn sort_by_lowercase(items: Vec<String>) -> (sorted: Vec<String>)
    ensures
        stably_sorted(texts(items@), lowercase_keys(texts(items@)), texts(sorted@)),
{
    let mut keys: Vec<Vec<char>> = Vec::new();
    let mut i: usize = 0;
    while i < items.len()
        invariant
            i <= items.len(),
            keys@.len() == i,
            forall|j: int| 0 <= j < i ==> (#[trigger] keys@[j])@ == crate::text::unicode_lowercase(items@[j]@),
        decreases items.len() - i,
    {
        let lowered = crate::text::to_lowercase(items[i].as_str());
        keys.push(crate::text::chars_of(lowered.as_str()));
        i += 1;
    }
    assert(keys@.map_values(|k: Vec<char>| k@) =~= lowercase_keys(texts(items@)));
    let order = stable_order(&keys);
    let mut sorted: Vec<String> = Vec::new();
    let mut j: usize = 0;
    while j < order.len()
        invariant
            is_stable_order(lowercase_keys(texts(items@)), order@),
            order@.len() == items@.len(),
            j <= order.len(),
            sorted@.len() == j,
            forall|q: int| 0 <= q < j ==> sorted@[q] == items@[#[trigger] order@[q] as int],
        decreases order.len() - j,
    {
        sorted.push(items[order[j]].clone());
        j += 1;
    }
    assert(forall|i: int| 0 <= i < order@.len() ==> texts(sorted@)[i] == texts(items@)[#[trigger] order@[i] as int]);
    sorted
}

} // verus!

verus! {

/// `order` names each position of a list of length `n` at most once.
pub open spec fn is_arrangement(order: Seq<usize>, n: nat) -> bool {
    &&& order.len() == n
    &&& forall|i: int| 0 <= i < order.len() ==> #[trigger] order[i] < n
    &&& forall|i: int, j: int| 0 <= i < j < order.len() ==> #[trigger] order[i] != #[trigger] order[j]
}

/// A stable order names each position once.
pub proof fn lemma_stable_order_is_arrangement(keys: Seq<Seq<char>>, order: Seq<usize>)
    requires
        is_stable_order(keys, order),
    ensures
        is_arrangement(order, keys.len()),
{
    assert forall|i: int, j: int| 0 <= i < j < order.len() implies #[trigger] order[i] != #[trigger] order[j] by {
        assert(ranked_before(keys, order[i] as int, order[j] as int));
        if order[i] == order[j] {
            lemma_text_lt_irreflexive(keys[order[i] as int]);
        }
    }
}

/// The items rearranged: item `order[i]` goes to position `i`.
pub fn apply_order<T>(items: Vec<T>, order: &Vec<usize>) -> (arranged: Vec<T>)
    requires
        is_arrangement(order@, items@.len()),
    ensures
        arranged@.len() == items@.len(),
        forall|i: int| 0 <= i < arranged@.len() ==> arranged@[i] == items@[#[trigger] order@[i] as int],
{
    let n = items.len();
    let ghost input = items@;
    let mut rest = items;
    let mut slots: Vec<Option<T>> = Vec::new();
    while rest.len() > 0
        invariant
            rest@.len() + slots@.len() == n,
            n == input.len(),
            rest@ == input.take(rest@.len() as int),
            forall|j: int| 0 <= j < slots@.len() ==> #[trigger] slots@[j] == Some(input[n - 1 - j]),
        decreases rest@.len(),
    {
        let item = rest.pop().unwrap();
        slots.push(Some(item));
        assert(rest@ =~= input.take(rest@.len() as int));
    }
    let mut arranged: Vec<T> = Vec::new();
    let mut k: usize = 0;
    while k < order.len()
        invariant
            is_arrangement(order@, n as nat),
            n == input.len(),
            slots@.len() == n,
            k <= order.len(),
            arranged@.len() == k,
            forall|i: int| 0 <= i < k ==> arranged@[i] == input[#[trigger] order@[i] as int],
            forall|j: int| 0 <= j < n && (forall|i: int| 0 <= i < k ==> #[trigger] order@[i] != j) ==>
                #[trigger] slots@[n - 1 - j] == Some(input[j]),
        decreases order.len() - k,
    {
        let position = order[k];
        let index = n - 1 - position;
        assert(forall|i: int| 0 <= i < k ==> #[trigger] order@[i] != position) by {
            assert forall|i: int| 0 <= i < k implies #[trigger] order@[i] != position by {
                assert(order@[i] != order@[k as int]);
            }
        }
        let mut taken: Option<T> = None;
        std::mem::swap(&mut taken, &mut slots[index]);
        let item = taken.unwrap();
        arranged.push(item);
        proof {
            assert forall|j: int| 0 <= j < n && (forall|i: int| 0 <= i < k + 1 ==> #[trigger] order@[i] != j) implies
                #[trigger] slots@[n - 1 - j] == Some(input[j]) by {
                assert(order@[k as int] != j);
            }
        }
        k += 1;
    }
    arranged
}

} // verus!
