//! Ordering texts as the standard library orders strings, by code point,
//! and the stable order of a list of texts.

use vstd::prelude::*;

verus! {

/// `a` stands before `b` in the order of strings: at the first place where
/// they differ `a` has the smaller code point, or `a` ends there and `b`
/// goes on.
pub open spec fn precedes(a: Seq<char>, b: Seq<char>) -> bool
    decreases a.len(),
{
    if b.len() == 0 {
        false
    } else if a.len() == 0 {
        true
    } else if a[0] != b[0] {
        (a[0] as u32) < (b[0] as u32)
    } else {
        precedes(a.drop_first(), b.drop_first())
    }
}

proof fn lemma_codes_differ(x: char, y: char)
    ensures
        x != y ==> x as u32 != y as u32,
{
}

/// Of two texts one stands before the other, or they are the same.
pub proof fn lemma_precedes_total(a: Seq<char>, b: Seq<char>)
    ensures
        precedes(a, b) || precedes(b, a) || a == b,
        !(precedes(a, b) && precedes(b, a)),
        !precedes(a, a),
    decreases a.len(),
{
    if a.len() != 0 && b.len() != 0 && a[0] == b[0] {
        lemma_precedes_total(a.drop_first(), b.drop_first());
        if a.drop_first() == b.drop_first() {
            assert(a =~= seq![a[0]] + a.drop_first());
            assert(b =~= seq![b[0]] + b.drop_first());
        }
    } else if a.len() == 0 && b.len() == 0 {
        assert(a =~= b);
    } else if a.len() != 0 && b.len() != 0 {
        lemma_codes_differ(a[0], b[0]);
    }
    if a.len() != 0 {
        lemma_precedes_total(a.drop_first(), a.drop_first());
    }
}

/// The order of texts is transitive.
pub proof fn lemma_precedes_transitive(a: Seq<char>, b: Seq<char>, c: Seq<char>)
    requires
        precedes(a, b),
        precedes(b, c),
    ensures
        precedes(a, c),
    decreases a.len(),
{
    if a.len() != 0 && a[0] == b[0] && b[0] == c[0] {
        lemma_precedes_transitive(a.drop_first(), b.drop_first(), c.drop_first());
    }
}

/// Decides `precedes`.
pub fn comes_before(a: &Vec<char>, b: &Vec<char>) -> (r: bool)
    ensures
        r == precedes(a@, b@),
{
    let mut i: usize = 0;
    assert(a@.skip(0) == a@ && b@.skip(0) == b@);
    while i < a.len() && i < b.len()
        invariant
            i <= a.len(),
            i <= b.len(),
            precedes(a@, b@) == precedes(a@.skip(i as int), b@.skip(i as int)),
        decreases a.len() - i,
    {
        let ghost x = a@.skip(i as int);
        let ghost y = b@.skip(i as int);
        assert(x[0] == a@[i as int] && y[0] == b@[i as int]);
        if a[i] != b[i] {
            return (a[i] as u32) < (b[i] as u32);
        }
        assert(x.drop_first() == a@.skip(i + 1));
        assert(y.drop_first() == b@.skip(i + 1));
        i += 1;
    }
    i < b.len()
}

/// The texts of a list of character vectors.
pub open spec fn texts(keys: Seq<Vec<char>>) -> Seq<Seq<char>> {
    keys.map_values(|k: Vec<char>| k@)
}

/// In a sorted list, the item at index `a` of the unsorted one stands
/// before the item at index `b`: its key is smaller, or the keys are the
/// same and it came first.
pub open spec fn goes_before(keys: Seq<Seq<char>>, a: int, b: int) -> bool {
    precedes(keys[a], keys[b]) || (keys[a] == keys[b] && a < b)
}

/// `order` lists the indices of `keys`, each once, sorted by key, with
/// equal keys in the order in which they stand in `keys`.
pub open spec fn sorts(keys: Seq<Seq<char>>, order: Seq<usize>) -> bool {
    &&& order.len() == keys.len()
    &&& forall|i: int| 0 <= i < order.len() ==> (#[trigger] order[i]) < keys.len()
    &&& forall|k: int| 0 <= k < keys.len() ==> order.contains(#[trigger] (k as usize))
    &&& forall|i: int, j: int|
        0 <= i < j < order.len() ==> goes_before(keys, #[trigger] order[i] as int, #[trigger] order[j] as int)
}

proof fn lemma_goes_before_transitive(keys: Seq<Seq<char>>, a: int, b: int, c: int)
    requires
        0 <= a < keys.len(),
        0 <= b < keys.len(),
        0 <= c < keys.len(),
        goes_before(keys, a, b),
        goes_before(keys, b, c),
    ensures
        goes_before(keys, a, c),
{
    if precedes(keys[a], keys[b]) && precedes(keys[b], keys[c]) {
        lemma_precedes_transitive(keys[a], keys[b], keys[c]);
    }
}

/// The stable sorted order of `keys`.
pub fn sorted_order(keys: &Vec<Vec<char>>) -> (order: Vec<usize>)
    ensures
        sorts(texts(keys@), order@),
{
    let ghost ks = texts(keys@);
    let mut order: Vec<usize> = Vec::new();
    let mut x: usize = 0;
    while x < keys.len()
        invariant
            x <= keys.len(),
            ks == texts(keys@),
            order.len() == x,
            forall|i: int| 0 <= i < order.len() ==> (#[trigger] order@[i]) < x,
            forall|k: int| 0 <= k < x ==> order@.contains(#[trigger] (k as usize)),
            forall|i: int, j: int|
                0 <= i < j < order.len() ==> goes_before(
                    ks,
                    #[trigger] order@[i] as int,
                    #[trigger] order@[j] as int,
                ),
        decreases keys.len() - x,
    {
        // Find the place of x: behind every item that does not stand after it.
        let mut p: usize = order.len();
        while p > 0 && comes_before(&keys[x], &keys[order[p - 1]])
            invariant
                p <= order.len(),
                x < keys.len(),
                ks == texts(keys@),
                order.len() == x,
                forall|i: int| 0 <= i < order.len() ==> (#[trigger] order@[i]) < x,
                forall|j: int|
                    p <= j < order.len() ==> precedes(ks[x as int], ks[(#[trigger] order@[j]) as int]),
            decreases p,
        {
            p -= 1;
        }
        let ghost before = order@;
        proof {
            if p > 0 {
                let q = before[p - 1] as int;
                assert(!precedes(ks[x as int], ks[q]));
                lemma_precedes_total(ks[x as int], ks[q]);
                assert(goes_before(ks, q, x as int));
                assert forall|i: int| 0 <= i < p implies goes_before(
                    ks,
                    #[trigger] before[i] as int,
                    x as int,
                ) by {
                    if i < p - 1 {
                        lemma_goes_before_transitive(ks, before[i] as int, q, x as int);
                    }
                }
            }
        }
        order.insert(p, x);
        proof {
            let after = order@;
            assert forall|i: int, j: int| 0 <= i < j < after.len() implies goes_before(
                ks,
                #[trigger] after[i] as int,
                #[trigger] after[j] as int,
            ) by {
                if j < p {
                    assert(after[i] == before[i] && after[j] == before[j]);
                } else if j == p {
                    assert(after[i] == before[i]);
                } else if i < p {
                    assert(after[i] == before[i] && after[j] == before[j - 1]);
                } else if i == p {
                    assert(after[j] == before[j - 1]);
                } else {
                    assert(after[i] == before[i - 1] && after[j] == before[j - 1]);
                }
            }
            assert forall|k: int| 0 <= k < x + 1 implies after.contains(#[trigger] (k as usize)) by {
                if k == x {
                    assert(after[p as int] == x);
                } else {
                    assert(before.contains(k as usize));
                    let i = choose|i: int| 0 <= i < before.len() && before[i] == k as usize;
                    if i < p {
                        assert(after[i] == before[i]);
                    } else {
                        assert(after[i + 1] == before[i]);
                    }
                }
            }
            assert forall|i: int| 0 <= i < after.len() implies (#[trigger] after[i]) < x + 1 by {
                if i < p {
                    assert(after[i] == before[i]);
                } else if i > p {
                    assert(after[i] == before[i - 1]);
                }
            }
        }
        x += 1;
    }
    order
}

} // verus!
