//! Ordering by text keys: the order of texts, and a stable ordering of
//! items by a pair of texts.

use vstd::prelude::*;

verus! {

/// Whether `a` comes before `b` in the order of texts: by the code of
/// the first character in which they differ; a text comes before its
/// extensions. The comparison starts at index `i`.
pub open spec fn text_before(a: Seq<char>, b: Seq<char>, i: int) -> bool
    decreases b.len() - i,
{
    if i < 0 || i >= b.len() {
        false
    } else if i >= a.len() {
        true
    } else if (a[i] as u32) < (b[i] as u32) {
        true
    } else if (a[i] as u32) > (b[i] as u32) {
        false
    } else {
        text_before(a, b, i + 1)
    }
}

/// Whether one key comes before another: by its first text, then by its
/// second.
pub open spec fn key_before(a: (Seq<char>, Seq<char>), b: (Seq<char>, Seq<char>)) -> bool {
    text_before(a.0, b.0, 0) || (!text_before(b.0, a.0, 0) && text_before(a.1, b.1, 0))
}

/// Whether the item at `i` stands before the item at `j`: by their keys,
/// and for items that neither key puts first, by their position.
pub open spec fn stands_before(keys: Seq<(Seq<char>, Seq<char>)>, i: int, j: int) -> bool {
    key_before(keys[i], keys[j]) || (!key_before(keys[j], keys[i]) && i < j)
}

/// `order` lists the positions below `n`, each at most once, every one
/// standing before the next.
pub open spec fn is_order_upto(keys: Seq<(Seq<char>, Seq<char>)>, order: Seq<usize>, n: int) -> bool {
    &&& order.len() == n
    &&& forall|k: int| 0 <= k < order.len() ==> (#[trigger] order[k]) < n
    &&& forall|k: int, m: int| 0 <= k < m < order.len() ==> order[k] != order[m]
    &&& forall|k: int|
        0 <= k && k + 1 < order.len() ==> stands_before(
            keys,
            (#[trigger] order[k]) as int,
            order[k + 1] as int,
        )
}

/// `order` is the stable ordering of all items by their keys.
pub open spec fn is_stable_order(keys: Seq<(Seq<char>, Seq<char>)>, order: Seq<usize>) -> bool {
    is_order_upto(keys, order, keys.len() as int)
}

/// The keys as texts.
pub open spec fn keys_view(keys: Seq<(Vec<char>, Vec<char>)>) -> Seq<(Seq<char>, Seq<char>)> {
    Seq::new(keys.len(), |i: int| (keys[i].0@, keys[i].1@))
}

/// Tells whether one text comes before another.
pub fn comes_before(a: &Vec<char>, b: &Vec<char>) -> (r: bool)
    ensures
        r == text_before(a@, b@, 0),
{
    let mut i: usize = 0;
    while i < b.len()
        invariant
            i <= b.len(),
            i <= a.len(),
            text_before(a@, b@, i as int) == text_before(a@, b@, 0),
        decreases b.len() - i,
    {
        if i >= a.len() {
            return true;
        }
        let x = a[i] as u32;
        let y = b[i] as u32;
        if x < y {
            return true;
        }
        if x > y {
            return false;
        }
        i += 1;
    }
    false
}

fn item_before(keys: &Vec<(Vec<char>, Vec<char>)>, i: usize, j: usize) -> (r: bool)
    requires
        i < keys.len(),
        j < keys.len(),
    ensures
        r == stands_before(keys_view(keys@), i as int, j as int),
{
    let a = &keys[i];
    let b = &keys[j];
    let a_first = comes_before(&a.0, &b.0) || (!comes_before(&b.0, &a.0) && comes_before(
        &a.1,
        &b.1,
    ));
    let b_first = comes_before(&b.0, &a.0) || (!comes_before(&a.0, &b.0) && comes_before(
        &b.1,
        &a.1,
    ));
    a_first || (!b_first && i < j)
}

/// Orders items by their keys; items that agree in their keys keep their
/// order.
pub fn stable_order(keys: &Vec<(Vec<char>, Vec<char>)>) -> (order: Vec<usize>)
    ensures
        is_stable_order(keys_view(keys@), order@),
{
    let ghost kv = keys_view(keys@);
    let mut order: Vec<usize> = Vec::new();
    let mut i: usize = 0;
    while i < keys.len()
        invariant
            i <= keys.len(),
            kv == keys_view(keys@),
            is_order_upto(kv, order@, i as int),
        decreases keys.len() - i,
    {
        let mut p: usize = order.len();
        while p > 0 && item_before(keys, i, order[p - 1])
            invariant
                p <= order.len(),
                order.len() == i,
                i < keys.len(),
                kv == keys_view(keys@),
                is_order_upto(kv, order@, i as int),
                p < order.len() ==> stands_before(kv, i as int, order@[p as int] as int),
            decreases p,
        {
            p -= 1;
        }
        let ghost before = order@;
        order.insert(p, i);
        proof {
            let after = order@;
            assert(after.len() == i + 1);
            assert forall|k: int| 0 <= k < after.len() implies (#[trigger] after[k]) < i + 1 by {
                if k < p {
                    assert(after[k] == before[k]);
                } else if k > p {
                    assert(after[k] == before[k - 1]);
                }
            }
            assert forall|k: int, m: int| 0 <= k < m < after.len() implies after[k] != after[m] by {
                let a = if k < p {
                    before[k]
                } else if k == p {
                    i
                } else {
                    before[k - 1]
                };
                let b = if m < p {
                    before[m]
                } else if m == p {
                    i
                } else {
                    before[m - 1]
                };
                assert(after[k] == a && after[m] == b);
            }
            assert forall|k: int| 0 <= k && k + 1 < after.len() implies stands_before(
                kv,
                (#[trigger] after[k]) as int,
                after[k + 1] as int,
            ) by {
                if k + 1 < p {
                    assert(after[k] == before[k] && after[k + 1] == before[k + 1]);
                } else if k + 1 == p {
                    assert(after[k] == before[k] && after[k + 1] == i);
                    assert(!stands_before(kv, i as int, before[k] as int));
                    assert(before[k] < i);
                } else if k == p {
                    assert(after[k] == i && after[k + 1] == before[p as int]);
                } else {
                    assert(after[k] == before[k - 1] && after[k + 1] == before[k]);
                }
            }
        }
        i += 1;
    }
    order
}

} // verus!
