//! The stable order of a list by integer keys: the order that a stable sort
//! gives, as the positions of the items.

use vstd::prelude::*;

verus! {

/// Whether item `a` comes before item `b`: a smaller key, or an equal key
/// and an earlier position.
pub open spec fn precedes(keys: Seq<u64>, a: int, b: int) -> bool {
    keys[a] < keys[b] || (keys[a] == keys[b] && a < b)
}

/// Whether every item of `order` comes before every later one.
pub open spec fn increasing(keys: Seq<u64>, order: Seq<usize>) -> bool {
    forall|i: int, j: int|
        0 <= i < j < order.len() ==> #[trigger] precedes(keys, order[i] as int, order[j] as int)
}

/// Whether `order` holds each position of `keys` once, sorted by key, with
/// items of equal keys in their first order.
pub open spec fn is_stable_order(keys: Seq<u64>, order: Seq<usize>) -> bool {
    &&& order.len() == keys.len()
    &&& forall|x: usize| #[trigger] order.contains(x) <==> (x as int) < keys.len()
    &&& increasing(keys, order)
}

/// The stable order of `keys`.
pub open spec fn stable_order(keys: Seq<u64>) -> Seq<usize> {
    choose|o: Seq<usize>| is_stable_order(keys, o)
}

proof fn lemma_increasing_same_items(keys: Seq<u64>, s1: Seq<usize>, s2: Seq<usize>)
    requires
        increasing(keys, s1),
        increasing(keys, s2),
        forall|x: usize|
            #![trigger s1.contains(x)]
            #![trigger s2.contains(x)]
            s1.contains(x) <==> s2.contains(x),
    ensures
        s1 == s2,
    decreases s1.len(),
{
    if s1.len() == 0 {
        if s2.len() > 0 {
            assert(s2.contains(s2[0]));
        }
        assert(s1 =~= s2);
    } else {
        assert(s1.contains(s1[0]));
        assert(s2.contains(s1[0]));
        let p = choose|p: int| 0 <= p < s2.len() && s2[p] == s1[0];
        assert(s2.contains(s2[0]));
        assert(s1.contains(s2[0]));
        let q = choose|q: int| 0 <= q < s1.len() && s1[q] == s2[0];
        if p > 0 {
            assert(precedes(keys, s2[0] as int, s2[p] as int));
            if q > 0 {
                assert(precedes(keys, s1[0] as int, s1[q] as int));
            }
            assert(false);
        }
        assert(s2[0] == s1[0]);
        let t1 = s1.drop_first();
        let t2 = s2.drop_first();
        assert forall|x: usize| #[trigger] t1.contains(x) implies t2.contains(x) by {
            let k = choose|k: int| 0 <= k < t1.len() && t1[k] == x;
            assert(s1[k + 1] == x);
            assert(precedes(keys, s1[0] as int, s1[k + 1] as int));
            assert(s1.contains(x));
            assert(s2.contains(x));
            let m = choose|m: int| 0 <= m < s2.len() && s2[m] == x;
            assert(m != 0);
            assert(t2[m - 1] == x);
        }
        assert forall|x: usize| #[trigger] t2.contains(x) implies t1.contains(x) by {
            let k = choose|k: int| 0 <= k < t2.len() && t2[k] == x;
            assert(s2[k + 1] == x);
            assert(precedes(keys, s2[0] as int, s2[k + 1] as int));
            assert(s2.contains(x));
            assert(s1.contains(x));
            let m = choose|m: int| 0 <= m < s1.len() && s1[m] == x;
            assert(m != 0);
            assert(t1[m - 1] == x);
        }
        assert forall|i: int, j: int| 0 <= i < j < t1.len() implies #[trigger] precedes(
            keys,
            t1[i] as int,
            t1[j] as int,
        ) by {
            assert(precedes(keys, s1[i + 1] as int, s1[j + 1] as int));
        }
        assert forall|i: int, j: int| 0 <= i < j < t2.len() implies #[trigger] precedes(
            keys,
            t2[i] as int,
            t2[j] as int,
        ) by {
            assert(precedes(keys, s2[i + 1] as int, s2[j + 1] as int));
        }
        lemma_increasing_same_items(keys, t1, t2);
        assert forall|i: int| 0 <= i < s1.len() implies s1[i] == s2[i] by {
            if i > 0 {
                assert(s1[i] == t1[i - 1]);
                assert(s2[i] == t2[i - 1]);
            }
        }
        assert(s1 =~= s2);
    }
}

/// There is one stable order of a list of keys: two orders that each hold
/// every position once, sorted by key and keeping equal keys in their first
/// order, are the same.
pub proof fn lemma_stable_order_unique(keys: Seq<u64>, o1: Seq<usize>, o2: Seq<usize>)
    requires
        is_stable_order(keys, o1),
        is_stable_order(keys, o2),
    ensures
        o1 == o2,
{
    assert forall|x: usize| #[trigger] o1.contains(x) <==> o2.contains(x) by {
        assert(o1.contains(x) <==> (x as int) < keys.len());
        assert(o2.contains(x) <==> (x as int) < keys.len());
    }
    lemma_increasing_same_items(keys, o1, o2);
}

/// The stable order of `keys`, by insertion: each position goes after
/// every earlier one whose key is not larger.
pub fn sort_order(keys: &Vec<u64>) -> (order: Vec<usize>)
    ensures
        is_stable_order(keys@, order@),
        order@ == stable_order(keys@),
{
    let mut order: Vec<usize> = Vec::new();
    let mut k: usize = 0;
    while k < keys.len()
        invariant
            k <= keys@.len(),
            order@.len() == k,
            forall|x: usize| #[trigger] order@.contains(x) <==> x < k,
            increasing(keys@, order@),
        decreases keys@.len() - k,
    {
        let mut p: usize = 0;
        loop
            invariant
                p <= order@.len(),
                order@.len() == k,
                k < keys@.len(),
                forall|x: usize| #[trigger] order@.contains(x) <==> x < k,
                forall|q: int| 0 <= q < p ==> keys@[#[trigger] order@[q] as int] <= keys@[k as int],
            ensures
                p <= order@.len(),
                forall|q: int| 0 <= q < p ==> keys@[#[trigger] order@[q] as int] <= keys@[k as int],
                p < order@.len() ==> keys@[order@[p as int] as int] > keys@[k as int],
            decreases order@.len() - p,
        {
            if p >= order.len() {
                break;
            }
            let x = order[p];
            assert(order@.contains(x));
            if keys[x] > keys[k] {
                break;
            }
            p = p + 1;
        }
        let ghost old_order = order@;
        order.insert(p, k);
        proof {
            let n = order@;
            assert(n == old_order.insert(p as int, k));
            assert forall|i: int, j: int| 0 <= i < j < n.len() implies #[trigger] precedes(
                keys@,
                n[i] as int,
                n[j] as int,
            ) by {
                if j < p {
                    assert(precedes(keys@, old_order[i] as int, old_order[j] as int));
                } else if j == p {
                    assert(old_order.contains(old_order[i]));
                } else if i < p {
                    assert(precedes(keys@, old_order[i] as int, old_order[j - 1] as int));
                } else if i == p {
                    assert(old_order.contains(old_order[j - 1]));
                    if j - 1 > p {
                        assert(precedes(keys@, old_order[p as int] as int, old_order[j - 1] as int));
                    }
                } else {
                    assert(precedes(keys@, old_order[i - 1] as int, old_order[j - 1] as int));
                }
            }
            assert forall|x: usize| #[trigger] n.contains(x) <==> x < k + 1 by {
                if n.contains(x) {
                    let m = choose|m: int| 0 <= m < n.len() && n[m] == x;
                    if m < p {
                        assert(old_order[m] == x);
                        assert(old_order.contains(x));
                    } else if m > p {
                        assert(old_order[m - 1] == x);
                        assert(old_order.contains(x));
                    }
                }
                if x < k {
                    assert(old_order.contains(x));
                    let m = choose|m: int| 0 <= m < old_order.len() && old_order[m] == x;
                    if m < p {
                        assert(n[m] == x);
                    } else {
                        assert(n[m + 1] == x);
                    }
                }
                if x == k {
                    assert(n[p as int] == x);
                }
            }
        }
        k = k + 1;
    }
    proof {
        let o = stable_order(keys@);
        assert(is_stable_order(keys@, order@));
        assert(is_stable_order(keys@, o));
        lemma_stable_order_unique(keys@, order@, o);
    }
    order
}

} // verus!
