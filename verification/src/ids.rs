//! Message numbers as the server's SEARCH gives them: a set, in no
//! particular order. They are put in ascending order before the newest
//! messages are picked.

use vstd::prelude::*;
use std::collections::HashSet;

verus! {

/// Each number is smaller than the next.
pub open spec fn strictly_increasing(s: Seq<u32>) -> bool {
    forall|i: int, j: int| 0 <= i < j < s.len() ==> s[i] < s[j]
}

/// `a` and `b` hold the same numbers.
pub open spec fn same_members(a: Seq<u32>, b: Seq<u32>) -> bool {
    forall|x: u32| a.contains(x) <==> b.contains(x)
}

/// The numbers of `ids`, each once, in ascending order.
pub open spec fn ascending(ids: Seq<u32>) -> Seq<u32> {
    choose|s: Seq<u32>| strictly_increasing(s) && same_members(s, ids)
}

/// Two ascending sequences with the same numbers are the same sequence, so
/// `ascending` names exactly one sequence.
pub proof fn law_ascending_unique(a: Seq<u32>, b: Seq<u32>)
    requires
        strictly_increasing(a),
        strictly_increasing(b),
        same_members(a, b),
    ensures
        a == b,
    decreases a.len() + b.len(),
{
    if a.len() == 0 {
        if b.len() > 0 {
            assert(b.contains(b[0]));
        }
        assert(a =~= b);
    } else if b.len() == 0 {
        assert(a.contains(a[0]));
    } else {
        assert(a.contains(a[0]));
        assert(b.contains(b[0]));
        let i = choose|i: int| 0 <= i < b.len() && b[i] == a[0];
        let j = choose|j: int| 0 <= j < a.len() && a[j] == b[0];
        if i > 0 {
            assert(b[0] < b[i]);
        }
        if j > 0 {
            assert(a[0] < a[j]);
        }
        assert(a[0] == b[0]);
        let a1 = a.drop_first();
        let b1 = b.drop_first();
        assert forall|x: u32| a1.contains(x) implies b1.contains(x) by {
            let k = choose|k: int| 0 <= k < a1.len() && a1[k] == x;
            assert(a[k + 1] == x);
            assert(a.contains(x));
            assert(b.contains(x));
            let m = choose|m: int| 0 <= m < b.len() && b[m] == x;
            assert(a[0] < a[k + 1]);
            assert(m != 0);
            assert(b1[m - 1] == x);
        }
        assert forall|x: u32| b1.contains(x) implies a1.contains(x) by {
            let k = choose|k: int| 0 <= k < b1.len() && b1[k] == x;
            assert(b[k + 1] == x);
            assert(b.contains(x));
            assert(a.contains(x));
            let m = choose|m: int| 0 <= m < a.len() && a[m] == x;
            assert(b[0] < b[k + 1]);
            assert(m != 0);
            assert(a1[m - 1] == x);
        }
        law_ascending_unique(a1, b1);
        assert forall|k: int| 0 <= k < a.len() implies a[k] == b[k] by {
            if k > 0 {
                assert(a[k] == a1[k - 1]);
                assert(b[k] == b1[k - 1]);
            }
        }
        assert(a =~= b);
    }
}

/// Every list of numbers has an ascending arrangement.
pub proof fn lemma_ascending_exists(ids: Seq<u32>)
    ensures
        strictly_increasing(ascending(ids)),
        same_members(ascending(ids), ids),
    decreases ids.len(),
{
    if ids.len() == 0 {
        let e = Seq::<u32>::empty();
        assert(strictly_increasing(e) && same_members(e, ids));
    } else {
        let p = ids.drop_last();
        let x = ids.last();
        lemma_ascending_exists(p);
        let d = ascending(p);
        assert(ids =~= p.push(x));
        lemma_push_members(p, x);
        if d.contains(x) {
            assert forall|y: u32| d.contains(y) <==> ids.contains(y) by {
                assert(d.contains(y) <==> p.contains(y));
            }
            assert(strictly_increasing(d) && same_members(d, ids));
        } else {
            let k = insertion_point(d, x, 0);
            lemma_insert_members(d, k, x);
            lemma_insert_increasing(d, k, x);
            let t = d.insert(k, x);
            assert forall|y: u32| t.contains(y) <==> ids.contains(y) by {
                assert(d.contains(y) <==> p.contains(y));
            }
            assert(strictly_increasing(t) && same_members(t, ids));
        }
    }
}

proof fn insertion_point(d: Seq<u32>, x: u32, from: int) -> (k: int)
    requires
        0 <= from <= d.len(),
        forall|j: int| 0 <= j < from ==> d[j] < x,
        !d.contains(x),
    ensures
        from <= k <= d.len(),
        forall|j: int| 0 <= j < k ==> d[j] < x,
        k < d.len() ==> x < d[k],
    decreases d.len() - from,
{
    if from == d.len() {
        from
    } else if d[from] > x {
        from
    } else {
        assert(d[from] != x);
        insertion_point(d, x, from + 1)
    }
}

proof fn lemma_insert_increasing(d: Seq<u32>, k: int, x: u32)
    requires
        strictly_increasing(d),
        0 <= k <= d.len(),
        forall|j: int| 0 <= j < k ==> d[j] < x,
        k < d.len() ==> x < d[k],
    ensures
        strictly_increasing(d.insert(k, x)),
{
    let t = d.insert(k, x);
    assert forall|a: int, b: int| 0 <= a < b < t.len() implies t[a] < t[b] by {
        if b < k {
        } else if a > k {
            assert(t[a] == d[a - 1]);
            assert(t[b] == d[b - 1]);
        } else if a == k {
            assert(t[b] == d[b - 1]);
            if b - 1 > k {
                assert(d[k] < d[b - 1]);
            }
        } else if b == k {
        } else {
            assert(t[b] == d[b - 1]);
            assert(d[a] < x);
            assert(x < d[k]);
            if b - 1 > k {
                assert(d[k] < d[b - 1]);
            }
        }
    }
}

proof fn lemma_insert_members(s: Seq<u32>, p: int, x: u32)
    requires
        0 <= p <= s.len(),
    ensures
        forall|y: u32| s.insert(p, x).contains(y) <==> (y == x || s.contains(y)),
{
    let t = s.insert(p, x);
    assert forall|y: u32| t.contains(y) implies (y == x || s.contains(y)) by {
        let k = choose|k: int| 0 <= k < t.len() && t[k] == y;
        if k < p {
            assert(s[k] == y);
        } else if k > p {
            assert(s[k - 1] == y);
        }
    }
    assert forall|y: u32| (y == x || s.contains(y)) implies t.contains(y) by {
        if y == x {
            assert(t[p] == x);
        } else {
            let k = choose|k: int| 0 <= k < s.len() && s[k] == y;
            if k < p {
                assert(t[k] == y);
            } else {
                assert(t[k + 1] == y);
            }
        }
    }
}

proof fn lemma_push_members(s: Seq<u32>, x: u32)
    ensures
        forall|y: u32| s.push(x).contains(y) <==> (y == x || s.contains(y)),
{
    let t = s.push(x);
    assert forall|y: u32| t.contains(y) implies (y == x || s.contains(y)) by {
        let k = choose|k: int| 0 <= k < t.len() && t[k] == y;
        if k < s.len() {
            assert(s[k] == y);
        }
    }
    assert forall|y: u32| (y == x || s.contains(y)) implies t.contains(y) by {
        if y == x {
            assert(t[s.len() as int] == x);
        } else {
            let k = choose|k: int| 0 <= k < s.len() && s[k] == y;
            assert(t[k] == y);
        }
    }
}

/// The numbers of `ids`, each once, in ascending order.
pub fn ascending_ids(ids: &Vec<u32>) -> (r: Vec<u32>)
    ensures
        r@ == ascending(ids@),
        strictly_increasing(r@),
        same_members(r@, ids@),
{
    let mut r: Vec<u32> = Vec::new();
    let mut i: usize = 0;
    while i < ids.len()
        invariant
            i <= ids.len(),
            strictly_increasing(r@),
            same_members(r@, ids@.take(i as int)),
        decreases ids.len() - i,
    {
        let x = ids[i];
        let mut p: usize = 0;
        while p < r.len() && r[p] < x
            invariant
                p <= r.len(),
                forall|k: int| 0 <= k < p ==> r@[k] < x,
            decreases r.len() - p,
        {
            p = p + 1;
        }
        proof {
            assert(ids@.take(i + 1) =~= ids@.take(i as int).push(x));
            lemma_push_members(ids@.take(i as int), x);
        }
        let ghost prev = ids@.take(i as int);
        let ghost next = ids@.take(i + 1);
        if p < r.len() && r[p] == x {
            assert(r@[p as int] == x);
            assert(r@.contains(x));
            assert forall|y: u32| r@.contains(y) <==> next.contains(y) by {
                assert(r@.contains(y) <==> prev.contains(y));
            }
        } else {
            let ghost old_r = r@;
            r.insert(p, x);
            proof {
                lemma_insert_members(old_r, p as int, x);
                assert forall|y: u32| r@.contains(y) <==> next.contains(y) by {
                    assert(old_r.contains(y) <==> prev.contains(y));
                }
                lemma_insert_increasing(old_r, p as int, x);
            }
        }
        i = i + 1;
    }
    proof {
        assert(ids@.take(ids.len() as int) =~= ids@);
        law_ascending_unique(r@, ascending(ids@));
    }
    r
}

/// The numbers of the set `found`, in ascending order.
pub open spec fn ascending_set(found: Set<u32>) -> Seq<u32> {
    choose|s: Seq<u32>| strictly_increasing(s) && forall|x: u32| s.contains(x) <==> found.contains(x)
}

/// A finite set of numbers has an ascending arrangement, and `ascending_set` gives it.
pub proof fn lemma_ascending_set_exists(found: Set<u32>)
    requires
        found.finite(),
    ensures
        strictly_increasing(ascending_set(found)),
        forall|x: u32| ascending_set(found).contains(x) <==> found.contains(x),
{
    found.lemma_to_seq_to_set_id();
    let q = found.to_seq();
    lemma_ascending_exists(q);
    let d = ascending(q);
    assert forall|x: u32| d.contains(x) <==> found.contains(x) by {
        assert(d.contains(x) <==> q.contains(x));
        assert(q.to_set().contains(x) <==> q.contains(x));
    }
    assert(strictly_increasing(d) && forall|x: u32| d.contains(x) <==> found.contains(x));
}

/// The numbers of the set `found`, in ascending order.
pub fn ascending_of(found: &HashSet<u32>) -> (r: Vec<u32>)
    ensures
        r@ == ascending_set(found@),
        strictly_increasing(r@),
        forall|x: u32| r@.contains(x) <==> found@.contains(x),
{
    broadcast use vstd::std_specs::hash::group_hash_axioms;
    let mut listed: Vec<u32> = Vec::new();
    let ghost keys = vstd::std_specs::iter::IteratorSpec::remaining(&vstd::std_specs::hash::spec_hash_keys_iter(found));
    for x in it: found.iter()
        invariant
            it.seq() == keys,
            listed.len() == it.index(),
            forall|i: int| 0 <= i < listed.len() ==> listed@[i] == *it.seq()[i],
    {
        listed.push(*x);
    }
    proof {
        assert(keys.unref().to_set() == found@);
        assert forall|x: u32| listed@.contains(x) <==> found@.contains(x) by {
            if listed@.contains(x) {
                let i = choose|i: int| 0 <= i < listed@.len() && listed@[i] == x;
                assert(keys.unref()[i] == x);
                assert(keys.unref().contains(x));
            }
            if found@.contains(x) {
                assert(keys.unref().to_set().contains(x));
                let i = choose|i: int| 0 <= i < keys.unref().len() && keys.unref()[i] == x;
                assert(listed@[i] == x);
            }
        }
    }
    let r = ascending_ids(&listed);
    proof {
        assert(strictly_increasing(r@) && forall|x: u32| r@.contains(x) <==> found@.contains(x));
        let c = ascending_set(found@);
        assert forall|x: u32| r@.contains(x) <==> c.contains(x) by {}
        law_ascending_unique(r@, c);
    }
    r
}

} // verus!
