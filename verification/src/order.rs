//! Picking positions of a list and putting them in order by a two-part key,
//! positions with equal keys staying in the order of the list.

use vstd::prelude::*;

verus! {

/// Whether position `i` goes before position `j`: by the first part of the key,
/// then by the second, then by position.
pub open spec fn precedes(keys: Seq<(u64, u64)>, i: int, j: int) -> bool {
    ||| keys[i].0 < keys[j].0
    ||| keys[i].0 == keys[j].0 && keys[i].1 < keys[j].1
    ||| keys[i].0 == keys[j].0 && keys[i].1 == keys[j].1 && i < j
}

/// Whether `s` lists the first `n` positions that `keep` picks, each once, in
/// order of their keys.
pub open spec fn arranges(keys: Seq<(u64, u64)>, keep: Seq<bool>, n: int, s: Seq<usize>) -> bool {
    &&& forall|p: int| 0 <= p < s.len() ==> (#[trigger] s[p]) < n && keep[s[p] as int]
    &&& forall|i: int| 0 <= i < n && #[trigger] keep[i] ==> exists|p: int| 0 <= p < s.len() && s[p] == i
    &&& forall|p: int, q: int|
        0 <= p < q < s.len() ==> precedes(keys, #[trigger] s[p] as int, #[trigger] s[q] as int)
}

/// The positions that `keep` picks, in order of their keys.
pub open spec fn arrangement(keys: Seq<(u64, u64)>, keep: Seq<bool>) -> Seq<usize> {
    choose|s: Seq<usize>| arranges(keys, keep, keys.len() as int, s)
}

/// There is only one such list.
pub proof fn arrangement_is_unique(
    keys: Seq<(u64, u64)>,
    keep: Seq<bool>,
    n: int,
    s: Seq<usize>,
    t: Seq<usize>,
)
    requires
        arranges(keys, keep, n, s),
        arranges(keys, keep, n, t),
    ensures
        s == t,
{
    same_up_to(keys, keep, n, s, t, s.len() as int);
    same_up_to(keys, keep, n, t, s, t.len() as int);
    assert(s =~= t);
}

/// The two lists agree on their first `k` places.
proof fn same_up_to(
    keys: Seq<(u64, u64)>,
    keep: Seq<bool>,
    n: int,
    s: Seq<usize>,
    t: Seq<usize>,
    k: int,
)
    requires
        arranges(keys, keep, n, s),
        arranges(keys, keep, n, t),
        0 <= k <= s.len(),
    ensures
        k <= t.len(),
        forall|p: int| 0 <= p < k ==> #[trigger] s[p] == t[p],
    decreases k,
{
    if k > 0 {
        same_up_to(keys, keep, n, s, t, k - 1);
        let x = s[k - 1];
        assert(keep[x as int]);
        let q = choose|q: int| 0 <= q < t.len() && t[q] == x;
        if q < k - 1 {
            assert(s[q] == t[q]);
            assert(precedes(keys, s[q] as int, s[k - 1] as int));
        }
        let y = t[k - 1];
        assert(keep[y as int]);
        let r = choose|r: int| 0 <= r < s.len() && s[r] == y;
        if r < k - 1 {
            assert(s[r] == t[r]);
            assert(precedes(keys, t[r] as int, t[k - 1] as int));
        }
        if q > k - 1 {
            assert(precedes(keys, t[k - 1] as int, t[q] as int));
            if r > k - 1 {
                assert(precedes(keys, s[k - 1] as int, s[r] as int));
            }
        }
    }
}

/// Putting position `n` where it belongs extends an arrangement of the first `n`
/// positions to one of `n + 1`.
proof fn insertion_extends(
    keys: Seq<(u64, u64)>,
    keep: Seq<bool>,
    n: usize,
    s: Seq<usize>,
    at: int,
)
    requires
        arranges(keys, keep, n as int, s),
        keep[n as int],
        0 <= at <= s.len(),
        forall|p: int| 0 <= p < at ==> precedes(keys, #[trigger] s[p] as int, n as int),
        at < s.len() ==> precedes(keys, n as int, s[at] as int),
    ensures
        arranges(keys, keep, n + 1, s.insert(at, n)),
{
    let t = s.insert(at, n);
    assert forall|p: int| 0 <= p < t.len() implies (#[trigger] t[p]) < n + 1 && keep[t[p] as int] by {
        if p < at {
            assert(t[p] == s[p]);
        } else if p > at {
            assert(t[p] == s[p - 1]);
        }
    }
    assert forall|i: int| 0 <= i < n + 1 && #[trigger] keep[i] implies exists|p: int|
        0 <= p < t.len() && t[p] == i by {
        if i == n {
            assert(t[at] == i);
        } else {
            let p = choose|p: int| 0 <= p < s.len() && s[p] == i;
            if p < at {
                assert(t[p] == i);
            } else {
                assert(t[p + 1] == i);
            }
        }
    }
    assert forall|p: int, q: int| 0 <= p < q < t.len() implies precedes(
        keys,
        #[trigger] t[p] as int,
        #[trigger] t[q] as int,
    ) by {
        if p < at {
            assert(t[p] == s[p]);
            if q < at {
                assert(t[q] == s[q]);
            } else if q > at {
                assert(t[q] == s[q - 1]);
            }
        } else if p == at {
            assert(t[q] == s[q - 1]);
            if q - 1 > at {
                assert(precedes(keys, s[at] as int, s[q - 1] as int));
            }
        } else {
            assert(t[p] == s[p - 1]);
            assert(t[q] == s[q - 1]);
        }
    }
}

/// The positions that `keep` picks, in order of their keys.
pub fn arrange(keys: &Vec<(u64, u64)>, keep: &Vec<bool>) -> (s: Vec<usize>)
    requires
        keys@.len() == keep@.len(),
    ensures
        arranges(keys@, keep@, keys@.len() as int, s@),
        s@ == arrangement(keys@, keep@),
{
    let mut s: Vec<usize> = Vec::new();
    let mut i: usize = 0;
    while i < keys.len()
        invariant
            i <= keys@.len(),
            keys@.len() == keep@.len(),
            arranges(keys@, keep@, i as int, s@),
        decreases keys@.len() - i,
    {
        if keep[i] {
            let mut at: usize = 0;
            while at < s.len() && !goes_first(keys, i, s[at])
                invariant
                    i < keys@.len(),
                    at <= s@.len(),
                    arranges(keys@, keep@, i as int, s@),
                    forall|p: int| 0 <= p < at ==> precedes(keys@, #[trigger] s@[p] as int, i as int),
                decreases s@.len() - at,
            {
                at += 1;
            }
            proof {
                insertion_extends(keys@, keep@, i, s@, at as int);
            }
            s.insert(at, i);
        } else {
            assert forall|p: int| 0 <= p < s@.len() implies (#[trigger] s@[p]) < i + 1
                && keep@[s@[p] as int] by {}
        }
        i += 1;
    }
    proof {
        arrangement_is_unique(
            keys@,
            keep@,
            keys@.len() as int,
            s@,
            arrangement(keys@, keep@),
        );
    }
    s
}

/// Whether position `i` goes before the smaller position `j`.
fn goes_first(keys: &Vec<(u64, u64)>, i: usize, j: usize) -> (r: bool)
    requires
        j < i < keys@.len(),
    ensures
        r == precedes(keys@, i as int, j as int),
        r == !precedes(keys@, j as int, i as int),
{
    let a = keys[i];
    let b = keys[j];
    a.0 < b.0 || (a.0 == b.0 && a.1 < b.1)
}

/// Every list can be arranged.
pub proof fn arrangement_exists(keys: Seq<(u64, u64)>, keep: Seq<bool>, n: usize)
    requires
        n <= keys.len(),
        keys.len() == keep.len(),
    ensures
        exists|s: Seq<usize>| arranges(keys, keep, n as int, s),
    decreases n,
{
    if n == 0 {
        assert(arranges(keys, keep, 0, Seq::empty()));
    } else {
        let m = (n - 1) as usize;
        arrangement_exists(keys, keep, m);
        let s = choose|s: Seq<usize>| arranges(keys, keep, m as int, s);
        if keep[m as int] {
            let at = place_for(keys, keep, m, s, s.len() as int);
            insertion_extends(keys, keep, m, s, at);
        } else {
            assert forall|i: int| 0 <= i < n && #[trigger] keep[i] implies exists|p: int|
                0 <= p < s.len() && s[p] == i by {
                assert(i < m);
            }
            assert(arranges(keys, keep, n as int, s));
        }
    }
}

/// The arrangement of a list arranges it.
pub proof fn arrangement_arranges(keys: Seq<(u64, u64)>, keep: Seq<bool>)
    requires
        keys.len() == keep.len(),
        keys.len() <= usize::MAX,
    ensures
        arranges(keys, keep, keys.len() as int, arrangement(keys, keep)),
{
    arrangement_exists(keys, keep, keys.len() as usize);
}

/// Where position `n` belongs in an arrangement, searched from the back.
proof fn place_for(
    keys: Seq<(u64, u64)>,
    keep: Seq<bool>,
    n: usize,
    s: Seq<usize>,
    from: int,
) -> (at: int)
    requires
        arranges(keys, keep, n as int, s),
        0 <= from <= s.len(),
        from < s.len() ==> precedes(keys, n as int, s[from] as int),
    ensures
        0 <= at <= s.len(),
        forall|p: int| 0 <= p < at ==> precedes(keys, #[trigger] s[p] as int, n as int),
        at < s.len() ==> precedes(keys, n as int, s[at] as int),
    decreases from,
{
    if from == 0 {
        0
    } else if precedes(keys, n as int, s[from - 1] as int) {
        place_for(keys, keep, n, s, from - 1)
    } else {
        assert forall|p: int| 0 <= p < from implies precedes(keys, #[trigger] s[p] as int, n as int) by {
            assert(s[p] < n);
            if p < from - 1 {
                assert(precedes(keys, s[p] as int, s[from - 1] as int));
            }
        }
        from
    }
}

} // verus!
