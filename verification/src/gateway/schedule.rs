//! Picking what comes first.

use vstd::prelude::*;

verus! {

/// Whether position `i` comes before position `j`: it has the lower key, or the same key and
/// stands earlier.
pub open spec fn before(keys: Seq<Option<i64>>, i: int, j: int) -> bool {
    keys[i]->0 < keys[j]->0 || keys[i]->0 == keys[j]->0 && i < j
}

/// Whether position `i` has a key, and so is up for choice.
pub open spec fn candidate(keys: Seq<Option<i64>>, i: int) -> bool {
    0 <= i < keys.len() && keys[i] is Some
}

/// Whether `picked` are the first `limit` candidates, in order, or all of them where there
/// are no more.
pub open spec fn picks_earliest(keys: Seq<Option<i64>>, limit: int, picked: Seq<int>) -> bool {
    &&& picked.len() <= limit
    &&& forall|a: int| 0 <= a < picked.len() ==> candidate(keys, #[trigger] picked[a])
    &&& forall|a: int, b: int|
        0 <= a < b < picked.len() ==> before(keys, #[trigger] picked[a], #[trigger] picked[b])
    &&& forall|i: int, a: int|
        #![trigger candidate(keys, i), picked[a]]
        candidate(keys, i) && !picked.contains(i) && 0 <= a < picked.len() ==> before(
            keys,
            picked[a],
            i,
        )
    &&& forall|i: int| #[trigger]
        candidate(keys, i) && !picked.contains(i) ==> picked.len() == limit
}

/// The positions of the first `limit` candidates, in order.
pub open spec fn earliest_of(keys: Seq<Option<i64>>, limit: int) -> Seq<int> {
    choose|picked: Seq<int>| picks_earliest(keys, limit, picked)
}

/// There is one way to pick the earliest.
pub proof fn earliest_is_unique(
    keys: Seq<Option<i64>>,
    limit: int,
    p: Seq<int>,
    q: Seq<int>,
)
    requires
        picks_earliest(keys, limit, p),
        picks_earliest(keys, limit, q),
    ensures
        p == q,
{
    let common = if p.len() <= q.len() {
        p.len()
    } else {
        q.len()
    };
    lemma_same_prefix(keys, limit, p, q, common);
    lemma_no_longer(keys, limit, p, q);
    lemma_no_longer(keys, limit, q, p);
    assert(p =~= q);
}

proof fn lemma_same_prefix(
    keys: Seq<Option<i64>>,
    limit: int,
    p: Seq<int>,
    q: Seq<int>,
    n: nat,
)
    requires
        picks_earliest(keys, limit, p),
        picks_earliest(keys, limit, q),
        n <= p.len(),
        n <= q.len(),
    ensures
        forall|b: int| 0 <= b < n ==> p[b] == q[b],
    decreases n,
{
    if n > 0 {
        let a = n - 1;
        lemma_same_prefix(keys, limit, p, q, a as nat);
        if p[a] != q[a] {
            lemma_not_overtaken(keys, limit, p, q, a);
            lemma_not_overtaken(keys, limit, q, p, a);
        }
    }
}

proof fn lemma_not_overtaken(
    keys: Seq<Option<i64>>,
    limit: int,
    p: Seq<int>,
    q: Seq<int>,
    a: int,
)
    requires
        picks_earliest(keys, limit, p),
        picks_earliest(keys, limit, q),
        0 <= a < p.len(),
        a < q.len(),
        forall|b: int| 0 <= b < a ==> p[b] == q[b],
    ensures
        !before(keys, p[a], q[a]),
{
    assert(candidate(keys, p[a]));
    if q.contains(p[a]) {
        let b = choose|b: int| 0 <= b < q.len() && q[b] == p[a];
        if b < a {
            assert(before(keys, p[b], p[a]));
        } else if a < b {
            assert(before(keys, q[a], q[b]));
        }
    } else {
        assert(before(keys, q[a], p[a]));
    }
}

proof fn lemma_no_longer(keys: Seq<Option<i64>>, limit: int, p: Seq<int>, q: Seq<int>)
    requires
        picks_earliest(keys, limit, p),
        picks_earliest(keys, limit, q),
        forall|b: int| 0 <= b < p.len() && b < q.len() ==> p[b] == q[b],
    ensures
        q.len() <= p.len(),
{
    if p.len() < q.len() {
        let n = p.len() as int;
        assert(candidate(keys, q[n]));
        if p.contains(q[n]) {
            let b = choose|b: int| 0 <= b < p.len() && p[b] == q[n];
            assert(before(keys, q[b], q[n]));
        }
    }
}

/// Positions as mathematical integers.
pub open spec fn positions(v: Seq<usize>) -> Seq<int> {
    v.map_values(|i: usize| i as int)
}

/// The positions of the first `limit` candidates, in order.
pub fn earliest(keys: &Vec<Option<i64>>, limit: usize) -> (picked: Vec<usize>)
    ensures
        positions(picked@) == earliest_of(keys@, limit as int),
        picks_earliest(keys@, limit as int, positions(picked@)),
{
    let mut picked: Vec<usize> = Vec::new();
    let mut n: usize = 0;
    while n < keys.len()
        invariant
            n <= keys@.len(),
            picks_earliest(keys@.take(n as int), limit as int, positions(picked@)),
        decreases keys@.len() - n,
    {
        let ghost seen = keys@.take(n as int);
        let ghost next = keys@.take(n + 1);
        let ghost was = positions(picked@);
        assert(next.drop_last() =~= seen);
        match keys[n] {
            None => {
                proof {
                    lemma_keys_extend(seen, next, limit as int, was);
                }
            },
            Some(key) => {
                assert forall|b: int| 0 <= b < picked@.len() implies candidate(
                    keys@,
                    #[trigger] picked@[b] as int,
                ) by {
                    assert(candidate(seen, was[b]));
                }
                let mut at: usize = 0;
                while at < picked.len() && keys[picked[at]].unwrap() <= key
                    invariant
                        at <= picked@.len(),
                        n < keys@.len(),
                        keys@[n as int] == Some(key),
                        seen == keys@.take(n as int),
                        was == positions(picked@),
                        picks_earliest(seen, limit as int, was),
                        forall|b: int| 0 <= b < picked@.len() ==> candidate(
                            keys@,
                            #[trigger] picked@[b] as int,
                        ),
                        forall|b: int| 0 <= b < at ==> keys@[#[trigger] picked@[b] as int]->0
                            <= key,
                    decreases picked@.len() - at,
                {
                    at += 1;
                }
                picked.insert(at, n);
                proof {
                    assert(positions(picked@) =~= was.insert(at as int, n as int));
                    lemma_insert(seen, next, limit as int, was, at as int, key);
                }
                if picked.len() > limit {
                    picked.pop();
                    assert(positions(picked@) =~= was.insert(at as int, n as int).drop_last());
                }
            },
        }
        n += 1;
    }
    proof {
        assert(keys@.take(n as int) =~= keys@);
        earliest_is_unique(
            keys@,
            limit as int,
            positions(picked@),
            earliest_of(keys@, limit as int),
        );
    }
    picked
}

proof fn lemma_keys_extend(
    seen: Seq<Option<i64>>,
    next: Seq<Option<i64>>,
    limit: int,
    was: Seq<int>,
)
    requires
        next.len() == seen.len() + 1,
        next.drop_last() == seen,
        next.last() is None,
        picks_earliest(seen, limit, was),
    ensures
        picks_earliest(next, limit, was),
{
    assert forall|i: int| #[trigger] candidate(next, i) implies candidate(seen, i) && next[i]
        == seen[i] by {
        assert(next.drop_last()[i] == next[i]);
    }
    assert forall|i: int| #[trigger] candidate(seen, i) implies candidate(next, i) && next[i]
        == seen[i] by {
        assert(next.drop_last()[i] == next[i]);
    }
}

proof fn lemma_insert(
    seen: Seq<Option<i64>>,
    next: Seq<Option<i64>>,
    limit: int,
    was: Seq<int>,
    at: int,
    key: i64,
)
    requires
        0 <= limit,
        next.len() == seen.len() + 1,
        next.drop_last() == seen,
        next.last() == Some(key),
        picks_earliest(seen, limit, was),
        0 <= at <= was.len(),
        forall|b: int| 0 <= b < at ==> seen[#[trigger] was[b]]->0 <= key,
        at < was.len() ==> key < seen[was[at]]->0,
    ensures
        ({
            let now = was.insert(at, seen.len() as int);
            &&& now.len() <= limit ==> picks_earliest(next, limit, now)
            &&& now.len() > limit ==> picks_earliest(next, limit, now.drop_last())
        }),
{
    let n = seen.len() as int;
    let now = was.insert(at, n);
    assert forall|i: int| #[trigger] candidate(next, i) && i != n implies candidate(seen, i)
        && next[i] == seen[i] by {
        assert(next.drop_last()[i] == next[i]);
    }
    assert forall|i: int| #[trigger] candidate(seen, i) implies candidate(next, i) && next[i]
        == seen[i] && i < n by {
        assert(next.drop_last()[i] == next[i]);
    }
    assert forall|a: int| 0 <= a < now.len() implies candidate(next, #[trigger] now[a]) by {
        if a < at {
            assert(candidate(seen, was[a]));
        } else if a > at {
            assert(candidate(seen, was[a - 1]));
        }
    }
    assert forall|b: int| at <= b < was.len() implies key < seen[#[trigger] was[b]]->0 by {
        if b > at {
            assert(before(seen, was[at], was[b]));
        }
    }
    assert forall|a: int, b: int| 0 <= a < b < now.len() implies before(
        next,
        #[trigger] now[a],
        #[trigger] now[b],
    ) by {
        assert(a < at ==> now[a] == was[a] && candidate(seen, was[a]));
        assert(a > at ==> now[a] == was[a - 1] && candidate(seen, was[a - 1]));
        assert(b < at ==> now[b] == was[b] && candidate(seen, was[b]));
        assert(b > at ==> now[b] == was[b - 1] && candidate(seen, was[b - 1]));
    }
    assert forall|i: int| candidate(next, i) && !now.contains(i) implies i != n && candidate(
        seen,
        i,
    ) && !was.contains(i) by {
        assert(now[at] == n);
        if was.contains(i) {
            let b = choose|b: int| 0 <= b < was.len() && was[b] == i;
            assert(now[if b < at { b } else { b + 1 }] == i);
        }
    }
    if now.len() > limit {
        let kept = now.drop_last();
        assert forall|i: int, a: int|
            #![trigger candidate(next, i), kept[a]]
            candidate(next, i) && !kept.contains(i) && 0 <= a < kept.len() implies before(
            next,
            kept[a],
            i,
        ) by {
            assert(kept[a] == now[a]);
            if now.contains(i) {
                let b = choose|b: int| 0 <= b < now.len() && now[b] == i;
                assert(b < kept.len() ==> kept[b] == i);
                assert(before(next, now[a], now[b]));
            } else {
                assert(candidate(seen, i) && !was.contains(i));
                if a < at {
                    assert(before(seen, was[a], i));
                } else if a > at {
                    assert(before(seen, was[a - 1], i));
                } else {
                    assert(before(seen, was[at], i));
                    assert(candidate(seen, was[at]));
                }
            }
        }
    }
}

/// The earliest can always be picked.
pub proof fn earliest_exists(keys: Seq<Option<i64>>, limit: int)
    requires
        0 <= limit,
    ensures
        picks_earliest(keys, limit, earliest_of(keys, limit)),
    decreases keys.len(),
{
    if keys.len() == 0 {
        assert(picks_earliest(keys, limit, Seq::<int>::empty()));
    } else {
        let seen = keys.drop_last();
        earliest_exists(seen, limit);
        let was = earliest_of(seen, limit);
        match keys.last() {
            None => {
                lemma_keys_extend(seen, keys, limit, was);
                assert(picks_earliest(keys, limit, was));
            },
            Some(key) => {
                let at = lemma_place(seen, was, key, was.len() as int);
                lemma_insert(seen, keys, limit, was, at, key);
                let now = was.insert(at, seen.len() as int);
                assert(picks_earliest(keys, limit, now) || picks_earliest(
                    keys,
                    limit,
                    now.drop_last(),
                ));
            },
        }
    }
}

proof fn lemma_place(seen: Seq<Option<i64>>, was: Seq<int>, key: i64, n: int) -> (at: int)
    requires
        0 <= n <= was.len(),
        n < was.len() ==> key < seen[was[n]]->0,
        forall|a: int, b: int|
            0 <= a < b < was.len() ==> before(seen, #[trigger] was[a], #[trigger] was[b]),
    ensures
        0 <= at <= was.len(),
        forall|b: int| 0 <= b < at ==> seen[#[trigger] was[b]]->0 <= key,
        at < was.len() ==> key < seen[was[at]]->0,
    decreases n,
{
    if n == 0 || seen[was[n - 1]]->0 <= key {
        assert forall|b: int| 0 <= b < n implies seen[#[trigger] was[b]]->0 <= key by {
            if b < n - 1 {
                assert(before(seen, was[b], was[n - 1]));
            }
        }
        n
    } else {
        lemma_place(seen, was, key, n - 1)
    }
}

} // verus!
