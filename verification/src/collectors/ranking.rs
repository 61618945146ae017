//! Ranking of the entries of an enumeration by a key, largest first.

use vstd::prelude::*;

verus! {

/// Whether entry `a` stands before entry `b` in the ranking by `keys`: it
/// has the larger key, or the same key and the earlier place in the
/// enumeration.
pub open spec fn outranks(keys: Seq<u64>, a: int, b: int) -> bool {
    keys[a] > keys[b] || (keys[a] == keys[b] && a < b)
}

/// Whether `order` lists the `limit` best entries of `keys`, best first, or
/// all entries if there are fewer: its items are places in `keys`, each
/// stands before those after it, and every entry it leaves out stands behind
/// all of its items.
pub open spec fn is_ranking(keys: Seq<u64>, limit: nat, order: Seq<usize>) -> bool {
    &&& order.len() == if keys.len() <= limit {
        keys.len()
    } else {
        limit
    }
    &&& forall|k: int| 0 <= k < order.len() ==> #[trigger] order[k] < keys.len()
    &&& forall|a: int, b: int|
        0 <= a < b < order.len() ==> outranks(
            keys,
            #[trigger] order[a] as int,
            #[trigger] order[b] as int,
        )
    &&& forall|j: int, k: int|
        #![trigger keys[j], order[k]]
        0 <= j < keys.len() && 0 <= k < order.len() && !order.contains(j as usize) ==> outranks(
            keys,
            order[k] as int,
            j,
        )
}

/// The ranking of the `limit` best entries of `keys`.
pub open spec fn ranking(keys: Seq<u64>, limit: nat) -> Seq<usize> {
    choose|order: Seq<usize>| is_ranking(keys, limit, order)
}

/// A ranking is unique: two lists that both rank the `limit` best entries
/// of the same keys are the same list.
pub proof fn lemma_ranking_unique(keys: Seq<u64>, limit: nat, first: Seq<usize>, second: Seq<usize>)
    requires
        is_ranking(keys, limit, first),
        is_ranking(keys, limit, second),
    ensures
        first == second,
{
    assert(first.len() == second.len());
    assert forall|k: int| 0 <= k < first.len() implies first[k] == second[k] by {
        lemma_ranking_agrees(keys, limit, first, second, k);
    }
    assert(first =~= second);
}

/// Two rankings of the same keys agree at every place.
proof fn lemma_ranking_agrees(
    keys: Seq<u64>,
    limit: nat,
    first: Seq<usize>,
    second: Seq<usize>,
    k: int,
)
    requires
        is_ranking(keys, limit, first),
        is_ranking(keys, limit, second),
        0 <= k < first.len(),
    ensures
        first[k] == second[k],
    decreases k,
{
    assert forall|m: int| 0 <= m < k implies first[m] == second[m] by {
        lemma_ranking_agrees(keys, limit, first, second, m);
    }
    if first[k] != second[k] {
        lemma_other_item_ahead(keys, limit, first, second, k);
        lemma_other_item_ahead(keys, limit, second, first, k);
    }
}

/// Where two rankings agree before place `k` and differ at it, the item of
/// the second at `k` stands before the item of the first.
proof fn lemma_other_item_ahead(
    keys: Seq<u64>,
    limit: nat,
    first: Seq<usize>,
    second: Seq<usize>,
    k: int,
)
    requires
        is_ranking(keys, limit, first),
        is_ranking(keys, limit, second),
        0 <= k < first.len(),
        forall|m: int| 0 <= m < k ==> first[m] == second[m],
        first[k] != second[k],
    ensures
        outranks(keys, second[k] as int, first[k] as int),
{
    let j = first[k];
    if second.contains(j) {
        let m = choose|m: int| 0 <= m < second.len() && second[m] == j;
        if m < k {
            assert(outranks(keys, first[m] as int, first[k] as int));
        } else {
            assert(outranks(keys, second[k] as int, second[m] as int));
        }
    } else {
        let key = keys[j as int];
        assert(outranks(keys, second[k] as int, j as int));
    }
}

/// Any list that ranks the `limit` best entries of `keys` is the ranking.
pub proof fn lemma_ranking_is(keys: Seq<u64>, limit: nat, order: Seq<usize>)
    requires
        is_ranking(keys, limit, order),
    ensures
        ranking(keys, limit) == order,
{
    lemma_ranking_unique(keys, limit, ranking(keys, limit), order);
}

/// The list that the ranking of the entries before place `i` becomes when
/// entry `i` is put in at place `p`: the worst item leaves where the list was
/// full.
spec fn with_entry(before: Seq<usize>, limit: nat, p: int, i: usize) -> Seq<usize> {
    let kept = if before.len() == limit {
        before.drop_last()
    } else {
        before
    };
    kept.insert(p, i)
}

/// Whether a list that is shorter than `limit` holds every place before `n`.
spec fn holds_all(order: Seq<usize>, limit: nat, n: int) -> bool {
    order.len() < limit ==> forall|j: usize| j < n ==> order.contains(j)
}

/// Whether place `p` is where entry `i` belongs in the ranking `before` of
/// the entries before it: behind the items whose key is not smaller, before
/// the others.
spec fn belongs_at(keys: Seq<u64>, before: Seq<usize>, p: int, i: int) -> bool {
    &&& 0 <= p <= before.len()
    &&& forall|a: int| 0 <= a < p ==> keys[(#[trigger] before[a]) as int] >= keys[i]
    &&& forall|a: int| p <= a < before.len() ==> keys[(#[trigger] before[a]) as int] < keys[i]
}

/// The items of the list with a new entry, place by place.
proof fn lemma_with_entry_items(before: Seq<usize>, limit: nat, p: int, i: usize)
    requires
        0 <= p <= before.len(),
        p < limit,
        before.len() <= limit,
    ensures
        with_entry(before, limit, p, i).len() == if before.len() == limit {
            before.len()
        } else {
            before.len() + 1
        },
        forall|a: int|
            0 <= a < with_entry(before, limit, p, i).len() ==> #[trigger] with_entry(
                before,
                limit,
                p,
                i,
            )[a] == (if a < p {
                before[a]
            } else if a == p {
                i
            } else {
                before[a - 1]
            }),
        with_entry(before, limit, p, i).contains(i),
        forall|m: int|
            0 <= m < before.len() && (m < before.len() - 1 || before.len() < limit)
                ==> with_entry(before, limit, p, i).contains(#[trigger] before[m]),
{
    let after = with_entry(before, limit, p, i);
    assert(after[p] == i);
    assert forall|m: int|
        0 <= m < before.len() && (m < before.len() - 1 || before.len()
            < limit) implies after.contains(#[trigger] before[m]) by {
        if m < p {
            assert(after[m] == before[m]);
        } else {
            assert(after[m + 1] == before[m]);
        }
    }
}

/// Putting entry `i` in where it belongs turns the ranking of the entries
/// before it into the ranking of the entries up to it.
proof fn lemma_rank_insert(keys: Seq<u64>, i: usize, limit: nat, before: Seq<usize>, p: int)
    requires
        i < keys.len(),
        is_ranking(keys.take(i as int), limit, before),
        holds_all(before, limit, i as int),
        belongs_at(keys, before, p, i as int),
        p < limit,
    ensures
        is_ranking(keys.take(i + 1), limit, with_entry(before, limit, p, i)),
        holds_all(with_entry(before, limit, p, i), limit, i + 1),
{
    let seen = keys.take(i as int);
    let next = keys.take(i + 1);
    let after = with_entry(before, limit, p, i);
    lemma_with_entry_items(before, limit, p, i);
    assert forall|a: int| 0 <= a < before.len() implies (#[trigger] before[a]) < i by {}
    assert forall|a: int, b: int| 0 <= a < b < after.len() implies outranks(
        next,
        #[trigger] after[a] as int,
        #[trigger] after[b] as int,
    ) by {
        if a < p && b > p {
            assert(outranks(seen, before[a] as int, before[b - 1] as int));
        } else if a > p {
            assert(outranks(seen, before[a - 1] as int, before[b - 1] as int));
        } else if b < p {
            assert(outranks(seen, before[a] as int, before[b] as int));
        }
    }
    assert forall|j: int, k: int|
        #![trigger next[j], after[k]]
        0 <= j < next.len() && 0 <= k < after.len() && !after.contains(
            j as usize,
        ) implies outranks(next, after[k] as int, j) by {
        lemma_left_out_is_behind(keys, i, limit, before, p, j, k);
    }
    if after.len() < limit {
        assert forall|j: usize| j < i + 1 implies after.contains(j) by {
            if j < i {
                assert(before.contains(j));
                let m = choose|m: int| 0 <= m < before.len() && before[m] == j;
                assert(after.contains(before[m]));
            }
        }
    }
}

/// An earlier entry that the list with the new entry leaves out stands
/// behind each of its items.
proof fn lemma_left_out_is_behind(
    keys: Seq<u64>,
    i: usize,
    limit: nat,
    before: Seq<usize>,
    p: int,
    j: int,
    k: int,
)
    requires
        i < keys.len(),
        is_ranking(keys.take(i as int), limit, before),
        holds_all(before, limit, i as int),
        belongs_at(keys, before, p, i as int),
        p < limit,
        0 <= j <= i,
        0 <= k < with_entry(before, limit, p, i).len(),
        !with_entry(before, limit, p, i).contains(j as usize),
    ensures
        outranks(keys.take(i + 1), with_entry(before, limit, p, i)[k] as int, j),
{
    let seen = keys.take(i as int);
    let after = with_entry(before, limit, p, i);
    lemma_with_entry_items(before, limit, p, i);
    assert(j != i);
    assert(seen[j] == keys[j]);
    assert forall|a: int| 0 <= a < before.len() implies (#[trigger] before[a]) < i by {}
    if before.contains(j as usize) {
        let m = choose|m: int| 0 <= m < before.len() && before[m] == j;
        assert(m == before.len() - 1 && before.len() == limit);
        if k < p {
            assert(outranks(seen, before[k] as int, before[m] as int));
        } else if k > p {
            assert(outranks(seen, before[k - 1] as int, before[m] as int));
        } else {
            assert(keys[before[m] as int] < keys[i as int]);
        }
    } else {
        assert(before.len() == limit) by {
            if before.len() < limit {
                assert(before.contains(j as usize));
            }
        }
        if k < p {
            assert(outranks(seen, before[k] as int, j));
        } else if k > p {
            assert(outranks(seen, before[k - 1] as int, j));
        } else {
            assert(outranks(seen, before[p] as int, j));
            assert(keys[before[p] as int] < keys[i as int]);
        }
    }
}

/// An entry that belongs behind a full list leaves the ranking as it is.
proof fn lemma_rank_skip(keys: Seq<u64>, i: usize, limit: nat, before: Seq<usize>)
    requires
        i < keys.len(),
        is_ranking(keys.take(i as int), limit, before),
        belongs_at(keys, before, before.len() as int, i as int),
        before.len() >= limit,
    ensures
        is_ranking(keys.take(i + 1), limit, before),
{
    let seen = keys.take(i as int);
    let next = keys.take(i + 1);
    assert forall|a: int| 0 <= a < before.len() implies (#[trigger] before[a]) < i by {}
    assert forall|a: int, b: int| 0 <= a < b < before.len() implies outranks(
        next,
        #[trigger] before[a] as int,
        #[trigger] before[b] as int,
    ) by {
        assert(outranks(seen, before[a] as int, before[b] as int));
    }
    assert forall|j: int, k: int|
        #![trigger next[j], before[k]]
        0 <= j < next.len() && 0 <= k < before.len() && !before.contains(
            j as usize,
        ) implies outranks(next, before[k] as int, j) by {
        if j < i {
            assert(seen[j] == next[j]);
            assert(outranks(seen, before[k] as int, j));
        }
    }
}

/// The place at which entry `i` belongs in the ranking `before` of the
/// entries before it, found from place `p` on.
proof fn lemma_place_exists(keys: Seq<u64>, limit: nat, before: Seq<usize>, i: usize, p: int) -> (q:
    int)
    requires
        i < keys.len(),
        is_ranking(keys.take(i as int), limit, before),
        0 <= p <= before.len(),
        forall|a: int| 0 <= a < p ==> keys[(#[trigger] before[a]) as int] >= keys[i as int],
    ensures
        belongs_at(keys, before, q, i as int),
    decreases before.len() - p,
{
    let seen = keys.take(i as int);
    if p < before.len() && keys[before[p] as int] >= keys[i as int] {
        lemma_place_exists(keys, limit, before, i, p + 1)
    } else {
        assert forall|a: int| p <= a < before.len() implies keys[(#[trigger] before[a]) as int]
            < keys[i as int] by {
            assert(seen[before[a] as int] == keys[before[a] as int]);
            if a > p {
                assert(seen[before[p] as int] == keys[before[p] as int]);
                assert(outranks(seen, before[p] as int, before[a] as int));
            }
        }
        p
    }
}

/// A ranking of the first `n` entries.
proof fn lemma_prefix_ranking_exists(keys: Seq<u64>, limit: nat, n: nat) -> (order: Seq<usize>)
    requires
        n <= keys.len(),
        n <= usize::MAX,
    ensures
        is_ranking(keys.take(n as int), limit, order),
        holds_all(order, limit, n as int),
    decreases n,
{
    if n == 0 {
        Seq::<usize>::empty()
    } else {
        let i = (n - 1) as usize;
        let before = lemma_prefix_ranking_exists(keys, limit, (n - 1) as nat);
        let p = lemma_place_exists(keys, limit, before, i, 0);
        if p < limit {
            lemma_rank_insert(keys, i, limit, before, p);
            with_entry(before, limit, p, i)
        } else {
            lemma_rank_skip(keys, i, limit, before);
            before
        }
    }
}

/// A ranking exists: whatever the keys and the limit, `ranking` is a list
/// that ranks the `limit` best entries. The places of a ranking are machine
/// words, so there must not be more entries than a machine word can count.
pub proof fn lemma_ranking_exists(keys: Seq<u64>, limit: nat)
    requires
        keys.len() <= usize::MAX,
    ensures
        is_ranking(keys, limit, ranking(keys, limit)),
{
    let order = lemma_prefix_ranking_exists(keys, limit, keys.len());
    assert(keys.take(keys.len() as int) =~= keys);
}

/// What a ranking says of its items, spelled out: as many as the limit
/// allows, no place twice, keys never growing along the list, and no entry
/// outside the list with a larger key than one inside.
pub proof fn lemma_ranking_properties(keys: Seq<u64>, limit: nat, order: Seq<usize>)
    requires
        is_ranking(keys, limit, order),
    ensures
        order.len() <= limit,
        order.len() <= keys.len(),
        forall|a: int, b: int|
            0 <= a < b < order.len() ==> #[trigger] order[a] != #[trigger] order[b],
        forall|a: int, b: int|
            0 <= a < b < order.len() ==> keys[(#[trigger] order[a]) as int] >= keys[(
            #[trigger] order[b]) as int],
        forall|j: int, k: int|
            #![trigger keys[j], order[k]]
            0 <= j < keys.len() && 0 <= k < order.len() && !order.contains(j as usize)
                ==> keys[j] <= keys[order[k] as int],
{
    assert forall|a: int, b: int| 0 <= a < b < order.len() implies #[trigger] order[a]
        != #[trigger] order[b] && keys[order[a] as int] >= keys[order[b] as int] by {
        assert(outranks(keys, order[a] as int, order[b] as int));
    }
    assert forall|j: int, k: int|
        #![trigger keys[j], order[k]]
        0 <= j < keys.len() && 0 <= k < order.len() && !order.contains(j as usize) implies keys[j]
        <= keys[order[k] as int] by {
        assert(outranks(keys, order[k] as int, j));
    }
}

/// Ranks the `limit` best entries of `keys`, best first. Entries with equal
/// keys keep the order in which they were enumerated.
pub fn rank_top(keys: &Vec<u64>, limit: usize) -> (order: Vec<usize>)
    ensures
        is_ranking(keys@, limit as nat, order@),
        order@ == ranking(keys@, limit as nat),
{
    let mut order: Vec<usize> = Vec::new();
    let mut i: usize = 0;
    while i < keys.len()
        invariant
            i <= keys.len(),
            is_ranking(keys@.take(i as int), limit as nat, order@),
            holds_all(order@, limit as nat, i as int),
        decreases keys.len() - i,
    {
        let ghost before = order@;
        let key: u64 = keys[i];
        let mut p: usize = 0;
        while p < order.len() && keys[order[p]] >= key
            invariant
                i < keys.len(),
                p <= order.len(),
                order@ == before,
                is_ranking(keys@.take(i as int), limit as nat, before),
                key == keys@[i as int],
                forall|a: int| 0 <= a < p ==> keys@[(#[trigger] before[a]) as int] >= key,
            decreases order.len() - p,
        {
            p += 1;
        }
        proof {
            let seen = keys@.take(i as int);
            assert forall|a: int| p <= a < before.len() implies keys@[(#[trigger] before[a]) as int]
                < key by {
                assert(seen[before[a] as int] == keys@[before[a] as int]);
                if a > p {
                    assert(seen[before[p as int] as int] == keys@[before[p as int] as int]);
                    assert(outranks(seen, before[p as int] as int, before[a] as int));
                }
            }
            assert(belongs_at(keys@, before, p as int, i as int));
        }
        if p < limit {
            if order.len() == limit {
                order.pop();
            }
            order.insert(p, i);
            proof {
                assert(order@ =~= with_entry(before, limit as nat, p as int, i));
                lemma_rank_insert(keys@, i, limit as nat, before, p as int);
            }
        } else {
            proof {
                lemma_rank_skip(keys@, i, limit as nat, before);
            }
        }
        i += 1;
    }
    proof {
        assert(keys@.take(keys.len() as int) =~= keys@);
        lemma_ranking_is(keys@, limit as nat, order@);
    }
    order
}

} // verus!
