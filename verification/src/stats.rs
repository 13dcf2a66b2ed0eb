//! Merging of the counters that make up the statistics of a load test.
use std::collections::BTreeMap;
use std::collections::HashMap;

use vstd::prelude::*;
use vstd::std_specs::iter::IteratorSpec;

verus! {

/// The counters of `m`, as natural numbers.
pub open spec fn counts<K>(m: Map<K, usize>) -> Map<K, nat> {
    m.map_values(|c: usize| c as nat)
}

/// What `m` has counted for `k`: nothing, where `k` is not in `m`.
pub open spec fn count_of<K>(m: Map<K, nat>, k: K) -> nat {
    if m.contains_key(k) {
        m[k]
    } else {
        0
    }
}

/// The counters of `a` and `b` added up key by key.
pub open spec fn merge_counts<K>(a: Map<K, nat>, b: Map<K, nat>) -> Map<K, nat> {
    Map::new(
        |k: K| a.contains_key(k) || b.contains_key(k),
        |k: K| count_of(a, k) + count_of(b, k),
    )
}

/// Whether every counter of `merge_counts(a, b)` fits in a `usize`.
pub open spec fn counts_fit<K>(a: Map<K, nat>, b: Map<K, nat>) -> bool {
    forall|k: K|
        a.contains_key(k) && #[trigger] b.contains_key(k) ==> a[k] + b[k] <= usize::MAX
}

/// Whether `pairs` lists the entries of `m`, each key once.
spec fn lists<K, V>(pairs: Seq<(&K, &V)>, m: Map<K, V>) -> bool {
    &&& forall|i: int|
        0 <= i < pairs.len() ==> m.contains_key(*(#[trigger] pairs[i]).0) && m[*pairs[i].0]
            == *pairs[i].1
    &&& forall|i: int, j: int|
        0 <= i < j < pairs.len() ==> *(#[trigger] pairs[i]).0 != *(#[trigger] pairs[j]).0
    &&& forall|k: K| #[trigger] m.contains_key(k) ==> exists|i: int|
        0 <= i < pairs.len() && *(#[trigger] pairs[i]).0 == k
}

/// An iterator that yields each entry of `m` once lists `m`.
proof fn lemma_lists<K, V>(pairs: Seq<(&K, &V)>, m: Map<K, V>)
    requires
        pairs.no_duplicates(),
        forall|i: int|
            0 <= i < pairs.len() ==> m.contains_key(*(#[trigger] pairs[i]).0) && m[*pairs[i].0]
                == *pairs[i].1,
        forall|k: K| #[trigger] m.contains_key(k) ==> pairs.contains((&k, &m[k])),
    ensures
        lists(pairs, m),
{
    assert forall|i: int, j: int| 0 <= i < j < pairs.len() implies *(#[trigger] pairs[i]).0 != *(
    #[trigger] pairs[j]).0 by {
        if *pairs[i].0 == *pairs[j].0 {
            assert(pairs[i] == pairs[j]);
        }
    }
    assert forall|k: K| #[trigger] m.contains_key(k) implies exists|i: int|
        0 <= i < pairs.len() && *(#[trigger] pairs[i]).0 == k by {
        let i = choose|i: int| 0 <= i < pairs.len() && pairs[i] == (&k, &m[k]);
        assert(*pairs[i].0 == k);
    }
}

/// The keys of the first `n` pairs.
spec fn keys_before<K, V>(pairs: Seq<(&K, &V)>, n: int) -> Set<K> {
    Set::new(|k: K| exists|i: int| 0 <= i < n && *(#[trigger] pairs[i]).0 == k)
}

/// Adding one more pair of `m` to a merge of `base` with the first `n` pairs.
proof fn lemma_merge_next<K>(
    base: Map<K, usize>,
    m: Map<K, usize>,
    pairs: Seq<(&K, &usize)>,
    n: int,
    merged: Map<K, usize>,
)
    requires
        0 <= n < pairs.len(),
        lists(pairs, m),
        counts_fit(counts(base), counts(m)),
        counts(merged) == merge_counts(
            counts(base),
            counts(m.restrict(keys_before(pairs, n))),
        ),
    ensures
        ({
            let k = *pairs[n].0;
            let c = *pairs[n].1;
            let seen = count_of(counts(merged), k);
            &&& merged.contains_key(k) ==> merged[k] == seen
            &&& seen + c <= usize::MAX
            &&& counts(merged.insert(k, (seen + c) as usize)) == merge_counts(
                counts(base),
                counts(m.restrict(keys_before(pairs, n + 1))),
            )
        }),
{
    let k = *pairs[n].0;
    let c = *pairs[n].1;
    let before = m.restrict(keys_before(pairs, n));
    let after = m.restrict(keys_before(pairs, n + 1));
    assert(pairs[n] == pairs[n]);
    assert(!before.contains_key(k));
    assert(m.contains_key(k) && m[k] == c);
    assert(counts(m).contains_key(k));
    assert(counts(merged).contains_key(k) == counts(base).contains_key(k));
    let seen = count_of(counts(merged), k);
    assert(seen + c <= usize::MAX);
    let next = counts(merged.insert(k, (seen + c) as usize));
    let goal = merge_counts(counts(base), counts(after));
    lemma_key_before_next(pairs, n);
    assert forall|x: K| next.contains_key(x) == #[trigger] goal.contains_key(x) by {
        assert(counts(merged).contains_key(x) == (counts(base).contains_key(x) || counts(
            before,
        ).contains_key(x)));
    }
    assert forall|x: K| #[trigger] next.contains_key(x) implies next[x] == goal[x] by {
        if x != k {
            assert(counts(merged).contains_key(x));
            assert(counts(merged)[x] == count_of(counts(base), x) + count_of(counts(before), x));
        }
    }
    assert(next =~= goal);
}

/// Once all pairs have been seen, nothing of `m` is missing.
proof fn lemma_all_seen<K>(m: Map<K, usize>, pairs: Seq<(&K, &usize)>)
    requires
        lists(pairs, m),
    ensures
        m.restrict(keys_before(pairs, pairs.len() as int)) == m,
{
    assert(m.restrict(keys_before(pairs, pairs.len() as int)) =~= m);
}

/// Before any pair has been seen, a merge is what it started from.
proof fn lemma_none_seen<K>(base: Map<K, usize>, m: Map<K, usize>, pairs: Seq<(&K, &usize)>)
    ensures
        counts(base) == merge_counts(counts(base), counts(m.restrict(keys_before(pairs, 0)))),
{
    assert(counts(base) =~= merge_counts(
        counts(base),
        counts(m.restrict(keys_before(pairs, 0))),
    ));
}

/// The keys of one more pair are those before and that of the pair itself.
proof fn lemma_key_before_next<K, V>(pairs: Seq<(&K, &V)>, n: int)
    requires
        0 <= n < pairs.len(),
    ensures
        keys_before(pairs, n + 1) == keys_before(pairs, n).insert(*pairs[n].0),
{
    assert forall|k: K| #[trigger]
        keys_before(pairs, n + 1).contains(k) == keys_before(pairs, n).insert(
            *pairs[n].0,
        ).contains(k) by {
        if keys_before(pairs, n).contains(k) {
            let i = choose|i: int| 0 <= i < n && *(#[trigger] pairs[i]).0 == k;
            assert(0 <= i < n + 1 && *pairs[i].0 == k);
        }
        assert(*pairs[n].0 == *pairs[n].0);
    }
    assert(keys_before(pairs, n + 1) =~= keys_before(pairs, n).insert(*pairs[n].0));
}

/// Sums that fit for every pair seen fit for all of `m`, once all pairs have been seen.
proof fn lemma_fit_when_all_seen<K>(
    base: Map<K, usize>,
    m: Map<K, usize>,
    pairs: Seq<(&K, &usize)>,
)
    requires
        lists(pairs, m),
        forall|k: K|
            base.contains_key(k) && #[trigger] keys_before(pairs, pairs.len() as int).contains(k)
                ==> base[k] + m[k] <= usize::MAX,
    ensures
        counts_fit(counts(base), counts(m)),
{
    assert forall|k: K|
        counts(base).contains_key(k) && #[trigger] counts(m).contains_key(k) implies counts(base)[k]
        + counts(m)[k] <= usize::MAX by {
        assert(m.contains_key(k));
        assert(keys_before(pairs, pairs.len() as int).contains(k));
    }
}

/// Merges the response times of a user into the global response times.
pub fn merge_response_times(
    global_response_times: BTreeMap<usize, usize>,
    local_response_times: BTreeMap<usize, usize>,
) -> (merged: BTreeMap<usize, usize>)
    requires
        counts_fit(counts(global_response_times@), counts(local_response_times@)),
    ensures
        counts(merged@) == merge_counts(
            counts(global_response_times@),
            counts(local_response_times@),
        ),
{
    broadcast use vstd::laws_cmp::group_laws_cmp;

    let ghost global = global_response_times@;
    let ghost local = local_response_times@;
    let mut merged = global_response_times;
    let times = local_response_times.iter();
    let ghost pairs = times.remaining();
    proof {
        lemma_lists(pairs, local);
        lemma_none_seen(global, local, pairs);
    }
    for (response_time, count) in it: times
        invariant
            counts_fit(counts(global), counts(local)),
            it.seq() == pairs,
            lists(pairs, local),
            counts(merged@) == merge_counts(
                counts(global),
                counts(local.restrict(keys_before(pairs, it.index()))),
            ),
    {
        proof {
            lemma_merge_next(global, local, pairs, it.index(), merged@);
        }
        let total: usize = match merged.get(response_time) {
            Some(seen) => *seen + *count,
            None => *count,
        };
        merged.insert(*response_time, total);
    }
    proof {
        lemma_all_seen(local, pairs);
    }
    merged
}

/// Whether merging the response times of a user keeps every counter within a `usize`.
pub fn response_times_fit(
    global_response_times: &BTreeMap<usize, usize>,
    local_response_times: &BTreeMap<usize, usize>,
) -> (fit: bool)
    ensures
        fit == counts_fit(counts(global_response_times@), counts(local_response_times@)),
{
    broadcast use vstd::laws_cmp::group_laws_cmp;

    let ghost global = global_response_times@;
    let ghost local = local_response_times@;
    let times = local_response_times.iter();
    let ghost pairs = times.remaining();
    proof {
        lemma_lists(pairs, local);
    }
    for (response_time, count) in it: times
        invariant
            global == global_response_times@,
            local == local_response_times@,
            it.seq() == pairs,
            lists(pairs, local),
            forall|k: usize|
                global.contains_key(k) && #[trigger] keys_before(pairs, it.index()).contains(k)
                    ==> global[k] + local[k] <= usize::MAX,
    {
        proof {
            lemma_key_before_next(pairs, it.index());
        }
        if let Some(seen) = global_response_times.get(response_time) {
            if usize::MAX - *seen < *count {
                assert(counts(global).contains_key(*response_time));
                assert(counts(local).contains_key(*response_time));
                return false;
            }
        }
    }
    proof {
        lemma_fit_when_all_seen(global, local, pairs);
    }
    true
}

/// Merges the status code counts of a user into the global status code counts.
pub fn merge_status_code_counts(
    global_counts: HashMap<u16, usize>,
    local_counts: &HashMap<u16, usize>,
) -> (merged: HashMap<u16, usize>)
    requires
        counts_fit(counts(global_counts@), counts(local_counts@)),
    ensures
        counts(merged@) == merge_counts(counts(global_counts@), counts(local_counts@)),
{
    let ghost global = global_counts@;
    let ghost local = local_counts@;
    let mut merged = global_counts;
    let codes = local_counts.iter();
    let ghost pairs = codes.remaining();
    proof {
        lemma_lists(pairs, local);
        lemma_none_seen(global, local, pairs);
    }
    for (status_code, count) in it: codes
        invariant
            counts_fit(counts(global), counts(local)),
            it.seq() == pairs,
            lists(pairs, local),
            counts(merged@) == merge_counts(
                counts(global),
                counts(local.restrict(keys_before(pairs, it.index()))),
            ),
    {
        proof {
            lemma_merge_next(global, local, pairs, it.index(), merged@);
        }
        let new_count: usize = match merged.get(status_code) {
            // Add the user's count to the global count.
            Some(existing) => *existing + *count,
            // No global count exists yet, so start with the user's count.
            None => *count,
        };
        merged.insert(*status_code, new_count);
    }
    proof {
        lemma_all_seen(local, pairs);
    }
    merged
}

/// Whether merging the status code counts of a user keeps every counter within a `usize`.
pub fn status_code_counts_fit(
    global_counts: &HashMap<u16, usize>,
    local_counts: &HashMap<u16, usize>,
) -> (fit: bool)
    ensures
        fit == counts_fit(counts(global_counts@), counts(local_counts@)),
{
    let ghost global = global_counts@;
    let ghost local = local_counts@;
    let codes = local_counts.iter();
    let ghost pairs = codes.remaining();
    proof {
        lemma_lists(pairs, local);
    }
    for (status_code, count) in it: codes
        invariant
            global == global_counts@,
            local == local_counts@,
            it.seq() == pairs,
            lists(pairs, local),
            forall|k: u16|
                global.contains_key(k) && #[trigger] keys_before(pairs, it.index()).contains(k)
                    ==> global[k] + local[k] <= usize::MAX,
    {
        proof {
            lemma_key_before_next(pairs, it.index());
        }
        if let Some(seen) = global_counts.get(status_code) {
            if usize::MAX - *seen < *count {
                assert(counts(global).contains_key(*status_code));
                assert(counts(local).contains_key(*status_code));
                return false;
            }
        }
    }
    proof {
        lemma_fit_when_all_seen(global, local, pairs);
    }
    true
}

/// The shorter of two fastest response times, where 0 stands for no response yet.
pub open spec fn fastest(a: nat, b: nat) -> nat {
    if a == 0 {
        b
    } else if b == 0 || a <= b {
        a
    } else {
        b
    }
}

/// The longer of two slowest response times.
pub open spec fn slowest(a: nat, b: nat) -> nat {
    if a < b {
        b
    } else {
        a
    }
}

/// Updates the global fastest response time with that of a user.
pub fn update_min_response_time(global_min: usize, min: usize) -> (updated: usize)
    ensures
        updated == fastest(global_min as nat, min as nat),
{
    if global_min == 0 || (min > 0 && min < global_min) {
        min
    } else {
        global_min
    }
}

/// Updates the global slowest response time with that of a user.
pub fn update_max_response_time(global_max: usize, max: usize) -> (updated: usize)
    ensures
        updated == slowest(global_max as nat, max as nat),
{
    if global_max < max {
        max
    } else {
        global_max
    }
}

} // verus!
