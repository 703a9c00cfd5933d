//! The policy of the document and tree caches: when an entry has expired
//! and which entries leave when a cache is over its limit.

use vstd::prelude::*;

verus! {

/// The most syntax trees kept.
pub const MAX_CACHED_TREES: usize = 20;

/// The most documents kept.
pub const MAX_CACHED_DOCUMENTS: usize = 50;

/// The seconds after which an entry has expired.
pub const CACHE_TTL_SECONDS: u64 = 300;

/// The nanoseconds after which an entry has expired.
pub const CACHE_TTL_NANOS: u128 = 300_000_000_000;

/// A cached value with the time, in nanoseconds, at which it was stored.
#[derive(Clone, Debug)]
pub struct CacheEntry<T> {
    pub data: T,
    pub timestamp: u128,
}

/// Whether an entry stored at `timestamp` has expired at `now`, both in
/// nanoseconds: more than `CACHE_TTL_SECONDS` have passed. A clock that
/// went back has let no time pass.
pub open spec fn expired_at(timestamp: u128, now: u128) -> bool {
    now > timestamp && now - timestamp > CACHE_TTL_SECONDS * 1_000_000_000
}

impl<T> CacheEntry<T> {
    /// An entry stored at `now`.
    pub fn new(data: T, now: u128) -> (entry: Self)
        ensures
            entry.data == data,
            entry.timestamp == now,
    {
        CacheEntry { data, timestamp: now }
    }

    /// Whether the entry has expired at `now`.
    pub fn is_expired(&self, now: u128) -> (r: bool)
        ensures
            r == expired_at(self.timestamp, now),
    {
        now > self.timestamp && now - self.timestamp > CACHE_TTL_NANOS
    }
}

/// The entries among the first `k` that have expired at `now`, by index.
pub open spec fn expired_upto(timestamps: Seq<u128>, now: u128, k: int) -> Seq<usize>
    decreases k,
{
    if k <= 0 {
        Seq::empty()
    } else if expired_at(timestamps[k - 1], now) {
        expired_upto(timestamps, now, k - 1).push((k - 1) as usize)
    } else {
        expired_upto(timestamps, now, k - 1)
    }
}

/// The indices of the entries that have expired at `now`, in order.
pub fn expired_entries(timestamps: &Vec<u128>, now: u128) -> (r: Vec<usize>)
    ensures
        r@ == expired_upto(timestamps@, now, timestamps@.len() as int),
{
    let mut out: Vec<usize> = Vec::new();
    let mut i: usize = 0;
    while i < timestamps.len()
        invariant
            i <= timestamps@.len(),
            out@ == expired_upto(timestamps@, now, i as int),
        decreases timestamps@.len() - i,
    {
        if now > timestamps[i] && now - timestamps[i] > CACHE_TTL_NANOS {
            out.push(i);
        }
        i += 1;
    }
    out
}

/// Whether `chosen` is a choice of the oldest entries that brings a cache
/// down to `limit`: as many distinct entries as the cache is over, none of
/// them newer than an entry that stays.
pub open spec fn evicts_oldest(timestamps: Seq<u128>, limit: int, chosen: Seq<usize>) -> bool {
    &&& chosen.len() == if timestamps.len() > limit {
        timestamps.len() - limit
    } else {
        0
    }
    &&& forall|a: int| 0 <= a < chosen.len() ==> (#[trigger] chosen[a]) < timestamps.len()
    &&& forall|a: int, b: int| 0 <= a < b < chosen.len() ==> chosen[a] != chosen[b]
    &&& forall|a: int, k: int|
        0 <= a < chosen.len() && 0 <= k < timestamps.len() && !chosen.contains(k as usize)
            ==> timestamps[(#[trigger] chosen[a]) as int] <= #[trigger] timestamps[k]
}

/// The oldest entry that is not marked, if there is one.
fn oldest_remaining(timestamps: &Vec<u128>, taken: &Vec<bool>) -> (best: Option<usize>)
    requires
        taken@.len() == timestamps@.len(),
    ensures
        match best {
            Some(b) => b < timestamps@.len() && !taken@[b as int] && forall|w: int|
                0 <= w < timestamps@.len() && !taken@[w] ==> timestamps@[b as int]
                    <= #[trigger] timestamps@[w],
            None => forall|w: int| 0 <= w < timestamps@.len() ==> #[trigger] taken@[w],
        },
{
    let n = timestamps.len();
    let mut k: usize = 0;
    while k < n && taken[k]
        invariant
            k <= n,
            n == timestamps@.len(),
            taken@.len() == n,
            forall|w: int| 0 <= w < k ==> #[trigger] taken@[w],
        decreases n - k,
    {
        k += 1;
    }
    if k >= n {
        return None;
    }
    let mut best: usize = k;
    k += 1;
    while k < n
        invariant
            best < k <= n,
            n == timestamps@.len(),
            taken@.len() == n,
            !taken@[best as int],
            forall|w: int|
                0 <= w < k && !taken@[w] ==> timestamps@[best as int] <= #[trigger] timestamps@[w],
        decreases n - k,
    {
        if !taken[k] && timestamps[k] < timestamps[best] {
            best = k;
        }
        k += 1;
    }
    Some(best)
}

/// The entries that leave a cache over its limit: the oldest ones, as
/// many as the cache is over. Which of two entries of the same age leaves
/// is not fixed.
pub fn entries_to_evict(timestamps: &Vec<u128>, limit: usize) -> (chosen: Vec<usize>)
    ensures
        evicts_oldest(timestamps@, limit as int, chosen@),
{
    let n = timestamps.len();
    let mut chosen: Vec<usize> = Vec::new();
    if n <= limit {
        return chosen;
    }
    let excess = n - limit;
    let mut taken: Vec<bool> = Vec::new();
    let mut f: usize = 0;
    while f < n
        invariant
            f <= n,
            taken@.len() == f,
            forall|k: int| 0 <= k < f ==> !taken@[k],
        decreases n - f,
    {
        taken.push(false);
        f += 1;
    }
    while chosen.len() < excess
        invariant
            n == timestamps@.len(),
            taken@.len() == n,
            excess == n - limit,
            chosen@.len() <= excess,
            forall|a: int| 0 <= a < chosen@.len() ==> (#[trigger] chosen@[a]) < n,
            forall|a: int| 0 <= a < chosen@.len() ==> taken@[(#[trigger] chosen@[a]) as int],
            forall|k: int| 0 <= k < n && #[trigger] taken@[k] ==> chosen@.contains(k as usize),
            forall|a: int, b: int| 0 <= a < b < chosen@.len() ==> chosen@[a] != chosen@[b],
            forall|a: int, k: int|
                0 <= a < chosen@.len() && 0 <= k < n && !taken@[k] ==> timestamps@[(
                #[trigger] chosen@[a]) as int] <= #[trigger] timestamps@[k],
        decreases excess - chosen@.len(),
    {
        let best = oldest_remaining(timestamps, &taken);
        match best {
            Some(b) => {
                let ghost before = chosen@;
                taken.set(b, true);
                chosen.push(b);
                proof {
                    assert(chosen@[before.len() as int] == b);
                    assert forall|w: int| 0 <= w < n && #[trigger] taken@[w] implies chosen@.contains(
                        w as usize,
                    ) by {
                        if w != b {
                            let a = choose|a: int| 0 <= a < before.len() && before[a] == w as usize;
                            assert(chosen@[a] == w as usize);
                        }
                    }
                }
            },
            None => {
                proof {
                    lemma_all_taken(taken@, chosen@);
                }
                return chosen;
            },
        }
    }
    chosen
}

/// Distinct indices below a bound are no more than the bound.
proof fn lemma_all_taken(taken: Seq<bool>, chosen: Seq<usize>)
    requires
        taken.len() <= usize::MAX,
        forall|k: int| 0 <= k < taken.len() ==> #[trigger] taken[k],
        forall|a: int| 0 <= a < chosen.len() ==> (#[trigger] chosen[a]) < taken.len(),
        forall|a: int, b: int| 0 <= a < b < chosen.len() ==> chosen[a] != chosen[b],
        forall|k: int| 0 <= k < taken.len() && #[trigger] taken[k] ==> chosen.contains(k as usize),
    ensures
        chosen.len() == taken.len(),
{
    let s = chosen.to_set();
    chosen.unique_seq_to_set();
    let full = Set::new(|x: usize| x < taken.len());
    assert(s =~= full) by {
        assert forall|x: usize| full.contains(x) implies s.contains(x) by {
            assert(taken[x as int]);
        }
        assert forall|x: usize| s.contains(x) implies full.contains(x) by {
            let a = choose|a: int| 0 <= a < chosen.len() && chosen[a] == x;
        }
    }
    lemma_below_count(taken.len());
}

/// There are `n` machine integers below `n`.
proof fn lemma_below_count(n: nat)
    requires
        n <= usize::MAX + 1,
    ensures
        Set::new(|x: usize| x < n).finite(),
        Set::new(|x: usize| x < n).len() == n,
    decreases n,
{
    let s = Set::new(|x: usize| x < n);
    if n == 0 {
        assert(s =~= Set::<usize>::empty());
    } else {
        lemma_below_count((n - 1) as nat);
        let prev = Set::new(|x: usize| x < (n - 1) as nat);
        assert(s =~= prev.insert((n - 1) as usize));
    }
}

} // verus!
