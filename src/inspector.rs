//! The spike inspector's arithmetic: which buffered records fall into a
//! bucket of a frozen throughput ring, and what they add up to.
//!
//! Bucket `i` of a ring of `len` buckets stands for the second that ended
//! `len - 1 - i` seconds before the pause instant. A record belongs to it when
//! it was captured no later than the pause and the whole seconds between its
//! capture and the pause are exactly that many.

use crate::capture::PacketData;
use crate::history::RecordBuffer;
use vstd::prelude::*;

verus! {

/// Nanoseconds in one second of the monotonic clock.
pub const NANOS_PER_SECOND: u64 = 1_000_000_000;

/// Whether a record captured at `ts` belongs to bucket `i` of a ring of `len`
/// buckets frozen at `pause`.
pub open spec fn correlates(ts: u64, len: nat, i: nat, pause: u64) -> bool {
    &&& ts <= pause
    &&& i < len
    &&& (pause - ts) / (NANOS_PER_SECOND as int) == len - 1 - i
}

/// Positions, in order, of the records among the first `n` of `recs` that
/// belong to bucket `i`.
pub open spec fn correlated_upto(recs: Seq<PacketData>, n: nat, len: nat, i: nat, pause: u64) -> Seq<
    usize,
>
    decreases n,
{
    if n == 0 {
        Seq::empty()
    } else {
        let prior = correlated_upto(recs, (n - 1) as nat, len, i, pause);
        if correlates(recs[n - 1].timestamp, len, i, pause) {
            prior.push((n - 1) as usize)
        } else {
            prior
        }
    }
}

/// Positions, in order, of the records of `recs` that belong to bucket `i`.
pub open spec fn correlated(recs: Seq<PacketData>, len: nat, i: nat, pause: u64) -> Seq<usize> {
    correlated_upto(recs, recs.len(), len, i, pause)
}

/// The summed lengths of the records at positions `idx`.
pub open spec fn bytes_at(recs: Seq<PacketData>, idx: Seq<usize>) -> nat
    decreases idx.len(),
{
    if idx.len() == 0 {
        0
    } else {
        bytes_at(recs, idx.drop_last()) + recs[idx.last() as int].length as nat
    }
}

/// How many times `a` occurs in `s`.
pub open spec fn occurrences(s: Seq<Seq<char>>, a: Seq<char>) -> nat
    decreases s.len(),
{
    if s.len() == 0 {
        0
    } else {
        occurrences(s.drop_last(), a) + if s.last() == a {
            1nat
        } else {
            0nat
        }
    }
}

/// The texts of a sequence of strings.
pub open spec fn texts(v: Seq<String>) -> Seq<Seq<char>> {
    v.map_values(|s: String| s@)
}

/// The application names of the records at positions `idx`.
pub open spec fn apps_at(recs: Seq<PacketData>, idx: Seq<usize>) -> Seq<Seq<char>> {
    idx.map_values(|k: usize| recs[k as int].app_name@)
}

/// `b` is the first position of `s` whose text occurs most often in `s`.
pub open spec fn is_dominant(s: Seq<Seq<char>>, b: int) -> bool {
    &&& 0 <= b < s.len()
    &&& forall|k: int| 0 <= k < s.len() ==> occurrences(s, s[k]) <= occurrences(s, s[b])
    &&& forall|k: int| 0 <= k < b ==> occurrences(s, s[k]) < occurrences(s, s[b])
}

/// What the inspector reports for one bucket.
pub struct SpikeSummary {
    /// Whole seconds between the bucket and the pause instant.
    pub seconds_ago: usize,
    /// The total that the ring holds for the bucket.
    pub bucket_bytes: u64,
    /// The summed lengths of the buffered records in the bucket.
    pub total_bytes: u64,
    /// How many buffered records are in the bucket.
    pub packet_count: usize,
    /// The application with the most records in the bucket, the first seen
    /// among equals; `None` for an empty bucket.
    pub dominant_app: Option<String>,
}

/// `r` is the summary of bucket `i` of the frozen ring `ring` over the
/// buffered records `recs`, for a pause at `pause`.
pub open spec fn is_summary_of(
    r: SpikeSummary,
    recs: Seq<PacketData>,
    ring: Seq<u64>,
    i: nat,
    pause: u64,
) -> bool {
    let cor = correlated(recs, ring.len(), i, pause);
    &&& r.seconds_ago == ring.len() - 1 - i
    &&& r.bucket_bytes == ring[i as int]
    &&& r.packet_count == cor.len()
    &&& r.total_bytes == if bytes_at(recs, cor) > u64::MAX {
        u64::MAX as nat
    } else {
        bytes_at(recs, cor)
    }
    &&& (r.dominant_app is None <==> cor.len() == 0)
    &&& (r.dominant_app is Some ==> exists|b: int|
        is_dominant(apps_at(recs, cor), b) && apps_at(recs, cor)[b] == r.dominant_app->0@)
}

/// Whether a record captured at `ts` belongs to bucket `index` of a ring of
/// `len` buckets frozen at `pause`.
pub fn in_bucket(ts: u64, len: usize, index: usize, pause: u64) -> (r: bool)
    ensures
        r == correlates(ts, len as nat, index as nat, pause),
{
    if ts > pause || index >= len {
        false
    } else {
        (pause - ts) / NANOS_PER_SECOND == (len - 1 - index) as u64
    }
}

/// Positions, oldest first, of the buffered records in bucket `index` of a
/// ring of `len` buckets frozen at `pause`.
pub fn correlate(records: &RecordBuffer, len: usize, index: usize, pause: u64) -> (r: Vec<usize>)
    ensures
        r@ == correlated(records@, len as nat, index as nat, pause),
{
    let n = records.len();
    let mut out: Vec<usize> = Vec::new();
    let mut k: usize = 0;
    while k < n
        invariant
            n == records@.len(),
            k <= n,
            out@ == correlated_upto(records@, k as nat, len as nat, index as nat, pause),
        decreases n - k,
    {
        if in_bucket(records.get(k).timestamp, len, index, pause) {
            out.push(k);
        }
        k = k + 1;
    }
    out
}

proof fn lemma_correlated_upto_bounds(recs: Seq<PacketData>, n: nat, len: nat, i: nat, pause: u64)
    requires
        n <= recs.len(),
    ensures
        forall|j: int|
            0 <= j < correlated_upto(recs, n, len, i, pause).len() ==> correlated_upto(
                recs,
                n,
                len,
                i,
                pause,
            )[j] < n,
        correlated_upto(recs, n, len, i, pause).len() <= n,
    decreases n,
{
    if n > 0 {
        lemma_correlated_upto_bounds(recs, (n - 1) as nat, len, i, pause);
    }
}

/// How many times the text of `target` occurs among `apps`.
fn count_occurrences(apps: &Vec<String>, target: &String) -> (r: usize)
    ensures
        r == occurrences(texts(apps@), target@),
{
    let n = apps.len();
    let mut c: usize = 0;
    let mut k: usize = 0;
    while k < n
        invariant
            n == apps@.len(),
            k <= n,
            c <= k,
            c == occurrences(texts(apps@.take(k as int)), target@),
        decreases n - k,
    {
        assert(texts(apps@.take(k + 1)).drop_last() =~= texts(apps@.take(k as int)));
        if apps[k] == *target {
            c = c + 1;
        }
        k = k + 1;
    }
    assert(apps@.take(n as int) =~= apps@);
    c
}

/// The first position among `apps` whose text occurs most often; `None`
/// where `apps` is empty.
pub fn dominant_index(apps: &Vec<String>) -> (r: Option<usize>)
    ensures
        r is None <==> apps@.len() == 0,
        r is Some ==> is_dominant(texts(apps@), r->0 as int),
{
    let n = apps.len();
    if n == 0 {
        return None;
    }
    let ghost s = texts(apps@);
    let mut best: usize = 0;
    let mut best_count = count_occurrences(apps, &apps[0]);
    let mut k: usize = 1;
    while k < n
        invariant
            n == apps@.len(),
            s == texts(apps@),
            1 <= k <= n,
            best < k,
            best_count == occurrences(s, s[best as int]),
            forall|j: int| 0 <= j < k ==> occurrences(s, s[j]) <= best_count,
            forall|j: int| 0 <= j < best ==> occurrences(s, s[j]) < best_count,
        decreases n - k,
    {
        let c = count_occurrences(apps, &apps[k]);
        if c > best_count {
            best = k;
            best_count = c;
        }
        k = k + 1;
    }
    Some(best)
}

/// The summary of bucket `index` of the frozen ring `ring`, over the buffered
/// records, for a pause at `pause`.
pub fn spike_summary(records: &RecordBuffer, ring: &Vec<u64>, index: usize, pause: u64) -> (r:
    SpikeSummary)
    requires
        index < ring@.len(),
    ensures
        is_summary_of(r, records@, ring@, index as nat, pause),
{
    let len = ring.len();
    let idx = correlate(records, len, index, pause);
    let ghost cor = idx@;
    proof {
        lemma_correlated_upto_bounds(records@, records@.len(), len as nat, index as nat, pause);
    }
    let m = idx.len();
    let mut total: u64 = 0;
    let mut apps: Vec<String> = Vec::new();
    let mut j: usize = 0;
    while j < m
        invariant
            m == cor.len(),
            idx@ == cor,
            forall|q: int| 0 <= q < cor.len() ==> cor[q] < records@.len(),
            j <= m,
            total == if bytes_at(records@, cor.take(j as int)) > u64::MAX {
                u64::MAX as nat
            } else {
                bytes_at(records@, cor.take(j as int))
            },
            apps@.len() == j,
            texts(apps@) == apps_at(records@, cor.take(j as int)),
        decreases m - j,
    {
        let rec = records.get(idx[j]);
        total = total.saturating_add(rec.length as u64);
        let ghost prev = apps@;
        let name = rec.app_name.clone();
        apps.push(name);
        assert(cor.take(j + 1).drop_last() =~= cor.take(j as int));
        assert(apps@ == prev.push(name));
        assert(name@ == records@[cor[j as int] as int].app_name@);
        assert forall|q: int| 0 <= q < j + 1 implies texts(apps@)[q] == apps_at(
            records@,
            cor.take(j + 1),
        )[q] by {
            if q < j {
                assert(texts(apps@)[q] == texts(prev)[q]);
                assert(apps_at(records@, cor.take(j + 1))[q] == apps_at(records@, cor.take(j as int))[q]);
            }
        }
        assert(texts(apps@) =~= apps_at(records@, cor.take(j + 1)));
        j = j + 1;
    }
    assert(cor.take(m as int) =~= cor);
    let dominant_app = match dominant_index(&apps) {
        Some(b) => Some(apps[b].clone()),
        None => None,
    };
    SpikeSummary {
        seconds_ago: len - 1 - index,
        bucket_bytes: ring[index],
        total_bytes: total,
        packet_count: m,
        dominant_app,
    }
}

} // verus!
