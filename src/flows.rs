//! The flow table: cumulative bytes per flow, where a flow is the tuple
//! (source, destination, protocol label, application).

use crate::text::chars_of;
use std::collections::HashMap;
use vstd::prelude::*;

verus! {

broadcast use vstd::std_specs::hash::group_hash_axioms;

/// The FNV-1a offset basis.
pub const FNV_OFFSET: u64 = 0xcbf29ce484222325;

/// The FNV-1a prime.
pub const FNV_PRIME: u64 = 0x100000001b3;

/// FNV-1a over the code points of `s`, from the running hash `h`.
pub open spec fn text_hash(h: u64, s: Seq<char>) -> u64
    decreases s.len(),
{
    if s.len() == 0 {
        h
    } else {
        (text_hash(h, s.drop_last()) ^ (s.last() as u32 as u64)).wrapping_mul(FNV_PRIME)
    }
}

/// The hash of a flow key: FNV-1a over its four texts in turn.
pub open spec fn key_hash(k: FlowKeyView) -> u64 {
    text_hash(text_hash(text_hash(text_hash(FNV_OFFSET, k.0), k.1), k.2), k.3)
}

fn hash_text(h: u64, s: &str) -> (r: u64)
    ensures
        r == text_hash(h, s@),
{
    let v = chars_of(s);
    let n = v.len();
    let mut acc = h;
    let mut i: usize = 0;
    while i < n
        invariant
            n == v@.len(),
            v@ == s@,
            i <= n,
            acc == text_hash(h, v@.take(i as int)),
        decreases n - i,
    {
        assert(v@.take(i + 1).drop_last() =~= v@.take(i as int));
        acc = (acc ^ (v[i] as u32 as u64)).wrapping_mul(FNV_PRIME);
        i = i + 1;
    }
    assert(v@.take(n as int) =~= v@);
    acc
}

/// The key of a flow.
pub struct FlowKey {
    pub source: String,
    pub dest: String,
    pub proto_label: String,
    pub app_name: String,
}

/// A flow key as text.
pub type FlowKeyView = (Seq<char>, Seq<char>, Seq<char>, Seq<char>);

impl View for FlowKey {
    type V = FlowKeyView;

    open spec fn view(&self) -> FlowKeyView {
        (self.source@, self.dest@, self.proto_label@, self.app_name@)
    }
}

/// One flow and its cumulative byte count.
pub struct FlowEntry {
    pub key: FlowKey,
    pub bytes: u64,
}

/// Adds without wrapping: the sum, or `u64::MAX` where the sum is larger.
pub open spec fn sat_add(a: u64, b: u64) -> u64 {
    if a + b > u64::MAX {
        u64::MAX
    } else {
        (a + b) as u64
    }
}

/// The flow map after `len` more bytes were seen on flow `k`.
pub open spec fn flow_add(m: Map<FlowKeyView, u64>, k: FlowKeyView, len: u64) -> Map<
    FlowKeyView,
    u64,
> {
    let prior = if m.contains_key(k) {
        m[k]
    } else {
        0
    };
    m.insert(k, sat_add(prior, len))
}

/// The map of a list of flow entries.
pub open spec fn entries_map(s: Seq<FlowEntry>) -> Map<FlowKeyView, u64>
    decreases s.len(),
{
    if s.len() == 0 {
        Map::empty()
    } else {
        entries_map(s.drop_last()).insert(s.last().key@, s.last().bytes)
    }
}

/// No two entries share a key.
pub open spec fn keys_unique(s: Seq<FlowEntry>) -> bool {
    forall|i: int, j: int| 0 <= i < s.len() && 0 <= j < s.len() && i != j ==> s[i].key@ != s[j].key@
}

/// `r` orders all positions of `s` by byte count, largest first, and keeps
/// equal counts in the order of `s`.
pub open spec fn is_ranking(s: Seq<FlowEntry>, r: Seq<usize>) -> bool {
    &&& r.len() == s.len()
    &&& forall|q: int| 0 <= q < r.len() ==> r[q] < s.len()
    &&& forall|i: int, j: int| 0 <= i < r.len() && 0 <= j < r.len() && i != j ==> r[i] != r[j]
    &&& forall|i: int, j: int|
        0 <= i < j < r.len() ==> s[r[i] as int].bytes >= s[r[j] as int].bytes && (s[r[i] as int].bytes
            == s[r[j] as int].bytes ==> r[i] < r[j])
}

/// Cumulative byte counts per flow. Entries stay in order of first
/// appearance; an index from key hashes to entry positions makes a lookup
/// scan only the entries whose keys share a hash.
pub struct FlowTable {
    entries: Vec<FlowEntry>,
    index: HashMap<u64, Vec<usize>>,
}

/// Every entry is listed under its key's hash, and everything listed under
/// a hash is an entry with that key hash.
pub open spec fn indexes(entries: Seq<FlowEntry>, index: Map<u64, Vec<usize>>) -> bool {
    &&& forall|i: int|
        #![trigger entries[i]]
        0 <= i < entries.len() ==> index.contains_key(key_hash(entries[i].key@))
            && index[key_hash(entries[i].key@)]@.contains(i as usize)
    &&& forall|h: u64, j: int|
        #![trigger index[h]@[j]]
        index.contains_key(h) && 0 <= j < index[h]@.len() ==> index[h]@[j] < entries.len()
            && key_hash(entries[index[h]@[j] as int].key@) == h
}

impl View for FlowTable {
    type V = Map<FlowKeyView, u64>;

    closed spec fn view(&self) -> Map<FlowKeyView, u64> {
        entries_map(self.entries@)
    }
}

proof fn lemma_entries_map_dom(s: Seq<FlowEntry>, k: FlowKeyView)
    ensures
        entries_map(s).contains_key(k) <==> exists|i: int| 0 <= i < s.len() && s[i].key@ == k,
    decreases s.len(),
{
    if s.len() > 0 {
        lemma_entries_map_dom(s.drop_last(), k);
        if entries_map(s.drop_last()).contains_key(k) {
            let i = choose|i: int| 0 <= i < s.drop_last().len() && s.drop_last()[i].key@ == k;
            assert(s[i].key@ == k);
        }
        if exists|i: int| 0 <= i < s.len() && s[i].key@ == k {
            let i = choose|i: int| 0 <= i < s.len() && s[i].key@ == k;
            if i < s.len() - 1 {
                assert(s.drop_last()[i].key@ == k);
            }
        }
    }
}

proof fn lemma_entries_map_update(s: Seq<FlowEntry>, i: int, e: FlowEntry)
    requires
        keys_unique(s),
        0 <= i < s.len(),
        e.key@ == s[i].key@,
    ensures
        entries_map(s.update(i, e)) == entries_map(s).insert(e.key@, e.bytes),
        keys_unique(s.update(i, e)),
    decreases s.len(),
{
    let t = s.update(i, e);
    if i == s.len() - 1 {
        assert(t.drop_last() =~= s.drop_last());
        assert(entries_map(t) =~= entries_map(s).insert(e.key@, e.bytes));
    } else {
        lemma_entries_map_update(s.drop_last(), i, e);
        assert(t.drop_last() =~= s.drop_last().update(i, e));
        assert(s.last().key@ != e.key@);
        assert(entries_map(t) =~= entries_map(s).insert(e.key@, e.bytes));
    }
}

proof fn lemma_entries_map_value(s: Seq<FlowEntry>, i: int)
    requires
        keys_unique(s),
        0 <= i < s.len(),
    ensures
        entries_map(s).contains_key(s[i].key@),
        entries_map(s)[s[i].key@] == s[i].bytes,
    decreases s.len(),
{
    if i < s.len() - 1 {
        lemma_entries_map_value(s.drop_last(), i);
    }
}

fn same_key(a: &FlowKey, b: &FlowKey) -> (r: bool)
    ensures
        r == (a@ == b@),
{
    a.source == b.source && a.dest == b.dest && a.proto_label == b.proto_label && a.app_name
        == b.app_name
}

impl FlowTable {
    /// The well-formedness of the table: no two entries share a key.
    pub closed spec fn wf(&self) -> bool {
        keys_unique(self.entries@) && indexes(self.entries@, self.index@)
    }

    /// An empty table.
    pub fn new() -> (r: FlowTable)
        ensures
            r.wf(),
            r@ == Map::<FlowKeyView, u64>::empty(),
    {
        FlowTable { entries: Vec::new(), index: HashMap::new() }
    }

    /// Number of flows.
    pub fn len(&self) -> (r: usize)
        requires
            self.wf(),
        ensures
            r == self@.dom().len(),
    {
        proof {
            lemma_entries_map_len(self.entries@);
        }
        self.entries.len()
    }

    /// The bytes seen on a flow; zero for a flow never seen.
    pub fn get(&self, key: &FlowKey) -> (r: u64)
        requires
            self.wf(),
        ensures
            r == (if self@.contains_key(key@) {
                self@[key@]
            } else {
                0
            }),
    {
        let h = Self::key_hash_of(key);
        match self.find(key, h) {
            Some(i) => {
                proof {
                    lemma_entries_map_value(self.entries@, i as int);
                }
                self.entries[i].bytes
            },
            None => {
                proof {
                    lemma_entries_map_dom(self.entries@, key@);
                }
                0
            },
        }
    }

    fn key_hash_of(key: &FlowKey) -> (r: u64)
        ensures
            r == key_hash(key@),
    {
        let h = hash_text(FNV_OFFSET, key.source.as_str());
        let h = hash_text(h, key.dest.as_str());
        let h = hash_text(h, key.proto_label.as_str());
        hash_text(h, key.app_name.as_str())
    }

    fn find(&self, key: &FlowKey, h: u64) -> (r: Option<usize>)
        requires
            self.wf(),
            h == key_hash(key@),
        ensures
            match r {
                Some(i) => i < self.entries@.len() && self.entries@[i as int].key@ == key@,
                None => forall|i: int|
                    0 <= i < self.entries@.len() ==> self.entries@[i].key@ != key@,
            },
    {
        let n = self.entries.len();
        match self.index.get(&h) {
            None => {
                assert forall|i: int| 0 <= i < self.entries@.len() implies self.entries@[i].key@
                    != key@ by {
                    assert(self.index@.contains_key(key_hash(self.entries@[i].key@)));
                }
                None
            },
            Some(bucket) => {
                let m = bucket.len();
                let mut j: usize = 0;
                while j < m
                    invariant
                        self.wf(),
                        n == self.entries@.len(),
                        h == key_hash(key@),
                        self.index@.contains_key(h),
                        bucket@ == self.index@[h]@,
                        m == bucket@.len(),
                        j <= m,
                        forall|q: int|
                            0 <= q < j ==> self.entries@[bucket@[q] as int].key@ != key@,
                    decreases m - j,
                {
                    let i = bucket[j];
                    assert(self.index@[h]@[j as int] == i);
                    if same_key(&self.entries[i].key, key) {
                        return Some(i);
                    }
                    j = j + 1;
                }
                assert forall|i: int| 0 <= i < self.entries@.len() implies self.entries@[i].key@
                    != key@ by {
                    if self.entries@[i].key@ == key@ {
                        assert(self.index@[h]@.contains(i as usize));
                        let q = choose|q: int| 0 <= q < bucket@.len() && bucket@[q] == i as usize;
                        assert(self.entries@[bucket@[q] as int].key@ != key@);
                    }
                }
                None
            },
        }
    }

    /// Adds `len` bytes to the flow `key`, creating it at zero first where it
    /// is new. The count saturates at `u64::MAX`.
    pub fn add(&mut self, key: FlowKey, len: u64)
        requires
            old(self).wf(),
        ensures
            final(self).wf(),
            final(self)@ == flow_add(old(self)@, key@, len),
    {
        let h = Self::key_hash_of(&key);
        match self.find(&key, h) {
            Some(i) => {
                let old_bytes = self.entries[i].bytes;
                let bytes = old_bytes.saturating_add(len);
                proof {
                    lemma_entries_map_value(self.entries@, i as int);
                }
                let ghost before = self.entries@;
                self.entries.set(i, FlowEntry { key, bytes });
                proof {
                    lemma_entries_map_update(before, i as int, self.entries@[i as int]);
                    assert(self.entries@ =~= before.update(i as int, self.entries@[i as int]));
                    assert forall|q: int| 0 <= q < self.entries@.len() implies #[trigger] self.entries@[q].key@ == before[q].key@ by {}
                }
            },
            None => {
                proof {
                    lemma_entries_map_dom(self.entries@, key@);
                }
                let ghost before = self.entries@;
                let ghost old_index = self.index@;
                let pos = self.entries.len();
                self.entries.push(FlowEntry { key, bytes: len });
                let mut bucket = match self.index.remove(&h) {
                    Some(b) => b,
                    None => Vec::new(),
                };
                let ghost old_bucket = bucket@;
                bucket.push(pos);
                self.index.insert(h, bucket);
                proof {
                    assert(self.entries@.drop_last() =~= before);
                    assert(sat_add(0, len) == len);
                    assert(old_index.contains_key(h) ==> old_bucket == old_index[h]@);
                    assert(!old_index.contains_key(h) ==> old_bucket == Seq::<usize>::empty());
                    assert(self.index@[h]@ == old_bucket.push(pos));
                    assert forall|i: int|
                        #![trigger self.entries@[i]]
                        0 <= i < self.entries@.len() implies self.index@.contains_key(
                        key_hash(self.entries@[i].key@),
                    ) && self.index@[key_hash(self.entries@[i].key@)]@.contains(i as usize) by {
                        if i < pos {
                            let hi = key_hash(before[i].key@);
                            assert(old_index[hi]@.contains(i as usize));
                            if hi == h {
                                let q = choose|q: int| 0 <= q < old_bucket.len() && old_bucket[q] == i as usize;
                                assert(self.index@[h]@[q] == i as usize);
                            }
                        } else {
                            assert(self.index@[h]@[old_bucket.len() as int] == pos);
                        }
                    }
                    assert forall|g: u64, j: int|
                        #![trigger self.index@[g]@[j]]
                        self.index@.contains_key(g) && 0 <= j < self.index@[g]@.len() implies self.index@[g]@[j]
                        < self.entries@.len() && key_hash(self.entries@[self.index@[g]@[j] as int].key@) == g by {
                        if g == h {
                            if j < old_bucket.len() {
                                assert(old_index[h]@[j] == old_bucket[j]);
                            }
                        } else {
                            assert(old_index[g]@[j] == self.index@[g]@[j]);
                        }
                    }
                    assert(keys_unique(self.entries@));
                }
            },
        }
    }

    /// Forgets every flow.
    pub fn clear(&mut self)
        ensures
            final(self).wf(),
            final(self)@ == Map::<FlowKeyView, u64>::empty(),
    {
        self.entries.clear();
        self.index.clear();
    }

    /// The entries, in order of first appearance.
    pub closed spec fn entry_list(&self) -> Seq<FlowEntry> {
        self.entries@
    }

    /// The entries, in order of first appearance.
    pub fn entries(&self) -> (r: &Vec<FlowEntry>)
        ensures
            r@ == self.entry_list(),
            entries_map(r@) == self@,
            self.wf() ==> keys_unique(r@),
    {
        &self.entries
    }

    /// Positions of the entries, largest byte count first; entries with
    /// equal counts keep their order of first appearance.
    pub fn ranked(&self) -> (r: Vec<usize>)
        ensures
            is_ranking(self.entry_list(), r@),
    {
        let n = self.entries.len();
        let mut r: Vec<usize> = Vec::new();
        let mut k: usize = 0;
        while k < n
            invariant
                n == self.entries@.len(),
                k <= n,
                is_ranking(self.entries@.take(k as int), r@),
            decreases n - k,
        {
            let ghost s = self.entries@;
            let b = self.entries[k].bytes;
            let m = r.len();
            let mut p: usize = 0;
            while p < m && self.entries[r[p]].bytes >= b
                invariant
                    n == self.entries@.len(),
                    k < n,
                    m == r@.len(),
                    p <= m,
                    b == s[k as int].bytes,
                    s == self.entries@,
                    is_ranking(s.take(k as int), r@),
                    forall|q: int| 0 <= q < p ==> s[r@[q] as int].bytes >= b,
                decreases m - p,
            {
                p = p + 1;
            }
            let ghost old_r = r@;
            r.insert(p, k);
            proof {
                let t = s.take(k + 1);
                assert forall|q: int| p <= q < m implies s[old_r[q] as int].bytes < b by {
                    assert(s.take(k as int)[old_r[p as int] as int].bytes >= s.take(k as int)[old_r[q] as int].bytes || q == p);
                }
                assert(r@ == old_r.insert(p as int, k));
                assert forall|q: int| 0 <= q < r@.len() implies r@[q] < k + 1 by {}
                assert forall|i: int, j: int| 0 <= i < r@.len() && 0 <= j < r@.len() && i != j implies r@[i] != r@[j] by {}
                assert forall|i: int, j: int| 0 <= i < j < r@.len() implies t[r@[i] as int].bytes >= t[r@[j] as int].bytes && (t[r@[i] as int].bytes == t[r@[j] as int].bytes ==> r@[i] < r@[j]) by {
                    if i < p && j < p {
                        assert(s.take(k as int)[old_r[i] as int].bytes >= s.take(k as int)[old_r[j] as int].bytes);
                    } else if i < p && j == p {
                    } else if i < p && j > p {
                        assert(s.take(k as int)[old_r[i] as int].bytes >= s.take(k as int)[old_r[j - 1] as int].bytes);
                    } else if i == p {
                    } else {
                        assert(s.take(k as int)[old_r[i - 1] as int].bytes >= s.take(k as int)[old_r[j - 1] as int].bytes);
                    }
                }
            }
            k = k + 1;
        }
        assert(self.entries@.take(n as int) =~= self.entries@);
        r
    }
}

proof fn lemma_entries_map_len(s: Seq<FlowEntry>)
    requires
        keys_unique(s),
    ensures
        entries_map(s).dom().finite(),
        entries_map(s).dom().len() == s.len(),
    decreases s.len(),
{
    if s.len() > 0 {
        let t = s.drop_last();
        assert(keys_unique(t));
        lemma_entries_map_len(t);
        lemma_entries_map_dom(t, s.last().key@);
    }
}

/// Bytes on flow `k` in a sequence of (flow, length) deliveries, summed.
pub open spec fn delivered_bytes(d: Seq<(FlowKeyView, u64)>, k: FlowKeyView) -> nat
    decreases d.len(),
{
    if d.len() == 0 {
        0
    } else {
        delivered_bytes(d.drop_last(), k) + if d.last().0 == k {
            d.last().1 as nat
        } else {
            0
        }
    }
}

/// The flow map after a sequence of deliveries, one `flow_add` each, in order.
pub open spec fn flows_after(m: Map<FlowKeyView, u64>, d: Seq<(FlowKeyView, u64)>) -> Map<
    FlowKeyView,
    u64,
>
    decreases d.len(),
{
    if d.len() == 0 {
        m
    } else {
        flow_add(flows_after(m, d.drop_last()), d.last().0, d.last().1)
    }
}

/// The bytes counted for a flow after deliveries into an empty table: the sum
/// of the lengths delivered on that flow (held at `u64::MAX`), whatever the
/// order in which they came.
pub proof fn lemma_flow_totals(d: Seq<(FlowKeyView, u64)>, k: FlowKeyView)
    ensures
        flows_after(Map::empty(), d).contains_key(k) <==> exists|i: int|
            0 <= i < d.len() && d[i].0 == k,
        (if flows_after(Map::empty(), d).contains_key(k) {
            flows_after(Map::empty(), d)[k] as nat
        } else {
            0
        }) == if delivered_bytes(d, k) > u64::MAX {
            u64::MAX as nat
        } else {
            delivered_bytes(d, k)
        },
    decreases d.len(),
{
    if d.len() > 0 {
        let t = d.drop_last();
        lemma_flow_totals(t, k);
        if exists|i: int| 0 <= i < t.len() && t[i].0 == k {
            let i = choose|i: int| 0 <= i < t.len() && t[i].0 == k;
            assert(d[i].0 == k);
        }
        if exists|i: int| 0 <= i < d.len() && d[i].0 == k {
            let i = choose|i: int| 0 <= i < d.len() && d[i].0 == k;
            if i < d.len() - 1 {
                assert(t[i].0 == k);
            }
        }
    }
}

proof fn lemma_delivered_bytes_concat(x: Seq<(FlowKeyView, u64)>, y: Seq<(FlowKeyView, u64)>, k: FlowKeyView)
    ensures
        delivered_bytes(x + y, k) == delivered_bytes(x, k) + delivered_bytes(y, k),
    decreases y.len(),
{
    if y.len() == 0 {
        assert(x + y =~= x);
    } else {
        lemma_delivered_bytes_concat(x, y.drop_last(), k);
        assert((x + y).drop_last() =~= x + y.drop_last());
    }
}

/// Delivering two records in either order leaves the same flow map; since
/// every reordering is a series of such swaps, the totals do not depend on
/// the order of arrival.
pub proof fn lemma_flow_swap(
    before: Seq<(FlowKeyView, u64)>,
    a: (FlowKeyView, u64),
    b: (FlowKeyView, u64),
    after: Seq<(FlowKeyView, u64)>,
)
    ensures
        flows_after(Map::empty(), before + seq![a, b] + after) == flows_after(
            Map::empty(),
            before + seq![b, a] + after,
        ),
{
    let d = before + seq![a, b] + after;
    let e = before + seq![b, a] + after;
    assert forall|k: FlowKeyView| #[trigger] flows_after(Map::empty(), d).contains_key(k)
        == flows_after(Map::empty(), e).contains_key(k) && (flows_after(
        Map::empty(),
        d,
    ).contains_key(k) ==> flows_after(Map::empty(), d)[k] == flows_after(Map::empty(), e)[k]) by {
        lemma_flow_totals(d, k);
        lemma_flow_totals(e, k);
        lemma_delivered_bytes_concat(before + seq![a, b], after, k);
        lemma_delivered_bytes_concat(before, seq![a, b], k);
        lemma_delivered_bytes_concat(before + seq![b, a], after, k);
        lemma_delivered_bytes_concat(before, seq![b, a], k);
        assert(seq![a, b].drop_last() =~= seq![a]);
        assert(seq![b, a].drop_last() =~= seq![b]);
        assert(seq![a].drop_last() =~= Seq::<(FlowKeyView, u64)>::empty());
        assert(seq![b].drop_last() =~= Seq::<(FlowKeyView, u64)>::empty());
        assert(delivered_bytes(Seq::<(FlowKeyView, u64)>::empty(), k) == 0);
        assert(delivered_bytes(seq![a], k) == delivered_bytes(Seq::<(FlowKeyView, u64)>::empty(), k) + if a.0 == k {
            a.1 as nat
        } else {
            0
        });
        assert(delivered_bytes(seq![b], k) == delivered_bytes(Seq::<(FlowKeyView, u64)>::empty(), k) + if b.0 == k {
            b.1 as nat
        } else {
            0
        });
        assert(delivered_bytes(seq![a, b], k) == delivered_bytes(seq![b, a], k));
        let n = before.len() as int;
        if exists|i: int| 0 <= i < d.len() && d[i].0 == k {
            let i = choose|i: int| 0 <= i < d.len() && d[i].0 == k;
            let j = if i == n {
                n + 1
            } else if i == n + 1 {
                n
            } else {
                i
            };
            assert(e[j].0 == k);
        }
        if exists|i: int| 0 <= i < e.len() && e[i].0 == k {
            let i = choose|i: int| 0 <= i < e.len() && e[i].0 == k;
            let j = if i == n {
                n + 1
            } else if i == n + 1 {
                n
            } else {
                i
            };
            assert(d[j].0 == k);
        }
    }
    assert(flows_after(Map::empty(), d) =~= flows_after(Map::empty(), e));
}

} // verus!
