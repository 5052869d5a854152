//! The consumer side of the monitor: flow aggregation, the throughput ring
//! with its current-second accumulator, the record buffer, and the
//! LIVE/PAUSED state machine of the spike inspector.

use crate::capture::PacketData;
use crate::filter::{filter_records, passing_upto};
use crate::flows::{flow_add, sat_add, FlowKey, FlowKeyView, FlowTable};
use crate::history::{slide, RecordBuffer, ThroughputRing, BUFFER_CAPACITY, RING_CAPACITY};
use crate::inspector::{
    correlate, correlated, is_summary_of, spike_summary, SpikeSummary, NANOS_PER_SECOND,
};
use std::collections::VecDeque;
use vstd::prelude::*;

verus! {

broadcast use vstd::std_specs::vecdeque::group_vec_dequeue_axioms;

/// The input mode of the terminal front end.
#[derive(PartialEq, Eq, Structural, Debug, Clone, Copy)]
pub enum InputMode {
    Normal,
    Search,
}

/// The view that the terminal front end shows.
#[derive(PartialEq, Eq, Structural, Debug, Clone, Copy)]
pub enum Tab {
    Feed,
    Connections,
}

/// The state of a monitor, as values.
pub struct MonitorView {
    pub flows: Map<FlowKeyView, u64>,
    pub records: Seq<PacketData>,
    pub ring: Seq<u64>,
    /// Bytes seen so far in the current second.
    pub current: u64,
    /// Records that arrived while paused, to be applied on resume.
    pub pending: Seq<PacketData>,
    pub paused: bool,
    /// The ring as it stood when the monitor was paused.
    pub frozen: Seq<u64>,
    /// The monotonic instant of the pause, in nanoseconds.
    pub pause_instant: u64,
    /// The bucket of the frozen ring that the inspector shows.
    pub selected: Option<usize>,
}

/// The flow key of a record.
pub open spec fn record_key(r: PacketData) -> FlowKeyView {
    (r.source@, r.dest@, r.proto_label@, r.app_name@)
}

/// A record applied to the aggregates: its flow, the current second and the
/// record buffer.
pub open spec fn apply_step(v: MonitorView, r: PacketData) -> MonitorView {
    MonitorView {
        flows: flow_add(v.flows, record_key(r), r.length as u64),
        current: sat_add(v.current, r.length as u64),
        records: slide(v.records, BUFFER_CAPACITY as nat, r),
        ..v
    }
}

/// Records applied one after another, in order.
pub open spec fn apply_all(v: MonitorView, rs: Seq<PacketData>) -> MonitorView
    decreases rs.len(),
{
    if rs.len() == 0 {
        v
    } else {
        apply_step(apply_all(v, rs.drop_last()), rs.last())
    }
}

/// A delivered record: applied while live, held back while paused.
pub open spec fn deliver_step(v: MonitorView, r: PacketData) -> MonitorView {
    if v.paused {
        MonitorView { pending: v.pending.push(r), ..v }
    } else {
        apply_step(v, r)
    }
}

/// The end of a second: its total joins the ring and the accumulator restarts.
pub open spec fn tick_step(v: MonitorView) -> MonitorView {
    MonitorView { ring: slide(v.ring, RING_CAPACITY as nat, v.current), current: 0, ..v }
}

/// A clear: flows and records go, the ring stays.
pub open spec fn clear_step(v: MonitorView) -> MonitorView {
    MonitorView { flows: Map::empty(), records: Seq::empty(), ..v }
}

/// The switch from LIVE to PAUSED at `now`: the ring is frozen and its newest
/// bucket selected.
pub open spec fn pause_step(v: MonitorView, now: u64) -> MonitorView {
    MonitorView {
        paused: true,
        frozen: v.ring,
        pause_instant: now,
        selected: Some(if v.ring.len() > 0 {
            (v.ring.len() - 1) as usize
        } else {
            0
        }),
        ..v
    }
}

/// The switch from PAUSED to LIVE: the snapshot and selection go, and the
/// records held back are applied in the order they came.
pub open spec fn resume_step(v: MonitorView) -> MonitorView {
    MonitorView {
        pending: Seq::empty(),
        paused: false,
        frozen: Seq::empty(),
        selected: None,
        ..apply_all(v, v.pending)
    }
}

/// The selection moved one bucket towards the oldest, stopping at 0.
pub open spec fn scrub_left_step(v: MonitorView) -> MonitorView {
    match v.selected {
        Some(i) => MonitorView {
            selected: Some(if i > 0 {
                (i - 1) as usize
            } else {
                0
            }),
            ..v
        },
        None => v,
    }
}

/// The selection moved one bucket towards the newest, stopping at the last.
pub open spec fn scrub_right_step(v: MonitorView) -> MonitorView {
    match v.selected {
        Some(i) => MonitorView {
            selected: Some(if i + 1 < v.frozen.len() {
                (i + 1) as usize
            } else {
                i
            }),
            ..v
        },
        None => v,
    }
}

/// The monitor's aggregates and inspector state.
pub struct Monitor {
    flows: FlowTable,
    records: RecordBuffer,
    ring: ThroughputRing,
    current: u64,
    pending: VecDeque<PacketData>,
    paused: bool,
    frozen: Vec<u64>,
    pause_instant: u64,
    selected: Option<usize>,
}

impl View for Monitor {
    type V = MonitorView;

    closed spec fn view(&self) -> MonitorView {
        MonitorView {
            flows: self.flows@,
            records: self.records@,
            ring: self.ring@,
            current: self.current,
            pending: self.pending@,
            paused: self.paused,
            frozen: self.frozen@,
            pause_instant: self.pause_instant,
            selected: self.selected,
        }
    }
}

fn flow_key_of(r: &PacketData) -> (k: FlowKey)
    ensures
        k@ == record_key(*r),
{
    FlowKey {
        source: r.source.clone(),
        dest: r.dest.clone(),
        proto_label: r.proto_label.clone(),
        app_name: r.app_name.clone(),
    }
}

impl Monitor {
    /// The capacities hold and, while paused, the selection lies in the
    /// frozen ring; nothing is held back while live.
    pub closed spec fn wf(&self) -> bool {
        &&& self.flows.wf()
        &&& self.records.wf()
        &&& self.records.cap() == BUFFER_CAPACITY
        &&& self.ring.wf()
        &&& self.ring.cap() == RING_CAPACITY
        &&& self.ring@.len() > 0
        &&& self.paused ==> (self.selected is Some && self.selected->0 < self.frozen@.len())
        &&& !self.paused ==> self.pending@.len() == 0
    }

    /// A live monitor with no flows or records and a ring of zero totals.
    pub fn new() -> (r: Monitor)
        ensures
            r.wf(),
            r@.flows == Map::<FlowKeyView, u64>::empty(),
            r@.records == Seq::<PacketData>::empty(),
            r@.ring == Seq::new(RING_CAPACITY as nat, |i: int| 0u64),
            r@.current == 0,
            r@.pending == Seq::<PacketData>::empty(),
            !r@.paused,
            r@.selected is None,
    {
        Monitor {
            flows: FlowTable::new(),
            records: RecordBuffer::new(BUFFER_CAPACITY),
            ring: ThroughputRing::zero_filled(RING_CAPACITY),
            current: 0,
            pending: VecDeque::new(),
            paused: false,
            frozen: Vec::new(),
            pause_instant: 0,
            selected: None,
        }
    }

    fn apply(&mut self, r: PacketData)
        requires
            old(self).wf(),
        ensures
            final(self).wf(),
            final(self)@ == apply_step(old(self)@, r),
    {
        let key = flow_key_of(&r);
        let len = r.length as u64;
        self.flows.add(key, len);
        self.current = self.current.saturating_add(len);
        self.records.push(r);
    }

    /// Takes one delivered record: while live it is added to its flow, to the
    /// current second and to the record buffer; while paused it is held
    /// back, to be applied on resume.
    pub fn deliver(&mut self, r: PacketData)
        requires
            old(self).wf(),
        ensures
            final(self).wf(),
            final(self)@ == deliver_step(old(self)@, r),
    {
        if self.paused {
            self.pending.push_back(r);
        } else {
            self.apply(r);
        }
    }

    /// Ends the current second: its total is appended to the ring, dropping
    /// the oldest bucket, and the accumulator restarts at zero. Called once
    /// per elapsed second whether or not anything arrived.
    pub fn tick(&mut self)
        requires
            old(self).wf(),
        ensures
            final(self).wf(),
            final(self)@ == tick_step(old(self)@),
    {
        self.ring.push(self.current);
        self.current = 0;
    }

    /// Empties the flow table and the record buffer; the throughput ring is
    /// left as it is.
    pub fn clear(&mut self)
        requires
            old(self).wf(),
        ensures
            final(self).wf(),
            final(self)@ == clear_step(old(self)@),
            final(self)@.flows == Map::<FlowKeyView, u64>::empty(),
            final(self)@.records == Seq::<PacketData>::empty(),
            final(self)@.ring == old(self)@.ring,
    {
        self.flows.clear();
        self.records.clear();
    }

    /// Switches between LIVE and PAUSED; `now` is the monotonic instant of
    /// the switch, in nanoseconds.
    pub fn toggle_pause(&mut self, now: u64)
        requires
            old(self).wf(),
        ensures
            final(self).wf(),
            final(self)@ == if old(self)@.paused {
                resume_step(old(self)@)
            } else {
                pause_step(old(self)@, now)
            },
    {
        if self.paused {
            let mut held: VecDeque<PacketData> = VecDeque::new();
            std::mem::swap(&mut held, &mut self.pending);
            let ghost start = old(self)@;
            self.paused = false;
            let n = held.len();
            let mut k: usize = 0;
            while k < n
                invariant
                    self.flows.wf(),
                    self.records.wf(),
                    self.records.cap() == BUFFER_CAPACITY,
                    self.ring.wf(),
                    self.ring.cap() == RING_CAPACITY,
                    !self.paused,
                    self.pending@.len() == 0,
                    k <= n,
                    n == start.pending.len(),
                    held@ == start.pending.skip(k as int),
                    self.flows@ == apply_all(start, start.pending.take(k as int)).flows,
                    self.records@ == apply_all(start, start.pending.take(k as int)).records,
                    self.current == apply_all(start, start.pending.take(k as int)).current,
                    self.ring@ == start.ring,
                    self.ring@.len() > 0,
                    self.pause_instant == start.pause_instant,
                decreases n - k,
            {
                match held.pop_front() {
                    Some(r) => {
                        assert(start.pending.take(k + 1).drop_last() =~= start.pending.take(
                            k as int,
                        ));
                        assert(r == start.pending[k as int]);
                        self.apply(r);
                        assert(held@ =~= start.pending.skip(k + 1));
                    },
                    None => {},
                }
                k = k + 1;
            }
            assert(start.pending.take(n as int) =~= start.pending);
            self.frozen = Vec::new();
            self.selected = None;
            proof {
                lemma_apply_all_current(start, start.pending);
                assert(self@.flows == resume_step(start).flows);
                assert(self@.records == resume_step(start).records);
                assert(self@.current == resume_step(start).current);
                assert(self@.ring == resume_step(start).ring);
                assert(self@.pending =~= resume_step(start).pending);
                assert(self@.frozen =~= resume_step(start).frozen);
                assert(self@.pause_instant == resume_step(start).pause_instant);
            }
        } else {
            self.frozen = self.ring.to_vec();
            self.pause_instant = now;
            let len = self.frozen.len();
            self.selected = Some(
                if len > 0 {
                    len - 1
                } else {
                    0
                },
            );
            self.paused = true;
        }
    }

    /// Moves the inspected bucket one step towards the oldest.
    pub fn scrub_left(&mut self)
        requires
            old(self).wf(),
        ensures
            final(self).wf(),
            final(self)@ == scrub_left_step(old(self)@),
    {
        if let Some(i) = self.selected {
            self.selected = Some(if i > 0 { i - 1 } else { 0 });
        }
    }

    /// Moves the inspected bucket one step towards the newest.
    pub fn scrub_right(&mut self)
        requires
            old(self).wf(),
        ensures
            final(self).wf(),
            final(self)@ == scrub_right_step(old(self)@),
    {
        if let Some(i) = self.selected {
            if i < self.frozen.len() && self.frozen.len() - i > 1 {
                self.selected = Some(i + 1);
            }
        }
    }

    /// Whether the monitor is paused.
    pub fn is_paused(&self) -> (r: bool)
        ensures
            r == self@.paused,
    {
        self.paused
    }

    /// The inspected bucket, while paused.
    pub fn selected(&self) -> (r: Option<usize>)
        ensures
            r == self@.selected,
    {
        self.selected
    }

    /// The monotonic instant of the pause.
    pub fn pause_instant(&self) -> (r: u64)
        ensures
            r == self@.pause_instant,
    {
        self.pause_instant
    }

    /// The ring frozen at the pause; empty while live.
    pub fn frozen(&self) -> (r: &Vec<u64>)
        ensures
            r@ == self@.frozen,
    {
        &self.frozen
    }

    /// The live throughput ring.
    pub fn ring(&self) -> (r: &ThroughputRing)
        ensures
            r@ == self@.ring,
    {
        &self.ring
    }

    /// The record buffer.
    pub fn records(&self) -> (r: &RecordBuffer)
        ensures
            r@ == self@.records,
    {
        &self.records
    }

    /// The flow table.
    pub fn flows(&self) -> (r: &FlowTable)
        ensures
            r@ == self@.flows,
            self.wf() ==> r.wf(),
    {
        &self.flows
    }

    /// Bytes seen so far in the current second.
    pub fn current(&self) -> (r: u64)
        ensures
            r == self@.current,
    {
        self.current
    }

    /// The chart's history: the frozen ring while paused, else the live one.
    pub fn chart(&self) -> (r: Vec<u64>)
        ensures
            r@ == if self@.paused {
                self@.frozen
            } else {
                self@.ring
            },
    {
        if self.paused {
            self.frozen.clone()
        } else {
            self.ring.to_vec()
        }
    }

    /// Positions of the buffered records in the inspected bucket; `None`
    /// while live.
    pub fn spike_records(&self) -> (r: Option<Vec<usize>>)
        requires
            self.wf(),
        ensures
            r is Some <==> self@.paused,
            r is Some ==> r->0@ == correlated(
                self@.records,
                self@.frozen.len(),
                self@.selected->0 as nat,
                self@.pause_instant,
            ),
    {
        if self.paused {
            match self.selected {
                Some(i) => Some(correlate(&self.records, self.frozen.len(), i, self.pause_instant)),
                None => None,
            }
        } else {
            None
        }
    }

    /// Positions of the records that the feed lists: while paused, those in
    /// the inspected bucket; while live, those that pass the filter.
    pub fn feed(&self, filter: &str) -> (r: Vec<usize>)
        requires
            self.wf(),
        ensures
            self@.paused ==> r@ == correlated(
                self@.records,
                self@.frozen.len(),
                self@.selected->0 as nat,
                self@.pause_instant,
            ),
            !self@.paused ==> r@ == passing_upto(self@.records, filter@, self@.records.len()),
    {
        match self.spike_records() {
            Some(v) => v,
            None => filter_records(&self.records, filter),
        }
    }

    /// The inspector's summary of the selected bucket; `None` while live.
    pub fn spike(&self) -> (r: Option<SpikeSummary>)
        requires
            self.wf(),
        ensures
            r is Some <==> self@.paused,
            r is Some ==> is_summary_of(
                r->0,
                self@.records,
                self@.frozen,
                self@.selected->0 as nat,
                self@.pause_instant,
            ),
    {
        if self.paused {
            match self.selected {
                Some(i) => Some(spike_summary(&self.records, &self.frozen, i, self.pause_instant)),
                None => None,
            }
        } else {
            None
        }
    }
}

/// The part of a history of `len` buckets that a chart of `max_bars` bars
/// shows: the position of the first bucket shown (the newest `max_bars` are
/// shown) and where the selected bucket falls among them, if it is shown.
pub fn chart_window(len: usize, max_bars: usize, selected: Option<usize>) -> (r: (
    usize,
    Option<usize>,
))
    ensures
        r.0 == if len > max_bars {
            len - max_bars
        } else {
            0
        },
        r.1 == match selected {
            Some(i) => if i >= r.0 {
                Some((i - r.0) as usize)
            } else {
                None
            },
            None => None,
        },
{
    let start = if len > max_bars {
        len - max_bars
    } else {
        0
    };
    let shown = match selected {
        Some(i) => if i >= start {
            Some(i - start)
        } else {
            None
        },
        None => None,
    };
    (start, shown)
}

/// How many whole seconds have ended since the tick boundary `last_tick`,
/// as seen at `now`, and the boundary after ticking for each of them. Every
/// ended second gets its own tick, so the ring has no gaps however late the
/// check comes.
pub fn due_ticks(last_tick: u64, now: u64) -> (r: (u64, u64))
    ensures
        now >= last_tick ==> r.0 == (now - last_tick) / (NANOS_PER_SECOND as int),
        now >= last_tick ==> r.1 == last_tick + r.0 * NANOS_PER_SECOND,
        now < last_tick ==> r == (0u64, last_tick),
{
    if now < last_tick {
        return (0, last_tick);
    }
    let n = (now - last_tick) / NANOS_PER_SECOND;
    proof {
        assert(n * NANOS_PER_SECOND <= now - last_tick) by (nonlinear_arith)
            requires
                n == (now - last_tick) / (NANOS_PER_SECOND as int),
                now >= last_tick,
        ;
    }
    (n, last_tick + n * NANOS_PER_SECOND)
}

/// The summed lengths of a sequence of records.
pub open spec fn lengths_total(rs: Seq<PacketData>) -> nat
    decreases rs.len(),
{
    if rs.len() == 0 {
        0
    } else {
        lengths_total(rs.drop_last()) + rs.last().length as nat
    }
}

proof fn lemma_apply_all_current(v: MonitorView, rs: Seq<PacketData>)
    ensures
        apply_all(v, rs).current == if v.current + lengths_total(rs) > u64::MAX {
            u64::MAX as int
        } else {
            v.current + lengths_total(rs)
        },
        apply_all(v, rs).ring == v.ring,
        apply_all(v, rs).paused == v.paused,
        apply_all(v, rs).pending == v.pending,
        apply_all(v, rs).frozen == v.frozen,
        apply_all(v, rs).selected == v.selected,
        apply_all(v, rs).pause_instant == v.pause_instant,
    decreases rs.len(),
{
    if rs.len() > 0 {
        lemma_apply_all_current(v, rs.drop_last());
    }
}

/// The bucket that a tick appends holds exactly the bytes of the records
/// applied since the previous tick (held at `u64::MAX`); the ring stays
/// within its capacity and drops only its oldest bucket.
pub proof fn lemma_tick_totals(v: MonitorView, rs: Seq<PacketData>)
    requires
        v.current == 0,
        v.ring.len() <= RING_CAPACITY,
    ensures
        tick_step(apply_all(v, rs)).ring.len() <= RING_CAPACITY,
        tick_step(apply_all(v, rs)).ring.last() == if lengths_total(rs) > u64::MAX {
            u64::MAX as nat
        } else {
            lengths_total(rs)
        },
        v.ring.len() == RING_CAPACITY ==> tick_step(apply_all(v, rs)).ring == v.ring.drop_first().push(
            apply_all(v, rs).current,
        ),
        tick_step(apply_all(v, rs)).current == 0,
{
    lemma_apply_all_current(v, rs);
    let w = apply_all(v, rs);
    if v.ring.len() == RING_CAPACITY {
        assert(w.ring.push(w.current).skip(w.ring.len() + 1 - RING_CAPACITY) =~= v.ring.drop_first().push(
            w.current,
        ));
    }
}

/// Delivering a record while paused changes neither the flows, the records,
/// the ring nor the frozen snapshot: the record waits to be applied on resume.
pub proof fn lemma_pause_freezes(v: MonitorView, r: PacketData)
    requires
        v.paused,
    ensures
        deliver_step(v, r).flows == v.flows,
        deliver_step(v, r).records == v.records,
        deliver_step(v, r).ring == v.ring,
        deliver_step(v, r).frozen == v.frozen,
        deliver_step(v, r).pending == v.pending.push(r),
{
}

/// Clearing empties the flow table and the record buffer and leaves the
/// throughput ring, the accumulator and the inspector state unchanged.
pub proof fn lemma_clear_keeps_ring(v: MonitorView)
    ensures
        clear_step(v).flows == Map::<FlowKeyView, u64>::empty(),
        clear_step(v).records == Seq::<PacketData>::empty(),
        clear_step(v).ring == v.ring,
        clear_step(v).current == v.current,
        clear_step(v).frozen == v.frozen,
        clear_step(v).selected == v.selected,
{
}

} // verus!
