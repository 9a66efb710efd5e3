//! Latency samples per operation name, and the allocation counters.
use crate::backend::{elapsed_micros, is_ascending, sort_ascending};
use vstd::arithmetic::div_mod::{lemma_add_mod_noop, lemma_small_mod, lemma_sub_mod_noop};
use vstd::prelude::*;

verus! {

/// Counters wrap around at 2^64, as an atomic counter of that width does.
pub open spec fn wrap(x: int) -> int {
    x % 0x1_0000_0000_0000_0000int
}

/// The durations recorded under `name`, in recording order.
pub open spec fn durations_named(samples: Seq<(Seq<char>, u64)>, name: Seq<char>) -> Seq<u64>
    decreases samples.len(),
{
    if samples.len() == 0 {
        Seq::empty()
    } else {
        let before = durations_named(samples.drop_last(), name);
        if samples.last().0 == name {
            before.push(samples.last().1)
        } else {
            before
        }
    }
}

/// The distinct operation names, in the order of their first sample.
pub open spec fn names_in_order(samples: Seq<(Seq<char>, u64)>) -> Seq<Seq<char>>
    decreases samples.len(),
{
    if samples.len() == 0 {
        Seq::empty()
    } else {
        let before = names_in_order(samples.drop_last());
        if before.contains(samples.last().0) {
            before
        } else {
            before.push(samples.last().0)
        }
    }
}

/// The sum of a sequence of durations.
pub open spec fn sum_of(s: Seq<u64>) -> int
    decreases s.len(),
{
    if s.len() == 0 {
        0
    } else {
        sum_of(s.drop_last()) + s.last()
    }
}

/// Nearest-rank index of the 95th percentile among `k` ascending samples:
/// `ceil(0.95 * k) - 1`, and never below zero.
pub open spec fn p95_index(k: nat) -> int {
    let rank = (95 * k + 99) / 100;
    if rank >= 1 {
        rank - 1
    } else {
        0
    }
}

/// One latency sample: an operation name and how long it took.
pub struct Sample {
    pub name: String,
    pub micros: u64,
}

/// What the recorder holds: the samples in recording order, the two
/// allocation counters, and the count of waits whose failure was absorbed.
pub struct MetricsView {
    pub samples: Seq<(Seq<char>, u64)>,
    pub allocations: int,
    pub allocated_bytes: int,
    pub wait_failures: int,
}

impl MetricsView {
    /// The recorder after one more sample.
    pub open spec fn recorded(self, name: Seq<char>, micros: u64) -> MetricsView {
        MetricsView { samples: self.samples.push((name, micros)), ..self }
    }

    /// The recorder after a buffer of `len` bytes was created.
    pub open spec fn allocated(self, len: int) -> MetricsView {
        MetricsView {
            allocations: wrap(self.allocations + 1),
            allocated_bytes: wrap(self.allocated_bytes + len),
            ..self
        }
    }

    /// The recorder after a buffer of `len` bytes was destroyed.
    pub open spec fn freed(self, len: int) -> MetricsView {
        MetricsView {
            allocations: wrap(self.allocations - 1),
            allocated_bytes: wrap(self.allocated_bytes - len),
            ..self
        }
    }
}

/// Statistics of one operation name.
pub struct OpStats {
    pub name: String,
    pub count: usize,
    pub mean: u64,
    pub p95: u64,
    /// The durations of this name, ascending.
    pub sorted: Vec<u64>,
}

/// What `summarize` reports: one entry per operation name, and the counters.
pub struct Summary {
    pub ops: Vec<OpStats>,
    pub allocations: u64,
    pub allocated_bytes: u64,
    pub wait_failures: u64,
}

/// `op` holds the statistics of the durations that `samples` records under `name`.
pub open spec fn describes(op: OpStats, samples: Seq<(Seq<char>, u64)>, name: Seq<char>) -> bool {
    let ds = durations_named(samples, name);
    &&& op.name@ == name
    &&& op.count == ds.len()
    &&& ds.len() > 0
    &&& is_ascending(op.sorted@)
    &&& op.sorted@.to_multiset() == ds.to_multiset()
    &&& op.mean == sum_of(ds) / (ds.len() as int)
    &&& op.p95 == op.sorted@[p95_index(ds.len())]
}

/// The latency log and the counters, as one value that callers hold and
/// pass on (a process keeps one, shared by all its buffers).
pub struct Metrics {
    samples: Vec<Sample>,
    allocs: u64,
    alloc_bytes: u64,
    wait_failures: u64,
}

impl View for Metrics {
    type V = MetricsView;

    closed spec fn view(&self) -> MetricsView {
        MetricsView {
            samples: Seq::new(
                self.samples@.len(),
                |i: int| (self.samples@[i].name@, self.samples@[i].micros),
            ),
            allocations: self.allocs as int,
            allocated_bytes: self.alloc_bytes as int,
            wait_failures: self.wait_failures as int,
        }
    }
}

impl Metrics {
    /// An empty log with both counters at zero.
    pub fn new() -> (r: Metrics)
        ensures
            r@.samples.len() == 0,
            r@.allocations == 0,
            r@.allocated_bytes == 0,
            r@.wait_failures == 0,
    {
        Metrics { samples: Vec::new(), allocs: 0, alloc_bytes: 0, wait_failures: 0 }
    }

    /// Number of buffers created and not yet destroyed.
    pub fn allocations(&self) -> (r: u64)
        ensures
            r == self@.allocations,
    {
        self.allocs
    }

    /// Bytes of the buffers created and not yet destroyed.
    pub fn allocated_bytes(&self) -> (r: u64)
        ensures
            r == self@.allocated_bytes,
    {
        self.alloc_bytes
    }

    /// Waits whose failure could not be returned to a caller (a guard
    /// consumed by a transition rather than waited on explicitly).
    pub fn wait_failures(&self) -> (r: u64)
        ensures
            r == self@.wait_failures,
    {
        self.wait_failures
    }

    /// Counts one such failed wait; the count stops at `u64::MAX`.
    pub fn track_wait_failure(&mut self)
        ensures
            final(self)@ == (MetricsView {
                wait_failures: if old(self)@.wait_failures < u64::MAX {
                    old(self)@.wait_failures + 1
                } else {
                    old(self)@.wait_failures
                },
                ..old(self)@
            }),
    {
        if self.wait_failures < u64::MAX {
            self.wait_failures = self.wait_failures + 1;
        }
        assert(self@.samples =~= old(self)@.samples);
    }

    /// Number of samples recorded since the last summary.
    pub fn sample_count(&self) -> (r: usize)
        ensures
            r == self@.samples.len(),
    {
        self.samples.len()
    }

    /// Appends one sample of `micros` microseconds under `name`.
    pub fn record_duration(&mut self, name: &str, micros: u64)
        ensures
            final(self)@ == old(self)@.recorded(name@, micros),
    {
        let sample = Sample { name: name.to_owned(), micros };
        self.samples.push(sample);
        assert(self@.samples =~= old(self)@.samples.push((name@, micros)));
    }

    /// Counts a newly created buffer of `len` bytes.
    pub fn track_alloc(&mut self, len: usize)
        ensures
            final(self)@ == old(self)@.allocated(len as int),
    {
        let n = self.allocs.wrapping_add(1);
        let b = self.alloc_bytes.wrapping_add(len as u64);
        self.allocs = n;
        self.alloc_bytes = b;
        assert(self@.samples =~= old(self)@.samples);
    }

    /// Counts the destruction of a buffer of `len` bytes.
    pub fn track_free(&mut self, len: usize)
        ensures
            final(self)@ == old(self)@.freed(len as int),
    {
        let n = self.allocs.wrapping_sub(1);
        let b = self.alloc_bytes.wrapping_sub(len as u64);
        self.allocs = n;
        self.alloc_bytes = b;
        assert(self@.samples =~= old(self)@.samples);
    }
}


/// One more sample extends the prefix of a log by that sample.
proof fn lemma_prefix_step(s: Seq<(Seq<char>, u64)>, k: int)
    requires
        0 <= k < s.len(),
    ensures
        s.subrange(0, k + 1).drop_last() == s.subrange(0, k),
        s.subrange(0, k + 1).last() == s[k],
{
    assert(s.subrange(0, k + 1).drop_last() =~= s.subrange(0, k));
}

proof fn lemma_sum_bound(s: Seq<u64>)
    ensures
        0 <= sum_of(s) <= s.len() * 0xffff_ffff_ffff_ffffint,
    decreases s.len(),
{
    if s.len() > 0 {
        lemma_sum_bound(s.drop_last());
    }
}

proof fn lemma_names_distinct(s: Seq<(Seq<char>, u64)>)
    ensures
        forall|a: int, b: int|
            0 <= a < b < names_in_order(s).len() ==> names_in_order(s)[a] != names_in_order(s)[b],
    decreases s.len(),
{
    if s.len() > 0 {
        let before = names_in_order(s.drop_last());
        lemma_names_distinct(s.drop_last());
        if !before.contains(s.last().0) {
            assert forall|a: int, b: int| 0 <= a < b < names_in_order(s).len() implies names_in_order(
                s,
            )[a] != names_in_order(s)[b] by {
                if b == before.len() {
                    assert(before[a] != s.last().0);
                }
            }
        }
    }
}

proof fn lemma_unnamed_has_no_durations(s: Seq<(Seq<char>, u64)>, name: Seq<char>)
    requires
        !names_in_order(s).contains(name),
    ensures
        durations_named(s, name) == Seq::<u64>::empty(),
    decreases s.len(),
{
    if s.len() > 0 {
        let before = names_in_order(s.drop_last());
        if before.contains(name) {
            let i = choose|i: int| 0 <= i < before.len() && before[i] == name;
            if !before.contains(s.last().0) {
                assert(names_in_order(s)[i] == name);
            }
        }
        if s.last().0 == name {
            if before.contains(name) {
            } else {
                assert(names_in_order(s)[before.len() as int] == name);
            }
        }
        lemma_unnamed_has_no_durations(s.drop_last(), name);
    }
}

proof fn lemma_named_has_durations(s: Seq<(Seq<char>, u64)>, name: Seq<char>)
    requires
        names_in_order(s).contains(name),
    ensures
        durations_named(s, name).len() > 0,
    decreases s.len(),
{
    if s.len() > 0 {
        let before = names_in_order(s.drop_last());
        if s.last().0 != name {
            if !before.contains(s.last().0) {
                let i = choose|i: int| 0 <= i < names_in_order(s).len() && names_in_order(s)[i] == name;
                assert(before[i] == name);
            }
            lemma_named_has_durations(s.drop_last(), name);
        }
    }
}

/// Mean of a non-empty list of durations, rounded down.
pub fn mean(v: &Vec<u64>) -> (r: u64)
    requires
        v@.len() > 0,
    ensures
        r == sum_of(v@) / (v@.len() as int),
{
    let mut total: u128 = 0;
    let mut i: usize = 0;
    while i < v.len()
        invariant
            0 <= i <= v@.len(),
            total == sum_of(v@.subrange(0, i as int)),
        decreases v@.len() - i,
    {
        proof {
            assert(v@.subrange(0, i + 1).drop_last() =~= v@.subrange(0, i as int));
            lemma_sum_bound(v@.subrange(0, i as int));
            assert(i * 0xffff_ffff_ffff_ffffint <= 0xffff_ffff_ffff_ffffint * 0xffff_ffff_ffff_ffffint)
                by (nonlinear_arith)
                requires
                    i <= 0xffff_ffff_ffff_ffffint,
            ;
        }
        total = total + v[i] as u128;
        i = i + 1;
    }
    assert(v@.subrange(0, v@.len() as int) =~= v@);
    let n = v.len() as u128;
    proof {
        lemma_sum_bound(v@);
        let s = sum_of(v@);
        let k = v@.len() as int;
        assert(s / k <= 0xffff_ffff_ffff_ffffint) by (nonlinear_arith)
            requires
                0 <= s <= k * 0xffff_ffff_ffff_ffffint,
                k > 0,
        ;
    }
    (total / n) as u64
}

/// The 95th percentile of a non-empty list of ascending durations: the
/// element at index `ceil(0.95 * k) - 1` for `k` durations (nearest rank).
pub fn p95(sorted: &Vec<u64>) -> (r: u64)
    requires
        sorted@.len() > 0,
    ensures
        r == sorted@[p95_index(sorted@.len())],
{
    let k = sorted.len() as u128;
    let rank = (95 * k + 99) / 100;
    let idx: usize = if rank >= 1 { (rank - 1) as usize } else { 0 };
    assert(idx < sorted@.len()) by {
        assert((95 * k + 99) / 100 <= k) by (nonlinear_arith)
            requires
                k >= 1,
        ;
    }
    sorted[idx]
}

/// The distinct names of `samples`, in the order of their first sample.
fn distinct_names(samples: &Vec<Sample>) -> (r: Vec<String>)
    ensures
        r@.len() == names_in_order(samples_view(samples@)).len(),
        forall|j: int| 0 <= j < r@.len() ==> #[trigger] r@[j]@ == names_in_order(samples_view(samples@))[j],
{
    let ghost all = samples_view(samples@);
    let mut names: Vec<String> = Vec::new();
    let mut i: usize = 0;
    while i < samples.len()
        invariant
            0 <= i <= samples@.len(),
            all == samples_view(samples@),
            names@.len() == names_in_order(all.subrange(0, i as int)).len(),
            forall|j: int| 0 <= j < names@.len() ==> #[trigger] names@[j]@ == names_in_order(all.subrange(0, i as int))[j],
        decreases samples@.len() - i,
    {
        proof {
            lemma_prefix_step(all, i as int);
        }
        let ghost before = names_in_order(all.subrange(0, i as int));
        let mut found = false;
        let mut j: usize = 0;
        while j < names.len()
            invariant
                0 <= j <= names@.len(),
                i < samples@.len(),
                all == samples_view(samples@),
                names@.len() == before.len(),
                forall|t: int| 0 <= t < names@.len() ==> #[trigger] names@[t]@ == before[t],
                found <==> exists|t: int| 0 <= t < j && before[t] == samples@[i as int].name@,
            decreases names@.len() - j,
        {
            if names[j] == samples[i].name {
                found = true;
            }
            j = j + 1;
        }
        assert(found <==> before.contains(all[i as int].0));
        if !found {
            names.push(samples[i].name.clone());
        }
        i = i + 1;
    }
    assert(all.subrange(0, samples@.len() as int) =~= all);
    names
}

/// The log as pairs of name and duration.
pub open spec fn samples_view(s: Seq<Sample>) -> Seq<(Seq<char>, u64)> {
    Seq::new(s.len(), |i: int| (s[i].name@, s[i].micros))
}

/// The durations that `samples` records under `name`, in recording order.
fn durations_of(samples: &Vec<Sample>, name: &String) -> (r: Vec<u64>)
    ensures
        r@ == durations_named(samples_view(samples@), name@),
{
    let ghost all = samples_view(samples@);
    let mut out: Vec<u64> = Vec::new();
    let mut i: usize = 0;
    while i < samples.len()
        invariant
            0 <= i <= samples@.len(),
            all == samples_view(samples@),
            out@ == durations_named(all.subrange(0, i as int), name@),
        decreases samples@.len() - i,
    {
        proof {
            lemma_prefix_step(all, i as int);
        }
        if samples[i].name == *name {
            out.push(samples[i].micros);
        }
        i = i + 1;
    }
    assert(all.subrange(0, samples@.len() as int) =~= all);
    out
}


impl Metrics {
    /// Takes every sample out of the log and reports, per operation name in
    /// the order of its first sample, the count, the mean, the ascending
    /// durations and their 95th percentile, together with the counters
    /// (which stay as they are).
    pub fn summarize(&mut self) -> (r: Summary)
        ensures
            final(self)@.samples.len() == 0,
            final(self)@.allocations == old(self)@.allocations,
            final(self)@.allocated_bytes == old(self)@.allocated_bytes,
            final(self)@.wait_failures == old(self)@.wait_failures,
            r.allocations == old(self)@.allocations,
            r.wait_failures == old(self)@.wait_failures,
            r.allocated_bytes == old(self)@.allocated_bytes,
            r.ops@.len() == names_in_order(old(self)@.samples).len(),
            forall|j: int|
                0 <= j < r.ops@.len() ==> describes(
                    #[trigger] r.ops@[j],
                    old(self)@.samples,
                    names_in_order(old(self)@.samples)[j],
                ),
    {
        let ghost all = old(self)@.samples;
        assert(all =~= samples_view(self.samples@));
        let names = distinct_names(&self.samples);
        let mut ops: Vec<OpStats> = Vec::new();
        let mut j: usize = 0;
        while j < names.len()
            invariant
                0 <= j <= names@.len(),
                all == samples_view(self.samples@),
                names@.len() == names_in_order(all).len(),
                forall|t: int| 0 <= t < names@.len() ==> #[trigger] names@[t]@ == names_in_order(all)[t],
                ops@.len() == j,
                forall|t: int| 0 <= t < j ==> describes(#[trigger] ops@[t], all, names_in_order(all)[t]),
            decreases names@.len() - j,
        {
            let durations = durations_of(&self.samples, &names[j]);
            proof {
                assert(names_in_order(all).contains(names@[j as int]@));
                lemma_named_has_durations(all, names@[j as int]@);
            }
            let avg = mean(&durations);
            let mut sorted = durations;
            sort_ascending(&mut sorted);
            proof {
                durations_named(all, names@[j as int]@).to_multiset_ensures();
                sorted@.to_multiset_ensures();
            }
            let top = p95(&sorted);
            let op = OpStats {
                name: names[j].clone(),
                count: sorted.len(),
                mean: avg,
                p95: top,
                sorted,
            };
            ops.push(op);
            j = j + 1;
        }
        self.samples = Vec::new();
        proof {
            assert(self@.samples =~= Seq::<(Seq<char>, u64)>::empty());
        }
        Summary {
            ops,
            allocations: self.allocs,
            allocated_bytes: self.alloc_bytes,
            wait_failures: self.wait_failures,
        }
    }
}

/// Records how long the operation `name` took since `start`, in whole
/// microseconds (capped at `u64::MAX`): one sample is appended under `name`
/// and nothing else changes.
pub fn record(metrics: &mut Metrics, name: &str, start: &std::time::Instant)
    ensures
        final(metrics)@.samples.len() == old(metrics)@.samples.len() + 1,
        final(metrics)@.samples.drop_last() == old(metrics)@.samples,
        final(metrics)@.samples.last().0 == name@,
        final(metrics)@.allocations == old(metrics)@.allocations,
        final(metrics)@.allocated_bytes == old(metrics)@.allocated_bytes,
        final(metrics)@.wait_failures == old(metrics)@.wait_failures,
{
    let elapsed = elapsed_micros(start);
    let micros: u64 = if elapsed > u64::MAX as u128 { u64::MAX } else { elapsed as u64 };
    metrics.record_duration(name, micros);
}


/// The counters after replaying `events` on `m`, where `(true, n)` is the
/// creation of a buffer of `n` bytes and `(false, n)` the destruction of one.
pub open spec fn replay(m: MetricsView, events: Seq<(bool, u64)>) -> MetricsView
    decreases events.len(),
{
    if events.len() == 0 {
        m
    } else {
        let before = replay(m, events.drop_last());
        if events.last().0 {
            before.allocated(events.last().1 as int)
        } else {
            before.freed(events.last().1 as int)
        }
    }
}

/// Buffers created minus buffers destroyed.
pub open spec fn live_count(events: Seq<(bool, u64)>) -> int
    decreases events.len(),
{
    if events.len() == 0 {
        0
    } else if events.last().0 {
        live_count(events.drop_last()) + 1
    } else {
        live_count(events.drop_last()) - 1
    }
}

/// Bytes created minus bytes destroyed: the total size of the live buffers.
pub open spec fn live_bytes(events: Seq<(bool, u64)>) -> int
    decreases events.len(),
{
    if events.len() == 0 {
        0
    } else if events.last().0 {
        live_bytes(events.drop_last()) + events.last().1
    } else {
        live_bytes(events.drop_last()) - events.last().1
    }
}

proof fn lemma_replay_wraps(m: MetricsView, events: Seq<(bool, u64)>)
    requires
        m.allocations == 0,
        m.allocated_bytes == 0,
    ensures
        replay(m, events).allocations == wrap(live_count(events)),
        replay(m, events).allocated_bytes == wrap(live_bytes(events)),
        replay(m, events).samples == m.samples,
    decreases events.len(),
{
    let md = 0x1_0000_0000_0000_0000int;
    if events.len() == 0 {
        lemma_small_mod(0, md as nat);
    } else {
        let e = events.drop_last();
        lemma_replay_wraps(m, e);
        let n = events.last().1 as int;
        lemma_small_mod(1, md as nat);
        lemma_small_mod(n as nat, md as nat);
        if events.last().0 {
            lemma_add_mod_noop(live_count(e), 1, md);
            lemma_add_mod_noop(live_bytes(e), n, md);
        } else {
            lemma_sub_mod_noop(live_count(e), 1, md);
            lemma_sub_mod_noop(live_bytes(e), n, md);
        }
    }
}

/// Starting from zero counters, after any run of buffer creations and
/// destructions in which no more buffers were destroyed than created, the
/// allocation count is the number of live buffers and the byte count is the
/// sum of their sizes (as long as both fit in 64 bits).
pub proof fn lemma_counters_track_live_buffers(m: MetricsView, events: Seq<(bool, u64)>)
    requires
        m.allocations == 0,
        m.allocated_bytes == 0,
        0 <= live_count(events) < 0x1_0000_0000_0000_0000int,
        0 <= live_bytes(events) < 0x1_0000_0000_0000_0000int,
    ensures
        replay(m, events).allocations == live_count(events),
        replay(m, events).allocated_bytes == live_bytes(events),
{
    let md = 0x1_0000_0000_0000_0000int;
    lemma_replay_wraps(m, events);
    lemma_small_mod(live_count(events) as nat, md as nat);
    lemma_small_mod(live_bytes(events) as nat, md as nat);
}


/// Both counters of a recorder are 64-bit values.
pub proof fn lemma_counters_fit(m: &Metrics)
    ensures
        0 <= m@.allocations < 0x1_0000_0000_0000_0000int,
        0 <= m@.allocated_bytes < 0x1_0000_0000_0000_0000int,
{
}

/// Creating a buffer and destroying it again leaves both counters as they were.
pub proof fn lemma_alloc_free_cancels(m: MetricsView, len: int)
    requires
        0 <= m.allocations < 0x1_0000_0000_0000_0000int,
        0 <= m.allocated_bytes < 0x1_0000_0000_0000_0000int,
        0 <= len < 0x1_0000_0000_0000_0000int,
    ensures
        m.allocated(len).freed(len).allocations == m.allocations,
        m.allocated(len).freed(len).allocated_bytes == m.allocated_bytes,
{
    let md = 0x1_0000_0000_0000_0000int;
    lemma_small_mod(1, md as nat);
    lemma_small_mod(len as nat, md as nat);
    lemma_small_mod(m.allocations as nat, md as nat);
    lemma_small_mod(m.allocated_bytes as nat, md as nat);
    lemma_sub_mod_noop(m.allocations + 1, 1, md);
    lemma_sub_mod_noop(m.allocated_bytes + len, len, md);
}

} // verus!
