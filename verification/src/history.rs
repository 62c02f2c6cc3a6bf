//! Rolling averages over a bounded window of samples.
//!
//! A `HistoryVec` keeps the last `capacity` samples pushed into it (oldest
//! evicted first) and a cached average that always equals the arithmetic
//! mean of the window. Samples are unsigned integers: a duration in
//! nanoseconds, a rate, or a count.

use vstd::prelude::*;

verus! {

/// Sum of a sequence of samples.
pub open spec fn sum_seq(s: Seq<u64>) -> int
    decreases s.len(),
{
    if s.len() == 0 {
        0
    } else {
        sum_seq(s.drop_last()) + s.last()
    }
}

/// Arithmetic mean of a sequence of samples, rounded toward zero; zero for
/// the empty sequence.
pub open spec fn mean_of(s: Seq<u64>) -> int {
    if s.len() == 0 {
        0
    } else {
        sum_seq(s) / (s.len() as int)
    }
}

/// How one push changes a full-or-growing window: evict the oldest sample
/// once the window is at capacity, then append the new one.
pub open spec fn window_push(s: Seq<u64>, v: u64, cap: nat) -> Seq<u64> {
    if s.len() >= cap {
        s.skip(1).push(v)
    } else {
        s.push(v)
    }
}

/// The last `cap` values of a sequence of pushed samples (all of them, if
/// fewer were pushed).
pub open spec fn window_of(pushed: Seq<u64>, cap: nat) -> Seq<u64> {
    if pushed.len() <= cap {
        pushed
    } else {
        pushed.skip(pushed.len() - cap)
    }
}

/// The window obtained by replaying a whole sequence of pushes, one
/// `window_push` at a time.
pub open spec fn fold_window(pushed: Seq<u64>, cap: nat) -> Seq<u64>
    decreases pushed.len(),
{
    if pushed.len() == 0 {
        Seq::empty()
    } else {
        window_push(fold_window(pushed.drop_last(), cap), pushed.last(), cap)
    }
}

/// Replaying any sequence of pushes leaves exactly the last
/// `min(count, cap)` pushed values in the window, in push order. Together
/// with the contract of `HistoryVec::push`, this is the rolling-average
/// law: after any pushes, the window is the most recent samples and the
/// cached average is their exact mean.
pub proof fn lemma_rolling_window(pushed: Seq<u64>, cap: nat)
    requires
        cap > 0,
    ensures
        fold_window(pushed, cap) == window_of(pushed, cap),
        fold_window(pushed, cap).len() <= cap,
    decreases pushed.len(),
{
    if pushed.len() == 0 {
    } else {
        let prev = pushed.drop_last();
        lemma_rolling_window(prev, cap);
        if prev.len() < cap {
            assert(window_of(prev, cap) == prev);
            assert(window_push(prev, pushed.last(), cap) =~= pushed);
            assert(window_of(pushed, cap) == pushed);
        } else {
            let w = window_of(prev, cap);
            assert(w.len() == cap);
            assert(window_push(w, pushed.last(), cap) =~= w.skip(1).push(pushed.last()));
            assert(w.skip(1).push(pushed.last()) =~= window_of(pushed, cap));
        }
    }
}

/// A sum of samples is bounded by the count of samples times the largest
/// possible sample.
pub proof fn lemma_sum_bound(s: Seq<u64>)
    ensures
        0 <= sum_seq(s) <= s.len() * 0xffff_ffff_ffff_ffff,
    decreases s.len(),
{
    if s.len() > 0 {
        lemma_sum_bound(s.drop_last());
    }
}

/// A signed sample: a magnitude and its sign, standing for how far and in
/// which direction a metric moved between two reports.
#[derive(Copy, Clone, Debug, PartialEq, Eq, Structural)]
pub struct HistData {
    pub positive: bool,
    pub magnitude: u64,
}

impl HistData {
    /// The signed value this sample stands for.
    pub open spec fn val(self) -> int {
        if self.positive {
            self.magnitude as int
        } else {
            -(self.magnitude as int)
        }
    }

    /// The sample for an unsigned measurement.
    pub fn from_absolute(magnitude: u64) -> (r: HistData)
        ensures
            r.val() == magnitude,
            r.positive,
    {
        HistData { positive: true, magnitude }
    }

    /// The signed change from `old_value` to `new_value`.
    pub fn difference_of(new_value: u64, old_value: u64) -> (r: HistData)
        ensures
            r.val() == new_value - old_value,
    {
        if new_value >= old_value {
            HistData { positive: true, magnitude: new_value - old_value }
        } else {
            HistData { positive: false, magnitude: old_value - new_value }
        }
    }

    /// The magnitude, sign discarded.
    pub fn absolute(&self) -> (r: u64)
        ensures
            r == self.magnitude,
    {
        self.magnitude
    }

    /// Whether the sample is a non-negative move.
    pub fn is_positive(&self) -> (r: bool)
        ensures
            r == self.positive,
    {
        self.positive
    }

    /// Divide the magnitude, keeping the sign.
    pub fn div_usize(&self, rhs: usize) -> (r: Result<HistData, ()>)
        ensures
            rhs == 0 ==> r is Err,
            rhs > 0 ==> (r matches Ok(d) && d.positive == self.positive && d.magnitude
                == self.magnitude as int / rhs as int),
    {
        if rhs == 0 {
            Err(())
        } else {
            Ok(HistData { positive: self.positive, magnitude: self.magnitude / (rhs as u64) })
        }
    }
}

/// A metric's most recent value and how far it moved since the report
/// before.
#[derive(Copy, Clone, Debug, PartialEq, Eq, Structural)]
pub struct AvgInfo {
    pub data: u64,
    pub delta: HistData,
}

impl Default for AvgInfo {
    fn default() -> (r: AvgInfo)
        ensures
            r.data == 0,
            r.delta.val() == 0,
    {
        AvgInfo { data: 0, delta: HistData { positive: true, magnitude: 0 } }
    }
}

impl AvgInfo {
    /// Take a new reading: the delta becomes the signed move from the last
    /// reading, and the reading before the update is handed back.
    pub fn update(&mut self, new_data: u64) -> (last: AvgInfo)
        ensures
            last == *old(self),
            final(self).data == new_data,
            final(self).delta.val() == new_data - old(self).data,
    {
        let last = *self;
        self.delta = HistData::difference_of(new_data, self.data);
        self.data = new_data;
        last
    }
}

/// One worker's three reported averages.
#[derive(Copy, Clone, Debug, PartialEq, Eq, Structural)]
pub struct AvgInfoBundle {
    pub processing_rate: AvgInfo,
    pub task_time: AvgInfo,
    pub idle_time: AvgInfo,
}

impl Default for AvgInfoBundle {
    fn default() -> (r: AvgInfoBundle)
        ensures
            r.processing_rate.data == 0,
            r.task_time.data == 0,
            r.idle_time.data == 0,
    {
        AvgInfoBundle {
            processing_rate: AvgInfo::default(),
            task_time: AvgInfo::default(),
            idle_time: AvgInfo::default(),
        }
    }
}

impl AvgInfoBundle {
    /// Take a new reading of all three averages, handing back the readings
    /// they replace.
    pub fn update(&mut self, processing_rate: u64, task_time: u64, idle_time: u64) -> (last:
        AvgInfoBundle)
        ensures
            last == *old(self),
            final(self).processing_rate.data == processing_rate,
            final(self).task_time.data == task_time,
            final(self).idle_time.data == idle_time,
            final(self).processing_rate.delta.val() == processing_rate - old(
                self,
            ).processing_rate.data,
            final(self).task_time.delta.val() == task_time - old(self).task_time.data,
            final(self).idle_time.delta.val() == idle_time - old(self).idle_time.data,
    {
        let last = *self;
        let _ = self.processing_rate.update(processing_rate);
        let _ = self.task_time.update(task_time);
        let _ = self.idle_time.update(idle_time);
        last
    }
}

/// Extremes and total of one metric across all workers.
pub struct AvgInfoSummary {
    pub max: Option<u64>,
    pub min: Option<u64>,
    pub total: u64,
}

impl AvgInfoSummary {
    /// Summarize one metric's values across workers: the largest, the
    /// smallest, and the sum.
    pub fn summarize(data: &Vec<u64>) -> (r: AvgInfoSummary)
        requires
            sum_seq(data@) <= u64::MAX,
        ensures
            (r.max is Some) == (data@.len() > 0),
            (r.min is Some) == (data@.len() > 0),
            r.max matches Some(m) ==> data@.contains(m) && (forall|i: int|
                0 <= i < data@.len() ==> #[trigger] data@[i] <= m),
            r.min matches Some(m) ==> data@.contains(m) && (forall|i: int|
                0 <= i < data@.len() ==> #[trigger] data@[i] >= m),
            r.total == sum_seq(data@),
    {
        let mut max: Option<u64> = None;
        let mut min: Option<u64> = None;
        let mut total: u64 = 0;
        let mut i: usize = 0;
        while i < data.len()
            invariant
                i <= data@.len(),
                sum_seq(data@) <= u64::MAX,
                total == sum_seq(data@.take(i as int)),
                (max is Some) == (i > 0),
                (min is Some) == (i > 0),
                max matches Some(m) ==> data@.take(i as int).contains(m) && (forall|j: int|
                    0 <= j < i ==> #[trigger] data@[j] <= m),
                min matches Some(m) ==> data@.take(i as int).contains(m) && (forall|j: int|
                    0 <= j < i ==> #[trigger] data@[j] >= m),
            decreases data@.len() - i,
        {
            proof {
                assert(data@.take(i + 1 as int).drop_last() =~= data@.take(i as int));
                assert(data@.take(i + 1 as int).last() == data@[i as int]);
                lemma_sum_take_bound(data@, i + 1 as int);
            }
            let v = data[i];
            total = total + v;
            max = match max {
                Some(m) => if v > m {
                    Some(v)
                } else {
                    Some(m)
                },
                None => Some(v),
            };
            min = match min {
                Some(m) => if v < m {
                    Some(v)
                } else {
                    Some(m)
                },
                None => Some(v),
            };
            proof {
                let t = data@.take(i + 1 as int);
                match max {
                    Some(m) => {
                        if m == v {
                            assert(t.last() == v);
                            assert(t.contains(m));
                        } else {
                            assert(data@.take(i as int).contains(m));
                            let w = choose|k: int|
                                0 <= k < i && data@.take(i as int)[k] == m;
                            assert(t[w] == m);
                            assert(t.contains(m));
                        }
                    },
                    None => {},
                }
                match min {
                    Some(m) => {
                        if m == v {
                            assert(t.last() == v);
                            assert(t.contains(m));
                        } else {
                            assert(data@.take(i as int).contains(m));
                            let w = choose|k: int|
                                0 <= k < i && data@.take(i as int)[k] == m;
                            assert(t[w] == m);
                            assert(t.contains(m));
                        }
                    },
                    None => {},
                }
            }
            i = i + 1;
        }
        proof {
            assert(data@.take(data@.len() as int) =~= data@);
        }
        AvgInfoSummary { max, min, total }
    }
}

/// A prefix of samples never sums to more than the whole sequence.
pub proof fn lemma_sum_take_bound(s: Seq<u64>, i: int)
    requires
        0 <= i <= s.len(),
    ensures
        0 <= sum_seq(s.take(i)) <= sum_seq(s),
    decreases s.len() - i,
{
    lemma_sum_bound(s.take(i));
    if i == s.len() {
        assert(s.take(i) =~= s);
    } else {
        lemma_sum_take_bound(s, i + 1);
        assert(s.take(i + 1).drop_last() =~= s.take(i));
        assert(s.take(i + 1).last() == s[i]);
    }
}

/// Per-metric summaries across all workers' reported averages.
pub struct AvgInfoWithSummaries {
    pub summary_processing_rates: AvgInfoSummary,
    pub summary_task_times: AvgInfoSummary,
    pub summary_idle_times: AvgInfoSummary,
}

impl AvgInfoWithSummaries {
    /// Collect each worker's three averages and summarize each metric.
    pub fn from_bundles(bundles: &Vec<AvgInfoBundle>) -> (r: AvgInfoWithSummaries)
        requires
            sum_seq(bundles@.map_values(|b: AvgInfoBundle| b.processing_rate.data))
                <= u64::MAX,
            sum_seq(bundles@.map_values(|b: AvgInfoBundle| b.task_time.data)) <= u64::MAX,
            sum_seq(bundles@.map_values(|b: AvgInfoBundle| b.idle_time.data)) <= u64::MAX,
        ensures
            r.summary_processing_rates.total == sum_seq(
                bundles@.map_values(|b: AvgInfoBundle| b.processing_rate.data),
            ),
            r.summary_task_times.total == sum_seq(
                bundles@.map_values(|b: AvgInfoBundle| b.task_time.data),
            ),
            r.summary_idle_times.total == sum_seq(
                bundles@.map_values(|b: AvgInfoBundle| b.idle_time.data),
            ),
            (r.summary_processing_rates.max is Some) == (bundles@.len() > 0),
            r.summary_processing_rates.max matches Some(m) ==> (forall|i: int|
                0 <= i < bundles@.len() ==> (#[trigger] bundles@[i]).processing_rate.data <= m),
            r.summary_task_times.max matches Some(m) ==> (forall|i: int|
                0 <= i < bundles@.len() ==> (#[trigger] bundles@[i]).task_time.data <= m),
            r.summary_idle_times.max matches Some(m) ==> (forall|i: int|
                0 <= i < bundles@.len() ==> (#[trigger] bundles@[i]).idle_time.data <= m),
    {
        let rates = Self::project_rates(bundles);
        let task_times = Self::project_task_times(bundles);
        let idle_times = Self::project_idle_times(bundles);
        let summary_processing_rates = AvgInfoSummary::summarize(&rates);
        let summary_task_times = AvgInfoSummary::summarize(&task_times);
        let summary_idle_times = AvgInfoSummary::summarize(&idle_times);
        proof {
            match summary_processing_rates.max {
                Some(m) => {
                    assert forall|i: int| 0 <= i < bundles@.len() implies (#[trigger] bundles@[
                        i
                    ]).processing_rate.data <= m by {
                        assert(rates@[i] == bundles@[i].processing_rate.data);
                    }
                },
                None => {},
            }
            match summary_task_times.max {
                Some(m) => {
                    assert forall|i: int| 0 <= i < bundles@.len() implies (#[trigger] bundles@[
                        i
                    ]).task_time.data <= m by {
                        assert(task_times@[i] == bundles@[i].task_time.data);
                    }
                },
                None => {},
            }
            match summary_idle_times.max {
                Some(m) => {
                    assert forall|i: int| 0 <= i < bundles@.len() implies (#[trigger] bundles@[
                        i
                    ]).idle_time.data <= m by {
                        assert(idle_times@[i] == bundles@[i].idle_time.data);
                    }
                },
                None => {},
            }
        }
        AvgInfoWithSummaries { summary_processing_rates, summary_task_times, summary_idle_times }
    }

    fn project_rates(bundles: &Vec<AvgInfoBundle>) -> (r: Vec<u64>)
        ensures
            r@ == bundles@.map_values(|b: AvgInfoBundle| b.processing_rate.data),
    {
        let mut out: Vec<u64> = Vec::new();
        let mut i: usize = 0;
        while i < bundles.len()
            invariant
                i <= bundles@.len(),
                out@ =~= bundles@.take(i as int).map_values(
                    |b: AvgInfoBundle| b.processing_rate.data,
                ),
            decreases bundles@.len() - i,
        {
            out.push(bundles[i].processing_rate.data);
            assert(out@ =~= bundles@.take(i + 1 as int).map_values(
                |b: AvgInfoBundle| b.processing_rate.data,
            ));
            i = i + 1;
        }
        assert(bundles@.take(bundles@.len() as int) =~= bundles@);
        out
    }

    fn project_task_times(bundles: &Vec<AvgInfoBundle>) -> (r: Vec<u64>)
        ensures
            r@ == bundles@.map_values(|b: AvgInfoBundle| b.task_time.data),
    {
        let mut out: Vec<u64> = Vec::new();
        let mut i: usize = 0;
        while i < bundles.len()
            invariant
                i <= bundles@.len(),
                out@ =~= bundles@.take(i as int).map_values(|b: AvgInfoBundle| b.task_time.data),
            decreases bundles@.len() - i,
        {
            out.push(bundles[i].task_time.data);
            assert(out@ =~= bundles@.take(i + 1 as int).map_values(
                |b: AvgInfoBundle| b.task_time.data,
            ));
            i = i + 1;
        }
        assert(bundles@.take(bundles@.len() as int) =~= bundles@);
        out
    }

    fn project_idle_times(bundles: &Vec<AvgInfoBundle>) -> (r: Vec<u64>)
        ensures
            r@ == bundles@.map_values(|b: AvgInfoBundle| b.idle_time.data),
    {
        let mut out: Vec<u64> = Vec::new();
        let mut i: usize = 0;
        while i < bundles.len()
            invariant
                i <= bundles@.len(),
                out@ =~= bundles@.take(i as int).map_values(|b: AvgInfoBundle| b.idle_time.data),
            decreases bundles@.len() - i,
        {
            out.push(bundles[i].idle_time.data);
            assert(out@ =~= bundles@.take(i + 1 as int).map_values(
                |b: AvgInfoBundle| b.idle_time.data,
            ));
            i = i + 1;
        }
        assert(bundles@.take(bundles@.len() as int) =~= bundles@);
        out
    }
}

/// A bounded window of samples with its cached arithmetic mean.
pub struct HistoryVec {
    inner: Vec<u64>,
    average: u64,
    capacity: usize,
}

impl HistoryVec {
    /// The window invariant: the window never outgrows its capacity and the
    /// cached average is the exact mean of the samples in it.
    pub closed spec fn wf(self) -> bool {
        &&& self.capacity > 0
        &&& self.inner@.len() <= self.capacity
        &&& self.average == mean_of(self.inner@)
    }

    /// The samples currently in the window, oldest first.
    pub closed spec fn view_window(self) -> Seq<u64> {
        self.inner@
    }

    pub closed spec fn spec_capacity(self) -> usize {
        self.capacity
    }

    pub closed spec fn spec_average(self) -> u64 {
        self.average
    }

    pub fn new(capacity: usize) -> (r: HistoryVec)
        requires
            capacity > 0,
        ensures
            r.wf(),
            r.view_window() == Seq::<u64>::empty(),
            r.spec_capacity() == capacity,
            r.spec_average() == 0,
    {
        let inner: Vec<u64> = Vec::new();
        assert(inner@ =~= Seq::<u64>::empty());
        HistoryVec { inner, average: 0, capacity }
    }

    /// Push one sample: evict the oldest if the window is full, append the
    /// sample, and recompute the cached average as the exact mean.
    pub fn push(&mut self, v: u64)
        requires
            old(self).wf(),
        ensures
            final(self).wf(),
            final(self).spec_capacity() == old(self).spec_capacity(),
            final(self).view_window() == window_push(
                old(self).view_window(),
                v,
                old(self).spec_capacity() as nat,
            ),
            final(self).spec_average() == mean_of(final(self).view_window()),
    {
        if self.inner.len() == self.capacity {
            self.inner.remove(0);
            assert(self.inner@ =~= old(self).inner@.skip(1));
        }
        self.inner.push(v);
        proof {
            if old(self).inner@.len() >= self.capacity {
                assert(self.inner@ =~= old(self).inner@.skip(1).push(v));
            } else {
                assert(self.inner@ =~= old(self).inner@.push(v));
            }
        }
        self.average = Self::mean(&self.inner);
    }

    /// The most recent sample, if any.
    pub fn last(&self) -> (r: Option<u64>)
        ensures
            r == (if self.view_window().len() == 0 {
                Option::<u64>::None
            } else {
                Option::Some(self.view_window().last())
            }),
    {
        if self.inner.len() == 0 {
            None
        } else {
            Some(self.inner[self.inner.len() - 1])
        }
    }

    /// The cached average: always the exact mean of the window.
    pub fn average(&self) -> (r: u64)
        requires
            self.wf(),
        ensures
            r == mean_of(self.view_window()),
    {
        self.average
    }

    pub fn len(&self) -> (r: usize)
        ensures
            r == self.view_window().len(),
    {
        self.inner.len()
    }

    /// The samples in the window, oldest first.
    pub fn samples(&self) -> (r: Vec<u64>)
        ensures
            r@ == self.view_window(),
    {
        let mut out: Vec<u64> = Vec::new();
        let mut i: usize = 0;
        while i < self.inner.len()
            invariant
                i <= self.inner@.len(),
                out@ =~= self.inner@.take(i as int),
            decreases self.inner@.len() - i,
        {
            out.push(self.inner[i]);
            assert(out@ =~= self.inner@.take(i + 1 as int));
            i = i + 1;
        }
        assert(out@ =~= self.inner@);
        out
    }

    /// Exact mean of the samples in a vector, rounded toward zero.
    fn mean(samples: &Vec<u64>) -> (r: u64)
        ensures
            r == mean_of(samples@),
    {
        if samples.len() == 0 {
            return 0;
        }
        let mut acc: u128 = 0;
        let mut i: usize = 0;
        while i < samples.len()
            invariant
                i <= samples@.len(),
                acc == sum_seq(samples@.take(i as int)),
                acc <= i * 0xffff_ffff_ffff_ffff,
            decreases samples@.len() - i,
        {
            proof {
                assert(samples@.take(i + 1 as int).drop_last() =~= samples@.take(i as int));
            }
            acc = acc + samples[i] as u128;
            i = i + 1;
        }
        assert(samples@.take(samples@.len() as int) =~= samples@);
        let n = samples.len() as u128;
        let q = acc / n;
        proof {
            lemma_sum_bound(samples@);
            assert(q == sum_seq(samples@) / (samples@.len() as int)) by {
                vstd::arithmetic::div_mod::lemma_fundamental_div_mod(
                    acc as int,
                    n as int,
                );
            }
            assert(q <= 0xffff_ffff_ffff_ffff) by {
                vstd::arithmetic::div_mod::lemma_div_is_ordered(
                    acc as int,
                    samples@.len() as int * 0xffff_ffff_ffff_ffff,
                    n as int,
                );
                vstd::arithmetic::div_mod::lemma_div_by_multiple(
                    0xffff_ffff_ffff_ffff,
                    samples@.len() as int,
                );
            }
        }
        q as u64
    }
}

} // verus!
