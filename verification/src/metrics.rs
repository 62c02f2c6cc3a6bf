//! Per-worker timing bookkeeping.
//!
//! A worker's loop passes through phases — waiting for a reader, waiting
//! for disk access, reading, processing results — and each phase's elapsed
//! time lands first in a one-shot slot, then, when a batch completes, in a
//! rolling-average window. Instants are plain nanosecond counts supplied by
//! the caller; the clock itself lives outside the library.

use vstd::prelude::*;

use crate::cellopt::CellOpt;
use crate::history::{mean_of, window_push, HistoryVec};

verus! {

/// The phases a worker times.
#[derive(Clone, Copy, Debug, PartialEq, Eq, Structural)]
pub enum HistoryEvent {
    ThreadStart,
    ReadingDisk,
    WaitingForDiskReader,
    WaitingForDiskAccess,
    ProcessingReadResults,
    Miscellaneous,
}

/// A rolling window of elapsed times plus their all-time total.
pub struct TimeSpanHistory {
    history: HistoryVec,
    total: u64,
}

impl TimeSpanHistory {
    pub closed spec fn wf(self) -> bool {
        self.history.wf()
    }

    pub closed spec fn view_window(self) -> Seq<u64> {
        self.history.view_window()
    }

    pub closed spec fn spec_capacity(self) -> usize {
        self.history.spec_capacity()
    }

    pub closed spec fn spec_total(self) -> u64 {
        self.total
    }

    pub fn new(capacity: usize) -> (r: TimeSpanHistory)
        requires
            capacity > 0,
        ensures
            r.wf(),
            r.view_window() == Seq::<u64>::empty(),
            r.spec_capacity() == capacity,
            r.spec_total() == 0,
    {
        TimeSpanHistory { history: HistoryVec::new(capacity), total: 0 }
    }

    /// Record one elapsed time: it enters the rolling window and the
    /// all-time total (which saturates rather than wrap).
    pub fn push(&mut self, elapsed: u64)
        requires
            old(self).wf(),
        ensures
            final(self).wf(),
            final(self).spec_capacity() == old(self).spec_capacity(),
            final(self).view_window() == window_push(
                old(self).view_window(),
                elapsed,
                old(self).spec_capacity() as nat,
            ),
            final(self).spec_total() == (if old(self).spec_total() + elapsed <= u64::MAX {
                old(self).spec_total() + elapsed
            } else {
                u64::MAX as int
            }),
    {
        self.history.push(elapsed);
        if elapsed <= u64::MAX - self.total {
            self.total = self.total + elapsed;
        } else {
            self.total = u64::MAX;
        }
    }

    /// Mean of the elapsed times in the window.
    pub fn average(&self) -> (r: u64)
        requires
            self.wf(),
        ensures
            r == mean_of(self.view_window()),
    {
        self.history.average()
    }

    /// The most recent elapsed time, if any.
    pub fn last(&self) -> (r: Option<u64>)
        ensures
            r == (if self.view_window().len() == 0 {
                Option::<u64>::None
            } else {
                Option::Some(self.view_window().last())
            }),
    {
        self.history.last()
    }
}

/// Elapsed times of the phases of the batch currently in progress, each
/// filled once as its phase ends.
pub struct CurrentTimings {
    pub disk_reader_wait: CellOpt<u64>,
    pub disk_access_wait: CellOpt<u64>,
    pub read_processing_time: CellOpt<u64>,
    pub misc_time: CellOpt<u64>,
    pub disk_read_time: CellOpt<u64>,
}

/// Elapsed times of one completed batch, all phases present (a missing
/// miscellaneous phase counts as zero).
#[derive(Clone, Copy, Debug, PartialEq, Eq, Structural)]
pub struct CompleteTimings {
    pub disk_reader_wait: u64,
    pub disk_access_wait: u64,
    pub disk_read_time: u64,
    pub misc_time: u64,
    pub read_processing_time: u64,
}

impl CurrentTimings {
    /// All one-shot slots empty.
    pub fn new() -> (r: CurrentTimings)
        ensures
            r.disk_reader_wait.view_slot() is None,
            r.disk_access_wait.view_slot() is None,
            r.read_processing_time.view_slot() is None,
            r.misc_time.view_slot() is None,
            r.disk_read_time.view_slot() is None,
    {
        CurrentTimings {
            disk_reader_wait: CellOpt::default(),
            disk_access_wait: CellOpt::default(),
            read_processing_time: CellOpt::default(),
            misc_time: CellOpt::default(),
            disk_read_time: CellOpt::default(),
        }
    }

    /// Whether every required phase of the batch has been timed.
    pub open spec fn complete(self) -> bool {
        &&& self.disk_reader_wait.view_slot() is Some
        &&& self.disk_access_wait.view_slot() is Some
        &&& self.read_processing_time.view_slot() is Some
        &&& self.disk_read_time.view_slot() is Some
    }

    /// Drain the slots into one completed-batch record. An incomplete
    /// batch (a required phase still untimed) yields nothing and leaves
    /// the slots as they were; a missing miscellaneous time counts as
    /// zero.
    pub fn try_complete(&mut self) -> (r: Option<CompleteTimings>)
        ensures
            r is Some <==> old(self).complete(),
            !old(self).complete() ==> *final(self) == *old(self),
            old(self).complete() ==> {
                &&& r matches Some(t)
                &&& Some(t.disk_reader_wait) == old(self).disk_reader_wait.view_slot()
                &&& Some(t.disk_access_wait) == old(self).disk_access_wait.view_slot()
                &&& Some(t.read_processing_time) == old(self).read_processing_time.view_slot()
                &&& Some(t.disk_read_time) == old(self).disk_read_time.view_slot()
                &&& t.misc_time == (match old(self).misc_time.view_slot() {
                    Some(m) => m,
                    None => 0u64,
                })
                &&& final(self).disk_reader_wait.view_slot() is None
                &&& final(self).disk_access_wait.view_slot() is None
                &&& final(self).read_processing_time.view_slot() is None
                &&& final(self).misc_time.view_slot() is None
                &&& final(self).disk_read_time.view_slot() is None
            },
    {
        if !(self.disk_reader_wait.is_occupied() && self.disk_access_wait.is_occupied()
            && self.read_processing_time.is_occupied() && self.disk_read_time.is_occupied()) {
            return None;
        }
        let misc_time = match self.misc_time.take() {
            Ok(m) => m,
            Err(_) => 0,
        };
        Some(
            CompleteTimings {
                disk_reader_wait: self.disk_reader_wait.force_take(),
                disk_access_wait: self.disk_access_wait.force_take(),
                disk_read_time: self.disk_read_time.force_take(),
                misc_time,
                read_processing_time: self.read_processing_time.force_take(),
            },
        )
    }
}

/// One worker's rolling windows, one per metric.
pub struct ThreadHistory {
    h_processing_rate: HistoryVec,
    h_reader_wait: TimeSpanHistory,
    h_access_wait: TimeSpanHistory,
    h_process_dirs_time: TimeSpanHistory,
    h_misc_time: TimeSpanHistory,
    h_process_tasks_time: TimeSpanHistory,
}

impl ThreadHistory {
    pub closed spec fn wf(self) -> bool {
        &&& self.h_processing_rate.wf()
        &&& self.h_reader_wait.wf()
        &&& self.h_access_wait.wf()
        &&& self.h_process_dirs_time.wf()
        &&& self.h_misc_time.wf()
        &&& self.h_process_tasks_time.wf()
    }

    pub closed spec fn view_rates(self) -> Seq<u64> {
        self.h_processing_rate.view_window()
    }

    pub closed spec fn view_reader_waits(self) -> Seq<u64> {
        self.h_reader_wait.view_window()
    }

    pub closed spec fn view_access_waits(self) -> Seq<u64> {
        self.h_access_wait.view_window()
    }

    pub closed spec fn view_process_dirs_times(self) -> Seq<u64> {
        self.h_process_dirs_time.view_window()
    }

    pub closed spec fn view_misc_times(self) -> Seq<u64> {
        self.h_misc_time.view_window()
    }

    pub closed spec fn view_process_tasks_times(self) -> Seq<u64> {
        self.h_process_tasks_time.view_window()
    }

    pub closed spec fn spec_capacity(self) -> usize {
        self.h_processing_rate.spec_capacity()
    }

    pub closed spec fn same_capacities(self) -> bool {
        &&& self.h_reader_wait.spec_capacity() == self.spec_capacity()
        &&& self.h_access_wait.spec_capacity() == self.spec_capacity()
        &&& self.h_process_dirs_time.spec_capacity() == self.spec_capacity()
        &&& self.h_misc_time.spec_capacity() == self.spec_capacity()
        &&& self.h_process_tasks_time.spec_capacity() == self.spec_capacity()
    }

    pub fn new(max_history: usize) -> (r: ThreadHistory)
        requires
            max_history > 0,
        ensures
            r.wf(),
            r.same_capacities(),
            r.spec_capacity() == max_history,
            r.view_rates() == Seq::<u64>::empty(),
            r.view_reader_waits() == Seq::<u64>::empty(),
            r.view_access_waits() == Seq::<u64>::empty(),
            r.view_process_dirs_times() == Seq::<u64>::empty(),
            r.view_misc_times() == Seq::<u64>::empty(),
            r.view_process_tasks_times() == Seq::<u64>::empty(),
    {
        ThreadHistory {
            h_processing_rate: HistoryVec::new(max_history),
            h_reader_wait: TimeSpanHistory::new(max_history),
            h_access_wait: TimeSpanHistory::new(max_history),
            h_process_dirs_time: TimeSpanHistory::new(max_history),
            h_misc_time: TimeSpanHistory::new(max_history),
            h_process_tasks_time: TimeSpanHistory::new(max_history),
        }
    }

    /// Fold one completed batch into the windows: the processing-rate
    /// sample is the time spent processing divided by the directories
    /// processed, and every phase's elapsed time enters its own window.
    pub fn update(&mut self, dirs_processed: usize, t: CompleteTimings)
        requires
            old(self).wf(),
            old(self).same_capacities(),
            dirs_processed > 0,
        ensures
            final(self).wf(),
            final(self).same_capacities(),
            final(self).spec_capacity() == old(self).spec_capacity(),
            final(self).view_rates() == window_push(
                old(self).view_rates(),
                (t.read_processing_time as int / dirs_processed as int) as u64,
                old(self).spec_capacity() as nat,
            ),
            final(self).view_reader_waits() == window_push(
                old(self).view_reader_waits(),
                t.disk_reader_wait,
                old(self).spec_capacity() as nat,
            ),
            final(self).view_access_waits() == window_push(
                old(self).view_access_waits(),
                t.disk_access_wait,
                old(self).spec_capacity() as nat,
            ),
            final(self).view_process_dirs_times() == window_push(
                old(self).view_process_dirs_times(),
                t.disk_read_time,
                old(self).spec_capacity() as nat,
            ),
            final(self).view_misc_times() == window_push(
                old(self).view_misc_times(),
                t.misc_time,
                old(self).spec_capacity() as nat,
            ),
            final(self).view_process_tasks_times() == window_push(
                old(self).view_process_tasks_times(),
                t.read_processing_time,
                old(self).spec_capacity() as nat,
            ),
    {
        let processing_rate = t.read_processing_time / (dirs_processed as u64);
        self.h_processing_rate.push(processing_rate);
        self.h_reader_wait.push(t.disk_reader_wait);
        self.h_access_wait.push(t.disk_access_wait);
        self.h_process_dirs_time.push(t.disk_read_time);
        self.h_misc_time.push(t.misc_time);
        self.h_process_tasks_time.push(t.read_processing_time);
    }

    pub fn get_avg_processing_rate(&self) -> (r: u64)
        requires
            self.wf(),
        ensures
            r == mean_of(self.view_rates()),
    {
        self.h_processing_rate.average()
    }

    pub fn get_avg_disk_reader_wait(&self) -> (r: u64)
        requires
            self.wf(),
        ensures
            r == mean_of(self.view_reader_waits()),
    {
        self.h_reader_wait.average()
    }

    pub fn get_avg_disk_access_wait(&self) -> (r: u64)
        requires
            self.wf(),
        ensures
            r == mean_of(self.view_access_waits()),
    {
        self.h_access_wait.average()
    }

    pub fn get_avg_process_reads_time(&self) -> (r: u64)
        requires
            self.wf(),
        ensures
            r == mean_of(self.view_process_dirs_times()),
    {
        self.h_process_dirs_time.average()
    }

    pub fn get_avg_misc_time(&self) -> (r: u64)
        requires
            self.wf(),
        ensures
            r == mean_of(self.view_misc_times()),
    {
        self.h_misc_time.average()
    }

    pub fn get_avg_disk_read_time(&self) -> (r: u64)
        requires
            self.wf(),
        ensures
            r == mean_of(self.view_process_tasks_times()),
    {
        self.h_process_tasks_time.average()
    }

    /// The most recent processing-rate sample, if any.
    pub fn get_last_rate(&self) -> (r: Option<u64>)
        ensures
            r == (if self.view_rates().len() == 0 {
                Option::<u64>::None
            } else {
                Option::Some(self.view_rates().last())
            }),
    {
        self.h_processing_rate.last()
    }
}

/// A phase being timed: which event, and when it began (nanoseconds).
#[derive(Clone, Copy, Debug, PartialEq, Eq, Structural)]
pub struct Timer {
    pub event: HistoryEvent,
    pub start: u64,
}

impl Timer {
    pub fn new(event: HistoryEvent, now: u64) -> (r: Timer)
        ensures
            r.event == event,
            r.start == now,
    {
        Timer { event, start: now }
    }

    /// End this phase, recording its elapsed time, and begin the next.
    pub fn end_then_begin(
        self,
        metrics: &mut ThreadMetrics,
        next_event: HistoryEvent,
        now: u64,
    ) -> (r: Timer)
        requires
            self.start <= now,
        ensures
            r.event == next_event,
            r.start == now,
            timing_slots(final(metrics).curr_timings) == slots_after_event(
                timing_slots(old(metrics).curr_timings),
                (now - self.start) as u64,
                self.event,
            ),
            final(metrics).history == old(metrics).history,
            final(metrics).total_processed == old(metrics).total_processed,
    {
        self.finished(metrics, now);
        Timer { event: next_event, start: now }
    }

    /// End this phase, recording its elapsed time.
    pub fn finished(self, metrics: &mut ThreadMetrics, now: u64)
        requires
            self.start <= now,
        ensures
            timing_slots(final(metrics).curr_timings) == slots_after_event(
                timing_slots(old(metrics).curr_timings),
                (now - self.start) as u64,
                self.event,
            ),
            final(metrics).history == old(metrics).history,
            final(metrics).total_processed == old(metrics).total_processed,
    {
        metrics.end_event(now - self.start, self.event);
    }
}

/// A slot keeps its first value: filling is a no-op when occupied.
pub open spec fn fill_opt(slot: Option<u64>, elapsed: u64) -> Option<u64> {
    if slot is None {
        Some(elapsed)
    } else {
        slot
    }
}

/// The five one-shot slots, as what they hold: reader wait, access wait,
/// read processing, miscellaneous, disk read.
pub open spec fn timing_slots(c: CurrentTimings) -> (
    Option<u64>,
    Option<u64>,
    Option<u64>,
    Option<u64>,
    Option<u64>,
) {
    (
        c.disk_reader_wait.view_slot(),
        c.disk_access_wait.view_slot(),
        c.read_processing_time.view_slot(),
        c.misc_time.view_slot(),
        c.disk_read_time.view_slot(),
    )
}

/// How recording one phase's elapsed time changes the one-shot slots: the
/// matching slot is filled if it was empty, the rest are untouched, and a
/// thread start records nothing.
pub open spec fn slots_after_event(
    slots: (Option<u64>, Option<u64>, Option<u64>, Option<u64>, Option<u64>),
    elapsed: u64,
    event: HistoryEvent,
) -> (Option<u64>, Option<u64>, Option<u64>, Option<u64>, Option<u64>) {
    match event {
        HistoryEvent::WaitingForDiskReader => (
            fill_opt(slots.0, elapsed),
            slots.1,
            slots.2,
            slots.3,
            slots.4,
        ),
        HistoryEvent::WaitingForDiskAccess => (
            slots.0,
            fill_opt(slots.1, elapsed),
            slots.2,
            slots.3,
            slots.4,
        ),
        HistoryEvent::ProcessingReadResults => (
            slots.0,
            slots.1,
            fill_opt(slots.2, elapsed),
            slots.3,
            slots.4,
        ),
        HistoryEvent::Miscellaneous => (
            slots.0,
            slots.1,
            slots.2,
            fill_opt(slots.3, elapsed),
            slots.4,
        ),
        HistoryEvent::ReadingDisk => (
            slots.0,
            slots.1,
            slots.2,
            slots.3,
            fill_opt(slots.4, elapsed),
        ),
        HistoryEvent::ThreadStart => slots,
    }
}

/// One worker's metrics: its windows, the in-progress batch's timings, when
/// the thread started, and how many directories it has processed in all.
pub struct ThreadMetrics {
    pub history: ThreadHistory,
    pub curr_timings: CurrentTimings,
    pub t_thread_start: CellOpt<u64>,
    pub total_processed: usize,
}

impl ThreadMetrics {
    pub open spec fn wf(self) -> bool {
        self.history.wf() && self.history.same_capacities()
    }

    pub fn new(max_history: usize, now: u64) -> (r: ThreadMetrics)
        requires
            max_history > 0,
        ensures
            r.wf(),
            r.history.spec_capacity() == max_history,
            r.t_thread_start.view_slot() == Some(now),
            r.total_processed == 0,
            !r.curr_timings.complete(),
    {
        ThreadMetrics {
            history: ThreadHistory::new(max_history),
            curr_timings: CurrentTimings::new(),
            t_thread_start: CellOpt::new(now),
            total_processed: 0,
        }
    }

    /// Begin timing a phase.
    pub fn begin_event(&self, event: HistoryEvent, now: u64) -> (r: Timer)
        ensures
            r.event == event,
            r.start == now,
    {
        Timer::new(event, now)
    }

    /// Record one phase's elapsed time into its one-shot slot; a slot keeps
    /// its first value, and a thread start records nothing.
    pub fn end_event(&mut self, elapsed: u64, event: HistoryEvent)
        ensures
            timing_slots(final(self).curr_timings) == slots_after_event(
                timing_slots(old(self).curr_timings),
                elapsed,
                event,
            ),
            final(self).history == old(self).history,
            final(self).t_thread_start == old(self).t_thread_start,
            final(self).total_processed == old(self).total_processed,
    {
        match event {
            HistoryEvent::ReadingDisk => {
                let _ = self.curr_timings.disk_read_time.insert(elapsed);
            },
            HistoryEvent::WaitingForDiskReader => {
                let _ = self.curr_timings.disk_reader_wait.insert(elapsed);
            },
            HistoryEvent::WaitingForDiskAccess => {
                let _ = self.curr_timings.disk_access_wait.insert(elapsed);
            },
            HistoryEvent::ProcessingReadResults => {
                let _ = self.curr_timings.read_processing_time.insert(elapsed);
            },
            HistoryEvent::Miscellaneous => {
                let _ = self.curr_timings.misc_time.insert(elapsed);
            },
            HistoryEvent::ThreadStart => {},
        }
    }

    /// Fold the in-progress batch into the windows, if it is complete, and
    /// count the directories it processed. An incomplete batch changes
    /// nothing and reports `false`.
    pub fn update_histories(&mut self, just_processed: usize) -> (updated: bool)
        requires
            old(self).wf(),
            just_processed > 0,
            old(self).total_processed + just_processed <= usize::MAX,
        ensures
            final(self).wf(),
            updated == old(self).curr_timings.complete(),
            !updated ==> *final(self) == *old(self),
            updated ==> final(self).total_processed == old(self).total_processed
                + just_processed && !final(self).curr_timings.complete(),
    {
        let completed = self.curr_timings.try_complete();
        match completed {
            Some(t) => {
                self.history.update(just_processed, t);
                self.total_processed = self.total_processed + just_processed;
                true
            },
            None => false,
        }
    }

    pub fn avg_processing_rate(&self) -> (r: u64)
        requires
            self.wf(),
        ensures
            r == mean_of(self.history.view_rates()),
    {
        self.history.get_avg_processing_rate()
    }

    pub fn avg_disk_reader_wait(&self) -> (r: u64)
        requires
            self.wf(),
        ensures
            r == mean_of(self.history.view_reader_waits()),
    {
        self.history.get_avg_disk_reader_wait()
    }

    pub fn avg_disk_read_time(&self) -> (r: u64)
        requires
            self.wf(),
        ensures
            r == mean_of(self.history.view_process_tasks_times()),
    {
        self.history.get_avg_disk_read_time()
    }

    pub fn avg_misc_times(&self) -> (r: u64)
        requires
            self.wf(),
        ensures
            r == mean_of(self.history.view_misc_times()),
    {
        self.history.get_avg_misc_time()
    }

    pub fn avg_disk_access_wait(&self) -> (r: u64)
        requires
            self.wf(),
        ensures
            r == mean_of(self.history.view_access_waits()),
    {
        self.history.get_avg_disk_access_wait()
    }

    pub fn avg_process_reads_time(&self) -> (r: u64)
        requires
            self.wf(),
        ensures
            r == mean_of(self.history.view_process_dirs_times()),
    {
        self.history.get_avg_process_reads_time()
    }
}

} // verus!
