//! Classifying scan results and merging per-batch work reports.
//!
//! A worker hands each claimed path to the directory reader and gets back,
//! per entry, either a sub-directory, a non-directory, or an error tagged
//! with the offending path. The batch never aborts on one failed entry:
//! sub-directories become new work, errors are recorded apart.

use vstd::prelude::*;

verus! {

/// A per-path scan failure, recorded and attributed to the offending path.
#[derive(Debug, Clone)]
pub struct ErrorDir {
    pub err: String,
    pub path: String,
}

impl ErrorDir {
    pub fn new(path: String, err: String) -> (r: ErrorDir)
        ensures
            r.path == path,
            r.err == err,
    {
        ErrorDir { err, path }
    }
}

/// A path found not to be a directory.
#[derive(Debug, Clone)]
pub struct NonDir(pub String);

/// Outcome of examining one directory entry, as plain values: the entry is
/// a sub-directory, something else, or could not be examined.
#[derive(Debug, Clone)]
pub enum EntryOutcome {
    Dir { path: String },
    NonDir { path: String },
    Error { path: String, err: String },
}

/// The sub-directory paths among a batch of entry outcomes, in order.
pub open spec fn dirs_of(s: Seq<EntryOutcome>) -> Seq<String>
    decreases s.len(),
{
    if s.len() == 0 {
        Seq::empty()
    } else {
        let rest = dirs_of(s.drop_last());
        match s.last() {
            EntryOutcome::Dir { path } => rest.push(path),
            _ => rest,
        }
    }
}

/// The errors among a batch of entry outcomes, in order, each tagged with
/// its path.
pub open spec fn errors_of(s: Seq<EntryOutcome>) -> Seq<(String, String)>
    decreases s.len(),
{
    if s.len() == 0 {
        Seq::empty()
    } else {
        let rest = errors_of(s.drop_last());
        match s.last() {
            EntryOutcome::Error { path, err } => rest.push((path, err)),
            _ => rest,
        }
    }
}

/// Split a batch of entry outcomes into new tasks (the sub-directories
/// found, in order) and recorded errors (in order). One failed entry never
/// aborts the batch.
pub fn process_entries(entries: Vec<EntryOutcome>) -> (r: (Vec<String>, Vec<ErrorDir>))
    ensures
        r.0@ == dirs_of(entries@),
        r.1@.len() == errors_of(entries@).len(),
        forall|i: int|
            0 <= i < r.1@.len() ==> (#[trigger] r.1@[i]).path == errors_of(entries@)[i].0
                && r.1@[i].err == errors_of(entries@)[i].1,
{
    let mut new_tasks: Vec<String> = Vec::new();
    let mut errors: Vec<ErrorDir> = Vec::new();
    let mut i: usize = 0;
    while i < entries.len()
        invariant
            i <= entries@.len(),
            new_tasks@ == dirs_of(entries@.take(i as int)),
            errors@.len() == errors_of(entries@.take(i as int)).len(),
            forall|j: int|
                0 <= j < errors@.len() ==> (#[trigger] errors@[j]).path == errors_of(
                    entries@.take(i as int),
                )[j].0 && errors@[j].err == errors_of(entries@.take(i as int))[j].1,
        decreases entries@.len() - i,
    {
        proof {
            assert(entries@.take(i + 1 as int).drop_last() =~= entries@.take(i as int));
            assert(entries@.take(i + 1 as int).last() == entries@[i as int]);
        }
        match &entries[i] {
            EntryOutcome::Dir { path } => {
                new_tasks.push(path.clone());
            },
            EntryOutcome::NonDir { path: _ } => {},
            EntryOutcome::Error { path, err } => {
                errors.push(ErrorDir { err: err.clone(), path: path.clone() });
            },
        }
        i = i + 1;
    }
    proof {
        assert(entries@.take(entries@.len() as int) =~= entries@);
    }
    (new_tasks, errors)
}

/// Counts of what one scanned batch produced.
#[derive(Debug, Clone, Copy, PartialEq, Eq, Structural)]
pub struct ReadDirSummary {
    pub errors: usize,
    pub discovered: usize,
}

/// What one worker reports to the executor after finishing a batch.
#[derive(Debug, Clone)]
pub struct WorkResult {
    /// Average time spent per task batch, in nanoseconds.
    pub avg_t_order: u64,
    /// Average time spent waiting for work, in nanoseconds.
    pub avg_t_waiting: u64,
    /// Average processing rate, in directories per second.
    pub avg_processing_rate: u64,
    /// Directories processed since the previous report.
    pub newly_processed: usize,
    /// Largest single-directory entry count seen so far.
    pub max_dir_size: usize,
}

impl Default for WorkResult {
    fn default() -> (r: WorkResult)
        ensures
            r.avg_t_order == 0,
            r.avg_t_waiting == 0,
            r.avg_processing_rate == 0,
            r.newly_processed == 0,
            r.max_dir_size == 0,
    {
        WorkResult {
            avg_t_order: 0,
            avg_t_waiting: 0,
            avg_processing_rate: 0,
            newly_processed: 0,
            max_dir_size: 0,
        }
    }
}

impl WorkResult {
    /// Count what one scanned batch produced.
    pub fn summarize(errors: &Vec<ErrorDir>, discovered: &Vec<String>) -> (r: ReadDirSummary)
        ensures
            r.errors == errors@.len(),
            r.discovered == discovered@.len(),
    {
        ReadDirSummary { errors: errors.len(), discovered: discovered.len() }
    }

    /// Fold the next report into this one: averages are superseded by the
    /// newer report, processed counts add up, and the largest directory
    /// seen is kept.
    pub fn merge(self, next: WorkResult) -> (r: WorkResult)
        requires
            self.newly_processed + next.newly_processed <= usize::MAX,
        ensures
            r.avg_t_order == next.avg_t_order,
            r.avg_t_waiting == next.avg_t_waiting,
            r.avg_processing_rate == next.avg_processing_rate,
            r.newly_processed == self.newly_processed + next.newly_processed,
            r.max_dir_size == (if self.max_dir_size >= next.max_dir_size {
                self.max_dir_size
            } else {
                next.max_dir_size
            }),
    {
        WorkResult {
            avg_t_order: next.avg_t_order,
            avg_t_waiting: next.avg_t_waiting,
            avg_processing_rate: next.avg_processing_rate,
            newly_processed: self.newly_processed + next.newly_processed,
            max_dir_size: if self.max_dir_size >= next.max_dir_size {
                self.max_dir_size
            } else {
                next.max_dir_size
            },
        }
    }
}

} // verus!
