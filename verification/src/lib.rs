//! Verified core of a parallel directory-tree crawler.
//!
//! A fixed pool of worker threads enumerates directory subtrees rooted at a
//! set of seed paths. This crate holds the parts of that system whose
//! behaviour can be stated and proved: the counting-semaphore state machine,
//! the wake/requeue decision logic of the predicate lock, rolling-average
//! bookkeeping, the shared work buffer with its claim cursor, the per-disk
//! work registries, and the executor's work-redistribution arithmetic. The
//! thin layer of thread plumbing and filesystem calls around it lives
//! outside the library.

pub mod cellopt;
pub mod count_lock;
pub mod counting;
pub mod diskreg;
pub mod history;
pub mod intervals;
pub mod metrics;
pub mod parking;
pub mod pathidx;
pub mod scheduler;
pub mod work;
pub mod workbuf;
