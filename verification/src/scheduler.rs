//! The executor's redistribution arithmetic.
//!
//! Once per scheduling tick the executor looks at each worker's in-flight
//! count. If nothing is in flight anywhere, the run may be over; otherwise
//! workers below the fair share (the mean in-flight count) are topped up
//! from surplus slices already returned by their peers, or sent a surplus
//! request sized to their shortfall. Carving a surplus of a given size out
//! of the returned slices conserves work: nothing is duplicated, nothing
//! is dropped.

use vstd::prelude::*;

use crate::workbuf::WorkSlice;

verus! {

/// What a worker last reported itself to be doing.
#[derive(Clone, Copy, Debug, PartialEq, Eq, Structural)]
pub enum Status {
    Busy,
    Idle,
}

/// What one redistribution tick decided.
#[derive(Clone, Copy, Debug, PartialEq, Eq, Structural)]
pub enum RedistributeResult {
    /// Some workers were below the fair share and no surplus was on hand:
    /// they were sent surplus requests.
    SurplusRequestsSent,
    /// Some workers were below the fair share and surplus was on hand: it
    /// was distributed.
    SurplusesDistributed,
    /// Every worker is at or above the fair share.
    NoDistributionRequired,
    /// Nothing is in flight anywhere: there is nothing to move, and the
    /// run is over if all workers are also idle.
    NoPathsInFlight,
}

/// Sum of a sequence of counts.
pub open spec fn sum_usize(s: Seq<usize>) -> int
    decreases s.len(),
{
    if s.len() == 0 {
        0
    } else {
        sum_usize(s.drop_last()) + s.last()
    }
}

/// Maximum of a sequence of counts; zero for the empty sequence.
pub open spec fn max_usize(s: Seq<usize>) -> int
    decreases s.len(),
{
    if s.len() == 0 {
        0
    } else if s.last() >= max_usize(s.drop_last()) {
        s.last() as int
    } else {
        max_usize(s.drop_last())
    }
}

/// How many workers report themselves idle.
pub open spec fn count_idle_spec(s: Seq<Status>) -> int
    decreases s.len(),
{
    if s.len() == 0 {
        0
    } else {
        count_idle_spec(s.drop_last()) + (if s.last() is Idle {
            1int
        } else {
            0int
        })
    }
}

/// Total in-flight work across all workers.
pub fn total_in_flight(in_flight: &Vec<usize>) -> (r: usize)
    requires
        sum_usize(in_flight@) <= usize::MAX,
    ensures
        r == sum_usize(in_flight@),
{
    let mut acc: usize = 0;
    let mut i: usize = 0;
    while i < in_flight.len()
        invariant
            i <= in_flight@.len(),
            acc == sum_usize(in_flight@.take(i as int)),
            sum_usize(in_flight@) <= usize::MAX,
        decreases in_flight@.len() - i,
    {
        proof {
            assert(in_flight@.take(i + 1 as int).drop_last() =~= in_flight@.take(i as int));
            lemma_sum_prefix_bound(in_flight@, i + 1 as int);
        }
        acc = acc + in_flight[i];
        i = i + 1;
    }
    proof {
        assert(in_flight@.take(in_flight@.len() as int) =~= in_flight@);
    }
    acc
}

/// A prefix of nonnegative counts never sums to more than the whole.
pub proof fn lemma_sum_prefix_bound(s: Seq<usize>, i: int)
    requires
        0 <= i <= s.len(),
    ensures
        0 <= sum_usize(s.take(i)) <= sum_usize(s),
    decreases s.len() - i,
{
    lemma_sum_nonneg(s.take(i));
    if i == s.len() {
        assert(s.take(i) =~= s);
    } else {
        lemma_sum_prefix_bound(s, i + 1);
        assert(s.take(i + 1).drop_last() =~= s.take(i));
        assert(s.take(i + 1).last() == s[i]);
    }
}

/// A sum of counts is nonnegative.
pub proof fn lemma_sum_nonneg(s: Seq<usize>)
    ensures
        sum_usize(s) >= 0,
    decreases s.len(),
{
    if s.len() > 0 {
        lemma_sum_nonneg(s.drop_last());
    }
}

/// The largest in-flight count across all workers; zero with no workers.
pub fn max_in_flight(in_flight: &Vec<usize>) -> (r: usize)
    ensures
        r == max_usize(in_flight@),
{
    let mut acc: usize = 0;
    let mut i: usize = 0;
    while i < in_flight.len()
        invariant
            i <= in_flight@.len(),
            acc == max_usize(in_flight@.take(i as int)),
        decreases in_flight@.len() - i,
    {
        proof {
            assert(in_flight@.take(i + 1 as int).drop_last() =~= in_flight@.take(i as int));
        }
        if in_flight[i] >= acc {
            acc = in_flight[i];
        }
        i = i + 1;
    }
    proof {
        assert(in_flight@.take(in_flight@.len() as int) =~= in_flight@);
    }
    acc
}

/// The redistribution target: mean in-flight work per worker.
pub fn fair_share(in_flight: &Vec<usize>) -> (r: usize)
    requires
        in_flight@.len() > 0,
        sum_usize(in_flight@) <= usize::MAX,
    ensures
        r == sum_usize(in_flight@) / (in_flight@.len() as int),
{
    let total = total_in_flight(in_flight);
    total / in_flight.len()
}

/// How many workers report themselves idle.
pub fn count_idle(statuses: &Vec<Status>) -> (r: usize)
    ensures
        r == count_idle_spec(statuses@),
{
    let mut acc: usize = 0;
    let mut i: usize = 0;
    while i < statuses.len()
        invariant
            i <= statuses@.len(),
            acc == count_idle_spec(statuses@.take(i as int)),
            acc <= i,
        decreases statuses@.len() - i,
    {
        proof {
            assert(statuses@.take(i + 1 as int).drop_last() =~= statuses@.take(i as int));
        }
        if matches!(statuses[i], Status::Idle) {
            acc = acc + 1;
        }
        i = i + 1;
    }
    proof {
        assert(statuses@.take(statuses@.len() as int) =~= statuses@);
    }
    acc
}

/// Termination check: the run is over when every worker simultaneously
/// reports idle with zero in-flight and zero locally pending work.
pub fn is_run_finished(statuses: &Vec<Status>, in_flight: &Vec<usize>, pending: &Vec<usize>) -> (r:
    bool)
    requires
        statuses@.len() == in_flight@.len() == pending@.len(),
    ensures
        r == (forall|i: int|
            0 <= i < statuses@.len() ==> (#[trigger] statuses@[i]) is Idle && in_flight@[i] == 0
                && pending@[i] == 0),
{
    let mut i: usize = 0;
    while i < statuses.len()
        invariant
            i <= statuses@.len(),
            statuses@.len() == in_flight@.len() == pending@.len(),
            forall|j: int|
                0 <= j < i ==> (#[trigger] statuses@[j]) is Idle && in_flight@[j] == 0
                    && pending@[j] == 0,
        decreases statuses@.len() - i,
    {
        let idle = matches!(statuses[i], Status::Idle);
        if !idle || in_flight[i] != 0 || pending[i] != 0 {
            return false;
        }
        i = i + 1;
    }
    true
}

/// The share of work a hungry worker asks for: the product of its average
/// processing rate (directories per second) and its average task time
/// (nanoseconds), and at least one directory.
pub open spec fn share_size_spec(avg_rate: u64, avg_task_ns: u64) -> int {
    if (avg_rate * avg_task_ns) / 1_000_000_000 < 1 {
        1int
    } else if (avg_rate * avg_task_ns) / 1_000_000_000 > usize::MAX {
        usize::MAX as int
    } else {
        (avg_rate * avg_task_ns) / 1_000_000_000
    }
}

/// Compute the share of work a hungry worker asks for.
pub fn requested_share_size(avg_rate: u64, avg_task_ns: u64) -> (r: usize)
    ensures
        r as int == share_size_spec(avg_rate, avg_task_ns),
{
    proof {
        vstd::arithmetic::mul::lemma_mul_upper_bound(
            avg_rate as int,
            0xffff_ffff_ffff_ffff,
            avg_task_ns as int,
            0xffff_ffff_ffff_ffff,
        );
    }
    let product = (avg_rate as u128) * (avg_task_ns as u128);
    let share = product / 1_000_000_000;
    if share < 1 {
        1
    } else if share > usize::MAX as u128 {
        usize::MAX
    } else {
        share as usize
    }
}

/// Each worker's shortfall against the fair share: what a surplus request
/// for it would ask for.
pub fn shortfalls(in_flight: &Vec<usize>, fair: usize) -> (r: Vec<usize>)
    ensures
        r@.len() == in_flight@.len(),
        forall|i: int|
            0 <= i < r@.len() ==> r@[i] == (if in_flight@[i] < fair {
                fair - (#[trigger] in_flight@[i])
            } else {
                0int
            }),
{
    let mut out: Vec<usize> = Vec::new();
    let mut i: usize = 0;
    while i < in_flight.len()
        invariant
            i <= in_flight@.len(),
            out@.len() == i,
            forall|j: int|
                0 <= j < i ==> out@[j] == (if in_flight@[j] < fair {
                    fair - (#[trigger] in_flight@[j])
                } else {
                    0int
                }),
        decreases in_flight@.len() - i,
    {
        if in_flight[i] < fair {
            out.push(fair - in_flight[i]);
        } else {
            out.push(0);
        }
        i = i + 1;
    }
    out
}

/// One redistribution tick's decision. With nothing in flight anywhere
/// there is nothing to move (and the all-idle check decides termination);
/// with every worker at or above the fair share nothing needs moving;
/// otherwise surplus on hand is distributed, and failing that, requests
/// are sent.
pub fn redistribute_decision(in_flight: &Vec<usize>, total_surplus: usize) -> (r:
    RedistributeResult)
    requires
        in_flight@.len() > 0,
        sum_usize(in_flight@) <= usize::MAX,
    ensures
        r == (if max_usize(in_flight@) == 0 {
            RedistributeResult::NoPathsInFlight
        } else if forall|i: int|
            0 <= i < in_flight@.len() ==> (#[trigger] in_flight@[i]) >= sum_usize(in_flight@) / (
            in_flight@.len() as int) {
            RedistributeResult::NoDistributionRequired
        } else if total_surplus > 0 {
            RedistributeResult::SurplusesDistributed
        } else {
            RedistributeResult::SurplusRequestsSent
        }),
{
    if max_in_flight(in_flight) == 0 {
        return RedistributeResult::NoPathsInFlight;
    }
    let fair = fair_share(in_flight);
    let mut anyone_below: bool = false;
    let mut i: usize = 0;
    while i < in_flight.len()
        invariant
            i <= in_flight@.len(),
            fair == sum_usize(in_flight@) / (in_flight@.len() as int),
            anyone_below == !(forall|j: int|
                0 <= j < i ==> (#[trigger] in_flight@[j]) >= fair),
        decreases in_flight@.len() - i,
    {
        if in_flight[i] < fair {
            anyone_below = true;
        }
        i = i + 1;
    }
    if !anyone_below {
        RedistributeResult::NoDistributionRequired
    } else if total_surplus > 0 {
        RedistributeResult::SurplusesDistributed
    } else {
        RedistributeResult::SurplusRequestsSent
    }
}

/// The unconsumed work a slice still carries.
pub open spec fn slice_len(s: WorkSlice) -> int {
    s.spec_end() - s.spec_cursor()
}

/// Total unconsumed work across a collection of surplus slices.
pub open spec fn sum_slices(s: Seq<WorkSlice>) -> int
    decreases s.len(),
{
    if s.len() == 0 {
        0
    } else {
        sum_slices(s.drop_last()) + slice_len(s.last())
    }
}

/// All slices in a collection are well-formed.
pub open spec fn all_wf(s: Seq<WorkSlice>) -> bool {
    forall|i: int| 0 <= i < s.len() ==> (#[trigger] s[i]).wf()
}

/// What an out-of-work worker does next: with local work pending it turns
/// busy and claims a local slice of the fixed chunk size; with none it
/// reports idle and asks the executor for a share of its peers' work,
/// sized by its own recent throughput.
#[derive(Clone, Copy, Debug, PartialEq, Eq, Structural)]
pub enum ThreadStep {
    /// Claim this many entries of local pending work.
    ClaimLocal { chunk: usize },
    /// Report idle and request a shared slice of this size.
    RequestShared { share: usize },
}

/// Decide one worker's next step from what it can see: its local pending
/// count, the configured chunk size, and its own recent averages.
pub fn next_thread_step(
    local_pending: usize,
    chunk: usize,
    avg_rate: u64,
    avg_task_ns: u64,
) -> (r: (Status, ThreadStep))
    ensures
        local_pending > 0 ==> r == (Status::Busy, ThreadStep::ClaimLocal { chunk }),
        local_pending == 0 ==> r.0 == Status::Idle && (r.1 matches ThreadStep::RequestShared {
            share,
        } && share as int == share_size_spec(avg_rate, avg_task_ns)),
{
    if local_pending > 0 {
        (Status::Busy, ThreadStep::ClaimLocal { chunk })
    } else {
        (
            Status::Idle,
            ThreadStep::RequestShared { share: requested_share_size(avg_rate, avg_task_ns) },
        )
    }
}

/// The run's overall processing rate: directories visited per second of
/// run time, rounded toward zero; zero before a full second has passed.
pub fn overall_rate(processed: usize, elapsed_secs: u64) -> (r: u64)
    ensures
        elapsed_secs == 0 ==> r == 0,
        elapsed_secs > 0 ==> r == processed as int / elapsed_secs as int,
{
    if elapsed_secs == 0 {
        return 0;
    }
    let q = (processed as u128) / (elapsed_secs as u128);
    proof {
        vstd::arithmetic::div_mod::lemma_div_nonincreasing(
            processed as int,
            elapsed_secs as int,
        );
    }
    q as u64
}

/// Total work available for redistribution across the returned surplus
/// slices.
pub fn get_total_surplus(surplus: &Vec<WorkSlice>) -> (r: usize)
    requires
        all_wf(surplus@),
        sum_slices(surplus@) <= usize::MAX,
    ensures
        r == sum_slices(surplus@),
{
    let mut acc: usize = 0;
    let mut i: usize = 0;
    proof {
        lemma_slices_nonneg(surplus@);
    }
    while i < surplus.len()
        invariant
            i <= surplus@.len(),
            all_wf(surplus@),
            acc == sum_slices(surplus@.take(i as int)),
            sum_slices(surplus@) <= usize::MAX,
        decreases surplus@.len() - i,
    {
        proof {
            assert(surplus@.take(i + 1 as int).drop_last() =~= surplus@.take(i as int));
            assert(surplus@.take(i + 1 as int).last() == surplus@[i as int]);
            assert(surplus@[i as int].wf());
            lemma_sum_slices_prefix_bound(surplus@, i + 1 as int);
            lemma_slices_nonneg(surplus@.take(i as int));
        }
        let s = *vstd::slice::slice_index_get(surplus.as_slice(), i);
        acc = acc + s.remaining();
        i = i + 1;
    }
    proof {
        assert(surplus@.take(surplus@.len() as int) =~= surplus@);
    }
    acc
}

/// Carve out of the available surplus a set of slices totalling `size`
/// units of work (or all of it, if less is available). Work is conserved:
/// what is carved out plus what is left equals what was there, and no
/// slice is duplicated or dropped — a split slice's two halves cover
/// exactly its range.
pub fn get_surplus_of_size(surplus: Vec<WorkSlice>, size: usize) -> (r: (
    Vec<WorkSlice>,
    Vec<WorkSlice>,
))
    requires
        all_wf(surplus@),
        sum_slices(surplus@) <= usize::MAX,
    ensures
        all_wf(r.0@),
        all_wf(r.1@),
        sum_slices(r.0@) + sum_slices(r.1@) == sum_slices(surplus@),
        sum_slices(r.0@) == (if size <= sum_slices(surplus@) {
            size as int
        } else {
            sum_slices(surplus@)
        }),
{
    let mut taken: Vec<WorkSlice> = Vec::new();
    let mut left: Vec<WorkSlice> = Vec::new();
    let mut unfulfilled: usize = size;
    let mut i: usize = 0;
    proof {
        lemma_slices_nonneg(surplus@);
    }
    while i < surplus.len()
        invariant
            i <= surplus@.len(),
            all_wf(surplus@),
            all_wf(taken@),
            all_wf(left@),
            unfulfilled <= size,
            sum_slices(taken@) == size - unfulfilled,
            sum_slices(taken@) + sum_slices(left@) == sum_slices(surplus@.take(i as int)),
            unfulfilled > 0 ==> sum_slices(left@) == 0,
            sum_slices(surplus@) <= usize::MAX,
        decreases surplus@.len() - i,
    {
        proof {
            assert(surplus@.take(i + 1 as int).drop_last() =~= surplus@.take(i as int));
            assert(surplus@.take(i + 1 as int).last() == surplus@[i as int]);
            assert(surplus@[i as int].wf());
            lemma_slices_nonneg(left@);
            lemma_sum_slices_prefix_bound(surplus@, i + 1 as int);
        }
        let ghost taken_prev = taken@;
        let ghost left_prev = left@;
        let s = *vstd::slice::slice_index_get(surplus.as_slice(), i);
        if unfulfilled == 0 {
            left.push(s);
            proof {
                assert(left@.drop_last() =~= left_prev);
                assert(sum_slices(left@) == sum_slices(left_prev) + slice_len(s));
            }
        } else {
            let remaining = s.remaining();
            let (give, rest) = s.split(unfulfilled);
            if remaining <= unfulfilled {
                unfulfilled = unfulfilled - remaining;
                taken.push(give);
                proof {
                    assert(taken@.drop_last() =~= taken_prev);
                    assert(sum_slices(taken@) == sum_slices(taken_prev) + slice_len(give));
                }
            } else {
                unfulfilled = 0;
                taken.push(give);
                proof {
                    assert(taken@.drop_last() =~= taken_prev);
                    assert(sum_slices(taken@) == sum_slices(taken_prev) + slice_len(give));
                }
                match rest {
                    Some(rest_slice) => {
                        left.push(rest_slice);
                        proof {
                            assert(left@.drop_last() =~= left_prev);
                            assert(sum_slices(left@) == sum_slices(left_prev) + slice_len(
                                rest_slice,
                            ));
                        }
                    },
                    None => {},
                }
            }
        }
        i = i + 1;
    }
    proof {
        assert(surplus@.take(surplus@.len() as int) =~= surplus@);
        lemma_slices_nonneg(left@);
    }
    (taken, left)
}

/// Unconsumed work is never negative.
pub proof fn lemma_slices_nonneg(s: Seq<WorkSlice>)
    requires
        all_wf(s),
    ensures
        sum_slices(s) >= 0,
    decreases s.len(),
{
    if s.len() > 0 {
        assert(all_wf(s.drop_last())) by {
            assert(forall|i: int|
                0 <= i < s.len() - 1 ==> (#[trigger] s.drop_last()[i]) == s[i]);
        }
        lemma_slices_nonneg(s.drop_last());
        assert(s.last().wf());
    }
}

/// A prefix of slices never carries more work than the whole collection.
pub proof fn lemma_sum_slices_prefix_bound(s: Seq<WorkSlice>, i: int)
    requires
        all_wf(s),
        0 <= i <= s.len(),
    ensures
        sum_slices(s.take(i)) <= sum_slices(s),
    decreases s.len() - i,
{
    if i == s.len() {
        assert(s.take(i) =~= s);
    } else {
        lemma_sum_slices_prefix_bound(s, i + 1);
        assert(s.take(i + 1).drop_last() =~= s.take(i));
        assert(s[i].wf());
    }
}

} // verus!
