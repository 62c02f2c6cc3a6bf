//! Half-open, possibly right-unbounded intervals of buffer indices.
//!
//! Claimed ranges are compared through these: an interval starts at a
//! `Start` index and runs to an `End` that is either a finite bound or
//! unbounded. Disjointness is decided by comparing one interval's end with
//! the other's start, and is proved equivalent to the two covered index
//! sets not intersecting.

use vstd::prelude::*;

verus! {

/// Inclusive lower bound of an interval.
#[derive(PartialEq, Eq, Structural, Copy, Clone, Debug)]
pub struct Start(pub usize);

/// Exclusive upper bound of an interval; `None` means unbounded.
#[derive(PartialEq, Eq, Structural, Copy, Clone, Debug)]
pub struct End(pub Option<usize>);

impl End {
    /// Checks if this end point is at or below the given start point, so
    /// that an interval ending here lies entirely before one starting
    /// there. An unspecified (`None`) end point is not below any start.
    pub fn lt_start(&self, start: &Start) -> (r: bool)
        ensures
            r == (self.0 matches Some(e) && e <= start.0),
    {
        match self.0 {
            Some(finite_end) => finite_end <= start.0,
            None => false,
        }
    }
}

/// The set of indices an interval with these bounds covers.
pub open spec fn bounds_set(start: Start, end: End) -> Set<int> {
    match end.0 {
        Some(e) => Set::new(|k: int| start.0 <= k < e),
        None => Set::new(|k: int| start.0 <= k),
    }
}

/// An interval that covers at least one index.
#[derive(PartialEq, Eq, Structural, Copy, Clone, Debug)]
pub struct NonEmptyInterval {
    pub start: Start,
    pub end: End,
}

impl NonEmptyInterval {
    /// Non-emptiness: a finite end lies strictly beyond the start.
    pub open spec fn wf(self) -> bool {
        self.end.0 matches Some(e) ==> self.start.0 < e
    }

    /// The indices this interval covers.
    pub open spec fn covers(self) -> Set<int> {
        bounds_set(self.start, self.end)
    }

    pub open spec fn spec_start(self) -> Start {
        self.start
    }

    pub open spec fn spec_end(self) -> End {
        self.end
    }

    pub fn new(start: Start, end: End) -> (r: NonEmptyInterval)
        requires
            end.0 matches Some(e) ==> start.0 < e,
        ensures
            r.wf(),
            r.spec_start() == start,
            r.spec_end() == end,
    {
        NonEmptyInterval { start, end }
    }

    /// Whether this interval and `right`, known to start at or after it,
    /// share no index: exactly when this interval's end is at or below
    /// `right`'s start.
    pub fn disjoint_assuming_left(&self, right: &NonEmptyInterval) -> (r: bool)
        requires
            self.wf(),
            right.wf(),
            self.spec_start().0 <= right.spec_start().0,
        ensures
            r == self.covers().disjoint(right.covers()),
    {
        let r = self.end.lt_start(&right.start);
        proof {
            if r {
                assert forall|k: int| self.covers().contains(k) implies !right.covers().contains(
                    k,
                ) by {}
            } else {
                assert(self.covers().contains(right.start.0 as int));
                assert(right.covers().contains(right.start.0 as int));
            }
        }
        r
    }
}

/// Whether two non-empty intervals share no index.
pub fn non_empty_disjoint(this: &NonEmptyInterval, other: &NonEmptyInterval) -> (r: bool)
    requires
        this.wf(),
        other.wf(),
    ensures
        r == this.covers().disjoint(other.covers()),
{
    let r = if this.start().0 < other.start().0 {
        this.disjoint_assuming_left(other)
    } else {
        other.disjoint_assuming_left(this)
    };
    proof {
        assert(this.covers().disjoint(other.covers()) == other.covers().disjoint(
            this.covers(),
        )) by {
            if this.covers().disjoint(other.covers()) {
                assert forall|k: int| other.covers().contains(k) implies !this.covers().contains(
                    k,
                ) by {}
            }
            if other.covers().disjoint(this.covers()) {
                assert forall|k: int| this.covers().contains(k) implies !other.covers().contains(
                    k,
                ) by {}
            }
        }
    }
    r
}

/// Whether `left`, known to start at or before `right`, shares no index
/// with it.
pub fn disjoint_assuming_left_right(left: &NonEmptyInterval, right: &NonEmptyInterval) -> (r:
    bool)
    requires
        left.wf(),
        right.wf(),
        left.spec_start().0 <= right.spec_start().0,
    ensures
        r == left.covers().disjoint(right.covers()),
{
    left.disjoint_assuming_left(right)
}

impl NonEmptyInterval {
    pub fn start(&self) -> (r: Start)
        ensures
            r == self.spec_start(),
    {
        self.start
    }

    pub fn end(&self) -> (r: End)
        ensures
            r == self.spec_end(),
    {
        self.end
    }
}

/// An interval of indices: empty, or non-empty with explicit bounds.
pub enum Interval {
    Empty,
    NonEmpty(NonEmptyInterval),
}

impl Interval {
    pub open spec fn wf(self) -> bool {
        self matches Interval::NonEmpty(iv) ==> iv.wf()
    }

    pub fn is_empty(&self) -> (r: bool)
        ensures
            r == (*self is Empty),
    {
        match self {
            Interval::Empty => true,
            _ => false,
        }
    }

    /// Whether the two intervals are non-empty and share no index. An empty
    /// interval is never reported as disjoint: there is no claimed range to
    /// separate.
    pub fn is_disjoint(&self, other: &Interval) -> (r: bool)
        requires
            self.wf(),
            other.wf(),
        ensures
            r == (*self matches Interval::NonEmpty(a) && *other matches Interval::NonEmpty(b)
                && a.covers().disjoint(b.covers())),
    {
        match (self, other) {
            (Interval::Empty, _) => false,
            (_, Interval::Empty) => false,
            (Interval::NonEmpty(this), Interval::NonEmpty(other)) => non_empty_disjoint(
                this,
                other,
            ),
        }
    }
}

} // verus!
