//! The shared work buffer and the slices claimed out of it.
//!
//! A `WorkBuf` is a growable sequence of pending work items (discovered
//! paths) with a cursor `pending_from` separating already-claimed entries
//! from still-claimable ones. Claims only ever advance the cursor, so two
//! claims never overlap; appends never disturb claimed ranges. A
//! `WorkSlice` is a claimed, contiguous, splittable range of indices into
//! the buffer, consumed one index at a time.

use vstd::prelude::*;

verus! {

/// Whether a claimed slice is meant for the claiming thread itself or to be
/// handed to a peer.
#[derive(Clone, Copy, Debug, PartialEq, Eq, Structural)]
pub enum Source {
    Local,
    Shared,
}

/// A claimed half-open range `[start, end)` of buffer indices, with a
/// cursor marking how far it has been consumed.
#[derive(Clone, Copy, Debug)]
pub struct WorkSlice {
    pub source: Source,
    pub start: usize,
    pub end: usize,
    pub cursor: usize,
}

impl WorkSlice {
    pub open spec fn wf(self) -> bool {
        self.start <= self.cursor <= self.end
    }

    pub open spec fn spec_source(self) -> Source {
        self.source
    }

    pub open spec fn spec_start(self) -> usize {
        self.start
    }

    pub open spec fn spec_end(self) -> usize {
        self.end
    }

    pub open spec fn spec_cursor(self) -> usize {
        self.cursor
    }

    pub fn new(source: Source, start: usize, end: usize) -> (r: WorkSlice)
        requires
            start <= end,
        ensures
            r.wf(),
            r.spec_source() == source,
            r.spec_start() == start,
            r.spec_end() == end,
            r.spec_cursor() == start,
    {
        WorkSlice { source, start, end, cursor: start }
    }

    pub fn source(&self) -> (r: Source)
        ensures
            r == self.spec_source(),
    {
        self.source
    }

    pub fn start(&self) -> (r: usize)
        ensures
            r == self.spec_start(),
    {
        self.start
    }

    pub fn end(&self) -> (r: usize)
        ensures
            r == self.spec_end(),
    {
        self.end
    }

    /// Total number of indices the slice was claimed with.
    pub fn len(&self) -> (r: usize)
        requires
            self.wf(),
        ensures
            r == self.spec_end() - self.spec_start(),
    {
        self.end - self.start
    }

    /// Number of indices not yet consumed.
    pub fn remaining(&self) -> (r: usize)
        requires
            self.wf(),
        ensures
            r == self.spec_end() - self.spec_cursor(),
    {
        self.end - self.cursor
    }

    /// The slice is exhausted once its cursor reaches its end.
    pub fn is_exhausted(&self) -> (r: bool)
        requires
            self.wf(),
        ensures
            r == (self.spec_cursor() == self.spec_end()),
    {
        self.cursor == self.end
    }

    /// Consume one index: the next buffer position to process, or `None`
    /// once the slice is exhausted.
    pub fn next_index(&mut self) -> (r: Option<usize>)
        requires
            old(self).wf(),
        ensures
            final(self).wf(),
            final(self).spec_source() == old(self).spec_source(),
            final(self).spec_start() == old(self).spec_start(),
            final(self).spec_end() == old(self).spec_end(),
            old(self).spec_cursor() < old(self).spec_end() ==> r == Some(
                old(self).spec_cursor(),
            ) && final(self).spec_cursor() == old(self).spec_cursor() + 1,
            old(self).spec_cursor() == old(self).spec_end() ==> r is None
                && final(self).spec_cursor() == old(self).spec_cursor(),
    {
        if self.cursor < self.end {
            let i = self.cursor;
            self.cursor = self.cursor + 1;
            Some(i)
        } else {
            None
        }
    }

    /// Partition the unconsumed part of the slice without copying: the
    /// first `n` indices and the remainder. A request for the whole slice
    /// (or more) returns it unchanged with no remainder; otherwise the two
    /// halves are adjacent and together cover exactly the unconsumed range.
    pub fn split(self, n: usize) -> (r: (WorkSlice, Option<WorkSlice>))
        requires
            self.wf(),
        ensures
            r.0.wf(),
            r.0.spec_source() == self.spec_source(),
            n >= self.spec_end() - self.spec_cursor() ==> r.0 == self && r.1 is None,
            n < self.spec_end() - self.spec_cursor() ==> {
                &&& r.0.spec_start() == self.spec_cursor()
                &&& r.0.spec_cursor() == self.spec_cursor()
                &&& r.0.spec_end() == self.spec_cursor() + n
                &&& r.1 matches Some(rest) && rest.wf()
                    && rest.spec_source() == self.spec_source()
                    && rest.spec_start() == self.spec_cursor() + n
                    && rest.spec_cursor() == self.spec_cursor() + n
                    && rest.spec_end() == self.spec_end()
            },
    {
        if n >= self.end - self.cursor {
            (self, None)
        } else {
            let mid = self.cursor + n;
            (
                WorkSlice { source: self.source, start: self.cursor, end: mid, cursor: self.cursor },
                Some(WorkSlice { source: self.source, start: mid, end: self.end, cursor: mid }),
            )
        }
    }
}

/// A growable buffer of pending work items with a claim cursor.
pub struct WorkBuf<T> {
    items: Vec<T>,
    pending_from: usize,
}

impl<T> WorkBuf<T> {
    /// The cursor never outruns the buffer.
    pub closed spec fn wf(self) -> bool {
        self.pending_from <= self.items@.len()
    }

    pub closed spec fn view_items(self) -> Seq<T> {
        self.items@
    }

    pub closed spec fn spec_pending_from(self) -> usize {
        self.pending_from
    }

    pub fn new(seed: Vec<T>) -> (r: WorkBuf<T>)
        ensures
            r.wf(),
            r.view_items() == seed@,
            r.spec_pending_from() == 0,
    {
        WorkBuf { items: seed, pending_from: 0 }
    }

    /// Append-only growth: newly discovered items become claimable; the
    /// cursor, and with it every range already claimed, is untouched.
    pub fn extend(&mut self, mut new_items: Vec<T>)
        requires
            old(self).wf(),
        ensures
            final(self).wf(),
            final(self).view_items() == old(self).view_items() + new_items@,
            final(self).spec_pending_from() == old(self).spec_pending_from(),
    {
        self.items.append(&mut new_items);
    }

    /// Append one newly discovered item.
    pub fn push_item(&mut self, item: T)
        requires
            old(self).wf(),
        ensures
            final(self).wf(),
            final(self).view_items() == old(self).view_items().push(item),
            final(self).spec_pending_from() == old(self).spec_pending_from(),
    {
        self.items.push(item);
    }

    /// How many items are pending: present but not yet claimed.
    pub fn total_pending(&self) -> (r: usize)
        requires
            self.wf(),
        ensures
            r == self.view_items().len() - self.spec_pending_from(),
    {
        self.items.len() - self.pending_from
    }

    pub fn len(&self) -> (r: usize)
        ensures
            r == self.view_items().len(),
    {
        self.items.len()
    }

    pub fn pending_from(&self) -> (r: usize)
        ensures
            r == self.spec_pending_from(),
    {
        self.pending_from
    }

    /// Read the item at a claimed index.
    pub fn get(&self, i: usize) -> (r: &T)
        requires
            i < self.view_items().len(),
        ensures
            *r == self.view_items()[i as int],
    {
        &self.items[i]
    }

    /// Claim the next `n` pending items (capped at what is present): the
    /// returned slice starts at the old cursor, ends at the new one, and
    /// the cursor only moves forward.
    fn claim(&mut self, n: usize, source: Source) -> (r: WorkSlice)
        requires
            old(self).wf(),
        ensures
            final(self).wf(),
            final(self).view_items() == old(self).view_items(),
            r.wf(),
            r.spec_source() == source,
            r.spec_cursor() == r.spec_start(),
            r.spec_start() == old(self).spec_pending_from(),
            r.spec_end() == final(self).spec_pending_from(),
            r.spec_end() - r.spec_start() == (if n <= old(self).view_items().len()
                - old(self).spec_pending_from() {
                n as int
            } else {
                old(self).view_items().len() - old(self).spec_pending_from()
            }),
    {
        let start = self.pending_from;
        let available = self.items.len() - self.pending_from;
        let take = if n <= available {
            n
        } else {
            available
        };
        let end = start + take;
        self.pending_from = end;
        WorkSlice { source, start, end, cursor: start }
    }

    /// Claim up to `n` items for this thread's own consumption.
    pub fn get_work_for_local(&mut self, n: usize) -> (r: WorkSlice)
        requires
            old(self).wf(),
        ensures
            final(self).wf(),
            final(self).view_items() == old(self).view_items(),
            r.wf(),
            r.spec_source() == Source::Local,
            r.spec_cursor() == r.spec_start(),
            r.spec_start() == old(self).spec_pending_from(),
            r.spec_end() == final(self).spec_pending_from(),
            r.spec_end() - r.spec_start() == (if n <= old(self).view_items().len()
                - old(self).spec_pending_from() {
                n as int
            } else {
                old(self).view_items().len() - old(self).spec_pending_from()
            }),
    {
        self.claim(n, Source::Local)
    }

    /// Claim up to `n` items to hand to another thread.
    pub fn get_work_for_sharing(&mut self, n: usize) -> (r: WorkSlice)
        requires
            old(self).wf(),
        ensures
            final(self).wf(),
            final(self).view_items() == old(self).view_items(),
            r.wf(),
            r.spec_source() == Source::Shared,
            r.spec_cursor() == r.spec_start(),
            r.spec_start() == old(self).spec_pending_from(),
            r.spec_end() == final(self).spec_pending_from(),
            r.spec_end() - r.spec_start() == (if n <= old(self).view_items().len()
                - old(self).spec_pending_from() {
                n as int
            } else {
                old(self).view_items().len() - old(self).spec_pending_from()
            }),
    {
        self.claim(n, Source::Shared)
    }
}

/// The set of buffer indices a half-open range covers.
pub open spec fn idx_set(lo: int, hi: int) -> Set<int> {
    Set::new(|k: int| lo <= k < hi)
}

/// Splitting a range at a point partitions it: the two halves share no
/// index, and together they cover exactly the original range. With
/// `split`'s contract, a surplus transfer neither duplicates nor drops a
/// claimed index.
pub proof fn lemma_split_partition(lo: int, mid: int, hi: int)
    requires
        lo <= mid <= hi,
    ensures
        idx_set(lo, mid).disjoint(idx_set(mid, hi)),
        idx_set(lo, mid).union(idx_set(mid, hi)) == idx_set(lo, hi),
{
    assert forall|k: int| idx_set(lo, mid).contains(k) implies !idx_set(mid, hi).contains(
        k,
    ) by {}
    assert(idx_set(lo, mid).union(idx_set(mid, hi)) =~= idx_set(lo, hi));
}

/// Claims issued one after another against one buffer: each starts where
/// the previous ended, and the first starts at the cursor value `init`.
/// This is exactly the shape `claim` guarantees: each claim's start is the
/// cursor before the call and its end is the cursor after it.
pub open spec fn chained_claims(claims: Seq<WorkSlice>, init: int) -> bool {
    &&& forall|i: int|
        0 <= i < claims.len() ==> (#[trigger] claims[i]).spec_start() <= claims[i].spec_end()
    &&& claims.len() > 0 ==> claims[0].spec_start() == init
    &&& forall|i: int|
        1 <= i < claims.len() ==> (#[trigger] claims[i]).spec_start() == claims[i
            - 1].spec_end()
}

/// The indices covered by all claims together.
pub open spec fn claims_union(claims: Seq<WorkSlice>) -> Set<int>
    decreases claims.len(),
{
    if claims.len() == 0 {
        Set::empty()
    } else {
        claims_union(claims.drop_last()).union(
            idx_set(claims.last().spec_start() as int, claims.last().spec_end() as int),
        )
    }
}

/// In a chain of claims, an earlier claim ends no later than a later one
/// begins.
pub proof fn lemma_chain_monotone(claims: Seq<WorkSlice>, init: int, i: int, j: int)
    requires
        chained_claims(claims, init),
        0 <= i <= j < claims.len(),
    ensures
        claims[i].spec_end() <= claims[j].spec_start() + (claims[j].spec_end()
            - claims[j].spec_start()),
        i < j ==> claims[i].spec_end() <= claims[j].spec_start(),
    decreases j - i,
{
    if i < j {
        lemma_chain_monotone(claims, init, i, j - 1);
    }
}

/// Claim disjointness: all claims issued against one buffer cover pairwise
/// disjoint index ranges, and together they cover exactly the indices from
/// the initial cursor position to its final value.
pub proof fn lemma_claims_disjoint_and_cover(claims: Seq<WorkSlice>, init: int)
    requires
        chained_claims(claims, init),
        claims.len() > 0,
    ensures
        forall|i: int, j: int|
            0 <= i < j < claims.len() ==> idx_set(
                (#[trigger] claims[i]).spec_start() as int,
                claims[i].spec_end() as int,
            ).disjoint(
                idx_set((#[trigger] claims[j]).spec_start() as int, claims[j].spec_end() as int),
            ),
        claims_union(claims) == idx_set(init, claims.last().spec_end() as int),
    decreases claims.len(),
{
    assert forall|i: int, j: int| 0 <= i < j < claims.len() implies idx_set(
        (#[trigger] claims[i]).spec_start() as int,
        claims[i].spec_end() as int,
    ).disjoint(
        idx_set((#[trigger] claims[j]).spec_start() as int, claims[j].spec_end() as int),
    ) by {
        lemma_chain_monotone(claims, init, i, j);
        assert forall|k: int|
            idx_set(claims[i].spec_start() as int, claims[i].spec_end() as int).contains(k)
                implies !idx_set(
            claims[j].spec_start() as int,
            claims[j].spec_end() as int,
        ).contains(k) by {}
    }
    if claims.len() == 1 {
        assert(claims.drop_last().len() == 0);
        assert(claims_union(claims.drop_last()) == Set::<int>::empty());
        assert(claims.last() == claims[0]);
        assert(claims_union(claims) =~= idx_set(init, claims.last().spec_end() as int));
    } else {
        let prev = claims.drop_last();
        assert(chained_claims(prev, init));
        lemma_claims_disjoint_and_cover(prev, init);
        let a = prev.last().spec_end() as int;
        let b = claims.last().spec_end() as int;
        assert(claims.last() == claims[claims.len() - 1]);
        assert(prev.last() == claims[claims.len() - 2]);
        assert(claims.last().spec_start() == a);
        lemma_chain_monotone(claims, init, 0, claims.len() - 2);
        assert(init <= a);
        assert(a <= b);
        assert(claims_union(claims) == claims_union(prev).union(idx_set(a, b)));
        assert(idx_set(init, a).union(idx_set(a, b)) =~= idx_set(init, b));
    }
}

} // verus!
