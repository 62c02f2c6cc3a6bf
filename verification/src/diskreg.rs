//! Per-disk work registries and the pressure-driven reader choice.
//!
//! Seed paths are grouped by the drive they live on; each disk carries its
//! own work buffer of pending paths and its recorded per-path errors. A
//! thread looking for work reads from a disk of maximal pressure (pending
//! unscanned paths), with ties broken at random.

use vstd::prelude::*;

use crate::scheduler::max_usize;
use vstd::multiset::Multiset;
use crate::work::ErrorDir;
use crate::workbuf::{Source, WorkBuf, WorkSlice};

verus! {

/// Relies on rand's `random`: a value drawn from the thread-local
/// generator. Nothing is promised of it.
pub assume_specification<T>[ rand::random::<T> ]() -> (r: T)
    where
        rand::distributions::Standard: rand::distributions::Distribution<T>,
;

/// Draw a random index below `n`.
pub fn pick_index(n: usize) -> (r: usize)
    requires
        n > 0,
    ensures
        r < n,
{
    let x: u64 = rand::random::<u64>();
    (x % (n as u64)) as usize
}

/// How often `m` occurs among the counts.
pub open spec fn count_eq(s: Seq<usize>, m: int) -> int
    decreases s.len(),
{
    if s.len() == 0 {
        0
    } else {
        count_eq(s.drop_last(), m) + (if s.last() == m {
            1int
        } else {
            0int
        })
    }
}

/// The maximum of a non-empty sequence of counts occurs in it.
pub proof fn lemma_max_occurs(s: Seq<usize>)
    requires
        s.len() > 0,
    ensures
        count_eq(s, max_usize(s)) >= 1,
        count_eq(s, max_usize(s)) <= s.len(),
    decreases s.len(),
{
    lemma_count_eq_bounds(s, max_usize(s));
    let m = max_usize(s);
    if s.len() == 1 {
        assert(count_eq(s.drop_last(), m) == 0);
        assert(m == s.last() as int);
    } else {
        if s.last() >= max_usize(s.drop_last()) {
            assert(m == s.last() as int);
            lemma_count_eq_bounds(s.drop_last(), m);
            assert(count_eq(s, m) == count_eq(s.drop_last(), m) + 1);
        } else {
            assert(m == max_usize(s.drop_last()));
            lemma_max_occurs(s.drop_last());
            assert(count_eq(s, m) == count_eq(s.drop_last(), m));
        }
    }
}

/// Occurrence counts lie between zero and the sequence length.
pub proof fn lemma_count_eq_bounds(s: Seq<usize>, m: int)
    ensures
        0 <= count_eq(s, m) <= s.len(),
    decreases s.len(),
{
    if s.len() > 0 {
        lemma_count_eq_bounds(s.drop_last(), m);
    }
}

/// Pick, uniformly among the positions of maximal pressure, one disk to
/// read from. With no disks there is nothing to pick; otherwise the chosen
/// position carries the maximal pressure.
pub fn pick_max_pressure(pressures: &Vec<usize>) -> (r: Option<usize>)
    ensures
        (r is Some) == (pressures@.len() > 0),
        r matches Some(i) ==> i < pressures@.len() && pressures@[i as int] == max_usize(
            pressures@,
        ),
{
    if pressures.len() == 0 {
        return None;
    }
    let m = crate::scheduler::max_in_flight(pressures);
    proof {
        lemma_max_occurs(pressures@);
    }
    let ties = count_matches(pressures, m);
    assert(ties >= 1);
    let k = pick_index(ties);
    Some(kth_match(pressures, m, k))
}

/// How many positions hold the value `m`.
fn count_matches(pressures: &Vec<usize>, m: usize) -> (r: usize)
    ensures
        r == count_eq(pressures@, m as int),
{
    let mut acc: usize = 0;
    let mut i: usize = 0;
    while i < pressures.len()
        invariant
            i <= pressures@.len(),
            acc == count_eq(pressures@.take(i as int), m as int),
            acc <= i,
        decreases pressures@.len() - i,
    {
        proof {
            assert(pressures@.take(i + 1 as int).drop_last() =~= pressures@.take(i as int));
            assert(pressures@.take(i + 1 as int).last() == pressures@[i as int]);
        }
        if pressures[i] == m {
            acc = acc + 1;
        }
        i = i + 1;
    }
    proof {
        assert(pressures@.take(pressures@.len() as int) =~= pressures@);
    }
    acc
}

/// The position of the `k`-th occurrence of `m` (counting from zero).
fn kth_match(pressures: &Vec<usize>, m: usize, k: usize) -> (r: usize)
    requires
        k < count_eq(pressures@, m as int),
    ensures
        r < pressures@.len(),
        pressures@[r as int] == m,
{
    let mut seen: usize = 0;
    let mut i: usize = 0;
    while i < pressures.len()
        invariant
            i <= pressures@.len(),
            seen == count_eq(pressures@.take(i as int), m as int),
            seen <= k,
            k < count_eq(pressures@, m as int),
        decreases pressures@.len() - i,
    {
        proof {
            assert(pressures@.take(i + 1 as int).drop_last() =~= pressures@.take(i as int));
            assert(pressures@.take(i + 1 as int).last() == pressures@[i as int]);
        }
        if pressures[i] == m {
            if seen == k {
                return i;
            }
            seen = seen + 1;
        }
        i = i + 1;
    }
    proof {
        assert(pressures@.take(pressures@.len() as int) =~= pressures@);
        assert(seen == count_eq(pressures@, m as int));
        assert(false);
    }
    unreached()
}

/// Every seed examined so far landed in the buffer of the disk carrying
/// its drive id.
pub open spec fn grouped_sound(disks: Seq<Disk>, seeds: Seq<(u8, String)>, t: int) -> bool {
    forall|j: int|
        0 <= j < t ==> exists|i: int|
            0 <= i < disks.len() && (#[trigger] disks[i]).spec_disk() == (#[trigger] seeds[j]).0
                && disks[i].view_contents().contains(seeds[j].1)
}

/// Every path held by any disk came from a seed with that disk's drive id.
pub open spec fn grouped_complete(disks: Seq<Disk>, seeds: Seq<(u8, String)>) -> bool {
    forall|d: int, k: int|
        0 <= d < disks.len() && 0 <= k < disks[d].view_contents().len() ==> seeds.contains(
            (disks[d].spec_disk(), #[trigger] disks[d].view_contents()[k]),
        )
}

/// One drive's pending work and its recorded per-path failures.
pub struct Disk {
    disk: u8,
    contents: WorkBuf<String>,
    errors: Vec<ErrorDir>,
}

impl Disk {
    pub closed spec fn wf(self) -> bool {
        self.contents.wf()
    }

    pub closed spec fn spec_disk(self) -> u8 {
        self.disk
    }

    pub closed spec fn view_contents(self) -> Seq<String> {
        self.contents.view_items()
    }

    pub closed spec fn spec_pending_from(self) -> usize {
        self.contents.spec_pending_from()
    }

    pub closed spec fn view_errors(self) -> Seq<ErrorDir> {
        self.errors@
    }

    pub fn new(disk: u8, tasks: Vec<String>) -> (r: Disk)
        ensures
            r.wf(),
            r.spec_disk() == disk,
            r.view_contents() == tasks@,
            r.spec_pending_from() == 0,
            r.view_errors() == Seq::<ErrorDir>::empty(),
    {
        Disk { disk, contents: WorkBuf::new(tasks), errors: Vec::new() }
    }

    pub fn disk_id(&self) -> (r: u8)
        ensures
            r == self.spec_disk(),
    {
        self.disk
    }

    /// The benefit of assigning a reader to this disk: how many of its
    /// paths await scanning.
    pub fn pressure(&self) -> (r: usize)
        requires
            self.wf(),
        ensures
            r == self.view_contents().len() - self.spec_pending_from(),
    {
        self.contents.total_pending()
    }

    /// Record one newly discovered path.
    pub fn push_task(&mut self, task: String)
        requires
            old(self).wf(),
        ensures
            final(self).wf(),
            final(self).spec_disk() == old(self).spec_disk(),
            final(self).view_contents() == old(self).view_contents().push(task),
            final(self).spec_pending_from() == old(self).spec_pending_from(),
            final(self).view_errors() == old(self).view_errors(),
    {
        self.contents.push_item(task);
    }

    /// Record newly discovered paths.
    pub fn push(&mut self, tasks: Vec<String>)
        requires
            old(self).wf(),
        ensures
            final(self).wf(),
            final(self).spec_disk() == old(self).spec_disk(),
            final(self).view_contents() == old(self).view_contents() + tasks@,
            final(self).spec_pending_from() == old(self).spec_pending_from(),
            final(self).view_errors() == old(self).view_errors(),
    {
        self.contents.extend(tasks);
    }

    /// Claim up to `at_most` of this disk's pending paths for scanning;
    /// nothing pending claims nothing.
    pub fn get_tasks(&mut self, at_most: usize) -> (r: Option<WorkSlice>)
        requires
            old(self).wf(),
        ensures
            final(self).wf(),
            final(self).spec_disk() == old(self).spec_disk(),
            final(self).view_contents() == old(self).view_contents(),
            final(self).view_errors() == old(self).view_errors(),
            (r is Some) == (old(self).view_contents().len() - old(self).spec_pending_from()
                > 0 && at_most > 0),
            r is None ==> final(self).spec_pending_from() == old(self).spec_pending_from(),
            r matches Some(s) ==> {
                &&& s.wf()
                &&& s.spec_source() == Source::Local
                &&& s.spec_start() == old(self).spec_pending_from()
                &&& s.spec_end() == final(self).spec_pending_from()
                &&& s.spec_end() - s.spec_start() == (if at_most <= old(
                    self,
                ).view_contents().len() - old(self).spec_pending_from() {
                    at_most as int
                } else {
                    old(self).view_contents().len() - old(self).spec_pending_from()
                })
            },
    {
        if at_most == 0 || self.contents.total_pending() == 0 {
            None
        } else {
            Some(self.contents.get_work_for_local(at_most))
        }
    }

    /// How many paths the buffer holds in all, claimed or not.
    pub fn task_count(&self) -> (r: usize)
        ensures
            r == self.view_contents().len(),
    {
        self.contents.len()
    }

    /// The path at a given buffer index.
    pub fn task_at(&self, i: usize) -> (r: &String)
        requires
            i < self.view_contents().len(),
        ensures
            *r == self.view_contents()[i as int],
    {
        self.contents.get(i)
    }

    /// Record the per-path failures of one scanned batch.
    pub fn record_errors(&mut self, mut errs: Vec<ErrorDir>)
        requires
            old(self).wf(),
        ensures
            final(self).wf(),
            final(self).spec_disk() == old(self).spec_disk(),
            final(self).view_contents() == old(self).view_contents(),
            final(self).spec_pending_from() == old(self).spec_pending_from(),
            final(self).view_errors() == old(self).view_errors() + errs@,
    {
        self.errors.append(&mut errs);
    }

    /// Record everything one scanned batch produced: its failures and the
    /// sub-directories it discovered.
    pub fn record_results(&mut self, errors: Vec<ErrorDir>, found: Vec<String>)
        requires
            old(self).wf(),
        ensures
            final(self).wf(),
            final(self).spec_disk() == old(self).spec_disk(),
            final(self).view_contents() == old(self).view_contents() + found@,
            final(self).spec_pending_from() == old(self).spec_pending_from(),
            final(self).view_errors() == old(self).view_errors() + errors@,
    {
        self.record_errors(errors);
        self.push(found);
    }
}

/// A claimed batch of one disk's paths, ready to be scanned.
pub struct TaskPacket {
    pub disk: u8,
    pub tasks: WorkSlice,
}

impl TaskPacket {
    pub fn new(disk: u8, tasks: WorkSlice) -> (r: TaskPacket)
        ensures
            r.disk == disk,
            r.tasks == tasks,
    {
        TaskPacket { disk, tasks }
    }
}

/// All known disks, each with its own work buffer.
pub struct DiskRegistry {
    disks: Vec<Disk>,
}

impl DiskRegistry {
    /// Every disk is well-formed and no drive id appears twice.
    pub closed spec fn wf(self) -> bool {
        &&& forall|i: int| 0 <= i < self.disks@.len() ==> (#[trigger] self.disks@[i]).wf()
        &&& forall|i: int, j: int|
            0 <= i < j < self.disks@.len() ==> (#[trigger] self.disks@[i]).spec_disk() != (
            #[trigger] self.disks@[j]).spec_disk()
    }

    pub closed spec fn view_disks(self) -> Seq<Disk> {
        self.disks@
    }

    pub fn new() -> (r: DiskRegistry)
        ensures
            r.wf(),
            r.view_disks() == Seq::<Disk>::empty(),
    {
        DiskRegistry { disks: Vec::new() }
    }

    pub fn len(&self) -> (r: usize)
        ensures
            r == self.view_disks().len(),
    {
        self.disks.len()
    }

    /// The position of the disk with this drive id, if it is registered.
    pub fn get(&self, disk: u8) -> (r: Option<usize>)
        ensures
            r matches Some(i) ==> i < self.view_disks().len() && self.view_disks()[
                i as int
            ].spec_disk() == disk,
            r is None ==> forall|i: int|
                0 <= i < self.view_disks().len() ==> (#[trigger] self.view_disks()[
                    i
                ]).spec_disk() != disk,
    {
        let mut i: usize = 0;
        while i < self.disks.len()
            invariant
                i <= self.disks@.len(),
                forall|j: int|
                    0 <= j < i ==> (#[trigger] self.disks@[j]).spec_disk() != disk,
            decreases self.disks@.len() - i,
        {
            if self.disks[i].disk_id() == disk {
                return Some(i);
            }
            i = i + 1;
        }
        None
    }

    /// Shared read access to the disk at a position.
    pub fn disk_at(&self, i: usize) -> (r: &Disk)
        requires
            i < self.view_disks().len(),
        ensures
            *r == self.view_disks()[i as int],
    {
        &self.disks[i]
    }

    /// Exclusive access to the disk at a position; the caller's changes to
    /// it are the only changes made.
    pub fn disk_at_mut(&mut self, i: usize) -> (r: &mut Disk)
        requires
            i < old(self).view_disks().len(),
        ensures
            *r == old(self).view_disks()[i as int],
            final(self).view_disks() == old(self).view_disks().update(i as int, *final(r)),
    {
        &mut self.disks[i]
    }

    /// Register the seed paths, one disk per drive id: every seed lands in
    /// the buffer of the disk with its id, and the registry holds nothing
    /// else.
    pub fn group_seeds(seeds: Vec<(u8, String)>) -> (r: DiskRegistry)
        ensures
            r.wf(),
            grouped_sound(r.view_disks(), seeds@, seeds@.len() as int),
            grouped_complete(r.view_disks(), seeds@),
    {
        let mut r = DiskRegistry::new();
        let mut t: usize = 0;
        while t < seeds.len()
            invariant
                t <= seeds@.len(),
                r.wf(),
                grouped_sound(r.view_disks(), seeds@, t as int),
                grouped_complete(r.view_disks(), seeds@),
            decreases seeds@.len() - t,
        {
            let disk_id_val = seeds[t].0;
            let path = seeds[t].1.clone();
            proof {
                assert(seeds@[t as int] == (seeds@[t as int].0, seeds@[t as int].1));
            }
            let ghost disks_prev = r.view_disks();
            match r.get(disk_id_val) {
                Some(i) => {
                    let d = r.disk_at_mut(i);
                    d.push_task(path);
                    proof {
                        lemma_group_step_update(disks_prev, r.view_disks(), i as int, seeds@,
                            t as int);
                    }
                },
                None => {
                    let mut tasks: Vec<String> = Vec::new();
                    tasks.push(path);
                    let d = Disk::new(disk_id_val, tasks);
                    r.disks.push(d);
                    proof {
                        assert(r.view_disks() == disks_prev.push(r.view_disks().last()));
                        assert(r.view_disks().last().view_contents() =~= Seq::<
                            String,
                        >::empty().push(seeds@[t as int].1));
                        lemma_group_step_append(disks_prev, r.view_disks(), seeds@, t as int);
                        assert(r.wf()) by {
                            assert(forall|a: int|
                                0 <= a < disks_prev.len() ==> (#[trigger] disks_prev[
                                    a
                                ]).spec_disk() != disk_id_val);
                        }
                    }
                },
            }
            t = t + 1;
        }
        r
    }

    /// Every disk's pressure, by position.
    pub fn pressures(&self) -> (r: Vec<usize>)
        requires
            self.wf(),
        ensures
            r@.len() == self.view_disks().len(),
            forall|i: int|
                0 <= i < r@.len() ==> r@[i] == (#[trigger] self.view_disks()[
                    i
                ]).view_contents().len() - self.view_disks()[i].spec_pending_from(),
    {
        let mut out: Vec<usize> = Vec::new();
        let mut i: usize = 0;
        while i < self.disks.len()
            invariant
                i <= self.disks@.len(),
                self.wf(),
                out@.len() == i,
                forall|j: int|
                    0 <= j < i ==> out@[j] == (#[trigger] self.disks@[
                        j
                    ]).view_contents().len() - self.disks@[j].spec_pending_from(),
            decreases self.disks@.len() - i,
        {
            let p = self.disks[i].pressure();
            out.push(p);
            i = i + 1;
        }
        out
    }

    /// Every disk's position paired with its pressure, ordered by pressure
    /// with the most loaded disk first: the order readers visit disks in.
    pub fn disks_by_pressure(&self) -> (r: Vec<(usize, usize)>)
        requires
            self.wf(),
        ensures
            r@.to_multiset() == pressure_pairs(self.view_disks()).to_multiset(),
            sorted_desc(r@),
    {
        let mut pairs: Vec<(usize, usize)> = Vec::new();
        let mut i: usize = 0;
        while i < self.disks.len()
            invariant
                i <= self.disks@.len(),
                self.wf(),
                pairs@ =~= pressure_pairs(self.disks@).take(i as int),
            decreases self.disks@.len() - i,
        {
            let p = self.disks[i].pressure();
            pairs.push((p, i));
            proof {
                assert(pairs@ =~= pressure_pairs(self.disks@).take(i + 1 as int));
            }
            i = i + 1;
        }
        proof {
            assert(pairs@ =~= pressure_pairs(self.disks@));
        }
        sort_pairs_desc(pairs)
    }

    /// Claim a batch of up to `at_most` paths for a reader, from a disk of
    /// maximal pressure (ties broken at random). Work is handed out iff
    /// some disk has pending paths; the claim advances only that disk's
    /// cursor and touches nothing else.
    pub fn get_readers_for(&mut self, at_most: usize) -> (r: Option<TaskPacket>)
        requires
            old(self).wf(),
            at_most > 0,
        ensures
            final(self).wf(),
            (r is Some) == (max_usize(spec_pressures(old(self).view_disks())) > 0),
            r is None ==> final(self).view_disks() == old(self).view_disks(),
            r matches Some(p) ==> exists|i: int|
                {
                    &&& 0 <= i < old(self).view_disks().len()
                    &&& final(self).view_disks() == old(self).view_disks().update(
                        i,
                        final(self).view_disks()[i],
                    )
                    &&& (#[trigger] final(self).view_disks()[i]).spec_disk() == old(
                        self,
                    ).view_disks()[i].spec_disk()
                    &&& p.disk == old(self).view_disks()[i].spec_disk()
                    &&& final(self).view_disks()[i].view_contents() == old(self).view_disks()[
                        i
                    ].view_contents()
                    &&& final(self).view_disks()[i].view_errors() == old(self).view_disks()[
                        i
                    ].view_errors()
                    &&& p.tasks.wf()
                    &&& p.tasks.spec_start() == old(self).view_disks()[i].spec_pending_from()
                    &&& p.tasks.spec_end() == final(self).view_disks()[i].spec_pending_from()
                    &&& spec_pressures(old(self).view_disks())[i] == max_usize(
                        spec_pressures(old(self).view_disks()),
                    )
                    &&& p.tasks.spec_end() - p.tasks.spec_start() == (if at_most <= spec_pressures(
                        old(self).view_disks(),
                    )[i] {
                        at_most as int
                    } else {
                        spec_pressures(old(self).view_disks())[i] as int
                    })
                },
    {
        let pressures = self.pressures();
        proof {
            assert(pressures@ =~= spec_pressures(self.disks@));
        }
        match pick_max_pressure(&pressures) {
            None => None,
            Some(i) => {
                if pressures[i] == 0 {
                    return None;
                }
                let ghost disks_prev = self.disks@;
                let disk = self.disk_at_mut(i);
                let disk_id_val = disk.disk_id();
                match disk.get_tasks(at_most) {
                    Some(slice) => {
                        proof {
                            let dp = spec_pressures(disks_prev);
                            assert(dp[i as int] == max_usize(dp));
                            assert(self.disks@ == disks_prev.update(
                                i as int,
                                self.disks@[i as int],
                            ));
                            assert(self.disks@[i as int].spec_disk() == disks_prev[
                                i as int
                            ].spec_disk());
                            assert(slice.spec_start() == disks_prev[
                                i as int
                            ].spec_pending_from());
                            assert(slice.spec_end() == self.disks@[
                                i as int
                            ].spec_pending_from());
                            assert(slice.spec_end() - slice.spec_start() == (if at_most <= dp[
                                i as int
                            ] {
                                at_most as int
                            } else {
                                dp[i as int] as int
                            }));
                        }
                        Some(TaskPacket::new(disk_id_val, slice))
                    },
                    None => None,
                }
            },
        }
    }
}

/// Each disk's count of pending (claimable) paths, in registry order.
pub open spec fn spec_pressures(disks: Seq<Disk>) -> Seq<usize> {
    Seq::new(
        disks.len(),
        |i: int| (disks[i].view_contents().len() - disks[i].spec_pending_from()) as usize,
    )
}

/// The counter behind the "work may be available" ticket gate: readers
/// blocked for want of work each consume one ticket; whoever adds work
/// posts one. The blocking itself is a condition variable outside the
/// library; this is the count it guards.
pub struct TaskCountVar {
    counter: usize,
}

impl TaskCountVar {
    pub closed spec fn spec_counter(self) -> usize {
        self.counter
    }

    pub fn new() -> (r: TaskCountVar)
        ensures
            r.spec_counter() == 0,
    {
        TaskCountVar { counter: 0 }
    }

    /// Post one ticket; the count saturates rather than wrap.
    pub fn notify_all(&mut self)
        ensures
            final(self).spec_counter() == (if old(self).spec_counter() < usize::MAX {
                old(self).spec_counter() + 1
            } else {
                usize::MAX as int
            }),
    {
        if self.counter < usize::MAX {
            self.counter = self.counter + 1;
        }
    }

    /// Consume one ticket if one is posted; with none, the caller must
    /// block and retry.
    pub fn wait_for_ticket(&mut self) -> (granted: bool)
        ensures
            granted == (old(self).spec_counter() > 0),
            granted ==> final(self).spec_counter() == old(self).spec_counter() - 1,
            !granted ==> final(self).spec_counter() == old(self).spec_counter(),
    {
        if self.counter > 0 {
            self.counter = self.counter - 1;
            true
        } else {
            false
        }
    }
}

/// Pairs ordered by their first element, largest first.
pub open spec fn sorted_desc(s: Seq<(usize, usize)>) -> bool {
    forall|i: int, j: int| 0 <= i <= j < s.len() ==> (#[trigger] s[i]).0 >= (#[trigger] s[j]).0
}

/// Each disk's pressure paired with its position, in registry order.
pub open spec fn pressure_pairs(disks: Seq<Disk>) -> Seq<(usize, usize)> {
    Seq::new(
        disks.len(),
        |i: int|
            (
                (disks[i].view_contents().len() - disks[i].spec_pending_from()) as usize,
                i as usize,
            ),
    )
}

/// The position of a pair with maximal first element.
fn max_pair_index(pairs: &Vec<(usize, usize)>) -> (r: usize)
    requires
        pairs@.len() > 0,
    ensures
        r < pairs@.len(),
        forall|k: int| 0 <= k < pairs@.len() ==> (#[trigger] pairs@[k]).0 <= pairs@[r as int].0,
{
    let mut best: usize = 0;
    let mut i: usize = 1;
    while i < pairs.len()
        invariant
            best < i <= pairs@.len(),
            forall|k: int| 0 <= k < i ==> (#[trigger] pairs@[k]).0 <= pairs@[best as int].0,
        decreases pairs@.len() - i,
    {
        if pairs[i].0 > pairs[best].0 {
            best = i;
        }
        i = i + 1;
    }
    best
}

/// Order pressure/position pairs by pressure, highest first: the result
/// holds exactly the given pairs, sorted.
fn sort_pairs_desc(pairs: Vec<(usize, usize)>) -> (r: Vec<(usize, usize)>)
    ensures
        r@.to_multiset() == pairs@.to_multiset(),
        sorted_desc(r@),
{
    let mut rest = pairs;
    let mut out: Vec<(usize, usize)> = Vec::new();
    let ghost orig = rest@;
    proof {
        broadcast use vstd::seq_lib::group_to_multiset_ensures;

        assert(out@.to_multiset().len() == 0);
        assert(out@.to_multiset().add(rest@.to_multiset()) =~= orig.to_multiset());
    }
    while rest.len() > 0
        invariant
            out@.to_multiset().add(rest@.to_multiset()) == orig.to_multiset(),
            sorted_desc(out@),
            out@.len() > 0 ==> forall|k: int|
                0 <= k < rest@.len() ==> (#[trigger] rest@[k]).0 <= out@.last().0,
        decreases rest@.len(),
    {
        let m = max_pair_index(&rest);
        let ghost rest_prev = rest@;
        let ghost out_prev = out@;
        let x = rest.remove(m);
        out.push(x);
        proof {
            broadcast use vstd::seq_lib::group_to_multiset_ensures;

            assert(rest@ == rest_prev.remove(m as int));
            assert(rest@.to_multiset() =~= rest_prev.to_multiset().remove(x));
            assert(out@.to_multiset() =~= out_prev.to_multiset().insert(x));
            assert(rest_prev.to_multiset().count(x) > 0) by {
                assert(rest_prev.contains(x));
            }
            assert(out@.to_multiset().add(rest@.to_multiset()) =~= out_prev.to_multiset().add(
                rest_prev.to_multiset(),
            ));
            assert(sorted_desc(out@)) by {
                assert(forall|i: int|
                    0 <= i < out_prev.len() ==> (#[trigger] out@[i]) == out_prev[i]);
                assert(out@.last() == x);
                if out_prev.len() > 0 {
                    assert(rest_prev.contains(x));
                    assert(x.0 <= out_prev.last().0);
                }
            }
            assert forall|k: int| 0 <= k < rest@.len() implies (#[trigger] rest@[k]).0
                <= out@.last().0 by {
                if k < m {
                    assert(rest@[k] == rest_prev[k]);
                } else {
                    assert(rest@[k] == rest_prev[k + 1]);
                }
            }
        }
    }
    proof {
        broadcast use vstd::seq_lib::group_to_multiset_ensures;

        assert(rest@.to_multiset() =~= Multiset::<(usize, usize)>::empty()) by {
            assert(rest@.to_multiset().len() == 0);
        }
        assert(out@.to_multiset() =~= orig.to_multiset());
    }
    out
}

/// After pushing one seed's path onto the disk at position `i`, both
/// grouping facts still hold of the new registry contents.
proof fn lemma_group_step_update(
    prev: Seq<Disk>,
    now: Seq<Disk>,
    i: int,
    seeds: Seq<(u8, String)>,
    t: int,
)
    requires
        0 <= t < seeds.len(),
        0 <= i < prev.len(),
        now == prev.update(i, now[i]),
        now.len() == prev.len(),
        prev[i].spec_disk() == seeds[t].0,
        now[i].spec_disk() == prev[i].spec_disk(),
        now[i].view_contents() == prev[i].view_contents().push(seeds[t].1),
        grouped_sound(prev, seeds, t),
        grouped_complete(prev, seeds),
    ensures
        grouped_sound(now, seeds, t + 1),
        grouped_complete(now, seeds),
{
    assert forall|j: int| 0 <= j < t + 1 implies exists|d: int|
        0 <= d < now.len() && (#[trigger] now[d]).spec_disk() == (#[trigger] seeds[j]).0 && now[
        d
    ].view_contents().contains(seeds[j].1) by {
        if j == t {
            assert(now[i].view_contents().last() == seeds[t].1);
            assert(now[i].view_contents().contains(seeds[t].1));
        } else {
            let d = choose|d: int|
                0 <= d < prev.len() && (#[trigger] prev[d]).spec_disk() == seeds[j].0 && prev[
                    d
                ].view_contents().contains(seeds[j].1);
            if d == i {
                let w = choose|w: int|
                    0 <= w < prev[i].view_contents().len() && prev[i].view_contents()[w]
                        == seeds[j].1;
                assert(now[i].view_contents()[w] == seeds[j].1);
                assert(now[i].view_contents().contains(seeds[j].1));
            } else {
                assert(now[d] == prev[d]);
            }
        }
    }
    assert forall|d: int, k: int|
        0 <= d < now.len() && 0 <= k < now[d].view_contents().len() implies seeds.contains(
        (now[d].spec_disk(), #[trigger] now[d].view_contents()[k]),
    ) by {
        if d == i {
            if k < prev[i].view_contents().len() {
                assert(now[i].view_contents()[k] == prev[i].view_contents()[k]);
            } else {
                assert(now[i].view_contents()[k] == seeds[t].1);
                assert(seeds[t] == (now[i].spec_disk(), now[i].view_contents()[k]));
            }
        } else {
            assert(now[d] == prev[d]);
        }
    }
}

/// After appending a fresh disk holding one seed's path, both grouping
/// facts still hold of the new registry contents.
proof fn lemma_group_step_append(prev: Seq<Disk>, now: Seq<Disk>, seeds: Seq<(u8, String)>, t: int)
    requires
        0 <= t < seeds.len(),
        now == prev.push(now.last()),
        now.len() == prev.len() + 1,
        now.last().spec_disk() == seeds[t].0,
        now.last().view_contents() =~= Seq::<String>::empty().push(seeds[t].1),
        grouped_sound(prev, seeds, t),
        grouped_complete(prev, seeds),
    ensures
        grouped_sound(now, seeds, t + 1),
        grouped_complete(now, seeds),
{
    let n = prev.len() as int;
    assert forall|j: int| 0 <= j < t + 1 implies exists|d: int|
        0 <= d < now.len() && (#[trigger] now[d]).spec_disk() == (#[trigger] seeds[j]).0 && now[
        d
    ].view_contents().contains(seeds[j].1) by {
        if j == t {
            assert(now[n].view_contents()[0] == seeds[t].1);
            assert(now[n].view_contents().contains(seeds[t].1));
            assert(now[n].spec_disk() == seeds[t].0);
        } else {
            let d = choose|d: int|
                0 <= d < prev.len() && (#[trigger] prev[d]).spec_disk() == seeds[j].0 && prev[
                    d
                ].view_contents().contains(seeds[j].1);
            assert(now[d] == prev[d]);
        }
    }
    assert forall|d: int, k: int|
        0 <= d < now.len() && 0 <= k < now[d].view_contents().len() implies seeds.contains(
        (now[d].spec_disk(), #[trigger] now[d].view_contents()[k]),
    ) by {
        if d == n {
            assert(now[d].view_contents()[k] == seeds[t].1);
            assert(seeds[t] == (now[d].spec_disk(), now[d].view_contents()[k]));
        } else {
            assert(now[d] == prev[d]);
        }
    }
}

} // verus!
