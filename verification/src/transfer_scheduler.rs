//! Transfer scheduler: the queue of pending transfers and the set of active
//! ones, under a limit on how many run at once.
//!
//! Pending transfers start in order of priority, and within a priority the
//! earliest deadline first, a transfer with a deadline before one without.
//! Among transfers that rank the same, the one submitted first starts
//! first. Waiting for a transfer to finish is left to the caller, which
//! reports each completion.
//!
//! Deadlines are held as integers that order the deadlines as their times
//! do.

use vstd::prelude::*;
use crate::execution::TransferPriority;
use crate::types::{Location, StateId};

verus! {

/// A scheduled transfer.
#[derive(Debug)]
pub struct TransferTask {
    /// Unique task ID.
    pub id: u64,
    /// State being transferred.
    pub state_id: StateId,
    /// Source location.
    pub source: Location,
    /// Destination location.
    pub destination: Location,
    /// Size in bytes.
    pub size_bytes: u64,
    /// Priority.
    pub priority: TransferPriority,
    /// Deadline, if any: smaller is sooner.
    pub deadline: Option<u64>,
}

/// Hands out task identifiers in sequence, wrapping at `u64::MAX`.
#[derive(Debug)]
pub struct TaskIds {
    next: u64,
}

impl TaskIds {
    /// The identifier handed out next.
    pub closed spec fn spec_next(&self) -> u64 {
        self.next
    }

    /// A sequence starting at 0.
    pub fn new() -> (r: Self)
        ensures
            r.spec_next() == 0,
    {
        TaskIds { next: 0 }
    }

    /// Hand out the next identifier.
    pub fn next_id(&mut self) -> (r: u64)
        ensures
            r == old(self).spec_next(),
            final(self).spec_next() == old(self).spec_next().wrapping_add(1),
    {
        let r = self.next;
        self.next = self.next.wrapping_add(1);
        r
    }
}

impl TransferTask {
    /// A transfer of normal priority and no deadline, with the next
    /// identifier.
    pub fn new(
        ids: &mut TaskIds,
        state_id: StateId,
        source: Location,
        destination: Location,
        size_bytes: u64,
    ) -> (r: Self)
        ensures
            r.id == old(ids).spec_next(),
            final(ids).spec_next() == old(ids).spec_next().wrapping_add(1),
            r.state_id == state_id,
            r.source == source,
            r.destination == destination,
            r.size_bytes == size_bytes,
            r.priority == TransferPriority::Normal,
            r.deadline is None,
    {
        TransferTask {
            id: ids.next_id(),
            state_id,
            source,
            destination,
            size_bytes,
            priority: TransferPriority::Normal,
            deadline: None,
        }
    }

    /// Set priority.
    pub fn with_priority(self, priority: TransferPriority) -> (r: Self)
        ensures
            r == (TransferTask { priority, ..self }),
    {
        TransferTask { priority, ..self }
    }

    /// Set deadline.
    pub fn with_deadline(self, deadline: u64) -> (r: Self)
        ensures
            r == (TransferTask { deadline: Some(deadline), ..self }),
    {
        TransferTask { deadline: Some(deadline), ..self }
    }

    /// Whether this is a critical transfer.
    pub fn is_critical(&self) -> (r: bool)
        ensures
            r == (self.priority == TransferPriority::Critical),
    {
        match self.priority {
            TransferPriority::Critical => true,
            _ => false,
        }
    }
}

// =============================================================================
// Order
// =============================================================================

/// How soon a task should start: by priority, then a deadline (the sooner
/// the higher) above none.
pub open spec fn rank(t: TransferTask) -> int {
    t.priority.spec_level() * 0x4_0000_0000_0000_0000int + match t.deadline {
        Some(d) => 0x1_0000_0000_0000_0000int - d,
        None => 0,
    }
}

/// `i` is the first of the highest-ranked tasks of `s`.
pub open spec fn first_best(s: Seq<TransferTask>, i: int) -> bool {
    &&& 0 <= i < s.len()
    &&& forall|j: int| 0 <= j < s.len() ==> rank(#[trigger] s[j]) <= rank(s[i])
    &&& forall|j: int| 0 <= j < i ==> rank(#[trigger] s[j]) < rank(s[i])
}

/// The index of the first highest-ranked task.
pub open spec fn best_of(s: Seq<TransferTask>) -> int {
    choose|i: int| first_best(s, i)
}

/// There is one first highest-ranked task.
proof fn lemma_best_unique(s: Seq<TransferTask>, i: int)
    requires
        first_best(s, i),
    ensures
        best_of(s) == i,
{
    let k = best_of(s);
    assert(first_best(s, k));
    if k < i {
        assert(rank(s[k]) < rank(s[i]));
        assert(rank(s[i]) <= rank(s[k]));
    } else if k > i {
        assert(rank(s[i]) < rank(s[k]));
        assert(rank(s[k]) <= rank(s[i]));
    }
}

/// Start pending tasks, best first, while fewer than `max` are active:
/// the pending and active tasks after.
pub open spec fn started(pending: Seq<TransferTask>, active: Seq<TransferTask>, max: nat) -> (
    Seq<TransferTask>,
    Seq<TransferTask>,
)
    decreases pending.len(),
{
    if active.len() < max && pending.len() > 0 {
        let i = best_of(pending);
        if 0 <= i < pending.len() {
            started(pending.remove(i), active.push(pending[i]), max)
        } else {
            (pending, active)
        }
    } else {
        (pending, active)
    }
}

/// Whether `a` should start before `b`: it ranks higher.
pub fn outranks(a: &TransferTask, b: &TransferTask) -> (r: bool)
    ensures
        r == (rank(*a) > rank(*b)),
{
    let la = a.priority.level();
    let lb = b.priority.level();
    if la != lb {
        return la > lb;
    }
    match (a.deadline, b.deadline) {
        (Some(x), Some(y)) => x < y,
        (Some(_), None) => true,
        _ => false,
    }
}

/// Index of the first highest-ranked task.
fn find_best(s: &Vec<TransferTask>) -> (r: usize)
    requires
        s@.len() > 0,
    ensures
        first_best(s@, r as int),
{
    let mut best: usize = 0;
    let mut j: usize = 1;
    while j < s.len()
        invariant
            1 <= j <= s@.len(),
            best < j,
            forall|k: int| 0 <= k < j ==> rank(#[trigger] s@[k]) <= rank(s@[best as int]),
            forall|k: int| 0 <= k < best ==> rank(#[trigger] s@[k]) < rank(s@[best as int]),
        decreases s@.len() - j,
    {
        if outranks(&s[j], &s[best]) {
            best = j;
        }
        j = j + 1;
    }
    best
}

// =============================================================================
// The scheduler
// =============================================================================

/// Scheduler counters. They do not wrap: the operations that raise them
/// require room.
#[derive(Debug, Clone, Copy, PartialEq, Eq, Structural)]
pub struct SchedulerCounts {
    pub tasks_submitted: u64,
    pub tasks_completed: u64,
    pub tasks_cancelled: u64,
    pub bytes_transferred: u64,
}

/// Pending and active transfers.
pub struct TransferQueue {
    /// Tasks waiting to start, in submission order.
    pending: Vec<TransferTask>,
    /// Tasks started and not yet reported done, in starting order.
    active: Vec<TransferTask>,
    /// Maximum concurrent transfers.
    max_concurrent: usize,
    /// Counters.
    counts: SchedulerCounts,
}

impl TransferQueue {
    /// Pending tasks, in submission order.
    pub closed spec fn spec_pending(&self) -> Seq<TransferTask> {
        self.pending@
    }

    /// Active tasks, in starting order.
    pub closed spec fn spec_active(&self) -> Seq<TransferTask> {
        self.active@
    }

    /// The limit on active tasks.
    pub closed spec fn spec_max(&self) -> usize {
        self.max_concurrent
    }

    /// The counters.
    pub closed spec fn spec_counts(&self) -> SchedulerCounts {
        self.counts
    }

    /// An empty queue running at most `max_concurrent` transfers at once.
    pub fn new(max_concurrent: usize) -> (r: Self)
        ensures
            r.spec_pending().len() == 0,
            r.spec_active().len() == 0,
            r.spec_max() == max_concurrent,
            r.spec_counts() == (SchedulerCounts {
                tasks_submitted: 0,
                tasks_completed: 0,
                tasks_cancelled: 0,
                bytes_transferred: 0,
            }),
    {
        TransferQueue {
            pending: Vec::new(),
            active: Vec::new(),
            max_concurrent,
            counts: SchedulerCounts {
                tasks_submitted: 0,
                tasks_completed: 0,
                tasks_cancelled: 0,
                bytes_transferred: 0,
            },
        }
    }

    /// Start pending tasks, best first, while fewer than the limit are
    /// active.
    fn try_start(&mut self)
        ensures
            (final(self).spec_pending(), final(self).spec_active()) == started(
                old(self).spec_pending(),
                old(self).spec_active(),
                old(self).spec_max() as nat,
            ),
            final(self).spec_max() == old(self).spec_max(),
            final(self).spec_counts() == old(self).spec_counts(),
    {
        while self.active.len() < self.max_concurrent && self.pending.len() > 0
            invariant
                started(self.pending@, self.active@, self.max_concurrent as nat) == started(
                    old(self).spec_pending(),
                    old(self).spec_active(),
                    old(self).spec_max() as nat,
                ),
                self.max_concurrent == old(self).spec_max(),
                self.counts == old(self).spec_counts(),
            decreases self.pending@.len(),
        {
            let i = find_best(&self.pending);
            proof {
                lemma_best_unique(self.pending@, i as int);
            }
            let task = self.pending.remove(i);
            self.active.push(task);
        }
    }

    /// Submit a task and start what the limit allows; its identifier.
    pub fn submit(&mut self, task: TransferTask) -> (r: u64)
        requires
            old(self).spec_counts().tasks_submitted < u64::MAX,
        ensures
            r == task.id,
            (final(self).spec_pending(), final(self).spec_active()) == started(
                old(self).spec_pending().push(task),
                old(self).spec_active(),
                old(self).spec_max() as nat,
            ),
            final(self).spec_max() == old(self).spec_max(),
            final(self).spec_counts() == (SchedulerCounts {
                tasks_submitted: (old(self).spec_counts().tasks_submitted + 1) as u64,
                ..old(self).spec_counts()
            }),
    {
        let id = task.id;
        self.pending.push(task);
        self.counts.tasks_submitted = self.counts.tasks_submitted + 1;
        self.try_start();
        id
    }

    /// Submit several tasks and start what the limit allows; their
    /// identifiers, in order.
    pub fn submit_batch(&mut self, tasks: Vec<TransferTask>) -> (r: Vec<u64>)
        requires
            old(self).spec_counts().tasks_submitted + tasks@.len() <= u64::MAX,
        ensures
            r@ == tasks@.map_values(|t: TransferTask| t.id),
            (final(self).spec_pending(), final(self).spec_active()) == started(
                old(self).spec_pending() + tasks@,
                old(self).spec_active(),
                old(self).spec_max() as nat,
            ),
            final(self).spec_max() == old(self).spec_max(),
            final(self).spec_counts() == (SchedulerCounts {
                tasks_submitted: (old(self).spec_counts().tasks_submitted + tasks@.len()) as u64,
                ..old(self).spec_counts()
            }),
    {
        let ghost p0 = self.pending@;
        let ghost all = tasks@;
        let mut ids: Vec<u64> = Vec::new();
        let mut rest = tasks;
        let mut taken: usize = 0;
        let n = rest.len();
        let mut i: usize = 0;
        while i < n
            invariant
                n == all.len(),
                i <= n,
                self.pending@ == p0 + all.take(i as int),
                ids@ == all.take(i as int).map_values(|t: TransferTask| t.id),
                rest@ == all.skip(i as int),
                self.max_concurrent == old(self).spec_max(),
                self.active@ == old(self).spec_active(),
                self.counts == old(self).spec_counts(),
            decreases n - i,
        {
            let t = rest.remove(0);
            assert(t == all[i as int]);
            ids.push(t.id);
            self.pending.push(t);
            proof {
                assert(self.pending@ =~= p0 + all.take(i as int + 1));
                assert(ids@ =~= all.take(i as int + 1).map_values(|t: TransferTask| t.id));
                assert(rest@ =~= all.skip(i as int + 1));
            }
            i = i + 1;
        }
        proof {
            assert(all.take(n as int) =~= all);
        }
        self.counts.tasks_submitted = self.counts.tasks_submitted + n as u64;
        self.try_start();
        ids
    }

    /// Index of the first active task with the identifier.
    fn find_active(&self, task_id: u64) -> (r: Option<usize>)
        ensures
            r matches Some(i) ==> i < self.active@.len() && self.active@[i as int].id == task_id
                && forall|j: int| 0 <= j < i ==> (#[trigger] self.active@[j]).id != task_id,
            r is None ==> forall|j: int|
                0 <= j < self.active@.len() ==> (#[trigger] self.active@[j]).id != task_id,
    {
        let mut j: usize = 0;
        while j < self.active.len()
            invariant
                j <= self.active@.len(),
                forall|k: int| 0 <= k < j ==> (#[trigger] self.active@[k]).id != task_id,
            decreases self.active@.len() - j,
        {
            if self.active[j].id == task_id {
                return Some(j);
            }
            j = j + 1;
        }
        None
    }

    /// Report an active task done: it leaves the active set, is counted
    /// with its bytes, and what the limit allows starts. `None`, with
    /// nothing changed, when no active task has the identifier.
    pub fn complete(&mut self, task_id: u64) -> (r: Option<TransferTask>)
        requires
            old(self).spec_counts().tasks_completed < u64::MAX,
            forall|j: int|
                0 <= j < old(self).spec_active().len() && (#[trigger] old(self).spec_active()[j]).id
                    == task_id ==> old(self).spec_counts().bytes_transferred
                    + old(self).spec_active()[j].size_bytes <= u64::MAX,
        ensures
            final(self).spec_max() == old(self).spec_max(),
            r is None <==> forall|j: int|
                0 <= j < old(self).spec_active().len() ==> (#[trigger] old(
                    self,
                ).spec_active()[j]).id != task_id,
            r is None ==> final(self).spec_pending() == old(self).spec_pending()
                && final(self).spec_active() == old(self).spec_active() && final(self).spec_counts()
                == old(self).spec_counts(),
            r matches Some(t) ==> exists|i: int|
                0 <= i < old(self).spec_active().len() && old(self).spec_active()[i] == t && t.id
                    == task_id && (forall|j: int|
                    0 <= j < i ==> (#[trigger] old(self).spec_active()[j]).id != task_id) && (
                final(self).spec_pending(),
                final(self).spec_active(),
            ) == started(
                old(self).spec_pending(),
                old(self).spec_active().remove(i),
                old(self).spec_max() as nat,
            ) && final(self).spec_counts() == (SchedulerCounts {
                tasks_completed: (old(self).spec_counts().tasks_completed + 1) as u64,
                bytes_transferred: (old(self).spec_counts().bytes_transferred + t.size_bytes) as u64,
                ..old(self).spec_counts()
            }),
    {
        match self.find_active(task_id) {
            Some(i) => {
                let ghost a0 = self.active@;
                let t = self.active.remove(i);
                assert(self.active@ =~= a0.remove(i as int));
                self.counts.tasks_completed = self.counts.tasks_completed + 1;
                self.counts.bytes_transferred = self.counts.bytes_transferred + t.size_bytes;
                self.try_start();
                Some(t)
            },
            None => None,
        }
    }

    /// Drop every pending task with the identifier; whether any was, which
    /// is then counted as a cancellation.
    pub fn cancel(&mut self, task_id: u64) -> (r: bool)
        requires
            old(self).spec_counts().tasks_cancelled < u64::MAX,
        ensures
            final(self).spec_pending() == old(self).spec_pending().filter(
                |t: TransferTask| t.id != task_id,
            ),
            final(self).spec_active() == old(self).spec_active(),
            final(self).spec_max() == old(self).spec_max(),
            r == exists|j: int|
                0 <= j < old(self).spec_pending().len() && (#[trigger] old(
                    self,
                ).spec_pending()[j]).id == task_id,
            final(self).spec_counts() == (SchedulerCounts {
                tasks_cancelled: (old(self).spec_counts().tasks_cancelled + if r {
                    1int
                } else {
                    0int
                }) as u64,
                ..old(self).spec_counts()
            }),
    {
        let ghost p0 = self.pending@;
        let mut kept: Vec<TransferTask> = Vec::new();
        let mut removed = false;
        let mut rest = Vec::new();
        std::mem::swap(&mut rest, &mut self.pending);
        let n = rest.len();
        let mut i: usize = 0;
        proof {
            reveal(Seq::filter);
            assert(p0.take(0) =~= Seq::<TransferTask>::empty());
            assert(rest@ =~= p0.skip(0));
        }
        while i < n
            invariant
                n == p0.len(),
                i <= n,
                rest@ == p0.skip(i as int),
                kept@ == p0.take(i as int).filter(|t: TransferTask| t.id != task_id),
                removed == exists|j: int| 0 <= j < i && (#[trigger] p0[j]).id == task_id,
            decreases n - i,
        {
            let t = rest.remove(0);
            assert(t == p0[i as int]);
            proof {
                reveal(Seq::filter);
                assert(p0.take(i as int + 1).drop_last() =~= p0.take(i as int));
                assert(rest@ =~= p0.skip(i as int + 1));
            }
            if t.id == task_id {
                removed = true;
            } else {
                kept.push(t);
            }
            i = i + 1;
        }
        proof {
            assert(p0.take(n as int) =~= p0);
        }
        self.pending = kept;
        if removed {
            self.counts.tasks_cancelled = self.counts.tasks_cancelled + 1;
        }
        removed
    }

    /// Number of pending tasks.
    pub fn pending_count(&self) -> (r: usize)
        ensures
            r == self.spec_pending().len(),
    {
        self.pending.len()
    }

    /// Number of active transfers.
    pub fn active_count(&self) -> (r: usize)
        ensures
            r == self.spec_active().len(),
    {
        self.active.len()
    }

    /// Scheduler counters.
    pub fn stats(&self) -> (r: SchedulerCounts)
        ensures
            r == self.spec_counts(),
    {
        self.counts
    }

    /// Identifiers of the active tasks, in starting order.
    pub fn active_ids(&self) -> (r: Vec<u64>)
        ensures
            r@ == self.spec_active().map_values(|t: TransferTask| t.id),
    {
        let mut out: Vec<u64> = Vec::new();
        let mut j: usize = 0;
        while j < self.active.len()
            invariant
                j <= self.active@.len(),
                out@ == self.active@.take(j as int).map_values(|t: TransferTask| t.id),
            decreases self.active@.len() - j,
        {
            out.push(self.active[j].id);
            assert(out@ =~= self.active@.take(j as int + 1).map_values(|t: TransferTask| t.id));
            j = j + 1;
        }
        assert(self.active@.take(self.active@.len() as int) =~= self.active@);
        out
    }

    /// Size of the first active task with the identifier, 0 when none.
    pub fn active_size(&self, task_id: u64) -> (r: u64)
        ensures
            (exists|j: int|
                0 <= j < self.spec_active().len() && (#[trigger] self.spec_active()[j]).id == task_id
                    && (forall|k: int| 0 <= k < j ==> (#[trigger] self.spec_active()[k]).id != task_id)
                    && r == self.spec_active()[j].size_bytes) || (r == 0 && forall|j: int|
                0 <= j < self.spec_active().len() ==> (#[trigger] self.spec_active()[j]).id
                    != task_id),
    {
        match self.find_active(task_id) {
            Some(i) => self.active[i].size_bytes,
            None => 0,
        }
    }

    /// Whether a task is pending or active.
    pub fn is_scheduled(&self, task_id: u64) -> (r: bool)
        ensures
            r == ((exists|j: int|
                0 <= j < self.spec_pending().len() && (#[trigger] self.spec_pending()[j]).id
                    == task_id) || (exists|j: int|
                0 <= j < self.spec_active().len() && (#[trigger] self.spec_active()[j]).id
                    == task_id)),
    {
        let mut j: usize = 0;
        while j < self.pending.len()
            invariant
                j <= self.pending@.len(),
                forall|k: int| 0 <= k < j ==> (#[trigger] self.pending@[k]).id != task_id,
            decreases self.pending@.len() - j,
        {
            if self.pending[j].id == task_id {
                return true;
            }
            j = j + 1;
        }
        self.find_active(task_id).is_some()
    }
}


/// A task of more urgent priority ranks above a task of less urgent
/// priority, whatever their deadlines: Critical above High above Normal
/// above Background above Prefetch.
pub proof fn law_more_urgent_starts_first(a: TransferTask, b: TransferTask)
    ensures
        a.priority == TransferPriority::Critical && b.priority == TransferPriority::High ==> rank(a)
            > rank(b),
        a.priority == TransferPriority::High && b.priority == TransferPriority::Normal ==> rank(a)
            > rank(b),
        a.priority == TransferPriority::Normal && b.priority == TransferPriority::Background
            ==> rank(a) > rank(b),
        a.priority == TransferPriority::Background && b.priority == TransferPriority::Prefetch
            ==> rank(a) > rank(b),
{
}

/// Two tasks of the same priority rank by deadline: one with a deadline
/// ranks above one without, and of two deadlines the sooner ranks higher.
pub proof fn law_same_priority_by_deadline(a: TransferTask, b: TransferTask)
    requires
        a.priority == b.priority,
    ensures
        a.deadline is Some && b.deadline is None ==> rank(a) > rank(b),
        a.deadline is Some && b.deadline is Some ==> (rank(a) > rank(b) <==> a.deadline.unwrap()
            < b.deadline.unwrap()),
{
}

} // verus!
