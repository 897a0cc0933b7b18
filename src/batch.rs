//! Barrier-batched scheduling: tasks are launched in consecutive groups of at
//! most `max_concurrent`, a group only after the previous one has completed,
//! and results are kept by task index, whatever order they complete in.

use vstd::prelude::*;

verus! {

/// The slots after recording each `(index, result)` completion in turn; an
/// index out of range records nothing.
pub open spec fn completed<T>(slots: Seq<Option<T>>, done: Seq<(int, T)>) -> Seq<Option<T>>
    decreases done.len(),
{
    if done.len() == 0 {
        slots
    } else {
        let prev = completed(slots, done.drop_last());
        if 0 <= done.last().0 < prev.len() {
            prev.update(done.last().0, Some(done.last().1))
        } else {
            prev
        }
    }
}

/// No task index completes twice.
pub open spec fn distinct_indices<T>(done: Seq<(int, T)>) -> bool {
    forall|a: int, b: int| 0 <= a < b < done.len() ==> done[a].0 != done[b].0
}

/// Tracks a run of `total` tasks: which have been launched, and the result of
/// each one that has completed, stored at the task's own index.
pub struct BatchScheduler<T> {
    max_concurrent: usize,
    group_start: usize,
    launched: usize,
    slots: Vec<Option<T>>,
    cancelled: bool,
}

impl<T> BatchScheduler<T> {
    pub closed spec fn max_concurrent(&self) -> nat {
        self.max_concurrent as nat
    }

    /// Start of the group launched last.
    pub closed spec fn group_start(&self) -> nat {
        self.group_start as nat
    }

    /// Number of tasks launched so far: always a prefix of the task list.
    pub closed spec fn launched(&self) -> nat {
        self.launched as nat
    }

    /// The result slot of each task, `None` until it completes.
    pub closed spec fn slots(&self) -> Seq<Option<T>> {
        self.slots@
    }

    pub closed spec fn cancelled(&self) -> bool {
        self.cancelled
    }

    pub open spec fn total(&self) -> nat {
        self.slots().len()
    }

    pub open spec fn wf(&self) -> bool {
        &&& self.max_concurrent() >= 1
        &&& self.total() <= usize::MAX
        &&& forall|i: int| 0 <= i < self.group_start() ==> self.slots()[i] is Some
        &&& self.group_start() <= self.launched() <= self.total()
        &&& forall|i: int| self.launched() <= i < self.total() ==> self.slots()[i] is None
    }

    /// The group launched last has completed.
    pub open spec fn group_done(&self) -> bool {
        forall|i: int| self.group_start() <= i < self.launched() ==> self.slots()[i] is Some
    }

    /// Where the next group ends: `max_concurrent` tasks on, or at the end.
    pub open spec fn group_end(&self) -> nat {
        if self.launched() + self.max_concurrent() <= self.total() {
            self.launched() + self.max_concurrent()
        } else {
            self.total()
        }
    }

    /// Every task has completed.
    pub open spec fn all_done(&self) -> bool {
        forall|i: int| 0 <= i < self.total() ==> self.slots()[i] is Some
    }

    /// A scheduler for `total` tasks, none launched yet.
    pub fn new(total: usize, max_concurrent: usize) -> (r: Self)
        requires
            max_concurrent >= 1,
        ensures
            r.wf(),
            r.total() == total,
            r.max_concurrent() == max_concurrent,
            r.launched() == 0,
            r.group_start() == 0,
            !r.cancelled(),
            forall|i: int| 0 <= i < total ==> r.slots()[i] is None,
    {
        let mut slots: Vec<Option<T>> = Vec::new();
        let mut i: usize = 0;
        while i < total
            invariant
                i <= total,
                slots@.len() == i,
                forall|j: int| 0 <= j < i ==> slots@[j] is None,
            decreases total - i,
        {
            slots.push(None);
            i += 1;
        }
        BatchScheduler { max_concurrent, group_start: 0, launched: 0, slots, cancelled: false }
    }

    pub fn total_tasks(&self) -> (r: usize)
        ensures
            r == self.total(),
    {
        self.slots.len()
    }

    /// Start of the group launched last.
    pub fn group_start_index(&self) -> (r: usize)
        ensures
            r == self.group_start(),
    {
        self.group_start
    }

    /// Number of tasks launched so far.
    pub fn launched_count(&self) -> (r: usize)
        ensures
            r == self.launched(),
    {
        self.launched
    }

    /// The result slot of task `index`.
    pub fn slot(&self, index: usize) -> (r: &Option<T>)
        requires
            index < self.total(),
        ensures
            *r == self.slots()[index as int],
    {
        &self.slots[index]
    }

    /// Tells whether the group launched last has completed.
    pub fn is_group_done(&self) -> (r: bool)
        requires
            self.wf(),
        ensures
            r == self.group_done(),
    {
        let mut i: usize = self.group_start;
        while i < self.launched
            invariant
                self.wf(),
                self.group_start <= i <= self.launched,
                forall|j: int| self.group_start <= j < i ==> self.slots@[j] is Some,
            decreases self.launched - i,
        {
            if self.slots[i].is_none() {
                return false;
            }
            i += 1;
        }
        true
    }

    /// Launches the next group: the range `(start, end)` of task indices to
    /// run now. There is none when the run was cancelled, when every task has
    /// been launched, or while the previous group is still running.
    pub fn next_group(&mut self) -> (r: Option<(usize, usize)>)
        requires
            old(self).wf(),
        ensures
            final(self).wf(),
            final(self).slots() == old(self).slots(),
            final(self).max_concurrent() == old(self).max_concurrent(),
            final(self).cancelled() == old(self).cancelled(),
            match r {
                None => {
                    &&& old(self).cancelled() || old(self).launched() == old(self).total()
                        || !old(self).group_done()
                    &&& final(self).launched() == old(self).launched()
                    &&& final(self).group_start() == old(self).group_start()
                },
                Some((start, end)) => {
                    &&& !old(self).cancelled()
                    &&& old(self).launched() < old(self).total()
                    &&& old(self).group_done()
                    &&& start == old(self).launched()
                    &&& end == old(self).group_end()
                    &&& start < end
                    &&& final(self).group_start() == start
                    &&& final(self).launched() == end
                },
            },
    {
        if self.cancelled || self.launched == self.slots.len() || !self.is_group_done() {
            return None;
        }
        let start = self.launched;
        let room = self.slots.len() - start;
        let end = if self.max_concurrent <= room {
            start + self.max_concurrent
        } else {
            self.slots.len()
        };
        self.group_start = start;
        self.launched = end;
        Some((start, end))
    }

    /// Records the result of a launched task at its own index.
    pub fn complete(&mut self, index: usize, result: T)
        requires
            old(self).wf(),
            old(self).group_start() <= index < old(self).launched(),
        ensures
            final(self).wf(),
            final(self).slots() == old(self).slots().update(index as int, Some(result)),
            final(self).launched() == old(self).launched(),
            final(self).group_start() == old(self).group_start(),
            final(self).max_concurrent() == old(self).max_concurrent(),
            final(self).cancelled() == old(self).cancelled(),
    {
        self.slots.set(index, Some(result));
    }

    /// Stops launching groups; a group already running is left to finish.
    pub fn cancel(&mut self)
        requires
            old(self).wf(),
        ensures
            final(self).wf(),
            final(self).cancelled(),
            final(self).slots() == old(self).slots(),
            final(self).launched() == old(self).launched(),
            final(self).group_start() == old(self).group_start(),
            final(self).max_concurrent() == old(self).max_concurrent(),
    {
        self.cancelled = true;
    }

    /// The results, in the order of the tasks.
    pub fn into_results(self) -> (r: Vec<T>)
        requires
            self.wf(),
            self.all_done(),
        ensures
            r@.len() == self.total(),
            forall|i: int| 0 <= i < r@.len() ==> Some(#[trigger] r@[i]) == self.slots()[i],
    {
        let ghost old_slots = self.slots@;
        let mut slots = self.slots;
        let mut out: Vec<T> = Vec::new();
        let ghost n = old_slots.len();
        // Taken from the back, then reversed into task order.
        let mut rev: Vec<T> = Vec::new();
        while slots.len() > 0
            invariant
                slots@ == old_slots.take(slots@.len() as int),
                slots@.len() <= n,
                n == old_slots.len(),
                forall|i: int| 0 <= i < n ==> old_slots[i] is Some,
                rev@.len() == n - slots@.len(),
                forall|j: int|
                    0 <= j < rev@.len() ==> Some(#[trigger] rev@[j]) == old_slots[n - 1 - j],
            decreases slots@.len(),
        {
            let ghost k = slots@.len() - 1;
            let item = slots.pop();
            assert(item == Some(old_slots[k]));
            match item {
                Some(Some(v)) => {
                    rev.push(v);
                },
                _ => {
                    assert(false);
                },
            }
            assert(slots@ =~= old_slots.take(k));
        }
        while rev.len() > 0
            invariant
                n == old_slots.len(),
                rev@.len() + out@.len() == n,
                forall|j: int|
                    0 <= j < rev@.len() ==> Some(#[trigger] rev@[j]) == old_slots[n - 1 - j],
                forall|i: int| 0 <= i < out@.len() ==> Some(#[trigger] out@[i]) == old_slots[i],
            decreases rev@.len(),
        {
            let ghost k = rev@.len() - 1;
            let v = rev.pop();
            match v {
                Some(v) => {
                    out.push(v);
                },
                None => {
                    assert(false);
                },
            }
        }
        out
    }
}

/// Recording a completion only touches the slot of its own index.
proof fn lemma_completed_slot<T>(slots: Seq<Option<T>>, done: Seq<(int, T)>, i: int)
    requires
        distinct_indices(done),
        0 <= i < slots.len(),
    ensures
        completed(slots, done).len() == slots.len(),
        (forall|j: int| 0 <= j < done.len() ==> done[j].0 != i) ==> completed(slots, done)[i]
            == slots[i],
        forall|j: int|
            0 <= j < done.len() && done[j].0 == i ==> completed(slots, done)[i] == Some(
                done[j].1,
            ),
    decreases done.len(),
{
    if done.len() > 0 {
        let rest = done.drop_last();
        assert(distinct_indices(rest));
        lemma_completed_slot(slots, rest, i);
        lemma_completed_len(slots, rest);
        if forall|j: int| 0 <= j < done.len() ==> done[j].0 != i {
            assert forall|j: int| 0 <= j < rest.len() implies rest[j].0 != i by {
                assert(rest[j] == done[j]);
            }
        }
        assert forall|j: int| 0 <= j < done.len() && done[j].0 == i implies completed(
            slots,
            done,
        )[i] == Some(done[j].1) by {
            let prev = completed(slots, rest);
            assert(prev.len() == slots.len());
            if j < rest.len() {
                assert(rest[j] == done[j]);
                assert(done[j].0 != done[done.len() - 1].0);
                assert(prev[i] == Some(rest[j].1));
            } else {
                assert(done[j] == done.last());
            }
        }
    }
}

proof fn lemma_completed_len<T>(slots: Seq<Option<T>>, done: Seq<(int, T)>)
    ensures
        completed(slots, done).len() == slots.len(),
    decreases done.len(),
{
    if done.len() > 0 {
        lemma_completed_len(slots, done.drop_last());
    }
}

/// Results keep the order of the tasks, whatever order the tasks complete in:
/// after any sequence of completions with distinct indices, the slot of task
/// `i` holds the result that task `i` reported.
pub proof fn lemma_result_follows_task_index<T>(slots: Seq<Option<T>>, done: Seq<(int, T)>, j: int)
    requires
        distinct_indices(done),
        0 <= j < done.len(),
        0 <= done[j].0 < slots.len(),
    ensures
        completed(slots, done)[done[j].0] == Some(done[j].1),
{
    lemma_completed_slot(slots, done, done[j].0);
}

/// Two completion orders of the same results give the same slots.
pub proof fn lemma_completion_order_is_irrelevant<T>(
    slots: Seq<Option<T>>,
    a: Seq<(int, T)>,
    b: Seq<(int, T)>,
)
    requires
        distinct_indices(a),
        distinct_indices(b),
        a.to_set() == b.to_set(),
    ensures
        completed(slots, a) == completed(slots, b),
{
    lemma_completed_len(slots, a);
    lemma_completed_len(slots, b);
    assert forall|i: int| 0 <= i < slots.len() implies completed(slots, a)[i] == completed(
        slots,
        b,
    )[i] by {
        lemma_completed_slot(slots, a, i);
        lemma_completed_slot(slots, b, i);
        if exists|j: int| 0 <= j < a.len() && a[j].0 == i {
            let j = choose|j: int| 0 <= j < a.len() && a[j].0 == i;
            assert(a.to_set().contains(a[j]));
            assert(b.to_set().contains(a[j]));
            let m = choose|m: int| 0 <= m < b.len() && b[m] == a[j];
            assert(b[m].0 == i);
        } else if exists|m: int| 0 <= m < b.len() && b[m].0 == i {
            let m = choose|m: int| 0 <= m < b.len() && b[m].0 == i;
            assert(b.to_set().contains(b[m]));
            assert(a.to_set().contains(b[m]));
            let j = choose|j: int| 0 <= j < a.len() && a[j] == b[m];
            assert(a[j].0 == i);
        }
    }
    assert(completed(slots, a) =~= completed(slots, b));
}

} // verus!
