use vstd::prelude::*;

use crate::errors::{NodeError, NodeResult};
use crate::types::{GroupRelayConfirmationTask, RandomnessTask, RandomnessTaskView};

verus! {

/// Whether a cached randomness task may be worked on now: its
/// assignment height has been reached and it is assigned to the
/// group this node sits in.
pub open spec fn task_available(
    t: RandomnessTaskView,
    current_block_height: u64,
    current_group_index: u32,
) -> bool {
    t.assignment_block_height <= current_block_height && t.group_index == current_group_index
}

/// The randomness tasks a chain has assigned and this node has not
/// yet handed to a handler, keyed by task index.
pub struct BLSTasksCache {
    tasks: Vec<RandomnessTask>,
}

impl View for BLSTasksCache {
    type V = Seq<RandomnessTaskView>;

    closed spec fn view(&self) -> Seq<RandomnessTaskView> {
        Seq::new(self.tasks@.len(), |i: int| self.tasks@[i]@)
    }
}

/// Whether some task in the sequence carries this index.
pub open spec fn spec_contains_task(s: Seq<RandomnessTaskView>, index: u64) -> bool {
    exists|i: int| 0 <= i < s.len() && #[trigger] s[i].index == index
}

impl BLSTasksCache {
    /// No task index appears twice.
    pub open spec fn wf(&self) -> bool {
        forall|i: int, j: int| 0 <= i < j < self@.len() ==> self@[i].index != self@[j].index
    }

    pub fn new() -> (r: BLSTasksCache)
        ensures
            r@ == Seq::<RandomnessTaskView>::empty(),
            r.wf(),
    {
        let r = BLSTasksCache { tasks: Vec::new() };
        proof {
            assert(r@ =~= Seq::<RandomnessTaskView>::empty());
        }
        r
    }

    pub fn contains(&self, index: u64) -> (r: bool)
        ensures
            r == spec_contains_task(self@, index),
    {
        let n = self.tasks.len();
        let mut i: usize = 0;
        while i < n
            invariant
                n == self@.len(),
                i <= n,
                forall|j: int| 0 <= j < i ==> self@[j].index != index,
            decreases n - i,
        {
            if self.tasks[i].index == index {
                proof {
                    assert(self@[i as int].index == index);
                }
                return true;
            }
            i += 1;
        }
        false
    }

    /// Caches a task the chain assigned. A task index seen before is
    /// refused, so one assignment is cached at most once.
    pub fn add(&mut self, task: RandomnessTask) -> (r: NodeResult<()>)
        requires
            old(self).wf(),
        ensures
            final(self).wf(),
            r is Err <==> spec_contains_task(old(self)@, task.index),
            r matches Err(e) ==> e == NodeError::TaskAlreadyExisted && final(self)@ == old(self)@,
            r is Ok ==> final(self)@ == old(self)@.push(task@),
    {
        if self.contains(task.index) {
            return Err(NodeError::TaskAlreadyExisted);
        }
        let ghost pre = self@;
        let ghost task_view = task@;
        self.tasks.push(task);
        proof {
            assert(self@ =~= pre.push(task_view));
            assert(self.wf());
        }
        Ok(())
    }

    /// Hands out every task that is workable now and drops it from
    /// the cache; what is not yet workable stays, in order.
    pub fn check_and_get_available_tasks(
        &mut self,
        current_block_height: u64,
        current_group_index: u32,
    ) -> (r: Vec<RandomnessTask>)
        requires
            old(self).wf(),
        ensures
            final(self).wf(),
            task_views(r@) == old(self)@.filter(
                |t: RandomnessTaskView| task_available(t, current_block_height, current_group_index),
            ),
            final(self)@ == old(self)@.filter(
                |t: RandomnessTaskView|
                    !task_available(t, current_block_height, current_group_index),
            ),
    {
        let ghost pre = self@;
        let ghost avail = |t: RandomnessTaskView|
            task_available(t, current_block_height, current_group_index);
        let ghost not_avail = |t: RandomnessTaskView|
            !task_available(t, current_block_height, current_group_index);
        let mut out: Vec<RandomnessTask> = Vec::new();
        let mut kept: Vec<RandomnessTask> = Vec::new();
        let n = self.tasks.len();
        let mut i: usize = 0;
        proof {
            reveal(Seq::filter);
            assert(task_views(out@) =~= Seq::<RandomnessTaskView>::empty());
            assert(task_views(kept@) =~= Seq::<RandomnessTaskView>::empty());
            assert(pre.take(0).filter(avail) =~= Seq::<RandomnessTaskView>::empty());
            assert(pre.take(0).filter(not_avail) =~= Seq::<RandomnessTaskView>::empty());
        }
        while i < n
            invariant
                n == self@.len(),
                self@ == pre,
                i <= n,
                avail == |t: RandomnessTaskView|
                    task_available(t, current_block_height, current_group_index),
                not_avail == |t: RandomnessTaskView|
                    !task_available(t, current_block_height, current_group_index),
                task_views(out@) == pre.take(i as int).filter(avail),
                task_views(kept@) == pre.take(i as int).filter(not_avail),
            decreases n - i,
        {
            let t = self.tasks[i].clone();
            let ghost pre_out = task_views(out@);
            let ghost pre_kept = task_views(kept@);
            if t.assignment_block_height <= current_block_height && t.group_index
                == current_group_index {
                out.push(t);
                proof {
                    assert(task_views(out@) =~= pre_out.push(pre[i as int]));
                }
            } else {
                kept.push(t);
                proof {
                    assert(task_views(kept@) =~= pre_kept.push(pre[i as int]));
                }
            }
            proof {
                reveal_with_fuel(Seq::filter, 2);
                assert(pre.take(i + 1).drop_last() =~= pre.take(i as int));
                assert(pre.take(i + 1).last() == pre[i as int]);
                assert(task_views(out@) =~= pre.take(i + 1).filter(avail));
                assert(task_views(kept@) =~= pre.take(i + 1).filter(not_avail));
            }
            i += 1;
        }
        proof {
            assert(pre.take(n as int) =~= pre);
        }
        self.tasks = kept;
        proof {
            assert(self@ =~= task_views(kept@));
            lemma_filter_keeps_task_indices_unique(pre, not_avail);
            assert(self.wf());
        }
        out
    }
}

/// The ghost mirrors of a sequence of tasks.
pub open spec fn task_views(s: Seq<RandomnessTask>) -> Seq<RandomnessTaskView> {
    Seq::new(s.len(), |i: int| s[i]@)
}

/// Every task surviving a filter occurs in the sequence it was
/// filtered from.
pub proof fn lemma_filter_elements_occur(
    s: Seq<RandomnessTaskView>,
    pred: spec_fn(RandomnessTaskView) -> bool,
)
    ensures
        forall|i: int|
            0 <= i < s.filter(pred).len() ==> s.contains(#[trigger] s.filter(pred)[i]),
    decreases s.len(),
{
    reveal(Seq::filter);
    if s.len() > 0 {
        let d = s.drop_last();
        lemma_filter_elements_occur(d, pred);
        assert forall|i: int|
            0 <= i < s.filter(pred).len() implies s.contains(#[trigger] s.filter(pred)[i]) by {
            if pred(s.last()) && i == s.filter(pred).len() - 1 {
                assert(s.filter(pred)[i] == s.last());
                assert(s[s.len() - 1] == s.last());
            } else {
                assert(s.filter(pred)[i] == d.filter(pred)[i]);
                assert(d.contains(d.filter(pred)[i]));
                let k = choose|k: int| 0 <= k < d.len() && d[k] == d.filter(pred)[i];
                assert(s[k] == d.filter(pred)[i]);
            }
        }
    }
}

/// Filtering a sequence whose task indices are distinct leaves the
/// surviving indices distinct.
pub proof fn lemma_filter_keeps_task_indices_unique(
    s: Seq<RandomnessTaskView>,
    pred: spec_fn(RandomnessTaskView) -> bool,
)
    requires
        forall|i: int, j: int| 0 <= i < j < s.len() ==> s[i].index != s[j].index,
    ensures
        forall|i: int, j: int|
            0 <= i < j < s.filter(pred).len() ==> s.filter(pred)[i].index != s.filter(
                pred,
            )[j].index,
    decreases s.len(),
{
    reveal(Seq::filter);
    if s.len() > 0 {
        let d = s.drop_last();
        lemma_filter_keeps_task_indices_unique(d, pred);
        lemma_filter_elements_occur(d, pred);
        if pred(s.last()) {
            assert(s.filter(pred) == d.filter(pred).push(s.last()));
            assert forall|i: int|
                0 <= i < d.filter(pred).len() implies #[trigger] d.filter(pred)[i].index
                != s.last().index by {
                assert(d.contains(d.filter(pred)[i]));
                let k = choose|k: int| 0 <= k < d.len() && d[k] == d.filter(pred)[i];
                assert(s[k] == d[k]);
            }
        } else {
            assert(s.filter(pred) == d.filter(pred));
        }
    }
}

/// The group-relay confirmations an adapter chain assigned and this
/// node has not yet handed to a handler.
pub struct GroupRelayConfirmationTasksCache {
    tasks: Vec<GroupRelayConfirmationTask>,
}

impl View for GroupRelayConfirmationTasksCache {
    type V = Seq<GroupRelayConfirmationTask>;

    closed spec fn view(&self) -> Seq<GroupRelayConfirmationTask> {
        self.tasks@
    }
}

/// Whether a cached relay confirmation may be worked on now.
pub open spec fn relay_task_available(
    t: GroupRelayConfirmationTask,
    current_block_height: u64,
    current_group_index: u32,
) -> bool {
    t.assignment_block_height <= current_block_height && t.group_index == current_group_index
}

impl GroupRelayConfirmationTasksCache {
    pub fn new() -> (r: GroupRelayConfirmationTasksCache)
        ensures
            r@ == Seq::<GroupRelayConfirmationTask>::empty(),
    {
        GroupRelayConfirmationTasksCache { tasks: Vec::new() }
    }

    /// Caches a relay confirmation the chain assigned.
    pub fn add(&mut self, task: GroupRelayConfirmationTask)
        ensures
            final(self)@ == old(self)@.push(task),
    {
        self.tasks.push(task);
    }

    /// Hands out every confirmation that is workable now and drops it
    /// from the cache; the rest stays, in order.
    pub fn check_and_get_available_tasks(
        &mut self,
        current_block_height: u64,
        current_group_index: u32,
    ) -> (r: Vec<GroupRelayConfirmationTask>)
        ensures
            r@ == old(self)@.filter(
                |t: GroupRelayConfirmationTask|
                    relay_task_available(t, current_block_height, current_group_index),
            ),
            final(self)@ == old(self)@.filter(
                |t: GroupRelayConfirmationTask|
                    !relay_task_available(t, current_block_height, current_group_index),
            ),
    {
        let ghost pre = self@;
        let ghost avail = |t: GroupRelayConfirmationTask|
            relay_task_available(t, current_block_height, current_group_index);
        let ghost not_avail = |t: GroupRelayConfirmationTask|
            !relay_task_available(t, current_block_height, current_group_index);
        let mut out: Vec<GroupRelayConfirmationTask> = Vec::new();
        let mut kept: Vec<GroupRelayConfirmationTask> = Vec::new();
        let n = self.tasks.len();
        let mut i: usize = 0;
        proof {
            reveal(Seq::filter);
            assert(pre.take(0).filter(avail) =~= Seq::<GroupRelayConfirmationTask>::empty());
            assert(pre.take(0).filter(not_avail) =~= Seq::<GroupRelayConfirmationTask>::empty());
        }
        while i < n
            invariant
                n == self@.len(),
                self@ == pre,
                i <= n,
                avail == |t: GroupRelayConfirmationTask|
                    relay_task_available(t, current_block_height, current_group_index),
                not_avail == |t: GroupRelayConfirmationTask|
                    !relay_task_available(t, current_block_height, current_group_index),
                out@ == pre.take(i as int).filter(avail),
                kept@ == pre.take(i as int).filter(not_avail),
            decreases n - i,
        {
            let t = self.tasks[i];
            if t.assignment_block_height <= current_block_height && t.group_index
                == current_group_index {
                out.push(t);
            } else {
                kept.push(t);
            }
            proof {
                reveal_with_fuel(Seq::filter, 2);
                assert(pre.take(i + 1).drop_last() =~= pre.take(i as int));
                assert(pre.take(i + 1).last() == pre[i as int]);
                assert(out@ =~= pre.take(i + 1).filter(avail));
                assert(kept@ =~= pre.take(i + 1).filter(not_avail));
            }
            i += 1;
        }
        proof {
            assert(pre.take(n as int) =~= pre);
        }
        self.tasks = kept;
        out
    }
}

} // verus!
