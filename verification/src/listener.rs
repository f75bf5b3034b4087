use vstd::prelude::*;

use crate::address::Address;
use crate::block::BlockInfoCache;
use crate::event::{
    NewRandomnessTask, ReadyToFulfillRandomnessTask, ReadyToHandleGroupRelayConfirmationTask,
    ReadyToHandleRandomnessTask,
};
use crate::group::Group;
use crate::sig_cache::{views_of, InMemorySignatureResultCache, RandomnessResultCacheView};
use crate::task_cache::{
    relay_task_available, spec_contains_task, task_available, task_views, BLSTasksCache,
    GroupRelayConfirmationTasksCache,
};
use crate::types::RandomnessTask;

verus! {

/// One pass of the task listener: the chain client handed back a
/// task; cache and announce it unless its index is already known.
/// Reading the same assignment twice publishes nothing the second
/// time.
pub struct MockNewRandomnessTaskListener {
    chain_id: u32,
    id_address: Address,
}

impl MockNewRandomnessTaskListener {
    pub closed spec fn spec_chain_id(&self) -> u32 {
        self.chain_id
    }

    pub closed spec fn spec_id_address(&self) -> Seq<u8> {
        self.id_address@
    }

    pub fn new(chain_id: u32, id_address: Address) -> (r: MockNewRandomnessTaskListener)
        ensures
            r.spec_chain_id() == chain_id,
            r.spec_id_address() == id_address@,
    {
        MockNewRandomnessTaskListener { chain_id, id_address }
    }

    pub fn tick(&self, task: RandomnessTask, randomness_tasks_cache: &mut BLSTasksCache) -> (r:
        Option<NewRandomnessTask>)
        requires
            old(randomness_tasks_cache).wf(),
        ensures
            final(randomness_tasks_cache).wf(),
            r is Some <==> !spec_contains_task(old(randomness_tasks_cache)@, task.index),
            r matches Some(e) ==> e.chain_id == self.spec_chain_id() && e.task@ == task@
                && final(randomness_tasks_cache)@ == old(randomness_tasks_cache)@.push(task@),
            r is None ==> final(randomness_tasks_cache)@ == old(randomness_tasks_cache)@,
    {
        if randomness_tasks_cache.contains(task.index) {
            return None;
        }
        let ghost task_view = task@;
        let announced = task.clone();
        match randomness_tasks_cache.add(task) {
            Ok(_) => Some(NewRandomnessTask::new(self.chain_id, announced)),
            Err(_) => {
                proof {
                    assert(false);
                }
                None
            },
        }
    }
}

/// One pass of the readiness listener: hand every task that has
/// become workable, on a chain whose group is DKG-complete, to the
/// signing pipeline.
pub struct ReadyToHandleRandomnessTaskListener {
    chain_id: u32,
}

impl ReadyToHandleRandomnessTaskListener {
    pub closed spec fn spec_chain_id(&self) -> u32 {
        self.chain_id
    }

    pub fn new(chain_id: u32) -> (r: ReadyToHandleRandomnessTaskListener)
        ensures
            r.spec_chain_id() == chain_id,
    {
        ReadyToHandleRandomnessTaskListener { chain_id }
    }

    pub fn tick(
        &self,
        group: &Group,
        block_cache: &BlockInfoCache,
        randomness_tasks_cache: &mut BLSTasksCache,
    ) -> (r: Option<ReadyToHandleRandomnessTask>)
        requires
            old(randomness_tasks_cache).wf(),
        ensures
            final(randomness_tasks_cache).wf(),
            !group.state ==> r is None && final(randomness_tasks_cache)@ == old(
                randomness_tasks_cache,
            )@,
            group.state ==> {
                let avail = old(randomness_tasks_cache)@.filter(
                    |t: crate::types::RandomnessTaskView|
                        task_available(t, block_cache.spec_block_height(), group.index),
                );
                &&& final(randomness_tasks_cache)@ == old(randomness_tasks_cache)@.filter(
                    |t: crate::types::RandomnessTaskView|
                        !task_available(t, block_cache.spec_block_height(), group.index),
                )
                &&& (r is Some <==> avail.len() > 0)
                &&& (r matches Some(e) ==> e.chain_id == self.spec_chain_id() && task_views(
                    e.tasks@,
                ) == avail)
            },
    {
        if !group.get_state() {
            return None;
        }
        let current_block_height = block_cache.get_block_height();
        let available = randomness_tasks_cache.check_and_get_available_tasks(
            current_block_height,
            group.get_index(),
        );
        if available.len() == 0 {
            return None;
        }
        Some(ReadyToHandleRandomnessTask { chain_id: self.chain_id, tasks: available })
    }
}

/// One pass of the aggregation listener: on a node that is a
/// designated committer, announce every entry that reached its
/// quorum and is still unfulfilled. A non-committer never emits, and
/// a fulfilled entry is never emitted again.
pub struct RandomnessSignatureAggregationListener {
    chain_id: u32,
    id_address: Address,
}

impl RandomnessSignatureAggregationListener {
    pub closed spec fn spec_chain_id(&self) -> u32 {
        self.chain_id
    }

    pub closed spec fn spec_id_address(&self) -> Seq<u8> {
        self.id_address@
    }

    pub fn new(chain_id: u32, id_address: Address) -> (r: RandomnessSignatureAggregationListener)
        ensures
            r.spec_chain_id() == chain_id,
            r.spec_id_address() == id_address@,
    {
        RandomnessSignatureAggregationListener { chain_id, id_address }
    }

    pub fn tick(
        &self,
        group: &Group,
        randomness_signature_cache: &InMemorySignatureResultCache,
    ) -> (r: Option<ReadyToFulfillRandomnessTask>)
        requires
            randomness_signature_cache.wf(),
        ensures
            ({
                let ready = randomness_signature_cache@.filter(
                    |e: RandomnessResultCacheView| e.ready(),
                );
                &&& (r is Some <==> group.spec_is_committer(self.spec_id_address())
                    && ready.len() > 0)
                &&& (r matches Some(e) ==> e.chain_id == self.spec_chain_id() && views_of(
                    e.tasks@,
                ) == ready)
            }),
    {
        if !group.is_committer(&self.id_address) {
            return None;
        }
        let ready_signatures = randomness_signature_cache.get_ready_to_commit_signatures();
        if ready_signatures.len() == 0 {
            proof {
                assert(views_of(ready_signatures@).len() == 0);
            }
            return None;
        }
        proof {
            assert(views_of(ready_signatures@).len() > 0);
        }
        Some(ReadyToFulfillRandomnessTask { chain_id: self.chain_id, tasks: ready_signatures })
    }
}

/// One pass of the relay-confirmation listener on an adapter chain:
/// once the group is DKG-complete, hand every confirmation that has
/// become workable to its handler.
pub struct ReadyToHandleGroupRelayConfirmationTaskListener {
    chain_id: u32,
}

impl ReadyToHandleGroupRelayConfirmationTaskListener {
    pub closed spec fn spec_chain_id(&self) -> u32 {
        self.chain_id
    }

    pub fn new(chain_id: u32) -> (r: ReadyToHandleGroupRelayConfirmationTaskListener)
        ensures
            r.spec_chain_id() == chain_id,
    {
        ReadyToHandleGroupRelayConfirmationTaskListener { chain_id }
    }

    pub fn tick(
        &self,
        group: &Group,
        block_cache: &BlockInfoCache,
        group_relay_confirmation_tasks_cache: &mut GroupRelayConfirmationTasksCache,
    ) -> (r: Option<ReadyToHandleGroupRelayConfirmationTask>)
        ensures
            !group.state ==> r is None && final(group_relay_confirmation_tasks_cache)@ == old(
                group_relay_confirmation_tasks_cache,
            )@,
            group.state ==> {
                let avail = old(group_relay_confirmation_tasks_cache)@.filter(
                    |t: crate::types::GroupRelayConfirmationTask|
                        relay_task_available(t, block_cache.spec_block_height(), group.index),
                );
                &&& final(group_relay_confirmation_tasks_cache)@ == old(
                    group_relay_confirmation_tasks_cache,
                )@.filter(
                    |t: crate::types::GroupRelayConfirmationTask|
                        !relay_task_available(t, block_cache.spec_block_height(), group.index),
                )
                &&& (r is Some <==> avail.len() > 0)
                &&& (r matches Some(e) ==> e.chain_id == self.spec_chain_id() && e.tasks@ == avail)
            },
    {
        if !group.get_state() {
            return None;
        }
        let current_block_height = block_cache.get_block_height();
        let available = group_relay_confirmation_tasks_cache.check_and_get_available_tasks(
            current_block_height,
            group.get_index(),
        );
        if available.len() == 0 {
            return None;
        }
        Some(
            ReadyToHandleGroupRelayConfirmationTask { chain_id: self.chain_id, tasks: available },
        )
    }
}

} // verus!
