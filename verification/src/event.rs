use vstd::prelude::*;

use crate::sig_cache::RandomnessResultCache;
use crate::types::{GroupRelayConfirmationTask, RandomnessTask};

verus! {

/// The closed set of subjects the event queue routes on. Per-chain
/// subjects carry the chain id they belong to.
#[derive(Clone, Copy, Debug, PartialEq, Eq, Structural)]
pub enum Topic {
    NewBlock(u32),
    NewRandomnessTask(u32),
    ReadyToHandleRandomnessTask(u32),
    ReadyToFulfillRandomnessTask(u32),
    RunDkg,
    DkgSuccess,
    DkgPostProcess,
    ReadyToHandleGroupRelayTask,
    ReadyToFulfillGroupRelayTask,
    ReadyToHandleGroupRelayConfirmationTask(u32),
    ReadyToFulfillGroupRelayConfirmationTask(u32),
}

/// A chain moved to a new block height.
pub struct NewBlock {
    pub chain_id: u32,
    pub block_height: u64,
}

impl NewBlock {
    pub fn new(chain_id: u32, block_height: u64) -> (r: NewBlock)
        ensures
            r.chain_id == chain_id,
            r.block_height == block_height,
    {
        NewBlock { chain_id, block_height }
    }
}

/// A chain assigned a randomness task this node had not seen before.
pub struct NewRandomnessTask {
    pub chain_id: u32,
    pub task: RandomnessTask,
}

impl NewRandomnessTask {
    pub fn new(chain_id: u32, task: RandomnessTask) -> (r: NewRandomnessTask)
        ensures
            r.chain_id == chain_id,
            r.task@ == task@,
    {
        NewRandomnessTask { chain_id, task }
    }
}

/// Cached randomness tasks became workable: assigned to this node's
/// group and past their assignment height.
pub struct ReadyToHandleRandomnessTask {
    pub chain_id: u32,
    pub tasks: Vec<RandomnessTask>,
}

/// Signature-result entries reached their quorum on a chain where
/// this node is a committer.
pub struct ReadyToFulfillRandomnessTask {
    pub chain_id: u32,
    pub tasks: Vec<RandomnessResultCache>,
}

/// Cached group-relay confirmations became workable on an adapter
/// chain.
pub struct ReadyToHandleGroupRelayConfirmationTask {
    pub chain_id: u32,
    pub tasks: Vec<GroupRelayConfirmationTask>,
}

/// An event is its topic's payload; the tag settles the downcast that
/// subscribers would otherwise have to guess at. The randomness
/// pipeline and the relay-confirmation feed carry their payloads
/// here; the DKG lifecycle topics belong to the grouping subsystem,
/// which this core only reads.
pub enum Event {
    NewBlock(NewBlock),
    NewRandomnessTask(NewRandomnessTask),
    ReadyToHandleRandomnessTask(ReadyToHandleRandomnessTask),
    ReadyToFulfillRandomnessTask(ReadyToFulfillRandomnessTask),
    ReadyToHandleGroupRelayConfirmationTask(ReadyToHandleGroupRelayConfirmationTask),
}

impl Event {
    /// The topic an event is delivered under.
    pub open spec fn spec_topic(&self) -> Topic {
        match self {
            Event::NewBlock(e) => Topic::NewBlock(e.chain_id),
            Event::NewRandomnessTask(e) => Topic::NewRandomnessTask(e.chain_id),
            Event::ReadyToHandleRandomnessTask(e) => Topic::ReadyToHandleRandomnessTask(
                e.chain_id,
            ),
            Event::ReadyToFulfillRandomnessTask(e) => Topic::ReadyToFulfillRandomnessTask(
                e.chain_id,
            ),
            Event::ReadyToHandleGroupRelayConfirmationTask(
                e,
            ) => Topic::ReadyToHandleGroupRelayConfirmationTask(e.chain_id),
        }
    }

    pub fn topic(&self) -> (r: Topic)
        ensures
            r == self.spec_topic(),
    {
        match self {
            Event::NewBlock(e) => Topic::NewBlock(e.chain_id),
            Event::NewRandomnessTask(e) => Topic::NewRandomnessTask(e.chain_id),
            Event::ReadyToHandleRandomnessTask(e) => Topic::ReadyToHandleRandomnessTask(
                e.chain_id,
            ),
            Event::ReadyToFulfillRandomnessTask(e) => Topic::ReadyToFulfillRandomnessTask(
                e.chain_id,
            ),
            Event::ReadyToHandleGroupRelayConfirmationTask(
                e,
            ) => Topic::ReadyToHandleGroupRelayConfirmationTask(e.chain_id),
        }
    }
}

} // verus!
