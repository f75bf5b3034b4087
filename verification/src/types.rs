use vstd::prelude::*;

use crate::address::Address;

verus! {

/// What a partial signature commits to, on the committer wire.
#[derive(Clone, Copy, Debug, PartialEq, Eq, Structural)]
pub enum TaskType {
    Randomness,
    GroupRelay,
    GroupRelayConfirmation,
}

impl TaskType {
    /// The wire tag of the kind.
    pub open spec fn spec_to_i32(self) -> i32 {
        match self {
            TaskType::Randomness => 0,
            TaskType::GroupRelay => 1,
            TaskType::GroupRelayConfirmation => 2,
        }
    }

    pub fn to_i32(self) -> (r: i32)
        ensures
            r == self.spec_to_i32(),
    {
        match self {
            TaskType::Randomness => 0,
            TaskType::GroupRelay => 1,
            TaskType::GroupRelayConfirmation => 2,
        }
    }

    /// Reads a wire tag back; unknown tags give `None`.
    pub fn from_i32(tag: i32) -> (r: Option<TaskType>)
        ensures
            r matches Some(t) ==> t.spec_to_i32() == tag,
            r is None <==> tag != 0 && tag != 1 && tag != 2,
    {
        if tag == 0 {
            Some(TaskType::Randomness)
        } else if tag == 1 {
            Some(TaskType::GroupRelay)
        } else if tag == 2 {
            Some(TaskType::GroupRelayConfirmation)
        } else {
            None
        }
    }
}

/// A randomness request assigned by a chain. The index is unique per
/// chain; the message is the seed payload the group signs.
pub struct RandomnessTask {
    pub index: u64,
    pub message: Vec<u8>,
    pub group_index: u32,
    pub assignment_block_height: u64,
}

/// The ghost mirror of a randomness task.
pub struct RandomnessTaskView {
    pub index: u64,
    pub message: Seq<u8>,
    pub group_index: u32,
    pub assignment_block_height: u64,
}

impl View for RandomnessTask {
    type V = RandomnessTaskView;

    open spec fn view(&self) -> RandomnessTaskView {
        RandomnessTaskView {
            index: self.index,
            message: self.message@,
            group_index: self.group_index,
            assignment_block_height: self.assignment_block_height,
        }
    }
}

impl RandomnessTask {
    pub fn new(index: u64, message: Vec<u8>, group_index: u32, assignment_block_height: u64) -> (r:
        RandomnessTask)
        ensures
            r.index == index,
            r.message@ == message@,
            r.group_index == group_index,
            r.assignment_block_height == assignment_block_height,
    {
        RandomnessTask { index, message, group_index, assignment_block_height }
    }
}

impl Clone for RandomnessTask {
    fn clone(&self) -> (r: Self)
        ensures
            r@ == self@,
    {
        RandomnessTask {
            index: self.index,
            message: clone_bytes(&self.message),
            group_index: self.group_index,
            assignment_block_height: self.assignment_block_height,
        }
    }
}

/// A group-relay confirmation assigned by an adapter chain.
#[derive(Clone, Copy, Debug, PartialEq, Eq, Structural)]
pub struct GroupRelayConfirmationTask {
    pub index: u64,
    pub group_index: u32,
    pub assignment_block_height: u64,
}

/// Who this node is: fixed at boot, never mutated.
pub struct NodeIdentity {
    pub id_address: Address,
    pub node_rpc_endpoint: String,
    pub dkg_private_key: Vec<u8>,
    pub dkg_public_key: Vec<u8>,
}

impl NodeIdentity {
    pub fn new(
        id_address: Address,
        node_rpc_endpoint: String,
        dkg_private_key: Vec<u8>,
        dkg_public_key: Vec<u8>,
    ) -> (r: NodeIdentity)
        ensures
            r.id_address@ == id_address@,
            r.node_rpc_endpoint@ == node_rpc_endpoint@,
            r.dkg_private_key@ == dkg_private_key@,
            r.dkg_public_key@ == dkg_public_key@,
    {
        NodeIdentity { id_address, node_rpc_endpoint, dkg_private_key, dkg_public_key }
    }
}

/// How one chain is reached and addressed.
pub struct ChainIdentity {
    pub chain_id: u32,
    pub provider_rpc_endpoint: String,
    pub contract_address: Address,
}

impl ChainIdentity {
    pub fn new(chain_id: u32, provider_rpc_endpoint: String, contract_address: Address) -> (r:
        ChainIdentity)
        ensures
            r.chain_id == chain_id,
            r.provider_rpc_endpoint@ == provider_rpc_endpoint@,
            r.contract_address@ == contract_address@,
    {
        ChainIdentity { chain_id, provider_rpc_endpoint, contract_address }
    }
}

/// Copies a byte string.
pub fn clone_bytes(v: &Vec<u8>) -> (r: Vec<u8>)
    ensures
        r@ == v@,
{
    let mut out: Vec<u8> = Vec::new();
    let mut i: usize = 0;
    while i < v.len()
        invariant
            i <= v@.len(),
            out@ == v@.take(i as int),
        decreases v@.len() - i,
    {
        out.push(v[i]);
        proof {
            assert(out@ =~= v@.take(i + 1));
        }
        i += 1;
    }
    proof {
        assert(out@ =~= v@);
    }
    out
}

/// Copies a list of randomness tasks.
pub fn clone_tasks(v: &Vec<RandomnessTask>) -> (r: Vec<RandomnessTask>)
    ensures
        r@.len() == v@.len(),
        forall|i: int| 0 <= i < v@.len() ==> #[trigger] r@[i]@ == v@[i]@,
{
    let mut out: Vec<RandomnessTask> = Vec::new();
    let mut i: usize = 0;
    while i < v.len()
        invariant
            i <= v@.len(),
            out@.len() == i,
            forall|j: int| 0 <= j < i ==> #[trigger] out@[j]@ == v@[j]@,
        decreases v@.len() - i,
    {
        out.push(v[i].clone());
        i += 1;
    }
    out
}

/// Copies a string.
pub fn clone_string(s: &String) -> (r: String)
    ensures
        r@ == s@,
{
    String::from_str(s.as_str())
}

} // verus!
