use vstd::prelude::*;

use crate::address::Address;
use crate::errors::{NodeError, NodeResult};
use crate::types::clone_bytes;

verus! {

/// One member of the BLS group.
pub struct Member {
    pub id_address: Address,
    pub index: u32,
    pub rpc_endpoint: String,
    pub partial_public_key: Vec<u8>,
}

/// The ghost mirror of a member.
pub struct MemberView {
    pub id_address: Seq<u8>,
    pub index: u32,
    pub rpc_endpoint: Seq<char>,
    pub partial_public_key: Seq<u8>,
}

impl View for Member {
    type V = MemberView;

    open spec fn view(&self) -> MemberView {
        MemberView {
            id_address: self.id_address@,
            index: self.index,
            rpc_endpoint: self.rpc_endpoint@,
            partial_public_key: self.partial_public_key@,
        }
    }
}

/// The group this node belongs to, as the grouping subsystem left it.
/// The coordination core only reads it.
pub struct Group {
    pub index: u32,
    pub epoch: u32,
    pub size: usize,
    pub threshold: usize,
    pub state: bool,
    pub public_key: Vec<u8>,
    pub members: Vec<Member>,
    pub committers: Vec<Address>,
    pub share: Option<Vec<u8>>,
}

impl Group {
    /// Where the member with this address sits in `members`, if anywhere.
    pub open spec fn spec_member_index(&self, addr: Seq<u8>) -> int {
        choose|i: int| 0 <= i < self.members@.len() && self.members@[i]@.id_address == addr
    }

    /// Whether some member carries this address.
    pub open spec fn spec_is_member(&self, addr: Seq<u8>) -> bool {
        exists|i: int| 0 <= i < self.members@.len() && self.members@[i]@.id_address == addr
    }

    /// Whether this address is one of the designated committers.
    pub open spec fn spec_is_committer(&self, addr: Seq<u8>) -> bool {
        exists|i: int| 0 <= i < self.committers@.len() && self.committers@[i]@ == addr
    }

    /// A usable group: the size names the member count, members are
    /// distinct by address and by member index, every committer is a
    /// member, and at least one honest quorum is possible.
    pub open spec fn wf(&self) -> bool {
        &&& self.size == self.members@.len()
        &&& 1 <= self.threshold <= self.size
        &&& forall|i: int, j: int|
            0 <= i < j < self.members@.len() ==> self.members@[i]@.id_address
                != self.members@[j]@.id_address
        &&& forall|i: int, j: int|
            0 <= i < j < self.members@.len() ==> self.members@[i]@.index
                != self.members@[j]@.index
        &&& forall|i: int|
            0 <= i < self.committers@.len() ==> self.spec_is_member(
                #[trigger] self.committers@[i]@,
            )
    }

    pub fn get_index(&self) -> (r: u32)
        ensures
            r == self.index,
    {
        self.index
    }

    pub fn get_state(&self) -> (r: bool)
        ensures
            r == self.state,
    {
        self.state
    }

    pub fn get_threshold(&self) -> (r: usize)
        ensures
            r == self.threshold,
    {
        self.threshold
    }

    pub fn get_size(&self) -> (r: usize)
        ensures
            r == self.size,
    {
        self.size
    }

    /// This node's secret share, or `GroupNotReady` while the DKG has
    /// not yet handed one out.
    pub fn get_secret_share(&self) -> (r: NodeResult<Vec<u8>>)
        ensures
            r is Ok <==> self.share is Some,
            r matches Ok(s) ==> s@ == self.share.unwrap()@,
            r matches Err(e) ==> e == NodeError::GroupNotReady,
    {
        match &self.share {
            Some(s) => Ok(clone_bytes(s)),
            None => Err(NodeError::GroupNotReady),
        }
    }

    /// Finds the position of the member with this address.
    pub fn find_member(&self, addr: &Address) -> (r: Option<usize>)
        ensures
            r is Some <==> self.spec_is_member(addr@),
            r matches Some(i) ==> i < self.members@.len() && self.members@[i as int]@.id_address
                == addr@,
    {
        let n = self.members.len();
        let mut i: usize = 0;
        while i < n
            invariant
                n == self.members@.len(),
                i <= n,
                forall|j: int| 0 <= j < i ==> self.members@[j]@.id_address != addr@,
            decreases n - i,
        {
            if self.members[i].id_address.equals(addr) {
                return Some(i);
            }
            i += 1;
        }
        None
    }

    pub fn is_committer(&self, addr: &Address) -> (r: bool)
        ensures
            r == self.spec_is_committer(addr@),
    {
        let n = self.committers.len();
        let mut i: usize = 0;
        while i < n
            invariant
                n == self.committers@.len(),
                i <= n,
                forall|j: int| 0 <= j < i ==> self.committers@[j]@ != addr@,
            decreases n - i,
        {
            if self.committers[i].equals(addr) {
                return true;
            }
            i += 1;
        }
        false
    }

    /// Decides well-formedness at run time, so that a group handed in
    /// from the grouping subsystem can be validated before the node
    /// starts relying on it.
    pub fn check_wf(&self) -> (r: bool)
        ensures
            r == self.wf(),
    {
        let n = self.members.len();
        if self.size != n {
            return false;
        }
        if self.threshold < 1 || self.threshold > self.size {
            return false;
        }
        let mut i: usize = 0;
        while i < n
            invariant
                n == self.members@.len(),
                i <= n,
                forall|a: int, b: int|
                    0 <= a < b < n && a < i ==> self.members@[a]@.id_address
                        != self.members@[b]@.id_address,
                forall|a: int, b: int|
                    0 <= a < b < n && a < i ==> self.members@[a]@.index != self.members@[b]@.index,
            decreases n - i,
        {
            let mut j: usize = i + 1;
            while j < n
                invariant
                    n == self.members@.len(),
                    i < j,
                    i < n,
                    j <= n,
                    forall|b: int|
                        i < b < j ==> self.members@[i as int]@.id_address != self.members@[b]@.id_address,
                    forall|b: int|
                        i < b < j ==> self.members@[i as int]@.index != self.members@[b]@.index,
                decreases n - j,
            {
                if self.members[i].id_address.equals(&self.members[j].id_address) {
                    return false;
                }
                if self.members[i].index == self.members[j].index {
                    return false;
                }
                j += 1;
            }
            i += 1;
        }
        let m = self.committers.len();
        let mut k: usize = 0;
        while k < m
            invariant
                m == self.committers@.len(),
                k <= m,
                forall|c: int| 0 <= c < k ==> self.spec_is_member(#[trigger] self.committers@[c]@),
            decreases m - k,
        {
            if self.find_member(&self.committers[k]).is_none() {
                return false;
            }
            k += 1;
        }
        true
    }

    /// In a usable group a member's slot never exceeds the size, so a
    /// set of partials keyed by distinct member addresses can never
    /// outgrow the group.
    pub proof fn lemma_member_index_in_range(&self, addr: Seq<u8>)
        requires
            self.spec_is_member(addr),
        ensures
            0 <= self.spec_member_index(addr) < self.members@.len(),
            self.members@[self.spec_member_index(addr)]@.id_address == addr,
    {
    }
}

} // verus!
