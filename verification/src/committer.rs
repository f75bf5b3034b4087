use vstd::prelude::*;

use crate::address::{
    address_from_string, address_to_string, spec_address_hex, spec_is_address_hex,
    spec_parsed_address, Address,
};
use crate::bls::BLSCore;
use crate::errors::{NodeError, NodeResult};
use crate::group::Group;
use crate::sig_cache::{spec_add_partial, spec_ensure_entry, InMemorySignatureResultCache};
use crate::types::{clone_bytes, clone_string, TaskType};

verus! {

/// One partial signature on its way to a committer peer.
pub struct CommitPartialSignatureRequest {
    pub id_address: String,
    pub chain_id: u32,
    pub signature_index: u32,
    pub partial_signature: Vec<u8>,
    pub task_type: i32,
    pub message: Vec<u8>,
}

/// The ghost mirror of a committer request.
#[verifier::ext_equal]
pub struct CommitPartialSignatureRequestView {
    pub id_address: Seq<char>,
    pub chain_id: u32,
    pub signature_index: u32,
    pub partial_signature: Seq<u8>,
    pub task_type: i32,
    pub message: Seq<u8>,
}

impl View for CommitPartialSignatureRequest {
    type V = CommitPartialSignatureRequestView;

    open spec fn view(&self) -> CommitPartialSignatureRequestView {
        CommitPartialSignatureRequestView {
            id_address: self.id_address@,
            chain_id: self.chain_id,
            signature_index: self.signature_index,
            partial_signature: self.partial_signature@,
            task_type: self.task_type,
            message: self.message@,
        }
    }
}

/// The committer's answer; `result` is true whenever the request
/// passed validation, a duplicate partial included.
#[derive(Clone, Copy, Debug, PartialEq, Eq, Structural)]
pub struct CommitPartialSignatureReply {
    pub result: bool,
}

/// The request a client sends for one signed task, written from
/// plain values: the sender in canonical hex, the task index
/// narrowed to the wire width.
pub open spec fn spec_commit_request(
    sender: Seq<u8>,
    chain_id: u32,
    task_type: TaskType,
    message: Seq<u8>,
    signature_index: u64,
    partial_signature: Seq<u8>,
) -> CommitPartialSignatureRequestView {
    CommitPartialSignatureRequestView {
        id_address: spec_address_hex(sender),
        chain_id,
        signature_index: signature_index as u32,
        partial_signature,
        task_type: task_type.spec_to_i32(),
        message,
    }
}

/// The wire client a handler uses to push a partial to one committer
/// peer. Building the request is the client's logic; carrying it over
/// the network is the shell's.
pub struct MockCommitterClient {
    id_address: Address,
    committer_endpoint: String,
}

impl MockCommitterClient {
    pub closed spec fn spec_id_address(&self) -> Seq<u8> {
        self.id_address@
    }

    pub closed spec fn spec_committer_endpoint(&self) -> Seq<char> {
        self.committer_endpoint@
    }

    pub fn new(id_address: Address, committer_endpoint: String) -> (r: MockCommitterClient)
        ensures
            r.spec_id_address() == id_address@,
            r.spec_committer_endpoint() == committer_endpoint@,
    {
        MockCommitterClient { id_address, committer_endpoint }
    }

    pub fn build(id_address: Address, committer_endpoint: String) -> (r: MockCommitterClient)
        ensures
            r.spec_id_address() == id_address@,
            r.spec_committer_endpoint() == committer_endpoint@,
    {
        MockCommitterClient::new(id_address, committer_endpoint)
    }

    pub fn get_id_address(&self) -> (r: Address)
        ensures
            r@ == self.spec_id_address(),
    {
        self.id_address.clone()
    }

    pub fn get_committer_endpoint(&self) -> (r: &str)
        ensures
            r@ == self.spec_committer_endpoint(),
    {
        self.committer_endpoint.as_str()
    }

    /// Writes the request for one partial, as it goes on the wire.
    /// The task index must fit the wire's width; callers drop tasks
    /// that do not as malformed.
    pub fn commit_partial_signature_request(
        &self,
        chain_id: u32,
        task_type: TaskType,
        message: Vec<u8>,
        signature_index: u64,
        partial_signature: Vec<u8>,
    ) -> (r: CommitPartialSignatureRequest)
        requires
            signature_index <= u32::MAX,
        ensures
            r@ == spec_commit_request(
                self.spec_id_address(),
                chain_id,
                task_type,
                message@,
                signature_index,
                partial_signature@,
            ),
    {
        CommitPartialSignatureRequest {
            id_address: address_to_string(&self.id_address),
            chain_id,
            signature_index: signature_index as u32,
            partial_signature,
            task_type: task_type.to_i32(),
            message,
        }
    }
}

impl Clone for MockCommitterClient {
    fn clone(&self) -> (r: Self)
        ensures
            r.spec_id_address() == self.spec_id_address(),
            r.spec_committer_endpoint() == self.spec_committer_endpoint(),
    {
        MockCommitterClient {
            id_address: self.id_address.clone(),
            committer_endpoint: clone_string(&self.committer_endpoint),
        }
    }
}

/// Whether a committer request passes every validation of the
/// receiving node: the receiver is a designated committer of a
/// DKG-complete group, the sender reads as an address and sits in the
/// group, and the partial checks against the sender's partial public
/// key.
pub open spec fn spec_request_accepted<B: BLSCore>(
    bls: B,
    receiver: Seq<u8>,
    group: Group,
    req: CommitPartialSignatureRequestView,
) -> bool {
    &&& group.state
    &&& group.spec_is_committer(receiver)
    &&& spec_is_address_hex(req.id_address)
    &&& group.spec_is_member(spec_parsed_address(req.id_address))
    &&& bls.partial_verify_spec(
        group.members@[group.spec_member_index(spec_parsed_address(req.id_address))]@.partial_public_key,
        req.message,
        req.partial_signature,
    )
}

/// What the signature cache holds after an accepted request: the
/// task's entry is there, and the sender's partial is recorded in it
/// (a duplicate leaves the entry as it was).
pub open spec fn spec_cache_after_commit(
    pre: Seq<crate::sig_cache::RandomnessResultCacheView>,
    group: Group,
    req: CommitPartialSignatureRequestView,
) -> Seq<crate::sig_cache::RandomnessResultCacheView> {
    spec_add_partial(
        spec_ensure_entry(
            pre,
            group.index,
            req.signature_index as u64,
            req.message,
            group.threshold,
        ),
        req.signature_index as u64,
        spec_parsed_address(req.id_address),
        req.partial_signature,
    )
}

/// The committer server's single method, the peer endpoint of the
/// signing pipeline. Validates the sender and the local role, makes
/// sure the task has a cache entry, checks the partial, and records
/// it. Exactly the accepted requests answer `result: true`; a
/// rejected request of any kind leaves the cache untouched, except
/// that a partial failing its check still leaves the freshly located
/// entry behind, as locating comes before checking.
pub fn commit_partial_signature<B: BLSCore>(
    bls: &B,
    receiver_id_address: &Address,
    group: &Group,
    cache: &mut InMemorySignatureResultCache,
    req: &CommitPartialSignatureRequest,
) -> (r: NodeResult<CommitPartialSignatureReply>)
    requires
        group.wf(),
        old(cache).wf(),
    ensures
        final(cache).wf(),
        r is Ok <==> spec_request_accepted(*bls, receiver_id_address@, *group, req@),
        r matches Ok(reply) ==> reply.result,
        r is Ok ==> final(cache)@ == spec_cache_after_commit(old(cache)@, *group, req@),
        r matches Err(e) ==> match e {
            NodeError::GroupNotReady => !group.state,
            NodeError::NotCommitter => group.state && !group.spec_is_committer(
                receiver_id_address@,
            ),
            NodeError::InvalidAddress => group.state && group.spec_is_committer(
                receiver_id_address@,
            ) && !spec_is_address_hex(req@.id_address),
            NodeError::MemberNotExisted => group.state && group.spec_is_committer(
                receiver_id_address@,
            ) && spec_is_address_hex(req@.id_address) && !group.spec_is_member(
                spec_parsed_address(req@.id_address),
            ),
            NodeError::PartialSignatureVerifyFailed => group.state && group.spec_is_committer(
                receiver_id_address@,
            ) && spec_is_address_hex(req@.id_address) && group.spec_is_member(
                spec_parsed_address(req@.id_address),
            ),
            _ => false,
        },
        r matches Err(e) ==> if e == NodeError::PartialSignatureVerifyFailed {
            final(cache)@ == spec_ensure_entry(
                old(cache)@,
                group.index,
                req@.signature_index as u64,
                req@.message,
                group.threshold,
            )
        } else {
            final(cache)@ == old(cache)@
        },
{
    if !group.get_state() {
        return Err(NodeError::GroupNotReady);
    }
    if !group.is_committer(receiver_id_address) {
        return Err(NodeError::NotCommitter);
    }
    let sender = match address_from_string(self_id_address_str(req)) {
        Some(a) => a,
        None => {
            return Err(NodeError::InvalidAddress);
        },
    };
    let member_pos = match group.find_member(&sender) {
        Some(p) => p,
        None => {
            return Err(NodeError::MemberNotExisted);
        },
    };
    proof {
        let c = group.spec_member_index(sender@);
        assert(0 <= c < group.members@.len() && group.members@[c]@.id_address == sender@);
        assert(member_pos as int == c);
    }
    let task_index = req.signature_index as u64;
    cache.add(
        group.get_index(),
        task_index,
        clone_bytes(&req.message),
        group.get_threshold(),
    );
    let ok = bls.partial_verify(
        &group.members[member_pos].partial_public_key,
        &req.message,
        &req.partial_signature,
    );
    if !ok {
        return Err(NodeError::PartialSignatureVerifyFailed);
    }
    match cache.add_partial_signature(task_index, sender, clone_bytes(&req.partial_signature)) {
        Ok(_) => Ok(CommitPartialSignatureReply { result: true }),
        Err(e) => Err(e),
    }
}

/// The sender field of a request, as a string slice.
fn self_id_address_str(req: &CommitPartialSignatureRequest) -> (r: &str)
    ensures
        r@ == req@.id_address,
{
    req.id_address.as_str()
}

/// The endpoints a handler pushes partials to: every designated
/// committer of the group but the node itself, in the group's
/// committer order, each at its member record's endpoint.
pub open spec fn spec_peer_endpoints(group: Group, self_addr: Seq<u8>) -> Seq<Seq<char>> {
    spec_peer_endpoints_upto(group, self_addr, group.committers@.len() as int)
}

/// The peer endpoints among the first `n` committers, skipping
/// `self_addr`.
pub open spec fn spec_peer_endpoints_upto(group: Group, self_addr: Seq<u8>, n: int) -> Seq<
    Seq<char>,
>
    decreases n,
{
    if n <= 0 {
        Seq::empty()
    } else {
        let prefix = spec_peer_endpoints_upto(group, self_addr, n - 1);
        let addr = group.committers@[n - 1]@;
        if addr == self_addr {
            prefix
        } else {
            prefix.push(group.members@[group.spec_member_index(addr)]@.rpc_endpoint)
        }
    }
}

/// The ghost mirrors of a set of wire clients.
pub open spec fn client_views(s: Seq<MockCommitterClient>) -> Seq<(Seq<u8>, Seq<char>)> {
    Seq::new(s.len(), |i: int| (s[i].spec_id_address(), s[i].spec_committer_endpoint()))
}

/// Builds one wire client per committer peer: the node's own address
/// as the sender, the peer's endpoint as the target. The node itself
/// is skipped.
pub fn prepare_committer_clients(id_address: &Address, group: &Group) -> (r: Vec<
    MockCommitterClient,
>)
    requires
        group.wf(),
    ensures
        client_views(r@) == Seq::new(
            spec_peer_endpoints_upto(*group, id_address@, group.committers@.len() as int).len(),
            |i: int|
                (
                    id_address@,
                    spec_peer_endpoints_upto(
                        *group,
                        id_address@,
                        group.committers@.len() as int,
                    )[i],
                ),
        ),
{
    let mut clients: Vec<MockCommitterClient> = Vec::new();
    let n = group.committers.len();
    let mut i: usize = 0;
    proof {
        assert(client_views(clients@) =~= Seq::new(
            spec_peer_endpoints_upto(*group, id_address@, 0).len(),
            |k: int| (id_address@, spec_peer_endpoints_upto(*group, id_address@, 0)[k]),
        ));
    }
    while i < n
        invariant
            group.wf(),
            n == group.committers@.len(),
            i <= n,
            client_views(clients@) == Seq::new(
                spec_peer_endpoints_upto(*group, id_address@, i as int).len(),
                |k: int| (id_address@, spec_peer_endpoints_upto(*group, id_address@, i as int)[k]),
            ),
        decreases n - i,
    {
        let ghost pre = client_views(clients@);
        if !group.committers[i].equals(id_address) {
            let peer = match group.find_member(&group.committers[i]) {
                Some(p) => p,
                None => {
                    proof {
                        assert(group.spec_is_member(group.committers@[i as int]@));
                        assert(false);
                    }
                    i += 1;
                    continue ;
                },
            };
            proof {
                let c = group.spec_member_index(group.committers@[i as int]@);
                assert(0 <= c < group.members@.len() && group.members@[c]@.id_address
                    == group.committers@[i as int]@);
                assert(peer as int == c);
            }
            let client = MockCommitterClient::new(
                id_address.clone(),
                clone_string(&group.members[peer].rpc_endpoint),
            );
            clients.push(client);
            proof {
                assert(client_views(clients@) =~= pre.push(
                    (
                        id_address@,
                        group.members@[group.spec_member_index(
                            group.committers@[i as int]@,
                        )]@.rpc_endpoint,
                    ),
                ));
            }
        }
        proof {
            assert(client_views(clients@) =~= Seq::new(
                spec_peer_endpoints_upto(*group, id_address@, i + 1).len(),
                |k: int| (id_address@, spec_peer_endpoints_upto(*group, id_address@, i + 1)[k]),
            ));
        }
        i += 1;
    }
    clients
}

/// Whether every partial recorded in an entry is this exact value.
pub open spec fn entry_partials_all_equal(
    e: crate::sig_cache::RandomnessResultCacheView,
    value: Seq<u8>,
) -> bool {
    forall|j: int|
        0 <= j < e.partial_signatures.len() ==> (#[trigger] e.partial_signatures[j]).1 == value
}

/// Honest partials stay honest through the committer endpoint: where
/// every partial already recorded for a task is the honest signature
/// of its message, a request carrying that same honest partial leaves
/// the property standing, whichever member sent it and whether or not
/// it was a duplicate. With `lemma_honest_quorum_verifies` this
/// closes the round trip: partials of honest members, routed through
/// the committer wire, aggregate to a verifying group signature.
pub proof fn lemma_commit_keeps_honest_partials(
    pre: Seq<crate::sig_cache::RandomnessResultCacheView>,
    group: Group,
    req: CommitPartialSignatureRequestView,
    honest: Seq<u8>,
)
    requires
        req.partial_signature == honest,
        forall|i: int|
            0 <= i < pre.len() && (#[trigger] pre[i]).task_index == req.signature_index as u64
                ==> entry_partials_all_equal(pre[i], honest),
    ensures
        ({
            let post = spec_cache_after_commit(pre, group, req);
            forall|i: int|
                0 <= i < post.len() && (#[trigger] post[i]).task_index == req.signature_index
                    as u64 ==> entry_partials_all_equal(post[i], honest)
        }),
{
    let idx = req.signature_index as u64;
    let located = spec_ensure_entry(pre, group.index, idx, req.message, group.threshold);
    assert forall|i: int|
        0 <= i < located.len() && (#[trigger] located[i]).task_index == idx implies entry_partials_all_equal(
        located[i],
        honest,
    ) by {
        if i < pre.len() {
            assert(located[i] == pre[i]);
        }
    }
    let post = spec_cache_after_commit(pre, group, req);
    let sender = spec_parsed_address(req.id_address);
    assert forall|i: int|
        0 <= i < post.len() && (#[trigger] post[i]).task_index == idx implies entry_partials_all_equal(
        post[i],
        honest,
    ) by {
        if crate::sig_cache::spec_has_index(located, idx) {
            let p = crate::sig_cache::spec_entry_pos(located, idx);
            if i == p && !located[p].has_partial_from(sender) {
                assert(located[p].task_index == idx);
                assert(post[i] == located[p].with_partial(sender, req.partial_signature));
                assert forall|j: int|
                    0 <= j < post[i].partial_signatures.len() implies (#[trigger] post[i].partial_signatures[j]).1
                    == honest by {
                    if j < located[p].partial_signatures.len() {
                        assert(post[i].partial_signatures[j] == located[p].partial_signatures[j]);
                    } else {
                        assert(post[i].partial_signatures[j].1 == req.partial_signature);
                    }
                }
            } else {
                assert(post[i] == located[i]);
            }
        } else {
            assert(post[i] == located[i]);
        }
    }
}

/// Every member that could ever hold a partial fits one slot of the
/// group, so a cache entry whose senders are distinct group members
/// can never hold more partials than the group has members.
pub proof fn lemma_partials_bounded_by_group_size(
    group: Group,
    entry: crate::sig_cache::RandomnessResultCacheView,
)
    requires
        group.wf(),
        entry.partials_unique(),
        forall|i: int|
            0 <= i < entry.partial_signatures.len() ==> group.spec_is_member(
                #[trigger] entry.partial_signatures[i].0,
            ),
    ensures
        entry.partial_signatures.len() <= group.size,
{
    let n = entry.partial_signatures.len() as int;
    let positions = Seq::new(n as nat, |k: int| group.spec_member_index(entry.partial_signatures[k].0));
    assert forall|k: int| 0 <= k < n implies 0 <= #[trigger] positions[k] < group.size by {
        group.lemma_member_index_in_range(entry.partial_signatures[k].0);
    }
    assert(positions.no_duplicates()) by {
        assert forall|i: int, j: int|
            0 <= i < n && 0 <= j < n && i != j implies positions[i] != positions[j] by {
            group.lemma_member_index_in_range(entry.partial_signatures[i].0);
            group.lemma_member_index_in_range(entry.partial_signatures[j].0);
        }
    }
    positions.unique_seq_to_set();
    assert(positions.to_set().subset_of(vstd::set_lib::set_int_range(0, group.size as int))) by {
        assert forall|p: int| positions.to_set().contains(p) implies 0 <= p < group.size by {
            let k = choose|k: int| 0 <= k < positions.len() && positions[k] == p;
        }
    }
    vstd::set_lib::lemma_int_range(0, group.size as int);
    vstd::set_lib::lemma_len_subset(
        positions.to_set(),
        vstd::set_lib::set_int_range(0, group.size as int),
    );
}

} // verus!
