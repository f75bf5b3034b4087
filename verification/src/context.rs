use vstd::prelude::*;

use crate::bls::BLSCore;
use crate::block::BlockInfoCache;
use crate::committer::{
    commit_partial_signature, spec_cache_after_commit, spec_request_accepted,
    CommitPartialSignatureReply, CommitPartialSignatureRequest,
};
use crate::errors::{NodeError, NodeResult};
use crate::event_queue::{EventQueue, SubscriberImplView};
use crate::event::Topic;
use crate::group::Group;
use crate::sig_cache::{spec_ensure_entry, InMemorySignatureResultCache, RandomnessResultCacheView};
use crate::subscriber::ReadyToHandleRandomnessTaskSubscriber;
use crate::task_cache::{BLSTasksCache, GroupRelayConfirmationTasksCache};
use crate::types::{clone_string, ChainIdentity, NodeIdentity};

verus! {

/// What a node reads at boot.
pub struct Config {
    pub id_address: String,
    pub node_rpc_endpoint: String,
    pub controller_endpoint: String,
    pub adapters: Vec<Adapter>,
}

/// One adapter chain in the configuration.
pub struct Adapter {
    pub id: usize,
    pub id_address: String,
    pub name: String,
    pub endpoint: String,
}

/// Everything the node keeps per chain: how to reach it, and the
/// block, task and signature-result caches that its listeners and
/// handlers work on.
pub struct Chain {
    pub chain_id: u32,
    pub identity: ChainIdentity,
    pub block_cache: BlockInfoCache,
    pub randomness_tasks_cache: BLSTasksCache,
    pub randomness_signature_cache: InMemorySignatureResultCache,
    pub group_relay_confirmation_tasks_cache: GroupRelayConfirmationTasksCache,
}

impl Chain {
    pub open spec fn wf(&self) -> bool {
        &&& self.randomness_tasks_cache.wf()
        &&& self.randomness_signature_cache.wf()
    }

    /// A chain with empty caches, as the node starts serving it.
    pub fn new(identity: ChainIdentity) -> (r: Chain)
        ensures
            r.wf(),
            r.chain_id == identity.chain_id,
            r.identity.chain_id == identity.chain_id,
            r.identity.provider_rpc_endpoint@ == identity.provider_rpc_endpoint@,
            r.identity.contract_address@ == identity.contract_address@,
            r.block_cache.spec_block_height() == 0,
            r.randomness_tasks_cache@.len() == 0,
            r.randomness_signature_cache@.len() == 0,
            r.group_relay_confirmation_tasks_cache@.len() == 0,
    {
        let chain_id = identity.chain_id;
        Chain {
            chain_id,
            identity,
            block_cache: BlockInfoCache::new(chain_id),
            randomness_tasks_cache: BLSTasksCache::new(),
            randomness_signature_cache: InMemorySignatureResultCache::new(),
            group_relay_confirmation_tasks_cache: GroupRelayConfirmationTasksCache::new(),
        }
    }
}

/// One background loop the shell must keep running after deployment.
#[derive(Clone, Copy, Debug, PartialEq, Eq, Structural)]
pub enum ListenerKind {
    NewBlock,
    NewRandomnessTask,
    ReadyToHandleRandomnessTask,
    RandomnessSignatureAggregation,
    ReadyToHandleGroupRelayConfirmationTask,
}

/// A listener to start, bound to the chain it serves.
#[derive(Clone, Copy, Debug, PartialEq, Eq, Structural)]
pub struct ListenerDescriptor {
    pub kind: ListenerKind,
    pub chain_id: u32,
}

/// What `deploy` hands the shell: the listeners to start, and where
/// to serve the committer endpoint. The plan is only returned once
/// every subscriber is registered, so no listener can publish into an
/// empty queue.
pub struct DeployPlan {
    pub listeners: Vec<ListenerDescriptor>,
    pub committer_server_endpoint: String,
}

/// The listeners one chain runs: every chain watches blocks and
/// randomness tasks; adapter chains also watch group-relay
/// confirmations.
pub open spec fn spec_chain_listeners(chain_id: u32, adapter: bool) -> Seq<ListenerDescriptor> {
    let base = seq![
        ListenerDescriptor { kind: ListenerKind::NewBlock, chain_id },
        ListenerDescriptor { kind: ListenerKind::NewRandomnessTask, chain_id },
        ListenerDescriptor { kind: ListenerKind::ReadyToHandleRandomnessTask, chain_id },
        ListenerDescriptor { kind: ListenerKind::RandomnessSignatureAggregation, chain_id },
    ];
    if adapter {
        base.push(
            ListenerDescriptor {
                kind: ListenerKind::ReadyToHandleGroupRelayConfirmationTask,
                chain_id,
            },
        )
    } else {
        base
    }
}

/// The listeners of the whole node: the main chain's, then each
/// adapter chain's, in registration order.
pub open spec fn spec_deploy_listeners(main_chain_id: u32, adapter_ids: Seq<u32>) -> Seq<
    ListenerDescriptor,
>
    decreases adapter_ids.len(),
{
    if adapter_ids.len() == 0 {
        spec_chain_listeners(main_chain_id, false)
    } else {
        spec_deploy_listeners(main_chain_id, adapter_ids.drop_last()) + spec_chain_listeners(
            adapter_ids.last(),
            true,
        )
    }
}

/// The subscriber registrations deploy makes: one signing-pipeline
/// subscriber per chain, main chain first.
pub open spec fn spec_deploy_subscriptions(
    main_chain_id: u32,
    adapter_ids: Seq<u32>,
    node_address: Seq<u8>,
) -> Seq<(Topic, SubscriberImplView)>
    decreases adapter_ids.len(),
{
    if adapter_ids.len() == 0 {
        seq![
            (
                Topic::ReadyToHandleRandomnessTask(main_chain_id),
                SubscriberImplView::Randomness {
                    chain_id: main_chain_id,
                    id_address: node_address,
                },
            ),
        ]
    } else {
        spec_deploy_subscriptions(main_chain_id, adapter_ids.drop_last(), node_address).push(
            (
                Topic::ReadyToHandleRandomnessTask(adapter_ids.last()),
                SubscriberImplView::Randomness {
                    chain_id: adapter_ids.last(),
                    id_address: node_address,
                },
            ),
        )
    }
}

/// The chain ids of a row of chains, in order.
pub open spec fn chain_ids(s: Seq<Chain>) -> Seq<u32> {
    Seq::new(s.len(), |i: int| s[i].chain_id)
}

/// The root object: the main chain, the adapter chains, the event
/// queue, and the node's own identity and group. It wires the
/// topology up and routes committer requests to the right chain.
pub struct GeneralContext {
    pub main_chain: Chain,
    pub adapter_chains: Vec<Chain>,
    pub eq: EventQueue,
    pub node: NodeIdentity,
    pub group: Group,
}

impl GeneralContext {
    /// Whether some adapter chain carries this id.
    pub open spec fn spec_contains_adapter(&self, chain_id: u32) -> bool {
        exists|i: int|
            0 <= i < self.adapter_chains@.len() && (#[trigger] self.adapter_chains@[i]).chain_id
                == chain_id
    }

    /// Chains are well-formed and distinct by id, the queue routes
    /// only matching topics, and the group is usable.
    pub open spec fn wf(&self) -> bool {
        &&& self.main_chain.wf()
        &&& forall|i: int|
            0 <= i < self.adapter_chains@.len() ==> (#[trigger] self.adapter_chains@[i]).wf()
        &&& forall|i: int, j: int|
            0 <= i < j < self.adapter_chains@.len() ==> self.adapter_chains@[i].chain_id
                != self.adapter_chains@[j].chain_id
        &&& forall|i: int|
            0 <= i < self.adapter_chains@.len() ==> (#[trigger] self.adapter_chains@[i]).chain_id
                != self.main_chain.chain_id
        &&& self.eq.wf()
        &&& self.group.wf()
    }

    pub fn new(main_chain: Chain, node: NodeIdentity, group: Group) -> (r: GeneralContext)
        requires
            main_chain.wf(),
            group.wf(),
        ensures
            r.wf(),
            r.main_chain == main_chain,
            r.adapter_chains@.len() == 0,
            r.eq@.len() == 0,
            r.node == node,
            r.group == group,
    {
        GeneralContext {
            main_chain,
            adapter_chains: Vec::new(),
            eq: EventQueue::new(),
            node,
            group,
        }
    }

    /// Registers one more adapter chain. A chain id already in use,
    /// the main chain's included, is refused: chain ids key the
    /// caches, and a collision would let two chains' tasks meet.
    pub fn add_adapter_chain(&mut self, adapter_chain: Chain) -> (r: NodeResult<()>)
        requires
            old(self).wf(),
            adapter_chain.wf(),
        ensures
            final(self).wf(),
            r is Err <==> adapter_chain.chain_id == old(self).main_chain.chain_id || old(
                self,
            ).spec_contains_adapter(adapter_chain.chain_id),
            r matches Err(e) ==> e == NodeError::RepeatedChainId && final(self).adapter_chains@
                == old(self).adapter_chains@,
            r is Ok ==> final(self).adapter_chains@ == old(self).adapter_chains@.push(
                adapter_chain,
            ),
            final(self).main_chain == old(self).main_chain,
            final(self).eq@ == old(self).eq@,
            final(self).node == old(self).node,
            final(self).group == old(self).group,
    {
        if adapter_chain.chain_id == self.main_chain.chain_id {
            return Err(NodeError::RepeatedChainId);
        }
        if self.contains_chain(adapter_chain.chain_id) {
            return Err(NodeError::RepeatedChainId);
        }
        self.adapter_chains.push(adapter_chain);
        Ok(())
    }

    /// Whether this node serves an adapter chain under this id.
    pub fn contains_chain(&self, chain_id: u32) -> (r: bool)
        ensures
            r == self.spec_contains_adapter(chain_id),
    {
        let n = self.adapter_chains.len();
        let mut i: usize = 0;
        while i < n
            invariant
                n == self.adapter_chains@.len(),
                i <= n,
                forall|j: int| 0 <= j < i ==> self.adapter_chains@[j].chain_id != chain_id,
            decreases n - i,
        {
            if self.adapter_chains[i].chain_id == chain_id {
                return true;
            }
            i += 1;
        }
        false
    }

    pub fn get_adapter_chain(&self, chain_id: u32) -> (r: Option<&Chain>)
        ensures
            r is Some <==> self.spec_contains_adapter(chain_id),
            r matches Some(c) ==> c.chain_id == chain_id,
    {
        let n = self.adapter_chains.len();
        let mut i: usize = 0;
        while i < n
            invariant
                n == self.adapter_chains@.len(),
                i <= n,
                forall|j: int| 0 <= j < i ==> self.adapter_chains@[j].chain_id != chain_id,
            decreases n - i,
        {
            if self.adapter_chains[i].chain_id == chain_id {
                return Some(&self.adapter_chains[i]);
            }
            i += 1;
        }
        None
    }

    pub fn get_main_chain(&self) -> (r: &Chain)
        ensures
            r == &self.main_chain,
    {
        &self.main_chain
    }

    /// Wires the topology up: registers the signing-pipeline
    /// subscriber of every chain with the event queue, and only then
    /// hands back the plan of listeners for the shell to start, with
    /// the endpoint the committer server should listen on. Listeners
    /// thus never publish before every subscriber is in place.
    pub fn deploy(&mut self) -> (r: DeployPlan)
        requires
            old(self).wf(),
        ensures
            final(self).wf(),
            final(self).eq@ == old(self).eq@ + spec_deploy_subscriptions(
                old(self).main_chain.chain_id,
                chain_ids(old(self).adapter_chains@),
                old(self).node.id_address@,
            ),
            r.listeners@ == spec_deploy_listeners(
                old(self).main_chain.chain_id,
                chain_ids(old(self).adapter_chains@),
            ),
            r.committer_server_endpoint@ == old(self).node.node_rpc_endpoint@,
            final(self).main_chain == old(self).main_chain,
            final(self).adapter_chains@ == old(self).adapter_chains@,
            final(self).node == old(self).node,
            final(self).group == old(self).group,
    {
        let ghost pre_eq = self.eq@;
        let ghost ids = chain_ids(self.adapter_chains@);
        let main_id = self.main_chain.chain_id;
        let main_subscriber = ReadyToHandleRandomnessTaskSubscriber::new(
            main_id,
            self.node.id_address.clone(),
        );
        let sub_result = main_subscriber.subscribe(&mut self.eq);
        proof {
            assert(sub_result is Ok);
            assert(self.eq@ =~= pre_eq + spec_deploy_subscriptions(
                main_id,
                ids.take(0),
                self.node.id_address@,
            ));
        }
        let mut listeners: Vec<ListenerDescriptor> = Vec::new();
        listeners.push(ListenerDescriptor { kind: ListenerKind::NewBlock, chain_id: main_id });
        listeners.push(
            ListenerDescriptor { kind: ListenerKind::NewRandomnessTask, chain_id: main_id },
        );
        listeners.push(
            ListenerDescriptor {
                kind: ListenerKind::ReadyToHandleRandomnessTask,
                chain_id: main_id,
            },
        );
        listeners.push(
            ListenerDescriptor {
                kind: ListenerKind::RandomnessSignatureAggregation,
                chain_id: main_id,
            },
        );
        proof {
            assert(listeners@ =~= spec_deploy_listeners(main_id, ids.take(0)));
        }
        let n = self.adapter_chains.len();
        let mut i: usize = 0;
        while i < n
            invariant
                self.wf(),
                n == self.adapter_chains@.len(),
                i <= n,
                ids == chain_ids(self.adapter_chains@),
                main_id == self.main_chain.chain_id,
                pre_eq == old(self).eq@,
                self.main_chain == old(self).main_chain,
                self.adapter_chains@ == old(self).adapter_chains@,
                self.node == old(self).node,
                self.group == old(self).group,
                self.eq@ == pre_eq + spec_deploy_subscriptions(
                    main_id,
                    ids.take(i as int),
                    self.node.id_address@,
                ),
                listeners@ == spec_deploy_listeners(main_id, ids.take(i as int)),
            decreases n - i,
        {
            let chain_id = self.adapter_chains[i].chain_id;
            let ghost eq_before = self.eq@;
            let subscriber = ReadyToHandleRandomnessTaskSubscriber::new(
                chain_id,
                self.node.id_address.clone(),
            );
            let sub_result = subscriber.subscribe(&mut self.eq);
            listeners.push(ListenerDescriptor { kind: ListenerKind::NewBlock, chain_id });
            listeners.push(ListenerDescriptor { kind: ListenerKind::NewRandomnessTask, chain_id });
            listeners.push(
                ListenerDescriptor { kind: ListenerKind::ReadyToHandleRandomnessTask, chain_id },
            );
            listeners.push(
                ListenerDescriptor {
                    kind: ListenerKind::RandomnessSignatureAggregation,
                    chain_id,
                },
            );
            listeners.push(
                ListenerDescriptor {
                    kind: ListenerKind::ReadyToHandleGroupRelayConfirmationTask,
                    chain_id,
                },
            );
            proof {
                assert(sub_result is Ok);
                assert(ids.take(i + 1).drop_last() =~= ids.take(i as int));
                assert(ids.take(i + 1).last() == chain_id);
                assert(self.eq@ =~= pre_eq + spec_deploy_subscriptions(
                    main_id,
                    ids.take(i + 1),
                    self.node.id_address@,
                ));
                assert(listeners@ =~= spec_deploy_listeners(main_id, ids.take(i + 1)));
            }
            i += 1;
        }
        proof {
            assert(ids.take(n as int) =~= ids);
        }
        let committer_server_endpoint = clone_string(&self.node.node_rpc_endpoint);
        DeployPlan { listeners, committer_server_endpoint }
    }

    /// Routes a committer request to the chain it names and lets the
    /// server logic decide it there. A request for a chain this node
    /// does not serve is refused; every other chain's cache is left
    /// untouched.
    pub fn handle_commit_partial_signature_request<B: BLSCore>(
        &mut self,
        bls: &B,
        req: &CommitPartialSignatureRequest,
    ) -> (r: NodeResult<CommitPartialSignatureReply>)
        requires
            old(self).wf(),
        ensures
            final(self).wf(),
            final(self).eq@ == old(self).eq@,
            final(self).node == old(self).node,
            final(self).group == old(self).group,
            req.chain_id != old(self).main_chain.chain_id && !old(self).spec_contains_adapter(
                req.chain_id,
            ) ==> r == Result::<CommitPartialSignatureReply, NodeError>::Err(NodeError::InvalidChainId)
                && final(self).main_chain == old(self).main_chain && final(self).adapter_chains@
                == old(self).adapter_chains@,
            req.chain_id == old(self).main_chain.chain_id ==> {
                &&& final(self).adapter_chains@ == old(self).adapter_chains@
                &&& (r is Ok <==> spec_request_accepted(
                    *bls,
                    old(self).node.id_address@,
                    old(self).group,
                    req@,
                ))
                &&& final(self).main_chain.randomness_signature_cache@ == spec_server_cache_post(
                    *bls,
                    old(self).node.id_address@,
                    old(self).group,
                    old(self).main_chain.randomness_signature_cache@,
                    req@,
                )
                &&& final(self).main_chain.chain_id == old(self).main_chain.chain_id
                &&& final(self).main_chain.block_cache == old(self).main_chain.block_cache
                &&& final(self).main_chain.randomness_tasks_cache == old(
                    self,
                ).main_chain.randomness_tasks_cache
                &&& final(self).main_chain.group_relay_confirmation_tasks_cache == old(
                    self,
                ).main_chain.group_relay_confirmation_tasks_cache
            },
            req.chain_id != old(self).main_chain.chain_id && old(self).spec_contains_adapter(
                req.chain_id,
            ) ==> {
                &&& final(self).main_chain == old(self).main_chain
                &&& (r is Ok <==> spec_request_accepted(
                    *bls,
                    old(self).node.id_address@,
                    old(self).group,
                    req@,
                ))
                &&& final(self).adapter_chains@.len() == old(self).adapter_chains@.len()
                &&& forall|k: int|
                    0 <= k < old(self).adapter_chains@.len() && old(
                        self,
                    ).adapter_chains@[k].chain_id != req.chain_id ==> final(self).adapter_chains@[k] == old(self).adapter_chains@[k]
                &&& forall|k: int|
                    0 <= k < old(self).adapter_chains@.len() && old(
                        self,
                    ).adapter_chains@[k].chain_id == req.chain_id ==> {
                        let post = #[trigger] final(self).adapter_chains@[k];
                        let pre = old(self).adapter_chains@[k];
                        &&& post.randomness_signature_cache@ == spec_server_cache_post(
                            *bls,
                            old(self).node.id_address@,
                            old(self).group,
                            pre.randomness_signature_cache@,
                            req@,
                        )
                        &&& post.chain_id == pre.chain_id
                        &&& post.identity == pre.identity
                        &&& post.block_cache == pre.block_cache
                        &&& post.randomness_tasks_cache == pre.randomness_tasks_cache
                        &&& post.group_relay_confirmation_tasks_cache
                            == pre.group_relay_confirmation_tasks_cache
                    }
            },
    {
        if req.chain_id == self.main_chain.chain_id {
            return commit_partial_signature(
                bls,
                &self.node.id_address,
                &self.group,
                &mut self.main_chain.randomness_signature_cache,
                req,
            );
        }
        let n = self.adapter_chains.len();
        let mut i: usize = 0;
        while i < n
            invariant
                *self == *old(self),
                old(self).wf(),
                req.chain_id != self.main_chain.chain_id,
                n == self.adapter_chains@.len(),
                i <= n,
                forall|j: int| 0 <= j < i ==> self.adapter_chains@[j].chain_id != req.chain_id,
            decreases n - i,
        {
            if self.adapter_chains[i].chain_id == req.chain_id {
                let ghost pre_chains = self.adapter_chains@;
                let chain = &mut self.adapter_chains[i];
                let r = commit_partial_signature(
                    bls,
                    &self.node.id_address,
                    &self.group,
                    &mut chain.randomness_signature_cache,
                    req,
                );
                proof {
                    assert(self.adapter_chains@.len() == pre_chains.len());
                    assert(forall|k: int|
                        0 <= k < pre_chains.len() && k != i as int ==> self.adapter_chains@[k]
                            == pre_chains[k]);
                    assert(self.adapter_chains@[i as int].chain_id == pre_chains[i as int].chain_id);
                    assert(self.adapter_chains@[i as int].randomness_tasks_cache == pre_chains[
                        i as int
                    ].randomness_tasks_cache);
                    assert(self.wf());
                }
                return r;
            }
            i += 1;
        }
        Err(NodeError::InvalidChainId)
    }
}

/// The signature cache a committer request leaves behind: untouched
/// on a rejected request, except that a partial failing its check
/// still leaves the freshly located entry; extended by the sender's
/// partial on an accepted one.
pub open spec fn spec_server_cache_post<B: BLSCore>(
    bls: B,
    receiver: Seq<u8>,
    group: Group,
    pre: Seq<RandomnessResultCacheView>,
    req: crate::committer::CommitPartialSignatureRequestView,
) -> Seq<RandomnessResultCacheView> {
    if !group.state || !group.spec_is_committer(receiver)
        || !crate::address::spec_is_address_hex(req.id_address) || !group.spec_is_member(
        crate::address::spec_parsed_address(req.id_address),
    ) {
        pre
    } else if !spec_request_accepted(bls, receiver, group, req) {
        spec_ensure_entry(pre, group.index, req.signature_index as u64, req.message, group.threshold)
    } else {
        spec_cache_after_commit(pre, group, req)
    }
}

/// Every partial the committer server ever records was sent by a
/// current group member, whatever request arrives: the member-only
/// invariant of the signature cache survives each served request.
pub proof fn lemma_server_keeps_member_keys<B: BLSCore>(
    bls: B,
    receiver: Seq<u8>,
    group: Group,
    pre: Seq<RandomnessResultCacheView>,
    req: crate::committer::CommitPartialSignatureRequestView,
)
    requires
        crate::sig_cache::cache_keys_are_members(pre, group),
    ensures
        crate::sig_cache::cache_keys_are_members(
            spec_server_cache_post(bls, receiver, group, pre, req),
            group,
        ),
{
    let located = spec_ensure_entry(
        pre,
        group.index,
        req.signature_index as u64,
        req.message,
        group.threshold,
    );
    crate::sig_cache::lemma_ensure_entry_keeps_member_keys(
        pre,
        group,
        group.index,
        req.signature_index as u64,
        req.message,
        group.threshold,
    );
    if group.state && group.spec_is_committer(receiver) && crate::address::spec_is_address_hex(
        req.id_address,
    ) && group.spec_is_member(crate::address::spec_parsed_address(req.id_address)) {
        if spec_request_accepted(bls, receiver, group, req) {
            crate::sig_cache::lemma_add_partial_keeps_member_keys(
                located,
                group,
                req.signature_index as u64,
                crate::address::spec_parsed_address(req.id_address),
                req.partial_signature,
            );
        }
    }
}

} // verus!
