use vstd::prelude::*;

use crate::address::Address;
use crate::bls::{BLSCore, MockBLSCore};
use crate::committer::{
    prepare_committer_clients, spec_commit_request, spec_peer_endpoints,
    CommitPartialSignatureRequest, CommitPartialSignatureRequestView,
};
use crate::errors::{NodeError, NodeResult};
use crate::event::{Event, Topic};
use crate::event_queue::EventQueue;
use crate::group::Group;
use crate::sig_cache::{
    spec_add_partial, spec_ensure_entry, InMemorySignatureResultCache, RandomnessResultCacheView,
};
use crate::task_cache::task_views;
use crate::types::{clone_bytes, clone_tasks, RandomnessTask, RandomnessTaskView, TaskType};

verus! {

/// A partial signature bound for one committer peer, ready for the
/// shell to carry over the wire.
pub struct OutboundCommitRequest {
    pub endpoint: String,
    pub request: CommitPartialSignatureRequest,
}

/// The ghost mirror of an outbound request.
#[verifier::ext_equal]
pub struct OutboundCommitRequestView {
    pub endpoint: Seq<char>,
    pub request: CommitPartialSignatureRequestView,
}

impl View for OutboundCommitRequest {
    type V = OutboundCommitRequestView;

    open spec fn view(&self) -> OutboundCommitRequestView {
        OutboundCommitRequestView { endpoint: self.endpoint@, request: self.request@ }
    }
}

/// The ghost mirrors of a list of outbound requests.
pub open spec fn outbound_views(s: Seq<OutboundCommitRequest>) -> Seq<OutboundCommitRequestView> {
    Seq::new(s.len(), |i: int| s[i]@)
}

/// What one signed task sends out: a copy of the request to each
/// committer peer, in peer order.
pub open spec fn spec_task_outbound(
    self_addr: Seq<u8>,
    chain_id: u32,
    endpoints: Seq<Seq<char>>,
    task: RandomnessTaskView,
    partial: Seq<u8>,
) -> Seq<OutboundCommitRequestView> {
    Seq::new(
        endpoints.len(),
        |i: int|
            OutboundCommitRequestView {
                endpoint: endpoints[i],
                request: spec_commit_request(
                    self_addr,
                    chain_id,
                    TaskType::Randomness,
                    task.message,
                    task.index,
                    partial,
                ),
            },
    )
}

/// The signature cache after the signing handler worked through a
/// list of tasks: for each task whose index fits the wire, a node
/// that is itself a committer makes sure the task has an entry and
/// records its own partial there. A task with an oversized index is
/// dropped as malformed; on a non-committer the cache is never
/// touched.
pub open spec fn spec_handle_cache<B: BLSCore>(
    bls: B,
    pre: Seq<RandomnessResultCacheView>,
    group: Group,
    self_addr: Seq<u8>,
    share: Seq<u8>,
    tasks: Seq<RandomnessTaskView>,
) -> Seq<RandomnessResultCacheView>
    decreases tasks.len(),
{
    if tasks.len() == 0 {
        pre
    } else {
        let rest = spec_handle_cache(bls, pre, group, self_addr, share, tasks.drop_last());
        let t = tasks.last();
        if t.index <= u32::MAX as u64 && group.spec_is_committer(self_addr) {
            spec_add_partial(
                spec_ensure_entry(rest, group.index, t.index, t.message, group.threshold),
                t.index,
                self_addr,
                bls.partial_sign_spec(share, t.message),
            )
        } else {
            rest
        }
    }
}

/// Everything the signing handler sends out for a list of tasks: per
/// workable task, one request to each committer peer.
pub open spec fn spec_handle_outbound<B: BLSCore>(
    bls: B,
    group: Group,
    self_addr: Seq<u8>,
    share: Seq<u8>,
    chain_id: u32,
    tasks: Seq<RandomnessTaskView>,
) -> Seq<OutboundCommitRequestView>
    decreases tasks.len(),
{
    if tasks.len() == 0 {
        Seq::empty()
    } else {
        let prefix = spec_handle_outbound(bls, group, self_addr, share, chain_id, tasks.drop_last());
        let t = tasks.last();
        if t.index <= u32::MAX as u64 {
            prefix + spec_task_outbound(
                self_addr,
                chain_id,
                spec_peer_endpoints(group, self_addr),
                t,
                bls.partial_sign_spec(share, t.message),
            )
        } else {
            prefix
        }
    }
}

/// A one-shot signing job: sign each task, record the own partial
/// when the node is a committer, and push the partial to every
/// committer peer.
pub trait RandomnessHandler: Sized {
    spec fn spec_chain_id(&self) -> u32;

    spec fn spec_id_address(&self) -> Seq<u8>;

    spec fn spec_tasks(&self) -> Seq<RandomnessTaskView>;

    /// Works through the handler's tasks against the given group and
    /// signature cache, as the mock backend signs them. Fails only
    /// while the group holds no share yet; the returned requests are
    /// for the shell to deliver, retrying as configured.
    fn handle(self, group: &Group, randomness_signature_cache: &mut InMemorySignatureResultCache) -> (r:
        NodeResult<Vec<OutboundCommitRequest>>)
        requires
            group.wf(),
            old(randomness_signature_cache).wf(),
        ensures
            final(randomness_signature_cache).wf(),
            r is Err <==> group.share is None,
            r matches Err(e) ==> e == NodeError::GroupNotReady
                && final(randomness_signature_cache)@ == old(randomness_signature_cache)@,
            r is Ok ==> final(randomness_signature_cache)@ == spec_handle_cache(
                MockBLSCore {  },
                old(randomness_signature_cache)@,
                *group,
                self.spec_id_address(),
                group.share.unwrap()@,
                self.spec_tasks(),
            ),
            r matches Ok(v) ==> outbound_views(v@) == spec_handle_outbound(
                MockBLSCore {  },
                *group,
                self.spec_id_address(),
                group.share.unwrap()@,
                self.spec_chain_id(),
                self.spec_tasks(),
            ),
    ;
}

/// The signing handler spawned for `ReadyToHandleRandomnessTask`
/// events, owning its inputs by move.
pub struct MockRandomnessHandler {
    pub chain_id: u32,
    pub id_address: Address,
    pub tasks: Vec<RandomnessTask>,
}

impl MockRandomnessHandler {
    pub fn new(chain_id: u32, id_address: Address, tasks: Vec<RandomnessTask>) -> (r:
        MockRandomnessHandler)
        ensures
            r.spec_chain_id() == chain_id,
            r.spec_id_address() == id_address@,
            r.spec_tasks() == task_views(tasks@),
    {
        MockRandomnessHandler { chain_id, id_address, tasks }
    }
}

impl RandomnessHandler for MockRandomnessHandler {
    open spec fn spec_chain_id(&self) -> u32 {
        self.chain_id
    }

    open spec fn spec_id_address(&self) -> Seq<u8> {
        self.id_address@
    }

    open spec fn spec_tasks(&self) -> Seq<RandomnessTaskView> {
        task_views(self.tasks@)
    }

    fn handle(self, group: &Group, randomness_signature_cache: &mut InMemorySignatureResultCache) -> (r:
        NodeResult<Vec<OutboundCommitRequest>>)
    {
        let bls = MockBLSCore {  };
        let share = match group.get_secret_share() {
            Ok(s) => s,
            Err(e) => {
                return Err(e);
            },
        };
        let is_committer = group.is_committer(&self.id_address);
        let clients = prepare_committer_clients(&self.id_address, group);
        let ghost self_addr = self.id_address@;
        let ghost share_view = share@;
        let ghost all_tasks = task_views(self.tasks@);
        let ghost pre_cache = randomness_signature_cache@;
        let ghost endpoints = spec_peer_endpoints(*group, self_addr);
        proof {
            let cv = crate::committer::client_views(clients@);
            let target = Seq::new(
                endpoints.len(),
                |k: int| (self_addr, spec_peer_endpoints(*group, self_addr)[k]),
            );
            assert(cv =~= target);
            assert(cv.len() == clients@.len());
            assert(clients@.len() == endpoints.len());
            assert forall|k: int| 0 <= k < clients@.len() implies (#[trigger] clients@[k]).spec_id_address()
                == self_addr && clients@[k].spec_committer_endpoint() == endpoints[k] by {
                assert(cv[k] == (clients@[k].spec_id_address(), clients@[k].spec_committer_endpoint()));
                assert(cv[k] == (self_addr, endpoints[k]));
            }
            assert(client_views_match(clients@, self_addr, endpoints));
        }
        let mut outbound: Vec<OutboundCommitRequest> = Vec::new();
        let n = self.tasks.len();
        let mut ti: usize = 0;
        proof {
            assert(all_tasks.take(0) =~= Seq::<RandomnessTaskView>::empty());
            assert(outbound_views(outbound@) =~= spec_handle_outbound(
                bls,
                *group,
                self_addr,
                share_view,
                self.chain_id,
                all_tasks.take(0),
            ));
        }
        while ti < n
            invariant
                group.wf(),
                randomness_signature_cache.wf(),
                n == self.tasks@.len(),
                ti <= n,
                all_tasks == task_views(self.tasks@),
                self_addr == self.id_address@,
                share_view == share@,
                endpoints == spec_peer_endpoints(*group, self_addr),
                is_committer == group.spec_is_committer(self_addr),
                client_views_match(clients@, self_addr, endpoints),
                randomness_signature_cache@ == spec_handle_cache(
                    bls,
                    pre_cache,
                    *group,
                    self_addr,
                    share_view,
                    all_tasks.take(ti as int),
                ),
                outbound_views(outbound@) == spec_handle_outbound(
                    bls,
                    *group,
                    self_addr,
                    share_view,
                    self.chain_id,
                    all_tasks.take(ti as int),
                ),
            decreases n - ti,
        {
            let ghost out_before = outbound_views(outbound@);
            let ghost t = all_tasks[ti as int];
            if self.tasks[ti].index <= 0xFFFF_FFFFu64 {
                let partial = bls.partial_sign(&share, &self.tasks[ti].message);
                if is_committer {
                    randomness_signature_cache.add(
                        group.get_index(),
                        self.tasks[ti].index,
                        clone_bytes(&self.tasks[ti].message),
                        group.get_threshold(),
                    );
                    match randomness_signature_cache.add_partial_signature(
                        self.tasks[ti].index,
                        self.id_address.clone(),
                        clone_bytes(&partial),
                    ) {
                        Ok(_) => (),
                        Err(_) => {
                            proof {
                                assert(false);
                            }
                        },
                    }
                }
                let m = clients.len();
                let mut ci: usize = 0;
                proof {
                    assert(out_before + spec_task_outbound(
                        self_addr,
                        self.chain_id,
                        endpoints.take(0),
                        t,
                        partial@,
                    ) =~= out_before);
                }
                while ci < m
                    invariant
                        m == clients@.len(),
                        ci <= m,
                        self_addr == self.id_address@,
                        endpoints.len() == m,
                        client_views_match(clients@, self_addr, endpoints),
                        t.index <= u32::MAX as u64,
                        partial@ == bls.partial_sign_spec(share_view, t.message),
                        t.message == self.tasks@[ti as int]@.message,
                        t.index == self.tasks@[ti as int]@.index,
                        ti < n,
                        n == self.tasks@.len(),
                        outbound_views(outbound@) == out_before + spec_task_outbound(
                            self_addr,
                            self.chain_id,
                            endpoints.take(ci as int),
                            t,
                            partial@,
                        ),
                    decreases m - ci,
                {
                    let ghost out_mid = outbound_views(outbound@);
                    let request = clients[ci].commit_partial_signature_request(
                        self.chain_id,
                        TaskType::Randomness,
                        clone_bytes(&self.tasks[ti].message),
                        self.tasks[ti].index,
                        clone_bytes(&partial),
                    );
                    let endpoint = String::from_str(clients[ci].get_committer_endpoint());
                    let ghost req_view = request@;
                    let ghost ep_view = endpoint@;
                    outbound.push(OutboundCommitRequest { endpoint, request });
                    proof {
                        assert(clients@[ci as int].spec_id_address() == self_addr);
                        assert(ep_view == endpoints[ci as int]);
                        assert(req_view == spec_commit_request(
                            self_addr,
                            self.chain_id,
                            TaskType::Randomness,
                            t.message,
                            t.index,
                            partial@,
                        ));
                        assert(outbound_views(outbound@) =~= out_mid.push(
                            OutboundCommitRequestView { endpoint: ep_view, request: req_view },
                        ));
                        assert(outbound_views(outbound@) =~= out_before + spec_task_outbound(
                            self_addr,
                            self.chain_id,
                            endpoints.take(ci + 1),
                            t,
                            partial@,
                        ));
                    }
                    ci += 1;
                }
                proof {
                    assert(endpoints.take(m as int) =~= endpoints);
                }
            }
            proof {
                assert(all_tasks.take(ti + 1).drop_last() =~= all_tasks.take(ti as int));
                assert(all_tasks.take(ti + 1).last() == t);
                assert(randomness_signature_cache@ == spec_handle_cache(
                    bls,
                    pre_cache,
                    *group,
                    self_addr,
                    share_view,
                    all_tasks.take(ti + 1),
                ));
                assert(outbound_views(outbound@) =~= spec_handle_outbound(
                    bls,
                    *group,
                    self_addr,
                    share_view,
                    self.chain_id,
                    all_tasks.take(ti + 1),
                ));
            }
            ti += 1;
        }
        proof {
            assert(all_tasks.take(n as int) =~= all_tasks);
        }
        Ok(outbound)
    }
}

/// Whether a list of wire clients carries this sender to exactly
/// these endpoints, in order.
pub open spec fn client_views_match(
    clients: Seq<crate::committer::MockCommitterClient>,
    self_addr: Seq<u8>,
    endpoints: Seq<Seq<char>>,
) -> bool {
    &&& clients.len() == endpoints.len()
    &&& forall|i: int|
        0 <= i < clients.len() ==> (#[trigger] clients[i]).spec_id_address() == self_addr
            && clients[i].spec_committer_endpoint() == endpoints[i]
}

/// What a notified subscriber asks the dynamic scheduler to run.
pub enum HandlerTask {
    Randomness(MockRandomnessHandler),
}

/// The ghost mirror of a scheduled handler.
pub enum HandlerTaskView {
    Randomness { chain_id: u32, id_address: Seq<u8>, tasks: Seq<RandomnessTaskView> },
}

impl View for HandlerTask {
    type V = HandlerTaskView;

    open spec fn view(&self) -> HandlerTaskView {
        match self {
            HandlerTask::Randomness(h) => HandlerTaskView::Randomness {
                chain_id: h.chain_id,
                id_address: h.id_address@,
                tasks: task_views(h.tasks@),
            },
        }
    }
}

/// The ghost mirrors of a list of scheduled handlers.
pub open spec fn handler_task_views(s: Seq<HandlerTask>) -> Seq<HandlerTaskView> {
    Seq::new(s.len(), |i: int| s[i]@)
}

/// An event-to-handler router: registered on one topic, it turns each
/// event delivered there into handler jobs for the dynamic scheduler.
/// An event of any other topic is a wiring fault and is refused.
pub trait Subscriber: Sized {
    /// The one topic this subscriber belongs on.
    spec fn spec_topic(&self) -> Topic;

    /// What `notify` answers for an event.
    spec fn spec_notify(&self, event: &Event) -> NodeResult<Seq<HandlerTaskView>>;

    fn topic(&self) -> (t: Topic)
        ensures
            t == self.spec_topic(),
    ;

    fn notify(&self, event: &Event) -> (r: NodeResult<Vec<HandlerTask>>)
        ensures
            r is Ok <==> self.spec_notify(event) is Ok,
            r matches Ok(v) ==> self.spec_notify(event) matches Ok(s) && handler_task_views(v@)
                == s,
            r matches Err(e) ==> self.spec_notify(event) matches Err(e2) && e == e2,
    ;
}

/// Routes `ReadyToHandleRandomnessTask` events into signing handlers.
pub struct ReadyToHandleRandomnessTaskSubscriber {
    pub chain_id: u32,
    pub id_address: Address,
}

impl ReadyToHandleRandomnessTaskSubscriber {
    pub open spec fn spec_id_address(&self) -> Seq<u8> {
        self.id_address@
    }

    pub fn new(chain_id: u32, id_address: Address) -> (r: ReadyToHandleRandomnessTaskSubscriber)
        ensures
            r.chain_id == chain_id,
            r.spec_id_address() == id_address@,
    {
        ReadyToHandleRandomnessTaskSubscriber { chain_id, id_address }
    }

    /// Registers this subscriber with the event queue under its own
    /// topic; `deploy` calls this before any listener starts.
    pub fn subscribe(self, eq: &mut EventQueue) -> (r: NodeResult<()>)
        requires
            old(eq).wf(),
        ensures
            final(eq).wf(),
            r is Ok,
            final(eq)@ == old(eq)@.push(
                (
                    Topic::ReadyToHandleRandomnessTask(self.chain_id),
                    crate::event_queue::SubscriberImplView::Randomness {
                        chain_id: self.chain_id,
                        id_address: self.spec_id_address(),
                    },
                ),
            ),
    {
        let topic = Topic::ReadyToHandleRandomnessTask(self.chain_id);
        eq.subscribe(topic, crate::event_queue::SubscriberImpl::Randomness(self))
    }
}

impl Subscriber for ReadyToHandleRandomnessTaskSubscriber {
    open spec fn spec_topic(&self) -> Topic {
        Topic::ReadyToHandleRandomnessTask(self.chain_id)
    }

    open spec fn spec_notify(&self, event: &Event) -> NodeResult<Seq<HandlerTaskView>> {
        match event {
            Event::ReadyToHandleRandomnessTask(p) => Ok(
                seq![
                    HandlerTaskView::Randomness {
                        chain_id: self.chain_id,
                        id_address: self.spec_id_address(),
                        tasks: task_views(p.tasks@),
                    },
                ],
            ),
            _ => Err(NodeError::SubscriberOnWrongTopic),
        }
    }

    fn topic(&self) -> (t: Topic) {
        Topic::ReadyToHandleRandomnessTask(self.chain_id)
    }

    fn notify(&self, event: &Event) -> (r: NodeResult<Vec<HandlerTask>>) {
        match event {
            Event::ReadyToHandleRandomnessTask(p) => {
                let cloned = clone_tasks(&p.tasks);
                proof {
                    assert(task_views(cloned@) =~= task_views(p.tasks@));
                }
                let handler = MockRandomnessHandler::new(
                    self.chain_id,
                    self.id_address.clone(),
                    cloned,
                );
                let mut jobs: Vec<HandlerTask> = Vec::new();
                jobs.push(HandlerTask::Randomness(handler));
                proof {
                    assert(handler_task_views(jobs@) =~= self.spec_notify(event).unwrap());
                }
                Ok(jobs)
            },
            _ => Err(NodeError::SubscriberOnWrongTopic),
        }
    }
}

} // verus!
