use randcast_node::address::Address;
use randcast_node::bls::{BLSCore, MockBLSCore};
use randcast_node::context::{Chain, GeneralContext, ListenerKind};
use randcast_node::committer::MockCommitterClient;
use randcast_node::errors::NodeError;
use randcast_node::event::{Event, ReadyToHandleRandomnessTask, Topic};
use randcast_node::event_queue::{EventQueue, SubscriberImpl};
use randcast_node::fulfillment::{confirm_fulfillment, prepare_fulfillment, FulfillmentAction};
use randcast_node::group::{Group, Member};
use randcast_node::listener::{
    MockNewRandomnessTaskListener, RandomnessSignatureAggregationListener,
    ReadyToHandleRandomnessTaskListener,
};
use randcast_node::retry::{
    FixedIntervalRetry, COMMITTER_RETRY_MAX_ATTEMPTS, RETRY_INTERVAL_MILLIS,
};
use randcast_node::sig_cache::InMemorySignatureResultCache;
use randcast_node::subscriber::{
    HandlerTask, MockRandomnessHandler, RandomnessHandler, ReadyToHandleRandomnessTaskSubscriber,
};
use randcast_node::types::{ChainIdentity, NodeIdentity, RandomnessTask, TaskType};

fn addr(byte: u8) -> Address {
    Address::new(vec![byte; 20]).unwrap()
}

fn member(byte: u8, index: u32, public_key: &[u8]) -> Member {
    Member {
        id_address: addr(byte),
        index,
        rpc_endpoint: format!("127.0.0.1:500{}", index + 1),
        partial_public_key: public_key.to_vec(),
    }
}

/// A DKG-complete threshold-3 group of three; under the mock backend
/// every share and partial public key equals the group public key.
fn group_of_three(committers: Vec<Address>) -> Group {
    let pk = b"group-public-key".to_vec();
    Group {
        index: 0,
        epoch: 1,
        size: 3,
        threshold: 3,
        state: true,
        public_key: pk.clone(),
        members: vec![member(1, 0, &pk), member(2, 1, &pk), member(3, 2, &pk)],
        committers,
        share: Some(pk),
    }
}

fn node_context(main_chain_id: u32, committers: Vec<Address>) -> GeneralContext {
    let identity = ChainIdentity::new(main_chain_id, "http://main".to_string(), addr(0x20));
    let chain = Chain::new(identity);
    let node = NodeIdentity::new(addr(1), "127.0.0.1:50000".to_string(), vec![1], vec![2]);
    GeneralContext::new(chain, node, group_of_three(committers))
}

fn push_peer_partial(ctx: &mut GeneralContext, sender: u8, chain_id: u32, task_index: u64, message: &[u8]) {
    let bls = MockBLSCore {};
    let partial = bls.partial_sign(ctx.group.share.as_ref().unwrap(), &message.to_vec());
    let client = MockCommitterClient::new(addr(sender), "127.0.0.1:50000".to_string());
    let req = client.commit_partial_signature_request(
        chain_id,
        TaskType::Randomness,
        message.to_vec(),
        task_index,
        partial,
    );
    let reply = ctx.handle_commit_partial_signature_request(&bls, &req).unwrap();
    assert!(reply.result);
}

#[test]
fn happy_path_single_chain() {
    // Chain emits task {index=7, message=0xdeadbeef, group=0, height=100};
    // all three members of a threshold-3 group sign and push to the
    // committer, which aggregates, submits, and never re-emits index 7.
    let bls = MockBLSCore {};
    let chain_id = 10u32;
    let mut ctx = node_context(chain_id, vec![addr(1)]);
    let plan = ctx.deploy();
    assert_eq!(plan.listeners.len(), 4);
    assert!(plan.listeners.iter().any(|l| l.kind == ListenerKind::RandomnessSignatureAggregation));
    assert_eq!(plan.committer_server_endpoint, "127.0.0.1:50000");

    let message = vec![0xde, 0xad, 0xbe, 0xef];
    let task = RandomnessTask::new(7, message.clone(), 0, 100);

    // the task listener caches and announces the assignment
    let task_listener = MockNewRandomnessTaskListener::new(chain_id, addr(1));
    let announced = task_listener.tick(task, &mut ctx.main_chain.randomness_tasks_cache).unwrap();
    assert_eq!(announced.task.index, 7);

    // the chain reaches the assignment height; the task becomes workable
    ctx.main_chain.block_cache.set_block_height(100);
    let ready_listener = ReadyToHandleRandomnessTaskListener::new(chain_id);
    let ready = ready_listener
        .tick(&ctx.group, &ctx.main_chain.block_cache, &mut ctx.main_chain.randomness_tasks_cache)
        .unwrap();
    assert_eq!(ready.tasks.len(), 1);

    // the event queue routes the readiness to the signing subscriber
    let deliveries = ctx.eq.publish(&Event::ReadyToHandleRandomnessTask(ready));
    assert_eq!(deliveries.len(), 1);
    assert_eq!(deliveries[0].actions.len(), 1);
    let first_delivery = deliveries.into_iter().next().unwrap();
    let HandlerTask::Randomness(handler) = first_delivery.actions.into_iter().next().unwrap();

    // the local node signs; it is itself the committer, so its own
    // partial lands in the signature cache; no other committers exist
    let outbound = handler
        .handle(&ctx.group, &mut ctx.main_chain.randomness_signature_cache)
        .unwrap();
    assert_eq!(outbound.len(), 0);

    // the two peers push their partials through the committer endpoint
    push_peer_partial(&mut ctx, 2, chain_id, 7, &message);
    push_peer_partial(&mut ctx, 3, chain_id, 7, &message);

    // the aggregation listener finds the quorum on its next tick
    let agg_listener = RandomnessSignatureAggregationListener::new(chain_id, addr(1));
    let to_fulfill = agg_listener
        .tick(&ctx.group, &ctx.main_chain.randomness_signature_cache)
        .unwrap();
    assert_eq!(to_fulfill.tasks.len(), 1);

    // aggregation verifies under the group key and yields a submission
    let action = prepare_fulfillment(&bls, &ctx.group, &to_fulfill.tasks[0]);
    let submission = match action {
        FulfillmentAction::Submit(s) => s,
        _ => panic!("expected a submission"),
    };
    assert_eq!(submission.task_index, 7);
    assert_eq!(submission.group_index, 0);
    assert_eq!(submission.partials.len(), 3);
    assert!(bls.verify(&ctx.group.public_key, &message, &submission.signature));

    // the chain confirmed: mark committed; the tick never re-emits 7
    confirm_fulfillment(&mut ctx.main_chain.randomness_signature_cache, 7).unwrap();
    assert!(agg_listener.tick(&ctx.group, &ctx.main_chain.randomness_signature_cache).is_none());
}

#[test]
fn duplicate_listener_emission_publishes_once() {
    // the listener re-reads the same task; the cache already knows it
    let chain_id = 10u32;
    let mut ctx = node_context(chain_id, vec![addr(1)]);
    let listener = MockNewRandomnessTaskListener::new(chain_id, addr(1));
    let first = RandomnessTask::new(7, vec![1, 2], 0, 100);
    let second = RandomnessTask::new(7, vec![1, 2], 0, 100);
    assert!(listener.tick(first, &mut ctx.main_chain.randomness_tasks_cache).is_some());
    assert!(ctx.main_chain.randomness_tasks_cache.contains(7));
    assert!(listener.tick(second, &mut ctx.main_chain.randomness_tasks_cache).is_none());
}

#[test]
fn aggregation_verification_failure_is_skipped_without_commit() {
    // one of three partials was garbled in a way the shape check
    // misses; aggregation fails verification, nothing is submitted,
    // nothing marked committed, and the next tick re-emits the entry
    let bls = MockBLSCore {};
    let group = group_of_three(vec![addr(1)]);
    let message = vec![0xde, 0xad];
    let honest = bls.partial_sign(group.share.as_ref().unwrap(), &message);
    let mut tampered = honest.clone();
    for i in 0..group.public_key.len() {
        tampered[i] = 0x55;
    }
    let mut cache = InMemorySignatureResultCache::new();
    cache.add(0, 7, message.clone(), 3);
    // member 1 sits first in the member table, so its partial leads
    // the canonical quorum
    cache.add_partial_signature(7, addr(1), tampered).unwrap();
    cache.add_partial_signature(7, addr(2), honest.clone()).unwrap();
    cache.add_partial_signature(7, addr(3), honest).unwrap();

    let listener = RandomnessSignatureAggregationListener::new(10, addr(1));
    let emitted = listener.tick(&group, &cache).unwrap();
    let action = prepare_fulfillment(&bls, &group, &emitted.tasks[0]);
    assert!(matches!(action, FulfillmentAction::SkipVerificationFailed));

    // no commit happened: the entry stays with its three partials and
    // is emitted again on the next pass, awaiting the operator
    let again = listener.tick(&group, &cache).unwrap();
    assert_eq!(again.tasks.len(), 1);
    assert_eq!(again.tasks[0].partials_count(), 3);
    assert!(!again.tasks[0].is_committed());
}

#[test]
fn fulfilled_entry_is_never_fulfilled_twice() {
    // a duplicate ready emission after the commit becomes a no-op
    let bls = MockBLSCore {};
    let group = group_of_three(vec![addr(1)]);
    let message = vec![0xde, 0xad];
    let honest = bls.partial_sign(group.share.as_ref().unwrap(), &message);
    let mut cache = InMemorySignatureResultCache::new();
    cache.add(0, 7, message, 3);
    for m in [1u8, 2, 3] {
        cache.add_partial_signature(7, addr(m), honest.clone()).unwrap();
    }
    let emitted = cache.get_ready_to_commit_signatures();
    assert_eq!(emitted.len(), 1);
    // first emission leads to a submission and a confirmed commit
    assert!(matches!(
        prepare_fulfillment(&bls, &group, &emitted[0]),
        FulfillmentAction::Submit(_)
    ));
    confirm_fulfillment(&mut cache, 7).unwrap();
    // a stale duplicate of the same emission is decided a no-op
    let stale = {
        let mut copy = emitted;
        copy.remove(0)
    };
    let mut committed_copy = stale;
    committed_copy.committed = true;
    assert!(matches!(
        prepare_fulfillment(&bls, &group, &committed_copy),
        FulfillmentAction::SkipAlreadyCommitted
    ));
    assert_eq!(cache.get_ready_to_commit_signatures().len(), 0);
}

#[test]
fn two_chains_keep_task_indices_apart() {
    // task index 7 exists on the main chain and on an adapter chain;
    // the caches are keyed per chain and never collide
    let bls = MockBLSCore {};
    let mut ctx = node_context(10, vec![addr(1)]);
    let adapter_identity = ChainIdentity::new(20, "http://adapter".to_string(), addr(0x21));
    ctx.add_adapter_chain(Chain::new(adapter_identity)).unwrap();

    // a repeated chain id is a construction-time error
    let dup = Chain::new(ChainIdentity::new(20, "http://other".to_string(), addr(0x22)));
    assert_eq!(ctx.add_adapter_chain(dup).unwrap_err(), NodeError::RepeatedChainId);

    let message_main = vec![1, 1];
    let message_adapter = vec![2, 2];
    push_peer_partial(&mut ctx, 2, 10, 7, &message_main);
    push_peer_partial(&mut ctx, 2, 20, 7, &message_adapter);
    push_peer_partial(&mut ctx, 3, 20, 7, &message_adapter);

    // a request for a chain this node does not serve is refused
    let client = MockCommitterClient::new(addr(2), "127.0.0.1:50000".to_string());
    let partial = bls.partial_sign(ctx.group.share.as_ref().unwrap(), &vec![3u8]);
    let req = client.commit_partial_signature_request(
        30,
        TaskType::Randomness,
        vec![3u8],
        7,
        partial,
    );
    assert_eq!(
        ctx.handle_commit_partial_signature_request(&bls, &req).unwrap_err(),
        NodeError::InvalidChainId
    );

    // each chain's entry for index 7 holds exactly its own partials
    let main_ready = ctx.main_chain.randomness_signature_cache.get_ready_to_commit_signatures();
    assert_eq!(main_ready.len(), 0); // one partial of three: not ready
    let adapter = ctx.get_adapter_chain(20).unwrap();
    assert_eq!(adapter.chain_id, 20);
    assert!(ctx.contains_chain(20));
    assert!(!ctx.contains_chain(30));
}

#[test]
fn publish_notifies_every_subscriber_exactly_once() {
    // two subscribers on one topic, one on another: a published event
    // reaches exactly the matching ones, in subscription order
    let mut eq = EventQueue::new();
    ReadyToHandleRandomnessTaskSubscriber::new(5, addr(1)).subscribe(&mut eq).unwrap();
    ReadyToHandleRandomnessTaskSubscriber::new(6, addr(2)).subscribe(&mut eq).unwrap();
    ReadyToHandleRandomnessTaskSubscriber::new(5, addr(3)).subscribe(&mut eq).unwrap();

    let event = Event::ReadyToHandleRandomnessTask(ReadyToHandleRandomnessTask {
        chain_id: 5,
        tasks: vec![RandomnessTask::new(1, vec![9], 0, 0)],
    });
    let deliveries = eq.publish(&event);
    assert_eq!(deliveries.len(), 2);
    assert_eq!(deliveries[0].subscriber_index, 0);
    assert_eq!(deliveries[1].subscriber_index, 2);
    for d in &deliveries {
        assert_eq!(d.actions.len(), 1);
    }

    // registering under a foreign topic is a wiring fault
    let stray = ReadyToHandleRandomnessTaskSubscriber::new(9, addr(4));
    assert_eq!(
        eq.subscribe(Topic::NewBlock(9), SubscriberImpl::Randomness(stray)).unwrap_err(),
        NodeError::SubscriberOnWrongTopic
    );
}

#[test]
fn aggregation_is_arrival_order_independent() {
    // the same three partials, arriving in two different orders,
    // aggregate to the identical signature and submission
    let bls = MockBLSCore {};
    let group = group_of_three(vec![addr(1)]);
    let message = vec![0xaa, 0xbb];
    let honest = bls.partial_sign(group.share.as_ref().unwrap(), &message);

    let mut first = InMemorySignatureResultCache::new();
    first.add(0, 7, message.clone(), 3);
    for m in [1u8, 2, 3] {
        first.add_partial_signature(7, addr(m), honest.clone()).unwrap();
    }
    let mut second = InMemorySignatureResultCache::new();
    second.add(0, 7, message, 3);
    for m in [3u8, 1, 2] {
        second.add_partial_signature(7, addr(m), honest.clone()).unwrap();
    }
    let a = prepare_fulfillment(&bls, &group, &first.get_ready_to_commit_signatures()[0]);
    let b = prepare_fulfillment(&bls, &group, &second.get_ready_to_commit_signatures()[0]);
    let (sa, sb) = match (a, b) {
        (FulfillmentAction::Submit(x), FulfillmentAction::Submit(y)) => (x, y),
        _ => panic!("both quorums should submit"),
    };
    assert_eq!(sa.signature, sb.signature);
    assert_eq!(sa.partials, sb.partials);
    assert_eq!(sa.task_index, sb.task_index);
}

#[test]
fn reemission_recreates_an_identical_handler() {
    // if a handler dies before doing anything, the next readiness
    // emission for the same tasks yields an identical job, and that
    // one completes
    let chain_id = 10u32;
    let mut ctx = node_context(chain_id, vec![addr(1)]);
    ctx.deploy();
    let event = Event::ReadyToHandleRandomnessTask(ReadyToHandleRandomnessTask {
        chain_id,
        tasks: vec![RandomnessTask::new(7, vec![5, 5], 0, 0)],
    });
    let first = ctx.eq.publish(&event);
    let second = ctx.eq.publish(&event);
    assert_eq!(first.len(), 1);
    assert_eq!(second.len(), 1);
    // the first handler is dropped unrun, as after a watchdog abort
    drop(first);
    let HandlerTask::Randomness(handler) = second.into_iter().next().unwrap().actions.into_iter().next().unwrap();
    assert_eq!(handler.chain_id, chain_id);
    assert_eq!(handler.tasks.len(), 1);
    handler.handle(&ctx.group, &mut ctx.main_chain.randomness_signature_cache).unwrap();
    assert!(ctx.main_chain.randomness_signature_cache.contains(7));
}

#[test]
fn signing_handler_records_own_partial_and_addresses_peers() {
    // with two other committers, the handler sends one request each
    let group = group_of_three(vec![addr(1), addr(2), addr(3)]);
    let mut cache = InMemorySignatureResultCache::new();
    let handler = MockRandomnessHandler::new(
        10,
        addr(1),
        vec![RandomnessTask::new(7, vec![1, 2, 3], 0, 0)],
    );
    let outbound = handler.handle(&group, &mut cache).unwrap();
    assert_eq!(outbound.len(), 2);
    assert_eq!(outbound[0].endpoint, "127.0.0.1:5002");
    assert_eq!(outbound[1].endpoint, "127.0.0.1:5003");
    for o in &outbound {
        assert_eq!(o.request.signature_index, 7);
        assert_eq!(o.request.id_address, randcast_node::address::address_to_string(&addr(1)));
    }
    assert!(cache.contains(7));
}

#[test]
fn retry_policy_is_fixed_interval_and_bounded() {
    // the committer client retries three times, two seconds apart; a
    // call that fails twice and succeeds on the third try is covered
    let policy = FixedIntervalRetry::from_millis(RETRY_INTERVAL_MILLIS)
        .take(COMMITTER_RETRY_MAX_ATTEMPTS);
    assert_eq!(policy.next_delay_millis(), 2000);
    assert!(policy.should_attempt(0));
    assert!(policy.should_attempt(1));
    assert!(policy.should_attempt(2));
    assert!(!policy.should_attempt(3));
    // listeners retry forever at the same fixed interval
    let unbounded = FixedIntervalRetry::from_millis(RETRY_INTERVAL_MILLIS);
    assert_eq!(unbounded.next_delay_millis(), 2000);
    assert!(unbounded.should_attempt(1_000_000));
}
