use randcast_node::address::Address;
use randcast_node::block::BlockInfoCache;
use randcast_node::context::{Chain, GeneralContext, ListenerKind};
use randcast_node::event::{Event, ReadyToHandleRandomnessTask};
use randcast_node::group::{Group, Member};
use randcast_node::listener::ReadyToHandleGroupRelayConfirmationTaskListener;
use randcast_node::types::{
    ChainIdentity, GroupRelayConfirmationTask, NodeIdentity, RandomnessTask, TaskType,
};

fn addr(byte: u8) -> Address {
    Address::new(vec![byte; 20]).unwrap()
}

fn member(byte: u8, index: u32, public_key: &[u8]) -> Member {
    Member {
        id_address: addr(byte),
        index,
        rpc_endpoint: format!("127.0.0.1:600{}", index),
        partial_public_key: public_key.to_vec(),
    }
}

fn small_group() -> Group {
    let pk = b"pk".to_vec();
    Group {
        index: 2,
        epoch: 1,
        size: 2,
        threshold: 2,
        state: true,
        public_key: pk.clone(),
        members: vec![member(1, 0, &pk), member(2, 1, &pk)],
        committers: vec![addr(1)],
        share: Some(pk),
    }
}

#[test]
fn deploy_plans_every_chain_and_registers_subscribers_first() {
    let main = Chain::new(ChainIdentity::new(10, "http://main".to_string(), addr(0x30)));
    let node = NodeIdentity::new(addr(1), "127.0.0.1:7000".to_string(), vec![], vec![]);
    let mut ctx = GeneralContext::new(main, node, small_group());
    let adapter = Chain::new(ChainIdentity::new(20, "http://adapter".to_string(), addr(0x31)));
    ctx.add_adapter_chain(adapter).unwrap();

    let plan = ctx.deploy();
    assert_eq!(plan.committer_server_endpoint, "127.0.0.1:7000");
    // four listeners for the main chain, five for the adapter
    assert_eq!(plan.listeners.len(), 9);
    let relay: Vec<_> = plan
        .listeners
        .iter()
        .filter(|l| l.kind == ListenerKind::ReadyToHandleGroupRelayConfirmationTask)
        .collect();
    assert_eq!(relay.len(), 1);
    assert_eq!(relay[0].chain_id, 20);

    // a signing subscriber is in place for each chain before any
    // listener from the plan runs
    for chain_id in [10u32, 20] {
        let event = Event::ReadyToHandleRandomnessTask(ReadyToHandleRandomnessTask {
            chain_id,
            tasks: vec![RandomnessTask::new(1, vec![1], 2, 0)],
        });
        let deliveries = ctx.eq.publish(&event);
        assert_eq!(deliveries.len(), 1);
    }
}

#[test]
fn relay_confirmation_listener_waits_for_group_and_height() {
    let listener = ReadyToHandleGroupRelayConfirmationTaskListener::new(20);
    let mut group = small_group();
    let mut blocks = BlockInfoCache::new(20);
    let mut cache = randcast_node::task_cache::GroupRelayConfirmationTasksCache::new();
    cache.add(GroupRelayConfirmationTask { index: 4, group_index: 2, assignment_block_height: 60 });

    // an incomplete group keeps the listener quiet
    group.state = false;
    assert!(listener.tick(&group, &blocks, &mut cache).is_none());
    group.state = true;

    // below the assignment height nothing is workable yet
    blocks.set_block_height(50);
    assert!(listener.tick(&group, &blocks, &mut cache).is_none());

    blocks.set_block_height(60);
    let e = listener.tick(&group, &blocks, &mut cache).unwrap();
    assert_eq!(e.chain_id, 20);
    assert_eq!(e.tasks.len(), 1);
    assert_eq!(e.tasks[0].index, 4);
    // handed out once, gone from the cache
    assert!(listener.tick(&group, &blocks, &mut cache).is_none());
}

#[test]
fn group_validation_catches_bad_wiring() {
    assert!(small_group().check_wf());

    let mut wrong_size = small_group();
    wrong_size.size = 3;
    assert!(!wrong_size.check_wf());

    let mut zero_threshold = small_group();
    zero_threshold.threshold = 0;
    assert!(!zero_threshold.check_wf());

    let mut duplicate_member = small_group();
    duplicate_member.members[1].id_address = addr(1);
    assert!(!duplicate_member.check_wf());

    let mut duplicate_index = small_group();
    duplicate_index.members[1].index = 0;
    assert!(!duplicate_index.check_wf());

    let mut stray_committer = small_group();
    stray_committer.committers = vec![addr(9)];
    assert!(!stray_committer.check_wf());
}

#[test]
fn task_type_wire_tags_round_trip() {
    for t in [TaskType::Randomness, TaskType::GroupRelay, TaskType::GroupRelayConfirmation] {
        assert_eq!(TaskType::from_i32(t.to_i32()), Some(t));
    }
    assert_eq!(TaskType::from_i32(3), None);
    assert_eq!(TaskType::from_i32(-1), None);
}
