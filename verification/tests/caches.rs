use randcast_node::address::Address;
use randcast_node::block::{BlockInfoCache, NewBlockListener};
use randcast_node::errors::NodeError;
use randcast_node::sig_cache::InMemorySignatureResultCache;
use randcast_node::task_cache::{BLSTasksCache, GroupRelayConfirmationTasksCache};
use randcast_node::types::{GroupRelayConfirmationTask, RandomnessTask};

fn addr(byte: u8) -> Address {
    Address::new(vec![byte; 20]).unwrap()
}

#[test]
fn block_cache_is_monotonic() {
    let mut cache = BlockInfoCache::new(1);
    assert_eq!(cache.get_block_height(), 0);
    cache.set_block_height(10);
    assert_eq!(cache.get_block_height(), 10);
    cache.set_block_height(5);
    assert_eq!(cache.get_block_height(), 10);
    cache.set_block_height(11);
    assert_eq!(cache.get_block_height(), 11);
}

#[test]
fn new_block_listener_emits_only_on_progress() {
    let listener = NewBlockListener::new(3);
    let mut cache = BlockInfoCache::new(3);
    let e = listener.tick(&mut cache, 100).unwrap();
    assert_eq!(e.chain_id, 3);
    assert_eq!(e.block_height, 100);
    assert!(listener.tick(&mut cache, 100).is_none());
    assert!(listener.tick(&mut cache, 99).is_none());
    assert!(listener.tick(&mut cache, 101).is_some());
}

#[test]
fn task_cache_refuses_duplicate_index() {
    let mut cache = BLSTasksCache::new();
    let t = RandomnessTask::new(7, vec![0xde, 0xad], 0, 100);
    assert!(cache.add(t).is_ok());
    assert!(cache.contains(7));
    let again = RandomnessTask::new(7, vec![0xbe, 0xef], 0, 101);
    assert_eq!(cache.add(again).unwrap_err(), NodeError::TaskAlreadyExisted);
}

#[test]
fn task_cache_hands_out_available_tasks_once() {
    let mut cache = BLSTasksCache::new();
    cache.add(RandomnessTask::new(1, vec![1], 0, 50)).unwrap();
    cache.add(RandomnessTask::new(2, vec![2], 0, 150)).unwrap();
    cache.add(RandomnessTask::new(3, vec![3], 9, 50)).unwrap();
    let available = cache.check_and_get_available_tasks(100, 0);
    assert_eq!(available.len(), 1);
    assert_eq!(available[0].index, 1);
    // the handed-out task is gone; the others wait for height or group
    assert!(!cache.contains(1));
    assert!(cache.contains(2));
    assert!(cache.contains(3));
    let again = cache.check_and_get_available_tasks(100, 0);
    assert_eq!(again.len(), 0);
    let later = cache.check_and_get_available_tasks(150, 0);
    assert_eq!(later.len(), 1);
    assert_eq!(later[0].index, 2);
}

#[test]
fn relay_confirmation_cache_filters_by_height_and_group() {
    let mut cache = GroupRelayConfirmationTasksCache::new();
    cache.add(GroupRelayConfirmationTask { index: 4, group_index: 2, assignment_block_height: 10 });
    cache.add(GroupRelayConfirmationTask { index: 5, group_index: 2, assignment_block_height: 90 });
    let available = cache.check_and_get_available_tasks(50, 2);
    assert_eq!(available.len(), 1);
    assert_eq!(available[0].index, 4);
    let rest = cache.check_and_get_available_tasks(100, 2);
    assert_eq!(rest.len(), 1);
    assert_eq!(rest[0].index, 5);
}

#[test]
fn signature_cache_entry_lifecycle() {
    let mut cache = InMemorySignatureResultCache::new();
    assert!(!cache.contains(7));
    assert!(cache.add(0, 7, vec![0xde, 0xad], 3));
    assert!(cache.contains(7));
    // a second add of the same task changes nothing
    assert!(!cache.add(0, 7, vec![0xde, 0xad], 3));
    assert!(cache.add_partial_signature(7, addr(1), vec![9, 9]).unwrap());
    // a partial for an unknown task is refused
    assert_eq!(
        cache.add_partial_signature(8, addr(1), vec![9, 9]).unwrap_err(),
        NodeError::CommitterCacheNotExisted
    );
    assert_eq!(cache.mark_committed(8).unwrap_err(), NodeError::CommitterCacheNotExisted);
    assert!(cache.mark_committed(7).is_ok());
    assert_eq!(cache.get_ready_to_commit_signatures().len(), 0);
}

#[test]
fn duplicate_partial_leaves_cache_unchanged() {
    let mut cache = InMemorySignatureResultCache::new();
    cache.add(0, 7, vec![1, 2, 3], 3);
    assert!(cache.add_partial_signature(7, addr(1), vec![4]).unwrap());
    assert!(!cache.add_partial_signature(7, addr(1), vec![5]).unwrap());
    let entries = cache.get_ready_to_commit_signatures();
    assert_eq!(entries.len(), 0);
    // still exactly one recorded partial, the first one
    let mut probe = InMemorySignatureResultCache::new();
    probe.add(0, 7, vec![1, 2, 3], 1);
    probe.add_partial_signature(7, addr(1), vec![4]).unwrap();
    probe.add_partial_signature(7, addr(1), vec![5]).unwrap();
    let ready = probe.get_ready_to_commit_signatures();
    assert_eq!(ready.len(), 1);
    assert_eq!(ready[0].partials_count(), 1);
    assert_eq!(ready[0].partial_signatures[0].1, vec![4]);
}

#[test]
fn threshold_minus_one_partials_never_ready() {
    let mut cache = InMemorySignatureResultCache::new();
    cache.add(0, 7, vec![1], 3);
    cache.add_partial_signature(7, addr(1), vec![4]).unwrap();
    cache.add_partial_signature(7, addr(2), vec![4]).unwrap();
    // exactly threshold - 1 partials: not ready, nothing to aggregate
    assert_eq!(cache.get_ready_to_commit_signatures().len(), 0);
}

#[test]
fn threshold_partials_become_ready() {
    let mut cache = InMemorySignatureResultCache::new();
    cache.add(0, 7, vec![1], 3);
    cache.add_partial_signature(7, addr(1), vec![4]).unwrap();
    cache.add_partial_signature(7, addr(2), vec![4]).unwrap();
    cache.add_partial_signature(7, addr(3), vec![4]).unwrap();
    let ready = cache.get_ready_to_commit_signatures();
    assert_eq!(ready.len(), 1);
    assert_eq!(ready[0].get_task_index(), 7);
    assert!(ready[0].is_ready());
}
