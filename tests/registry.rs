use trunk_tiles::trunk_map::{AssetLoadState, TrunkHandle, TrunkLoadStatus, TrunkMap, TrunkPos};

fn pos(x: i32, y: i32) -> TrunkPos {
    TrunkPos { x, y }
}

#[test]
fn request_twice_gives_the_same_handle() {
    let mut map = TrunkMap::new(3);
    let first = map.request_chunk(pos(1, -2)).unwrap();
    let second = map.request_chunk(pos(1, -2)).unwrap();
    assert!(first.load);
    assert!(!second.load);
    assert_eq!(first.handle, second.handle);
    assert_eq!(map.trunks.len(), 1);
    assert_eq!(map.world_id, 3);
}

#[test]
fn new_chunks_get_distinct_handles_and_start_unloaded() {
    let mut map = TrunkMap::new(0);
    let a = map.request_chunk(pos(0, 0)).unwrap();
    let b = map.request_chunk(pos(0, 1)).unwrap();
    assert_ne!(a.handle, b.handle);
    assert_eq!(a.handle, TrunkHandle { id: 0 });
    assert_eq!(b.handle, TrunkHandle { id: 1 });
    assert_eq!(map.trunks[1].pos, pos(0, 1));
    assert_eq!(map.trunks[0].load_status, TrunkLoadStatus::Unloaded);
}

#[test]
fn exhausted_handles_refuse_new_chunks_only() {
    let mut map = TrunkMap::new(0);
    map.next_handle = u64::MAX - 1;
    let a = map.request_chunk(pos(5, 5)).unwrap();
    assert_eq!(a.handle.id, u64::MAX - 1);
    assert!(map.request_chunk(pos(6, 6)).is_none());
    assert_eq!(map.request_chunk(pos(5, 5)).unwrap().handle, a.handle);
    assert_eq!(map.trunks.len(), 1);
}

#[test]
fn poll_loads_once_and_never_unloads() {
    let mut map = TrunkMap::new(0);
    map.request_chunk(pos(2, 2)).unwrap();
    assert_eq!(map.poll_status(pos(2, 2), AssetLoadState::Loading), Some(TrunkLoadStatus::Unloaded));
    assert_eq!(map.poll_status(pos(2, 2), AssetLoadState::Loaded), Some(TrunkLoadStatus::Loaded));
    assert_eq!(map.poll_status(pos(2, 2), AssetLoadState::NotLoaded), Some(TrunkLoadStatus::Loaded));
    assert_eq!(map.poll_status(pos(2, 2), AssetLoadState::Failed), Some(TrunkLoadStatus::Loaded));
    assert_eq!(map.trunks[0].load_status, TrunkLoadStatus::Loaded);
}

#[test]
fn failed_asset_keeps_chunk_unloaded() {
    let mut map = TrunkMap::new(0);
    map.request_chunk(pos(0, 0)).unwrap();
    assert_eq!(map.poll_status(pos(0, 0), AssetLoadState::Failed), Some(TrunkLoadStatus::Unloaded));
}

#[test]
fn poll_of_unknown_chunk_is_none() {
    let mut map = TrunkMap::new(0);
    map.request_chunk(pos(0, 0)).unwrap();
    assert_eq!(map.poll_status(pos(9, 9), AssetLoadState::Loaded), None);
    assert_eq!(map.trunks[0].load_status, TrunkLoadStatus::Unloaded);
}

#[test]
fn evict_removes_only_that_chunk() {
    let mut map = TrunkMap::new(0);
    let a = map.request_chunk(pos(0, 0)).unwrap();
    let b = map.request_chunk(pos(1, 0)).unwrap();
    let c = map.request_chunk(pos(2, 0)).unwrap();
    map.poll_status(pos(2, 0), AssetLoadState::Loaded);
    map.evict(pos(1, 0));
    assert_eq!(map.trunks.len(), 2);
    assert_eq!(map.find(pos(1, 0)), None);
    assert_eq!(map.find(pos(0, 0)), Some(0));
    assert_eq!(map.find(pos(2, 0)), Some(1));
    assert_eq!(map.trunks[0].trunk, a.handle);
    assert_eq!(map.trunks[1].trunk, c.handle);
    assert_eq!(map.trunks[1].load_status, TrunkLoadStatus::Loaded);
    map.evict(pos(7, 7));
    assert_eq!(map.trunks.len(), 2);
    let again = map.request_chunk(pos(1, 0)).unwrap();
    assert!(again.load);
    assert_ne!(again.handle, b.handle);
}

#[test]
fn default_map_is_empty_world_zero() {
    let map = TrunkMap::default();
    assert!(map.trunks.is_empty());
    assert_eq!(map.world_id, 0);
    assert_eq!(map.next_handle, 0);
    assert_eq!(TrunkLoadStatus::default(), TrunkLoadStatus::Unloaded);
}
