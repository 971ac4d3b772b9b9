use af_xdp_lib::descriptor::{FillCompFrameDescriptor, SealedDescriptorImpl};
use af_xdp_lib::error::Error;
use af_xdp_lib::umem::maker_guard::MarkerRegistry;
use af_xdp_lib::umem::{BindRequest, DeviceId, QueueId, Umem};
use af_xdp_lib::xsk_map::{InMemoryXskMap, XskMap, XskMapEntry, XskMapStorage};

const CHUNK_SIZE: usize = 4096;
const RING_SIZE: usize = 64;

#[test]
fn set_requires_an_empty_slot() {
    let mut map = InMemoryXskMap::new(4);
    assert_eq!(map.max_entries(), 4);

    assert!(map.set_element(10, 0).is_ok());
    assert_eq!(map.get(0), Some(10));

    let err = map.set_element(11, 0).unwrap_err();
    assert_eq!(err.message(), "XSKMAP slot already occupied");
    assert_eq!(map.get(0), Some(10));

    let err = map.set_element(11, 4).unwrap_err();
    assert_eq!(err.message(), "XSKMAP index out of range");
}

#[test]
fn update_requires_an_occupied_slot() {
    let mut map = InMemoryXskMap::new(4);
    let err = map.update_element(10, 1).unwrap_err();
    assert_eq!(err.message(), "XSKMAP slot empty");

    assert!(map.set_element(10, 1).is_ok());
    assert!(map.update_element(12, 1).is_ok());
    assert_eq!(map.get(1), Some(12));
}

#[test]
fn unset_clears_an_occupied_slot() {
    let mut map = InMemoryXskMap::new(4);
    assert!(map.unset_element(2).is_err());

    assert!(map.set_element(9, 2).is_ok());
    assert!(map.unset_element(2).is_ok());
    assert_eq!(map.get(2), None);
    let err = map.unset_element(2).unwrap_err();
    assert_eq!(err.message(), "XSKMAP slot empty");
}

#[test]
fn map_entry_registers_and_deregisters() {
    let mut map = InMemoryXskMap::new(2);
    let entry = XskMapEntry::new(&mut map, 1, 33).unwrap();
    assert_eq!(map.get(1), Some(33));

    // the slot is claimed while the entry lives
    assert!(XskMapEntry::new(&mut map, 1, 44).is_err());

    assert!(entry.remove(&mut map).is_ok());
    assert_eq!(map.get(1), None);
}

#[test]
fn storage_register_deregister_round_trip() {
    let mut storage = XskMapStorage::new(InMemoryXskMap::new(8), DeviceId(3));
    assert!(storage.register(5, 0).is_ok());
    assert!(storage.register(5, 0).is_err());
    assert!(storage.deregister(0).is_ok());
    assert!(storage.deregister(0).is_err());
    let map = storage.into_inner();
    assert_eq!(map.get(0), None);
}

#[test]
fn ring_set_lifecycle_with_shared_umem() {
    let mut registry = MarkerRegistry::new();
    let (mut umem, _token) = Umem::new(0, 16, CHUNK_SIZE, &mut registry, 1).unwrap();
    let mut storage = XskMapStorage::new(InMemoryXskMap::new(4), DeviceId(7));

    // first ring set: anchor socket, bound plainly with the wakeup flag
    let rings1 = storage.rings(&mut umem, QueueId(0), 0, RING_SIZE).unwrap();
    assert!(matches!(
        rings1.bind_request,
        BindRequest::Initial { device_id: DeviceId(7), queue_id: QueueId(0) }
    ));

    // second ring set: fresh socket, bound sharing the UMEM via the anchor
    let rings2 = storage.rings(&mut umem, QueueId(0), 1, RING_SIZE).unwrap();
    assert!(matches!(
        rings2.bind_request,
        BindRequest::SharedUmem {
            device_id: DeviceId(7),
            queue_id: QueueId(0),
            shared_umem_socket: 0,
        }
    ));

    // a third request for an occupied map slot fails
    assert!(matches!(
        storage.rings(&mut umem, QueueId(0), 0, RING_SIZE),
        Err(Error::XskMapError(_))
    ));

    let mut map = storage.into_inner();
    assert_eq!(map.get(0), Some(0), "anchor socket steers index 0");
    assert_eq!(map.get(1), Some(1), "a fresh socket steers index 1");

    // teardown removes each entry before its rings are dropped
    assert!(rings2.teardown(&mut map).is_ok());
    assert_eq!(map.get(1), None);
    assert_eq!(map.get(0), Some(0));
    assert!(rings1.teardown(&mut map).is_ok());
    assert_eq!(map.get(0), None);
}

#[test]
fn four_ring_set_starts_empty_and_carries_descriptors() {
    let mut registry = MarkerRegistry::new();
    let (mut umem, token) = Umem::new(0, 16, CHUNK_SIZE, &mut registry, 2).unwrap();
    let mut storage = XskMapStorage::new(InMemoryXskMap::new(4), DeviceId(7));

    let mut rings = storage.rings(&mut umem, QueueId(0), 0, 4).unwrap();
    assert!(rings.fill_ring.is_empty());
    assert!(rings.completion_ring.is_empty());
    assert!(rings.rx_ring.is_empty());
    assert!(rings.tx_ring.is_empty());
    assert_eq!(rings.fill_ring.free_entries(), 4);

    let mut descriptors = umem.descriptors(token);
    for _ in 0..4 {
        let desc = descriptors.pop().unwrap();
        assert!(rings.fill_ring.push(desc).is_ok());
    }
    assert!(rings.fill_ring.is_full());
    assert_eq!(rings.fill_ring.filled_entries(), 4);

    // a fifth descriptor bounces back unchanged
    let fifth = descriptors.pop().unwrap();
    let rejected = rings.fill_ring.push(fifth).unwrap_err();
    assert_eq!(
        rejected.into_ring_repr(),
        (4 * CHUNK_SIZE) as u64,
        "the rejected descriptor still owns its chunk"
    );
    assert!(!rings.fill_ring.needs_wakeup());
}

#[test]
fn rx_tx_only_requires_an_initial_ring_set() {
    let mut registry = MarkerRegistry::new();
    let (mut umem, _token) = Umem::new(0, 16, CHUNK_SIZE, &mut registry, 3).unwrap();
    let mut storage = XskMapStorage::new(InMemoryXskMap::new(4), DeviceId(7));

    assert!(matches!(
        storage.rx_tx_only(&mut umem, QueueId(0), 1, RING_SIZE),
        Err(Error::Wip)
    ));

    let _rings = storage.rings(&mut umem, QueueId(0), 0, RING_SIZE).unwrap();
    let two = storage.rx_tx_only(&mut umem, QueueId(1), 1, RING_SIZE).unwrap();
    assert!(two.rx_ring.is_empty());
    assert!(two.tx_ring.is_empty());
    assert!(matches!(
        two.bind_request,
        BindRequest::SharedUmem {
            device_id: DeviceId(7),
            queue_id: QueueId(1),
            shared_umem_socket: 0,
        }
    ));

    let mut map = storage.into_inner();
    assert_eq!(map.get(1), Some(1));
    assert!(two.teardown(&mut map).is_ok());
    assert_eq!(map.get(1), None);
}

#[test]
fn popped_fill_descriptor_round_trips_through_rx_tx() {
    let mut registry = MarkerRegistry::new();
    let (mut umem, token) = Umem::new(0, 16, CHUNK_SIZE, &mut registry, 4).unwrap();
    let mut storage = XskMapStorage::new(InMemoryXskMap::new(4), DeviceId(7));
    let mut rings = storage.rings(&mut umem, QueueId(0), 0, 4).unwrap();

    let mut descriptors = umem.descriptors(token);
    let desc = descriptors.pop().unwrap();
    assert!(rings.fill_ring.push(desc).is_ok());

    // the application re-publishes a chunk after converting flavors
    let reclaimed = FillCompFrameDescriptor::from_desc(15 * CHUNK_SIZE as u64, CHUNK_SIZE as u64);
    let as_data = reclaimed.into_rx_tx_descriptor();
    let back = as_data.into_fill_comp_descriptor();
    assert!(rings.fill_ring.push(back).is_ok());
    assert_eq!(rings.fill_ring.filled_entries(), 2);
}
