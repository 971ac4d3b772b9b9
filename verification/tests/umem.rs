use af_xdp_lib::descriptor::SealedDescriptorImpl;
use af_xdp_lib::error::Error;
use af_xdp_lib::umem::maker_guard::{MarkerGuard, MarkerRegistry};
use af_xdp_lib::umem::memory::UmemMemory;
use af_xdp_lib::umem::{BindRequest, DeviceId, QueueId, Umem, XDP_FRAME_DRIVER_HEADROOM};

const CHUNK_SIZE: usize = 4096;
const CHUNK_NUM: usize = 1024;

#[test]
fn invalid_marker() {
    const MARKER: u64 = 7;
    let mut registry = MarkerRegistry::new();

    let (a, _token) = Umem::new(0, CHUNK_NUM, CHUNK_SIZE, &mut registry, MARKER).unwrap();
    assert!(matches!(
        Umem::new(0, CHUNK_NUM, CHUNK_SIZE, &mut registry, MARKER),
        Err(Error::MarkerAlreadyUsed)
    ));
    a.release(&mut registry);

    let again = Umem::new(0, CHUNK_NUM, CHUNK_SIZE, &mut registry, MARKER);
    assert!(again.is_ok());
}

#[test]
fn distinct_markers_coexist() {
    let mut registry = MarkerRegistry::new();
    let first = Umem::new(0, 4, CHUNK_SIZE, &mut registry, 1).unwrap();
    let second = Umem::new(0, 4, CHUNK_SIZE, &mut registry, 2).unwrap();
    assert!(registry.contains(1));
    assert!(registry.contains(2));
    first.0.release(&mut registry);
    assert!(!registry.contains(1));
    assert!(registry.contains(2));
    second.0.release(&mut registry);
}

#[test]
fn marker_guard_claims_and_releases() {
    let mut registry = MarkerRegistry::new();
    let guard = MarkerGuard::new(&mut registry, 42).unwrap();
    assert!(registry.contains(42));
    assert!(matches!(
        MarkerGuard::new(&mut registry, 42),
        Err(Error::MarkerAlreadyUsed)
    ));
    guard.release(&mut registry);
    assert!(!registry.contains(42));
}

#[test]
fn descriptor_pool_covers_every_chunk_once() {
    let mut registry = MarkerRegistry::new();
    let (umem, token) = Umem::new(0, CHUNK_NUM, CHUNK_SIZE, &mut registry, 3).unwrap();

    let descriptors = umem.descriptors(token);
    assert_eq!(descriptors.len(), 1024);

    let addrs: Vec<u64> = descriptors.into_iter().map(|d| d.into_ring_repr()).collect();
    // last chunk first: the pool is consumed from the back
    assert_eq!(addrs[0], 4_190_208);
    assert_eq!(addrs[1023], 0);
    for (i, addr) in addrs.iter().enumerate() {
        assert_eq!(*addr, ((1023 - i) * CHUNK_SIZE) as u64);
        assert_eq!(addr % CHUNK_SIZE as u64, 0);
    }
    let mut sorted = addrs.clone();
    sorted.sort_unstable();
    sorted.dedup();
    assert_eq!(sorted.len(), 1024, "every chunk owns exactly one descriptor");
}

#[test]
fn first_bind_is_initial_then_shared() {
    let mut registry = MarkerRegistry::new();
    let (mut umem, _token) = Umem::new(256, 8, CHUNK_SIZE, &mut registry, 4).unwrap();

    assert!(!umem.initial_rings_given_out());
    assert!(matches!(
        umem.bind_request(DeviceId(5), QueueId(0)),
        BindRequest::Initial { device_id: DeviceId(5), queue_id: QueueId(0) }
    ));

    // a failed bind does not claim the anchor role
    assert!(matches!(
        umem.bind_request(DeviceId(5), QueueId(0)),
        BindRequest::Initial { .. }
    ));

    umem.confirm_bind();
    assert!(umem.initial_rings_given_out());
    assert!(matches!(
        umem.bind_request(DeviceId(5), QueueId(1)),
        BindRequest::SharedUmem {
            device_id: DeviceId(5),
            queue_id: QueueId(1),
            shared_umem_socket: 0,
        }
    ));
}

#[test]
fn anchor_socket_is_reused_until_first_bind() {
    let mut registry = MarkerRegistry::new();
    let (mut umem, _token) = Umem::new(0, 8, CHUNK_SIZE, &mut registry, 5).unwrap();

    assert_eq!(umem.xsk_map_socket(), 0);
    assert_eq!(umem.xsk_map_socket(), 0);
    umem.confirm_bind();
    assert_eq!(umem.xsk_map_socket(), 1);
    assert_eq!(umem.xsk_map_socket(), 2);
}

#[test]
fn umem_memory_sizes() {
    let memory = UmemMemory::new(CHUNK_NUM, CHUNK_SIZE);
    assert_eq!(memory.allocation_length(), CHUNK_NUM * CHUNK_SIZE);
    assert_eq!(memory.size(), CHUNK_NUM * CHUNK_SIZE);
    assert_eq!(
        UmemMemory::allocation_length_internal(CHUNK_NUM, CHUNK_SIZE),
        4_194_304
    );
    assert_eq!(UmemMemory::size_internal(CHUNK_NUM, CHUNK_SIZE), 4_194_304);
    assert_eq!(memory.number_of_chunks(), CHUNK_NUM);
    assert_eq!(memory.chunk_size(), CHUNK_SIZE);

    let bytes = memory.memory();
    assert_eq!(bytes.len(), 4_194_304);
    assert!(bytes.iter().all(|b| *b == 0), "the region starts zeroed");
}

#[test]
fn umem_exposes_headroom_and_memory() {
    let mut registry = MarkerRegistry::new();
    let (umem, _token) =
        Umem::new(XDP_FRAME_DRIVER_HEADROOM as u32, 8, CHUNK_SIZE, &mut registry, 6).unwrap();
    assert_eq!(umem.headroom(), 256);
    assert_eq!(umem.memory().allocation_length(), 8 * CHUNK_SIZE);
}

#[test]
fn error_messages() {
    assert_eq!(Error::MarkerAlreadyUsed.message(), "marker already used to create UMEM");
    assert_eq!(Error::Wip.message(), "wip");
    assert_eq!(Error::Rustix(13).message(), "Rustix error");
    assert_eq!(Error::XskMapError("boom".to_owned()).message(), "boom");
}
