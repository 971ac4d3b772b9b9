use af_xdp_lib::descriptor::{FillCompFrameDescriptor, SealedDescriptorImpl};
use af_xdp_lib::ring::inner::InnerRing;
use af_xdp_lib::ring::{filled_entries_of, free_entries_of, pop_step, push_step, wakeup_needed};

fn addr_region(values: &[u64]) -> Vec<u64> {
    values.to_vec()
}

#[test]
fn test_pop_empty_ring() {
    const RING_SIZE: usize = 4;
    const CHUNK_SIZE: u64 = 1;

    let mut inner_ring = InnerRing::<FillCompFrameDescriptor>::new(
        3,
        3,
        addr_region(&[0, 0, 0, 0]),
        None,
        CHUNK_SIZE,
    );

    assert!(inner_ring.pop().is_none());
    assert_eq!(inner_ring.consumer(), 3);
}

#[test]
fn test_pop_single_element() {
    const CHUNK_SIZE: u64 = 1;

    let mut inner_ring = InnerRing::<FillCompFrameDescriptor>::new(
        0,
        u32::MAX,
        addr_region(&[0, 0, 0, 123]),
        None,
        CHUNK_SIZE,
    );

    let popped = inner_ring.pop();
    assert_eq!(
        popped.unwrap(),
        FillCompFrameDescriptor::from_desc(123, CHUNK_SIZE)
    );

    assert_eq!(inner_ring.consumer(), 0);
}

#[test]
fn test_push() {
    const CHUNK_SIZE: u64 = 1;

    let mut inner_ring = InnerRing::<FillCompFrameDescriptor>::new(
        0,
        0,
        addr_region(&[0, 0, 0, 0]),
        None,
        CHUNK_SIZE,
    );

    let input = || FillCompFrameDescriptor::from_desc(0, CHUNK_SIZE);
    assert!(inner_ring.push(input()).is_ok());
    assert_eq!(inner_ring.producer(), 1);

    assert!(inner_ring.push(input()).is_ok());
    assert!(inner_ring.push(input()).is_ok());
    assert!(inner_ring.push(input()).is_ok());
    assert_eq!(inner_ring.producer(), 4);

    assert!(inner_ring.push(input()).is_err());
    assert_eq!(inner_ring.producer(), 4);
}

#[test]
fn push_full_returns_input_unchanged() {
    const CHUNK_SIZE: u64 = 4096;

    let mut ring = InnerRing::<FillCompFrameDescriptor>::new(
        0,
        0,
        addr_region(&[0, 0]),
        None,
        CHUNK_SIZE,
    );
    assert!(ring.push(FillCompFrameDescriptor::from_desc(0, CHUNK_SIZE)).is_ok());
    assert!(ring.push(FillCompFrameDescriptor::from_desc(4096, CHUNK_SIZE)).is_ok());
    assert!(ring.is_full());

    let rejected = ring
        .push(FillCompFrameDescriptor::from_desc(8192, CHUNK_SIZE))
        .unwrap_err();
    assert_eq!(rejected, FillCompFrameDescriptor::from_desc(8192, CHUNK_SIZE));
    assert_eq!(ring.producer(), 2);
    assert_eq!(ring.filled_entries(), 2);
}

#[test]
fn pop_empty_leaves_consumer_untouched() {
    const CHUNK_SIZE: u64 = 4096;

    let mut ring = InnerRing::<FillCompFrameDescriptor>::new(
        7,
        7,
        addr_region(&[0, 0, 0, 0]),
        None,
        CHUNK_SIZE,
    );
    assert!(ring.is_empty());
    assert!(ring.pop().is_none());
    assert_eq!(ring.consumer(), 7);
    assert_eq!(ring.filled_entries(), 0);
}

#[test]
fn fifo_order_with_interleaving_and_wraparound() {
    const CHUNK_SIZE: u64 = 4096;

    // counters start close to wraparound so the test crosses it
    let start = u32::MAX - 1;
    let mut ring = InnerRing::<FillCompFrameDescriptor>::new(
        start,
        start,
        addr_region(&[0, 0, 0, 0]),
        None,
        CHUNK_SIZE,
    );

    let desc = |chunk: u64| FillCompFrameDescriptor::from_desc(chunk * CHUNK_SIZE, CHUNK_SIZE);

    assert!(ring.push(desc(0)).is_ok());
    assert!(ring.push(desc(1)).is_ok());
    assert_eq!(ring.pop().unwrap(), desc(0));
    assert!(ring.push(desc(2)).is_ok());
    assert!(ring.push(desc(3)).is_ok());
    assert!(ring.push(desc(4)).is_ok());
    assert!(ring.is_full());

    // producer advanced by 5 pushes, consumer by 1 pop, both wrapping
    assert_eq!(ring.producer(), start.wrapping_add(5));
    assert_eq!(ring.consumer(), start.wrapping_add(1));
    assert_eq!(ring.filled_entries(), 4);
    assert_eq!(ring.free_entries(), 0);

    assert_eq!(ring.pop().unwrap(), desc(1));
    assert_eq!(ring.pop().unwrap(), desc(2));
    assert_eq!(ring.pop().unwrap(), desc(3));
    assert_eq!(ring.pop().unwrap(), desc(4));
    assert!(ring.pop().is_none());
    assert!(ring.is_empty());
}

#[test]
fn wakeup_flag_is_read_per_ring() {
    const CHUNK_SIZE: u64 = 4096;

    let no_flags = InnerRing::<FillCompFrameDescriptor>::new(
        0,
        0,
        addr_region(&[0, 0]),
        None,
        CHUNK_SIZE,
    );
    assert!(!no_flags.needs_wakeup());
    assert_eq!(no_flags.flags(), None);

    let idle = InnerRing::<FillCompFrameDescriptor>::new(
        0,
        0,
        addr_region(&[0, 0]),
        Some(0),
        CHUNK_SIZE,
    );
    assert!(!idle.needs_wakeup());

    let wants_wakeup = InnerRing::<FillCompFrameDescriptor>::new(
        0,
        0,
        addr_region(&[0, 0]),
        Some(1),
        CHUNK_SIZE,
    );
    assert!(wants_wakeup.needs_wakeup());
    assert_eq!(wants_wakeup.flags(), Some(1));
}

#[test]
fn push_step_names_slot_and_counter() {
    // empty ring at the wraparound edge: slot = counter & (size - 1)
    assert_eq!(push_step(u32::MAX, u32::MAX, 4), Some((3, 0)));
    // one entry in: the next slot follows
    assert_eq!(push_step(0, u32::MAX, 4), Some((0, 1)));
    // full ring: no step
    assert_eq!(push_step(4, 0, 4), None);
    assert_eq!(push_step(3, u32::MAX, 4), None);
}

#[test]
fn pop_step_names_slot_and_counter() {
    assert_eq!(pop_step(0, u32::MAX, 4), Some((3, 0)));
    assert_eq!(pop_step(5, 2, 4), Some((2, 3)));
    // empty ring: no step
    assert_eq!(pop_step(7, 7, 4), None);
}

#[test]
fn wakeup_decision_reads_only_the_wakeup_bit() {
    assert!(!wakeup_needed(None));
    assert!(!wakeup_needed(Some(0)));
    assert!(wakeup_needed(Some(1)));
    assert!(wakeup_needed(Some(3)));
    assert!(!wakeup_needed(Some(2)));
}

#[test]
fn counter_arithmetic_wraps() {
    assert_eq!(filled_entries_of(2, u32::MAX - 1), 4);
    assert_eq!(filled_entries_of(5, 5), 0);
    assert_eq!(free_entries_of(2, u32::MAX - 1, 4), 0);
    assert_eq!(free_entries_of(1, u32::MAX, 4), 2);
}

#[test]
fn counters_can_be_set_directly() {
    const CHUNK_SIZE: u64 = 4096;

    let mut ring = InnerRing::<FillCompFrameDescriptor>::new(
        0,
        0,
        addr_region(&[0, 0, 0, 0]),
        None,
        CHUNK_SIZE,
    );
    ring.set_producer(3);
    ring.set_consumer(1);
    assert_eq!(ring.producer(), 3);
    assert_eq!(ring.consumer(), 1);
    assert_eq!(ring.filled_entries(), 2);
    assert_eq!(ring.free_entries(), 2);
    assert!(!ring.is_empty());
    assert!(!ring.is_full());
}
