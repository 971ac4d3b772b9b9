use af_xdp_lib::descriptor::error::ExceedsChunkSize;
use af_xdp_lib::descriptor::{FillCompFrameDescriptor, RxTxFrameDescriptor, SealedDescriptorImpl, XdpDesc};

const CHUNK_SIZE: u64 = 4096;

fn data_desc(addr: u64, len: u32, options: u32) -> RxTxFrameDescriptor {
    RxTxFrameDescriptor::from_desc(XdpDesc { addr, len, options }, CHUNK_SIZE)
}

#[test]
fn data_offset_and_length_follow_the_ring_value() {
    let desc = data_desc(2 * CHUNK_SIZE + 100, 1400, 0);
    assert_eq!(desc.data_offset(), 100);
    assert_eq!(desc.length(), 1400);
    assert_eq!(desc.options(), 0);
}

#[test]
fn base_addr_rounds_down_to_the_chunk() {
    assert_eq!(
        RxTxFrameDescriptor::base_addr(
            &XdpDesc { addr: 3 * CHUNK_SIZE + 4095, len: 0, options: 0 },
            CHUNK_SIZE,
        ),
        3 * CHUNK_SIZE,
    );
    assert_eq!(FillCompFrameDescriptor::base_addr(&(5 * CHUNK_SIZE), CHUNK_SIZE), 5 * CHUNK_SIZE);
    assert_eq!(FillCompFrameDescriptor::base_addr(&(5 * CHUNK_SIZE + 1), CHUNK_SIZE), 5 * CHUNK_SIZE);
}

#[test]
fn set_addr_and_length_succeeds_iff_inside_the_chunk() {
    let mut desc = data_desc(CHUNK_SIZE, 0, 7);

    assert!(desc.set_addr_and_length(256, 1024).is_ok());
    assert_eq!(desc.data_offset(), 256);
    assert_eq!(desc.length(), 1024);
    assert_eq!(desc.options(), 7);

    // the boundary case is allowed: offset + length == CHUNK_SIZE
    assert!(desc.set_addr_and_length(96, (CHUNK_SIZE - 96) as u32).is_ok());
    assert_eq!(desc.data_offset(), 96);
    assert_eq!(desc.length() as u64, CHUNK_SIZE - 96);

    // one byte beyond is rejected and the descriptor is unchanged
    assert_eq!(
        desc.set_addr_and_length(97, (CHUNK_SIZE - 96) as u32),
        Err(ExceedsChunkSize)
    );
    assert_eq!(desc.data_offset(), 96);
    assert_eq!(desc.length() as u64, CHUNK_SIZE - 96);
}

#[test]
fn set_length_keeps_the_offset() {
    let mut desc = data_desc(CHUNK_SIZE + 128, 9, 0);
    assert!(desc.set_length(512).is_ok());
    assert_eq!(desc.data_offset(), 128);
    assert_eq!(desc.length(), 512);

    assert!(desc.set_length(CHUNK_SIZE as u32).is_err());
    assert_eq!(desc.length(), 512);
}

#[test]
fn set_addr_keeps_the_length() {
    let mut desc = data_desc(CHUNK_SIZE, 64, 0);
    assert!(desc.set_addr(300).is_ok());
    assert_eq!(desc.data_offset(), 300);
    assert_eq!(desc.length(), 64);

    assert!(desc.set_addr((CHUNK_SIZE - 63) as usize).is_err());
    assert_eq!(desc.data_offset(), 300);
}

#[test]
fn set_options_is_carried_into_the_ring_value() {
    let mut desc = data_desc(0, 0, 0);
    desc.set_options(3);
    assert_eq!(desc.options(), 3);
    assert_eq!(desc.into_ring_repr(), XdpDesc { addr: 0, len: 0, options: 3 });
}

#[test]
fn addr_to_data_conversion_zeroes_length_and_options() {
    let addr_desc = FillCompFrameDescriptor::from_desc(6 * CHUNK_SIZE, CHUNK_SIZE);
    let data_desc = addr_desc.into_rx_tx_descriptor();
    assert_eq!(data_desc.length(), 0);
    assert_eq!(data_desc.options(), 0);
    assert_eq!(data_desc.data_offset(), 0);
    assert_eq!(
        data_desc.into_ring_repr(),
        XdpDesc { addr: 6 * CHUNK_SIZE, len: 0, options: 0 }
    );
}

#[test]
fn round_trip_preserves_base_addr() {
    // addr -> data -> addr, starting from a chunk-aligned address
    let aligned = FillCompFrameDescriptor::from_desc(2 * CHUNK_SIZE, CHUNK_SIZE);
    let back = aligned.into_rx_tx_descriptor().into_fill_comp_descriptor();
    assert_eq!(back.into_ring_repr(), 2 * CHUNK_SIZE);

    // an intra-chunk offset collapses to the same chunk base
    let mut with_offset = FillCompFrameDescriptor::from_desc(2 * CHUNK_SIZE, CHUNK_SIZE)
        .into_rx_tx_descriptor();
    assert!(with_offset.set_addr(99).is_ok());
    let back = with_offset.into_fill_comp_descriptor();
    assert_eq!(back.into_ring_repr(), 2 * CHUNK_SIZE);
}

#[test]
fn exceeds_chunk_size_message() {
    assert_eq!(
        ExceedsChunkSize.message(),
        "Length and offset combined exceed chunk size."
    );
}
