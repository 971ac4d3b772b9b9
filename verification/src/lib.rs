//! User-space support library for AF_XDP packet I/O.
//!
//! An application owns a contiguous UMEM region shared with the kernel and
//! exchanges ownership of fixed-size chunks through four single-producer /
//! single-consumer rings per socket (FILL, COMPLETION, RX, TX). This crate
//! holds the verified core of that lifecycle: descriptor address arithmetic,
//! ring counter logic, UMEM sizing and the chunk pool, the process-wide
//! marker guard, and the XSKMAP membership bookkeeping. The raw kernel
//! interface (mmap, socket options, bind, BPF map syscalls) lives outside
//! the verified library and consumes plain values from it.

pub mod descriptor;
pub mod error;
pub mod ring;
pub mod umem;
pub mod xsk_map;
