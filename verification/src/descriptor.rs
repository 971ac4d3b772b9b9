pub mod error;

use vstd::arithmetic::div_mod::{
    lemma_div_pos_is_pos, lemma_fundamental_div_mod, lemma_fundamental_div_mod_converse,
    lemma_mod_division_less_than_divisor,
};
use vstd::arithmetic::mul::{lemma_mul_is_commutative, lemma_mul_nonnegative};
use vstd::prelude::*;

use crate::descriptor::error::ExceedsChunkSize;

verus! {

/// In-ring representation of an RX/TX slot, as laid down by the kernel ABI:
/// a 64-bit UMEM offset, a data length, and an options bitset.
#[derive(Clone, Copy, Debug, PartialEq, Eq, Structural)]
pub struct XdpDesc {
    pub addr: u64,
    pub len: u32,
    pub options: u32,
}

/// The chunk base address of `addr`: `addr` rounded down to a multiple of
/// `chunk_size`.
pub open spec fn spec_base_addr_of(addr: u64, chunk_size: u64) -> u64
    recommends
        chunk_size > 0,
{
    ((addr as int / chunk_size as int) * chunk_size as int) as u64
}

/// The chunk base address never exceeds the address it is derived from, and
/// the address sits less than one chunk beyond it.
pub proof fn lemma_base_addr_bounds(addr: u64, chunk_size: u64)
    requires
        chunk_size > 0,
    ensures
        (addr as int / chunk_size as int) * chunk_size as int == spec_base_addr_of(
            addr,
            chunk_size,
        ) as int,
        spec_base_addr_of(addr, chunk_size) <= addr,
        addr - spec_base_addr_of(addr, chunk_size) < chunk_size,
        addr - spec_base_addr_of(addr, chunk_size) == addr as int % chunk_size as int,
{
    let a = addr as int;
    let c = chunk_size as int;
    lemma_fundamental_div_mod(a, c);
    lemma_mod_division_less_than_divisor(a, c);
    lemma_div_pos_is_pos(a, c);
    lemma_mul_nonnegative(a / c, c);
    lemma_mul_is_commutative(a / c, c);
    assert((a / c) * c == a - a % c);
    assert(0 <= (a / c) * c <= a);
}

/// Rounding a multiple of the chunk size, plus an intra-chunk offset, down to
/// the chunk boundary gives that multiple back.
pub proof fn lemma_base_of_multiple_plus_offset(q: u64, offset: u64, chunk_size: u64)
    requires
        chunk_size > 0,
        offset < chunk_size,
        q * chunk_size + offset <= u64::MAX,
    ensures
        spec_base_addr_of((q * chunk_size + offset) as u64, chunk_size) == q * chunk_size,
{
    let x = q * chunk_size + offset;
    lemma_fundamental_div_mod_converse(x as int, chunk_size as int, q as int, offset as int);
}

/// Rounding down to the chunk boundary is idempotent.
pub proof fn lemma_base_addr_idempotent(addr: u64, chunk_size: u64)
    requires
        chunk_size > 0,
    ensures
        spec_base_addr_of(spec_base_addr_of(addr, chunk_size), chunk_size) == spec_base_addr_of(
            addr,
            chunk_size,
        ),
{
    lemma_base_addr_bounds(addr, chunk_size);
    let q = addr as int / chunk_size as int;
    lemma_base_of_multiple_plus_offset((q) as u64, 0, chunk_size);
}

/// Computes the chunk base address of `addr`.
pub(crate) fn base_addr_val(addr: u64, chunk_size: u64) -> (r: u64)
    requires
        chunk_size > 0,
    ensures
        r == spec_base_addr_of(addr, chunk_size),
        r <= addr,
        addr - r < chunk_size,
{
    proof {
        lemma_base_addr_bounds(addr, chunk_size);
    }
    (addr / chunk_size) * chunk_size
}

/// The in-ring form of each descriptor kind and the conversions to and from
/// it. Sealed: only the two frame descriptor types implement it.
pub trait SealedDescriptorImpl: Sized {
    type InRingDescriptorType: Copy;

    /// The chunk size this descriptor does its address arithmetic with.
    spec fn spec_chunk_size(&self) -> u64;

    /// The wire form this descriptor writes into a ring slot.
    spec fn spec_ring_repr(&self) -> Self::InRingDescriptorType;

    /// The descriptor reconstructed from a ring slot.
    spec fn spec_from_desc(ring_repr: Self::InRingDescriptorType, chunk_size: u64) -> Self;

    /// Reconstructing a descriptor from its own wire form gives the
    /// descriptor back.
    proof fn lemma_ring_repr_round_trip(&self)
        ensures
            Self::spec_from_desc(self.spec_ring_repr(), self.spec_chunk_size()) == *self,
    ;

    fn into_ring_repr(self) -> (r: Self::InRingDescriptorType)
        ensures
            r == self.spec_ring_repr(),
    ;

    fn from_desc(ring_repr: Self::InRingDescriptorType, chunk_size: u64) -> (r: Self)
        requires
            chunk_size > 0,
        ensures
            r == Self::spec_from_desc(ring_repr, chunk_size),
            r.spec_chunk_size() == chunk_size,
    ;

    fn base_addr(desc: &Self::InRingDescriptorType, chunk_size: u64) -> (r: u64)
        requires
            chunk_size > 0,
        ensures
            r == Self::spec_from_desc(*desc, chunk_size).spec_base_addr(),
    ;

    /// The chunk base address of the descriptor itself.
    spec fn spec_base_addr(&self) -> u64;
}

/// Public face of the sealed descriptor interface.
pub trait Descriptor: SealedDescriptorImpl {

}

/// A frame descriptor as it travels through the RX and TX rings: a UMEM
/// address, the data length, and kernel options. The value is move-only:
/// pushing it models handing the chunk to the kernel, popping models
/// reclaiming it. The chunk bytes themselves live in the registered UMEM
/// region outside this library; the descriptor's verified arithmetic names
/// the byte range they occupy.
#[derive(Debug, PartialEq, Eq, Structural)]
pub struct RxTxFrameDescriptor {
    descriptor: XdpDesc,
    chunk_size: u64,
}

/// A frame descriptor as it travels through the FILL and COMPLETION rings:
/// a bare UMEM address. The value is move-only: pushing it models handing
/// the chunk to the kernel, popping models reclaiming it.
#[derive(Debug, PartialEq, Eq, Structural)]
pub struct FillCompFrameDescriptor {
    addr: u64,
    chunk_size: u64,
}

impl RxTxFrameDescriptor {
    pub closed spec fn spec_addr(&self) -> u64 {
        self.descriptor.addr
    }

    pub closed spec fn spec_len(&self) -> u32 {
        self.descriptor.len
    }

    pub closed spec fn spec_options(&self) -> u32 {
        self.descriptor.options
    }

    /// Byte offset of the data start from the chunk base.
    pub open spec fn spec_data_offset(&self) -> int {
        self.spec_addr() - self.spec_base_addr()
    }

    /// The descriptor's address arithmetic is sound: the data region lies
    /// inside its chunk.
    pub open spec fn wf(&self) -> bool {
        &&& self.spec_chunk_size() > 0
        &&& self.spec_chunk_size() <= usize::MAX as u64
        &&& self.spec_data_offset() + self.spec_len() <= self.spec_chunk_size()
    }

    pub fn options(&self) -> (r: u32)
        ensures
            r == self.spec_options(),
    {
        self.descriptor.options
    }

    pub fn set_options(&mut self, options: u32)
        ensures
            final(self).spec_options() == options,
            final(self).spec_addr() == old(self).spec_addr(),
            final(self).spec_len() == old(self).spec_len(),
            final(self).spec_chunk_size() == old(self).spec_chunk_size(),
    {
        self.descriptor.options = options;
    }

    /// The chunk base address; the data bytes lie at
    /// `[base + data_offset, base + data_offset + length)` of the UMEM.
    pub fn base_addr_value(&self) -> (r: u64)
        requires
            self.spec_chunk_size() > 0,
        ensures
            r == self.spec_base_addr(),
    {
        base_addr_val(self.descriptor.addr, self.chunk_size)
    }

    pub fn data_offset(&self) -> (r: usize)
        requires
            self.spec_chunk_size() > 0,
            self.spec_chunk_size() <= usize::MAX as u64,
        ensures
            r == self.spec_data_offset(),
            r < self.spec_chunk_size(),
    {
        let base = base_addr_val(self.descriptor.addr, self.chunk_size);
        (self.descriptor.addr - base) as usize
    }

    pub fn length(&self) -> (r: usize)
        ensures
            r == self.spec_len(),
    {
        self.descriptor.len as usize
    }

    /// Moves the data start to `offset_from_base_addr` bytes past the chunk
    /// base and sets the data length, rejecting any combination that would
    /// leave the chunk. On rejection the descriptor is unchanged.
    pub fn set_addr_and_length(&mut self, offset_from_base_addr: usize, length: u32) -> (r: Result<
        (),
        ExceedsChunkSize,
    >)
        requires
            old(self).spec_chunk_size() > 0,
            old(self).spec_chunk_size() <= usize::MAX as u64,
            old(self).spec_addr() <= u64::MAX - old(self).spec_chunk_size(),
        ensures
            r is Ok <==> offset_from_base_addr + length <= old(self).spec_chunk_size(),
            r is Err ==> *final(self) == *old(self),
            r is Ok ==> {
                &&& final(self).spec_addr() == old(self).spec_base_addr() + offset_from_base_addr
                &&& final(self).spec_len() == length
                &&& final(self).spec_options() == old(self).spec_options()
                &&& final(self).spec_chunk_size() == old(self).spec_chunk_size()
                &&& final(self).wf()
            },
            r is Ok && offset_from_base_addr < old(self).spec_chunk_size() ==> {
                &&& final(self).spec_base_addr() == old(self).spec_base_addr()
                &&& final(self).spec_data_offset() == offset_from_base_addr
            },
    {
        if offset_from_base_addr as u64 > self.chunk_size || length as u64 > self.chunk_size
            - offset_from_base_addr as u64 {
            return Err(ExceedsChunkSize);
        }
        let ghost old_self = *self;
        let base = base_addr_val(self.descriptor.addr, self.chunk_size);
        self.descriptor.addr = base + offset_from_base_addr as u64;
        self.descriptor.len = length;
        proof {
            let cs = self.chunk_size;
            let a0 = old_self.descriptor.addr;
            lemma_base_addr_bounds(a0, cs);
            let q = a0 as int / cs as int;
            assert(0 <= q) by {
                lemma_div_pos_is_pos(a0 as int, cs as int);
            }
            assert(q <= q * cs as int) by (nonlinear_arith)
                requires
                    0 <= q,
                    1 <= cs,
            ;
            if (offset_from_base_addr as u64) < cs {
                lemma_base_of_multiple_plus_offset(q as u64, offset_from_base_addr as u64, cs);
            } else {
                // offset == chunk_size, only reachable with length == 0; the
                // new address is exactly the next chunk boundary.
                assert((q + 1) * cs as int == q * cs as int + cs as int) by (nonlinear_arith);
                lemma_base_of_multiple_plus_offset((q + 1) as u64, 0, cs);
            }
        }
        Ok(())
    }

    /// Sets the data length, keeping the data offset; composes onto
    /// `set_addr_and_length`.
    pub fn set_length(&mut self, length: u32) -> (r: Result<(), ExceedsChunkSize>)
        requires
            old(self).spec_chunk_size() > 0,
            old(self).spec_chunk_size() <= usize::MAX as u64,
            old(self).spec_addr() <= u64::MAX - old(self).spec_chunk_size(),
        ensures
            r is Ok <==> old(self).spec_data_offset() + length <= old(self).spec_chunk_size(),
            r is Err ==> *final(self) == *old(self),
            r is Ok ==> {
                &&& final(self).spec_addr() == old(self).spec_addr()
                &&& final(self).spec_len() == length
                &&& final(self).spec_options() == old(self).spec_options()
                &&& final(self).spec_chunk_size() == old(self).spec_chunk_size()
                &&& final(self).wf()
            },
    {
        let offset = self.data_offset();
        let r = self.set_addr_and_length(offset, length);
        r
    }

    /// Moves the data start, keeping the data length; composes onto
    /// `set_addr_and_length`.
    pub fn set_addr(&mut self, offset_from_base_addr: usize) -> (r: Result<(), ExceedsChunkSize>)
        requires
            old(self).spec_chunk_size() > 0,
            old(self).spec_chunk_size() <= usize::MAX as u64,
            old(self).spec_addr() <= u64::MAX - old(self).spec_chunk_size(),
        ensures
            r is Ok <==> offset_from_base_addr + old(self).spec_len() <= old(
                self,
            ).spec_chunk_size(),
            r is Err ==> *final(self) == *old(self),
            r is Ok ==> {
                &&& final(self).spec_addr() == old(self).spec_base_addr() + offset_from_base_addr
                &&& final(self).spec_len() == old(self).spec_len()
                &&& final(self).spec_options() == old(self).spec_options()
                &&& final(self).spec_chunk_size() == old(self).spec_chunk_size()
                &&& final(self).wf()
            },
            r is Ok && offset_from_base_addr < old(self).spec_chunk_size() ==> {
                &&& final(self).spec_base_addr() == old(self).spec_base_addr()
                &&& final(self).spec_data_offset() == offset_from_base_addr
            },
    {
        let len = self.descriptor.len;
        self.set_addr_and_length(offset_from_base_addr, len)
    }

    /// Converts into the FILL/COMPLETION flavor, keeping the chunk base
    /// address and discarding the intra-chunk offset and length.
    pub fn into_fill_comp_descriptor(self) -> (r: FillCompFrameDescriptor)
        requires
            self.spec_chunk_size() > 0,
        ensures
            r == self.spec_into_fill_comp(),
            r.spec_addr() == self.spec_base_addr(),
            r.spec_chunk_size() == self.spec_chunk_size(),
    {
        let base = base_addr_val(self.descriptor.addr, self.chunk_size);
        FillCompFrameDescriptor { addr: base, chunk_size: self.chunk_size }
    }

    /// The FILL/COMPLETION descriptor that `into_fill_comp_descriptor`
    /// yields.
    pub closed spec fn spec_into_fill_comp(&self) -> FillCompFrameDescriptor {
        FillCompFrameDescriptor {
            addr: spec_base_addr_of(self.descriptor.addr, self.chunk_size),
            chunk_size: self.chunk_size,
        }
    }
}

impl SealedDescriptorImpl for RxTxFrameDescriptor {
    type InRingDescriptorType = XdpDesc;

    closed spec fn spec_chunk_size(&self) -> u64 {
        self.chunk_size
    }

    closed spec fn spec_ring_repr(&self) -> XdpDesc {
        self.descriptor
    }

    closed spec fn spec_from_desc(ring_repr: XdpDesc, chunk_size: u64) -> Self {
        RxTxFrameDescriptor { descriptor: ring_repr, chunk_size }
    }

    proof fn lemma_ring_repr_round_trip(&self) {
    }

    fn into_ring_repr(self) -> XdpDesc {
        self.descriptor
    }

    fn from_desc(ring_repr: XdpDesc, chunk_size: u64) -> Self {
        RxTxFrameDescriptor { descriptor: ring_repr, chunk_size }
    }

    fn base_addr(desc: &XdpDesc, chunk_size: u64) -> u64 {
        base_addr_val(desc.addr, chunk_size)
    }

    open spec fn spec_base_addr(&self) -> u64 {
        spec_base_addr_of(self.spec_addr(), self.spec_chunk_size())
    }
}

impl Descriptor for RxTxFrameDescriptor {

}

impl FillCompFrameDescriptor {
    pub closed spec fn spec_addr(&self) -> u64 {
        self.addr
    }

    /// Converts into the RX/TX flavor with zeroed length and options,
    /// keeping the address.
    pub fn into_rx_tx_descriptor(self) -> (r: RxTxFrameDescriptor)
        ensures
            r == self.spec_into_rx_tx(),
            r.spec_addr() == self.spec_addr(),
            r.spec_len() == 0,
            r.spec_options() == 0,
            r.spec_chunk_size() == self.spec_chunk_size(),
    {
        RxTxFrameDescriptor {
            descriptor: XdpDesc { addr: self.addr, len: 0, options: 0 },
            chunk_size: self.chunk_size,
        }
    }

    /// The RX/TX descriptor that `into_rx_tx_descriptor` yields.
    pub closed spec fn spec_into_rx_tx(&self) -> RxTxFrameDescriptor {
        RxTxFrameDescriptor {
            descriptor: XdpDesc { addr: self.addr, len: 0, options: 0 },
            chunk_size: self.chunk_size,
        }
    }
}

impl SealedDescriptorImpl for FillCompFrameDescriptor {
    type InRingDescriptorType = u64;

    closed spec fn spec_chunk_size(&self) -> u64 {
        self.chunk_size
    }

    closed spec fn spec_ring_repr(&self) -> u64 {
        self.addr
    }

    closed spec fn spec_from_desc(ring_repr: u64, chunk_size: u64) -> Self {
        FillCompFrameDescriptor { addr: ring_repr, chunk_size }
    }

    proof fn lemma_ring_repr_round_trip(&self) {
    }

    fn into_ring_repr(self) -> u64 {
        self.addr
    }

    fn from_desc(ring_repr: u64, chunk_size: u64) -> Self {
        FillCompFrameDescriptor { addr: ring_repr, chunk_size }
    }

    fn base_addr(desc: &u64, chunk_size: u64) -> u64 {
        base_addr_val(*desc, chunk_size)
    }

    open spec fn spec_base_addr(&self) -> u64 {
        spec_base_addr_of(self.spec_addr(), self.spec_chunk_size())
    }
}

impl Descriptor for FillCompFrameDescriptor {

}

/// What reconstructing a FILL/COMPLETION descriptor from a ring slot
/// yields, field by field.
pub proof fn lemma_fill_comp_from_desc(ring_repr: u64, chunk_size: u64)
    ensures
        FillCompFrameDescriptor::spec_from_desc(ring_repr, chunk_size).spec_addr() == ring_repr,
        FillCompFrameDescriptor::spec_from_desc(ring_repr, chunk_size).spec_chunk_size()
            == chunk_size,
{
}

/// What reconstructing an RX/TX descriptor from a ring slot yields, field
/// by field.
pub proof fn lemma_rx_tx_from_desc(ring_repr: XdpDesc, chunk_size: u64)
    ensures
        RxTxFrameDescriptor::spec_from_desc(ring_repr, chunk_size).spec_addr() == ring_repr.addr,
        RxTxFrameDescriptor::spec_from_desc(ring_repr, chunk_size).spec_len() == ring_repr.len,
        RxTxFrameDescriptor::spec_from_desc(ring_repr, chunk_size).spec_options()
            == ring_repr.options,
        RxTxFrameDescriptor::spec_from_desc(ring_repr, chunk_size).spec_chunk_size() == chunk_size,
{
}

/// The ring slot a FILL/COMPLETION descriptor writes is its address.
pub proof fn lemma_fill_comp_ring_repr(d: FillCompFrameDescriptor)
    ensures
        d.spec_ring_repr() == d.spec_addr(),
{
}

/// The ring slot an RX/TX descriptor writes carries its address, length and
/// options.
pub proof fn lemma_rx_tx_ring_repr(d: RxTxFrameDescriptor)
    ensures
        d.spec_ring_repr() == (XdpDesc {
            addr: d.spec_addr(),
            len: d.spec_len(),
            options: d.spec_options(),
        }),
{
}

/// Converting a FILL/COMPLETION descriptor to the RX/TX flavor and back
/// preserves the chunk base address. If the starting address was already
/// chunk-aligned, it is preserved exactly.
pub proof fn lemma_addr_desc_round_trip(d: FillCompFrameDescriptor)
    requires
        d.spec_chunk_size() > 0,
    ensures
        d.spec_into_rx_tx().spec_into_fill_comp().spec_base_addr() == d.spec_base_addr(),
        d.spec_into_rx_tx().spec_into_fill_comp().spec_addr() == d.spec_base_addr(),
{
    lemma_base_addr_idempotent(d.spec_addr(), d.spec_chunk_size());
}

} // verus!
