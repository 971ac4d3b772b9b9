pub mod inner;

use vstd::arithmetic::div_mod::{
    lemma_add_mod_noop, lemma_add_mod_noop_right, lemma_mod_add_multiples_vanish,
    lemma_mod_division_less_than_divisor, lemma_small_mod,
};
use vstd::arithmetic::power2::{lemma2_to64, lemma_pow2_pos, lemma_pow2_strictly_increases, pow2};
use vstd::bits::{lemma_u32_low_bits_mask_is_mod, low_bits_mask};
use vstd::prelude::*;

use core::marker::PhantomData;

use crate::descriptor::{
    Descriptor, FillCompFrameDescriptor, RxTxFrameDescriptor, SealedDescriptorImpl, XdpDesc,
};
use crate::ring::inner::{model_pop, model_push, InnerRing, RingModel};

verus! {

/// Role marker: the application side of the ring consumes entries the kernel
/// produced (RX and COMPLETION rings).
#[derive(Debug, Ord, PartialOrd, Eq, PartialEq, Hash, Copy, Clone)]
pub struct Consumer;

/// Role marker: the application side of the ring produces entries the kernel
/// consumes (TX and FILL rings).
#[derive(Debug, Ord, PartialOrd, Eq, PartialEq, Hash, Copy, Clone)]
pub struct Producer;

/// Bit the kernel sets in a ring's flags word when it wants the application
/// to issue a wakeup system call.
pub const XDP_RING_NEED_WAKEUP: u32 = 1;

/// A legal ring size: a power of two, at most `u32::MAX >> 1`. The spare bit
/// lets wrapping subtraction of the two 32-bit counters recover the fill
/// level even after the producer counter has wrapped past the consumer.
pub open spec fn is_ring_size(n: nat) -> bool {
    exists|k: nat| k <= 31 && n == pow2(k)
}

pub proof fn lemma_ring_size_bounds(n: nat)
    requires
        is_ring_size(n),
    ensures
        0 < n <= 0x8000_0000,
{
    let k = choose|k: nat| k <= 31 && n == pow2(k);
    lemma_pow2_pos(k);
    lemma2_to64();
    if k < 31 {
        lemma_pow2_strictly_increases(k, 31);
    }
}

/// `x + k` under 32-bit wraparound.
pub open spec fn wrap_add32(x: u32, k: nat) -> u32 {
    ((x + k) % 0x1_0000_0000) as u32
}

/// The distance from `y` up to `x` under 32-bit wraparound: the number of
/// counter increments that lead from `y` to `x`.
pub open spec fn wrap_sub32(x: u32, y: u32) -> nat {
    if x >= y {
        (x - y) as nat
    } else {
        (x - y + 0x1_0000_0000) as nat
    }
}

/// `wrap_add32` agrees with the standard library's wrapping addition.
pub proof fn lemma_wrap_add32_is_wrapping_add(x: u32, y: u32)
    ensures
        wrap_add32(x, y as nat) == vstd::wrapping::u32_specs::wrapping_add(x, y),
{
    if x + y > u32::MAX {
        lemma_mod_add_multiples_vanish((x + y - 0x1_0000_0000) as int, 0x1_0000_0000);
        lemma_small_mod((x + y - 0x1_0000_0000) as nat, 0x1_0000_0000);
    } else {
        lemma_small_mod((x + y) as nat, 0x1_0000_0000);
    }
}

/// Adding nothing wraps to the same counter.
pub proof fn lemma_wrap_add32_zero(x: u32)
    ensures
        wrap_add32(x, 0) == x,
{
    lemma_small_mod(x as nat, 0x1_0000_0000);
}

/// Wrapping additions compose.
pub proof fn lemma_wrap_add32_assoc(x: u32, a: nat, b: nat)
    ensures
        wrap_add32(wrap_add32(x, a), b) == wrap_add32(x, a + b),
{
    let m = 0x1_0000_0000int;
    lemma_add_mod_noop_right((x + a) % m, b as int, m);
    lemma_add_mod_noop(x + a, b as int, m);
    lemma_add_mod_noop_right(x + a, b as int, m);
}

/// Advancing the producer of a non-saturated counter pair widens the
/// distance by one.
pub proof fn lemma_wrap_sub_add_one(p: u32, c: u32)
    requires
        wrap_sub32(p, c) < 0xFFFF_FFFF,
    ensures
        wrap_sub32(wrap_add32(p, 1), c) == wrap_sub32(p, c) + 1,
{
    lemma_wrap_add32_is_wrapping_add(p, 1);
}

/// Advancing the consumer of a non-empty counter pair narrows the distance
/// by one.
pub proof fn lemma_wrap_sub_sub_one(p: u32, c: u32)
    requires
        wrap_sub32(p, c) > 0,
    ensures
        wrap_sub32(p, wrap_add32(c, 1)) == wrap_sub32(p, c) - 1,
{
    lemma_wrap_add32_is_wrapping_add(c, 1);
}

/// The slot a counter selects: the counter masked down to the ring size.
fn ring_index(counter: u32, len: usize) -> (r: usize)
    requires
        is_ring_size(len as nat),
    ensures
        r == counter as int % len as int,
        r < len,
{
    proof {
        lemma_ring_size_bounds(len as nat);
        let k = choose|k: nat| k <= 31 && len as nat == pow2(k);
        lemma_u32_low_bits_mask_is_mod(counter, k);
        lemma_mod_division_less_than_divisor(counter as int, len as int);
        assert((len as u32 - 1) as u32 == low_bits_mask(k) as u32);
    }
    (counter & (len as u32 - 1)) as usize
}

/// Producer step of one SPSC ring: `None` exactly when the ring is full,
/// else the slot index to fill and the producer value to store afterwards.
/// Every ring of this library — the in-memory one here and the
/// kernel-shared one outside it — writes its slot and advances its counter
/// at exactly the positions this function names.
pub fn push_step(producer: u32, consumer: u32, ring_size: usize) -> (r: Option<(usize, u32)>)
    requires
        is_ring_size(ring_size as nat),
    ensures
        r is None <==> wrap_sub32(producer, consumer) == ring_size,
        r matches Some((idx, next)) ==> idx == producer as int % ring_size as int && idx
            < ring_size && next == wrap_add32(producer, 1),
{
    proof {
        lemma_ring_size_bounds(ring_size as nat);
    }
    if producer.wrapping_sub(consumer) == ring_size as u32 {
        None
    } else {
        proof {
            lemma_wrap_add32_is_wrapping_add(producer, 1);
        }
        Some((ring_index(producer, ring_size), producer.wrapping_add(1)))
    }
}

/// Consumer step of one SPSC ring: `None` exactly when the ring is empty,
/// else the slot index to read and the consumer value to store afterwards.
pub fn pop_step(producer: u32, consumer: u32, ring_size: usize) -> (r: Option<(usize, u32)>)
    requires
        is_ring_size(ring_size as nat),
        wrap_sub32(producer, consumer) <= ring_size,
    ensures
        r is None <==> producer == consumer,
        r matches Some((idx, next)) ==> idx == consumer as int % ring_size as int && idx
            < ring_size && next == wrap_add32(consumer, 1),
{
    if producer == consumer {
        None
    } else {
        proof {
            lemma_ring_size_bounds(ring_size as nat);
            lemma_wrap_add32_is_wrapping_add(consumer, 1);
        }
        Some((ring_index(consumer, ring_size), consumer.wrapping_add(1)))
    }
}

/// The wakeup decision on a freshly read flags word: true iff the word is
/// present and its wakeup bit is set.
pub fn wakeup_needed(flags: Option<u32>) -> (r: bool)
    ensures
        r == (match flags {
            Some(f) => f & XDP_RING_NEED_WAKEUP != 0,
            None => false,
        }),
{
    if let Some(f) = flags {
        f & XDP_RING_NEED_WAKEUP != 0
    } else {
        false
    }
}

/// Entries produced and not yet consumed, from the two counters.
pub fn filled_entries_of(producer: u32, consumer: u32) -> (r: u32)
    ensures
        r == wrap_sub32(producer, consumer),
{
    producer.wrapping_sub(consumer)
}

/// Slots still free for the producer, from the two counters.
pub fn free_entries_of(producer: u32, consumer: u32, ring_size: usize) -> (r: u32)
    requires
        is_ring_size(ring_size as nat),
        wrap_sub32(producer, consumer) <= ring_size,
    ensures
        r == ring_size - wrap_sub32(producer, consumer),
{
    proof {
        lemma_ring_size_bounds(ring_size as nat);
    }
    consumer.wrapping_add(ring_size as u32).wrapping_sub(producer)
}

/// Bytes one ring mapping spans: the descriptor array offset reported by the
/// kernel plus the slot array itself.
pub fn ring_mmap_size(desc_offset: u64, ring_size: usize, descriptor_size: usize) -> (r: usize)
    requires
        desc_offset + ring_size * descriptor_size <= usize::MAX,
    ensures
        r == desc_offset + ring_size * descriptor_size,
{
    desc_offset as usize + ring_size * descriptor_size
}

/// A fresh FILL/COMPLETION slot array, zeroed as the kernel maps it.
pub(crate) fn zeroed_addr_ring_region(ring_size: usize) -> (r: Vec<u64>)
    ensures
        r@.len() == ring_size,
        forall|i: int| 0 <= i < ring_size ==> r@[i] == 0,
{
    let mut region: Vec<u64> = Vec::new();
    while region.len() < ring_size
        invariant
            region@.len() <= ring_size,
            forall|i: int| 0 <= i < region@.len() ==> region@[i] == 0,
        decreases ring_size - region@.len(),
    {
        region.push(0u64);
    }
    region
}

/// A fresh RX/TX slot array, zeroed as the kernel maps it.
pub(crate) fn zeroed_data_ring_region(ring_size: usize) -> (r: Vec<XdpDesc>)
    ensures
        r@.len() == ring_size,
        forall|i: int| 0 <= i < ring_size ==> r@[i] == (XdpDesc { addr: 0, len: 0, options: 0 }),
{
    let mut region: Vec<XdpDesc> = Vec::new();
    while region.len() < ring_size
        invariant
            region@.len() <= ring_size,
            forall|i: int|
                0 <= i < region@.len() ==> region@[i] == (XdpDesc { addr: 0, len: 0, options: 0 }),
        decreases ring_size - region@.len(),
    {
        region.push(XdpDesc { addr: 0, len: 0, options: 0 });
    }
    region
}

/// One of the four rings of a socket, tagged by the application's role on
/// it. Only a `Producer` ring can push and only a `Consumer` ring can pop;
/// the kernel plays the opposite role on the same counters.
pub struct Ring<Role, D: Descriptor> {
    inner: InnerRing<D>,
    role: PhantomData<Role>,
}

/// The application consumes RX: the kernel publishes received frames there.
pub type RxRing = Ring<Consumer, RxTxFrameDescriptor>;

/// The application produces TX: it publishes frames to transmit.
pub type TxRing = Ring<Producer, RxTxFrameDescriptor>;

/// The application consumes COMPLETION: the kernel publishes transmitted
/// chunks there.
pub type CompletionRing = Ring<Consumer, FillCompFrameDescriptor>;

/// The application produces FILL: it publishes chunks the kernel may fill.
pub type FillRing = Ring<Producer, FillCompFrameDescriptor>;

impl<Role, D: Descriptor> Ring<Role, D> {
    /// The underlying counter-and-slots state.
    pub closed spec fn spec_inner(&self) -> InnerRing<D> {
        self.inner
    }

    pub open spec fn wf(&self) -> bool {
        self.spec_inner().wf()
    }

    /// The ring's abstract state.
    pub open spec fn abs(&self) -> RingModel<D::InRingDescriptorType> {
        self.spec_inner().abs()
    }

    pub open spec fn spec_filled(&self) -> nat {
        self.spec_inner().spec_filled()
    }

    pub open spec fn spec_ring_size(&self) -> nat {
        self.spec_inner().spec_ring_size()
    }

    pub open spec fn spec_chunk_size(&self) -> u64 {
        self.spec_inner().spec_chunk_size()
    }

    pub(crate) fn from_inner(inner: InnerRing<D>) -> (r: Ring<Role, D>)
        ensures
            r.spec_inner() == inner,
    {
        Ring { inner, role: PhantomData }
    }

    pub fn flags(&self) -> (r: Option<u32>)
        ensures
            r == self.spec_inner().spec_flags(),
    {
        self.inner.flags()
    }

    /// True iff the kernel exposed a flags word and set its wakeup bit.
    pub fn needs_wakeup(&self) -> (r: bool)
        ensures
            r == match self.spec_inner().spec_flags() {
                Some(f) => f & XDP_RING_NEED_WAKEUP != 0,
                None => false,
            },
    {
        self.inner.needs_wakeup()
    }

    pub fn free_entries(&self) -> (r: u32)
        requires
            self.wf(),
        ensures
            r == self.spec_ring_size() - self.spec_filled(),
    {
        self.inner.free_entries()
    }

    pub fn filled_entries(&self) -> (r: u32)
        requires
            self.wf(),
        ensures
            r == self.spec_filled(),
    {
        self.inner.filled_entries()
    }

    pub fn is_empty(&self) -> (r: bool)
        ensures
            r == (self.spec_filled() == 0),
    {
        self.inner.is_empty()
    }

    pub fn is_full(&self) -> (r: bool)
        requires
            self.wf(),
        ensures
            r == (self.spec_filled() == self.spec_ring_size()),
    {
        self.inner.is_full()
    }
}

impl<D: Descriptor> Ring<Producer, D> {
    /// Publishes `input` to the kernel, or hands it back unchanged when the
    /// ring is full, so ownership of the chunk is never lost.
    pub fn push(&mut self, input: D) -> (r: Result<(), D>)
        requires
            old(self).wf(),
            input.spec_chunk_size() == old(self).spec_chunk_size(),
        ensures
            final(self).wf(),
            final(self).spec_chunk_size() == old(self).spec_chunk_size(),
            final(self).spec_ring_size() == old(self).spec_ring_size(),
            final(self).spec_inner().spec_flags() == old(self).spec_inner().spec_flags(),
            old(self).spec_filled() == old(self).spec_ring_size() ==> r == Result::<(), D>::Err(
                input,
            ) && *final(self) == *old(self),
            old(self).spec_filled() < old(self).spec_ring_size() ==> r is Ok && final(self).abs()
                == model_push(old(self).abs(), input.spec_ring_repr()),
    {
        self.inner.push(input)
    }
}

impl<D: Descriptor> Ring<Consumer, D> {
    /// Reclaims the oldest entry the kernel published, or returns `None` and
    /// leaves the ring untouched when it is empty.
    pub fn pop(&mut self) -> (r: Option<D>)
        requires
            old(self).wf(),
        ensures
            final(self).wf(),
            final(self).spec_chunk_size() == old(self).spec_chunk_size(),
            final(self).spec_inner().spec_flags() == old(self).spec_inner().spec_flags(),
            old(self).spec_filled() == 0 ==> r is None && *final(self) == *old(self),
            old(self).spec_filled() > 0 ==> {
                &&& r == Some(
                    D::spec_from_desc(
                        old(self).spec_inner().window()[0],
                        old(self).spec_chunk_size(),
                    ),
                )
                &&& final(self).abs() == model_pop(old(self).abs())
            },
    {
        self.inner.pop()
    }
}

} // verus!
