use vstd::arithmetic::div_mod::{
    lemma_fundamental_div_mod, lemma_mod_division_less_than_divisor, lemma_mod_mod,
    lemma_mod_multiples_basic,
};
use vstd::arithmetic::power2::{lemma2_to64, lemma_pow2_adds, pow2};
use vstd::prelude::*;

use crate::descriptor::{Descriptor, SealedDescriptorImpl};
use crate::ring::{
    filled_entries_of, free_entries_of, is_ring_size, lemma_ring_size_bounds,
    lemma_wrap_add32_assoc, lemma_wrap_add32_zero, lemma_wrap_sub_add_one, lemma_wrap_sub_sub_one,
    pop_step, push_step, wakeup_needed, wrap_add32, wrap_sub32, XDP_RING_NEED_WAKEUP,
};

verus! {

/// Abstract state of one SPSC ring: the two 32-bit counters and the window
/// of slot values that have been produced but not yet consumed, oldest
/// first.
pub ghost struct RingModel<R> {
    pub producer: u32,
    pub consumer: u32,
    pub window: Seq<R>,
    pub size: nat,
}

pub open spec fn model_wf<R>(m: RingModel<R>) -> bool {
    &&& is_ring_size(m.size)
    &&& m.window.len() == wrap_sub32(m.producer, m.consumer)
    &&& m.window.len() <= m.size
}

/// A successful push: the new entry joins the back of the window and the
/// producer counter advances by one, wrapping.
pub open spec fn model_push<R>(m: RingModel<R>, r: R) -> RingModel<R> {
    RingModel {
        producer: wrap_add32(m.producer, 1),
        consumer: m.consumer,
        window: m.window.push(r),
        size: m.size,
    }
}

/// A successful pop: the oldest entry leaves the front of the window and the
/// consumer counter advances by one, wrapping.
pub open spec fn model_pop<R>(m: RingModel<R>) -> RingModel<R> {
    RingModel {
        producer: m.producer,
        consumer: wrap_add32(m.consumer, 1),
        window: m.window.drop_first(),
        size: m.size,
    }
}

/// One application-side ring operation, for stating laws about operation
/// sequences.
pub enum RingOp<R> {
    Push(R),
    Pop,
}

/// Every operation in `ops`, applied in order starting from `m`, succeeds:
/// no push meets a full ring and no pop meets an empty one.
pub open spec fn model_ops_ok<R>(m: RingModel<R>, ops: Seq<RingOp<R>>) -> bool
    decreases ops.len(),
{
    ops.len() == 0 || (match ops[0] {
        RingOp::Push(r) => m.window.len() < m.size && model_ops_ok(
            model_push(m, r),
            ops.drop_first(),
        ),
        RingOp::Pop => m.window.len() > 0 && model_ops_ok(model_pop(m), ops.drop_first()),
    })
}

/// The state after applying `ops` in order, starting from `m`.
pub open spec fn model_run<R>(m: RingModel<R>, ops: Seq<RingOp<R>>) -> RingModel<R>
    decreases ops.len(),
{
    if ops.len() == 0 {
        m
    } else {
        match ops[0] {
            RingOp::Push(r) => model_run(model_push(m, r), ops.drop_first()),
            RingOp::Pop => model_run(model_pop(m), ops.drop_first()),
        }
    }
}

/// The entries the pops in `ops` hand out, in pop order.
pub open spec fn model_popped<R>(m: RingModel<R>, ops: Seq<RingOp<R>>) -> Seq<R>
    decreases ops.len(),
{
    if ops.len() == 0 {
        Seq::empty()
    } else {
        match ops[0] {
            RingOp::Push(r) => model_popped(model_push(m, r), ops.drop_first()),
            RingOp::Pop => seq![m.window[0]] + model_popped(model_pop(m), ops.drop_first()),
        }
    }
}

/// The entries the pushes in `ops` hand in, in push order.
pub open spec fn pushed_of<R>(ops: Seq<RingOp<R>>) -> Seq<R>
    decreases ops.len(),
{
    if ops.len() == 0 {
        Seq::empty()
    } else {
        match ops[0] {
            RingOp::Push(r) => seq![r] + pushed_of(ops.drop_first()),
            RingOp::Pop => pushed_of(ops.drop_first()),
        }
    }
}

pub open spec fn count_push<R>(ops: Seq<RingOp<R>>) -> nat
    decreases ops.len(),
{
    if ops.len() == 0 {
        0
    } else {
        (match ops[0] {
            RingOp::Push(_) => 1nat,
            RingOp::Pop => 0nat,
        }) + count_push(ops.drop_first())
    }
}

pub open spec fn count_pop<R>(ops: Seq<RingOp<R>>) -> nat
    decreases ops.len(),
{
    if ops.len() == 0 {
        0
    } else {
        (match ops[0] {
            RingOp::Push(_) => 0nat,
            RingOp::Pop => 1nat,
        }) + count_pop(ops.drop_first())
    }
}

pub proof fn lemma_pushed_of_len<R>(ops: Seq<RingOp<R>>)
    ensures
        pushed_of(ops).len() == count_push(ops),
    decreases ops.len(),
{
    if ops.len() > 0 {
        lemma_pushed_of_len(ops.drop_first());
    }
}

/// Conservation along any admissible run: what was in the window at the
/// start plus everything pushed is exactly everything popped plus what is in
/// the window at the end, and the counters advance by the operation counts.
pub proof fn lemma_ring_fifo_general<R>(m: RingModel<R>, ops: Seq<RingOp<R>>)
    requires
        model_wf(m),
        model_ops_ok(m, ops),
    ensures
        model_wf(model_run(m, ops)),
        model_run(m, ops).size == m.size,
        model_run(m, ops).producer == wrap_add32(m.producer, count_push(ops)),
        model_run(m, ops).consumer == wrap_add32(m.consumer, count_pop(ops)),
        model_popped(m, ops).len() == count_pop(ops),
        m.window + pushed_of(ops) == model_popped(m, ops) + model_run(m, ops).window,
    decreases ops.len(),
{
    lemma_ring_size_bounds(m.size);
    if ops.len() == 0 {
        lemma_wrap_add32_zero(m.producer);
        lemma_wrap_add32_zero(m.consumer);
        assert(m.window + pushed_of(ops) =~= model_popped(m, ops) + model_run(m, ops).window);
    } else {
        match ops[0] {
            RingOp::Push(r) => {
                let m1 = model_push(m, r);
                lemma_wrap_sub_add_one(m.producer, m.consumer);
                lemma_ring_fifo_general(m1, ops.drop_first());
                lemma_wrap_add32_assoc(m.producer, 1, count_push(ops.drop_first()));
                lemma_wrap_add32_zero(m.consumer);
                lemma_wrap_add32_assoc(m.consumer, 0, count_pop(ops.drop_first()));
                assert(m.window + pushed_of(ops) =~= m1.window + pushed_of(ops.drop_first()));
            },
            RingOp::Pop => {
                let m1 = model_pop(m);
                lemma_wrap_sub_sub_one(m.producer, m.consumer);
                lemma_ring_fifo_general(m1, ops.drop_first());
                lemma_wrap_add32_assoc(m.consumer, 1, count_pop(ops.drop_first()));
                lemma_wrap_add32_zero(m.producer);
                lemma_wrap_add32_assoc(m.producer, 0, count_push(ops.drop_first()));
                assert(m.window + pushed_of(ops) =~= (seq![m.window[0]] + (m1.window + pushed_of(
                    ops.drop_first(),
                ))));
                assert(model_popped(m, ops) + model_run(m, ops).window =~= (seq![m.window[0]] + (
                model_popped(m1, ops.drop_first()) + model_run(m1, ops.drop_first()).window)));
            },
        }
    }
}

/// The FIFO law of the ring counters. After any admissible interleaving of
/// successful pushes and pops on an initially empty ring, the producer and
/// consumer counters have advanced, wrapping, by exactly the number of
/// pushes and pops; their wrapping difference — the fill level — is the
/// difference of those counts and never exceeds the ring size; and the
/// sequence of popped entries is exactly the sequence of pushed entries, in
/// push order. `InnerRing::push` and `InnerRing::pop` establish that each
/// successful call advances `InnerRing::abs` by `model_push` / `model_pop`,
/// so this law governs every such interleaving on the executable ring.
pub proof fn lemma_ring_fifo<R>(m: RingModel<R>, ops: Seq<RingOp<R>>)
    requires
        model_wf(m),
        m.window == Seq::<R>::empty(),
        model_ops_ok(m, ops),
    ensures
        model_wf(model_run(m, ops)),
        count_pop(ops) <= count_push(ops),
        model_run(m, ops).window.len() == count_push(ops) - count_pop(ops),
        model_run(m, ops).window.len() == wrap_sub32(
            model_run(m, ops).producer,
            model_run(m, ops).consumer,
        ) <= m.size,
        model_run(m, ops).producer == wrap_add32(m.producer, count_push(ops)),
        model_run(m, ops).consumer == wrap_add32(m.consumer, count_pop(ops)),
        model_popped(m, ops) == pushed_of(ops).take(count_pop(ops) as int),
        model_run(m, ops).window == pushed_of(ops).skip(count_pop(ops) as int),
{
    lemma_ring_fifo_general(m, ops);
    lemma_pushed_of_len(ops);
    let popped = model_popped(m, ops);
    let w = model_run(m, ops).window;
    let pushed = pushed_of(ops);
    assert(m.window + pushed =~= pushed);
    assert(popped =~= pushed.take(count_pop(ops) as int));
    assert(w =~= pushed.skip(count_pop(ops) as int));
}

/// The window a counter pair and a slot array describe: the slots from the
/// consumer index up to the producer index, in consumption order.
pub open spec fn spec_window_of<R>(producer: u32, consumer: u32, region: Seq<R>) -> Seq<R>
    recommends
        region.len() > 0,
{
    Seq::new(
        wrap_sub32(producer, consumer),
        |i: int| region[(consumer + i) % (region.len() as int)],
    )
}

/// Reducing modulo the ring size commutes with 32-bit wraparound, because
/// every legal ring size divides `2^32`.
proof fn lemma_mod32_collapse(x: int, len: nat)
    requires
        is_ring_size(len),
        0 <= x,
    ensures
        (x % 0x1_0000_0000) % (len as int) == x % (len as int),
{
    let k = choose|k: nat| k <= 31 && len == pow2(k);
    lemma_pow2_adds(k, (32 - k) as nat);
    lemma2_to64();
    assert(len as int * pow2((32 - k) as nat) as int == 0x1_0000_0000);
    lemma_mod_mod(x, len as int, pow2((32 - k) as nat) as int);
}

/// Two indices less than one ring size apart land on distinct slots.
proof fn lemma_mod_distinct(a: int, b: int, n: int)
    requires
        n > 0,
        0 <= a,
        a < b,
        b - a < n,
    ensures
        a % n != b % n,
{
    lemma_fundamental_div_mod(a, n);
    lemma_fundamental_div_mod(b, n);
    lemma_mod_division_less_than_divisor(a, n);
    lemma_mod_division_less_than_divisor(b, n);
    if a % n == b % n {
        assert(b - a == n * (b / n - a / n)) by (nonlinear_arith)
            requires
                a == n * (a / n) + a % n,
                b == n * (b / n) + b % n,
                a % n == b % n,
        ;
        assert(false) by (nonlinear_arith)
            requires
                0 < b - a < n,
                b - a == n * (b / n - a / n),
        ;
    }
}

/// One single-producer/single-consumer ring, as the application side sees
/// it: two wrapping 32-bit counters, the slot array, and the kernel's
/// optional flags word. The application owns one counter per ring and the
/// kernel the other; this type carries the application's verified view of
/// both.
pub struct InnerRing<D: Descriptor> {
    producer: u32,
    consumer: u32,
    ring_region: Vec<D::InRingDescriptorType>,
    flags: Option<u32>,
    chunk_size: u64,
}

impl<D: Descriptor> InnerRing<D> {
    pub closed spec fn spec_producer(&self) -> u32 {
        self.producer
    }

    pub closed spec fn spec_consumer(&self) -> u32 {
        self.consumer
    }

    pub closed spec fn spec_region(&self) -> Seq<D::InRingDescriptorType> {
        self.ring_region@
    }

    pub closed spec fn spec_flags(&self) -> Option<u32> {
        self.flags
    }

    pub closed spec fn spec_chunk_size(&self) -> u64 {
        self.chunk_size
    }

    pub open spec fn spec_ring_size(&self) -> nat {
        self.spec_region().len()
    }

    /// Entries produced and not yet consumed.
    pub open spec fn spec_filled(&self) -> nat {
        wrap_sub32(self.spec_producer(), self.spec_consumer())
    }

    /// The produced-but-unconsumed slot values, oldest first.
    pub open spec fn window(&self) -> Seq<D::InRingDescriptorType> {
        spec_window_of(self.spec_producer(), self.spec_consumer(), self.spec_region())
    }

    /// The ring's abstract state.
    pub open spec fn abs(&self) -> RingModel<D::InRingDescriptorType> {
        RingModel {
            producer: self.spec_producer(),
            consumer: self.spec_consumer(),
            window: self.window(),
            size: self.spec_ring_size(),
        }
    }

    pub open spec fn wf(&self) -> bool {
        &&& is_ring_size(self.spec_ring_size())
        &&& self.spec_filled() <= self.spec_ring_size()
        &&& self.spec_chunk_size() > 0
    }

    pub fn new(
        producer: u32,
        consumer: u32,
        ring_region: Vec<D::InRingDescriptorType>,
        flags: Option<u32>,
        chunk_size: u64,
    ) -> (r: InnerRing<D>)
        requires
            is_ring_size(ring_region@.len()),
            wrap_sub32(producer, consumer) <= ring_region@.len(),
            chunk_size > 0,
        ensures
            r.wf(),
            r.spec_producer() == producer,
            r.spec_consumer() == consumer,
            r.spec_region() == ring_region@,
            r.spec_flags() == flags,
            r.spec_chunk_size() == chunk_size,
    {
        InnerRing { producer, consumer, ring_region, flags, chunk_size }
    }

    pub fn producer(&self) -> (r: u32)
        ensures
            r == self.spec_producer(),
    {
        self.producer
    }

    pub fn set_producer(&mut self, producer: u32)
        requires
            wrap_sub32(producer, old(self).spec_consumer()) <= old(self).spec_ring_size(),
        ensures
            final(self).spec_producer() == producer,
            final(self).spec_consumer() == old(self).spec_consumer(),
            final(self).spec_region() == old(self).spec_region(),
            final(self).spec_flags() == old(self).spec_flags(),
            final(self).spec_chunk_size() == old(self).spec_chunk_size(),
            old(self).wf() ==> final(self).wf(),
    {
        self.producer = producer;
    }

    pub fn consumer(&self) -> (r: u32)
        ensures
            r == self.spec_consumer(),
    {
        self.consumer
    }

    pub fn set_consumer(&mut self, consumer: u32)
        requires
            wrap_sub32(old(self).spec_producer(), consumer) <= old(self).spec_ring_size(),
        ensures
            final(self).spec_consumer() == consumer,
            final(self).spec_producer() == old(self).spec_producer(),
            final(self).spec_region() == old(self).spec_region(),
            final(self).spec_flags() == old(self).spec_flags(),
            final(self).spec_chunk_size() == old(self).spec_chunk_size(),
            old(self).wf() ==> final(self).wf(),
    {
        self.consumer = consumer;
    }

    /// Slots still free for the producer.
    pub fn free_entries(&self) -> (r: u32)
        requires
            self.wf(),
        ensures
            r == self.spec_ring_size() - self.spec_filled(),
    {
        free_entries_of(self.producer, self.consumer, self.ring_region.len())
    }

    /// Entries produced and not yet consumed.
    pub fn filled_entries(&self) -> (r: u32)
        requires
            self.wf(),
        ensures
            r == self.spec_filled(),
    {
        filled_entries_of(self.producer, self.consumer)
    }

    pub fn is_empty(&self) -> (r: bool)
        ensures
            r == (self.spec_filled() == 0),
    {
        self.producer == self.consumer
    }

    pub fn is_full(&self) -> (r: bool)
        requires
            self.wf(),
        ensures
            r == (self.spec_filled() == self.spec_ring_size()),
    {
        proof {
            lemma_ring_size_bounds(self.spec_ring_size());
        }
        let size = self.ring_region.len() as u32;
        self.filled_entries() == size
    }

    /// The kernel's flags word, read by value, if the kernel exposed one.
    pub fn flags(&self) -> (r: Option<u32>)
        ensures
            r == self.spec_flags(),
    {
        self.flags
    }

    /// True iff a flags word is present and its wakeup bit is set.
    pub fn needs_wakeup(&self) -> (r: bool)
        ensures
            r == match self.spec_flags() {
                Some(f) => f & XDP_RING_NEED_WAKEUP != 0,
                None => false,
            },
    {
        wakeup_needed(self.flags)
    }

    /// Takes the oldest entry out of the ring, or returns `None` and leaves
    /// the ring untouched when it is empty.
    pub fn pop(&mut self) -> (r: Option<D>)
        requires
            old(self).wf(),
        ensures
            final(self).wf(),
            final(self).spec_flags() == old(self).spec_flags(),
            final(self).spec_chunk_size() == old(self).spec_chunk_size(),
            old(self).spec_filled() == 0 ==> r is None && *final(self) == *old(self),
            old(self).spec_filled() > 0 ==> {
                &&& r == Some(
                    D::spec_from_desc(old(self).window()[0], old(self).spec_chunk_size()),
                )
                &&& final(self).abs() == model_pop(old(self).abs())
            },
    {
        let len = self.ring_region.len();
        if let Some((idx, next)) = pop_step(self.producer, self.consumer, len) {
            proof {
                lemma_ring_size_bounds(self.spec_ring_size());
            }
            let consumer = self.consumer;
            let repr = self.ring_region[idx];
            let desc = D::from_desc(repr, self.chunk_size);
            proof {
                lemma_wrap_sub_sub_one(self.producer, consumer);
            }
            self.consumer = next;
            proof {
                let len = self.spec_ring_size() as int;
                let old_w = old(self).window();
                let new_w = self.window();
                assert(new_w.len() == old_w.len() - 1);
                assert forall|i: int| 0 <= i < new_w.len() implies new_w[i] == old_w[i + 1] by {
                    if consumer == u32::MAX {
                        // the consumer counter wrapped to zero
                        lemma_mod32_collapse(consumer + 1 + i, self.spec_ring_size());
                        vstd::arithmetic::div_mod::lemma_mod_add_multiples_vanish(
                            i,
                            0x1_0000_0000,
                        );
                        vstd::arithmetic::div_mod::lemma_small_mod(i as nat, 0x1_0000_0000);
                    }
                }
                assert(new_w =~= old_w.drop_first());
            }
            Some(desc)
        } else {
            None
        }
    }

    /// Puts `input` at the back of the ring, or hands it back unchanged when
    /// the ring is full, leaving the ring untouched.
    pub fn push(&mut self, input: D) -> (r: Result<(), D>)
        requires
            old(self).wf(),
            input.spec_chunk_size() == old(self).spec_chunk_size(),
        ensures
            final(self).wf(),
            final(self).spec_flags() == old(self).spec_flags(),
            final(self).spec_chunk_size() == old(self).spec_chunk_size(),
            final(self).spec_ring_size() == old(self).spec_ring_size(),
            old(self).spec_filled() == old(self).spec_ring_size() ==> r == Result::<(), D>::Err(
                input,
            ) && *final(self) == *old(self),
            old(self).spec_filled() < old(self).spec_ring_size() ==> r is Ok && final(self).abs()
                == model_push(old(self).abs(), input.spec_ring_repr()),
    {
        let len = self.ring_region.len();
        if let Some((idx, next)) = push_step(self.producer, self.consumer, len) {
            proof {
                lemma_ring_size_bounds(self.spec_ring_size());
            }
            let producer = self.producer;
            let repr = input.into_ring_repr();
            self.ring_region[idx] = repr;
            proof {
                lemma_wrap_sub_add_one(producer, self.consumer);
            }
            self.producer = next;
            proof {
                let ghost_len = self.spec_ring_size() as int;
                let c = self.spec_consumer();
                let filled0 = old(self).spec_filled() as int;
                // the producer counter names the slot right after the window
                assert(producer as int % ghost_len == (c + filled0) % ghost_len) by {
                    if producer >= c {
                        assert(c + filled0 == producer);
                    } else {
                        assert(c + filled0 == producer + 0x1_0000_0000);
                        lemma_mod32_collapse(c + filled0, self.spec_ring_size());
                        lemma_mod_multiples_basic(0x1_0000_0000int / ghost_len, ghost_len);
                        lemma_mod32_collapse(producer as int, self.spec_ring_size());
                        assert((c + filled0) % 0x1_0000_0000 == producer as int);
                    }
                }
                let old_w = old(self).window();
                let new_w = self.window();
                assert(new_w.len() == old_w.len() + 1);
                assert forall|i: int| 0 <= i < old_w.len() implies new_w[i] == old_w[i] by {
                    lemma_mod_division_less_than_divisor(c + i, ghost_len);
                    lemma_mod_distinct(c + i, c + filled0, ghost_len);
                }
                assert(new_w[filled0] == repr) by {
                    lemma_mod_division_less_than_divisor(c + filled0, ghost_len);
                }
                assert(new_w =~= old_w.push(repr));
            }
            Ok(())
        } else {
            Err(input)
        }
    }
}

} // verus!
