pub mod maker_guard;
pub mod memory;

use vstd::prelude::*;

use crate::descriptor::{
    lemma_base_of_multiple_plus_offset, lemma_fill_comp_from_desc, FillCompFrameDescriptor,
    SealedDescriptorImpl,
};
use crate::error::Error;
use crate::ring::{is_ring_size, lemma_ring_size_bounds};
use crate::umem::maker_guard::{MarkerGuard, MarkerRegistry};
use crate::umem::memory::UmemMemory;

verus! {

#[derive(Debug, Copy, Clone, Ord, PartialOrd, PartialEq, Eq, Hash, Structural)]
pub struct DeviceId(pub u32);

#[derive(Debug, Copy, Clone, Ord, PartialOrd, PartialEq, Eq, Hash, Structural)]
pub struct QueueId(pub u32);

/// Headroom reserved for the XDP frame by the driver.
pub const XDP_FRAME_DRIVER_HEADROOM: usize = 256;

/// A legal chunk size: a power of two that fits the kernel's 32-bit
/// registration field.
pub open spec fn is_chunk_size(n: nat) -> bool {
    is_ring_size(n)
}

/// One-shot token handed out by `Umem::new`; `Umem::descriptors` consumes it,
/// so the descriptor pool of a UMEM can be produced at most once.
pub struct DescriptorsToken {
    marker_id: u64,
}

impl DescriptorsToken {
    pub closed spec fn spec_marker_id(&self) -> u64 {
        self.marker_id
    }
}

/// How a socket must be bound against this UMEM.
#[derive(Clone, Copy, Debug, PartialEq, Eq, Structural)]
pub enum BindRequest {
    /// The first bind against the UMEM: plain XDP bind with the
    /// `XDP_USE_NEED_WAKEUP` flag.
    Initial { device_id: DeviceId, queue_id: QueueId },
    /// Every later bind: `XDP_SHARED_UMEM`, carrying the anchor socket that
    /// registered the UMEM.
    SharedUmem { device_id: DeviceId, queue_id: QueueId, shared_umem_socket: i32 },
}

/// A UMEM: the chunked memory region shared with the kernel, the anchor
/// socket that registered it, the claim on its process-wide marker, and the
/// record of whether the first ring set has been given out. Sockets appear
/// as plain descriptor numbers; the kernel-facing layer owns the real file
/// descriptors and performs the registration and bind calls this type
/// prescribes.
pub struct Umem {
    memory: UmemMemory,
    initial_rings_given_out: bool,
    number_of_chunks: usize,
    headroom: u32,
    anchor_socket: i32,
    next_socket: i32,
    marker_guard: MarkerGuard,
}

impl Umem {
    pub closed spec fn spec_memory(&self) -> UmemMemory {
        self.memory
    }

    pub closed spec fn spec_initial_rings_given_out(&self) -> bool {
        self.initial_rings_given_out
    }

    pub closed spec fn spec_number_of_chunks(&self) -> usize {
        self.number_of_chunks
    }

    pub open spec fn spec_chunk_size(&self) -> usize {
        self.spec_memory().spec_chunk_size()
    }

    pub closed spec fn spec_headroom(&self) -> u32 {
        self.headroom
    }

    pub closed spec fn spec_anchor_socket(&self) -> i32 {
        self.anchor_socket
    }

    pub closed spec fn spec_next_socket(&self) -> i32 {
        self.next_socket
    }

    pub closed spec fn spec_marker_id(&self) -> u64 {
        self.marker_guard.spec_marker_id()
    }

    pub open spec fn wf(&self) -> bool {
        &&& self.spec_memory().wf()
        &&& self.spec_memory().spec_number_of_chunks() == self.spec_number_of_chunks()
        &&& is_chunk_size(self.spec_chunk_size() as nat)
        &&& self.spec_number_of_chunks() * self.spec_chunk_size() <= usize::MAX
        &&& 0 <= self.spec_anchor_socket() < self.spec_next_socket()
    }

    /// Creates a UMEM of `number_of_chunks` chunks of `chunk_size` bytes
    /// with `headroom` bytes reserved per frame, claiming `marker_id`.
    /// Fails with `MarkerAlreadyUsed`, leaving the registry unchanged,
    /// exactly when the marker is already claimed by a live UMEM. The
    /// anchor socket is socket number zero; the kernel-facing layer opens
    /// the real socket and registers the region with
    /// `{len: allocation_length, chunk_size, headroom, flags: 0,
    /// tx_metadata_len: 0}`.
    pub fn new(
        headroom: u32,
        number_of_chunks: usize,
        chunk_size: usize,
        registry: &mut MarkerRegistry,
        marker_id: u64,
    ) -> (r: Result<(Umem, DescriptorsToken), Error>)
        requires
            old(registry).wf(),
            is_chunk_size(chunk_size as nat),
            number_of_chunks * chunk_size <= usize::MAX,
        ensures
            final(registry).wf(),
            r is Err <==> old(registry).spec_contains(marker_id),
            r is Err ==> r == Result::<(Umem, DescriptorsToken), Error>::Err(
                Error::MarkerAlreadyUsed,
            ) && *final(registry) == *old(registry),
            r matches Ok((umem, token)) ==> {
                &&& umem.wf()
                &&& umem.spec_number_of_chunks() == number_of_chunks
                &&& umem.spec_chunk_size() == chunk_size
                &&& umem.spec_headroom() == headroom
                &&& !umem.spec_initial_rings_given_out()
                &&& umem.spec_anchor_socket() == 0
                &&& umem.spec_next_socket() == 1
                &&& umem.spec_marker_id() == marker_id
                &&& token.spec_marker_id() == marker_id
                &&& forall|i: int|
                    0 <= i < umem.spec_memory().spec_memory().len()
                        ==> umem.spec_memory().spec_memory()[i] == 0
                &&& final(registry).spec_markers() == old(registry).spec_markers().push(marker_id)
            },
            forall|id: u64|
                final(registry).spec_contains(id) <==> (old(registry).spec_contains(id) || (
                !old(registry).spec_contains(marker_id) && id == marker_id)),
    {
        let marker_guard = match MarkerGuard::new(registry, marker_id) {
            Ok(g) => g,
            Err(e) => { return Err(e) },
        };
        let memory = UmemMemory::new(number_of_chunks, chunk_size);
        let umem = Umem {
            memory,
            initial_rings_given_out: false,
            number_of_chunks,
            headroom,
            anchor_socket: 0,
            next_socket: 1,
            marker_guard,
        };
        Ok((umem, DescriptorsToken { marker_id }))
    }

    /// Gives the UMEM back its marker: removes the claim from the registry,
    /// after which the marker can be used again. The teardown counterpart
    /// of `Umem::new`; run it only after every ring set of this UMEM is
    /// gone.
    pub fn release(self, registry: &mut MarkerRegistry)
        requires
            old(registry).wf(),
        ensures
            final(registry).wf(),
            forall|id: u64|
                final(registry).spec_contains(id) <==> (old(registry).spec_contains(id) && id
                    != self.spec_marker_id()),
    {
        let Umem { marker_guard, .. } = self;
        marker_guard.release(registry);
    }

    /// The descriptor pool: one descriptor per chunk, addressed at
    /// `chunk_index * chunk_size`, last chunk first. Consuming the token
    /// makes this a once-per-UMEM operation.
    pub fn descriptors(&self, token: DescriptorsToken) -> (r: Vec<FillCompFrameDescriptor>)
        requires
            self.wf(),
            token.spec_marker_id() == self.spec_marker_id(),
        ensures
            r@.len() == self.spec_number_of_chunks(),
            forall|i: int|
                0 <= i < r@.len() ==> {
                    &&& (#[trigger] r@[i]).spec_addr() == (self.spec_number_of_chunks() - 1 - i)
                        * self.spec_chunk_size()
                    &&& r@[i].spec_chunk_size() == self.spec_chunk_size()
                    &&& r@[i].spec_base_addr() == r@[i].spec_addr()
                },
            // each chunk index owns exactly one pool slot
            forall|c: int|
                0 <= c < self.spec_number_of_chunks() ==> (#[trigger] r@[self.spec_number_of_chunks(
                ) - 1 - c]).spec_base_addr() == c * self.spec_chunk_size(),
    {
        let _ = token;
        let n = self.number_of_chunks;
        let cs = self.memory.chunk_size();
        proof {
            lemma_ring_size_bounds(cs as nat);
        }
        let mut descriptors: Vec<FillCompFrameDescriptor> = Vec::new();
        let mut i: usize = 0;
        while i < n
            invariant
                i <= n,
                cs == self.spec_chunk_size(),
                n == self.spec_number_of_chunks(),
                cs > 0,
                n * cs <= usize::MAX,
                descriptors@.len() == i,
                forall|j: int|
                    0 <= j < i ==> {
                        &&& (#[trigger] descriptors@[j]).spec_addr() == (n - 1 - j) * cs
                        &&& descriptors@[j].spec_chunk_size() == cs
                        &&& descriptors@[j].spec_base_addr() == descriptors@[j].spec_addr()
                    },
            decreases n - i,
        {
            let chunk_index = n - 1 - i;
            proof {
                assert(chunk_index * cs <= (n - 1) * cs < n * cs) by (nonlinear_arith)
                    requires
                        chunk_index <= n - 1,
                        0 <= chunk_index,
                        cs > 0,
                        i < n,
                ;
            }
            let addr = (chunk_index * cs) as u64;
            let desc = FillCompFrameDescriptor::from_desc(addr, cs as u64);
            proof {
                assert(chunk_index as u64 * cs as u64 + 0 == addr);
                lemma_base_of_multiple_plus_offset(chunk_index as u64, 0, cs as u64);
                lemma_fill_comp_from_desc(addr, cs as u64);
                assert(desc.spec_addr() == addr);
                assert(desc.spec_chunk_size() == cs as u64);
                assert(desc.spec_base_addr() == addr);
                assert(addr == (n - 1 - i as int) * cs);
            }
            descriptors.push(desc);
            i += 1;
            proof {
                assert forall|j: int|
                    0 <= j < i implies {
                    &&& (#[trigger] descriptors@[j]).spec_addr() == (n - 1 - j) * cs
                    &&& descriptors@[j].spec_chunk_size() == cs
                    &&& descriptors@[j].spec_base_addr() == descriptors@[j].spec_addr()
                } by {
                    if j == i - 1 {
                        assert(descriptors@[j] == desc);
                    }
                }
            }
        }
        descriptors
    }

    /// How the given socket must be bound to `(device_id, queue_id)`: the
    /// first bind is the plain wakeup-enabled one, every later bind shares
    /// the UMEM through the anchor socket. The kernel-facing layer performs
    /// the bind and reports success through `confirm_bind`.
    pub fn bind_request(&self, device_id: DeviceId, queue_id: QueueId) -> (r: BindRequest)
        ensures
            !self.spec_initial_rings_given_out() ==> r == (BindRequest::Initial {
                device_id,
                queue_id,
            }),
            self.spec_initial_rings_given_out() ==> r == (BindRequest::SharedUmem {
                device_id,
                queue_id,
                shared_umem_socket: self.spec_anchor_socket(),
            }),
    {
        if !self.initial_rings_given_out {
            BindRequest::Initial { device_id, queue_id }
        } else {
            BindRequest::SharedUmem {
                device_id,
                queue_id,
                shared_umem_socket: self.anchor_socket,
            }
        }
    }

    /// Records one successful bind. Only a successful bind claims the
    /// anchor role: a failed first bind leaves the next `bind_request`
    /// initial again.
    pub fn confirm_bind(&mut self)
        ensures
            final(self).spec_initial_rings_given_out(),
            final(self).spec_memory() == old(self).spec_memory(),
            final(self).spec_number_of_chunks() == old(self).spec_number_of_chunks(),
            final(self).spec_headroom() == old(self).spec_headroom(),
            final(self).spec_anchor_socket() == old(self).spec_anchor_socket(),
            final(self).spec_next_socket() == old(self).spec_next_socket(),
            final(self).spec_marker_id() == old(self).spec_marker_id(),
            old(self).wf() ==> final(self).wf(),
    {
        self.initial_rings_given_out = true;
    }

    /// The socket to build the next ring set on: the anchor socket while no
    /// ring set has been bound yet, afterwards a fresh socket number. For a
    /// fresh number the kernel-facing layer opens a new XDP socket.
    pub fn xsk_map_socket(&mut self) -> (r: i32)
        requires
            old(self).wf(),
            old(self).spec_next_socket() < i32::MAX,
        ensures
            final(self).wf(),
            !old(self).spec_initial_rings_given_out() ==> r == old(self).spec_anchor_socket()
                && *final(self) == *old(self),
            old(self).spec_initial_rings_given_out() ==> r == old(self).spec_next_socket()
                && final(self).spec_next_socket() == old(self).spec_next_socket() + 1,
            final(self).spec_initial_rings_given_out() == old(self).spec_initial_rings_given_out(),
            final(self).spec_memory() == old(self).spec_memory(),
            final(self).spec_number_of_chunks() == old(self).spec_number_of_chunks(),
            final(self).spec_headroom() == old(self).spec_headroom(),
            final(self).spec_anchor_socket() == old(self).spec_anchor_socket(),
            final(self).spec_marker_id() == old(self).spec_marker_id(),
    {
        if self.initial_rings_given_out {
            let socket = self.next_socket;
            self.next_socket = self.next_socket + 1;
            socket
        } else {
            self.anchor_socket
        }
    }

    /// Whether a first ring set has already been bound against this UMEM.
    pub fn initial_rings_given_out(&self) -> (r: bool)
        ensures
            r == self.spec_initial_rings_given_out(),
    {
        self.initial_rings_given_out
    }

    /// The backing memory region.
    pub fn memory(&self) -> (r: &UmemMemory)
        ensures
            r == self.spec_memory(),
    {
        &self.memory
    }

    pub fn headroom(&self) -> (r: u32)
        ensures
            r == self.spec_headroom(),
    {
        self.headroom
    }
}

} // verus!
