use vstd::prelude::*;

use crate::error::Error;
use crate::ring::inner::InnerRing;
use crate::ring::{
    is_ring_size, lemma_ring_size_bounds, zeroed_addr_ring_region, zeroed_data_ring_region,
    CompletionRing, FillRing, Ring, RxRing, TxRing,
};
use crate::umem::{BindRequest, DeviceId, QueueId, Umem};

verus! {

/// Error from inserting a socket into an XSKMAP slot.
#[derive(Debug)]
pub struct SetElementError {
    message: String,
}

impl SetElementError {
    pub closed spec fn spec_message(&self) -> Seq<char> {
        self.message@
    }

    pub fn new(message: String) -> (r: SetElementError)
        ensures
            r.spec_message() == message@,
    {
        SetElementError { message }
    }

    pub fn message(&self) -> (r: String)
        ensures
            r@ == self.spec_message(),
    {
        self.message.clone()
    }
}

/// Error from replacing the socket in an XSKMAP slot.
#[derive(Debug)]
pub struct UpdateElementError {
    message: String,
}

impl UpdateElementError {
    pub closed spec fn spec_message(&self) -> Seq<char> {
        self.message@
    }

    pub fn new(message: String) -> (r: UpdateElementError)
        ensures
            r.spec_message() == message@,
    {
        UpdateElementError { message }
    }

    pub fn message(&self) -> (r: String)
        ensures
            r@ == self.spec_message(),
    {
        self.message.clone()
    }
}

/// Error from clearing an XSKMAP slot.
#[derive(Debug)]
pub struct UnsetElementError {
    message: String,
}

impl UnsetElementError {
    pub closed spec fn spec_message(&self) -> Seq<char> {
        self.message@
    }

    pub fn new(message: String) -> (r: UnsetElementError)
        ensures
            r.spec_message() == message@,
    {
        UnsetElementError { message }
    }

    pub fn message(&self) -> (r: String)
        ensures
            r@ == self.spec_message(),
    {
        self.message.clone()
    }
}

/// Abstract interface to a kernel XSKMAP: a bounded array of slots, each
/// holding at most one socket. An in-kernel XDP program redirects frames to
/// the socket registered at the frame's queue index.
///
/// The contracts promise only what every implementation can keep: a
/// successful mutation has the documented `BPF_NOEXIST` / `BPF_EXIST` /
/// delete effect, and a failed one leaves the map as it was. The kernel map
/// may also fail for reasons of its own (memory, permissions), so success
/// is never owed; the in-memory implementation below additionally promises
/// the exact success conditions.
pub trait XskMap: Sized {
    /// The occupied slots: index to socket. The default stands for
    /// implementations outside the verified library, whose state Verus
    /// never sees: under it nothing can be concluded of their results, and
    /// only an always-failing body meets the contract. Verified
    /// implementations override it.
    open spec fn spec_entries(&self) -> Map<u32, i32> {
        Map::empty()
    }

    /// The slot count the map was created with.
    open spec fn spec_max_entries(&self) -> u32 {
        0
    }

    /// Inserts requiring the slot to be empty (`BPF_NOEXIST`).
    fn set_element(&mut self, socket: i32, index: u32) -> (r: Result<(), SetElementError>)
        ensures
            final(self).spec_max_entries() == old(self).spec_max_entries(),
            r is Ok ==> index < old(self).spec_max_entries() && !old(
                self,
            ).spec_entries().dom().contains(index) && final(self).spec_entries() == old(
                self,
            ).spec_entries().insert(index, socket),
            r is Err ==> final(self).spec_entries() == old(self).spec_entries(),
    ;

    /// Replaces requiring the slot to be occupied (`BPF_EXIST`).
    fn update_element(&mut self, socket: i32, index: u32) -> (r: Result<(), UpdateElementError>)
        ensures
            final(self).spec_max_entries() == old(self).spec_max_entries(),
            r is Ok ==> index < old(self).spec_max_entries() && old(
                self,
            ).spec_entries().dom().contains(index) && final(self).spec_entries() == old(
                self,
            ).spec_entries().insert(index, socket),
            r is Err ==> final(self).spec_entries() == old(self).spec_entries(),
    ;

    /// Clears a slot; fails when it is already empty.
    fn unset_element(&mut self, index: u32) -> (r: Result<(), UnsetElementError>)
        ensures
            final(self).spec_max_entries() == old(self).spec_max_entries(),
            r is Ok ==> old(self).spec_entries().dom().contains(index) && final(self).spec_entries() == old(self).spec_entries().remove(index),
            r is Err ==> final(self).spec_entries() == old(self).spec_entries(),
    ;

    fn max_entries(&self) -> (r: u32)
        ensures
            r == self.spec_max_entries(),
    ;
}

/// A process-local XSKMAP with the same slot semantics as the kernel map:
/// the reference implementation of `XskMap`, and the one the tests run
/// against.
pub struct InMemoryXskMap {
    slots: Vec<Option<i32>>,
}

impl InMemoryXskMap {
    #[verifier::type_invariant]
    spec fn type_inv(self) -> bool {
        self.slots@.len() <= u32::MAX
    }

    pub fn new(max_entries: u32) -> (r: InMemoryXskMap)
        ensures
            r.spec_max_entries() == max_entries,
            r.spec_entries() == Map::<u32, i32>::empty(),
    {
        let mut slots: Vec<Option<i32>> = Vec::new();
        while slots.len() < max_entries as usize
            invariant
                slots@.len() <= max_entries,
                forall|i: int| 0 <= i < slots@.len() ==> slots@[i] is None,
            decreases max_entries - slots@.len(),
        {
            slots.push(None);
        }
        let r = InMemoryXskMap { slots };
        proof {
            assert(r.spec_entries() =~= Map::<u32, i32>::empty());
        }
        r
    }

    /// The socket registered at `index`, if any. The kernel map offers no
    /// user-space lookup; this process-local one does, so its state can be
    /// observed.
    pub fn get(&self, index: u32) -> (r: Option<i32>)
        ensures
            r == (if self.spec_entries().dom().contains(index) {
                Some(self.spec_entries()[index])
            } else {
                Option::<i32>::None
            }),
    {
        if (index as usize) < self.slots.len() {
            self.slots[index as usize]
        } else {
            None
        }
    }
}

impl XskMap for InMemoryXskMap {
    closed spec fn spec_entries(&self) -> Map<u32, i32> {
        Map::new(
            |i: u32| i < self.slots@.len() && self.slots@[i as int] is Some,
            |i: u32| self.slots@[i as int]->Some_0,
        )
    }

    closed spec fn spec_max_entries(&self) -> u32 {
        self.slots@.len() as u32
    }

    fn set_element(&mut self, socket: i32, index: u32) -> (r: Result<(), SetElementError>)
        // this implementation keeps the exact success condition
        ensures
            r is Ok <==> (index < old(self).spec_max_entries() && !old(
                self,
            ).spec_entries().dom().contains(index)),
    {
        proof {
            use_type_invariant(&*self);
        }
        if (index as usize) < self.slots.len() {
            if self.slots[index as usize].is_none() {
                self.slots[index as usize] = Some(socket);
                proof {
                    assert(self.spec_entries() =~= old(self).spec_entries().insert(index, socket));
                }
                Ok(())
            } else {
                Err(SetElementError::new("XSKMAP slot already occupied".to_owned()))
            }
        } else {
            Err(SetElementError::new("XSKMAP index out of range".to_owned()))
        }
    }

    fn update_element(&mut self, socket: i32, index: u32) -> (r: Result<(), UpdateElementError>)
        // this implementation keeps the exact success condition
        ensures
            r is Ok <==> (index < old(self).spec_max_entries() && old(
                self,
            ).spec_entries().dom().contains(index)),
    {
        proof {
            use_type_invariant(&*self);
        }
        if (index as usize) < self.slots.len() {
            if self.slots[index as usize].is_some() {
                self.slots[index as usize] = Some(socket);
                proof {
                    assert(self.spec_entries() =~= old(self).spec_entries().insert(index, socket));
                }
                Ok(())
            } else {
                Err(UpdateElementError::new("XSKMAP slot empty".to_owned()))
            }
        } else {
            Err(UpdateElementError::new("XSKMAP index out of range".to_owned()))
        }
    }

    fn unset_element(&mut self, index: u32) -> (r: Result<(), UnsetElementError>)
        // this implementation keeps the exact success condition
        ensures
            r is Ok <==> old(self).spec_entries().dom().contains(index),
    {
        proof {
            use_type_invariant(&*self);
        }
        if (index as usize) < self.slots.len() && self.slots[index as usize].is_some() {
            self.slots[index as usize] = None;
            proof {
                assert(self.spec_entries() =~= old(self).spec_entries().remove(index));
            }
            Ok(())
        } else {
            Err(UnsetElementError::new("XSKMAP slot empty".to_owned()))
        }
    }

    fn max_entries(&self) -> (r: u32) {
        proof {
            use_type_invariant(&*self);
        }
        self.slots.len() as u32
    }
}

/// Scoped membership of one socket in an XSKMAP: created by inserting the
/// socket at an index, torn down by `remove`, which must run before the
/// socket is closed — otherwise the in-kernel XDP program could redirect
/// into a dead socket.
pub struct XskMapEntry {
    index: u32,
    socket: i32,
}

impl XskMapEntry {
    pub closed spec fn spec_index(&self) -> u32 {
        self.index
    }

    pub closed spec fn spec_socket(&self) -> i32 {
        self.socket
    }

    /// Registers `socket` at `index`: a successful insertion found the slot
    /// free and in range; a failed one leaves the map unchanged.
    pub fn new<XM: XskMap>(xsk_map: &mut XM, index: u32, socket: i32) -> (r: Result<
        XskMapEntry,
        SetElementError,
    >)
        ensures
            final(xsk_map).spec_max_entries() == old(xsk_map).spec_max_entries(),
            r matches Ok(entry) ==> entry.spec_index() == index && entry.spec_socket() == socket
                && index < old(xsk_map).spec_max_entries() && !old(
                xsk_map,
            ).spec_entries().dom().contains(index) && final(xsk_map).spec_entries() == old(
                xsk_map,
            ).spec_entries().insert(index, socket),
            r is Err ==> final(xsk_map).spec_entries() == old(xsk_map).spec_entries(),
    {
        match xsk_map.set_element(socket, index) {
            Ok(()) => Ok(XskMapEntry { index, socket }),
            Err(e) => Err(e),
        }
    }

    /// Deregisters the socket: clears the entry's slot. A successful
    /// removal found the slot occupied; a failed one leaves the map
    /// unchanged.
    pub fn remove<XM: XskMap>(self, xsk_map: &mut XM) -> (r: Result<(), UnsetElementError>)
        ensures
            final(xsk_map).spec_max_entries() == old(xsk_map).spec_max_entries(),
            r is Ok ==> old(xsk_map).spec_entries().dom().contains(self.spec_index()) && final(xsk_map).spec_entries() == old(xsk_map).spec_entries().remove(self.spec_index()),
            r is Err ==> final(xsk_map).spec_entries() == old(xsk_map).spec_entries(),
    {
        xsk_map.unset_element(self.index)
    }
}

/// Couples one XSKMAP with the device it steers for, and builds the ring
/// sets of that device's sockets.
pub struct XskMapStorage<XM: XskMap> {
    xsk_map: XM,
    net_device_id: DeviceId,
}

/// RX/TX pair of a follow-up socket sharing the UMEM. The map entry stands
/// before the rings: teardown removes it first. `bind_request` records the
/// bind the UMEM prescribed for the set's socket.
pub struct RxTxRings {
    pub xsk_map_entry: XskMapEntry,
    pub bind_request: BindRequest,
    pub rx_ring: RxRing,
    pub tx_ring: TxRing,
}

impl RxTxRings {
    pub closed spec fn spec_map_index(&self) -> u32 {
        self.xsk_map_entry.spec_index()
    }

    pub closed spec fn spec_socket(&self) -> i32 {
        self.xsk_map_entry.spec_socket()
    }

    /// Tears the set down in the required order: the XSKMAP entry goes
    /// first, while the rings — and so the socket they belong to — are
    /// still alive; the rings are dropped only afterwards.
    pub fn teardown<XM: XskMap>(self, xsk_map: &mut XM) -> (r: Result<(), UnsetElementError>)
        ensures
            final(xsk_map).spec_max_entries() == old(xsk_map).spec_max_entries(),
            r is Ok ==> old(xsk_map).spec_entries().dom().contains(self.spec_map_index()) && final(xsk_map).spec_entries() == old(xsk_map).spec_entries().remove(self.spec_map_index()),
            r is Err ==> final(xsk_map).spec_entries() == old(xsk_map).spec_entries(),
    {
        let RxTxRings { xsk_map_entry, bind_request, rx_ring, tx_ring } = self;
        let r = xsk_map_entry.remove(xsk_map);
        r
    }
}

/// The full four-ring set of one socket. The map entry stands before the
/// rings: teardown removes it first. `bind_request` records the bind the
/// UMEM prescribed for the set's socket.
pub struct FillCompRxTxRings {
    pub xsk_map_entry: XskMapEntry,
    pub bind_request: BindRequest,
    pub fill_ring: FillRing,
    pub completion_ring: CompletionRing,
    pub rx_ring: RxRing,
    pub tx_ring: TxRing,
}

impl FillCompRxTxRings {
    pub closed spec fn spec_map_index(&self) -> u32 {
        self.xsk_map_entry.spec_index()
    }

    pub closed spec fn spec_socket(&self) -> i32 {
        self.xsk_map_entry.spec_socket()
    }

    /// Tears the set down in the required order: the XSKMAP entry goes
    /// first, while the rings — and so the socket they belong to — are
    /// still alive; the rings are dropped only afterwards.
    pub fn teardown<XM: XskMap>(self, xsk_map: &mut XM) -> (r: Result<(), UnsetElementError>)
        ensures
            final(xsk_map).spec_max_entries() == old(xsk_map).spec_max_entries(),
            r is Ok ==> old(xsk_map).spec_entries().dom().contains(self.spec_map_index()) && final(xsk_map).spec_entries() == old(xsk_map).spec_entries().remove(self.spec_map_index()),
            r is Err ==> final(xsk_map).spec_entries() == old(xsk_map).spec_entries(),
    {
        let FillCompRxTxRings {
            xsk_map_entry,
            bind_request,
            fill_ring,
            completion_ring,
            rx_ring,
            tx_ring,
        } = self;
        let r = xsk_map_entry.remove(xsk_map);
        r
    }
}

impl<XM: XskMap> XskMapStorage<XM> {
    pub closed spec fn spec_map(&self) -> XM {
        self.xsk_map
    }

    pub closed spec fn spec_device_id(&self) -> DeviceId {
        self.net_device_id
    }

    pub fn new(xsk_map: XM, net_device_id: DeviceId) -> (r: XskMapStorage<XM>)
        ensures
            r.spec_map() == xsk_map,
            r.spec_device_id() == net_device_id,
    {
        XskMapStorage { xsk_map, net_device_id }
    }

    /// Inserts `socket` at `index` in the coupled map.
    pub fn register(&mut self, socket: i32, index: u32) -> (r: Result<(), SetElementError>)
        ensures
            final(self).spec_device_id() == old(self).spec_device_id(),
            final(self).spec_map().spec_max_entries() == old(self).spec_map().spec_max_entries(),
            r is Ok ==> index < old(self).spec_map().spec_max_entries() && !old(
                self,
            ).spec_map().spec_entries().dom().contains(index) && final(self).spec_map(
            ).spec_entries() == old(self).spec_map().spec_entries().insert(index, socket),
            r is Err ==> final(self).spec_map().spec_entries() == old(
                self,
            ).spec_map().spec_entries(),
    {
        self.xsk_map.set_element(socket, index)
    }

    /// Clears `index` in the coupled map.
    pub fn deregister(&mut self, index: u32) -> (r: Result<(), UnsetElementError>)
        ensures
            final(self).spec_device_id() == old(self).spec_device_id(),
            final(self).spec_map().spec_max_entries() == old(self).spec_map().spec_max_entries(),
            r is Ok ==> old(self).spec_map().spec_entries().dom().contains(index) && final(self).spec_map().spec_entries() == old(self).spec_map().spec_entries().remove(index),
            r is Err ==> final(self).spec_map().spec_entries() == old(
                self,
            ).spec_map().spec_entries(),
    {
        self.xsk_map.unset_element(index)
    }

    /// Hands the coupled map back.
    pub fn into_inner(self) -> (r: XM)
        ensures
            r == self.spec_map(),
    {
        let XskMapStorage { xsk_map, net_device_id } = self;
        xsk_map
    }

    /// Builds the four-ring set of one socket at `queue_id`: picks the
    /// socket through the UMEM (the anchor for the first set, a fresh one
    /// afterwards), constructs FILL, COMPLETION, RX and TX in that order,
    /// takes the bind the UMEM prescribes — the first set binds plainly
    /// with the wakeup flag, every later one with the shared-UMEM flags and
    /// the anchor socket — and only then registers the socket at
    /// `map_index`. The prescribed bind is recorded in the returned set.
    ///
    /// There is no kernel here to refuse the bind, so this function takes
    /// it as performed and successful. The kernel-facing layer drives the
    /// same sequence itself — `Umem::bind_request`, the real bind,
    /// `Umem::confirm_bind` on success, then `XskMapEntry::new` — so that
    /// a failed bind claims no anchor role and registers nothing.
    pub fn rings(
        &mut self,
        umem: &mut Umem,
        queue_id: QueueId,
        map_index: u32,
        ring_size: usize,
    ) -> (r: Result<FillCompRxTxRings, Error>)
        requires
            old(umem).wf(),
            old(umem).spec_next_socket() < i32::MAX,
            is_ring_size(ring_size as nat),
        ensures
            final(umem).wf(),
            final(self).spec_device_id() == old(self).spec_device_id(),
            final(self).spec_map().spec_max_entries() == old(self).spec_map().spec_max_entries(),
            final(umem).spec_initial_rings_given_out(),
            final(umem).spec_marker_id() == old(umem).spec_marker_id(),
            final(umem).spec_chunk_size() == old(umem).spec_chunk_size(),
            final(umem).spec_number_of_chunks() == old(umem).spec_number_of_chunks(),
            final(umem).spec_memory() == old(umem).spec_memory(),
            final(umem).spec_headroom() == old(umem).spec_headroom(),
            final(umem).spec_anchor_socket() == old(umem).spec_anchor_socket(),
            final(umem).spec_next_socket() == (if !old(umem).spec_initial_rings_given_out() {
                old(umem).spec_next_socket() as int
            } else {
                old(umem).spec_next_socket() + 1
            }),
            r matches Err(e) ==> e is XskMapError,
            r matches Ok(rings) ==> {
                &&& map_index < old(self).spec_map().spec_max_entries()
                &&& !old(self).spec_map().spec_entries().dom().contains(map_index)
                &&& rings.spec_map_index() == map_index
                &&& rings.bind_request == (if !old(umem).spec_initial_rings_given_out() {
                    BindRequest::Initial { device_id: old(self).spec_device_id(), queue_id }
                } else {
                    BindRequest::SharedUmem {
                        device_id: old(self).spec_device_id(),
                        queue_id,
                        shared_umem_socket: old(umem).spec_anchor_socket(),
                    }
                })
                &&& rings.spec_socket() == (if !old(umem).spec_initial_rings_given_out() {
                    old(umem).spec_anchor_socket()
                } else {
                    old(umem).spec_next_socket()
                })
                &&& final(self).spec_map().spec_entries() == old(
                    self,
                ).spec_map().spec_entries().insert(map_index, rings.spec_socket())
                &&& rings.fill_ring.wf() && rings.fill_ring.spec_filled() == 0
                    && rings.fill_ring.spec_ring_size() == ring_size
                    && rings.fill_ring.spec_chunk_size() == old(umem).spec_chunk_size() as u64
                &&& rings.completion_ring.wf() && rings.completion_ring.spec_filled() == 0
                    && rings.completion_ring.spec_ring_size() == ring_size
                    && rings.completion_ring.spec_chunk_size() == old(umem).spec_chunk_size() as u64
                &&& rings.rx_ring.wf() && rings.rx_ring.spec_filled() == 0
                    && rings.rx_ring.spec_ring_size() == ring_size
                    && rings.rx_ring.spec_chunk_size() == old(umem).spec_chunk_size() as u64
                &&& rings.tx_ring.wf() && rings.tx_ring.spec_filled() == 0
                    && rings.tx_ring.spec_ring_size() == ring_size
                    && rings.tx_ring.spec_chunk_size() == old(umem).spec_chunk_size() as u64
            },
            r is Err ==> final(self).spec_map().spec_entries() == old(
                self,
            ).spec_map().spec_entries(),
    {
        let socket = umem.xsk_map_socket();
        proof {
            lemma_ring_size_bounds(umem.spec_chunk_size() as nat);
        }
        let cs = umem.memory().chunk_size() as u64;
        let fill_ring: FillRing = Ring::from_inner(
            InnerRing::new(0, 0, zeroed_addr_ring_region(ring_size), None, cs),
        );
        let completion_ring: CompletionRing = Ring::from_inner(
            InnerRing::new(0, 0, zeroed_addr_ring_region(ring_size), None, cs),
        );
        let rx_ring: RxRing = Ring::from_inner(
            InnerRing::new(0, 0, zeroed_data_ring_region(ring_size), None, cs),
        );
        let tx_ring: TxRing = Ring::from_inner(
            InnerRing::new(0, 0, zeroed_data_ring_region(ring_size), None, cs),
        );
        let bind_request = umem.bind_request(self.net_device_id, queue_id);
        umem.confirm_bind();
        // registration follows the (here: taken-as-successful) bind
        match XskMapEntry::new(&mut self.xsk_map, map_index, socket) {
            Ok(xsk_map_entry) => Ok(
                FillCompRxTxRings {
                    xsk_map_entry,
                    bind_request,
                    fill_ring,
                    completion_ring,
                    rx_ring,
                    tx_ring,
                },
            ),
            Err(e) => Err(Error::XskMapError(e.message())),
        }
    }

    /// Builds the RX/TX-only set of a follow-up socket that inherits the
    /// UMEM's FILL and COMPLETION rings; the socket binds with the
    /// shared-UMEM flags, recorded in the returned set, and is registered
    /// only after the bind. Fails with `Wip` exactly as long as no first
    /// full ring set exists; once one does, any failure is an XSKMAP one.
    pub fn rx_tx_only(
        &mut self,
        umem: &mut Umem,
        queue_id: QueueId,
        map_index: u32,
        ring_size: usize,
    ) -> (r: Result<RxTxRings, Error>)
        requires
            old(umem).wf(),
            old(umem).spec_next_socket() < i32::MAX,
            is_ring_size(ring_size as nat),
        ensures
            final(umem).wf(),
            final(self).spec_device_id() == old(self).spec_device_id(),
            final(self).spec_map().spec_max_entries() == old(self).spec_map().spec_max_entries(),
            final(umem).spec_marker_id() == old(umem).spec_marker_id(),
            final(umem).spec_chunk_size() == old(umem).spec_chunk_size(),
            final(umem).spec_number_of_chunks() == old(umem).spec_number_of_chunks(),
            final(umem).spec_memory() == old(umem).spec_memory(),
            final(umem).spec_headroom() == old(umem).spec_headroom(),
            final(umem).spec_anchor_socket() == old(umem).spec_anchor_socket(),
            old(umem).spec_initial_rings_given_out() ==> final(umem).spec_initial_rings_given_out()
                && final(umem).spec_next_socket() == old(umem).spec_next_socket() + 1,
            !old(umem).spec_initial_rings_given_out() ==> r == Result::<RxTxRings, Error>::Err(
                Error::Wip,
            ) && *final(umem) == *old(umem) && *final(self) == *old(self),
            old(umem).spec_initial_rings_given_out() ==> (r matches Err(e) ==> e is XskMapError),
            r matches Ok(rings) ==> {
                &&& map_index < old(self).spec_map().spec_max_entries()
                &&& !old(self).spec_map().spec_entries().dom().contains(map_index)
                &&& rings.spec_map_index() == map_index
                &&& rings.bind_request == (BindRequest::SharedUmem {
                    device_id: old(self).spec_device_id(),
                    queue_id,
                    shared_umem_socket: old(umem).spec_anchor_socket(),
                })
                &&& rings.spec_socket() == old(umem).spec_next_socket()
                &&& final(self).spec_map().spec_entries() == old(
                    self,
                ).spec_map().spec_entries().insert(map_index, rings.spec_socket())
                &&& rings.rx_ring.wf() && rings.rx_ring.spec_filled() == 0
                    && rings.rx_ring.spec_ring_size() == ring_size
                    && rings.rx_ring.spec_chunk_size() == old(umem).spec_chunk_size() as u64
                &&& rings.tx_ring.wf() && rings.tx_ring.spec_filled() == 0
                    && rings.tx_ring.spec_ring_size() == ring_size
                    && rings.tx_ring.spec_chunk_size() == old(umem).spec_chunk_size() as u64
            },
            r is Err ==> final(self).spec_map().spec_entries() == old(
                self,
            ).spec_map().spec_entries(),
    {
        if !umem.initial_rings_given_out() {
            return Err(Error::Wip);
        }
        let socket = umem.xsk_map_socket();
        proof {
            lemma_ring_size_bounds(umem.spec_chunk_size() as nat);
        }
        let cs = umem.memory().chunk_size() as u64;
        let rx_ring: RxRing = Ring::from_inner(
            InnerRing::new(0, 0, zeroed_data_ring_region(ring_size), None, cs),
        );
        let tx_ring: TxRing = Ring::from_inner(
            InnerRing::new(0, 0, zeroed_data_ring_region(ring_size), None, cs),
        );
        let bind_request = umem.bind_request(self.net_device_id, queue_id);
        umem.confirm_bind();
        // registration follows the (here: taken-as-successful) bind
        match XskMapEntry::new(&mut self.xsk_map, map_index, socket) {
            Ok(xsk_map_entry) => Ok(RxTxRings { xsk_map_entry, bind_request, rx_ring, tx_ring }),
            Err(e) => Err(Error::XskMapError(e.message())),
        }
    }
}

} // verus!
