use vstd::prelude::*;

verus! {

/// The backing store of a UMEM: `number_of_chunks * chunk_size` zeroed
/// bytes. The kernel-facing layer registers a page-aligned copy of this
/// region with the socket; the library does its chunk arithmetic against
/// this value.
pub struct UmemMemory {
    memory: Vec<u8>,
    number_of_chunks: usize,
    chunk_size: usize,
}

impl UmemMemory {
    pub closed spec fn spec_number_of_chunks(&self) -> usize {
        self.number_of_chunks
    }

    pub closed spec fn spec_chunk_size(&self) -> usize {
        self.chunk_size
    }

    pub closed spec fn spec_memory(&self) -> Seq<u8> {
        self.memory@
    }

    pub open spec fn wf(&self) -> bool {
        self.spec_memory().len() == self.spec_number_of_chunks() * self.spec_chunk_size()
    }

    /// Allocates the region, zero-initialized.
    pub fn new(number_of_chunks: usize, chunk_size: usize) -> (r: UmemMemory)
        requires
            number_of_chunks * chunk_size <= usize::MAX,
        ensures
            r.wf(),
            r.spec_number_of_chunks() == number_of_chunks,
            r.spec_chunk_size() == chunk_size,
            forall|i: int| 0 <= i < r.spec_memory().len() ==> r.spec_memory()[i] == 0,
    {
        let len = number_of_chunks * chunk_size;
        let mut memory: Vec<u8> = Vec::new();
        while memory.len() < len
            invariant
                memory@.len() <= len,
                forall|i: int| 0 <= i < memory@.len() ==> memory@[i] == 0,
            decreases len - memory@.len(),
        {
            memory.push(0u8);
        }
        UmemMemory { memory, number_of_chunks, chunk_size }
    }

    /// Total bytes of the region.
    pub fn allocation_length(&self) -> (r: usize)
        requires
            self.wf(),
        ensures
            r == self.spec_number_of_chunks() * self.spec_chunk_size(),
    {
        self.memory.len()
    }

    /// Total bytes a region of `number_of_chunks` chunks of `chunk_size`
    /// bytes spans.
    pub fn allocation_length_internal(number_of_chunks: usize, chunk_size: usize) -> (r: usize)
        requires
            number_of_chunks * chunk_size <= usize::MAX,
        ensures
            r == number_of_chunks * chunk_size,
    {
        number_of_chunks * chunk_size
    }

    /// Total bytes of the region; same value as `allocation_length`.
    pub fn size(&self) -> (r: usize)
        requires
            self.wf(),
        ensures
            r == self.spec_number_of_chunks() * self.spec_chunk_size(),
    {
        self.memory.len()
    }

    /// Total bytes a region of `chunk_number` chunks of `chunk_size` bytes
    /// spans; same value as `allocation_length_internal`.
    pub fn size_internal(chunk_number: usize, chunk_size: usize) -> (r: usize)
        requires
            chunk_number * chunk_size <= usize::MAX,
        ensures
            r == chunk_number * chunk_size,
    {
        chunk_number * chunk_size
    }

    pub fn number_of_chunks(&self) -> (r: usize)
        ensures
            r == self.spec_number_of_chunks(),
    {
        self.number_of_chunks
    }

    pub fn chunk_size(&self) -> (r: usize)
        ensures
            r == self.spec_chunk_size(),
    {
        self.chunk_size
    }

    /// The region's bytes.
    pub fn memory(&self) -> (r: &Vec<u8>)
        ensures
            r@ == self.spec_memory(),
    {
        &self.memory
    }
}

} // verus!
