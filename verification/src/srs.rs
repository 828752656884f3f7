//! The chunked store of reference-string elements.

use vstd::prelude::*;

verus! {

/// One element of the reference string, held in its canonical encoding.
#[derive(Debug)]
pub struct SrsChunk(pub Vec<u8>);

impl View for SrsChunk {
    type V = Seq<u8>;

    open spec fn view(&self) -> Seq<u8> {
        self.0@
    }
}

impl Clone for SrsChunk {
    fn clone(&self) -> (copy: Self)
        ensures
            copy@ == self@,
    {
        SrsChunk(self.0.clone())
    }
}

/// Why the store refused a request.
#[derive(Clone, Copy, Debug, PartialEq, Eq, Structural)]
pub enum SrsError {
    /// An index, or the end of a range, lies beyond the chunks held.
    OutOfRange,
    /// More chunks were offered than the domain has room for.
    CapacityExceeded,
}

/// The encodings of a run of chunks, in order.
pub open spec fn chunk_views(chunks: Seq<SrsChunk>) -> Seq<Seq<u8>> {
    chunks.map_values(|c: SrsChunk| c@)
}

/// A bounded, ordered sequence of reference-string chunks.
///
/// The domain size is fixed when the store is made. The store never holds
/// more chunks than that, and never reorders them.
pub struct SrsStore {
    domain_size: usize,
    chunks: Vec<SrsChunk>,
}

impl View for SrsStore {
    type V = Seq<Seq<u8>>;

    closed spec fn view(&self) -> Seq<Seq<u8>> {
        chunk_views(self.chunks@)
    }
}

impl SrsStore {
    /// The number of chunks the domain has room for.
    pub closed spec fn capacity(&self) -> nat {
        self.domain_size as nat
    }

    /// The store holds no more chunks than its domain has room for.
    #[verifier::type_invariant]
    pub closed spec fn wf(&self) -> bool {
        self.chunks@.len() <= self.domain_size
    }

    /// The store holds a chunk for every index of its domain.
    pub open spec fn is_full(&self) -> bool {
        self@.len() == self.capacity()
    }

    /// What a read of one chunk answers.
    pub open spec fn chunk_at(&self, index: int) -> Result<Seq<u8>, SrsError> {
        if 0 <= index < self@.len() {
            Ok(self@[index])
        } else {
            Err(SrsError::OutOfRange)
        }
    }

    /// What a read of `length` chunks from `offset` on answers.
    pub open spec fn range_at(&self, offset: int, length: int) -> Result<Seq<Seq<u8>>, SrsError> {
        if 0 <= offset && 0 <= length && offset + length <= self@.len() {
            Ok(self@.subrange(offset, offset + length))
        } else {
            Err(SrsError::OutOfRange)
        }
    }

    /// What a read of the chunks at the indices from `start` up to, not
    /// including, `end` answers.
    pub open spec fn lookup_at(&self, start: int, end: int) -> Result<Seq<Seq<u8>>, SrsError> {
        if start <= end {
            self.range_at(start, end - start)
        } else {
            Err(SrsError::OutOfRange)
        }
    }

    /// Makes a store for a domain of `domain_size` chunks out of `chunks`,
    /// which it keeps in the order given. A sequence longer than the domain is
    /// refused.
    pub fn new(domain_size: usize, chunks: Vec<SrsChunk>) -> (made: Result<SrsStore, SrsError>)
        ensures
            match made {
                Ok(store) => {
                    &&& chunks@.len() <= domain_size
                    &&& store.wf()
                    &&& store.capacity() == domain_size
                    &&& store@ == chunk_views(chunks@)
                },
                Err(e) => e == SrsError::CapacityExceeded && chunks@.len() > domain_size,
            },
    {
        if chunks.len() > domain_size {
            Err(SrsError::CapacityExceeded)
        } else {
            Ok(SrsStore { domain_size, chunks })
        }
    }

    /// The number of chunks the domain has room for.
    pub fn domain_size(&self) -> (n: usize)
        ensures
            n == self.capacity(),
    {
        self.domain_size
    }

    /// The number of chunks held.
    pub fn len(&self) -> (n: usize)
        ensures
            n == self@.len(),
            n <= self.capacity(),
    {
        proof {
            use_type_invariant(self);
        }
        self.chunks.len()
    }

    /// Reads the chunk at `index`.
    pub fn get_chunk(&self, index: usize) -> (read: Result<SrsChunk, SrsError>)
        ensures
            match read {
                Ok(chunk) => self.chunk_at(index as int) == Ok::<Seq<u8>, SrsError>(chunk@),
                Err(e) => self.chunk_at(index as int) == Err::<Seq<u8>, SrsError>(e),
            },
    {
        if index < self.chunks.len() {
            Ok(self.chunks[index].clone())
        } else {
            Err(SrsError::OutOfRange)
        }
    }

    /// Reads the `length` chunks that start at `offset`, in order.
    pub fn get_range(&self, offset: usize, length: usize) -> (read: Result<Vec<SrsChunk>, SrsError>)
        ensures
            match read {
                Ok(chunks) => self.range_at(offset as int, length as int) == Ok::<
                    Seq<Seq<u8>>,
                    SrsError,
                >(chunk_views(chunks@)),
                Err(e) => self.range_at(offset as int, length as int) == Err::<
                    Seq<Seq<u8>>,
                    SrsError,
                >(e),
            },
    {
        let held = self.chunks.len();
        if offset > held || length > held - offset {
            return Err(SrsError::OutOfRange);
        }
        let mut out: Vec<SrsChunk> = Vec::new();
        let mut i: usize = 0;
        while i < length
            invariant
                held == self.chunks@.len(),
                offset + length <= held,
                i <= length,
                out@.len() == i,
                chunk_views(out@) == self@.subrange(offset as int, offset + i),
            decreases length - i,
        {
            let ghost before = out@;
            let chunk = self.chunks[offset + i].clone();
            out.push(chunk);
            i += 1;
            assert forall|j: int| 0 <= j < i implies chunk_views(out@)[j] == self@[offset + j] by {
                if j < i - 1 {
                    assert(chunk_views(before)[j] == self@.subrange(offset as int, offset + i - 1)[j]);
                }
            }
            assert(chunk_views(out@) =~= self@.subrange(offset as int, offset + i));
        }
        Ok(out)
    }

    /// Reads the chunks at the indices from `start` up to, not including,
    /// `end`. A single index costs the read of a single chunk.
    pub fn lookup(&self, start: usize, end: usize) -> (read: Result<Vec<SrsChunk>, SrsError>)
        ensures
            match read {
                Ok(chunks) => self.lookup_at(start as int, end as int) == Ok::<
                    Seq<Seq<u8>>,
                    SrsError,
                >(chunk_views(chunks@)),
                Err(e) => self.lookup_at(start as int, end as int) == Err::<
                    Seq<Seq<u8>>,
                    SrsError,
                >(e),
            },
    {
        if start > end {
            return Err(SrsError::OutOfRange);
        }
        if end - start == 1 {
            match self.get_chunk(start) {
                Ok(chunk) => {
                    let mut chunks: Vec<SrsChunk> = Vec::new();
                    chunks.push(chunk);
                    assert(chunk_views(chunks@) =~= self@.subrange(start as int, start + 1));
                    Ok(chunks)
                },
                Err(e) => Err(e),
            }
        } else {
            self.get_range(start, end - start)
        }
    }

    /// Every read at or beyond the domain size is refused, whatever the store
    /// holds, and a full store answers the read just below it.
    pub proof fn lemma_reads_end_at_domain_size(&self, index: int)
        requires
            self.wf(),
        ensures
            index >= self.capacity() ==> self.chunk_at(index) == Err::<Seq<u8>, SrsError>(
                SrsError::OutOfRange,
            ),
            self.is_full() && 0 <= index < self.capacity() ==> self.chunk_at(index) == Ok::<
                Seq<u8>,
                SrsError,
            >(self@[index]),
    {
    }

    /// A range that ends beyond the domain size is refused, whatever the store
    /// holds, and a full store answers every range that ends within it.
    pub proof fn lemma_ranges_end_at_domain_size(&self, offset: int, length: int)
        requires
            self.wf(),
            0 <= offset,
            0 <= length,
        ensures
            offset + length > self.capacity() ==> self.range_at(offset, length) == Err::<
                Seq<Seq<u8>>,
                SrsError,
            >(SrsError::OutOfRange),
            self.is_full() && offset + length <= self.capacity() ==> self.range_at(offset, length)
                == Ok::<Seq<Seq<u8>>, SrsError>(self@.subrange(offset, offset + length)),
    {
    }
}

} // verus!
