//! The ring as the ledger keeps it: the reference string, and a ring that is
//! not yet started, taking members, or sealed.
//!
//! Whoever calls these operations has already been authorised. Each call
//! either does what it says or leaves the ring as it was and says why.

use crate::ring::{context, domain_context, validate, MemberSet, PushFailure, RingBuildState};
use crate::scheme::{
    builder_chunks, builder_params, empty_ring, folded_in, is_member, sealed, validated, Alias,
    DomainSize, Proof, RawMember,
};
use crate::srs::{chunk_views, SrsChunk, SrsError, SrsStore};
use vstd::prelude::*;
use vstd::string::*;

verus! {

/// Why an operation on the ring was refused.
#[derive(Clone, Copy, Debug, PartialEq, Eq, Structural)]
pub enum Error {
    /// No ring has been started.
    RingNotInitialized,
    /// The ring has not been sealed yet.
    RingNotFinalized,
    /// The member could not be added.
    PushMemberFailure,
    /// The ring is sealed and takes no more members.
    RingFinalized,
    /// The proof does not hold against the ring, the context and the message.
    ValidationFailure,
}

/// Where a ring stands in its life.
pub enum Ring {
    /// No ring has been started.
    Uninitialized,
    /// The ring is taking members.
    Building(RingBuildState),
    /// The ring is sealed.
    Finalized(MemberSet),
}

/// What the ledger is started with: the size that rings are set up for, the
/// number of chunks there is room for, and the chunks of the reference string
/// in their order.
pub struct GenesisConfig {
    pub domain: DomainSize,
    pub domain_size: usize,
    pub srs_chunks: Vec<SrsChunk>,
}

/// The ring and the reference string it is built against.
pub struct Pallet {
    domain: DomainSize,
    srs_chunks: SrsStore,
    ring: Ring,
}

/// What the ledger answers when the accumulator has answered `pushed`.
pub open spec fn push_report(pushed: Result<(), PushFailure>) -> Result<(), Error> {
    match pushed {
        Ok(()) => Ok(()),
        Err(_) => Err(Error::PushMemberFailure),
    }
}

/// The ledger's answer on a proof is the scheme's: the alias where the scheme
/// finds one, a failure where it finds none.
pub open spec fn is_validation(outcome: Result<Alias, Error>, checked: Option<Seq<u8>>) -> bool {
    match outcome {
        Ok(alias) => checked == Some(alias@),
        Err(e) => e == Error::ValidationFailure && checked is None,
    }
}

impl Pallet {
    /// The size that every ring is set up for.
    pub closed spec fn domain(&self) -> DomainSize {
        self.domain
    }

    /// The chunks of the reference string.
    pub closed spec fn srs_chunks(&self) -> SrsStore {
        self.srs_chunks
    }

    /// Where the ring stands.
    pub closed spec fn ring(&self) -> Ring {
        self.ring
    }

    /// A ring that is taking members is of the ledger's size, has room for as
    /// many members as the domain has chunks, and is one that the scheme can
    /// seal.
    #[verifier::type_invariant]
    pub closed spec fn wf(&self) -> bool {
        self.ring matches Ring::Building(state) ==> {
            &&& state.domain() == self.domain
            &&& state.capacity() == self.srs_chunks.capacity()
            &&& state.sealable()
        }
    }

    /// The reference string stays as it is, chunk for chunk, and so does the
    /// size of ring.
    pub open spec fn same_setup(&self, other: &Pallet) -> bool {
        &&& self.domain() == other.domain()
        &&& self.srs_chunks() == other.srs_chunks()
    }

    /// The ring is empty and taking members, is of the ledger's size, and has
    /// room for as many members as the domain has chunks.
    pub open spec fn has_empty_ring(&self) -> bool {
        &&& self.ring() matches Ring::Building(state)
        &&& state.members() == Seq::<RawMember>::empty()
        &&& state.aggregate() == empty_ring(self.domain())
        &&& state.domain() == self.domain()
        &&& state.capacity() == self.srs_chunks().capacity()
    }

    /// A ledger with the given reference string and no ring yet.
    pub fn new(domain: DomainSize, srs_chunks: SrsStore) -> (pallet: Pallet)
        ensures
            pallet.domain() == domain,
            pallet.srs_chunks() == srs_chunks,
            pallet.ring() is Uninitialized,
    {
        Pallet { domain, srs_chunks, ring: Ring::Uninitialized }
    }

    /// The sealed ring, if the ring is sealed.
    pub fn members(&self) -> (sealed: Option<&MemberSet>)
        ensures
            match sealed {
                Some(set) => self.ring() == Ring::Finalized(*set),
                None => !(self.ring() is Finalized),
            },
    {
        match &self.ring {
            Ring::Finalized(set) => Some(set),
            _ => None,
        }
    }

    /// The ring that is taking members, if there is one.
    pub fn intermediate(&self) -> (building: Option<&RingBuildState>)
        ensures
            match building {
                Some(state) => self.ring() == Ring::Building(*state),
                None => !(self.ring() is Building),
            },
    {
        match &self.ring {
            Ring::Building(state) => Some(state),
            _ => None,
        }
    }

    /// The reference string.
    pub fn srs(&self) -> (store: &SrsStore)
        ensures
            *store == self.srs_chunks(),
    {
        &self.srs_chunks
    }

    /// Discards whatever ring there is and starts an empty one.
    pub fn make_empty_ring(&mut self)
        ensures
            final(self).same_setup(old(self)),
            final(self).has_empty_ring(),
    {
        let state = RingBuildState::start(self.domain, &self.srs_chunks);
        self.ring = Ring::Building(state);
    }

    /// Push a new ring member.
    pub fn push_member(&mut self, member: RawMember) -> (outcome: Result<(), Error>)
        ensures
            final(self).same_setup(old(self)),
            !is_member(member@) ==> outcome is Err,
            match old(self).ring() {
                Ring::Finalized(_) => {
                    &&& outcome == Err::<(), Error>(Error::RingFinalized)
                    &&& final(self).ring() == old(self).ring()
                },
                Ring::Uninitialized => {
                    &&& outcome == Err::<(), Error>(Error::RingNotInitialized)
                    &&& final(self).ring() == old(self).ring()
                },
                Ring::Building(before) => {
                    let answer = folded_in(before.aggregate(), member@, old(self).srs_chunks()@);
                    &&& final(self).ring() matches Ring::Building(after)
                    &&& before.absorbed(member, answer, &after)
                    &&& outcome == push_report(before.push_outcome(answer))
                },
            },
    {
        proof {
            use_type_invariant(&*self);
        }
        let mut ring = Ring::Uninitialized;
        core::mem::swap(&mut self.ring, &mut ring);
        let outcome = match &mut ring {
            Ring::Finalized(_) => Err(Error::RingFinalized),
            Ring::Uninitialized => Err(Error::RingNotInitialized),
            Ring::Building(state) => {
                match state.push_member(member, &self.srs_chunks) {
                    Ok(()) => Ok(()),
                    Err(_) => Err(Error::PushMemberFailure),
                }
            },
        };
        self.ring = ring;
        outcome
    }

    /// Seals the ring that is taking members. The ring is used up by this: a
    /// sealed ring is sealed once, and is not sealed again. A ring that is
    /// taking members is always sealed: the ledger keeps none but rings that
    /// the scheme started and filled.
    pub fn finish_members(&mut self) -> (outcome: Result<(), Error>)
        ensures
            final(self).same_setup(old(self)),
            match old(self).ring() {
                Ring::Finalized(_) => {
                    &&& outcome == Err::<(), Error>(Error::RingFinalized)
                    &&& final(self).ring() == old(self).ring()
                },
                Ring::Uninitialized => {
                    &&& outcome == Err::<(), Error>(Error::RingNotInitialized)
                    &&& final(self).ring() == old(self).ring()
                },
                Ring::Building(state) => {
                    &&& outcome == Ok::<(), Error>(())
                    &&& final(self).ring() matches Ring::Finalized(set)
                    &&& set.members() == state.members()
                    &&& set.domain() == state.domain()
                    &&& Some(set.commitment()) == sealed(state.aggregate())
                },
            },
    {
        proof {
            use_type_invariant(&*self);
        }
        let mut taken = Ring::Uninitialized;
        core::mem::swap(&mut self.ring, &mut taken);
        match taken {
            Ring::Finalized(set) => {
                self.ring = Ring::Finalized(set);
                Err(Error::RingFinalized)
            },
            Ring::Uninitialized => Err(Error::RingNotInitialized),
            Ring::Building(state) => match state.finish() {
                Ok(set) => {
                    self.ring = Ring::Finalized(set);
                    Ok(())
                },
                Err(state) => {
                    // Never taken: the ledger's ring is one that the scheme seals.
                    self.ring = Ring::Building(state);
                    Err(Error::RingNotInitialized)
                },
            },
        }
    }

    /// Discards the ring, sealed or not, and starts an empty one.
    pub fn reset_members(&mut self)
        ensures
            final(self).same_setup(old(self)),
            final(self).has_empty_ring(),
    {
        self.ring = Ring::Uninitialized;
        self.make_empty_ring();
    }

    /// Checks `proof` for `message` against the sealed ring, under this
    /// protocol's context, and gives the alias of the member that made it.
    pub fn validate_proof(&self, proof: &Proof, message: String) -> (outcome: Result<Alias, Error>)
        ensures
            match self.ring() {
                Ring::Finalized(set) => is_validation(
                    outcome,
                    validated(
                        set.domain(),
                        proof@,
                        set.commitment(),
                        domain_context(),
                        vstd::utf8::encode_utf8(message@),
                    ),
                ),
                _ => outcome == Err::<Alias, Error>(Error::RingNotFinalized),
            },
    {
        match &self.ring {
            Ring::Finalized(set) => {
                let context = context();
                let text = message.as_str().as_bytes_vec();
                match validate(proof, set, &context, &text) {
                    Ok(alias) => Ok(alias),
                    Err(_) => Err(Error::ValidationFailure),
                }
            },
            _ => Err(Error::RingNotFinalized),
        }
    }
}

impl GenesisConfig {
    /// The reference string that the scheme ships for a size of ring, with
    /// room for exactly its chunks.
    pub fn for_domain(domain: DomainSize) -> (config: GenesisConfig)
        ensures
            config.domain == domain,
            config.domain_size == config.srs_chunks@.len(),
            chunk_views(config.srs_chunks@) == builder_params(domain),
    {
        let srs_chunks = builder_chunks(domain);
        GenesisConfig { domain, domain_size: srs_chunks.len(), srs_chunks }
    }

    /// Loads the reference string and starts an empty ring. A chunk sequence
    /// longer than the domain is refused.
    pub fn build(self) -> (built: Result<Pallet, SrsError>)
        ensures
            match built {
                Ok(pallet) => {
                    &&& self.srs_chunks@.len() <= self.domain_size
                    &&& pallet.domain() == self.domain
                    &&& pallet.srs_chunks().capacity() == self.domain_size
                    &&& pallet.srs_chunks()@ == chunk_views(self.srs_chunks@)
                    &&& pallet.has_empty_ring()
                },
                Err(e) => e == SrsError::CapacityExceeded && self.srs_chunks@.len()
                    > self.domain_size,
            },
    {
        match SrsStore::new(self.domain_size, self.srs_chunks) {
            Ok(store) => {
                let mut pallet = Pallet::new(self.domain, store);
                pallet.make_empty_ring();
                Ok(pallet)
            },
            Err(e) => Err(e),
        }
    }
}

} // verus!
