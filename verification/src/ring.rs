//! The ring accumulator: members go in one at a time, then the ring is sealed.
//!
//! The accumulator keeps, beside the members themselves, the aggregate that
//! the scheme folds each member into. It decides when the scheme is asked and
//! what becomes of its answer.

use crate::scheme::{
    empty_ring, finish_members, folded_in, is_member, push_member, scheme_key, sealed,
    start_members, validate as check, validated, Alias, DomainSize, Proof, RawMember,
};
use crate::srs::SrsStore;
use vstd::prelude::*;

verus! {

/// Why a member was not added.
#[derive(Clone, Copy, Debug, PartialEq, Eq, Structural)]
pub enum PushFailure {
    /// The ring holds as many members as its domain has room for.
    AtCapacity,
    /// The scheme refused to fold the member in.
    Rejected,
}

/// A ring that is still taking members.
pub struct RingBuildState {
    domain: DomainSize,
    capacity: usize,
    members: Vec<RawMember>,
    aggregate: Vec<u8>,
}

/// A sealed ring: the members in the order they were added, and what a
/// verifier needs to check proofs against them.
pub struct MemberSet {
    domain: DomainSize,
    members: Vec<RawMember>,
    commitment: Vec<u8>,
}

impl MemberSet {
    /// The size that the ring was set up for.
    pub closed spec fn domain(&self) -> DomainSize {
        self.domain
    }

    /// The members, in the order they were added.
    pub closed spec fn members(&self) -> Seq<RawMember> {
        self.members@
    }

    /// What a verifier checks proofs against.
    pub closed spec fn commitment(&self) -> Seq<u8> {
        self.commitment@
    }

    /// The size that the ring was set up for.
    pub fn domain_size(&self) -> (domain: DomainSize)
        ensures
            domain == self.domain(),
    {
        self.domain
    }

    /// The members, in the order they were added.
    pub fn member_list(&self) -> (list: &Vec<RawMember>)
        ensures
            list@ == self.members(),
    {
        &self.members
    }

    /// What a verifier checks proofs against.
    pub fn commitment_bytes(&self) -> (bytes: &Vec<u8>)
        ensures
            bytes@ == self.commitment(),
    {
        &self.commitment
    }
}

/// The bytes that an answer of the scheme holds, if it holds any.
pub open spec fn answer_view(answer: Option<Vec<u8>>) -> Option<Seq<u8>> {
    match answer {
        Some(bytes) => Some(bytes@),
        None => None,
    }
}

impl RingBuildState {
    /// The size that the ring is set up for.
    pub closed spec fn domain(&self) -> DomainSize {
        self.domain
    }

    /// The members added so far, in order.
    pub closed spec fn members(&self) -> Seq<RawMember> {
        self.members@
    }

    /// The aggregate of the members added so far.
    pub closed spec fn aggregate(&self) -> Seq<u8> {
        self.aggregate@
    }

    /// The number of members the ring has room for.
    pub closed spec fn capacity(&self) -> nat {
        self.capacity as nat
    }

    /// The ring holds no more members than it has room for.
    #[verifier::type_invariant]
    pub closed spec fn wf(&self) -> bool {
        self.members@.len() <= self.capacity
    }

    /// The scheme can seal the ring as it stands.
    pub open spec fn sealable(&self) -> bool {
        sealed(self.aggregate()) is Some
    }

    /// What a member is told when the scheme has answered `folded` to the
    /// request to fold it in. A full ring refuses whatever the answer.
    pub open spec fn push_outcome(&self, folded: Option<Seq<u8>>) -> Result<(), PushFailure> {
        if self.members().len() >= self.capacity() {
            Err(PushFailure::AtCapacity)
        } else if folded is Some {
            Ok(())
        } else {
            Err(PushFailure::Rejected)
        }
    }

    /// What becomes of a ring when the scheme has answered `folded` to the
    /// request to fold `member` in: with an aggregate the member is in, without
    /// one nothing has changed. A full ring stays as it is whatever the answer.
    pub open spec fn absorbed(
        &self,
        member: RawMember,
        folded: Option<Seq<u8>>,
        after: &RingBuildState,
    ) -> bool {
        &&& after.domain() == self.domain()
        &&& after.capacity() == self.capacity()
        &&& if self.push_outcome(folded) is Ok {
            &&& after.members() == self.members().push(member)
            &&& Some(after.aggregate()) == folded
        } else {
            &&& after.members() == self.members()
            &&& after.aggregate() == self.aggregate()
        }
    }

    /// Starts an empty ring of the given size, with room for as many members
    /// as the domain of `srs` has chunks.
    pub fn start(domain: DomainSize, srs: &SrsStore) -> (state: RingBuildState)
        ensures
            state.domain() == domain,
            state.capacity() == srs.capacity(),
            state.members() == Seq::<RawMember>::empty(),
            state.aggregate() == empty_ring(domain),
            state.sealable(),
    {
        RingBuildState {
            domain,
            capacity: srs.domain_size(),
            members: Vec::new(),
            aggregate: start_members(domain),
        }
    }

    /// The number of members added so far.
    pub fn count(&self) -> (n: usize)
        ensures
            n == self.members().len(),
            n <= self.capacity(),
    {
        proof {
            use_type_invariant(self);
        }
        self.members.len()
    }

    /// Takes in the scheme's answer to the request to fold `member` in.
    pub fn absorb(&mut self, member: RawMember, folded: Option<Vec<u8>>) -> (outcome: Result<
        (),
        PushFailure,
    >)
        ensures
            old(self).absorbed(member, answer_view(folded), final(self)),
            outcome == old(self).push_outcome(answer_view(folded)),
    {
        if self.members.len() >= self.capacity {
            return Err(PushFailure::AtCapacity);
        }
        match folded {
            Some(aggregate) => {
                let mut members: Vec<RawMember> = Vec::new();
                core::mem::swap(&mut self.members, &mut members);
                members.push(member);
                self.members = members;
                self.aggregate = aggregate;
                Ok(())
            },
            None => Err(PushFailure::Rejected),
        }
    }

    /// Adds `member` to the ring.
    ///
    /// A full ring refuses the member without asking the scheme. Otherwise the
    /// identity is read as the key that the scheme knows the member by, and
    /// the scheme folds the key in, reading from `srs` the one chunk at the
    /// index that the member takes, or refuses it. An identity that is not the
    /// encoding of a public key is always refused.
    pub fn push_member(&mut self, member: RawMember, srs: &SrsStore) -> (outcome: Result<
        (),
        PushFailure,
    >)
        ensures
            old(self).absorbed(
                member,
                folded_in(old(self).aggregate(), member@, srs@),
                final(self),
            ),
            outcome == old(self).push_outcome(folded_in(old(self).aggregate(), member@, srs@)),
            !is_member(member@) ==> outcome is Err,
            old(self).sealable() ==> final(self).sealable(),
    {
        if self.members.len() >= self.capacity {
            return Err(PushFailure::AtCapacity);
        }
        let folded = match scheme_key(&member) {
            Some(key) => push_member(&self.aggregate, &key, srs),
            None => None,
        };
        self.absorb(member, folded)
    }

    /// Seals the ring: the members stay as they are, and the scheme turns the
    /// aggregate into what proofs are checked against. A ring whose aggregate
    /// the scheme cannot read is handed back as it is; a ring that was started
    /// and has taken its members from the scheme is none such.
    pub fn finish(self) -> (outcome: Result<MemberSet, RingBuildState>)
        ensures
            match outcome {
                Ok(set) => {
                    &&& sealed(self.aggregate()) == Some(set.commitment())
                    &&& set.members() == self.members()
                    &&& set.domain() == self.domain()
                },
                Err(state) => sealed(self.aggregate()) is None && state == self,
            },
    {
        match finish_members(&self.aggregate) {
            Some(commitment) => Ok(
                MemberSet { domain: self.domain, members: self.members, commitment },
            ),
            None => Err(self),
        }
    }
}

/// As long as the ring holds fewer members than its domain has room for, the
/// scheme alone decides whether the next member is taken.
pub proof fn lemma_room_up_to_domain_size(state: RingBuildState, folded: Option<Seq<u8>>)
    requires
        state.members().len() < state.capacity(),
    ensures
        state.push_outcome(folded) is Ok <==> folded is Some,
        state.members().len() + 1 <= state.capacity(),
{
}

/// In a run of rings, the one after ring `i` is what ring `i` became when the
/// scheme folded member `i` in.
pub open spec fn folded_at(
    states: Seq<RingBuildState>,
    pushed: Seq<RawMember>,
    answers: Seq<Seq<u8>>,
    i: int,
) -> bool {
    states[i].absorbed(pushed[i], Some(answers[i]), &states[i + 1])
}

/// Members that the scheme folds in one after another, no more of them than
/// the ring has room for, are all taken, and the ring then holds exactly
/// them, in the order in which they came.
pub proof fn lemma_members_accumulate(
    states: Seq<RingBuildState>,
    pushed: Seq<RawMember>,
    answers: Seq<Seq<u8>>,
    upto: int,
)
    requires
        states.len() == pushed.len() + 1,
        answers.len() == pushed.len(),
        states[0].members() == Seq::<RawMember>::empty(),
        pushed.len() <= states[0].capacity(),
        forall|i: int| 0 <= i < pushed.len() ==> #[trigger] folded_at(states, pushed, answers, i),
        0 <= upto <= pushed.len(),
    ensures
        states[upto].members() == pushed.take(upto),
        states[upto].capacity() == states[0].capacity(),
        upto > 0 ==> states[upto - 1].push_outcome(Some(answers[upto - 1])) is Ok
            && states[upto].aggregate() == answers[upto - 1],
    decreases upto,
{
    if upto == 0 {
        assert(pushed.take(0) =~= Seq::<RawMember>::empty());
    } else {
        lemma_members_accumulate(states, pushed, answers, upto - 1);
        assert(folded_at(states, pushed, answers, upto - 1));
        assert(pushed.take(upto) =~= pushed.take(upto - 1).push(pushed[upto - 1]));
    }
}

/// The context that separates this protocol's proofs and aliases from any
/// other's: the bytes of `VERIFIABLE`.
pub open spec fn domain_context() -> Seq<u8> {
    seq![0x56u8, 0x45u8, 0x52u8, 0x49u8, 0x46u8, 0x49u8, 0x41u8, 0x42u8, 0x4cu8, 0x45u8]
}

/// The context that separates this protocol's proofs and aliases from any
/// other's.
pub fn context() -> (bytes: Vec<u8>)
    ensures
        bytes@ == domain_context(),
{
    let mut bytes: Vec<u8> = Vec::new();
    bytes.push(0x56);
    bytes.push(0x45);
    bytes.push(0x52);
    bytes.push(0x49);
    bytes.push(0x46);
    bytes.push(0x49);
    bytes.push(0x41);
    bytes.push(0x42);
    bytes.push(0x4c);
    bytes.push(0x45);
    assert(bytes@ =~= domain_context());
    bytes
}

/// Why a proof was not accepted.
#[derive(Clone, Copy, Debug, PartialEq, Eq, Structural)]
pub struct VerificationFailure;

/// The verdict on a proof is the scheme's: the alias where the scheme finds
/// one, a failure where it finds none.
pub open spec fn is_verdict(
    verdict: Result<Alias, VerificationFailure>,
    checked: Option<Seq<u8>>,
) -> bool {
    match verdict {
        Ok(alias) => checked == Some(alias@),
        Err(_) => checked is None,
    }
}

/// Checks `proof` against a sealed ring, a context and a message, and gives
/// the alias of the member that made it. Nothing is changed. The scheme is
/// given exactly these four, and its answer decides.
pub fn validate(proof: &Proof, members: &MemberSet, context: &Vec<u8>, message: &Vec<u8>) -> (verdict:
    Result<Alias, VerificationFailure>)
    ensures
        is_verdict(
            verdict,
            validated(members.domain(), proof@, members.commitment(), context@, message@),
        ),
{
    match check(members.domain, proof, &members.commitment, context, message) {
        Some(alias) => Ok(alias),
        None => Err(VerificationFailure),
    }
}

} // verus!
