//! The ring VRF scheme, as far as the library relies on it.
//!
//! The scheme's values are kept in their canonical encodings. Each function
//! that asks the scheme decodes what it is given and encodes the answer. The
//! contract of such a function is not proved: it says what the library takes
//! the scheme's word for.
//!
//! A member goes by two encodings of one point of the curve. Its identity is
//! the point in short Weierstrass form, 33 bytes; that is what travels and
//! what rings and key stores keep. Its key is the point in twisted Edwards
//! form, 32 bytes; that is what the scheme computes with.

use crate::srs::{chunk_views, SrsChunk, SrsStore};
use parity_scale_codec::{Decode, Encode};
use verifiable::ring::ark_vrf::reexports::ark_serialize::CanonicalSerialize;
use verifiable::ring::ark_vrf::suites::bandersnatch_sw::BandersnatchSha512Tai;
use verifiable::ring::ark_vrf::utils::te_sw_map::{sw_to_te, te_to_sw};
use verifiable::ring::ark_vrf::{CanonicalDeserializeExact, Public};
use verifiable::ring::bandersnatch::{BandersnatchSha512Ell2, BandersnatchVrfVerifiable};
use verifiable::ring::{
    ring_verifier_builder_params, MembersCommitment, MembersSet, ProverState, RingDomainSize,
    StaticChunk,
};
use verifiable::GenerateVerifiable;
use vstd::prelude::*;

verus! {

/// The identity of a member: the canonical encoding of its public key as a
/// point of the curve in short Weierstrass form, the coordinate first and one
/// octet of flags after it.
pub type RawMember = [u8; 33];

/// The public key of a member as the scheme reads it: the encoding of the
/// same point in twisted Edwards form.
pub type SchemeKey = [u8; 32];

/// The pseudonym of a member in one context.
pub type Alias = [u8; 32];

/// The secret that a member's key is derived from.
pub type Seed = [u8; 32];

/// A one-time value that binds a proof attempt to a ring and a member.
///
/// Only the scheme makes one: every commitment is one that the scheme
/// granted to some member of some ring.
#[derive(Debug)]
pub struct Commitment {
    bytes: Vec<u8>,
}

/// The bytes are the encoding of a commitment that the scheme granted.
pub open spec fn was_granted(bytes: Seq<u8>) -> bool {
    exists|domain: DomainSize, member: Seq<u8>, ring: Seq<Seq<u8>>| #[trigger]
        opening(domain, member, ring) == Some(bytes)
}

impl View for Commitment {
    type V = Seq<u8>;

    closed spec fn view(&self) -> Seq<u8> {
        self.bytes@
    }
}

impl Commitment {
    /// The commitment is one that the scheme granted.
    #[verifier::type_invariant]
    pub open spec fn granted(&self) -> bool {
        was_granted(self@)
    }

    /// The encoding of the commitment.
    pub fn as_bytes(&self) -> (bytes: &Vec<u8>)
        ensures
            bytes@ == self@,
    {
        &self.bytes
    }
}

impl Clone for Commitment {
    fn clone(&self) -> (copy: Self)
        ensures
            copy@ == self@,
    {
        proof {
            use_type_invariant(self);
        }
        Commitment { bytes: self.bytes.clone() }
    }
}

/// A proof of membership, bound to a ring, a context and a message.
#[derive(Debug)]
pub struct Proof(pub Vec<u8>);

impl View for Proof {
    type V = Seq<u8>;

    open spec fn view(&self) -> Seq<u8> {
        self.0@
    }
}

impl Clone for Proof {
    fn clone(&self) -> (copy: Self)
        ensures
            copy@ == self@,
    {
        Proof(self.0.clone())
    }
}

/// The sizes of ring that the scheme is set up for.
#[derive(Clone, Copy, Debug, PartialEq, Eq, Structural)]
pub enum DomainSize {
    /// Domain size 2^11, for rings of up to 255 members.
    Domain11,
    /// Domain size 2^12, for rings of up to 767 members.
    Domain12,
    /// Domain size 2^16, for rings of up to 16127 members.
    Domain16,
}

/// The encodings of a run of keys, in order.
pub open spec fn key_views(keys: Seq<SchemeKey>) -> Seq<Seq<u8>> {
    keys.map_values(|key: SchemeKey| key@)
}

/// The scheme's own name for a size of ring.
#[verifier::external_type_specification]
#[verifier::external_body]
pub struct ExRingDomainSize(verifiable::ring::RingDomainSize);

/// The chunks of the reference string that the scheme ships for a size of
/// ring, each in its encoding, in order.
pub uninterp spec fn builder_params(domain: DomainSize) -> Seq<Seq<u8>>;

/// The encoding of the ring that holds no member yet.
pub uninterp spec fn empty_ring(domain: DomainSize) -> Seq<u8>;

/// The encoding of the ring after `member` is folded in, where the scheme
/// folds it in. The scheme reads the chunks it needs out of `chunks`.
pub uninterp spec fn folded(aggregate: Seq<u8>, member: Seq<u8>, chunks: Seq<Seq<u8>>) -> Option<
    Seq<u8>,
>;

/// The encoding of what proofs are checked against once the ring is sealed,
/// where `aggregate` is the encoding of a ring.
pub uninterp spec fn sealed(aggregate: Seq<u8>) -> Option<Seq<u8>>;

/// The encoding of the public key that belongs to a seed, as the scheme
/// reads it.
pub uninterp spec fn public_key(seed: Seq<u8>) -> Seq<u8>;

/// Whether the bytes are the encoding of a public key, as the scheme reads it.
pub uninterp spec fn is_group_element(key: Seq<u8>) -> bool;

/// The key that the scheme reads for an identity, where the identity is the
/// encoding of a point that can be a key.
pub uninterp spec fn key_of(member: Seq<u8>) -> Option<Seq<u8>>;

/// The identity of a key, where the key is the encoding of a point that can
/// be written as an identity.
pub uninterp spec fn identity_of(key: Seq<u8>) -> Option<Seq<u8>>;

/// The identity is the canonical encoding of a group element that the scheme
/// takes for a public key.
pub open spec fn is_member(member: Seq<u8>) -> bool {
    key_of(member) matches Some(key) && is_group_element(key)
}

/// The encoding of the ring after the member with the given identity is
/// folded in, where the scheme folds it in.
pub open spec fn folded_in(aggregate: Seq<u8>, member: Seq<u8>, chunks: Seq<Seq<u8>>) -> Option<
    Seq<u8>,
> {
    match key_of(member) {
        Some(key) => folded(aggregate, key, chunks),
        None => None,
    }
}

/// The keys of a run of identities, in order, where each of them has one.
pub open spec fn keys_of(members: Seq<RawMember>) -> Option<Seq<Seq<u8>>> {
    if forall|i: int| 0 <= i < members.len() ==> key_of(#[trigger] members[i]@) is Some {
        Some(Seq::new(members.len(), |i: int| key_of(members[i]@)->Some_0))
    } else {
        None
    }
}

/// The encoding of the commitment of the member with the given identity to
/// the ring of the given identities, where the scheme grants one.
pub open spec fn opening_of(domain: DomainSize, member: Seq<u8>, ring: Seq<RawMember>) -> Option<
    Seq<u8>,
> {
    match (key_of(member), keys_of(ring)) {
        (Some(key), Some(keys)) => opening(domain, key, keys),
        _ => None,
    }
}

/// The encoding of the commitment of `member` to the ring of `ring`, where
/// the scheme grants one.
pub uninterp spec fn opening(domain: DomainSize, member: Seq<u8>, ring: Seq<Seq<u8>>) -> Option<
    Seq<u8>,
>;

/// Whether the scheme makes a proof out of the commitment.
pub uninterp spec fn proves(commitment: Seq<u8>) -> bool;

/// The alias under which the member with the given seed proves in a context
/// for a message.
pub uninterp spec fn alias_of(seed: Seq<u8>, context: Seq<u8>, message: Seq<u8>) -> Seq<u8>;

/// The alias that a proof yields when checked against a sealed ring, a
/// context and a message, where it holds.
pub uninterp spec fn validated(
    domain: DomainSize,
    proof: Seq<u8>,
    commitment: Seq<u8>,
    context: Seq<u8>,
    message: Seq<u8>,
) -> Option<Seq<u8>>;

/// Names a size of ring as the scheme names it. Nothing is computed.
#[verifier::external_body]
fn config_of(domain: DomainSize) -> RingDomainSize {
    match domain {
        DomainSize::Domain11 => RingDomainSize::Domain11,
        DomainSize::Domain12 => RingDomainSize::Domain12,
        DomainSize::Domain16 => RingDomainSize::Domain16,
    }
}

/// Calls `verifiable::ring::ring_verifier_builder_params`, which reads the
/// reference string in Lagrangian form that the scheme ships for the size,
/// and encodes each of its points as a `StaticChunk`. The data is part of the
/// scheme, so the same size gives the same chunks.
#[verifier::external_body]
pub(crate) fn builder_chunks(domain: DomainSize) -> (chunks: Vec<SrsChunk>)
    ensures
        chunk_views(chunks@) == builder_params(domain),
{
    let params = ring_verifier_builder_params::<BandersnatchSha512Ell2>(config_of(domain));
    let encode = |point| SrsChunk(StaticChunk::<BandersnatchSha512Ell2>(point).encode());
    params.0.into_iter().map(encode).collect()
}

/// Calls `GenerateVerifiable::start_members`, which gives the empty ring of
/// the size, and encodes it. What the scheme writes as a ring, it reads as
/// one, and a ring that it reads it seals.
#[verifier::external_body]
pub(crate) fn start_members(domain: DomainSize) -> (aggregate: Vec<u8>)
    ensures
        aggregate@ == empty_ring(domain),
        sealed(aggregate@) is Some,
{
    BandersnatchVrfVerifiable::start_members(config_of(domain)).encode()
}

/// Calls `GenerateVerifiable::push_members` with the one member. The scheme
/// asks for the chunks of the indices that the new members take, and is
/// answered by `SrsStore::lookup`. It refuses a member that is no public key,
/// as `GenerateVerifiable::is_member_valid` tells, a ring that is full, and a
/// lookup that fails; an aggregate or a chunk that does not decode is refused
/// before it is asked. What it answers depends on the aggregate, the member
/// and the chunks alone. What the scheme writes as a ring, it reads as one,
/// and a ring that it reads it seals.
#[verifier::external_body]
pub(crate) fn push_member(aggregate: &Vec<u8>, member: &SchemeKey, srs: &SrsStore) -> (pushed:
    Option<Vec<u8>>)
    ensures
        match pushed {
            Some(after) => folded(aggregate@, member@, srs@) == Some(after@),
            None => folded(aggregate@, member@, srs@) is None,
        },
        !is_group_element(member@) ==> pushed is None,
        pushed matches Some(after) ==> sealed(after@) is Some,
{
    let mut ring = MembersSet::<BandersnatchSha512Ell2>::decode(&mut &aggregate[..]).ok()?;
    let lookup = |range: core::ops::Range<usize>| {
        let chunks = srs.lookup(range.start, range.end).map_err(|_| ())?;
        chunks.iter().map(|c| StaticChunk::decode(&mut &c.0[..]).map_err(|_| ())).collect()
    };
    BandersnatchVrfVerifiable::push_members(&mut ring, core::iter::once(*member), lookup).ok()?;
    Some(ring.encode())
}

/// Calls `GenerateVerifiable::finish_members`, which turns a ring into the
/// commitment that proofs are checked against, and encodes it. There is no
/// answer where the aggregate does not decode.
#[verifier::external_body]
pub(crate) fn finish_members(aggregate: &Vec<u8>) -> (commitment: Option<Vec<u8>>)
    ensures
        match commitment {
            Some(bytes) => sealed(aggregate@) == Some(bytes@),
            None => sealed(aggregate@) is None,
        },
{
    let ring = MembersSet::<BandersnatchSha512Ell2>::decode(&mut &aggregate[..]).ok()?;
    Some(BandersnatchVrfVerifiable::finish_members(ring).encode())
}

/// Calls `GenerateVerifiable::new_secret` and, on the secret it gives,
/// `GenerateVerifiable::member_from_secret`: the public key that belongs to
/// the seed, in its encoding. What the scheme writes as a public key, it
/// reads as one.
#[verifier::external_body]
pub(crate) fn member_from_seed(seed: &Seed) -> (member: SchemeKey)
    ensures
        member@ == public_key(seed@),
        is_group_element(member@),
{
    let secret = BandersnatchVrfVerifiable::new_secret(*seed);
    BandersnatchVrfVerifiable::member_from_secret(&secret)
}

/// Reads an identity as the key that the scheme knows the member by. Calls
/// `Public::deserialize_compressed_exact` of the curve's short Weierstrass
/// suite, which takes 33 bytes that are the one encoding of a point of the
/// prime-order subgroup other than the identity; `sw_to_te`, which maps the
/// point to twisted Edwards form; `Public::from_affine` of the scheme's suite,
/// which checks the mapped point; and `serialize_compressed`, which writes its
/// 32 bytes. What comes back depends on the identity alone.
#[verifier::external_body]
pub(crate) fn scheme_key(member: &RawMember) -> (key: Option<SchemeKey>)
    ensures
        match key {
            Some(bytes) => key_of(member@) == Some(bytes@),
            None => key_of(member@) is None,
        },
{
    let point = Public::<BandersnatchSha512Tai>::deserialize_compressed_exact(&member[..]).ok()?;
    let point = Public::<BandersnatchSha512Ell2>::from_affine(sw_to_te(&point.point())?).ok()?;
    let mut key = [0u8; 32];
    point.serialize_compressed(&mut key[..]).ok()?;
    Some(key)
}

/// Writes the identity of a key: the way back from `scheme_key`. Calls
/// `Public::deserialize_compressed_exact` of the scheme's suite, `te_to_sw`,
/// `Public::from_affine` of the short Weierstrass suite and
/// `serialize_compressed`, which writes 33 bytes. The two forms of the curve
/// hold the same group, so a key that the scheme takes has an identity, and
/// the identity is read back as that key.
#[verifier::external_body]
pub(crate) fn identity_of_key(key: &SchemeKey) -> (member: Option<RawMember>)
    ensures
        match member {
            Some(bytes) => identity_of(key@) == Some(bytes@),
            None => identity_of(key@) is None,
        },
        is_group_element(key@) ==> member is Some,
        member matches Some(bytes) ==> key_of(bytes@) == Some(key@),
{
    let point = Public::<BandersnatchSha512Ell2>::deserialize_compressed_exact(&key[..]).ok()?;
    let point = Public::<BandersnatchSha512Tai>::from_affine(te_to_sw(&point.point())?).ok()?;
    let mut member = [0u8; 33];
    point.serialize_compressed(&mut member[..]).ok()?;
    Some(member)
}

/// Reads each identity of a run as the key that the scheme knows the member
/// by. There is no answer where one of them has no key.
pub fn scheme_keys(members: &Vec<RawMember>) -> (keys: Option<Vec<SchemeKey>>)
    ensures
        match keys {
            Some(keys) => keys_of(members@) == Some(key_views(keys@)),
            None => keys_of(members@) is None,
        },
{
    let mut keys: Vec<SchemeKey> = Vec::new();
    let mut i: usize = 0;
    while i < members.len()
        invariant
            i <= members@.len(),
            keys@.len() == i,
            forall|j: int| 0 <= j < i ==> key_of(#[trigger] members@[j]@) == Some(keys@[j]@),
        decreases members@.len() - i,
    {
        match scheme_key(&members[i]) {
            Some(key) => {
                keys.push(key);
            },
            None => {
                assert(key_of(members@[i as int]@) is None);
                return None;
            },
        }
        i += 1;
    }
    assert(key_views(keys@) =~= Seq::new(
        members@.len(),
        |i: int| key_of(members@[i]@)->Some_0,
    ));
    Some(keys)
}

/// Calls `GenerateVerifiable::is_member_valid`, which says whether the bytes
/// decode as a public key.
#[verifier::external_body]
pub(crate) fn is_member_valid(member: &SchemeKey) -> (valid: bool)
    ensures
        valid == is_group_element(member@),
{
    BandersnatchVrfVerifiable::is_member_valid(member)
}

/// Calls `GenerateVerifiable::open`, which prepares the commitment of
/// `member` to the ring made of `ring`, in that order, and encodes it. The
/// scheme refuses where a key does not decode, where the member is not in the
/// ring, and where the ring is too large for the size.
#[verifier::external_body]
pub(crate) fn open(domain: DomainSize, member: &SchemeKey, ring: &Vec<SchemeKey>) -> (opened:
    Option<Commitment>)
    ensures
        match opened {
            Some(commitment) => opening(domain, member@, key_views(ring@)) == Some(commitment@),
            None => opening(domain, member@, key_views(ring@)) is None,
        },
{
    let ring = ring.iter().copied();
    let opened = BandersnatchVrfVerifiable::open(config_of(domain), member, ring).ok()?;
    Some(Commitment { bytes: opened.encode() })
}

/// Calls `GenerateVerifiable::new_secret` and then
/// `GenerateVerifiable::create`, which spends the commitment on a proof. The
/// scheme builds its prover from the commitment as it stands, so it is handed
/// none but one that it granted itself. Whether it makes a proof depends on
/// the commitment alone: on the size of ring and the place in the ring that
/// the commitment holds. The proof is blinded afresh each time, so nothing
/// else is said of it. The alias is made from the secret, the context and the
/// message and from nothing else.
#[verifier::external_body]
pub(crate) fn create(
    commitment: Commitment,
    seed: &Seed,
    context: &Vec<u8>,
    message: &Vec<u8>,
) -> (created: Option<(Proof, Alias)>)
    requires
        was_granted(commitment@),
    ensures
        created is Some <==> proves(commitment@),
        created matches Some((_, alias)) ==> alias@ == alias_of(seed@, context@, message@),
{
    let state = ProverState::<BandersnatchSha512Ell2>::decode(&mut &commitment.bytes[..]).ok()?;
    let secret = BandersnatchVrfVerifiable::new_secret(*seed);
    let (proof, alias) = BandersnatchVrfVerifiable::create(state, &secret, context, message).ok()?;
    Some((Proof(proof.into_inner()), alias))
}

/// Calls `GenerateVerifiable::validate`, which checks the proof against the
/// commitment of a sealed ring, a context and a message, and gives the alias
/// it was made under. A proof that is too long for the scheme, and a
/// commitment that does not decode, are refused before the scheme is asked.
/// What it answers depends on these five alone.
#[verifier::external_body]
pub(crate) fn validate(
    domain: DomainSize,
    proof: &Proof,
    commitment: &Vec<u8>,
    context: &Vec<u8>,
    message: &Vec<u8>,
) -> (checked: Option<Alias>)
    ensures
        match checked {
            Some(alias) => validated(domain, proof@, commitment@, context@, message@) == Some(
                alias@,
            ),
            None => validated(domain, proof@, commitment@, context@, message@) is None,
        },
{
    let members = MembersCommitment::<BandersnatchSha512Ell2>::decode(&mut &commitment[..]).ok()?;
    let proof = proof.0.clone().try_into().ok()?;
    BandersnatchVrfVerifiable::validate(config_of(domain), &proof, &members, context, message).ok()
}

} // verus!
