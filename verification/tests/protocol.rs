use parity_scale_codec::Encode;
use verifiable::ring::ark_vrf::reexports::ark_serialize::{CanonicalDeserialize, CanonicalSerialize};
use verifiable::ring::ark_vrf::suites::bandersnatch::AffinePoint as EdwardsPoint;
use verifiable::ring::ark_vrf::suites::bandersnatch_sw::AffinePoint as WeierstrassPoint;
use verifiable::ring::ark_vrf::utils::te_sw_map::{sw_to_te, te_to_sw};
use verifiable::ring::bandersnatch::{BandersnatchSha512Ell2, BandersnatchVrfVerifiable};
use verifiable::ring::{ring_verifier_builder_params, RingDomainSize, StaticChunk};
use verifiable::GenerateVerifiable;
use verifiable_ring::pallet::{Error as RingError, GenesisConfig, Pallet};
use verifiable_ring::ring::{context, validate, PushFailure, RingBuildState, VerificationFailure};
use verifiable_ring::rpc::{derive_seed, to_raw_member, Error, Verifiable};
use verifiable_ring::scheme::{scheme_keys, Commitment, DomainSize, Proof, RawMember, SchemeKey};
use verifiable_ring::srs::{SrsChunk, SrsError, SrsStore};

// Bytes that are no public key: no point of the curve has this encoding.
const NO_KEY: RawMember = [0xff; 33];

fn first_chunks(count: usize) -> Vec<SrsChunk> {
    let mut chunks = GenesisConfig::for_domain(DomainSize::Domain11).srs_chunks;
    chunks.truncate(count);
    chunks
}

fn genesis(domain_size: usize, chunks: Vec<SrsChunk>) -> Result<Pallet, SrsError> {
    GenesisConfig { domain: DomainSize::Domain11, domain_size, srs_chunks: chunks }.build()
}

fn key_of(phrase: &str) -> SchemeKey {
    let secret = BandersnatchVrfVerifiable::new_secret(derive_seed(phrase));
    BandersnatchVrfVerifiable::member_from_secret(&secret)
}

// The identity of a member: the point of its key, written in short
// Weierstrass form.
fn member_of(phrase: &str) -> RawMember {
    let point = EdwardsPoint::deserialize_compressed(&key_of(phrase)[..]).unwrap();
    let mut identity = [0u8; 33];
    te_sw_point(&point).serialize_compressed(&mut identity[..]).unwrap();
    identity
}

fn te_sw_point(point: &EdwardsPoint) -> WeierstrassPoint {
    te_to_sw(point).unwrap()
}

fn alias_of(phrase: &str, context: &[u8]) -> [u8; 32] {
    let secret = BandersnatchVrfVerifiable::new_secret(derive_seed(phrase));
    BandersnatchVrfVerifiable::alias_in_context(&secret, context).unwrap()
}

fn sealed_ring_of(phrases: &[&str]) -> Pallet {
    let mut pallet = genesis(4, first_chunks(4)).unwrap();
    for phrase in phrases {
        pallet.push_member(member_of(phrase)).unwrap();
    }
    pallet.finish_members().unwrap();
    pallet
}

fn authority_of(phrases: &[&str]) -> Verifiable {
    let mut authority = Verifiable::new();
    for phrase in phrases {
        authority.keygen(phrase).unwrap();
    }
    authority
}

fn granted_to(phrase: &str) -> Commitment {
    let ring = sealed_ring_of(&[phrase]);
    let mut authority = authority_of(&[phrase]);
    authority.open(hex::encode(member_of(phrase)), ring.members().unwrap()).unwrap();
    authority.take_commitment(&member_of(phrase)).unwrap().0
}

fn from_hex(text: &str) -> Vec<u8> {
    hex::decode(text).unwrap()
}

#[test]
fn seed_is_the_digest_of_the_phrase() {
    assert_eq!(
        derive_seed("abc").to_vec(),
        from_hex("bddd813c634239723171ef3fee98579b94964e3bb1cb3e427262c8c068d52319")
    );
    assert_eq!(
        derive_seed("").to_vec(),
        from_hex("0e5751c026e543b2e8ab2eb06099daa1d1e5df47778f7787faab45cdf12fe3a8")
    );
    assert_eq!(
        derive_seed("//Alice").to_vec(),
        from_hex("d5ff0f426a579f700c533c2b29d3e8387bc9a47d40e2638013edd8b8c2feba1f")
    );
}

#[test]
fn context_is_the_protocol_name() {
    assert_eq!(context(), b"VERIFIABLE".to_vec());
}

#[test]
fn identity_is_read_from_hex_of_either_case() {
    let lower = format!("02{}", "ab".repeat(32));
    let upper = format!("02{}", "AB".repeat(32));
    let mut expected = [0xabu8; 33];
    expected[0] = 2;
    assert_eq!(to_raw_member(lower), Ok(expected));
    assert_eq!(to_raw_member(upper), Ok(expected));
    let counting: String = (0..33u8).map(|i| format!("{:02x}", i)).collect();
    let read = to_raw_member(counting).unwrap();
    assert_eq!(read.to_vec(), (0..33u8).collect::<Vec<u8>>());
    assert_eq!(to_raw_member("00".repeat(33)), Ok([0u8; 33]));
}

#[test]
fn malformed_identity_is_a_decode_error() {
    assert_eq!(to_raw_member(String::new()), Err(Error::Decode));
    assert_eq!(to_raw_member("02".repeat(32)), Err(Error::Decode));
    assert_eq!(to_raw_member("02".repeat(34)), Err(Error::Decode));
    assert_eq!(to_raw_member(hex::encode(key_of("alice"))), Err(Error::Decode));
    assert_eq!(to_raw_member(format!("{}0", "02".repeat(32))), Err(Error::Decode));
    assert_eq!(to_raw_member(format!("{}0g", "02".repeat(32))), Err(Error::Decode));
    assert_eq!(to_raw_member(format!("0x{}", "02".repeat(32))), Err(Error::Decode));
    assert_eq!(to_raw_member(format!("{}é", "02".repeat(32))), Err(Error::Decode));
}

#[test]
fn error_codes_follow_declaration_order() {
    assert_eq!(Error::Decode.code(), 0);
    assert_eq!(Error::Encode.code(), 1);
    assert_eq!(Error::MemberNotFound.code(), 2);
    assert_eq!(Error::CommitNotFound.code(), 3);
    assert_eq!(Error::Commitment.code(), 4);
    assert_eq!(Error::Proof.code(), 5);
}

#[test]
fn error_words_tell_what_failed() {
    assert_eq!(Error::Decode.message(), "Decoding input member");
    assert_eq!(Error::Encode.message(), "Encoding member");
    assert_eq!(Error::MemberNotFound.message(), "Member no found");
    assert_eq!(Error::CommitNotFound.message(), "Member commitment no found");
    assert_eq!(Error::Commitment.message(), "Generating commitment");
    assert_eq!(Error::Proof.message(), "Generating proof");
}

#[test]
fn keygen_spells_the_public_key_in_lowercase_hex() {
    let mut authority = Verifiable::new();
    let identity = authority.keygen("alice").unwrap();
    assert_eq!(identity, hex::encode(member_of("alice")));
    assert_ne!(identity, hex::encode(derive_seed("alice")));
    assert_eq!(identity.len(), 66);
    assert_eq!(identity, identity.to_lowercase());
    assert_eq!(to_raw_member(identity), Ok(member_of("alice")));
    assert_eq!(authority.known_members(), vec![member_of("alice")]);
}

#[test]
fn identity_is_the_key_in_short_weierstrass_form() {
    for phrase in ["alice", "bob", "carol", "dave", ""] {
        let identity = to_raw_member(Verifiable::new().keygen(phrase).unwrap()).unwrap();
        // The coordinate, then one octet that holds nothing but the sign.
        assert!(identity[32] == 0x00 || identity[32] == 0x80);
        let point = WeierstrassPoint::deserialize_compressed(&identity[..]).unwrap();
        let mut key = [0u8; 32];
        sw_to_te(&point).unwrap().serialize_compressed(&mut key[..]).unwrap();
        assert_eq!(key, key_of(phrase));
        assert_ne!(identity[..32], key);
        assert_eq!(scheme_keys(&vec![identity, identity]), Some(vec![key, key]));
    }
    assert_eq!(scheme_keys(&Vec::new()), Some(Vec::new()));
    assert_eq!(scheme_keys(&vec![member_of("alice"), NO_KEY]), None);
    assert_eq!(scheme_keys(&vec![[0u8; 33]]), None);
}

#[test]
fn identity_of_another_width_is_a_decode_error() {
    let ring = sealed_ring_of(&["alice"]);
    let set = ring.members().unwrap();
    let mut authority = Verifiable::new();
    let alice = authority.keygen("alice").unwrap();
    authority.open(alice.clone(), set).unwrap();
    // The key as the scheme writes it is no identity: it is a byte short.
    let short = hex::encode(key_of("alice"));
    assert_eq!(short.len(), 64);
    assert_eq!(authority.open(short.clone(), set), Err(Error::Decode));
    assert_eq!(authority.create(short, "hello".to_string()), Err(Error::Decode));
    assert_eq!(authority.create(format!("{}00", alice), "hello".to_string()), Err(Error::Decode));
    // No waiting commitment was touched.
    assert!(authority.create(alice, "hello".to_string()).is_ok());
}

#[test]
fn keygen_is_idempotent_by_phrase() {
    let mut authority = Verifiable::new();
    let first = authority.keygen("alice").unwrap();
    let other = authority.keygen("bob").unwrap();
    let again = authority.keygen("alice").unwrap();
    assert_eq!(first, again);
    assert_ne!(first, other);
    assert_eq!(authority.known_members(), vec![member_of("alice"), member_of("bob")]);
}

#[test]
fn register_spells_the_identity_it_is_given() {
    let mut authority = Verifiable::new();
    assert_eq!(authority.register([7u8; 32], [0x1f; 33]), "1f".repeat(33));
    assert_eq!(authority.register([8u8; 32], [0x2e; 33]), "2e".repeat(33));
    assert_eq!(authority.register([9u8; 32], [0x1f; 33]), "1f".repeat(33));
    assert_eq!(authority.known_members(), vec![[0x1f; 33], [0x2e; 33]]);
}

#[test]
fn keygen_discards_a_waiting_commitment() {
    let ring = sealed_ring_of(&["alice"]);
    let mut authority = Verifiable::new();
    let alice = authority.keygen("alice").unwrap();
    authority.open(alice.clone(), ring.members().unwrap()).unwrap();
    authority.keygen("alice").unwrap();
    assert_eq!(authority.create(alice, "hello".to_string()), Err(Error::CommitNotFound));
}

#[test]
fn create_without_open_finds_no_commitment() {
    let mut authority = Verifiable::new();
    let alice = authority.keygen("alice").unwrap();
    assert_eq!(authority.create(alice.clone(), "hello".to_string()), Err(Error::CommitNotFound));
    // Whatever happened before, and to whomever else.
    let ring = sealed_ring_of(&["alice", "bob"]);
    let bob = authority.keygen("bob").unwrap();
    authority.open(bob, ring.members().unwrap()).unwrap();
    assert_eq!(authority.create(alice.clone(), "hello".to_string()), Err(Error::CommitNotFound));
    // A refused open leaves nothing to spend either.
    authority.register([1u8; 32], NO_KEY);
    assert_eq!(authority.open(alice.clone(), ring.members().unwrap()), Err(Error::Commitment));
    assert_eq!(authority.create(alice, "hello".to_string()), Err(Error::CommitNotFound));
}

#[test]
fn create_spends_the_commitment_once() {
    let ring = sealed_ring_of(&["alice"]);
    let mut authority = Verifiable::new();
    let alice = authority.keygen("alice").unwrap();
    authority.open(alice.clone(), ring.members().unwrap()).unwrap();
    assert!(authority.create(alice.clone(), "hello".to_string()).is_ok());
    assert_eq!(authority.create(alice.clone(), "hello".to_string()), Err(Error::CommitNotFound));
    authority.open(alice.clone(), ring.members().unwrap()).unwrap();
    assert!(authority.create(alice, "hello".to_string()).is_ok());
}

#[test]
fn create_asks_with_the_commitment_it_was_handed() {
    // A commitment that the scheme granted to one member, kept for another:
    // the proof that comes of it does not hold.
    let ring = sealed_ring_of(&["alice", "bob"]);
    let mut authority = authority_of(&["alice", "bob"]);
    let alice = hex::encode(member_of("alice"));
    authority.open(hex::encode(member_of("bob")), ring.members().unwrap()).unwrap();
    let (of_bob, _) = authority.take_commitment(&member_of("bob")).unwrap();
    authority.store_commitment(&member_of("alice"), Some(of_bob)).unwrap();
    match authority.create(alice.clone(), "hello".to_string()) {
        Ok((_, proof)) => assert_eq!(
            ring.validate_proof(&Proof(from_hex(&proof)), "hello".to_string()),
            Err(RingError::ValidationFailure)
        ),
        Err(e) => assert_eq!(e, Error::Proof),
    }
    assert_eq!(authority.create(alice, "hello".to_string()), Err(Error::CommitNotFound));
}

#[test]
fn failed_open_keeps_the_waiting_commitment() {
    let ring = sealed_ring_of(&["alice"]);
    let mut authority = Verifiable::new();
    let alice = authority.keygen("alice").unwrap();
    authority.open(alice.clone(), ring.members().unwrap()).unwrap();
    authority.register([1u8; 32], NO_KEY);
    assert_eq!(authority.open(alice.clone(), ring.members().unwrap()), Err(Error::Commitment));
    let (_, proof) = authority.create(alice, "hello".to_string()).unwrap();
    assert!(ring.validate_proof(&Proof(from_hex(&proof)), "hello".to_string()).is_ok());
}

#[test]
fn open_tells_its_failures_apart() {
    let ring = sealed_ring_of(&["alice"]);
    let set = ring.members().unwrap();
    let mut authority = Verifiable::new();
    let alice = authority.keygen("alice").unwrap();
    assert_eq!(authority.open("zz".to_string(), set), Err(Error::Decode));
    // 33 bytes that are no group element, known or not.
    assert_eq!(authority.open(hex::encode(NO_KEY), set), Err(Error::Decode));
    // A group element that no key is kept under.
    assert_eq!(authority.open(hex::encode(member_of("bob")), set), Err(Error::MemberNotFound));
    assert_eq!(authority.open(alice.clone(), set), Ok(()));
    // A store that knows something that is no key has no ring to commit to.
    authority.register([1u8; 32], NO_KEY);
    assert_eq!(authority.open(hex::encode(NO_KEY), set), Err(Error::Decode));
    assert_eq!(authority.open(alice, set), Err(Error::Commitment));
}

#[test]
fn open_commits_to_the_ring_of_every_known_identity() {
    let ring = sealed_ring_of(&["alice", "bob", "carol"]);
    let set = ring.members().unwrap();
    // The store knows the members of the ring, in the order of the ring.
    let mut same = authority_of(&["alice", "bob", "carol"]);
    same.open(hex::encode(member_of("bob")), set).unwrap();
    let (_, proof) = same.create(hex::encode(member_of("bob")), "hello".to_string()).unwrap();
    assert!(ring.validate_proof(&Proof(from_hex(&proof)), "hello".to_string()).is_ok());
    // The store knows them in another order: its ring is another ring.
    let mut other = authority_of(&["bob", "alice", "carol"]);
    other.open(hex::encode(member_of("bob")), set).unwrap();
    let (_, proof) = other.create(hex::encode(member_of("bob")), "hello".to_string()).unwrap();
    assert_eq!(
        ring.validate_proof(&Proof(from_hex(&proof)), "hello".to_string()),
        Err(RingError::ValidationFailure)
    );
    // The store knows one more.
    let mut more = authority_of(&["alice", "bob", "carol", "dave"]);
    more.open(hex::encode(member_of("bob")), set).unwrap();
    let (_, proof) = more.create(hex::encode(member_of("bob")), "hello".to_string()).unwrap();
    assert_eq!(
        ring.validate_proof(&Proof(from_hex(&proof)), "hello".to_string()),
        Err(RingError::ValidationFailure)
    );
}

#[test]
fn open_grants_what_the_scheme_grants() {
    let ring = sealed_ring_of(&["alice", "bob"]);
    let mut authority = authority_of(&["alice", "bob"]);
    authority.open(hex::encode(member_of("bob")), ring.members().unwrap()).unwrap();
    let (granted, _) = authority.take_commitment(&member_of("bob")).unwrap();
    let copy = granted.clone();
    assert_eq!(copy.as_bytes(), granted.as_bytes());
    let expected = BandersnatchVrfVerifiable::open(
        RingDomainSize::Domain11,
        &key_of("bob"),
        [key_of("alice"), key_of("bob")].into_iter(),
    )
    .unwrap();
    assert_eq!(granted.as_bytes(), &expected.encode());
    assert_ne!(granted.as_bytes(), &member_of("bob").to_vec());
}

#[test]
fn create_tells_its_failures_apart() {
    let mut authority = Verifiable::new();
    assert_eq!(
        authority.create("nothex".to_string(), "hello".to_string()),
        Err(Error::Decode)
    );
    // No commitment waits for an identity that the store does not know.
    assert_eq!(
        authority.create(hex::encode(member_of("alice")), "hello".to_string()),
        Err(Error::CommitNotFound)
    );
    assert_eq!(authority.create("00".repeat(33), "hello".to_string()), Err(Error::CommitNotFound));
    assert_eq!(authority.take_commitment(&member_of("alice")).err(), Some(Error::CommitNotFound));
    assert!(authority.known_members().is_empty());
    // Nor for one that it knows and that has not committed.
    let alice = authority.keygen("alice").unwrap();
    assert_eq!(authority.create(alice, "hello".to_string()), Err(Error::CommitNotFound));
}

#[test]
fn store_and_take_commitment_pair_up() {
    let first = granted_to("alice");
    let second = granted_to("bob");
    let kept = second.as_bytes().clone();
    assert_ne!(first.as_bytes(), second.as_bytes());
    let mut authority = Verifiable::new();
    assert_eq!(
        authority.store_commitment(&[2u8; 33], Some(first.clone())),
        Err(Error::MemberNotFound)
    );
    authority.register([5u8; 32], [2u8; 33]);
    assert_eq!(authority.store_commitment(&[2u8; 33], None), Err(Error::Commitment));
    assert_eq!(authority.take_commitment(&[2u8; 33]).err(), Some(Error::CommitNotFound));
    authority.store_commitment(&[2u8; 33], Some(first)).unwrap();
    authority.store_commitment(&[2u8; 33], Some(second)).unwrap();
    assert_eq!(authority.store_commitment(&[2u8; 33], None), Err(Error::Commitment));
    let (commitment, seed) = authority.take_commitment(&[2u8; 33]).unwrap();
    assert_eq!(commitment.as_bytes(), &kept);
    assert_eq!(seed, [5u8; 32]);
    assert_eq!(authority.take_commitment(&[2u8; 33]).err(), Some(Error::CommitNotFound));
}

#[test]
fn open_waits_for_the_ring_to_be_sealed() {
    let mut ledger = genesis(4, first_chunks(4)).unwrap();
    ledger.push_member(member_of("alice")).unwrap();
    let mut authority = Verifiable::new();
    let alice = authority.keygen("alice").unwrap();
    assert_eq!(authority.open_sealed(alice.clone(), &ledger), Err(Error::Commitment));
    assert_eq!(authority.create(alice.clone(), "hello".to_string()), Err(Error::CommitNotFound));
    ledger.finish_members().unwrap();
    assert_eq!(authority.open_sealed("zz".to_string(), &ledger), Err(Error::Decode));
    assert_eq!(authority.open_sealed(alice.clone(), &ledger), Ok(()));
    let (_, proof) = authority.create(alice, "hello".to_string()).unwrap();
    assert!(ledger.validate_proof(&Proof(from_hex(&proof)), "hello".to_string()).is_ok());
}

#[test]
fn known_identities_are_the_keys_once_each() {
    let mut authority = authority_of(&["alice", "bob", "alice", "carol", "bob"]);
    assert_eq!(
        authority.known_members(),
        vec![member_of("alice"), member_of("bob"), member_of("carol")]
    );
    authority.register([1u8; 32], member_of("bob"));
    assert_eq!(authority.known_members().len(), 3);
}

#[test]
fn render_puts_the_alias_first() {
    assert_eq!(
        Verifiable::render(Some((Proof(vec![0x00, 0xff, 0x1a]), [0xa5u8; 32]))),
        Ok(("a5".repeat(32), "00ff1a".to_string()))
    );
    assert_eq!(Verifiable::render(None), Err(Error::Proof));
}

#[test]
fn genesis_loads_the_chunks_that_the_scheme_ships() {
    let config = GenesisConfig::for_domain(DomainSize::Domain11);
    let shipped = ring_verifier_builder_params::<BandersnatchSha512Ell2>(RingDomainSize::Domain11);
    assert_eq!(config.domain_size, 512);
    assert_eq!(config.srs_chunks.len(), 512);
    for (chunk, point) in config.srs_chunks.iter().zip(shipped.0.iter()) {
        assert_eq!(chunk.0, StaticChunk::<BandersnatchSha512Ell2>(*point).encode());
        assert_eq!(chunk.0.len(), 96);
    }
    let pallet = config.build().unwrap();
    assert_eq!(pallet.srs().domain_size(), 512);
    assert_eq!(pallet.intermediate().unwrap().count(), 0);
    assert_eq!(GenesisConfig::for_domain(DomainSize::Domain12).srs_chunks.len(), 1024);
    assert_eq!(GenesisConfig::for_domain(DomainSize::Domain16).srs_chunks.len(), 16384);
}

#[test]
fn genesis_refuses_more_chunks_than_the_domain() {
    assert_eq!(genesis(3, first_chunks(4)).err(), Some(SrsError::CapacityExceeded));
    let pallet = genesis(4, first_chunks(4)).unwrap();
    assert_eq!(pallet.intermediate().unwrap().count(), 0);
    assert!(pallet.members().is_none());
}

#[test]
fn ring_takes_members_up_to_its_capacity() {
    let store = SrsStore::new(2, first_chunks(2)).unwrap();
    let mut ring = RingBuildState::start(DomainSize::Domain11, &store);
    assert_eq!(ring.count(), 0);
    assert_eq!(ring.push_member(member_of("a"), &store), Ok(()));
    assert_eq!(ring.push_member(member_of("b"), &store), Ok(()));
    assert_eq!(ring.count(), 2);
    assert_eq!(ring.push_member(member_of("c"), &store), Err(PushFailure::AtCapacity));
    assert_eq!(ring.count(), 2);
    let sealed = ring.finish().ok().unwrap();
    assert_eq!(sealed.member_list(), &vec![member_of("a"), member_of("b")]);
    assert_eq!(sealed.domain_size(), DomainSize::Domain11);
}

#[test]
fn ring_is_the_ring_that_the_scheme_builds() {
    let store = SrsStore::new(4, first_chunks(4)).unwrap();
    let mut ring = RingBuildState::start(DomainSize::Domain11, &store);
    ring.push_member(member_of("a"), &store).unwrap();
    ring.push_member(member_of("b"), &store).unwrap();
    let sealed = ring.finish().ok().unwrap();

    let shipped = ring_verifier_builder_params::<BandersnatchSha512Ell2>(RingDomainSize::Domain11);
    let mut expected = BandersnatchVrfVerifiable::start_members(RingDomainSize::Domain11);
    let empty = expected.encode();
    BandersnatchVrfVerifiable::push_members(
        &mut expected,
        [key_of("a"), key_of("b")].into_iter(),
        |range| Ok(shipped.0[range].iter().map(|p| StaticChunk(*p)).collect()),
    )
    .unwrap();
    let open = expected.encode();
    let expected = BandersnatchVrfVerifiable::finish_members(expected);
    assert_eq!(sealed.commitment_bytes(), &expected.encode());
    assert_ne!(sealed.commitment_bytes(), &open);
    assert_ne!(open, empty);
}

#[test]
fn ring_reads_the_chunk_at_the_index_of_the_member() {
    // The same members over the chunks in another order make another ring.
    let mut swapped = first_chunks(2);
    swapped.swap(0, 1);
    let straight = SrsStore::new(2, first_chunks(2)).unwrap();
    let swapped = SrsStore::new(2, swapped).unwrap();
    let mut one = RingBuildState::start(DomainSize::Domain11, &straight);
    let mut other = RingBuildState::start(DomainSize::Domain11, &swapped);
    for phrase in ["a", "b"] {
        one.push_member(member_of(phrase), &straight).unwrap();
        other.push_member(member_of(phrase), &swapped).unwrap();
    }
    let one = one.finish().ok().unwrap();
    let other = other.finish().ok().unwrap();
    assert_ne!(one.commitment_bytes(), other.commitment_bytes());
}

#[test]
fn refused_member_leaves_the_ring_unchanged() {
    let store = SrsStore::new(4, first_chunks(4)).unwrap();
    let mut ring = RingBuildState::start(DomainSize::Domain11, &store);
    ring.push_member(member_of("a"), &store).unwrap();
    assert_eq!(ring.push_member(NO_KEY, &store), Err(PushFailure::Rejected));
    assert_eq!(ring.absorb(member_of("z"), None), Err(PushFailure::Rejected));
    assert_eq!(ring.count(), 1);
    ring.push_member(member_of("b"), &store).unwrap();
    let sealed = ring.finish().ok().unwrap();
    assert_eq!(sealed.member_list(), &vec![member_of("a"), member_of("b")]);

    let mut expected = RingBuildState::start(DomainSize::Domain11, &store);
    expected.push_member(member_of("a"), &store).unwrap();
    expected.push_member(member_of("b"), &store).unwrap();
    let expected = expected.finish().ok().unwrap();
    assert_eq!(sealed.commitment_bytes(), expected.commitment_bytes());
}

#[test]
fn ring_without_a_chunk_for_the_next_index_takes_no_member() {
    let store = SrsStore::new(4, first_chunks(1)).unwrap();
    let mut ring = RingBuildState::start(DomainSize::Domain11, &store);
    assert_eq!(ring.push_member(member_of("a"), &store), Ok(()));
    assert_eq!(ring.push_member(member_of("b"), &store), Err(PushFailure::Rejected));
    assert_eq!(ring.count(), 1);
}

#[test]
fn absorb_takes_the_answer_it_is_given() {
    let store = SrsStore::new(1, first_chunks(1)).unwrap();
    let mut ring = RingBuildState::start(DomainSize::Domain11, &store);
    assert_eq!(ring.absorb([1u8; 33], Some(vec![7, 7])), Ok(()));
    assert_eq!(ring.count(), 1);
    assert_eq!(ring.absorb([2u8; 33], Some(vec![8])), Err(PushFailure::AtCapacity));
    assert_eq!(ring.count(), 1);
    // What was taken in is no ring that the scheme can read.
    assert!(ring.finish().is_err());
}

#[test]
fn ledger_follows_the_life_of_a_ring() {
    let store = SrsStore::new(4, first_chunks(4)).unwrap();
    let mut pallet = Pallet::new(DomainSize::Domain11, store);
    assert_eq!(pallet.push_member(member_of("a")), Err(RingError::RingNotInitialized));
    assert_eq!(pallet.finish_members(), Err(RingError::RingNotInitialized));
    assert_eq!(
        pallet.validate_proof(&Proof(vec![]), "hello".to_string()),
        Err(RingError::RingNotFinalized)
    );
    pallet.make_empty_ring();
    assert_eq!(pallet.push_member(member_of("a")), Ok(()));
    assert_eq!(pallet.push_member(NO_KEY), Err(RingError::PushMemberFailure));
    assert_eq!(
        pallet.validate_proof(&Proof(vec![]), "hello".to_string()),
        Err(RingError::RingNotFinalized)
    );
    assert_eq!(pallet.finish_members(), Ok(()));
    assert_eq!(pallet.members().unwrap().member_list(), &vec![member_of("a")]);
    assert_eq!(pallet.push_member(member_of("b")), Err(RingError::RingFinalized));
    assert_eq!(pallet.finish_members(), Err(RingError::RingFinalized));
    assert_eq!(pallet.members().unwrap().member_list(), &vec![member_of("a")]);
    assert_eq!(
        pallet.validate_proof(&Proof(vec![]), "hello".to_string()),
        Err(RingError::ValidationFailure)
    );
    pallet.reset_members();
    assert!(pallet.members().is_none());
    assert_eq!(pallet.intermediate().unwrap().count(), 0);
    assert_eq!(pallet.push_member(member_of("b")), Ok(()));
}

#[test]
fn ledger_refuses_a_member_beyond_the_domain() {
    let mut pallet = genesis(4, first_chunks(4)).unwrap();
    for phrase in ["a", "b", "c", "d"] {
        assert_eq!(pallet.push_member(member_of(phrase)), Ok(()));
    }
    assert_eq!(pallet.push_member(member_of("e")), Err(RingError::PushMemberFailure));
    assert_eq!(pallet.intermediate().unwrap().count(), 4);
}

#[test]
fn every_pushed_member_proves_and_validates() {
    let phrases = ["a", "b", "c", "d"];
    let ring = sealed_ring_of(&phrases);
    let mut authority = authority_of(&phrases);
    for phrase in phrases {
        let identity = hex::encode(member_of(phrase));
        authority.open(identity.clone(), ring.members().unwrap()).unwrap();
        let (alias, proof) = authority.create(identity, "vote".to_string()).unwrap();
        let validated = ring.validate_proof(&Proof(from_hex(&proof)), "vote".to_string()).unwrap();
        assert_eq!(hex::encode(validated), alias);
    }
}

#[test]
fn three_members_one_proof() {
    let ring = sealed_ring_of(&["alice", "bob", "carol"]);
    let set = ring.members().unwrap();
    assert_eq!(ring.srs().domain_size(), 4);
    assert_eq!(set.member_list().len(), 3);
    let mut authority = authority_of(&["alice", "bob", "carol"]);
    let alice = hex::encode(member_of("alice"));
    assert_eq!(authority.open(alice.clone(), set), Ok(()));
    let (alias, proof) = authority.create(alice, "hello".to_string()).unwrap();
    let proof = Proof(from_hex(&proof));
    let expected = alias_of("alice", b"VERIFIABLE");
    assert_eq!(alias, hex::encode(expected));
    assert_eq!(ring.validate_proof(&proof, "hello".to_string()), Ok(expected));
    assert_eq!(validate(&proof, set, &context(), &b"hello".to_vec()), Ok(expected));
    assert_eq!(
        ring.validate_proof(&proof, "world".to_string()),
        Err(RingError::ValidationFailure)
    );
}

#[test]
fn proof_is_bound_to_its_ring_and_context() {
    let ring = sealed_ring_of(&["alice", "bob"]);
    let without_alice = sealed_ring_of(&["bob", "carol"]);
    let mut authority = authority_of(&["alice", "bob"]);
    let alice = hex::encode(member_of("alice"));
    authority.open(alice.clone(), ring.members().unwrap()).unwrap();
    let (_, proof) = authority.create(alice, "hello".to_string()).unwrap();
    let proof = Proof(from_hex(&proof));
    assert!(ring.validate_proof(&proof, "hello".to_string()).is_ok());
    assert_eq!(
        without_alice.validate_proof(&proof, "hello".to_string()),
        Err(RingError::ValidationFailure)
    );
    assert_eq!(
        validate(&proof, ring.members().unwrap(), &b"OTHER".to_vec(), &b"hello".to_vec()),
        Err(VerificationFailure)
    );
    let mut tampered = proof.clone();
    tampered.0[40] ^= 1;
    assert_eq!(
        ring.validate_proof(&tampered, "hello".to_string()),
        Err(RingError::ValidationFailure)
    );
    let oversized = Proof(vec![0u8; 100_000]);
    assert_eq!(
        ring.validate_proof(&oversized, "hello".to_string()),
        Err(RingError::ValidationFailure)
    );
}

#[test]
fn alias_is_the_alias_of_the_member_in_the_context() {
    let ring = sealed_ring_of(&["alice", "bob"]);
    let set = ring.members().unwrap();
    let mut authority = authority_of(&["alice", "bob"]);
    let alice = hex::encode(member_of("alice"));
    let bob = hex::encode(member_of("bob"));
    authority.open(alice.clone(), set).unwrap();
    let (first, first_proof) = authority.create(alice.clone(), "hello".to_string()).unwrap();
    authority.open(alice.clone(), set).unwrap();
    let (second, second_proof) = authority.create(alice, "hello".to_string()).unwrap();
    authority.open(bob.clone(), set).unwrap();
    let (other, _) = authority.create(bob, "hello".to_string()).unwrap();
    assert_eq!(first, second);
    assert_eq!(first, hex::encode(alias_of("alice", b"VERIFIABLE")));
    assert_ne!(first, hex::encode(alias_of("alice", b"OTHER")));
    assert_ne!(first, other);
    // The proofs differ though: each is blinded afresh.
    assert_ne!(first_proof, second_proof);
}
