//! The credential authority: it keeps the keys, commits a member to a sealed
//! ring, and spends each commitment on one proof.
//!
//! Every operation takes the whole key store for itself while it runs, so no
//! two of them ever overlap. What the scheme computes is the scheme's; what
//! the store does with each answer is stated here.

use crate::hashing::{blake2_256, blake2_256_digest};
use crate::hexcode::{hex_bytes, hex_decode, hex_encode, hex_lower, is_hex, lemma_hex_round_trip};
use crate::pallet::{Pallet, Ring};
use crate::ring::{context, domain_context, MemberSet};
use crate::scheme::{
    alias_of, create as prove, identity_of, identity_of_key, is_member, is_member_valid, key_of,
    member_from_seed, open as commit, opening_of, proves, public_key, scheme_key, scheme_keys,
    Alias, Commitment, Proof, RawMember, Seed,
};
use vstd::prelude::*;
use vstd::string::*;

verus! {

/// Why a request was refused.
#[derive(Clone, Copy, Debug, PartialEq, Eq, Structural)]
pub enum Error {
    /// An identity is not 33 bytes of hexadecimal text, or is no group element.
    Decode,
    /// A public key could not be written in its canonical encoding. Every
    /// key that the scheme derives can be, so no request ends this way.
    Encode,
    /// No key is kept under the identity.
    MemberNotFound,
    /// The identity has no commitment waiting to be spent.
    CommitNotFound,
    /// The scheme refused to commit the member to the ring.
    Commitment,
    /// The scheme refused to make the proof.
    Proof,
}

impl Error {
    /// The number under which the error travels.
    pub open spec fn code_spec(self) -> i32 {
        match self {
            Error::Decode => 0,
            Error::Encode => 1,
            Error::MemberNotFound => 2,
            Error::CommitNotFound => 3,
            Error::Commitment => 4,
            Error::Proof => 5,
        }
    }

    /// The number under which the error travels.
    #[verifier::when_used_as_spec(code_spec)]
    pub fn code(self) -> (code: i32)
        ensures
            code == self.code_spec(),
    {
        match self {
            Error::Decode => 0,
            Error::Encode => 1,
            Error::MemberNotFound => 2,
            Error::CommitNotFound => 3,
            Error::Commitment => 4,
            Error::Proof => 5,
        }
    }

    /// The words with which the error travels.
    pub open spec fn message_spec(self) -> Seq<char> {
        match self {
            Error::Decode => "Decoding input member"@,
            Error::Encode => "Encoding member"@,
            Error::MemberNotFound => "Member no found"@,
            Error::CommitNotFound => "Member commitment no found"@,
            Error::Commitment => "Generating commitment"@,
            Error::Proof => "Generating proof"@,
        }
    }

    /// The words with which the error travels.
    pub fn message(self) -> (words: &'static str)
        ensures
            words@ == self.message_spec(),
    {
        match self {
            Error::Decode => "Decoding input member",
            Error::Encode => "Encoding member",
            Error::MemberNotFound => "Member no found",
            Error::CommitNotFound => "Member commitment no found",
            Error::Commitment => "Generating commitment",
            Error::Proof => "Generating proof",
        }
    }
}

/// What is kept for one identity: the seed, and the commitment that waits to
/// be spent, if there is one.
pub ghost struct KeyRecord {
    pub seed: Seed,
    pub commitment: Option<Seq<u8>>,
}

/// One request to the authority, with the scheme's answer where it asks for one.
pub ghost enum Call {
    /// A key was generated for `member` from `seed`.
    Keygen { member: RawMember, seed: Seed },
    /// The scheme was asked to commit `member`, and answered `opened`.
    Open { member: RawMember, opened: Option<Seq<u8>> },
    /// A proof was asked for in the name of `member`.
    Create { member: RawMember },
}

impl Call {
    /// The identity that the request is about.
    pub open spec fn member(self) -> RawMember {
        match self {
            Call::Keygen { member, .. } => member,
            Call::Open { member, .. } => member,
            Call::Create { member } => member,
        }
    }
}

/// The key store after one request.
///
/// A new key starts without a commitment and replaces any earlier entry. A
/// commitment that the scheme granted replaces the one that waited. A request
/// for a proof leaves no commitment behind, whatever comes of the proof.
pub open spec fn step(store: Map<RawMember, KeyRecord>, call: Call) -> Map<RawMember, KeyRecord> {
    match call {
        Call::Keygen { member, seed } => store.insert(member, KeyRecord { seed, commitment: None }),
        Call::Open { member, opened } => if store.contains_key(member) && opened is Some {
            store.insert(member, KeyRecord { seed: store[member].seed, commitment: opened })
        } else {
            store
        },
        Call::Create { member } => if store.contains_key(member) {
            store.insert(member, KeyRecord { seed: store[member].seed, commitment: None })
        } else {
            store
        },
    }
}

/// The key store after a history of requests, the first of them made on an
/// empty store.
pub open spec fn run(calls: Seq<Call>) -> Map<RawMember, KeyRecord>
    decreases calls.len(),
{
    if calls.len() == 0 {
        Map::empty()
    } else {
        step(run(calls.drop_last()), calls.last())
    }
}

/// What a request for a proof in the name of `member` finds: the commitment
/// to spend and the seed, or that no commitment waits. None waits for a
/// member that the store does not know.
pub open spec fn pending(store: Map<RawMember, KeyRecord>, member: RawMember) -> Result<
    (Seq<u8>, Seed),
    Error,
> {
    if !store.contains_key(member) {
        Err(Error::CommitNotFound)
    } else {
        match store[member].commitment {
            Some(commitment) => Ok((commitment, store[member].seed)),
            None => Err(Error::CommitNotFound),
        }
    }
}

/// A commitment was granted to `member` in this history, and the member has
/// neither asked for a proof nor had its key generated anew since.
pub open spec fn awaits(calls: Seq<Call>, member: RawMember) -> bool
    decreases calls.len(),
{
    if calls.len() == 0 {
        false
    } else if calls.last().member() != member {
        awaits(calls.drop_last(), member)
    } else {
        match calls.last() {
            Call::Open { opened, .. } => if opened is Some && run(calls.drop_last()).contains_key(
                member,
            ) {
                true
            } else {
                awaits(calls.drop_last(), member)
            },
            _ => false,
        }
    }
}

/// After any history, a request for a proof finds a commitment to spend
/// exactly if one was granted to the member and not spent or discarded since.
/// Without that, the member is told that no commitment waits, whether the
/// store knows the member or not.
pub proof fn lemma_create_needs_open(calls: Seq<Call>, member: RawMember)
    ensures
        pending(run(calls), member) is Ok <==> awaits(calls, member),
        !awaits(calls, member) ==> pending(run(calls), member) == Err::<(Seq<u8>, Seed), Error>(
            Error::CommitNotFound,
        ),
    decreases calls.len(),
{
    if calls.len() > 0 {
        lemma_create_needs_open(calls.drop_last(), member);
    }
}

/// A granted commitment is spent by the first request for a proof that
/// follows it, and the second finds none: one grant, one proof.
pub proof fn lemma_commitment_is_spent_once(
    calls: Seq<Call>,
    member: RawMember,
    commitment: Seq<u8>,
)
    requires
        run(calls).contains_key(member),
    ensures
        ({
            let granted = calls.push(Call::Open { member, opened: Some(commitment) });
            let spent = granted.push(Call::Create { member });
            &&& pending(run(granted), member) == Ok::<(Seq<u8>, Seed), Error>(
                (commitment, run(calls)[member].seed),
            )
            &&& pending(run(spent), member) == Err::<(Seq<u8>, Seed), Error>(Error::CommitNotFound)
        }),
{
    let granted = calls.push(Call::Open { member, opened: Some(commitment) });
    let spent = granted.push(Call::Create { member });
    assert(granted.drop_last() =~= calls);
    assert(spent.drop_last() =~= granted);
}

/// The identity that `keygen` spells is read back by `to_raw_member` as the
/// identity it was spelled from.
pub proof fn lemma_identity_round_trip(member: RawMember)
    ensures
        names(hex_lower(member@), member),
{
    lemma_hex_round_trip(member@);
}

/// The text is the hexadecimal spelling of 33 bytes.
pub open spec fn is_identity(text: Seq<char>) -> bool {
    is_hex(text) && text.len() == 66
}

/// The text spells the identity `raw`.
pub open spec fn names(text: Seq<char>, raw: RawMember) -> bool {
    is_identity(text) && raw@ == hex_bytes(text)
}

/// What the authority answers when the scheme has answered `proved`: the
/// alias and the proof as text, in this order, or that there is no proof.
pub open spec fn rendered(
    proved: Option<(Proof, Alias)>,
    outcome: Result<(String, String), Error>,
) -> bool {
    match proved {
        Some((proof, alias)) => {
            &&& outcome matches Ok((alias_text, proof_text))
            &&& alias_text@ == hex_lower(alias@)
            &&& proof_text@ == hex_lower(proof@)
        },
        None => outcome matches Err(e) && e == Error::Proof,
    }
}

/// The answer to a request for a proof is the one that the scheme gives for
/// the commitment, the member with the given seed and the message. Where the
/// scheme makes a proof out of the commitment, it is the spelling of a proof
/// after the spelling of the alias under which the member proves in this
/// protocol's context for this message; where it makes none, the answer says
/// so.
pub open spec fn created_for(
    commitment: Seq<u8>,
    seed: Seed,
    message: Seq<u8>,
    outcome: Result<(String, String), Error>,
) -> bool {
    match outcome {
        Ok((alias_text, proof_text)) => {
            &&& proves(commitment)
            &&& alias_text@ == hex_lower(alias_of(seed@, domain_context(), message))
            &&& exists|proof: Seq<u8>| proof_text@ == #[trigger] hex_lower(proof)
        },
        Err(e) => e == Error::Proof && !proves(commitment),
    }
}

/// Two proofs of one member for one message carry one alias, however often
/// the member has committed anew in between.
pub proof fn lemma_alias_is_stable(
    seed: Seed,
    message: Seq<u8>,
    spent_first: Seq<u8>,
    spent_second: Seq<u8>,
    first: Result<(String, String), Error>,
    second: Result<(String, String), Error>,
)
    requires
        created_for(spent_first, seed, message, first),
        created_for(spent_second, seed, message, second),
        first is Ok,
        second is Ok,
    ensures
        first->Ok_0.0@ == second->Ok_0.0@,
{
}

struct MemberData {
    member: RawMember,
    seed: Seed,
    commitment: Option<Commitment>,
}

spec fn record_of(data: MemberData) -> KeyRecord {
    KeyRecord {
        seed: data.seed,
        commitment: match data.commitment {
            Some(commitment) => Some(commitment@),
            None => None,
        },
    }
}

spec fn kept_at(records: Seq<MemberData>, member: RawMember, i: int) -> bool {
    0 <= i < records.len() && records[i].member == member
}

spec fn distinct(records: Seq<MemberData>) -> bool {
    forall|i: int, j: int|
        0 <= i < j < records.len() ==> (#[trigger] records[i]).member != (#[trigger] records[j]).member
}

spec fn records_view(records: Seq<MemberData>) -> Map<RawMember, KeyRecord> {
    Map::new(
        |member: RawMember| exists|i: int| kept_at(records, member, i),
        |member: RawMember| record_of(records[choose|i: int| kept_at(records, member, i)]),
    )
}

spec fn members_of(records: Seq<MemberData>) -> Seq<RawMember> {
    records.map_values(|data: MemberData| data.member)
}

proof fn lemma_record_at(records: Seq<MemberData>, i: int)
    requires
        distinct(records),
        0 <= i < records.len(),
    ensures
        records_view(records).contains_key(records[i].member),
        records_view(records)[records[i].member] == record_of(records[i]),
{
    let member = records[i].member;
    assert(kept_at(records, member, i));
    let j = choose|j: int| kept_at(records, member, j);
    assert(j == i);
}

proof fn lemma_replaced(records: Seq<MemberData>, i: int, data: MemberData)
    requires
        distinct(records),
        0 <= i < records.len(),
        data.member == records[i].member,
    ensures
        distinct(records.update(i, data)),
        members_of(records.update(i, data)) == members_of(records),
        records_view(records.update(i, data)) == records_view(records).insert(
            data.member,
            record_of(data),
        ),
{
    let after = records.update(i, data);
    assert(distinct(after)) by {
        assert forall|a: int, b: int| 0 <= a < b < after.len() implies (#[trigger] after[a]).member
            != (#[trigger] after[b]).member by {
            assert(records[a].member != records[b].member);
        }
    }
    assert(members_of(after) =~= members_of(records));
    assert forall|member: RawMember|
        records_view(after).contains_key(member) <==> #[trigger] records_view(records).insert(
            data.member,
            record_of(data),
        ).contains_key(member) by {
        if records_view(after).contains_key(member) {
            let k = choose|k: int| kept_at(after, member, k);
            assert(kept_at(records, member, k));
        }
        if records_view(records).contains_key(member) {
            let k = choose|k: int| kept_at(records, member, k);
            assert(kept_at(after, member, k));
        }
        if member == data.member {
            assert(kept_at(after, member, i));
        }
    }
    assert forall|member: RawMember| #[trigger]
        records_view(after).contains_key(member) implies records_view(after)[member]
        == records_view(records).insert(data.member, record_of(data))[member] by {
        let k = choose|k: int| kept_at(after, member, k);
        lemma_record_at(after, k);
        if member != data.member {
            assert(k != i);
            lemma_record_at(records, k);
        } else {
            assert(kept_at(after, member, i));
            assert(k == i);
        }
    }
    assert(records_view(after) =~= records_view(records).insert(data.member, record_of(data)));
}

proof fn lemma_appended(records: Seq<MemberData>, data: MemberData)
    requires
        distinct(records),
        !records_view(records).contains_key(data.member),
    ensures
        distinct(records.push(data)),
        members_of(records.push(data)) == members_of(records).push(data.member),
        records_view(records.push(data)) == records_view(records).insert(
            data.member,
            record_of(data),
        ),
{
    let after = records.push(data);
    assert(distinct(after)) by {
        assert forall|a: int, b: int| 0 <= a < b < after.len() implies (#[trigger] after[a]).member
            != (#[trigger] after[b]).member by {
            if b == records.len() {
                if after[a].member == data.member {
                    assert(kept_at(records, data.member, a));
                }
            } else {
                assert(records[a].member != records[b].member);
            }
        }
    }
    assert(members_of(after) =~= members_of(records).push(data.member));
    assert forall|member: RawMember|
        records_view(after).contains_key(member) <==> #[trigger] records_view(records).insert(
            data.member,
            record_of(data),
        ).contains_key(member) by {
        if records_view(after).contains_key(member) {
            let k = choose|k: int| kept_at(after, member, k);
            if k < records.len() {
                assert(kept_at(records, member, k));
            }
        }
        if records_view(records).contains_key(member) {
            let k = choose|k: int| kept_at(records, member, k);
            assert(kept_at(after, member, k));
        }
        if member == data.member {
            assert(kept_at(after, member, records.len() as int));
        }
    }
    assert forall|member: RawMember| #[trigger]
        records_view(after).contains_key(member) implies records_view(after)[member]
        == records_view(records).insert(data.member, record_of(data))[member] by {
        let k = choose|k: int| kept_at(after, member, k);
        lemma_record_at(after, k);
        if member != data.member {
            assert(k < records.len());
            lemma_record_at(records, k);
        } else {
            assert(kept_at(after, member, records.len() as int));
            assert(k == records.len());
        }
    }
    assert(records_view(after) =~= records_view(records).insert(data.member, record_of(data)));
}

fn same_member(a: &RawMember, b: &RawMember) -> (same: bool)
    ensures
        same == (*a == *b),
{
    let mut i: usize = 0;
    while i < 33
        invariant
            i <= 33,
            forall|k: int| 0 <= k < i ==> a@[k] == b@[k],
        decreases 33 - i,
    {
        if a[i] != b[i] {
            return false;
        }
        i += 1;
    }
    assert(*a =~= *b);
    true
}

/// Reads an identity from its hexadecimal spelling. Anything but 33 bytes of
/// hexadecimal text is refused.
pub fn to_raw_member(member: String) -> (read: Result<RawMember, Error>)
    ensures
        read is Ok <==> is_identity(member@),
        read matches Ok(raw) ==> names(member@, raw),
        read matches Err(e) ==> e == Error::Decode,
{
    let bytes = match hex_decode(member.as_str()) {
        Ok(bytes) => bytes,
        Err(_) => {
            return Err(Error::Decode);
        },
    };
    if bytes.len() != 33 {
        return Err(Error::Decode);
    }
    let mut raw_member: RawMember = [0u8; 33];
    let mut i: usize = 0;
    while i < 33
        invariant
            i <= 33,
            bytes@.len() == 33,
            forall|k: int| 0 <= k < i ==> raw_member@[k] == bytes@[k],
        decreases 33 - i,
    {
        raw_member[i] = bytes[i];
        i += 1;
    }
    assert(raw_member@ =~= bytes@);
    Ok(raw_member)
}

/// The secret that a seed phrase stands for: the digest of its bytes.
pub fn derive_seed(phrase: &str) -> (seed: Seed)
    ensures
        seed@ == blake2_256_digest(vstd::utf8::encode_utf8(phrase@)),
{
    blake2_256(phrase.as_bytes())
}

/// The key store of the credential authority.
pub struct Verifiable {
    keymap: Vec<MemberData>,
}

impl View for Verifiable {
    type V = Map<RawMember, KeyRecord>;

    closed spec fn view(&self) -> Map<RawMember, KeyRecord> {
        records_view(self.keymap@)
    }
}

impl Verifiable {
    /// Every known identity, in the order in which each was first seen.
    pub closed spec fn known(&self) -> Seq<RawMember> {
        members_of(self.keymap@)
    }

    /// No identity is kept twice.
    #[verifier::type_invariant]
    pub closed spec fn wf(&self) -> bool {
        distinct(self.keymap@)
    }

    /// What becomes of the store when the key of `member` has been derived
    /// from `seed`: the member is known, under this seed, and no commitment
    /// waits for it.
    pub open spec fn registered(&self, seed: Seed, member: RawMember, after: &Verifiable) -> bool {
        &&& after@ == step(self@, Call::Keygen { member, seed })
        &&& after.known() == if self@.contains_key(member) {
            self.known()
        } else {
            self.known().push(member)
        }
    }

    /// What a member is told when the scheme has answered `opened` to the
    /// request to commit it.
    pub open spec fn commit_outcome(&self, member: RawMember, opened: Option<Seq<u8>>) -> Result<
        (),
        Error,
    > {
        if !self@.contains_key(member) {
            Err(Error::MemberNotFound)
        } else if opened is Some {
            Ok(())
        } else {
            Err(Error::Commitment)
        }
    }

    /// What becomes of the store when the scheme has answered `opened` to the
    /// request to commit `member`.
    pub open spec fn committed(
        &self,
        member: RawMember,
        opened: Option<Seq<u8>>,
        after: &Verifiable,
    ) -> bool {
        &&& after.known() == self.known()
        &&& after@ == step(self@, Call::Open { member, opened })
    }

    /// What becomes of the store when the commitment of `member` is taken
    /// out to be spent.
    pub open spec fn taken(
        &self,
        member: RawMember,
        after: &Verifiable,
        outcome: Result<(Commitment, Seed), Error>,
    ) -> bool {
        &&& after.known() == self.known()
        &&& after@ == step(self@, Call::Create { member })
        &&& match pending(self@, member) {
            Ok((commitment, seed)) => {
                &&& outcome matches Ok((spent, kept_seed))
                &&& spent@ == commitment
                &&& kept_seed == seed
            },
            Err(reason) => outcome matches Err(e) && e == reason,
        }
    }

    /// What becomes of the store, and what the member is told, when a
    /// commitment to `set` is asked for under the identity `raw`. The ring
    /// that the scheme commits the member to is the ring of every identity
    /// that the store knows, in the order in which it came to know them.
    pub open spec fn opened(
        &self,
        raw: RawMember,
        set: &MemberSet,
        after: &Verifiable,
        outcome: Result<(), Error>,
    ) -> bool {
        if !is_member(raw@) {
            &&& outcome == Err::<(), Error>(Error::Decode)
            &&& after@ == self@
        } else {
            let answer = opening_of(set.domain(), raw@, self.known());
            &&& outcome == self.commit_outcome(raw, answer)
            &&& after@ == step(self@, Call::Open { member: raw, opened: answer })
        }
    }

    /// What becomes of the store, and what the member is told, when a proof
    /// for `message` is asked for under the identity `raw`.
    pub open spec fn spent(
        &self,
        raw: RawMember,
        message: Seq<u8>,
        after: &Verifiable,
        outcome: Result<(String, String), Error>,
    ) -> bool {
        &&& after@ == step(self@, Call::Create { member: raw })
        &&& match pending(self@, raw) {
            Err(reason) => outcome matches Err(e) && e == reason,
            Ok((commitment, seed)) => created_for(commitment, seed, message, outcome),
        }
    }

    /// The identities that the store knows are the keys of the store, each
    /// of them once.
    pub proof fn lemma_known_are_the_keys(&self)
        requires
            self.wf(),
        ensures
            self.known().no_duplicates(),
            forall|member: RawMember| self@.contains_key(member) <==> self.known().contains(member),
    {
        let records = self.keymap@;
        let known = members_of(records);
        assert forall|i: int, j: int| 0 <= i < known.len() && 0 <= j < known.len() && i != j implies known[i]
            != known[j] by {
            if i < j {
                assert(records[i].member != records[j].member);
            } else {
                assert(records[j].member != records[i].member);
            }
        }
        assert forall|member: RawMember| self@.contains_key(member) <==> known.contains(
            member,
        ) by {
            if self@.contains_key(member) {
                let i = choose|i: int| kept_at(records, member, i);
                assert(known[i] == member);
            }
            if known.contains(member) {
                let i = choose|i: int| 0 <= i < known.len() && known[i] == member;
                assert(kept_at(records, member, i));
            }
        }
    }

    /// An authority that knows no key.
    pub fn new() -> (store: Self)
        ensures
            store@ == Map::<RawMember, KeyRecord>::empty(),
            store.known() == Seq::<RawMember>::empty(),
    {
        let store = Verifiable { keymap: Vec::new() };
        assert(store@ =~= Map::<RawMember, KeyRecord>::empty());
        assert(store.known() =~= Seq::<RawMember>::empty());
        store
    }

    fn find(&self, member: &RawMember) -> (found: Option<usize>)
        ensures
            match found {
                Some(i) => kept_at(self.keymap@, *member, i as int),
                None => !self@.contains_key(*member),
            },
    {
        let mut i: usize = 0;
        while i < self.keymap.len()
            invariant
                i <= self.keymap@.len(),
                forall|k: int| 0 <= k < i ==> !kept_at(self.keymap@, *member, k),
            decreases self.keymap@.len() - i,
        {
            if same_member(&self.keymap[i].member, member) {
                return Some(i);
            }
            i += 1;
        }
        None
    }

    /// Every known identity, in the order in which each was first seen.
    pub fn known_members(&self) -> (all: Vec<RawMember>)
        ensures
            all@ == self.known(),
            all@.no_duplicates(),
            forall|member: RawMember| self@.contains_key(member) <==> all@.contains(member),
    {
        proof {
            use_type_invariant(self);
            self.lemma_known_are_the_keys();
        }
        let mut all: Vec<RawMember> = Vec::new();
        let mut i: usize = 0;
        while i < self.keymap.len()
            invariant
                i <= self.keymap@.len(),
                all@ == members_of(self.keymap@).take(i as int),
            decreases self.keymap@.len() - i,
        {
            all.push(self.keymap[i].member);
            i += 1;
            assert(all@ =~= members_of(self.keymap@).take(i as int));
        }
        assert(all@ =~= members_of(self.keymap@));
        all
    }

    /// Keeps the key that was derived from `seed` under the identity `member`,
    /// and spells that identity. An entry already kept under the identity is
    /// replaced, and its commitment with it.
    pub fn register(&mut self, seed: Seed, member: RawMember) -> (identity: String)
        ensures
            old(self).registered(seed, member, final(self)),
            identity@ == hex_lower(member@),
    {
        proof {
            use_type_invariant(&*self);
        }
        let data = MemberData { member, seed, commitment: None };
        let found = self.find(&member);
        let mut keymap: Vec<MemberData> = Vec::new();
        core::mem::swap(&mut self.keymap, &mut keymap);
        match found {
            Some(i) => {
                proof {
                    lemma_record_at(keymap@, i as int);
                    lemma_replaced(keymap@, i as int, data);
                }
                keymap.set(i, data);
            },
            None => {
                proof {
                    lemma_appended(keymap@, data);
                }
                keymap.push(data);
            },
        }
        self.keymap = keymap;
        hex_encode(member.as_slice())
    }

    /// Generates a key from a seed phrase and gives its public identity.
    ///
    /// The seed is the digest of the phrase. The scheme derives the public
    /// key from the seed, and the identity is that key in its canonical
    /// encoding of 33 bytes; it is read back as the same key. The same phrase
    /// gives the same identity, and generating it again starts its entry
    /// afresh. The request always succeeds.
    pub fn keygen(&mut self, phrase: &str) -> (outcome: Result<String, Error>)
        ensures
            exists|seed: Seed, member: RawMember|
                {
                    &&& seed@ == blake2_256_digest(vstd::utf8::encode_utf8(phrase@))
                    &&& identity_of(public_key(seed@)) == Some(member@)
                    &&& key_of(member@) == Some(public_key(seed@))
                    &&& is_member(member@)
                    &&& #[trigger] old(self).registered(seed, member, final(self))
                    &&& outcome matches Ok(identity)
                    &&& identity@ == hex_lower(member@)
                },
    {
        let seed = derive_seed(phrase);
        let key = member_from_seed(&seed);
        match identity_of_key(&key) {
            Some(member) => Ok(self.register(seed, member)),
            None => Err(Error::Encode),
        }
    }

    /// Keeps the commitment that the scheme granted to `member`, in place of
    /// any that waited. Without a grant, and for an unknown identity, nothing
    /// changes.
    pub fn store_commitment(&mut self, member: &RawMember, opened: Option<Commitment>) -> (outcome:
        Result<(), Error>)
        ensures
            old(self).committed(*member, commitment_view(opened), final(self)),
            outcome == old(self).commit_outcome(*member, commitment_view(opened)),
    {
        proof {
            use_type_invariant(&*self);
        }
        let i = match self.find(member) {
            Some(i) => i,
            None => {
                return Err(Error::MemberNotFound);
            },
        };
        let commitment = match opened {
            Some(commitment) => commitment,
            None => {
                return Err(Error::Commitment);
            },
        };
        let data = MemberData {
            member: self.keymap[i].member,
            seed: self.keymap[i].seed,
            commitment: Some(commitment),
        };
        proof {
            lemma_record_at(self.keymap@, i as int);
            lemma_replaced(self.keymap@, i as int, data);
        }
        let mut keymap: Vec<MemberData> = Vec::new();
        core::mem::swap(&mut self.keymap, &mut keymap);
        keymap.set(i, data);
        self.keymap = keymap;
        Ok(())
    }

    /// Commits a known member to a sealed ring.
    ///
    /// The identity has to be the encoding of a group element, and a key has
    /// to be kept under it. The scheme is handed the member's key and the keys
    /// of every identity the store knows, and is asked for a ring of the size
    /// of the sealed one; where a known identity has no key, there is no ring
    /// to ask about, and the request is refused as one that the scheme
    /// refuses. The commitment that the scheme grants waits in the member's
    /// entry until a proof is asked for.
    pub fn open(&mut self, member: String, members: &MemberSet) -> (outcome: Result<(), Error>)
        ensures
            final(self).known() == old(self).known(),
            if !is_identity(member@) {
                &&& outcome == Err::<(), Error>(Error::Decode)
                &&& final(self)@ == old(self)@
            } else {
                exists|raw: RawMember|
                    {
                        &&& #[trigger] names(member@, raw)
                        &&& old(self).opened(raw, members, final(self), outcome)
                    }
            },
    {
        let all = self.known_members();
        let raw = match to_raw_member(member) {
            Ok(raw) => raw,
            Err(_) => {
                return Err(Error::Decode);
            },
        };
        let key = match scheme_key(&raw) {
            Some(key) => key,
            None => {
                return Err(Error::Decode);
            },
        };
        if !is_member_valid(&key) {
            return Err(Error::Decode);
        }
        if self.find(&raw).is_none() {
            return Err(Error::MemberNotFound);
        }
        let opened = match scheme_keys(&all) {
            Some(ring) => commit(members.domain_size(), &key, &ring),
            None => None,
        };
        self.store_commitment(&raw, opened)
    }

    /// Commits a known member to the ring that a ledger has sealed. A ledger
    /// whose ring is not sealed has nothing to commit to: the request is
    /// refused as one that the scheme refuses, and nothing changes.
    pub fn open_sealed(&mut self, member: String, ledger: &Pallet) -> (outcome: Result<(), Error>)
        ensures
            final(self).known() == old(self).known(),
            match ledger.ring() {
                Ring::Finalized(set) => if !is_identity(member@) {
                    &&& outcome == Err::<(), Error>(Error::Decode)
                    &&& final(self)@ == old(self)@
                } else {
                    exists|raw: RawMember|
                        {
                            &&& #[trigger] names(member@, raw)
                            &&& old(self).opened(raw, &set, final(self), outcome)
                        }
                },
                _ => {
                    &&& outcome == Err::<(), Error>(Error::Commitment)
                    &&& final(self)@ == old(self)@
                },
            },
    {
        match ledger.members() {
            Some(set) => self.open(member, set),
            None => Err(Error::Commitment),
        }
    }

    /// Takes the commitment of `member` out of the store, with the seed it is
    /// spent with. Whoever takes it has it: nothing waits for the member
    /// afterwards.
    pub fn take_commitment(&mut self, member: &RawMember) -> (outcome: Result<
        (Commitment, Seed),
        Error,
    >)
        ensures
            old(self).taken(*member, final(self), outcome),
    {
        proof {
            use_type_invariant(&*self);
        }
        let i = match self.find(member) {
            Some(i) => i,
            None => {
                return Err(Error::CommitNotFound);
            },
        };
        proof {
            lemma_record_at(self.keymap@, i as int);
        }
        let seed = self.keymap[i].seed;
        let spent = match &self.keymap[i].commitment {
            Some(commitment) => Some(commitment.clone()),
            None => None,
        };
        let data = MemberData { member: self.keymap[i].member, seed, commitment: None };
        proof {
            lemma_replaced(self.keymap@, i as int, data);
        }
        let mut keymap: Vec<MemberData> = Vec::new();
        core::mem::swap(&mut self.keymap, &mut keymap);
        keymap.set(i, data);
        self.keymap = keymap;
        match spent {
            Some(commitment) => Ok((commitment, seed)),
            None => Err(Error::CommitNotFound),
        }
    }

    /// Spells a finished proof and its alias, the alias first.
    pub fn render(proved: Option<(Proof, Alias)>) -> (outcome: Result<(String, String), Error>)
        ensures
            rendered(proved, outcome),
    {
        match proved {
            Some((proof, alias)) => {
                let alias_text = hex_encode(alias.as_slice());
                let proof_text = hex_encode(proof.0.as_slice());
                Ok((alias_text, proof_text))
            },
            None => Err(Error::Proof),
        }
    }

    /// Spends the commitment of `member` on a proof for `message`.
    ///
    /// The commitment is taken out of the store before the scheme is asked, so
    /// it is gone whether or not a proof comes back. The scheme is handed the
    /// commitment, the member's seed, this protocol's context and the bytes of
    /// the message. The alias that comes back with the proof is the one under
    /// which the member proves in this context for this message. An identity
    /// that the store does not know has no commitment waiting, like one that
    /// has not committed.
    pub fn create(&mut self, member: String, message: String) -> (outcome: Result<
        (String, String),
        Error,
    >)
        ensures
            final(self).known() == old(self).known(),
            if !is_identity(member@) {
                &&& outcome matches Err(e)
                &&& e == Error::Decode
                &&& final(self)@ == old(self)@
            } else {
                exists|raw: RawMember|
                    {
                        &&& #[trigger] names(member@, raw)
                        &&& old(self).spent(
                            raw,
                            vstd::utf8::encode_utf8(message@),
                            final(self),
                            outcome,
                        )
                    }
            },
    {
        let raw = match to_raw_member(member) {
            Ok(raw) => raw,
            Err(_) => {
                return Err(Error::Decode);
            },
        };
        let (spent, seed) = match self.take_commitment(&raw) {
            Ok(found) => found,
            Err(e) => {
                return Err(e);
            },
        };
        let context = context();
        let text = message.as_str().as_bytes_vec();
        proof {
            use_type_invariant(&spent);
        }
        let proved = prove(spent, &seed, &context, &text);
        Self::render(proved)
    }
}

/// The bytes of a commitment that the scheme granted, if it granted one.
pub open spec fn commitment_view(opened: Option<Commitment>) -> Option<Seq<u8>> {
    match opened {
        Some(commitment) => Some(commitment@),
        None => None,
    }
}

} // verus!
