//! Anonymous ring-membership credentials.
//!
//! A ring of members is accumulated one public key at a time against a
//! structured reference string that is read chunk by chunk. Once the ring is
//! sealed, a member commits to it and then spends that commitment on a single
//! proof, which anyone can check against the sealed ring to learn the member's
//! alias.
//!
//! * [`srs`] holds the reference string.
//! * [`ring`] accumulates and seals a ring, and checks proofs against it.
//! * [`pallet`] keeps one ring through its life, as a ledger does.
//! * [`rpc`] is the credential authority: keys, commitments and proofs.
//! * [`scheme`] is the ring VRF scheme that all of these are built on. The
//!   crate takes the scheme's word for what it computes, and proves what it
//!   does with each possible answer.
//! * [`executor_params`] is the parameter set of an execution environment,
//!   with its consistency rules and its hashes.

pub mod executor_params;
pub mod hashing;
pub mod hexcode;
pub mod pallet;
pub mod ring;
pub mod rpc;
pub mod scale;
pub mod scheme;
pub mod srs;
