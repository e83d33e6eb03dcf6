//! Client-side core of a pay-per-write replicated data network: a ledger that
//! drives money transfers through validator agreement, and a write coordinator
//! that keeps a local cache of sequence replicas.
use vstd::prelude::*;

pub mod cache;
pub mod client;
pub mod error;
pub mod ledger;
pub mod sequence;

verus! {

/// The public key type of the network, carried through the ledger and the
/// sequence replicas without being inspected.
#[verifier::external_type_specification]
#[verifier::external_body]
pub struct ExPublicKey(safe_nd::PublicKey);

} // verus!
