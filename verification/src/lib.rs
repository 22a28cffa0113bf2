//! A per-identity record store keyed by deterministically derived addresses.
//!
//! Each owning identity gets at most one record, stored at an address derived
//! from a fixed salt and the identity. Creation refuses an occupied address,
//! every mutation re-verifies the stored derivation tag against a fresh
//! derivation, and names are bounded to 200 bytes.

use vstd::prelude::*;

pub mod bytes;
pub mod laws;
pub mod model;
pub mod pda;
pub mod store;

pub use pda::derive_record_address;
pub use store::ChangeUserName;
pub use store::CreateUserStats;
pub use store::UserRecordStore;
pub use store::UserStats;

verus! {

/// Errors returned by the record store.
#[derive(Clone, Copy, Debug, PartialEq, Eq, Structural)]
pub enum ErrorCode {
    /// A name longer than the 200-byte bound was supplied.
    NameTooLong,
    /// A record already occupies the derived address.
    RecordAlreadyExists,
    /// No record occupies the derived address.
    RecordNotFound,
    /// The caller did not present a signer capability for the identity.
    Unauthorized,
    /// The stored derivation tag does not match the recomputed one,
    /// or the derivation itself produced no address.
    AddressTagMismatch,
}

} // verus!
