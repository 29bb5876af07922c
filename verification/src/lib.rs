//! A trust-anchored credential issuance and revocation ledger.
//!
//! An administrator establishes a program configuration and a registry of
//! trusted issuers; issuers create per-issuer identity records, bind hashed
//! credentials to holders for a bounded validity window, and may later revoke
//! them. Every record lives at a deterministic address derived from a fixed
//! domain tag and the identities involved, so creation is naturally exclusive
//! per key and no two holders can collide.

pub mod addr;
pub mod errors;
pub mod laws;
pub mod ledger;
pub mod model;
pub mod records;

pub use addr::{derive_address, RecordKey};
pub use errors::{ErrorKind, SolidKycError};
pub use ledger::{
    deactivate_issuer, deregister_issuer, initialize, initialize_issuer,
    initialize_issuer_registry, issue_credential, reactivate_issuer, register_issuer,
    revoke_credential, DeactivateIssuer, InitializeIssuer, IssueCredential, Ledger,
    ReactivateIssuer, RevokeCredential,
};
pub use records::{IssuerAccount, IssuerRegistry, ProgramConfiguration, UserCredential};
