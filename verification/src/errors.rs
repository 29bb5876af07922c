//! The error taxonomy: every rejected precondition maps to exactly one
//! distinguishable error, detected before any mutation.

use vstd::prelude::*;

verus! {

/// A typed failure returned by an operation. No error is ever surfaced after
/// a partial state change: a handler either performs its whole transition or
/// returns one of these with the ledger untouched.
#[derive(Clone, Copy, Debug, PartialEq, Eq, Structural)]
pub enum SolidKycError {
    /// The caller is not the recorded administrator.
    UnauthorizedAdmin,
    /// The caller is not the issuer the operation requires.
    UnauthorizedIssuer,
    /// The caller is not the issuer recorded on the credential.
    InvalidIssuer,
    /// The issuer exists but its issuance capability is switched off.
    IssuerInactive,
    /// A deactivation was attempted on an already inactive issuer.
    IssuerAlreadyInactive,
    /// A reactivation was attempted on an already active issuer.
    IssuerAlreadyActive,
    /// A revocation was attempted on an already revoked credential.
    CredentialAlreadyRevoked,
    /// The supplied credential hash is rejected by an external verifier.
    InvalidCredentialHash,
    /// The credential's validity window has ended.
    CredentialExpired,
    /// The supplied zero-knowledge material failed external verification.
    InvalidZkProof,
    /// A singleton record was asked to be created a second time.
    AlreadyInitialized,
    /// The issuer registry singleton does not exist yet.
    RegistryNotInitialized,
    /// The issuer is not part of the trusted set.
    IssuerNotRegistered,
    /// The issuer is already part of the trusted set.
    IssuerAlreadyRegistered,
    /// The registry holds as many issuers as its fixed capacity allows.
    RegistryFull,
    /// A credential for this (issuer, holder) pair already exists.
    DuplicateCredential,
    /// The issuance timestamp lies in the future.
    InvalidIssuedTimestamp,
    /// The expiry timestamp does not lie in the future.
    InvalidExpiryTimestamp,
    /// The expiry timestamp does not lie after the issuance timestamp.
    ExpiryBeforeIssuance,
    /// The supplied inputs derive no existing record address.
    InvalidRecordAddress,
    /// A display name exceeds the fixed length bound.
    NameTooLong,
}

/// The three kinds of failure: the caller lacks a capability or trust status,
/// the operation would produce a state the model forbids, or caller-supplied
/// data violates a structural or temporal constraint.
#[derive(Clone, Copy, Debug, PartialEq, Eq, Structural)]
pub enum ErrorKind {
    Authorization,
    StateConflict,
    Validation,
}

impl SolidKycError {
    /// Which kind of failure this error reports.
    pub open spec fn spec_kind(self) -> ErrorKind {
        match self {
            SolidKycError::UnauthorizedAdmin => ErrorKind::Authorization,
            SolidKycError::UnauthorizedIssuer => ErrorKind::Authorization,
            SolidKycError::InvalidIssuer => ErrorKind::Authorization,
            SolidKycError::IssuerInactive => ErrorKind::Authorization,
            SolidKycError::IssuerNotRegistered => ErrorKind::Authorization,
            SolidKycError::InvalidZkProof => ErrorKind::Authorization,
            SolidKycError::IssuerAlreadyInactive => ErrorKind::StateConflict,
            SolidKycError::IssuerAlreadyActive => ErrorKind::StateConflict,
            SolidKycError::CredentialAlreadyRevoked => ErrorKind::StateConflict,
            SolidKycError::AlreadyInitialized => ErrorKind::StateConflict,
            SolidKycError::RegistryNotInitialized => ErrorKind::StateConflict,
            SolidKycError::IssuerAlreadyRegistered => ErrorKind::StateConflict,
            SolidKycError::DuplicateCredential => ErrorKind::StateConflict,
            SolidKycError::InvalidCredentialHash => ErrorKind::Validation,
            SolidKycError::CredentialExpired => ErrorKind::Validation,
            SolidKycError::RegistryFull => ErrorKind::Validation,
            SolidKycError::InvalidIssuedTimestamp => ErrorKind::Validation,
            SolidKycError::InvalidExpiryTimestamp => ErrorKind::Validation,
            SolidKycError::ExpiryBeforeIssuance => ErrorKind::Validation,
            SolidKycError::InvalidRecordAddress => ErrorKind::Validation,
            SolidKycError::NameTooLong => ErrorKind::Validation,
        }
    }

    /// Which kind of failure this error reports.
    pub fn kind(&self) -> (k: ErrorKind)
        ensures
            k == self.spec_kind(),
    {
        match self {
            SolidKycError::UnauthorizedAdmin => ErrorKind::Authorization,
            SolidKycError::UnauthorizedIssuer => ErrorKind::Authorization,
            SolidKycError::InvalidIssuer => ErrorKind::Authorization,
            SolidKycError::IssuerInactive => ErrorKind::Authorization,
            SolidKycError::IssuerNotRegistered => ErrorKind::Authorization,
            SolidKycError::InvalidZkProof => ErrorKind::Authorization,
            SolidKycError::IssuerAlreadyInactive => ErrorKind::StateConflict,
            SolidKycError::IssuerAlreadyActive => ErrorKind::StateConflict,
            SolidKycError::CredentialAlreadyRevoked => ErrorKind::StateConflict,
            SolidKycError::AlreadyInitialized => ErrorKind::StateConflict,
            SolidKycError::RegistryNotInitialized => ErrorKind::StateConflict,
            SolidKycError::IssuerAlreadyRegistered => ErrorKind::StateConflict,
            SolidKycError::DuplicateCredential => ErrorKind::StateConflict,
            SolidKycError::InvalidCredentialHash => ErrorKind::Validation,
            SolidKycError::CredentialExpired => ErrorKind::Validation,
            SolidKycError::RegistryFull => ErrorKind::Validation,
            SolidKycError::InvalidIssuedTimestamp => ErrorKind::Validation,
            SolidKycError::InvalidExpiryTimestamp => ErrorKind::Validation,
            SolidKycError::ExpiryBeforeIssuance => ErrorKind::Validation,
            SolidKycError::InvalidRecordAddress => ErrorKind::Validation,
            SolidKycError::NameTooLong => ErrorKind::Validation,
        }
    }
}

} // verus!
