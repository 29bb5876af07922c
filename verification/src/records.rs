//! The persisted record types: the program configuration and issuer registry
//! singletons, per-issuer identity records, and per-(issuer, holder)
//! credential records, each with its mathematical view and well-formedness.

use vstd::prelude::*;

use crate::addr::{bump_of, RecordKeyView};

verus! {

/// How many issuer identities the registry can hold.
pub const ISSUER_REGISTRY_CAPACITY: usize = 32;

/// The longest display name an issuer identity record accepts.
pub const MAX_NAME_LEN: usize = 50;

/// The singleton holding the administrator identity and the schema version;
/// the root of trust for all admin-gated operations.
#[derive(Clone, Copy, Debug)]
pub struct ProgramConfiguration {
    /// The identity of the sole administrator, immutable once created.
    pub admin: [u8; 32],
    /// The schema version.
    pub version: u64,
}

/// The mathematical value of a `ProgramConfiguration`.
pub struct ConfigView {
    pub admin: Seq<u8>,
    pub version: int,
}

impl View for ProgramConfiguration {
    type V = ConfigView;

    open spec fn view(&self) -> ConfigView {
        ConfigView { admin: self.admin@, version: self.version as int }
    }
}

impl ConfigView {
    pub open spec fn wf(self) -> bool {
        self.admin.len() == 32
    }
}

/// The admin-curated, fixed-capacity set of trusted issuer identities.
#[derive(Debug)]
pub struct IssuerRegistry {
    /// A copy of the configuring administrator, for authorization without
    /// resolving the configuration record.
    pub admin: [u8; 32],
    /// The occupied slots, in registration order, distinct by construction.
    pub issuers: Vec<[u8; 32]>,
    /// The number of occupied slots.
    pub count: u64,
}

/// The mathematical value of an `IssuerRegistry`.
pub struct RegistryView {
    pub admin: Seq<u8>,
    pub issuers: Seq<Seq<u8>>,
    pub count: int,
}

impl View for IssuerRegistry {
    type V = RegistryView;

    open spec fn view(&self) -> RegistryView {
        RegistryView {
            admin: self.admin@,
            issuers: Seq::new(self.issuers@.len(), |i: int| self.issuers@[i]@),
            count: self.count as int,
        }
    }
}

impl RegistryView {
    pub open spec fn wf(self) -> bool {
        &&& self.admin.len() == 32
        &&& self.count == self.issuers.len()
        &&& self.issuers.len() <= ISSUER_REGISTRY_CAPACITY
        &&& forall|i: int| 0 <= i < self.issuers.len() ==> (#[trigger] self.issuers[i]).len()
            == 32
        &&& forall|i: int, j: int|
            0 <= i < j < self.issuers.len() ==> self.issuers[i] != self.issuers[j]
    }

    /// Whether an identity occupies one of the slots.
    pub open spec fn contains(self, issuer: Seq<u8>) -> bool {
        exists|i: int| 0 <= i < self.issuers.len() && self.issuers[i] == issuer
    }
}

/// The identity record of one issuer: its signing material, activity gate,
/// and issuance counter.
#[derive(Debug)]
pub struct IssuerAccount {
    /// The controlling identity.
    pub authority: [u8; 32],
    /// The first component of the public key an external verifier uses.
    pub zk_public_key_x: [u8; 32],
    /// The second component of the public key an external verifier uses.
    pub zk_public_key_y: [u8; 32],
    /// A bounded-length display name.
    pub name: String,
    /// Whether the issuer may currently issue credentials.
    pub is_active: bool,
    /// When the record was created.
    pub registered_at: i64,
    /// How many credentials this issuer has issued; never decreases.
    pub credentials_issued: u64,
    /// The check byte derived alongside the record address.
    pub bump: u8,
}

/// The mathematical value of an `IssuerAccount`.
pub struct IssuerView {
    pub authority: Seq<u8>,
    pub zk_public_key_x: Seq<u8>,
    pub zk_public_key_y: Seq<u8>,
    pub name: Seq<char>,
    pub is_active: bool,
    pub registered_at: int,
    pub credentials_issued: int,
    pub bump: u8,
}

impl View for IssuerAccount {
    type V = IssuerView;

    open spec fn view(&self) -> IssuerView {
        IssuerView {
            authority: self.authority@,
            zk_public_key_x: self.zk_public_key_x@,
            zk_public_key_y: self.zk_public_key_y@,
            name: self.name@,
            is_active: self.is_active,
            registered_at: self.registered_at as int,
            credentials_issued: self.credentials_issued as int,
            bump: self.bump,
        }
    }
}

impl IssuerView {
    pub open spec fn wf(self) -> bool {
        &&& self.authority.len() == 32
        &&& self.zk_public_key_x.len() == 32
        &&& self.zk_public_key_y.len() == 32
        &&& self.name.len() <= MAX_NAME_LEN
        &&& self.credentials_issued >= 0
        &&& self.bump == bump_of(RecordKeyView::Issuer { authority: self.authority })
    }
}

/// The persisted claim binding a holder to an issuer: a hashed attribute
/// commitment, a validity window, revocation state, and opaque signature
/// material for an external verifier.
#[derive(Clone, Copy, Debug)]
pub struct UserCredential {
    /// The subject the credential is about.
    pub holder: [u8; 32],
    /// The authority that issued the credential.
    pub issuer: [u8; 32],
    /// An opaque digest of the attested attributes, never the raw attributes.
    pub credential_hash: [u8; 32],
    /// The attested date of birth.
    pub date_of_birth: i64,
    /// The start of the validity window.
    pub issued_at: i64,
    /// The end of the validity window, strictly after the start.
    pub expires_at: i64,
    /// Opaque signature material for an external verifier.
    pub zk_signature_r8x: [u8; 32],
    /// Opaque signature material for an external verifier.
    pub zk_signature_r8y: [u8; 32],
    /// Opaque signature material for an external verifier.
    pub zk_signature_s: [u8; 32],
    /// Whether the credential has been revoked; revocation is terminal.
    pub is_revoked: bool,
    /// The check byte derived alongside the record address.
    pub bump: u8,
}

/// The mathematical value of a `UserCredential`.
pub struct CredentialView {
    pub holder: Seq<u8>,
    pub issuer: Seq<u8>,
    pub credential_hash: Seq<u8>,
    pub date_of_birth: int,
    pub issued_at: int,
    pub expires_at: int,
    pub zk_signature_r8x: Seq<u8>,
    pub zk_signature_r8y: Seq<u8>,
    pub zk_signature_s: Seq<u8>,
    pub is_revoked: bool,
    pub bump: u8,
}

impl View for UserCredential {
    type V = CredentialView;

    open spec fn view(&self) -> CredentialView {
        CredentialView {
            holder: self.holder@,
            issuer: self.issuer@,
            credential_hash: self.credential_hash@,
            date_of_birth: self.date_of_birth as int,
            issued_at: self.issued_at as int,
            expires_at: self.expires_at as int,
            zk_signature_r8x: self.zk_signature_r8x@,
            zk_signature_r8y: self.zk_signature_r8y@,
            zk_signature_s: self.zk_signature_s@,
            is_revoked: self.is_revoked,
            bump: self.bump,
        }
    }
}

impl CredentialView {
    pub open spec fn wf(self) -> bool {
        &&& self.holder.len() == 32
        &&& self.issuer.len() == 32
        &&& self.credential_hash.len() == 32
        &&& self.zk_signature_r8x.len() == 32
        &&& self.zk_signature_r8y.len() == 32
        &&& self.zk_signature_s.len() == 32
        &&& self.issued_at < self.expires_at
        &&& self.bump == bump_of(RecordKeyView::Credential {
            holder: self.holder,
            issuer: self.issuer,
        })
    }

    /// A credential is expired once the clock passes its window's end;
    /// expiry is a query-time computation, nothing in the record changes.
    pub open spec fn spec_is_expired(self, now: int) -> bool {
        now > self.expires_at
    }
}

impl UserCredential {
    /// Whether the validity window has ended at the given clock reading.
    pub fn is_expired(&self, now: i64) -> (r: bool)
        ensures
            r == self@.spec_is_expired(now as int),
    {
        now > self.expires_at
    }
}

} // verus!
