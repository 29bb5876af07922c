//! The mathematical model of the ledger: an abstract state over views and,
//! for every operation, a transition function that says exactly which error
//! a request draws and how the state changes when it succeeds.
//!
//! Handlers are verified against these transitions, and the laws of the
//! system are proved about them.

use vstd::prelude::*;

use crate::addr::{bump_of, RecordKeyView};
use crate::errors::SolidKycError;
use crate::records::{
    ConfigView, CredentialView, IssuerView, RegistryView, ISSUER_REGISTRY_CAPACITY,
    MAX_NAME_LEN,
};

verus! {

/// The abstract state: the two singletons and the two record families, each
/// keyed by the identities its derived address is computed from.
#[verifier::ext_equal]
pub struct LedgerView {
    pub config: Option<ConfigView>,
    pub registry: Option<RegistryView>,
    pub issuers: Seq<IssuerView>,
    pub credentials: Seq<CredentialView>,
}

impl LedgerView {
    /// Whether an issuer identity record exists for this authority.
    pub open spec fn has_issuer(self, authority: Seq<u8>) -> bool {
        exists|i: int| 0 <= i < self.issuers.len() && self.issuers[i].authority == authority
    }

    /// The slot of the issuer record for this authority.
    pub open spec fn issuer_index(self, authority: Seq<u8>) -> int {
        choose|i: int| 0 <= i < self.issuers.len() && self.issuers[i].authority == authority
    }

    /// The issuer record for this authority.
    pub open spec fn issuer_at(self, authority: Seq<u8>) -> IssuerView {
        self.issuers[self.issuer_index(authority)]
    }

    /// Whether a credential record exists for this (holder, issuer) pair.
    pub open spec fn has_credential(self, holder: Seq<u8>, issuer: Seq<u8>) -> bool {
        exists|i: int|
            0 <= i < self.credentials.len() && self.credentials[i].holder == holder
                && self.credentials[i].issuer == issuer
    }

    /// The slot of the credential record for this (holder, issuer) pair.
    pub open spec fn credential_index(self, holder: Seq<u8>, issuer: Seq<u8>) -> int {
        choose|i: int|
            0 <= i < self.credentials.len() && self.credentials[i].holder == holder
                && self.credentials[i].issuer == issuer
    }

    /// The credential record for this (holder, issuer) pair.
    pub open spec fn credential_at(self, holder: Seq<u8>, issuer: Seq<u8>) -> CredentialView {
        self.credentials[self.credential_index(holder, issuer)]
    }

    /// Well-formedness: every record is well formed, record keys are unique
    /// (issuers by authority, credentials by (holder, issuer) pair), the
    /// registry copies the configured administrator, and every credential's
    /// issuer has an identity record.
    pub open spec fn wf(self) -> bool {
        &&& (self.config is Some ==> self.config->0.wf())
        &&& (self.registry is Some ==> self.registry->0.wf())
        &&& (self.registry is Some ==> self.config is Some && self.registry->0.admin
            == self.config->0.admin)
        &&& forall|i: int| 0 <= i < self.issuers.len() ==> (#[trigger] self.issuers[i]).wf()
        &&& forall|i: int, j: int|
            0 <= i < j < self.issuers.len() ==> self.issuers[i].authority
                != self.issuers[j].authority
        &&& forall|i: int|
            0 <= i < self.credentials.len() ==> (#[trigger] self.credentials[i]).wf()
        &&& forall|i: int, j: int|
            0 <= i < j < self.credentials.len() ==> !(self.credentials[i].holder
                == self.credentials[j].holder && self.credentials[i].issuer
                == self.credentials[j].issuer)
        &&& forall|i: int|
            0 <= i < self.credentials.len() ==> self.has_issuer(
                (#[trigger] self.credentials[i]).issuer,
            )
    }

    /// The empty state: nothing has been created yet.
    pub open spec fn initial() -> LedgerView {
        LedgerView {
            config: None,
            registry: None,
            issuers: Seq::empty(),
            credentials: Seq::empty(),
        }
    }
}

/// Creates the configuration singleton with schema version 1; a second
/// attempt fails with `AlreadyInitialized` whatever administrator it names.
pub open spec fn apply_initialize(l: LedgerView, admin: Seq<u8>) -> (LedgerView, Result<
    (),
    SolidKycError,
>) {
    if l.config is Some {
        (l, Err(SolidKycError::AlreadyInitialized))
    } else {
        (
            LedgerView {
                config: Some(ConfigView { admin, version: 1 }),
                ..l
            },
            Ok(()),
        )
    }
}

/// Creates the registry singleton, gated on the configured administrator.
pub open spec fn apply_initialize_issuer_registry(l: LedgerView, caller: Seq<u8>) -> (
    LedgerView,
    Result<(), SolidKycError>,
) {
    if !(l.config is Some && l.config->0.admin == caller) {
        (l, Err(SolidKycError::UnauthorizedAdmin))
    } else if l.registry is Some {
        (l, Err(SolidKycError::AlreadyInitialized))
    } else {
        (
            LedgerView {
                registry: Some(RegistryView { admin: caller, issuers: Seq::empty(), count: 0 }),
                ..l
            },
            Ok(()),
        )
    }
}

/// Adds an issuer identity to the registry: admin-gated, duplicates
/// rejected, capacity fixed.
pub open spec fn apply_register_issuer(l: LedgerView, caller: Seq<u8>, issuer: Seq<u8>) -> (
    LedgerView,
    Result<(), SolidKycError>,
) {
    if l.registry is None {
        (l, Err(SolidKycError::RegistryNotInitialized))
    } else if l.registry->0.admin != caller {
        (l, Err(SolidKycError::UnauthorizedAdmin))
    } else if l.registry->0.contains(issuer) {
        (l, Err(SolidKycError::IssuerAlreadyRegistered))
    } else if l.registry->0.issuers.len() >= ISSUER_REGISTRY_CAPACITY {
        (l, Err(SolidKycError::RegistryFull))
    } else {
        let reg = l.registry->0;
        (
            LedgerView {
                registry: Some(RegistryView {
                    admin: reg.admin,
                    issuers: reg.issuers.push(issuer),
                    count: reg.count + 1,
                }),
                ..l
            },
            Ok(()),
        )
    }
}

/// Removes an issuer identity from the registry: admin-gated, absence
/// rejected.
pub open spec fn apply_deregister_issuer(l: LedgerView, caller: Seq<u8>, issuer: Seq<u8>) -> (
    LedgerView,
    Result<(), SolidKycError>,
) {
    if l.registry is None {
        (l, Err(SolidKycError::RegistryNotInitialized))
    } else if l.registry->0.admin != caller {
        (l, Err(SolidKycError::UnauthorizedAdmin))
    } else if !l.registry->0.contains(issuer) {
        (l, Err(SolidKycError::IssuerNotRegistered))
    } else {
        let reg = l.registry->0;
        let at = choose|i: int| 0 <= i < reg.issuers.len() && reg.issuers[i] == issuer;
        (
            LedgerView {
                registry: Some(RegistryView {
                    admin: reg.admin,
                    issuers: reg.issuers.remove(at),
                    count: reg.count - 1,
                }),
                ..l
            },
            Ok(()),
        )
    }
}

/// Creates the per-issuer identity record: active, with a fresh counter and
/// the creation-time clock reading.
pub open spec fn apply_initialize_issuer(
    l: LedgerView,
    authority: Seq<u8>,
    name: Seq<char>,
    zk_public_key_x: Seq<u8>,
    zk_public_key_y: Seq<u8>,
    now: int,
) -> (LedgerView, Result<(), SolidKycError>) {
    if name.len() > MAX_NAME_LEN {
        (l, Err(SolidKycError::NameTooLong))
    } else if l.has_issuer(authority) {
        (l, Err(SolidKycError::IssuerAlreadyRegistered))
    } else {
        (
            LedgerView {
                issuers: l.issuers.push(IssuerView {
                    authority,
                    zk_public_key_x,
                    zk_public_key_y,
                    name,
                    is_active: true,
                    registered_at: now,
                    credentials_issued: 0,
                    bump: bump_of(RecordKeyView::Issuer { authority }),
                }),
                ..l
            },
            Ok(()),
        )
    }
}

/// Switches an issuer's issuance capability off; a no-op transition is
/// rejected, not silently accepted.
pub open spec fn apply_deactivate_issuer(l: LedgerView, authority: Seq<u8>) -> (
    LedgerView,
    Result<(), SolidKycError>,
) {
    if !l.has_issuer(authority) {
        (l, Err(SolidKycError::IssuerNotRegistered))
    } else if !l.issuer_at(authority).is_active {
        (l, Err(SolidKycError::IssuerAlreadyInactive))
    } else {
        let at = l.issuer_index(authority);
        (
            LedgerView {
                issuers: l.issuers.update(at, IssuerView { is_active: false, ..l.issuers[at] }),
                ..l
            },
            Ok(()),
        )
    }
}

/// Switches an issuer's issuance capability back on; a no-op transition is
/// rejected, not silently accepted.
pub open spec fn apply_reactivate_issuer(l: LedgerView, authority: Seq<u8>) -> (
    LedgerView,
    Result<(), SolidKycError>,
) {
    if !l.has_issuer(authority) {
        (l, Err(SolidKycError::IssuerNotRegistered))
    } else if l.issuer_at(authority).is_active {
        (l, Err(SolidKycError::IssuerAlreadyActive))
    } else {
        let at = l.issuer_index(authority);
        (
            LedgerView {
                issuers: l.issuers.update(at, IssuerView { is_active: true, ..l.issuers[at] }),
                ..l
            },
            Ok(()),
        )
    }
}

/// Binds a credential to a holder. The caller must hold an active issuer
/// record; at most one credential can ever exist per (issuer, holder) pair;
/// the validity window must start no later than the clock reading, end after
/// its start, and end after the clock reading. On success the record is
/// created verbatim from the inputs and the issuer's counter grows by one.
pub open spec fn apply_issue_credential(
    l: LedgerView,
    issuer_authority: Seq<u8>,
    holder: Seq<u8>,
    credential_hash: Seq<u8>,
    date_of_birth: int,
    issued_at: int,
    expires_at: int,
    zk_signature_r8x: Seq<u8>,
    zk_signature_r8y: Seq<u8>,
    zk_signature_s: Seq<u8>,
    now: int,
) -> (LedgerView, Result<(), SolidKycError>) {
    if !l.has_issuer(issuer_authority) {
        (l, Err(SolidKycError::IssuerNotRegistered))
    } else if !l.issuer_at(issuer_authority).is_active {
        (l, Err(SolidKycError::IssuerInactive))
    } else if l.has_credential(holder, issuer_authority) {
        (l, Err(SolidKycError::DuplicateCredential))
    } else if issued_at > now {
        (l, Err(SolidKycError::InvalidIssuedTimestamp))
    } else if expires_at <= issued_at {
        (l, Err(SolidKycError::ExpiryBeforeIssuance))
    } else if expires_at <= now {
        (l, Err(SolidKycError::InvalidExpiryTimestamp))
    } else {
        let at = l.issuer_index(issuer_authority);
        let issuer = l.issuers[at];
        (
            LedgerView {
                issuers: l.issuers.update(at, IssuerView {
                    credentials_issued: issuer.credentials_issued + 1,
                    ..issuer
                }),
                credentials: l.credentials.push(CredentialView {
                    holder,
                    issuer: issuer_authority,
                    credential_hash,
                    date_of_birth,
                    issued_at,
                    expires_at,
                    zk_signature_r8x,
                    zk_signature_r8y,
                    zk_signature_s,
                    is_revoked: false,
                    bump: bump_of(RecordKeyView::Credential {
                        holder,
                        issuer: issuer_authority,
                    }),
                }),
                ..l
            },
            Ok(()),
        )
    }
}

/// Revokes a credential. The caller must be the credential's recorded
/// issuer; revocation is terminal and one-directional.
pub open spec fn apply_revoke_credential(
    l: LedgerView,
    caller: Seq<u8>,
    holder: Seq<u8>,
    issuer: Seq<u8>,
) -> (LedgerView, Result<(), SolidKycError>) {
    if !l.has_credential(holder, issuer) {
        (l, Err(SolidKycError::InvalidRecordAddress))
    } else if caller != issuer {
        (l, Err(SolidKycError::InvalidIssuer))
    } else {
        let at = l.credential_index(holder, issuer);
        if l.credentials[at].is_revoked {
            (l, Err(SolidKycError::CredentialAlreadyRevoked))
        } else {
            (
                LedgerView {
                    credentials: l.credentials.update(at, CredentialView {
                        is_revoked: true,
                        ..l.credentials[at]
                    }),
                    ..l
                },
                Ok(()),
            )
        }
    }
}

/// One submitted request, whatever its operation.
pub enum Op {
    Initialize { admin: Seq<u8> },
    InitializeIssuerRegistry { caller: Seq<u8> },
    RegisterIssuer { caller: Seq<u8>, issuer: Seq<u8> },
    DeregisterIssuer { caller: Seq<u8>, issuer: Seq<u8> },
    InitializeIssuer {
        authority: Seq<u8>,
        name: Seq<char>,
        zk_public_key_x: Seq<u8>,
        zk_public_key_y: Seq<u8>,
        now: int,
    },
    DeactivateIssuer { authority: Seq<u8> },
    ReactivateIssuer { authority: Seq<u8> },
    IssueCredential {
        issuer_authority: Seq<u8>,
        holder: Seq<u8>,
        credential_hash: Seq<u8>,
        date_of_birth: int,
        issued_at: int,
        expires_at: int,
        zk_signature_r8x: Seq<u8>,
        zk_signature_r8y: Seq<u8>,
        zk_signature_s: Seq<u8>,
        now: int,
    },
    RevokeCredential { caller: Seq<u8>, holder: Seq<u8>, issuer: Seq<u8> },
}

impl Op {
    /// Every identity an operation carries is 32 bytes wide.
    pub open spec fn wf(self) -> bool {
        match self {
            Op::Initialize { admin } => admin.len() == 32,
            Op::InitializeIssuerRegistry { caller } => caller.len() == 32,
            Op::RegisterIssuer { caller, issuer } => caller.len() == 32 && issuer.len() == 32,
            Op::DeregisterIssuer { caller, issuer } => caller.len() == 32 && issuer.len()
                == 32,
            Op::InitializeIssuer { authority, name, zk_public_key_x, zk_public_key_y, now } =>
                authority.len() == 32 && zk_public_key_x.len() == 32 && zk_public_key_y.len()
                == 32,
            Op::DeactivateIssuer { authority } => authority.len() == 32,
            Op::ReactivateIssuer { authority } => authority.len() == 32,
            Op::IssueCredential {
                issuer_authority,
                holder,
                credential_hash,
                date_of_birth,
                issued_at,
                expires_at,
                zk_signature_r8x,
                zk_signature_r8y,
                zk_signature_s,
                now,
            } => issuer_authority.len() == 32 && holder.len() == 32 && credential_hash.len()
                == 32 && zk_signature_r8x.len() == 32 && zk_signature_r8y.len() == 32
                && zk_signature_s.len() == 32,
            Op::RevokeCredential { caller, holder, issuer } => caller.len() == 32
                && holder.len() == 32 && issuer.len() == 32,
        }
    }
}

/// The whole system as one step function: which transition a request takes.
pub open spec fn apply_op(l: LedgerView, op: Op) -> (LedgerView, Result<(), SolidKycError>) {
    match op {
        Op::Initialize { admin } => apply_initialize(l, admin),
        Op::InitializeIssuerRegistry { caller } => apply_initialize_issuer_registry(l, caller),
        Op::RegisterIssuer { caller, issuer } => apply_register_issuer(l, caller, issuer),
        Op::DeregisterIssuer { caller, issuer } => apply_deregister_issuer(l, caller, issuer),
        Op::InitializeIssuer { authority, name, zk_public_key_x, zk_public_key_y, now } =>
            apply_initialize_issuer(l, authority, name, zk_public_key_x, zk_public_key_y, now),
        Op::DeactivateIssuer { authority } => apply_deactivate_issuer(l, authority),
        Op::ReactivateIssuer { authority } => apply_reactivate_issuer(l, authority),
        Op::IssueCredential {
            issuer_authority,
            holder,
            credential_hash,
            date_of_birth,
            issued_at,
            expires_at,
            zk_signature_r8x,
            zk_signature_r8y,
            zk_signature_s,
            now,
        } => apply_issue_credential(
            l,
            issuer_authority,
            holder,
            credential_hash,
            date_of_birth,
            issued_at,
            expires_at,
            zk_signature_r8x,
            zk_signature_r8y,
            zk_signature_s,
            now,
        ),
        Op::RevokeCredential { caller, holder, issuer } => apply_revoke_credential(
            l,
            caller,
            holder,
            issuer,
        ),
    }
}

/// A slot determines its key: the issuer record at slot `i` is exactly the
/// record looked up under its own authority.
pub proof fn lemma_issuer_slot(l: LedgerView, i: int)
    requires
        l.wf(),
        0 <= i < l.issuers.len(),
    ensures
        l.has_issuer(l.issuers[i].authority),
        l.issuer_index(l.issuers[i].authority) == i,
        l.issuer_at(l.issuers[i].authority) == l.issuers[i],
{
    let a = l.issuers[i].authority;
    assert(0 <= i < l.issuers.len() && l.issuers[i].authority == a);
    let j = l.issuer_index(a);
    if j < i {
        assert(l.issuers[j].authority != l.issuers[i].authority);
    } else if i < j {
        assert(l.issuers[i].authority != l.issuers[j].authority);
    }
}

/// A slot determines its key: the credential record at slot `i` is exactly
/// the record looked up under its own (holder, issuer) pair.
pub proof fn lemma_credential_slot(l: LedgerView, i: int)
    requires
        l.wf(),
        0 <= i < l.credentials.len(),
    ensures
        l.has_credential(l.credentials[i].holder, l.credentials[i].issuer),
        l.credential_index(l.credentials[i].holder, l.credentials[i].issuer) == i,
        l.credential_at(l.credentials[i].holder, l.credentials[i].issuer)
            == l.credentials[i],
{
    let h = l.credentials[i].holder;
    let s = l.credentials[i].issuer;
    assert(0 <= i < l.credentials.len() && l.credentials[i].holder == h
        && l.credentials[i].issuer == s);
    let j = l.credential_index(h, s);
    if j < i {
        assert(!(l.credentials[j].holder == l.credentials[i].holder && l.credentials[j].issuer
            == l.credentials[i].issuer));
    } else if i < j {
        assert(!(l.credentials[i].holder == l.credentials[j].holder && l.credentials[i].issuer
            == l.credentials[j].issuer));
    }
}

/// Every operation leaves a well-formed ledger well formed.
pub proof fn lemma_apply_op_preserves_wf(l: LedgerView, op: Op)
    requires
        l.wf(),
        op.wf(),
    ensures
        apply_op(l, op).0.wf(),
{
    let l2 = apply_op(l, op).0;
    match op {
        Op::Initialize { admin } => {},
        Op::InitializeIssuerRegistry { caller } => {},
        Op::RegisterIssuer { caller, issuer } => {
            if apply_op(l, op).1 is Ok {
                let reg = l.registry->0;
                let reg2 = l2.registry->0;
                assert forall|i: int, j: int| 0 <= i < j < reg2.issuers.len() implies
                    reg2.issuers[i] != reg2.issuers[j] by {
                    if j < reg.issuers.len() {
                        assert(reg.issuers[i] != reg.issuers[j]);
                    } else {
                        assert(reg2.issuers[j] == issuer);
                        assert(!reg.contains(issuer));
                        assert(reg.issuers[i] == reg2.issuers[i]);
                    }
                }
            }
        },
        Op::DeregisterIssuer { caller, issuer } => {
            if apply_op(l, op).1 is Ok {
                let reg = l.registry->0;
                let reg2 = l2.registry->0;
                let at = choose|i: int|
                    0 <= i < reg.issuers.len() && reg.issuers[i] == issuer;
                assert(reg2.issuers == reg.issuers.remove(at));
                assert forall|i: int| 0 <= i < reg2.issuers.len() implies
                    (#[trigger] reg2.issuers[i]).len() == 32 by {
                    if i < at {
                        assert(reg2.issuers[i] == reg.issuers[i]);
                    } else {
                        assert(reg2.issuers[i] == reg.issuers[i + 1]);
                    }
                }
                assert forall|i: int, j: int| 0 <= i < j < reg2.issuers.len() implies
                    reg2.issuers[i] != reg2.issuers[j] by {
                    let oi: int = if i < at { i } else { i + 1 };
                    let oj: int = if j < at { j } else { j + 1 };
                    assert(reg2.issuers[i] == reg.issuers[oi]);
                    assert(reg2.issuers[j] == reg.issuers[oj]);
                    assert(reg.issuers[oi] != reg.issuers[oj]);
                }
            }
        },
        Op::InitializeIssuer { authority, name, zk_public_key_x, zk_public_key_y, now } => {
            if apply_op(l, op).1 is Ok {
                assert forall|i: int, j: int| 0 <= i < j < l2.issuers.len() implies
                    l2.issuers[i].authority != l2.issuers[j].authority by {
                    if j < l.issuers.len() {
                        assert(l.issuers[i].authority != l.issuers[j].authority);
                    } else {
                        assert(l2.issuers[j].authority == authority);
                        assert(!l.has_issuer(authority));
                        assert(l2.issuers[i] == l.issuers[i]);
                    }
                }
                assert forall|i: int| 0 <= i < l2.credentials.len() implies l2.has_issuer(
                    (#[trigger] l2.credentials[i]).issuer,
                ) by {
                    assert(l.has_issuer(l.credentials[i].issuer));
                    let w = l.issuer_index(l.credentials[i].issuer);
                    assert(l2.issuers[w] == l.issuers[w]);
                }
            }
        },
        Op::DeactivateIssuer { authority } => {
            lemma_toggle_preserves_wf(l, l2);
        },
        Op::ReactivateIssuer { authority } => {
            lemma_toggle_preserves_wf(l, l2);
        },
        Op::IssueCredential {
            issuer_authority,
            holder,
            credential_hash,
            date_of_birth,
            issued_at,
            expires_at,
            zk_signature_r8x,
            zk_signature_r8y,
            zk_signature_s,
            now,
        } => {
            if apply_op(l, op).1 is Ok {
                let at = l.issuer_index(issuer_authority);
                assert(0 <= at < l.issuers.len() && l.issuers[at].authority
                    == issuer_authority);
                assert forall|i: int| 0 <= i < l2.issuers.len() implies (
                    #[trigger] l2.issuers[i]).wf() && l2.issuers[i].authority
                    == l.issuers[i].authority by {
                    assert(l.issuers[i].wf());
                }
                assert forall|i: int, j: int| 0 <= i < j < l2.credentials.len() implies !(
                    l2.credentials[i].holder == l2.credentials[j].holder
                        && l2.credentials[i].issuer == l2.credentials[j].issuer) by {
                    if j < l.credentials.len() {
                        assert(!(l.credentials[i].holder == l.credentials[j].holder
                            && l.credentials[i].issuer == l.credentials[j].issuer));
                    } else {
                        assert(l2.credentials[j].holder == holder && l2.credentials[j].issuer
                            == issuer_authority);
                        assert(!l.has_credential(holder, issuer_authority));
                        assert(l2.credentials[i] == l.credentials[i]);
                    }
                }
                assert forall|i: int| 0 <= i < l2.credentials.len() implies l2.has_issuer(
                    (#[trigger] l2.credentials[i]).issuer,
                ) by {
                    if i < l.credentials.len() {
                        assert(l.has_issuer(l.credentials[i].issuer));
                        let w = l.issuer_index(l.credentials[i].issuer);
                        assert(l2.issuers[w].authority == l.issuers[w].authority);
                    } else {
                        assert(l2.issuers[at].authority == issuer_authority);
                    }
                }
            }
        },
        Op::RevokeCredential { caller, holder, issuer } => {
            if apply_op(l, op).1 is Ok {
                let at = l.credential_index(holder, issuer);
                assert forall|i: int| 0 <= i < l2.credentials.len() implies (
                    #[trigger] l2.credentials[i]).wf() && l2.credentials[i].holder
                    == l.credentials[i].holder && l2.credentials[i].issuer
                    == l.credentials[i].issuer by {
                    assert(l.credentials[i].wf());
                }
                assert forall|i: int| 0 <= i < l2.credentials.len() implies l2.has_issuer(
                    (#[trigger] l2.credentials[i]).issuer,
                ) by {
                    assert(l.has_issuer(l.credentials[i].issuer));
                    let w = l.issuer_index(l.credentials[i].issuer);
                    assert(l2.issuers[w] == l.issuers[w]);
                }
            }
        },
    }
}

/// Toggling one issuer's activity flag keeps the ledger well formed.
proof fn lemma_toggle_preserves_wf(l: LedgerView, l2: LedgerView)
    requires
        l.wf(),
        l2.config == l.config,
        l2.registry == l.registry,
        l2.credentials == l.credentials,
        l2.issuers.len() == l.issuers.len(),
        forall|i: int|
            0 <= i < l.issuers.len() ==> {
                let a = #[trigger] l2.issuers[i];
                let b = l.issuers[i];
                a == b || a == IssuerView { is_active: !b.is_active, ..b }
            },
    ensures
        l2.wf(),
{
    assert forall|i: int| 0 <= i < l2.issuers.len() implies (#[trigger] l2.issuers[i]).wf()
        && l2.issuers[i].authority == l.issuers[i].authority by {
        assert(l.issuers[i].wf());
    }
    assert forall|i: int| 0 <= i < l2.credentials.len() implies l2.has_issuer(
        (#[trigger] l2.credentials[i]).issuer,
    ) by {
        assert(l.has_issuer(l.credentials[i].issuer));
        let w = l.issuer_index(l.credentials[i].issuer);
        assert(l2.issuers[w].authority == l.issuers[w].authority);
    }
}

} // verus!
