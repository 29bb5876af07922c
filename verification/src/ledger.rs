//! The ledger and its instruction handlers.
//!
//! The ledger is the keyed store every record lives in; each handler
//! authenticates the caller, validates its preconditions in a fixed order,
//! and either performs the whole transition or returns a typed failure with
//! nothing changed. Each handler is verified to implement exactly the
//! corresponding transition of the model.

use vstd::prelude::*;

use crate::addr::RecordKey;
use crate::addr::derive_address;
use crate::errors::SolidKycError;
use crate::model::{
    apply_deactivate_issuer, apply_deregister_issuer, apply_initialize,
    apply_initialize_issuer, apply_initialize_issuer_registry, apply_issue_credential,
    apply_reactivate_issuer, apply_register_issuer, apply_revoke_credential,
    lemma_apply_op_preserves_wf, lemma_credential_slot, lemma_issuer_slot, LedgerView, Op,
};
use crate::records::{
    IssuerAccount, IssuerRegistry, ProgramConfiguration, UserCredential,
    ISSUER_REGISTRY_CAPACITY, MAX_NAME_LEN,
};
use vstd::string::StrSliceExecFns;

verus! {

/// The keyed store of every record: the two singletons and the two record
/// families, each record at the slot its derived key determines.
#[derive(Debug)]
pub struct Ledger {
    /// The configuration singleton, once `initialize` has run.
    pub config: Option<ProgramConfiguration>,
    /// The registry singleton, once `initialize_issuer_registry` has run.
    pub registry: Option<IssuerRegistry>,
    /// The issuer identity records, keyed by authority.
    pub issuers: Vec<IssuerAccount>,
    /// The credential records, keyed by (holder, issuer).
    pub credentials: Vec<UserCredential>,
}

impl View for Ledger {
    type V = LedgerView;

    open spec fn view(&self) -> LedgerView {
        LedgerView {
            config: match self.config {
                Some(c) => Some(c@),
                None => None,
            },
            registry: match self.registry {
                Some(r) => Some(r@),
                None => None,
            },
            issuers: Seq::new(self.issuers@.len(), |i: int| self.issuers@[i]@),
            credentials: Seq::new(self.credentials@.len(), |i: int| self.credentials@[i]@),
        }
    }
}

impl Ledger {
    /// An empty ledger: no record exists yet.
    pub fn new() -> (l: Ledger)
        ensures
            l@ == LedgerView::initial(),
            l@.wf(),
    {
        let l = Ledger {
            config: None,
            registry: None,
            issuers: Vec::new(),
            credentials: Vec::new(),
        };
        proof {
            assert(l@.issuers =~= LedgerView::initial().issuers);
            assert(l@.credentials =~= LedgerView::initial().credentials);
            assert(l@ =~= LedgerView::initial());
        }
        l
    }
}

/// The request naming the authority that signs an issuer record creation.
#[derive(Clone, Copy, Debug)]
pub struct InitializeIssuer {
    /// The signing identity the record will belong to.
    pub authority: [u8; 32],
}

/// The request naming the accounts an issuance touches.
#[derive(Clone, Copy, Debug)]
pub struct IssueCredential {
    /// The signing identity of the issuer.
    pub issuer_authority: [u8; 32],
    /// The subject of the credential; a weak reference, never dereferenced
    /// for capability.
    pub holder: [u8; 32],
}

/// The request naming the accounts a revocation touches: the credential is
/// identified by the (holder, issuer) pair its address is derived from.
#[derive(Clone, Copy, Debug)]
pub struct RevokeCredential {
    /// The signing identity of the caller.
    pub issuer_authority: [u8; 32],
    /// The holder half of the credential's derived address.
    pub holder: [u8; 32],
    /// The issuer half of the credential's derived address.
    pub issuer: [u8; 32],
}

/// The request naming the authority whose record is switched off.
#[derive(Clone, Copy, Debug)]
pub struct DeactivateIssuer {
    /// The signing identity, which must own the issuer record.
    pub authority: [u8; 32],
}

/// The request naming the authority whose record is switched back on.
#[derive(Clone, Copy, Debug)]
pub struct ReactivateIssuer {
    /// The signing identity, which must own the issuer record.
    pub authority: [u8; 32],
}

/// Compares two 32-byte identities.
fn bytes32_eq(a: &[u8; 32], b: &[u8; 32]) -> (r: bool)
    ensures
        r <==> a@ == b@,
{
    let mut i: usize = 0;
    while i < 32
        invariant
            i <= 32,
            forall|j: int| 0 <= j < i ==> a@[j] == b@[j],
        decreases 32 - i,
    {
        if a[i] != b[i] {
            return false;
        }
        i = i + 1;
    }
    assert(a@ =~= b@);
    true
}

/// Finds the slot of the issuer record owned by this authority.
fn find_issuer(issuers: &Vec<IssuerAccount>, authority: &[u8; 32]) -> (r: Option<usize>)
    ensures
        match r {
            Some(i) => i < issuers@.len() && issuers@[i as int].authority@ == authority@,
            None => forall|j: int|
                0 <= j < issuers@.len() ==> issuers@[j].authority@ != authority@,
        },
{
    let mut i: usize = 0;
    while i < issuers.len()
        invariant
            i <= issuers@.len(),
            forall|j: int| 0 <= j < i ==> issuers@[j].authority@ != authority@,
        decreases issuers@.len() - i,
    {
        if bytes32_eq(&issuers[i].authority, authority) {
            return Some(i);
        }
        i = i + 1;
    }
    None
}

/// Finds the slot of the credential record keyed by this (holder, issuer)
/// pair.
fn find_credential(
    credentials: &Vec<UserCredential>,
    holder: &[u8; 32],
    issuer: &[u8; 32],
) -> (r: Option<usize>)
    ensures
        match r {
            Some(i) => i < credentials@.len() && credentials@[i as int].holder@ == holder@
                && credentials@[i as int].issuer@ == issuer@,
            None => forall|j: int|
                0 <= j < credentials@.len() ==> !(credentials@[j].holder@ == holder@
                    && credentials@[j].issuer@ == issuer@),
        },
{
    let mut i: usize = 0;
    while i < credentials.len()
        invariant
            i <= credentials@.len(),
            forall|j: int|
                0 <= j < i ==> !(credentials@[j].holder@ == holder@ && credentials@[j].issuer@
                    == issuer@),
        decreases credentials@.len() - i,
    {
        if bytes32_eq(&credentials[i].holder, holder) && bytes32_eq(
            &credentials[i].issuer,
            issuer,
        ) {
            return Some(i);
        }
        i = i + 1;
    }
    None
}

/// Creates the configuration singleton with the given administrator and
/// schema version 1; fails with `AlreadyInitialized` if it already exists.
pub fn initialize(ledger: &mut Ledger, admin: [u8; 32]) -> (r: Result<(), SolidKycError>)
    requires
        old(ledger)@.wf(),
    ensures
        final(ledger)@ == apply_initialize(old(ledger)@, admin@).0,
        r == apply_initialize(old(ledger)@, admin@).1,
        final(ledger)@.wf(),
{
    proof {
        lemma_apply_op_preserves_wf(old(ledger)@, Op::Initialize { admin: admin@ });
    }
    if ledger.config.is_some() {
        return Err(SolidKycError::AlreadyInitialized);
    }
    ledger.config = Some(ProgramConfiguration { admin, version: 1 });
    assert(ledger@ =~= apply_initialize(old(ledger)@, admin@).0);
    Ok(())
}

/// Creates the registry singleton, gated on the configured administrator;
/// fails with `UnauthorizedAdmin` for any other caller and with
/// `AlreadyInitialized` if the registry already exists.
pub fn initialize_issuer_registry(ledger: &mut Ledger, caller: [u8; 32]) -> (r: Result<
    (),
    SolidKycError,
>)
    requires
        old(ledger)@.wf(),
    ensures
        final(ledger)@ == apply_initialize_issuer_registry(old(ledger)@, caller@).0,
        r == apply_initialize_issuer_registry(old(ledger)@, caller@).1,
        final(ledger)@.wf(),
{
    proof {
        lemma_apply_op_preserves_wf(
            old(ledger)@,
            Op::InitializeIssuerRegistry { caller: caller@ },
        );
    }
    let admin_ok = match &ledger.config {
        Some(c) => bytes32_eq(&c.admin, &caller),
        None => false,
    };
    if !admin_ok {
        return Err(SolidKycError::UnauthorizedAdmin);
    }
    if ledger.registry.is_some() {
        return Err(SolidKycError::AlreadyInitialized);
    }
    ledger.registry = Some(IssuerRegistry { admin: caller, issuers: Vec::new(), count: 0 });
    assert(ledger@.registry->0.issuers =~= Seq::<Seq<u8>>::empty());
    assert(ledger@ =~= apply_initialize_issuer_registry(old(ledger)@, caller@).0);
    Ok(())
}

/// Adds an issuer identity to the registry: admin-gated, duplicates
/// rejected, and full at its fixed capacity.
pub fn register_issuer(ledger: &mut Ledger, caller: [u8; 32], issuer: [u8; 32]) -> (r: Result<
    (),
    SolidKycError,
>)
    requires
        old(ledger)@.wf(),
    ensures
        final(ledger)@ == apply_register_issuer(old(ledger)@, caller@, issuer@).0,
        r == apply_register_issuer(old(ledger)@, caller@, issuer@).1,
        final(ledger)@.wf(),
{
    proof {
        lemma_apply_op_preserves_wf(
            old(ledger)@,
            Op::RegisterIssuer { caller: caller@, issuer: issuer@ },
        );
    }
    let taken = ledger.registry.take();
    let mut reg = match taken {
        None => {
            return Err(SolidKycError::RegistryNotInitialized);
        },
        Some(reg) => reg,
    };
    let ghost reg0 = old(ledger)@.registry->0;
    if !bytes32_eq(&reg.admin, &caller) {
        ledger.registry = Some(reg);
        return Err(SolidKycError::UnauthorizedAdmin);
    }
    let found = find_registry_slot(&reg.issuers, &issuer);
    proof {
        if found is Some {
            assert(reg0.issuers[found->0 as int] == issuer@);
        }
    }
    if found.is_some() {
        ledger.registry = Some(reg);
        return Err(SolidKycError::IssuerAlreadyRegistered);
    }
    if reg.issuers.len() >= ISSUER_REGISTRY_CAPACITY {
        ledger.registry = Some(reg);
        return Err(SolidKycError::RegistryFull);
    }
    reg.issuers.push(issuer);
    reg.count = reg.count + 1;
    ledger.registry = Some(reg);
    proof {
        let spec_r = apply_register_issuer(old(ledger)@, caller@, issuer@);
        assert(ledger@.registry->0.issuers =~= spec_r.0.registry->0.issuers);
        assert(ledger@ =~= spec_r.0);
    }
    Ok(())
}

/// Removes an issuer identity from the registry: admin-gated, absence
/// rejected with `IssuerNotRegistered`.
pub fn deregister_issuer(ledger: &mut Ledger, caller: [u8; 32], issuer: [u8; 32]) -> (r: Result<
    (),
    SolidKycError,
>)
    requires
        old(ledger)@.wf(),
    ensures
        final(ledger)@ == apply_deregister_issuer(old(ledger)@, caller@, issuer@).0,
        r == apply_deregister_issuer(old(ledger)@, caller@, issuer@).1,
        final(ledger)@.wf(),
{
    proof {
        lemma_apply_op_preserves_wf(
            old(ledger)@,
            Op::DeregisterIssuer { caller: caller@, issuer: issuer@ },
        );
    }
    let taken = ledger.registry.take();
    let mut reg = match taken {
        None => {
            return Err(SolidKycError::RegistryNotInitialized);
        },
        Some(reg) => reg,
    };
    let ghost reg0 = old(ledger)@.registry->0;
    if !bytes32_eq(&reg.admin, &caller) {
        ledger.registry = Some(reg);
        return Err(SolidKycError::UnauthorizedAdmin);
    }
    let found = find_registry_slot(&reg.issuers, &issuer);
    let i = match found {
        None => {
            ledger.registry = Some(reg);
            return Err(SolidKycError::IssuerNotRegistered);
        },
        Some(i) => i,
    };
    proof {
        assert(reg0.issuers[i as int] == issuer@);
        let at = choose|k: int| 0 <= k < reg0.issuers.len() && reg0.issuers[k] == issuer@;
        if at != i {
            assert(reg0.issuers[at] == reg0.issuers[i as int]);
            assert(false);
        }
    }
    reg.issuers.remove(i);
    reg.count = reg.count - 1;
    ledger.registry = Some(reg);
    proof {
        let spec_r = apply_deregister_issuer(old(ledger)@, caller@, issuer@);
        assert(ledger@.registry->0.issuers =~= spec_r.0.registry->0.issuers);
        assert(ledger@ =~= spec_r.0);
    }
    Ok(())
}

/// Creates the per-issuer identity record for the signing authority:
/// active, with a zeroed issuance counter and the creation-time clock
/// reading; rejects over-long names and an already existing record.
pub fn initialize_issuer(
    ledger: &mut Ledger,
    ctx: InitializeIssuer,
    name: String,
    zk_public_key_x: [u8; 32],
    zk_public_key_y: [u8; 32],
    now: i64,
) -> (r: Result<(), SolidKycError>)
    requires
        old(ledger)@.wf(),
    ensures
        final(ledger)@ == apply_initialize_issuer(
            old(ledger)@,
            ctx.authority@,
            name@,
            zk_public_key_x@,
            zk_public_key_y@,
            now as int,
        ).0,
        r == apply_initialize_issuer(
            old(ledger)@,
            ctx.authority@,
            name@,
            zk_public_key_x@,
            zk_public_key_y@,
            now as int,
        ).1,
        final(ledger)@.wf(),
{
    proof {
        lemma_apply_op_preserves_wf(
            old(ledger)@,
            Op::InitializeIssuer {
                authority: ctx.authority@,
                name: name@,
                zk_public_key_x: zk_public_key_x@,
                zk_public_key_y: zk_public_key_y@,
                now: now as int,
            },
        );
    }
    if name.as_str().unicode_len() > MAX_NAME_LEN {
        return Err(SolidKycError::NameTooLong);
    }
    let found = find_issuer(&ledger.issuers, &ctx.authority);
    match found {
        Some(i) => {
            proof {
                assert(old(ledger)@.issuers[i as int].authority == ctx.authority@);
            }
            return Err(SolidKycError::IssuerAlreadyRegistered);
        },
        None => {},
    }
    let derived = derive_address(&RecordKey::Issuer { authority: ctx.authority });
    ledger.issuers.push(IssuerAccount {
        authority: ctx.authority,
        zk_public_key_x,
        zk_public_key_y,
        name,
        is_active: true,
        registered_at: now,
        credentials_issued: 0,
        bump: derived.1,
    });
    proof {
        let spec_r = apply_initialize_issuer(
            old(ledger)@,
            ctx.authority@,
            name@,
            zk_public_key_x@,
            zk_public_key_y@,
            now as int,
        );
        assert(ledger@.issuers =~= spec_r.0.issuers);
        assert(ledger@ =~= spec_r.0);
    }
    Ok(())
}

/// Switches the caller's issuer record off; an already inactive record is
/// rejected, so the transition stays observable and auditable.
pub fn deactivate_issuer(ledger: &mut Ledger, ctx: DeactivateIssuer) -> (r: Result<
    (),
    SolidKycError,
>)
    requires
        old(ledger)@.wf(),
    ensures
        final(ledger)@ == apply_deactivate_issuer(old(ledger)@, ctx.authority@).0,
        r == apply_deactivate_issuer(old(ledger)@, ctx.authority@).1,
        final(ledger)@.wf(),
{
    proof {
        lemma_apply_op_preserves_wf(
            old(ledger)@,
            Op::DeactivateIssuer { authority: ctx.authority@ },
        );
    }
    let found = find_issuer(&ledger.issuers, &ctx.authority);
    let i = match found {
        None => {
            return Err(SolidKycError::IssuerNotRegistered);
        },
        Some(i) => i,
    };
    proof {
        assert(old(ledger)@.issuers[i as int].authority == ctx.authority@);
        lemma_issuer_slot(old(ledger)@, i as int);
    }
    if !ledger.issuers[i].is_active {
        return Err(SolidKycError::IssuerAlreadyInactive);
    }
    let mut rec = ledger.issuers.remove(i);
    rec.is_active = false;
    ledger.issuers.insert(i, rec);
    proof {
        let spec_r = apply_deactivate_issuer(old(ledger)@, ctx.authority@);
        assert forall|k: int| 0 <= k < ledger@.issuers.len() implies ledger@.issuers[k]
            == spec_r.0.issuers[k] by {
            if k < i as int {
            } else if k == i as int {
            } else {
            }
        }
        assert(ledger@.issuers =~= spec_r.0.issuers);
        assert(ledger@ =~= spec_r.0);
    }
    Ok(())
}

/// Switches the caller's issuer record back on; an already active record is
/// rejected, so the transition stays observable and auditable.
pub fn reactivate_issuer(ledger: &mut Ledger, ctx: ReactivateIssuer) -> (r: Result<
    (),
    SolidKycError,
>)
    requires
        old(ledger)@.wf(),
    ensures
        final(ledger)@ == apply_reactivate_issuer(old(ledger)@, ctx.authority@).0,
        r == apply_reactivate_issuer(old(ledger)@, ctx.authority@).1,
        final(ledger)@.wf(),
{
    proof {
        lemma_apply_op_preserves_wf(
            old(ledger)@,
            Op::ReactivateIssuer { authority: ctx.authority@ },
        );
    }
    let found = find_issuer(&ledger.issuers, &ctx.authority);
    let i = match found {
        None => {
            return Err(SolidKycError::IssuerNotRegistered);
        },
        Some(i) => i,
    };
    proof {
        assert(old(ledger)@.issuers[i as int].authority == ctx.authority@);
        lemma_issuer_slot(old(ledger)@, i as int);
    }
    if ledger.issuers[i].is_active {
        return Err(SolidKycError::IssuerAlreadyActive);
    }
    let mut rec = ledger.issuers.remove(i);
    rec.is_active = true;
    ledger.issuers.insert(i, rec);
    proof {
        let spec_r = apply_reactivate_issuer(old(ledger)@, ctx.authority@);
        assert forall|k: int| 0 <= k < ledger@.issuers.len() implies ledger@.issuers[k]
            == spec_r.0.issuers[k] by {
            if k < i as int {
            } else if k == i as int {
            } else {
            }
        }
        assert(ledger@.issuers =~= spec_r.0.issuers);
        assert(ledger@ =~= spec_r.0);
    }
    Ok(())
}

/// Binds a credential to a holder: the signing caller must own an active
/// issuer record, at most one credential can ever exist per (issuer,
/// holder) pair, and the validity window must start no later than the clock
/// reading and end after both. On success the record is created verbatim
/// from the inputs and the issuer's counter grows by one, atomically.
pub fn issue_credential(
    ledger: &mut Ledger,
    ctx: IssueCredential,
    credential_hash: [u8; 32],
    date_of_birth: i64,
    issued_at: i64,
    expires_at: i64,
    zk_signature_r8x: [u8; 32],
    zk_signature_r8y: [u8; 32],
    zk_signature_s: [u8; 32],
    now: i64,
) -> (r: Result<(), SolidKycError>)
    requires
        old(ledger)@.wf(),
        old(ledger)@.has_issuer(ctx.issuer_authority@) ==> old(ledger)@.issuer_at(
            ctx.issuer_authority@,
        ).credentials_issued < u64::MAX,
    ensures
        final(ledger)@ == apply_issue_credential(
            old(ledger)@,
            ctx.issuer_authority@,
            ctx.holder@,
            credential_hash@,
            date_of_birth as int,
            issued_at as int,
            expires_at as int,
            zk_signature_r8x@,
            zk_signature_r8y@,
            zk_signature_s@,
            now as int,
        ).0,
        r == apply_issue_credential(
            old(ledger)@,
            ctx.issuer_authority@,
            ctx.holder@,
            credential_hash@,
            date_of_birth as int,
            issued_at as int,
            expires_at as int,
            zk_signature_r8x@,
            zk_signature_r8y@,
            zk_signature_s@,
            now as int,
        ).1,
        final(ledger)@.wf(),
{
    proof {
        lemma_apply_op_preserves_wf(
            old(ledger)@,
            Op::IssueCredential {
                issuer_authority: ctx.issuer_authority@,
                holder: ctx.holder@,
                credential_hash: credential_hash@,
                date_of_birth: date_of_birth as int,
                issued_at: issued_at as int,
                expires_at: expires_at as int,
                zk_signature_r8x: zk_signature_r8x@,
                zk_signature_r8y: zk_signature_r8y@,
                zk_signature_s: zk_signature_s@,
                now: now as int,
            },
        );
    }
    let found = find_issuer(&ledger.issuers, &ctx.issuer_authority);
    let i = match found {
        None => {
            return Err(SolidKycError::IssuerNotRegistered);
        },
        Some(i) => i,
    };
    proof {
        assert(old(ledger)@.issuers[i as int].authority == ctx.issuer_authority@);
        lemma_issuer_slot(old(ledger)@, i as int);
    }
    if !ledger.issuers[i].is_active {
        return Err(SolidKycError::IssuerInactive);
    }
    let dup = find_credential(&ledger.credentials, &ctx.holder, &ctx.issuer_authority);
    match dup {
        Some(k) => {
            proof {
                assert(old(ledger)@.credentials[k as int].holder == ctx.holder@
                    && old(ledger)@.credentials[k as int].issuer == ctx.issuer_authority@);
            }
            return Err(SolidKycError::DuplicateCredential);
        },
        None => {},
    }
    if issued_at > now {
        return Err(SolidKycError::InvalidIssuedTimestamp);
    }
    if expires_at <= issued_at {
        return Err(SolidKycError::ExpiryBeforeIssuance);
    }
    if expires_at <= now {
        return Err(SolidKycError::InvalidExpiryTimestamp);
    }
    let derived = derive_address(&RecordKey::Credential {
        holder: ctx.holder,
        issuer: ctx.issuer_authority,
    });
    ledger.credentials.push(UserCredential {
        holder: ctx.holder,
        issuer: ctx.issuer_authority,
        credential_hash,
        date_of_birth,
        issued_at,
        expires_at,
        zk_signature_r8x,
        zk_signature_r8y,
        zk_signature_s,
        is_revoked: false,
        bump: derived.1,
    });
    let mut rec = ledger.issuers.remove(i);
    rec.credentials_issued = rec.credentials_issued + 1;
    ledger.issuers.insert(i, rec);
    proof {
        let spec_r = apply_issue_credential(
            old(ledger)@,
            ctx.issuer_authority@,
            ctx.holder@,
            credential_hash@,
            date_of_birth as int,
            issued_at as int,
            expires_at as int,
            zk_signature_r8x@,
            zk_signature_r8y@,
            zk_signature_s@,
            now as int,
        );
        assert forall|k: int| 0 <= k < ledger@.issuers.len() implies ledger@.issuers[k]
            == spec_r.0.issuers[k] by {
            if k < i as int {
            } else if k == i as int {
            } else {
            }
        }
        assert(ledger@.issuers =~= spec_r.0.issuers);
        assert(ledger@.credentials =~= spec_r.0.credentials);
        assert(ledger@ =~= spec_r.0);
    }
    Ok(())
}

/// Revokes the credential whose address the request's (holder, issuer) pair
/// derives: only the recorded issuer may revoke, revocation is terminal,
/// and a second revocation is rejected.
pub fn revoke_credential(ledger: &mut Ledger, ctx: RevokeCredential) -> (r: Result<
    (),
    SolidKycError,
>)
    requires
        old(ledger)@.wf(),
    ensures
        final(ledger)@ == apply_revoke_credential(
            old(ledger)@,
            ctx.issuer_authority@,
            ctx.holder@,
            ctx.issuer@,
        ).0,
        r == apply_revoke_credential(
            old(ledger)@,
            ctx.issuer_authority@,
            ctx.holder@,
            ctx.issuer@,
        ).1,
        final(ledger)@.wf(),
{
    proof {
        lemma_apply_op_preserves_wf(
            old(ledger)@,
            Op::RevokeCredential {
                caller: ctx.issuer_authority@,
                holder: ctx.holder@,
                issuer: ctx.issuer@,
            },
        );
    }
    let found = find_credential(&ledger.credentials, &ctx.holder, &ctx.issuer);
    let i = match found {
        None => {
            return Err(SolidKycError::InvalidRecordAddress);
        },
        Some(i) => i,
    };
    proof {
        assert(old(ledger)@.credentials[i as int].holder == ctx.holder@
            && old(ledger)@.credentials[i as int].issuer == ctx.issuer@);
        lemma_credential_slot(old(ledger)@, i as int);
    }
    if !bytes32_eq(&ctx.issuer_authority, &ctx.issuer) {
        return Err(SolidKycError::InvalidIssuer);
    }
    if ledger.credentials[i].is_revoked {
        return Err(SolidKycError::CredentialAlreadyRevoked);
    }
    let mut rec = ledger.credentials.remove(i);
    rec.is_revoked = true;
    ledger.credentials.insert(i, rec);
    proof {
        let spec_r = apply_revoke_credential(
            old(ledger)@,
            ctx.issuer_authority@,
            ctx.holder@,
            ctx.issuer@,
        );
        assert forall|k: int| 0 <= k < ledger@.credentials.len() implies ledger@.credentials[k]
            == spec_r.0.credentials[k] by {
            if k < i as int {
            } else if k == i as int {
            } else {
            }
        }
        assert(ledger@.credentials =~= spec_r.0.credentials);
        assert(ledger@ =~= spec_r.0);
    }
    Ok(())
}

/// Finds the slot of an identity in the registry's occupied slots.
fn find_registry_slot(slots: &Vec<[u8; 32]>, issuer: &[u8; 32]) -> (r: Option<usize>)
    ensures
        match r {
            Some(i) => i < slots@.len() && slots@[i as int]@ == issuer@,
            None => forall|j: int| 0 <= j < slots@.len() ==> slots@[j]@ != issuer@,
        },
{
    let mut i: usize = 0;
    while i < slots.len()
        invariant
            i <= slots@.len(),
            forall|j: int| 0 <= j < i ==> slots@[j]@ != issuer@,
        decreases slots@.len() - i,
    {
        if bytes32_eq(&slots[i], issuer) {
            return Some(i);
        }
        i = i + 1;
    }
    None
}

} // verus!
