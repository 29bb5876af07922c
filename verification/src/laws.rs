//! The laws of the ledger, proved once and for all states: creation
//! exclusivity, trust gating, validity-window boundaries, duplicate
//! rejection, and the one-way nature of revocation.

use vstd::prelude::*;

use crate::errors::SolidKycError;
use crate::model::{
    apply_initialize, apply_issue_credential, apply_op, apply_revoke_credential,
    lemma_apply_op_preserves_wf, lemma_credential_slot, lemma_issuer_slot, LedgerView, Op,
};

verus! {

/// The configuration is created exactly once: where none exists, creation
/// succeeds; afterwards a second attempt fails with `AlreadyInitialized`
/// whatever administrator it names, and changes nothing.
pub proof fn lemma_initialize_exactly_once(l: LedgerView, admin: Seq<u8>, admin2: Seq<u8>)
    requires
        l.wf(),
        l.config is None,
    ensures
        apply_initialize(l, admin).1 == Ok::<(), SolidKycError>(()),
        apply_initialize(apply_initialize(l, admin).0, admin2).1 == Err::<(), SolidKycError>(
            SolidKycError::AlreadyInitialized,
        ),
        apply_initialize(apply_initialize(l, admin).0, admin2).0 == apply_initialize(l, admin).0,
{
}

/// An issuer outside the trust set cannot issue: with no identity record the
/// request fails with `IssuerNotRegistered`, with an inactive record it
/// fails with `IssuerInactive`, and no credential record is created.
pub proof fn lemma_untrusted_issuer_cannot_issue(
    l: LedgerView,
    issuer_authority: Seq<u8>,
    holder: Seq<u8>,
    credential_hash: Seq<u8>,
    date_of_birth: int,
    issued_at: int,
    expires_at: int,
    zk_signature_r8x: Seq<u8>,
    zk_signature_r8y: Seq<u8>,
    zk_signature_s: Seq<u8>,
    now: int,
)
    requires
        l.wf(),
        !(l.has_issuer(issuer_authority) && l.issuer_at(issuer_authority).is_active),
    ensures
        apply_issue_credential(
            l,
            issuer_authority,
            holder,
            credential_hash,
            date_of_birth,
            issued_at,
            expires_at,
            zk_signature_r8x,
            zk_signature_r8y,
            zk_signature_s,
            now,
        ).0 == l,
        !l.has_issuer(issuer_authority) ==> apply_issue_credential(
            l,
            issuer_authority,
            holder,
            credential_hash,
            date_of_birth,
            issued_at,
            expires_at,
            zk_signature_r8x,
            zk_signature_r8y,
            zk_signature_s,
            now,
        ).1 == Err::<(), SolidKycError>(SolidKycError::IssuerNotRegistered),
        l.has_issuer(issuer_authority) && !l.issuer_at(issuer_authority).is_active
            ==> apply_issue_credential(
            l,
            issuer_authority,
            holder,
            credential_hash,
            date_of_birth,
            issued_at,
            expires_at,
            zk_signature_r8x,
            zk_signature_r8y,
            zk_signature_s,
            now,
        ).1 == Err::<(), SolidKycError>(SolidKycError::IssuerInactive),
{
}

/// A validity window starting after the clock reading is rejected with
/// `InvalidIssuedTimestamp`; the boundary window starting exactly at the
/// clock reading is accepted.
pub proof fn lemma_issued_at_boundary(
    l: LedgerView,
    issuer_authority: Seq<u8>,
    holder: Seq<u8>,
    credential_hash: Seq<u8>,
    date_of_birth: int,
    issued_at: int,
    expires_at: int,
    zk_signature_r8x: Seq<u8>,
    zk_signature_r8y: Seq<u8>,
    zk_signature_s: Seq<u8>,
    now: int,
)
    requires
        l.wf(),
        l.has_issuer(issuer_authority),
        l.issuer_at(issuer_authority).is_active,
        !l.has_credential(holder, issuer_authority),
    ensures
        issued_at > now ==> apply_issue_credential(
            l,
            issuer_authority,
            holder,
            credential_hash,
            date_of_birth,
            issued_at,
            expires_at,
            zk_signature_r8x,
            zk_signature_r8y,
            zk_signature_s,
            now,
        ) == (l, Err::<(), SolidKycError>(SolidKycError::InvalidIssuedTimestamp)),
        issued_at == now && expires_at > issued_at ==> apply_issue_credential(
            l,
            issuer_authority,
            holder,
            credential_hash,
            date_of_birth,
            issued_at,
            expires_at,
            zk_signature_r8x,
            zk_signature_r8y,
            zk_signature_s,
            now,
        ).1 == Ok::<(), SolidKycError>(()),
{
}

/// A validity window that ends no later than it starts is rejected with
/// `ExpiryBeforeIssuance`. The window's start must not lie in the future,
/// for that is rejected first as `InvalidIssuedTimestamp`.
pub proof fn lemma_expiry_before_issuance_rejected(
    l: LedgerView,
    issuer_authority: Seq<u8>,
    holder: Seq<u8>,
    credential_hash: Seq<u8>,
    date_of_birth: int,
    issued_at: int,
    expires_at: int,
    zk_signature_r8x: Seq<u8>,
    zk_signature_r8y: Seq<u8>,
    zk_signature_s: Seq<u8>,
    now: int,
)
    requires
        l.wf(),
        l.has_issuer(issuer_authority),
        l.issuer_at(issuer_authority).is_active,
        !l.has_credential(holder, issuer_authority),
        issued_at <= now,
        expires_at <= issued_at,
    ensures
        apply_issue_credential(
            l,
            issuer_authority,
            holder,
            credential_hash,
            date_of_birth,
            issued_at,
            expires_at,
            zk_signature_r8x,
            zk_signature_r8y,
            zk_signature_s,
            now,
        ) == (l, Err::<(), SolidKycError>(SolidKycError::ExpiryBeforeIssuance)),
{
}

/// Issuance is exclusive per (issuer, holder) pair: after one success,
/// a second issuance for the same pair fails with `DuplicateCredential` and
/// changes nothing, whatever its arguments and clock reading.
pub proof fn lemma_duplicate_issuance_rejected(
    l: LedgerView,
    issuer_authority: Seq<u8>,
    holder: Seq<u8>,
    credential_hash: Seq<u8>,
    date_of_birth: int,
    issued_at: int,
    expires_at: int,
    zk_signature_r8x: Seq<u8>,
    zk_signature_r8y: Seq<u8>,
    zk_signature_s: Seq<u8>,
    now: int,
    credential_hash2: Seq<u8>,
    date_of_birth2: int,
    issued_at2: int,
    expires_at2: int,
    zk_signature_r8x2: Seq<u8>,
    zk_signature_r8y2: Seq<u8>,
    zk_signature_s2: Seq<u8>,
    now2: int,
)
    requires
        l.wf(),
        issuer_authority.len() == 32,
        holder.len() == 32,
        credential_hash.len() == 32,
        zk_signature_r8x.len() == 32,
        zk_signature_r8y.len() == 32,
        zk_signature_s.len() == 32,
        apply_issue_credential(
            l,
            issuer_authority,
            holder,
            credential_hash,
            date_of_birth,
            issued_at,
            expires_at,
            zk_signature_r8x,
            zk_signature_r8y,
            zk_signature_s,
            now,
        ).1 == Ok::<(), SolidKycError>(()),
    ensures
        ({
            let l2 = apply_issue_credential(
                l,
                issuer_authority,
                holder,
                credential_hash,
                date_of_birth,
                issued_at,
                expires_at,
                zk_signature_r8x,
                zk_signature_r8y,
                zk_signature_s,
                now,
            ).0;
            apply_issue_credential(
                l2,
                issuer_authority,
                holder,
                credential_hash2,
                date_of_birth2,
                issued_at2,
                expires_at2,
                zk_signature_r8x2,
                zk_signature_r8y2,
                zk_signature_s2,
                now2,
            ) == (l2, Err::<(), SolidKycError>(SolidKycError::DuplicateCredential))
        }),
{
    let op = Op::IssueCredential {
        issuer_authority,
        holder,
        credential_hash,
        date_of_birth,
        issued_at,
        expires_at,
        zk_signature_r8x,
        zk_signature_r8y,
        zk_signature_s,
        now,
    };
    lemma_apply_op_preserves_wf(l, op);
    let l2 = apply_issue_credential(
        l,
        issuer_authority,
        holder,
        credential_hash,
        date_of_birth,
        issued_at,
        expires_at,
        zk_signature_r8x,
        zk_signature_r8y,
        zk_signature_s,
        now,
    ).0;
    let at = l.issuer_index(issuer_authority);
    assert(l2.issuers[at].authority == issuer_authority);
    lemma_issuer_slot(l2, at);
    let last = l.credentials.len() as int;
    assert(l2.credentials[last].holder == holder && l2.credentials[last].issuer
        == issuer_authority);
    assert(l2.has_credential(holder, issuer_authority));
}

/// Revocation is monotonic: once a revocation succeeds, every further
/// revocation of the same record fails — for the recorded issuer with
/// `CredentialAlreadyRevoked` — and changes nothing.
pub proof fn lemma_revocation_monotonic(
    l: LedgerView,
    caller: Seq<u8>,
    holder: Seq<u8>,
    issuer: Seq<u8>,
    caller2: Seq<u8>,
)
    requires
        l.wf(),
        caller.len() == 32,
        holder.len() == 32,
        issuer.len() == 32,
        apply_revoke_credential(l, caller, holder, issuer).1 == Ok::<(), SolidKycError>(()),
    ensures
        ({
            let l2 = apply_revoke_credential(l, caller, holder, issuer).0;
            apply_revoke_credential(l2, caller2, holder, issuer).1 is Err
                && apply_revoke_credential(l2, caller2, holder, issuer).0 == l2 && (caller2
                == issuer ==> apply_revoke_credential(l2, caller2, holder, issuer).1
                == Err::<(), SolidKycError>(SolidKycError::CredentialAlreadyRevoked))
        }),
{
    let op = Op::RevokeCredential { caller, holder, issuer };
    lemma_apply_op_preserves_wf(l, op);
    let l2 = apply_revoke_credential(l, caller, holder, issuer).0;
    let at = l.credential_index(holder, issuer);
    assert(l2.credentials[at].holder == holder && l2.credentials[at].issuer == issuer);
    assert(l2.credentials[at].is_revoked);
    lemma_credential_slot(l2, at);
}

/// No operation reverts a revocation: a revoked credential stays present and
/// revoked under every operation the system offers.
pub proof fn lemma_revoked_is_terminal(l: LedgerView, op: Op, holder: Seq<u8>, issuer: Seq<u8>)
    requires
        l.wf(),
        op.wf(),
        l.has_credential(holder, issuer),
        l.credential_at(holder, issuer).is_revoked,
    ensures
        apply_op(l, op).0.has_credential(holder, issuer),
        apply_op(l, op).0.credential_at(holder, issuer).is_revoked,
{
    lemma_apply_op_preserves_wf(l, op);
    let l2 = apply_op(l, op).0;
    let at = l.credential_index(holder, issuer);
    assert(0 <= at < l.credentials.len() && l.credentials[at].holder == holder
        && l.credentials[at].issuer == issuer);
    match op {
        Op::IssueCredential {
            issuer_authority,
            holder: holder2,
            credential_hash,
            date_of_birth,
            issued_at,
            expires_at,
            zk_signature_r8x,
            zk_signature_r8y,
            zk_signature_s,
            now,
        } => {
            if apply_op(l, op).1 is Ok {
                assert(l2.credentials[at] == l.credentials[at]);
                lemma_credential_slot(l2, at);
            } else {
                assert(l2 == l);
            }
        },
        Op::RevokeCredential { caller, holder: holder2, issuer: issuer2 } => {
            if apply_op(l, op).1 is Ok {
                let at2 = l.credential_index(holder2, issuer2);
                assert(0 <= at2 < l.credentials.len() && l.credentials[at2].holder == holder2
                    && l.credentials[at2].issuer == issuer2);
                if at2 == at {
                    assert(l.credentials[at].is_revoked);
                    assert(false);
                }
                assert(l2.credentials[at] == l.credentials[at]);
                lemma_credential_slot(l2, at);
            } else {
                assert(l2 == l);
            }
        },
        _ => {
            assert(l2.credentials == l.credentials);
            assert(l2.credentials[at] == l.credentials[at]);
            lemma_credential_slot(l2, at);
        },
    }
}

/// The administrator is immutable: once the configuration exists, no
/// operation changes it.
pub proof fn lemma_admin_immutable(l: LedgerView, op: Op)
    requires
        l.wf(),
        op.wf(),
        l.config is Some,
    ensures
        apply_op(l, op).0.config == l.config,
{
}

/// Whether this operation is an explicit activity toggle of this authority's
/// issuer record.
pub open spec fn toggles_activity_of(op: Op, authority: Seq<u8>) -> bool {
    match op {
        Op::DeactivateIssuer { authority: a } => a == authority,
        Op::ReactivateIssuer { authority: a } => a == authority,
        _ => false,
    }
}

/// An issuer's activity flag changes only through its own explicit
/// deactivation and reactivation operations, never as a side effect of
/// anything else.
pub proof fn lemma_activity_toggles_only_explicitly(l: LedgerView, op: Op, authority: Seq<u8>)
    requires
        l.wf(),
        op.wf(),
        l.has_issuer(authority),
        !toggles_activity_of(op, authority),
    ensures
        apply_op(l, op).0.has_issuer(authority),
        apply_op(l, op).0.issuer_at(authority).is_active == l.issuer_at(authority).is_active,
{
    lemma_apply_op_preserves_wf(l, op);
    let l2 = apply_op(l, op).0;
    let at = l.issuer_index(authority);
    assert(0 <= at < l.issuers.len() && l.issuers[at].authority == authority);
    lemma_issuer_slot(l, at);
    match op {
        Op::InitializeIssuer { authority: a2, name, zk_public_key_x, zk_public_key_y, now } => {
            if apply_op(l, op).1 is Ok {
                assert(l2.issuers[at] == l.issuers[at]);
                lemma_issuer_slot(l2, at);
            } else {
                assert(l2 == l);
            }
        },
        Op::DeactivateIssuer { authority: a2 } => {
            if apply_op(l, op).1 is Ok {
                let at2 = l.issuer_index(a2);
                assert(0 <= at2 < l.issuers.len() && l.issuers[at2].authority == a2);
                assert(at2 != at);
                assert(l2.issuers[at] == l.issuers[at]);
                lemma_issuer_slot(l2, at);
            } else {
                assert(l2 == l);
            }
        },
        Op::ReactivateIssuer { authority: a2 } => {
            if apply_op(l, op).1 is Ok {
                let at2 = l.issuer_index(a2);
                assert(0 <= at2 < l.issuers.len() && l.issuers[at2].authority == a2);
                assert(at2 != at);
                assert(l2.issuers[at] == l.issuers[at]);
                lemma_issuer_slot(l2, at);
            } else {
                assert(l2 == l);
            }
        },
        Op::IssueCredential {
            issuer_authority,
            holder,
            credential_hash,
            date_of_birth,
            issued_at,
            expires_at,
            zk_signature_r8x,
            zk_signature_r8y,
            zk_signature_s,
            now,
        } => {
            if apply_op(l, op).1 is Ok {
                assert(l2.issuers[at].authority == authority && l2.issuers[at].is_active
                    == l.issuers[at].is_active);
                lemma_issuer_slot(l2, at);
            } else {
                assert(l2 == l);
            }
        },
        _ => {
            assert(l2.issuers == l.issuers);
            assert(l2.issuers[at] == l.issuers[at]);
            lemma_issuer_slot(l2, at);
        },
    }
}

/// An issuer's issuance counter never decreases, whatever operation runs.
pub proof fn lemma_counter_monotonic(l: LedgerView, op: Op, authority: Seq<u8>)
    requires
        l.wf(),
        op.wf(),
        l.has_issuer(authority),
    ensures
        apply_op(l, op).0.has_issuer(authority),
        apply_op(l, op).0.issuer_at(authority).credentials_issued >= l.issuer_at(
            authority,
        ).credentials_issued,
{
    lemma_apply_op_preserves_wf(l, op);
    let l2 = apply_op(l, op).0;
    let at = l.issuer_index(authority);
    assert(0 <= at < l.issuers.len() && l.issuers[at].authority == authority);
    lemma_issuer_slot(l, at);
    match op {
        Op::InitializeIssuer { authority: a2, name, zk_public_key_x, zk_public_key_y, now } => {
            if apply_op(l, op).1 is Ok {
                assert(l2.issuers[at] == l.issuers[at]);
                lemma_issuer_slot(l2, at);
            } else {
                assert(l2 == l);
            }
        },
        Op::DeactivateIssuer { authority: a2 } => {
            if apply_op(l, op).1 is Ok {
                assert(l2.issuers[at].authority == authority && l2.issuers[
                    at
                ].credentials_issued == l.issuers[at].credentials_issued);
                lemma_issuer_slot(l2, at);
            } else {
                assert(l2 == l);
            }
        },
        Op::ReactivateIssuer { authority: a2 } => {
            if apply_op(l, op).1 is Ok {
                assert(l2.issuers[at].authority == authority && l2.issuers[
                    at
                ].credentials_issued == l.issuers[at].credentials_issued);
                lemma_issuer_slot(l2, at);
            } else {
                assert(l2 == l);
            }
        },
        Op::IssueCredential {
            issuer_authority,
            holder,
            credential_hash,
            date_of_birth,
            issued_at,
            expires_at,
            zk_signature_r8x,
            zk_signature_r8y,
            zk_signature_s,
            now,
        } => {
            if apply_op(l, op).1 is Ok {
                assert(l2.issuers[at].authority == authority && l2.issuers[
                    at
                ].credentials_issued >= l.issuers[at].credentials_issued);
                lemma_issuer_slot(l2, at);
            } else {
                assert(l2 == l);
            }
        },
        _ => {
            assert(l2.issuers == l.issuers);
            assert(l2.issuers[at] == l.issuers[at]);
            lemma_issuer_slot(l2, at);
        },
    }
}

} // verus!

