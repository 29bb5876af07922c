use solidkyc::{
    deactivate_issuer, deregister_issuer, derive_address, initialize, initialize_issuer,
    initialize_issuer_registry, issue_credential, reactivate_issuer, register_issuer,
    revoke_credential, DeactivateIssuer, ErrorKind, InitializeIssuer, IssueCredential, Ledger,
    ReactivateIssuer, RecordKey, RevokeCredential, SolidKycError,
};

fn id(n: u8) -> [u8; 32] {
    let mut a = [0u8; 32];
    a[0] = n;
    a
}

fn new_issuer(ledger: &mut Ledger, authority: [u8; 32], now: i64) {
    initialize_issuer(
        ledger,
        InitializeIssuer { authority },
        String::from("Acme Attestations"),
        id(201),
        id(202),
        now,
    )
    .unwrap();
}

fn issue_basic(
    ledger: &mut Ledger,
    issuer: [u8; 32],
    holder: [u8; 32],
    issued_at: i64,
    expires_at: i64,
    now: i64,
) -> Result<(), SolidKycError> {
    issue_credential(
        ledger,
        IssueCredential {
            issuer_authority: issuer,
            holder,
        },
        id(77),
        631152000,
        issued_at,
        expires_at,
        id(101),
        id(102),
        id(103),
        now,
    )
}

#[test]
fn initialize_succeeds_once_then_already_initialized() {
    let mut l = Ledger::new();
    assert_eq!(initialize(&mut l, id(1)), Ok(()));
    assert_eq!(
        initialize(&mut l, id(1)),
        Err(SolidKycError::AlreadyInitialized)
    );
    assert_eq!(
        initialize(&mut l, id(2)),
        Err(SolidKycError::AlreadyInitialized)
    );
    let cfg = l.config.as_ref().unwrap();
    assert_eq!(cfg.admin, id(1));
    assert_eq!(cfg.version, 1);
}

#[test]
fn unregistered_issuer_cannot_issue() {
    let mut l = Ledger::new();
    initialize(&mut l, id(1)).unwrap();
    let r = issue_basic(&mut l, id(5), id(6), 1000, 2000, 1000);
    assert_eq!(r, Err(SolidKycError::IssuerNotRegistered));
    assert_eq!(l.credentials.len(), 0);
}

#[test]
fn issued_at_in_future_rejected_boundary_accepted() {
    let mut l = Ledger::new();
    initialize(&mut l, id(1)).unwrap();
    new_issuer(&mut l, id(5), 900);
    assert_eq!(
        issue_basic(&mut l, id(5), id(6), 1001, 2000, 1000),
        Err(SolidKycError::InvalidIssuedTimestamp)
    );
    assert_eq!(l.credentials.len(), 0);
    assert_eq!(issue_basic(&mut l, id(5), id(6), 1000, 2000, 1000), Ok(()));
    assert_eq!(l.credentials.len(), 1);
}

#[test]
fn expiry_before_issuance_rejected() {
    let mut l = Ledger::new();
    initialize(&mut l, id(1)).unwrap();
    new_issuer(&mut l, id(5), 900);
    assert_eq!(
        issue_basic(&mut l, id(5), id(6), 1000, 1000, 1500),
        Err(SolidKycError::ExpiryBeforeIssuance)
    );
    assert_eq!(
        issue_basic(&mut l, id(5), id(6), 1000, 900, 1500),
        Err(SolidKycError::ExpiryBeforeIssuance)
    );
    assert_eq!(l.credentials.len(), 0);
}

#[test]
fn expiry_not_in_future_rejected() {
    let mut l = Ledger::new();
    initialize(&mut l, id(1)).unwrap();
    new_issuer(&mut l, id(5), 900);
    assert_eq!(
        issue_basic(&mut l, id(5), id(6), 1000, 1200, 1500),
        Err(SolidKycError::InvalidExpiryTimestamp)
    );
    assert_eq!(l.credentials.len(), 0);
}

#[test]
fn duplicate_issuance_rejected_whatever_the_second_arguments() {
    let mut l = Ledger::new();
    initialize(&mut l, id(1)).unwrap();
    new_issuer(&mut l, id(5), 900);
    assert_eq!(issue_basic(&mut l, id(5), id(6), 1000, 2000, 1000), Ok(()));
    assert_eq!(
        issue_basic(&mut l, id(5), id(6), 1600, 1700, 1650),
        Err(SolidKycError::DuplicateCredential)
    );
    // Arguments that would be rejected on their own still draw the
    // duplicate error first.
    assert_eq!(
        issue_basic(&mut l, id(5), id(6), 5000, 4000, 1000),
        Err(SolidKycError::DuplicateCredential)
    );
    assert_eq!(l.credentials.len(), 1);
    // A different holder with the same issuer is a fresh pair.
    assert_eq!(issue_basic(&mut l, id(5), id(7), 1000, 2000, 1000), Ok(()));
    assert_eq!(l.credentials.len(), 2);
}

#[test]
fn credential_lifecycle_issue_revoke_then_already_revoked() {
    let mut l = Ledger::new();
    initialize(&mut l, id(1)).unwrap();
    new_issuer(&mut l, id(5), 900);
    assert_eq!(issue_basic(&mut l, id(5), id(6), 1000, 2000, 1000), Ok(()));
    let cred = &l.credentials[0];
    assert!(!cred.is_revoked);
    assert_eq!(cred.holder, id(6));
    assert_eq!(cred.issuer, id(5));
    assert_eq!(cred.issued_at, 1000);
    assert_eq!(cred.expires_at, 2000);
    assert_eq!(l.issuers[0].credentials_issued, 1);

    let ctx = RevokeCredential {
        issuer_authority: id(5),
        holder: id(6),
        issuer: id(5),
    };
    assert_eq!(revoke_credential(&mut l, ctx), Ok(()));
    assert!(l.credentials[0].is_revoked);
    assert_eq!(
        revoke_credential(&mut l, ctx),
        Err(SolidKycError::CredentialAlreadyRevoked)
    );
    assert!(l.credentials[0].is_revoked);
}

#[test]
fn inactive_issuer_cannot_issue() {
    let mut l = Ledger::new();
    initialize(&mut l, id(1)).unwrap();
    new_issuer(&mut l, id(5), 900);
    deactivate_issuer(&mut l, DeactivateIssuer { authority: id(5) }).unwrap();
    let r = issue_basic(&mut l, id(5), id(8), 1000, 2000, 1000);
    assert_eq!(r, Err(SolidKycError::IssuerInactive));
    assert_eq!(r.unwrap_err().kind(), ErrorKind::Authorization);
    assert_eq!(l.credentials.len(), 0);
}

#[test]
fn only_the_recorded_issuer_can_revoke() {
    let mut l = Ledger::new();
    initialize(&mut l, id(1)).unwrap();
    new_issuer(&mut l, id(5), 900);
    issue_basic(&mut l, id(5), id(6), 1000, 2000, 1000).unwrap();
    let r = revoke_credential(
        &mut l,
        RevokeCredential {
            issuer_authority: id(9),
            holder: id(6),
            issuer: id(5),
        },
    );
    assert_eq!(r, Err(SolidKycError::InvalidIssuer));
    assert_eq!(r.unwrap_err().kind(), ErrorKind::Authorization);
    assert!(!l.credentials[0].is_revoked);
}

#[test]
fn revoking_an_unknown_credential_is_an_address_error() {
    let mut l = Ledger::new();
    initialize(&mut l, id(1)).unwrap();
    new_issuer(&mut l, id(5), 900);
    let r = revoke_credential(
        &mut l,
        RevokeCredential {
            issuer_authority: id(5),
            holder: id(6),
            issuer: id(5),
        },
    );
    assert_eq!(r, Err(SolidKycError::InvalidRecordAddress));
}

#[test]
fn issuer_activity_toggles_are_explicit_and_rejected_when_noop() {
    let mut l = Ledger::new();
    initialize(&mut l, id(1)).unwrap();
    new_issuer(&mut l, id(5), 900);
    assert!(l.issuers[0].is_active);
    assert_eq!(
        reactivate_issuer(&mut l, ReactivateIssuer { authority: id(5) }),
        Err(SolidKycError::IssuerAlreadyActive)
    );
    assert_eq!(
        deactivate_issuer(&mut l, DeactivateIssuer { authority: id(5) }),
        Ok(())
    );
    assert!(!l.issuers[0].is_active);
    assert_eq!(
        deactivate_issuer(&mut l, DeactivateIssuer { authority: id(5) }),
        Err(SolidKycError::IssuerAlreadyInactive)
    );
    assert_eq!(
        reactivate_issuer(&mut l, ReactivateIssuer { authority: id(5) }),
        Ok(())
    );
    assert!(l.issuers[0].is_active);
    assert_eq!(
        deactivate_issuer(&mut l, DeactivateIssuer { authority: id(9) }),
        Err(SolidKycError::IssuerNotRegistered)
    );
}

#[test]
fn issuer_record_creation_validates_name_and_uniqueness() {
    let mut l = Ledger::new();
    initialize(&mut l, id(1)).unwrap();
    let long_name: String = "x".repeat(51);
    assert_eq!(
        initialize_issuer(
            &mut l,
            InitializeIssuer { authority: id(5) },
            long_name,
            id(201),
            id(202),
            900
        ),
        Err(SolidKycError::NameTooLong)
    );
    let max_name: String = "x".repeat(50);
    assert_eq!(
        initialize_issuer(
            &mut l,
            InitializeIssuer { authority: id(5) },
            max_name,
            id(201),
            id(202),
            900
        ),
        Ok(())
    );
    assert_eq!(
        initialize_issuer(
            &mut l,
            InitializeIssuer { authority: id(5) },
            String::from("again"),
            id(201),
            id(202),
            901
        ),
        Err(SolidKycError::IssuerAlreadyRegistered)
    );
    let issuer = &l.issuers[0];
    assert_eq!(issuer.authority, id(5));
    assert!(issuer.is_active);
    assert_eq!(issuer.registered_at, 900);
    assert_eq!(issuer.credentials_issued, 0);
    assert_eq!(issuer.zk_public_key_x, id(201));
    assert_eq!(issuer.zk_public_key_y, id(202));
}

#[test]
fn registry_is_admin_gated_and_created_once() {
    let mut l = Ledger::new();
    assert_eq!(
        initialize_issuer_registry(&mut l, id(1)),
        Err(SolidKycError::UnauthorizedAdmin)
    );
    initialize(&mut l, id(1)).unwrap();
    assert_eq!(
        initialize_issuer_registry(&mut l, id(2)),
        Err(SolidKycError::UnauthorizedAdmin)
    );
    assert_eq!(initialize_issuer_registry(&mut l, id(1)), Ok(()));
    assert_eq!(
        initialize_issuer_registry(&mut l, id(1)),
        Err(SolidKycError::AlreadyInitialized)
    );
    let reg = l.registry.as_ref().unwrap();
    assert_eq!(reg.admin, id(1));
    assert_eq!(reg.count, 0);
}

#[test]
fn registry_membership_rejects_duplicates_and_honours_capacity() {
    let mut l = Ledger::new();
    assert_eq!(
        register_issuer(&mut l, id(1), id(5)),
        Err(SolidKycError::RegistryNotInitialized)
    );
    initialize(&mut l, id(1)).unwrap();
    initialize_issuer_registry(&mut l, id(1)).unwrap();
    assert_eq!(
        register_issuer(&mut l, id(2), id(5)),
        Err(SolidKycError::UnauthorizedAdmin)
    );
    assert_eq!(register_issuer(&mut l, id(1), id(5)), Ok(()));
    assert_eq!(
        register_issuer(&mut l, id(1), id(5)),
        Err(SolidKycError::IssuerAlreadyRegistered)
    );
    // Fill the remaining 31 slots, then one more must be refused.
    for n in 0..31u8 {
        let mut issuer = [9u8; 32];
        issuer[1] = n;
        assert_eq!(register_issuer(&mut l, id(1), issuer), Ok(()));
    }
    assert_eq!(l.registry.as_ref().unwrap().count, 32);
    assert_eq!(
        register_issuer(&mut l, id(1), id(13)),
        Err(SolidKycError::RegistryFull)
    );
}

#[test]
fn registry_deregistration_frees_the_slot() {
    let mut l = Ledger::new();
    initialize(&mut l, id(1)).unwrap();
    initialize_issuer_registry(&mut l, id(1)).unwrap();
    register_issuer(&mut l, id(1), id(5)).unwrap();
    register_issuer(&mut l, id(1), id(6)).unwrap();
    assert_eq!(
        deregister_issuer(&mut l, id(2), id(5)),
        Err(SolidKycError::UnauthorizedAdmin)
    );
    assert_eq!(deregister_issuer(&mut l, id(1), id(5)), Ok(()));
    assert_eq!(
        deregister_issuer(&mut l, id(1), id(5)),
        Err(SolidKycError::IssuerNotRegistered)
    );
    let reg = l.registry.as_ref().unwrap();
    assert_eq!(reg.count, 1);
    assert_eq!(reg.issuers[0], id(6));
    assert_eq!(register_issuer(&mut l, id(1), id(5)), Ok(()));
}

#[test]
fn full_scenario_issue_then_revoke_then_revoke_again() {
    let mut l = Ledger::new();
    initialize(&mut l, id(1)).unwrap();
    new_issuer(&mut l, id(5), 900);
    assert!(l.issuers[0].is_active);
    assert_eq!(issue_basic(&mut l, id(5), id(6), 1000, 2000, 1000), Ok(()));
    assert!(!l.credentials[0].is_revoked);
    let ctx = RevokeCredential {
        issuer_authority: id(5),
        holder: id(6),
        issuer: id(5),
    };
    // now = 1500: the revocation succeeds.
    assert_eq!(revoke_credential(&mut l, ctx), Ok(()));
    assert!(l.credentials[0].is_revoked);
    // now = 1600: a second revocation is rejected.
    assert_eq!(
        revoke_credential(&mut l, ctx),
        Err(SolidKycError::CredentialAlreadyRevoked)
    );
}

#[test]
fn counters_and_windows_are_stored_verbatim() {
    let mut l = Ledger::new();
    initialize(&mut l, id(1)).unwrap();
    new_issuer(&mut l, id(5), 900);
    issue_basic(&mut l, id(5), id(6), 1000, 2000, 1000).unwrap();
    issue_basic(&mut l, id(5), id(7), 1100, 2100, 1200).unwrap();
    assert_eq!(l.issuers[0].credentials_issued, 2);
    let c = &l.credentials[1];
    assert_eq!(c.credential_hash, id(77));
    assert_eq!(c.date_of_birth, 631152000);
    assert_eq!(c.zk_signature_r8x, id(101));
    assert_eq!(c.zk_signature_r8y, id(102));
    assert_eq!(c.zk_signature_s, id(103));
    assert!(!c.is_expired(2100));
    assert!(c.is_expired(2101));
    // The stored bumps are the ones the deriver yields for each record's key.
    let issuer_bump = derive_address(&RecordKey::Issuer { authority: id(5) }).1;
    assert_eq!(l.issuers[0].bump, issuer_bump);
    let cred_bump = derive_address(&RecordKey::Credential {
        holder: id(7),
        issuer: id(5),
    })
    .1;
    assert_eq!(c.bump, cred_bump);
}

#[test]
fn error_kinds_follow_the_taxonomy() {
    assert_eq!(
        SolidKycError::UnauthorizedAdmin.kind(),
        ErrorKind::Authorization
    );
    assert_eq!(
        SolidKycError::IssuerNotRegistered.kind(),
        ErrorKind::Authorization
    );
    assert_eq!(
        SolidKycError::AlreadyInitialized.kind(),
        ErrorKind::StateConflict
    );
    assert_eq!(
        SolidKycError::DuplicateCredential.kind(),
        ErrorKind::StateConflict
    );
    assert_eq!(
        SolidKycError::CredentialAlreadyRevoked.kind(),
        ErrorKind::StateConflict
    );
    assert_eq!(
        SolidKycError::ExpiryBeforeIssuance.kind(),
        ErrorKind::Validation
    );
    assert_eq!(SolidKycError::NameTooLong.kind(), ErrorKind::Validation);
    assert_eq!(SolidKycError::RegistryFull.kind(), ErrorKind::Validation);
}
