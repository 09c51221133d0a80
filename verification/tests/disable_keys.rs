//! Disabling keys of an identity.

use dash_evo_tool::context::AppContext;
use dash_evo_tool::disable_keys::{
    purpose_label, security_level_label, validate_keys_can_be_disabled, IdentityStore,
    TransitionBroadcast,
};
use dash_evo_tool::error::TaskError;
use dash_evo_tool::identifier::Identifier;
use dash_evo_tool::identity::{
    Identity, IdentityPublicKey, KeyID, Purpose, QualifiedIdentity, SecurityLevel,
};
use dash_evo_tool::payload::Payload;
use dash_evo_tool::result::{BackendTaskSuccessResult, FeeResult};
use dash_evo_tool::sdk::{Error, PartialIdentity, RenderedError, StateTransitionProofResult};

fn make_key(
    id: KeyID,
    purpose: Purpose,
    level: SecurityLevel,
    disabled: bool,
) -> IdentityPublicKey {
    IdentityPublicKey {
        id,
        purpose,
        security_level: level,
        disabled_at: if disabled { Some(1) } else { None },
        material: Payload { handle: 300 + id as u64 },
    }
}

fn make_identity(keys: Vec<IdentityPublicKey>) -> Identity {
    let mut identity = Identity::basic(Identifier { bytes: [0u8; 32] });
    for key in keys {
        identity.add_public_key(key);
    }
    identity
}

#[test]
fn empty_key_set_rejected() {
    let identity = make_identity(vec![make_key(
        0,
        Purpose::AUTHENTICATION,
        SecurityLevel::MASTER,
        false,
    )]);
    let err = validate_keys_can_be_disabled(&identity, &[]).unwrap_err();
    assert!(matches!(err, TaskError::NoKeysToDisable));
}

#[test]
fn unknown_key_id_rejected() {
    let identity = make_identity(vec![make_key(
        0,
        Purpose::AUTHENTICATION,
        SecurityLevel::MASTER,
        false,
    )]);
    let err = validate_keys_can_be_disabled(&identity, &[42]).unwrap_err();
    assert!(matches!(
        err,
        TaskError::KeyNotFoundOnIdentity { key_id: 42 }
    ));
}

#[test]
fn already_disabled_key_rejected() {
    let identity = make_identity(vec![
        make_key(0, Purpose::AUTHENTICATION, SecurityLevel::MASTER, false),
        make_key(1, Purpose::AUTHENTICATION, SecurityLevel::HIGH, true),
    ]);
    let err = validate_keys_can_be_disabled(&identity, &[1]).unwrap_err();
    assert!(matches!(err, TaskError::KeyAlreadyDisabled { key_id: 1 }));
}

#[test]
fn master_key_cannot_be_disabled() {
    let identity = make_identity(vec![make_key(
        0,
        Purpose::AUTHENTICATION,
        SecurityLevel::MASTER,
        false,
    )]);
    let err = validate_keys_can_be_disabled(&identity, &[0]).unwrap_err();
    assert!(matches!(
        err,
        TaskError::CannotDisableMasterKey { key_id: 0 }
    ));
}

#[test]
fn rejects_disabling_only_authentication_key_at_level() {
    // One CRITICAL auth key, one HIGH auth key, master. Disabling the HIGH auth key
    // would leave no enabled HIGH-level authentication key.
    let identity = make_identity(vec![
        make_key(0, Purpose::AUTHENTICATION, SecurityLevel::MASTER, false),
        make_key(1, Purpose::AUTHENTICATION, SecurityLevel::CRITICAL, false),
        make_key(2, Purpose::AUTHENTICATION, SecurityLevel::HIGH, false),
    ]);
    let err = validate_keys_can_be_disabled(&identity, &[2]).unwrap_err();
    assert!(matches!(
        err,
        TaskError::WouldLeaveNoKeyAtPurposeLevel {
            key_id: 2,
            purpose: "Authentication",
            security_level: "High",
        }
    ));
}

#[test]
fn allows_disabling_when_other_auth_key_at_same_level_remains() {
    let identity = make_identity(vec![
        make_key(0, Purpose::AUTHENTICATION, SecurityLevel::MASTER, false),
        make_key(1, Purpose::AUTHENTICATION, SecurityLevel::CRITICAL, false),
        make_key(2, Purpose::AUTHENTICATION, SecurityLevel::HIGH, false),
        make_key(3, Purpose::AUTHENTICATION, SecurityLevel::HIGH, false),
    ]);
    validate_keys_can_be_disabled(&identity, &[2]).expect("should be allowed");
}

#[test]
fn rejects_batch_that_drains_a_level_even_if_other_remains_in_batch() {
    // Both HIGH auth keys are in the disable batch — none remain enabled at HIGH.
    let identity = make_identity(vec![
        make_key(0, Purpose::AUTHENTICATION, SecurityLevel::MASTER, false),
        make_key(1, Purpose::AUTHENTICATION, SecurityLevel::CRITICAL, false),
        make_key(2, Purpose::AUTHENTICATION, SecurityLevel::HIGH, false),
        make_key(3, Purpose::AUTHENTICATION, SecurityLevel::HIGH, false),
    ]);
    let err = validate_keys_can_be_disabled(&identity, &[2, 3]).unwrap_err();
    assert!(matches!(
        err,
        TaskError::WouldLeaveNoKeyAtPurposeLevel { .. }
    ));
}

#[test]
fn rejects_disabling_only_transfer_key() {
    // The bricking-protection rule applies to all non-master purposes — disabling
    // the only TRANSFER key would leave the identity unable to withdraw or transfer.
    let identity = make_identity(vec![
        make_key(0, Purpose::AUTHENTICATION, SecurityLevel::MASTER, false),
        make_key(1, Purpose::AUTHENTICATION, SecurityLevel::CRITICAL, false),
        make_key(2, Purpose::TRANSFER, SecurityLevel::CRITICAL, false),
    ]);
    let err = validate_keys_can_be_disabled(&identity, &[2]).unwrap_err();
    assert!(matches!(
        err,
        TaskError::WouldLeaveNoKeyAtPurposeLevel {
            key_id: 2,
            purpose: "Transfer",
            ..
        }
    ));
}

#[test]
fn allows_disabling_transfer_key_with_replacement() {
    let identity = make_identity(vec![
        make_key(0, Purpose::AUTHENTICATION, SecurityLevel::MASTER, false),
        make_key(1, Purpose::AUTHENTICATION, SecurityLevel::CRITICAL, false),
        make_key(2, Purpose::TRANSFER, SecurityLevel::CRITICAL, false),
        make_key(3, Purpose::TRANSFER, SecurityLevel::CRITICAL, false),
    ]);
    validate_keys_can_be_disabled(&identity, &[2])
        .expect("transfer key should be disable-able when a replacement exists");
}

#[test]
fn master_check_wins_over_no_replacement_check() {
    // The master key has no replacement at MASTER level — confirm the validator
    // returns CannotDisableMasterKey rather than the bricking variant.
    let identity = make_identity(vec![
        make_key(0, Purpose::AUTHENTICATION, SecurityLevel::MASTER, false),
        make_key(1, Purpose::AUTHENTICATION, SecurityLevel::CRITICAL, false),
    ]);
    let err = validate_keys_can_be_disabled(&identity, &[0]).unwrap_err();
    assert!(matches!(
        err,
        TaskError::CannotDisableMasterKey { key_id: 0 }
    ));
}

#[test]
fn batch_with_unknown_id_reports_not_found() {
    // The validator iterates in order. With a valid+replaceable id followed by an
    // unknown id, the unknown id should surface as KeyNotFoundOnIdentity.
    let identity = make_identity(vec![
        make_key(0, Purpose::AUTHENTICATION, SecurityLevel::MASTER, false),
        make_key(1, Purpose::AUTHENTICATION, SecurityLevel::CRITICAL, false),
        make_key(2, Purpose::AUTHENTICATION, SecurityLevel::CRITICAL, false),
    ]);
    let err = validate_keys_can_be_disabled(&identity, &[1, 99]).unwrap_err();
    assert!(matches!(
        err,
        TaskError::KeyNotFoundOnIdentity { key_id: 99 }
    ));
}

#[test]
fn batch_with_master_and_non_master_rejects_master() {
    // Mixed batch: the master id is processed in order; once reached the master
    // check should fire regardless of the other entries.
    let identity = make_identity(vec![
        make_key(0, Purpose::AUTHENTICATION, SecurityLevel::MASTER, false),
        make_key(1, Purpose::AUTHENTICATION, SecurityLevel::CRITICAL, false),
        make_key(2, Purpose::AUTHENTICATION, SecurityLevel::CRITICAL, false),
    ]);
    let err = validate_keys_can_be_disabled(&identity, &[1, 0]).unwrap_err();
    assert!(matches!(
        err,
        TaskError::CannotDisableMasterKey { key_id: 0 }
    ));
}

#[test]
fn labels_are_stable() {
    assert_eq!(security_level_label(SecurityLevel::MASTER), "Master");
    assert_eq!(security_level_label(SecurityLevel::CRITICAL), "Critical");
    assert_eq!(security_level_label(SecurityLevel::HIGH), "High");
    assert_eq!(security_level_label(SecurityLevel::MEDIUM), "Medium");
    assert_eq!(purpose_label(Purpose::AUTHENTICATION), "Authentication");
    assert_eq!(purpose_label(Purpose::ENCRYPTION), "Encryption");
    assert_eq!(purpose_label(Purpose::DECRYPTION), "Decryption");
    assert_eq!(purpose_label(Purpose::TRANSFER), "Transfer");
    assert_eq!(purpose_label(Purpose::SYSTEM), "System");
    assert_eq!(purpose_label(Purpose::VOTING), "Voting");
    assert_eq!(purpose_label(Purpose::OWNER), "Owner");
}

/// A master key, and three keys for one role.
fn spare_identity() -> Identity {
    make_identity(vec![
        make_key(0, Purpose::AUTHENTICATION, SecurityLevel::MASTER, false),
        make_key(1, Purpose::AUTHENTICATION, SecurityLevel::HIGH, false),
        make_key(2, Purpose::AUTHENTICATION, SecurityLevel::HIGH, false),
        make_key(3, Purpose::AUTHENTICATION, SecurityLevel::HIGH, false),
    ])
}

#[test]
fn order_and_repetition_do_not_matter() {
    let identity = spare_identity();
    for batch in [&[1, 2][..], &[2, 1], &[1, 2, 1], &[2, 2, 1, 1]] {
        assert!(validate_keys_can_be_disabled(&identity, batch).is_ok());
    }
    for batch in [&[1, 2, 3][..], &[3, 1, 2], &[3, 3, 2, 1]] {
        assert!(validate_keys_can_be_disabled(&identity, batch).is_err());
    }
}

#[test]
fn parts_of_a_batch_can_be_disabled() {
    let identity = spare_identity();
    for part in [&[1][..], &[2], &[1, 2]] {
        assert!(validate_keys_can_be_disabled(&identity, part).is_ok());
    }
}

#[test]
fn a_disabled_batch_is_refused_and_leaves_its_role_served() {
    let mut identity = spare_identity();
    assert!(validate_keys_can_be_disabled(&identity, &[1, 2]).is_ok());
    identity.add_public_keys(&vec![
        make_key(1, Purpose::AUTHENTICATION, SecurityLevel::HIGH, true),
        make_key(2, Purpose::AUTHENTICATION, SecurityLevel::HIGH, true),
    ]);
    assert!(matches!(
        validate_keys_can_be_disabled(&identity, &[1, 2]),
        Err(TaskError::KeyAlreadyDisabled { key_id: 1 })
    ));
    assert!(identity
        .public_keys
        .values()
        .any(|k| k.security_level == SecurityLevel::HIGH && !k.is_disabled()));
    assert!(!identity.public_keys[&0].is_disabled());
    // The last key of the role has to stay.
    assert!(matches!(
        validate_keys_can_be_disabled(&identity, &[3]),
        Err(TaskError::WouldLeaveNoKeyAtPurposeLevel { key_id: 3, .. })
    ));
}

fn context() -> AppContext {
    AppContext {
        state_transition_options: None,
    }
}

fn qualified(identity: Identity) -> QualifiedIdentity {
    QualifiedIdentity {
        identity,
        holdings: Payload { handle: 77 },
    }
}

fn sdk_error(text: &str) -> RenderedError {
    RenderedError {
        error: Error::Generic(text.to_string()),
        text: text.to_string(),
    }
}

#[test]
fn disabling_needs_keys() {
    assert!(matches!(
        context().disable_identity_keys(qualified(spare_identity()), vec![]),
        Err(TaskError::NoKeysToDisable)
    ));
}

/// Runs a batch up to the broadcast. The platform has the identity with one credit less.
fn up_to_broadcast(key_ids: Vec<KeyID>) -> Result<TransitionBroadcast<&'static str>, TaskError> {
    let mut known = spare_identity();
    known.balance = 500;
    let mut current = spare_identity();
    current.balance = 499;
    current.revision = 8;
    let fetch = context().disable_identity_keys(qualified(known), key_ids)?;
    assert_eq!(fetch.identity_id(), Identifier { bytes: [0u8; 32] });
    let lookup = fetch.resume(Ok(Some(current)))?;
    assert_eq!(lookup.qualified_identity().identity.balance, 499);
    let build = lookup
        .resume(Some(0))?
        .resume(Ok(12), 30)?;
    let update = build.update();
    assert_eq!(update.master_key_id, 0);
    assert_eq!(update.nonce, 12);
    assert!(update.add_public_keys.is_empty());
    assert_eq!(update.user_fee_increase, 0);
    assert_eq!(update.qualified_identity.identity.revision, 9);
    assert_eq!(update.qualified_identity.identity.balance, 499);
    assert_eq!(update.qualified_identity.holdings, Payload { handle: 77 });
    let broadcast = build.resume(Ok("transition"))?;
    assert_eq!(*broadcast.transition(), "transition");
    Ok(broadcast)
}

fn disabled(key_ids: &[KeyID], balance: Option<u64>) -> StateTransitionProofResult {
    StateTransitionProofResult::VerifiedPartialIdentity(PartialIdentity {
        balance,
        loaded_public_keys: key_ids
            .iter()
            .map(|id| {
                make_key(*id, Purpose::AUTHENTICATION, SecurityLevel::HIGH, true)
            })
            .collect(),
    })
}

#[test]
fn a_proved_batch_is_disabled_and_paid_for() {
    let store = up_to_broadcast(vec![1, 2])
        .ok()
        .unwrap()
        .resume(Ok(disabled(&[1, 2], Some(450))))
        .ok()
        .unwrap();
    assert_eq!(store.fee_result(), FeeResult::new(30, 49));
    let Ok(BackendTaskSuccessResult::DisabledIdentityKeys {
        identity,
        disabled_key_ids,
        fee_result,
    }) = store.resume(Ok(()))
    else {
        panic!("the keys are disabled")
    };
    assert_eq!(disabled_key_ids, vec![1, 2]);
    assert_eq!(fee_result.estimated_fee, 30);
    assert_eq!(fee_result.actual_fee, 49);
    assert_eq!(identity.identity.balance, 450);
    assert_eq!(identity.holdings, Payload { handle: 77 });
    let state: Vec<bool> = identity
        .identity
        .public_keys
        .values()
        .map(|k| k.is_disabled())
        .collect();
    assert_eq!(state, vec![false, true, true, false]);
    assert_eq!(identity.identity.public_keys[&2].material, Payload { handle: 302 });
}

#[test]
fn a_balance_that_grew_costs_nothing() {
    let store = up_to_broadcast(vec![1])
        .ok()
        .unwrap()
        .resume(Ok(disabled(&[1], Some(600))))
        .ok()
        .unwrap();
    assert_eq!(store.fee_result(), FeeResult::new(30, 0));
    assert_eq!(store.qualified_identity().identity.balance, 600);
}

#[test]
fn a_proof_without_balance_costs_the_estimate() {
    let store = up_to_broadcast(vec![1])
        .ok()
        .unwrap()
        .resume(Ok(disabled(&[1], None)))
        .ok()
        .unwrap();
    assert_eq!(store.fee_result(), FeeResult::new(30, 30));
    assert_eq!(store.qualified_identity().identity.balance, 499);
    assert!(store.qualified_identity().identity.public_keys[&1].is_disabled());
}

#[test]
fn another_proof_changes_no_key() {
    let store: IdentityStore = up_to_broadcast(vec![1])
        .ok()
        .unwrap()
        .resume(Ok(StateTransitionProofResult::Other))
        .ok()
        .unwrap();
    assert_eq!(store.fee_result(), FeeResult::new(30, 30));
    assert_eq!(store.qualified_identity().identity.balance, 499);
    assert!(!store.qualified_identity().identity.public_keys[&1].is_disabled());
}

#[test]
fn every_step_of_disabling_may_fail() {
    let fetch = || {
        context()
            .disable_identity_keys(qualified(spare_identity()), vec![1])
            .ok()
            .unwrap()
    };
    assert!(matches!(
        fetch().resume(Ok(None)),
        Err(TaskError::IdentityNotFoundOnPlatform)
    ));
    assert!(matches!(
        fetch().resume(Err(sdk_error("down"))),
        Err(TaskError::Sdk { source_error }) if source_error.text == "down"
    ));
    // The batch is checked against the identity as the platform has it.
    let current = make_identity(vec![make_key(
        1,
        Purpose::AUTHENTICATION,
        SecurityLevel::HIGH,
        true,
    )]);
    assert!(matches!(
        fetch().resume(Ok(Some(current))),
        Err(TaskError::KeyAlreadyDisabled { key_id: 1 })
    ));
    let lookup = || fetch().resume(Ok(Some(spare_identity()))).ok().unwrap();
    assert!(matches!(
        lookup().resume(None),
        Err(TaskError::MasterKeyNotFound)
    ));
    let nonce = || lookup().resume(Some(0)).ok().unwrap();
    assert!(matches!(
        nonce().resume(Err(sdk_error("no nonce")), 30),
        Err(TaskError::Sdk { source_error }) if source_error.text == "no nonce"
    ));
    let build = || nonce().resume(Ok(1), 30).ok().unwrap();
    assert!(matches!(
        build().resume::<()>(Err(sdk_error("bad transition"))),
        Err(TaskError::IdentityUpdateTransitionError { source_error })
            if source_error.text == "bad transition"
    ));
    let broadcast = || build().resume(Ok(())).ok().unwrap();
    assert!(matches!(
        broadcast().resume(Err(sdk_error("refused"))),
        Err(TaskError::Sdk { source_error }) if source_error.text == "refused"
    ));
    let store = broadcast().resume(Ok(disabled(&[1], None))).ok().unwrap();
    assert!(matches!(
        store.resume(Err("disk full".to_string())),
        Err(TaskError::Database { source }) if source == "disk full"
    ));
}
