//! Claiming tokens.

use dash_evo_tool::claim_tokens::{
    claim_result, is_tx_already_exists_in_cache_error, BalanceUpdate, ClaimFailure,
    ClaimResult, ClaimSigning, ClaimWait, RequestType, TokenDistributionType, TokenPlace,
};
use dash_evo_tool::context::AppContext;
use dash_evo_tool::document::{Document, Value};
use dash_evo_tool::identifier::Identifier;
use dash_evo_tool::identity::{
    Identity, IdentityPublicKey, Purpose, QualifiedIdentity, SecurityLevel,
};
use dash_evo_tool::payload::Payload;
use dash_evo_tool::result::{BackendTaskSuccessResult, FeeResult};
use dash_evo_tool::sdk::{
    BlockInfo, Error, RenderedError, StateTransitionBroadcastError, StateTransitionProofResult,
};

#[test]
fn classifies_tx_already_exists_in_cache_error() {
    let e = Error::AlreadyExists("tx already exists in cache".to_string());
    assert!(is_tx_already_exists_in_cache_error(&e));
}

#[test]
fn classifies_tx_already_exists_in_cache_error_case_insensitive() {
    let e = Error::AlreadyExists("Tx Already Exists In Cache".to_string());
    assert!(is_tx_already_exists_in_cache_error(&e));
}

#[test]
fn does_not_classify_other_already_exists_errors() {
    let e = Error::AlreadyExists("object already exists".to_string());
    assert!(!is_tx_already_exists_in_cache_error(&e));
}

#[test]
fn does_not_classify_non_already_exists_errors() {
    let e = Error::Generic("network timeout".to_string());
    assert!(!is_tx_already_exists_in_cache_error(&e));
}

fn refused(message: &str) -> Error {
    Error::StateTransitionBroadcastError(StateTransitionBroadcastError {
        message: message.to_string(),
    })
}

#[test]
fn cached_words_are_found_anywhere() {
    for message in [
        "tx already exists in cache: abc",
        "Broadcast failed: TX ALREADY EXISTS IN CACHE",
        "é tx Already exists in Cache ü",
    ] {
        assert!(is_tx_already_exists_in_cache_error(&refused(message)));
        assert!(is_tx_already_exists_in_cache_error(&Error::AlreadyExists(
            message.to_string()
        )));
    }
    for message in ["", "tx already exists", "tx  already exists in cache", "tx already exists in cach"] {
        assert!(!is_tx_already_exists_in_cache_error(&refused(message)));
    }
    assert!(!is_tx_already_exists_in_cache_error(&Error::Generic(
        "tx already exists in cache".to_string()
    )));
    assert!(!is_tx_already_exists_in_cache_error(&Error::Other));
}

fn context() -> AppContext {
    AppContext {
        state_transition_options: Some(Payload { handle: 5 }),
    }
}

fn id(byte: u8) -> Identifier {
    Identifier { bytes: [byte; 32] }
}

fn place() -> TokenPlace {
    TokenPlace {
        data_contract: Payload { handle: 2 },
        token_position: 3,
    }
}

fn rendered(error: Error, text: &str) -> RenderedError {
    RenderedError {
        error,
        text: text.to_string(),
    }
}

fn begin() -> ClaimSigning {
    let actor = QualifiedIdentity {
        identity: Identity::basic(id(8)),
        holdings: Payload { handle: 1 },
    };
    let key = IdentityPublicKey {
        id: 4,
        purpose: Purpose::AUTHENTICATION,
        security_level: SecurityLevel::CRITICAL,
        disabled_at: None,
        material: Payload { handle: 0 },
    };
    context().claim_tokens(
        Payload { handle: 2 },
        3,
        &actor,
        TokenDistributionType::Perpetual,
        key,
        Some("thanks".to_string()),
    )
}

#[test]
fn a_claim_names_its_transition() {
    let signing = begin();
    let t = signing.transition();
    assert_eq!(t.place, place());
    assert_eq!(t.owner_id, id(8));
    assert_eq!(t.distribution_type, TokenDistributionType::Perpetual);
    assert_eq!(t.signing_key_id, 4);
    assert_eq!(t.public_note.as_deref(), Some("thanks"));
    assert_eq!(t.options, Some(Payload { handle: 5 }));
}

fn waiting() -> ClaimWait<&'static str> {
    let waiting = begin()
        .resume(&context(), Ok("signed"))
        .ok()
        .unwrap()
        .resume(&context(), Ok(()))
        .ok()
        .unwrap();
    assert_eq!(*waiting.signed(), "signed");
    waiting
}

fn claim_doc(claimer: Value, amount: Value) -> Document {
    Document {
        owner_id: id(1),
        properties: vec![
            ("claimerId".to_string(), claimer),
            ("amount".to_string(), amount),
        ],
    }
}

fn good_doc() -> Document {
    claim_doc(Value::Identifier([9u8; 32]), Value::U64(55))
}

fn update() -> Option<BalanceUpdate> {
    Some(BalanceUpdate {
        token_id: id(7),
        identity_id: id(9),
        amount: 55,
    })
}

#[test]
fn a_claim_updates_the_balance() {
    for proof in [
        StateTransitionProofResult::VerifiedTokenActionWithDocument(good_doc()),
        StateTransitionProofResult::VerifiedTokenGroupActionWithDocument(3, Some(good_doc())),
    ] {
        let lookup = waiting().resume(&context(), Ok(proof)).ok().unwrap();
        assert_eq!(lookup.place(), place());
        let claimed = lookup.resume(Some(id(7)));
        assert_eq!(*claimed.update(), update());
        assert_eq!(claimed.batch_size(), 1);
        assert_eq!(
            claimed.resume(100),
            BackendTaskSuccessResult::ClaimedTokens(FeeResult::new(100, 100))
        );
    }
}

#[test]
fn a_claim_without_token_or_amount_updates_no_balance() {
    let cases = [
        (None, good_doc()),
        (Some(id(7)), claim_doc(Value::Bytes(vec![9; 32]), Value::U64(55))),
        (Some(id(7)), claim_doc(Value::Identifier([9; 32]), Value::U32(55))),
    ];
    for (token_id, document) in cases {
        let proof = StateTransitionProofResult::VerifiedTokenActionWithDocument(document);
        let lookup = waiting().resume(&context(), Ok(proof)).ok().unwrap();
        let claimed = lookup.resume(token_id);
        assert_eq!(*claimed.update(), None);
        assert!(matches!(claimed.resume(9), BackendTaskSuccessResult::ClaimedTokens(_)));
    }
}

fn failed<T>(r: Result<T, ClaimFailure>) -> ClaimFailure {
    match r {
        Ok(_) => panic!("the claim fails"),
        Err(failure) => failure,
    }
}

#[test]
fn proofs_without_document_fail() {
    let failure = failed(waiting().resume(
        &context(),
        Ok(StateTransitionProofResult::VerifiedTokenGroupActionWithDocument(1, None)),
    ));
    assert_eq!(
        failure.message,
        "Error broadcasting ClaimTokens transition: Expected document in group action result"
    );
    assert!(failure.log.is_none());
    let failure = failed(waiting().resume(&context(), Ok(StateTransitionProofResult::Other)));
    assert_eq!(
        failure.message,
        "Error broadcasting ClaimTokens transition: Expected VerifiedTokenActionWithDocument or VerifiedTokenGroupActionWithDocument for claim transition"
    );
    assert!(matches!(
        claim_result(StateTransitionProofResult::VerifiedTokenGroupActionWithDocument(2, Some(good_doc()))),
        Ok(ClaimResult::GroupActionWithDocument(2, d)) if d == good_doc()
    ));
}

#[test]
fn a_known_transition_is_waited_for() {
    let broadcast = begin().resume(&context(), Ok("signed")).ok().unwrap();
    let known = rendered(refused("tx already exists in cache"), "refused");
    assert!(broadcast.resume(&context(), Err(known)).is_ok());
    let broadcast = begin().resume(&context(), Ok("signed")).ok().unwrap();
    let failure = failed(broadcast.resume(&context(), Err(rendered(refused("bad nonce"), "bad nonce!"))));
    assert_eq!(
        failure.message,
        "Error broadcasting ClaimTokens transition: bad nonce!"
    );
    assert!(failure.log.is_none());
}

#[test]
fn a_proof_that_does_not_hold_is_logged() {
    let error = || {
        rendered(
            Error::DriveProofError(
                "root hash".to_string(),
                vec![1, 2],
                BlockInfo {
                    height: 10,
                    time_ms: 20,
                },
            ),
            "not shown",
        )
    };
    let failures = [
        failed(begin().resume::<()>(&context(), Err(error()))),
        failed(waiting().resume(&context(), Err(error()))),
        context().map_claim_broadcast_error_for_ui(error()),
    ];
    for failure in failures {
        assert_eq!(
            failure.message,
            "Error broadcasting ClaimTokens transition: root hash, proof error logged"
        );
        let item = failure.log.unwrap();
        assert_eq!(item.request_type, RequestType::BroadcastStateTransition);
        assert!(item.request_bytes.is_empty());
        assert!(item.verification_path_query_bytes.is_empty());
        assert_eq!((item.height, item.time_ms), (10, 20));
        assert_eq!(item.proof_bytes, vec![1, 2]);
        assert_eq!(item.error.as_deref(), Some("root hash"));
    }
}
