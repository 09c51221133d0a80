//! Claiming tokens.

use vstd::prelude::*;
use vstd::string::*;

use crate::context::AppContext;
use crate::document::{property, Document, Value};
use crate::identifier::Identifier;
use crate::identity::{IdentityPublicKey, KeyID, QualifiedIdentity};
use crate::payload::Payload;
use crate::result::{BackendTaskSuccessResult, FeeResult};
use crate::sdk::{
    BlockInfo, Error, PartialIdentity, RenderedError, StateTransitionBroadcastError,
    StateTransitionProofResult,
};
use crate::text::{
    ascii_lowercase, contains_run, has_run, law_lowered_folds_capitals_only, lowered, run_at,
};

verus! {

/// What a logged proof was meant to prove.
#[derive(Clone, Copy, Debug, PartialEq, Eq, Structural)]
pub enum RequestType {
    BroadcastStateTransition,
}

/// A proof that did not hold.
#[derive(Clone, Debug, PartialEq, Eq)]
pub struct ProofLogItem {
    pub request_type: RequestType,
    pub request_bytes: Vec<u8>,
    pub verification_path_query_bytes: Vec<u8>,
    pub height: u64,
    pub time_ms: u64,
    pub proof_bytes: Vec<u8>,
    pub error: Option<String>,
}

/// What the proof of a claim shows.
pub enum ClaimResult {
    Document(Document),
    /// The power of a group action, and its document.
    GroupActionWithDocument(u32, Document),
}

/// Why a claim failed, and the proof to log if one did not hold.
pub struct ClaimFailure {
    pub message: String,
    pub log: Option<ProofLogItem>,
}

/// A balance that a claim changed.
#[derive(Clone, Copy, Debug, PartialEq, Eq)]
pub struct BalanceUpdate {
    pub token_id: Identifier,
    pub identity_id: Identifier,
    pub amount: u64,
}

/// What the errors of a broadcast say where the transition is already known.
pub open spec fn cached_text() -> Seq<char> {
    "tx already exists in cache"@
}

/// Whether an error says that the transition is already known, whatever the case of its letters.
pub open spec fn already_cached(e: Error) -> bool {
    match e {
        Error::AlreadyExists(message) => has_run(lowered(message@), cached_text()),
        Error::StateTransitionBroadcastError(refused) => has_run(
            lowered(refused.message@),
            cached_text(),
        ),
        _ => false,
    }
}

/// Whether an error of a broadcast says that the transition is already known.
pub fn is_tx_already_exists_in_cache_error(e: &Error) -> (r: bool)
    ensures
        r == already_cached(*e),
{
    match e {
        Error::AlreadyExists(message) => contains_run(
            &ascii_lowercase(message.as_str()),
            "tx already exists in cache",
        ),
        Error::StateTransitionBroadcastError(refused) => contains_run(
            &ascii_lowercase(refused.message.as_str()),
            "tx already exists in cache",
        ),
        _ => false,
    }
}

/// Whether a failure is what an error of a claim comes to: its text, and the proof in the log
/// where one did not hold.
pub open spec fn claim_failed(failure: ClaimFailure, e: RenderedError) -> bool {
    match e.error {
        Error::DriveProofError(text, bytes, block) => {
            &&& failure.message@ == "Error broadcasting ClaimTokens transition: "@ + text@
                + ", proof error logged"@
            &&& failure.log matches Some(item)
            &&& item.request_type == RequestType::BroadcastStateTransition
            &&& item.request_bytes@.len() == 0
            &&& item.verification_path_query_bytes@.len() == 0
            &&& item.height == block.height
            &&& item.time_ms == block.time_ms
            &&& item.proof_bytes == bytes
            &&& item.error matches Some(error)
            &&& error@ == text@
        },
        _ => {
            &&& failure.message@ == "Error broadcasting ClaimTokens transition: "@ + e.text@
            &&& failure.log is None
        },
    }
}

impl AppContext {
    /// What an error of a claim comes to.
    pub fn map_claim_broadcast_error_for_ui(&self, e: RenderedError) -> (r: ClaimFailure)
        ensures
            claim_failed(r, e),
    {
        match e.error {
            Error::DriveProofError(proof_error, proof_bytes, block_info) => {
                let message = "Error broadcasting ClaimTokens transition: ".to_owned().concat(
                    proof_error.as_str(),
                ).concat(", proof error logged");
                let log = ProofLogItem {
                    request_type: RequestType::BroadcastStateTransition,
                    request_bytes: Vec::new(),
                    verification_path_query_bytes: Vec::new(),
                    height: block_info.height,
                    time_ms: block_info.time_ms,
                    proof_bytes,
                    error: Some(proof_error),
                };
                ClaimFailure { message, log: Some(log) }
            },
            _ => ClaimFailure {
                message: "Error broadcasting ClaimTokens transition: ".to_owned().concat(
                    e.text.as_str(),
                ),
                log: None,
            },
        }
    }
}

/// Where a token stands: the contract that it belongs to, and its position there.
#[derive(Clone, Copy, Debug, PartialEq, Eq)]
pub struct TokenPlace {
    pub data_contract: Payload,
    pub token_position: u16,
}

/// What kind of distribution tokens are claimed from.
#[derive(Clone, Copy, Debug, PartialEq, Eq, Structural)]
pub enum TokenDistributionType {
    PreProgrammed,
    Perpetual,
}

/// The transition of a claim.
pub struct ClaimTransition {
    pub place: TokenPlace,
    /// Who claims.
    pub owner_id: Identifier,
    pub distribution_type: TokenDistributionType,
    /// The key that the transition is signed with.
    pub signing_key_id: KeyID,
    /// Set on the transition where there is one.
    pub public_note: Option<String>,
    /// Set on the transition where there are some.
    pub options: Option<Payload>,
}

/// A claim that waits for its transition to be signed.
pub struct ClaimSigning {
    transition: ClaimTransition,
}

/// A claim whose signed transition waits to be broadcast.
pub struct ClaimBroadcast<S> {
    signed: S,
    place: TokenPlace,
}

/// A claim that waits for the proof of its transition.
pub struct ClaimWait<S> {
    signed: S,
    place: TokenPlace,
}

/// A claim that came through, and waits for the identifier of its token.
pub struct TokenLookup {
    place: TokenPlace,
    document: Document,
}

/// A claim that waits for the estimate of its fee. The balance is to be stored first, if there is
/// one; a failure to do so changes nothing.
pub struct Claimed {
    update: Option<BalanceUpdate>,
}

impl View for ClaimSigning {
    type V = ClaimTransition;

    closed spec fn view(&self) -> ClaimTransition {
        self.transition
    }
}

impl<S> View for ClaimBroadcast<S> {
    type V = (S, TokenPlace);

    closed spec fn view(&self) -> (S, TokenPlace) {
        (self.signed, self.place)
    }
}

impl<S> View for ClaimWait<S> {
    type V = (S, TokenPlace);

    closed spec fn view(&self) -> (S, TokenPlace) {
        (self.signed, self.place)
    }
}

impl View for TokenLookup {
    type V = (TokenPlace, Document);

    closed spec fn view(&self) -> (TokenPlace, Document) {
        (self.place, self.document)
    }
}

impl View for Claimed {
    type V = Option<BalanceUpdate>;

    closed spec fn view(&self) -> Option<BalanceUpdate> {
        self.update
    }
}

impl AppContext {
    /// Begins to claim the tokens at a position of a contract for an identity.
    pub fn claim_tokens(
        &self,
        data_contract: Payload,
        token_position: u16,
        actor_identity: &QualifiedIdentity,
        distribution_type: TokenDistributionType,
        signing_key: IdentityPublicKey,
        public_note: Option<String>,
    ) -> (r: ClaimSigning)
        ensures
            r@ == (ClaimTransition {
                place: TokenPlace { data_contract, token_position },
                owner_id: actor_identity.identity.id,
                distribution_type,
                signing_key_id: signing_key.id,
                public_note,
                options: self.state_transition_options,
            }),
    {
        let transition = ClaimTransition {
            place: TokenPlace { data_contract, token_position },
            owner_id: actor_identity.identity.id,
            distribution_type,
            signing_key_id: signing_key.id,
            public_note,
            options: self.state_transition_options,
        };
        ClaimSigning { transition }
    }
}

impl ClaimSigning {
    /// The transition to sign.
    pub fn transition(&self) -> (r: &ClaimTransition)
        ensures
            *r == self@,
    {
        &self.transition
    }

    /// Goes on once the transition was signed, or could not be.
    pub fn resume<S>(self, context: &AppContext, signed: Result<S, RenderedError>) -> (r: Result<
        ClaimBroadcast<S>,
        ClaimFailure,
    >)
        ensures
            match signed {
                Ok(signed) => r matches Ok(next) && next@ == (signed, self@.place),
                Err(e) => r matches Err(failure) && claim_failed(failure, e),
            },
    {
        match signed {
            Ok(signed) => Ok(ClaimBroadcast { signed, place: self.transition.place }),
            Err(e) => Err(context.map_claim_broadcast_error_for_ui(e)),
        }
    }
}

impl<S> ClaimBroadcast<S> {
    /// The transition to broadcast.
    pub fn signed(&self) -> (r: &S)
        ensures
            *r == self@.0,
    {
        &self.signed
    }

    /// Goes on once the transition was broadcast, or could not be. A transition that is already
    /// known is waited for all the same.
    pub fn resume(self, context: &AppContext, broadcast: Result<(), RenderedError>) -> (r: Result<
        ClaimWait<S>,
        ClaimFailure,
    >)
        ensures
            match broadcast {
                Ok(()) => r matches Ok(next) && next@ == self@,
                Err(e) => if already_cached(e.error) {
                    r matches Ok(next) && next@ == self@
                } else {
                    r matches Err(failure) && claim_failed(failure, e)
                },
            },
    {
        match broadcast {
            Ok(()) => Ok(ClaimWait { signed: self.signed, place: self.place }),
            Err(e) => if is_tx_already_exists_in_cache_error(&e.error) {
                Ok(ClaimWait { signed: self.signed, place: self.place })
            } else {
                Err(context.map_claim_broadcast_error_for_ui(e))
            },
        }
    }
}

/// The document of a claim, where its proof shows one.
pub open spec fn claim_document(proof_result: StateTransitionProofResult) -> Option<Document> {
    match proof_result {
        StateTransitionProofResult::VerifiedTokenActionWithDocument(document) => Some(document),
        StateTransitionProofResult::VerifiedTokenGroupActionWithDocument(
            _,
            Some(document),
        ) => Some(document),
        _ => None,
    }
}

/// What is said of a proof that shows no document.
pub open spec fn no_document_text(proof_result: StateTransitionProofResult) -> Seq<char> {
    match proof_result {
        StateTransitionProofResult::VerifiedTokenGroupActionWithDocument(
            _,
            None,
        ) => "Error broadcasting ClaimTokens transition: Expected document in group action result"@,
        _ => "Error broadcasting ClaimTokens transition: Expected VerifiedTokenActionWithDocument or VerifiedTokenGroupActionWithDocument for claim transition"@,
    }
}

/// The result of a claim, by the proof of its transition.
pub fn claim_result(proof_result: StateTransitionProofResult) -> (r: Result<ClaimResult, String>)
    ensures
        match proof_result {
            StateTransitionProofResult::VerifiedTokenActionWithDocument(document) => r == Ok::<
                _,
                String,
            >(ClaimResult::Document(document)),
            StateTransitionProofResult::VerifiedTokenGroupActionWithDocument(
                power,
                Some(document),
            ) => r == Ok::<_, String>(ClaimResult::GroupActionWithDocument(power, document)),
            _ => r matches Err(message) && message@ == no_document_text(proof_result),
        },
{
    match proof_result {
        StateTransitionProofResult::VerifiedTokenActionWithDocument(document) => Ok(
            ClaimResult::Document(document),
        ),
        StateTransitionProofResult::VerifiedTokenGroupActionWithDocument(
            power,
            Some(document),
        ) => Ok(ClaimResult::GroupActionWithDocument(power, document)),
        StateTransitionProofResult::VerifiedTokenGroupActionWithDocument(_, None) => Err(
            "Error broadcasting ClaimTokens transition: Expected document in group action result".to_owned(),
        ),
        _ => Err(
            "Error broadcasting ClaimTokens transition: Expected VerifiedTokenActionWithDocument or VerifiedTokenGroupActionWithDocument for claim transition".to_owned(),
        ),
    }
}

/// The balance that a claim changed: of the token of the claim, and of the identity that the
/// document names, to the amount that it names.
pub open spec fn balance_update(
    token_id: Option<Identifier>,
    document: Document,
) -> Option<BalanceUpdate> {
    match (token_id, document.identifier_at("claimerId"@), document.u64_at("amount"@)) {
        (Some(token_id), Some(identity_id), Some(amount)) => Some(
            BalanceUpdate { token_id, identity_id, amount },
        ),
        _ => None,
    }
}

impl<S> ClaimWait<S> {
    /// The transition to wait for.
    pub fn signed(&self) -> (r: &S)
        ensures
            *r == self@.0,
    {
        &self.signed
    }

    /// Goes on with what the proof of the transition shows.
    pub fn resume(
        self,
        context: &AppContext,
        result: Result<StateTransitionProofResult, RenderedError>,
    ) -> (r: Result<TokenLookup, ClaimFailure>)
        ensures
            match result {
                Ok(proof_result) => match claim_document(proof_result) {
                    Some(document) => r matches Ok(next) && next@ == (self@.1, document),
                    None => {
                        &&& r matches Err(failure)
                        &&& failure.message@ == no_document_text(proof_result)
                        &&& failure.log is None
                    },
                },
                Err(e) => r matches Err(failure) && claim_failed(failure, e),
            },
    {
        let proof_result = match result {
            Ok(proof_result) => proof_result,
            Err(e) => {
                return Err(context.map_claim_broadcast_error_for_ui(e));
            },
        };
        match claim_result(proof_result) {
            Ok(ClaimResult::Document(document)) => Ok(TokenLookup { place: self.place, document }),
            Ok(ClaimResult::GroupActionWithDocument(_, document)) => Ok(
                TokenLookup { place: self.place, document },
            ),
            Err(message) => Err(ClaimFailure { message, log: None }),
        }
    }
}

impl TokenLookup {
    /// Where the token stands whose identifier is needed.
    pub fn place(&self) -> (r: TokenPlace)
        ensures
            r == self@.0,
    {
        self.place
    }

    /// Goes on with the identifier of the token, if the contract has one at its position.
    pub fn resume(self, token_id: Option<Identifier>) -> (r: Claimed)
        ensures
            r@ == balance_update(token_id, self@.1),
            r@ is Some <==> token_id is Some && (property(
                self@.1.properties@,
                "claimerId"@,
            ) matches Some(Value::Identifier(_))) && (property(
                self@.1.properties@,
                "amount"@,
            ) matches Some(Value::U64(_))),
            r@ matches Some(update) ==> {
                &&& Some(update.token_id) == token_id
                &&& property(self@.1.properties@, "claimerId"@) == Some(
                    Value::Identifier(update.identity_id.bytes),
                )
                &&& property(self@.1.properties@, "amount"@) == Some(Value::U64(update.amount))
            },
    {
        let update = match token_id {
            Some(token_id) => match (
                self.document.get_identifier("claimerId"),
                self.document.get_u64("amount"),
            ) {
                (Some(identity_id), Some(amount)) => Some(
                    BalanceUpdate { token_id, identity_id, amount },
                ),
                _ => None,
            },
            None => None,
        };
        Claimed { update }
    }
}

impl Claimed {
    /// The balance to store.
    pub fn update(&self) -> (r: &Option<BalanceUpdate>)
        ensures
            *r == self@,
    {
        &self.update
    }

    /// The number of documents in the batch whose fee is to be estimated: a claim is one.
    pub fn batch_size(&self) -> (r: usize)
        ensures
            r == 1,
    {
        1
    }

    /// Ends with the estimated fee of that batch. It stands for the fee that was paid, too.
    pub fn resume(self, batch_fee: u64) -> (r: BackendTaskSuccessResult)
        ensures
            r == BackendTaskSuccessResult::ClaimedTokens(
                FeeResult { estimated_fee: batch_fee, actual_fee: batch_fee },
            ),
    {
        BackendTaskSuccessResult::ClaimedTokens(FeeResult::new(batch_fee, batch_fee))
    }
}

/// A proof that does not hold is never passed over: it is not mistaken for a transition that is
/// already known, and the failure that it comes to holds the proof for the log.
pub proof fn law_proof_errors_are_not_passed_over(
    failure: ClaimFailure,
    text: String,
    bytes: Vec<u8>,
    block: BlockInfo,
    rendered: String,
)
    requires
        claim_failed(
            failure,
            RenderedError { error: Error::DriveProofError(text, bytes, block), text: rendered },
        ),
    ensures
        !already_cached(Error::DriveProofError(text, bytes, block)),
        failure.log matches Some(item) && item.proof_bytes == bytes,
{
}

/// The words of the cache are found wherever they stand in the message of an error, and whatever
/// the case of its letters.
pub proof fn law_cached_words_are_found(
    message: String,
    before: Seq<char>,
    words: Seq<char>,
    after: Seq<char>,
)
    requires
        message@ == before + words + after,
        lowered(words) == cached_text(),
    ensures
        already_cached(Error::AlreadyExists(message)),
        already_cached(
            Error::StateTransitionBroadcastError(StateTransitionBroadcastError { message }),
        ),
{
    let hay = lowered(message@);
    assert(lowered(words).len() == words.len());
    assert(hay.subrange(before.len() as int, (before.len() + words.len()) as int) =~= lowered(words));
    assert(run_at(hay, cached_text(), before.len() as int));
}

/// Whatever amount the document of a claim holds, that amount is stored: where the token is known
/// and the document holds an identifier under `claimerId` and a 64-bit number under `amount`, the
/// balance of that token and that identity becomes that number. In all other cases no balance is
/// stored.
pub proof fn law_claimed_amount_is_stored(
    token_id: Identifier,
    document: Document,
    claimer: [u8; 32],
    amount: u64,
)
    ensures
        property(document.properties@, "claimerId"@) == Some(Value::Identifier(claimer))
            && property(document.properties@, "amount"@) == Some(Value::U64(amount)) ==> {
            &&& balance_update(Some(token_id), document) is Some
            &&& balance_update(Some(token_id), document)->0.token_id == token_id
            &&& balance_update(Some(token_id), document)->0.identity_id.bytes == claimer
            &&& balance_update(Some(token_id), document)->0.amount == amount
        },
        !(property(document.properties@, "claimerId"@) matches Some(Value::Identifier(_)))
            ==> balance_update(Some(token_id), document) is None,
        !(property(document.properties@, "amount"@) matches Some(Value::U64(_)))
            ==> balance_update(Some(token_id), document) is None,
        balance_update(None, document) is None,
{
}

/// Whether a text reads the same as another one that has no capitals, if its own capitals are taken
/// for small letters.
pub open spec fn reads_as(text: Seq<char>, small: Seq<char>) -> bool {
    &&& text.len() == small.len()
    &&& forall|i: int|
        0 <= i < text.len() ==> small[i] == #[trigger] text[i] || ('A' <= text[i] <= 'Z'
            && small[i] as u32 == text[i] as u32 + 32)
}

/// A transition is taken for known exactly where an error of one of the two kinds says so: somewhere
/// in its message stands "tx already exists in cache", in letters of any case. No error of another
/// kind says it, whatever its message.
pub proof fn law_only_cached_words_are_found(message: String)
    ensures
        already_cached(Error::AlreadyExists(message)) <==> exists|
            before: Seq<char>,
            words: Seq<char>,
            after: Seq<char>,
        |
            message@ == #[trigger] (before + words + after) && reads_as(
                words,
                "tx already exists in cache"@,
            ),
        already_cached(
            Error::StateTransitionBroadcastError(StateTransitionBroadcastError { message }),
        ) <==> already_cached(Error::AlreadyExists(message)),
        !already_cached(Error::Generic(message)),
        !already_cached(Error::Other),
{
    let hay = lowered(message@);
    let small = "tx already exists in cache"@;
    law_lowered_folds_capitals_only(message@);
    lemma_cached_text_is_small();
    if already_cached(Error::AlreadyExists(message)) {
        let i = choose|i: int| #[trigger] run_at(hay, small, i);
        let before = message@.take(i);
        let words = message@.subrange(i, i + small.len());
        let after = message@.skip(i + small.len());
        assert(message@ =~= before + words + after);
        assert forall|j: int| 0 <= j < words.len() implies small[j] == #[trigger] words[j] || ('A'
            <= words[j] <= 'Z' && small[j] as u32 == words[j] as u32 + 32) by {
            assert(hay.subrange(i, i + small.len())[j] == lowered(message@)[i + j]);
            assert(words[j] == message@[i + j]);
        }
        assert(reads_as(words, small));
    }
    if exists|before: Seq<char>, words: Seq<char>, after: Seq<char>|
        message@ == #[trigger] (before + words + after) && reads_as(words, small) {
        let (before, words, after) = choose|
            before: Seq<char>,
            words: Seq<char>,
            after: Seq<char>,
        |
            message@ == #[trigger] (before + words + after) && reads_as(words, small);
        law_lowered_folds_capitals_only(words);
        assert forall|j: int| 0 <= j < words.len() implies lowered(words)[j] == small[j] by {
            assert(small[j] == words[j] || ('A' <= words[j] <= 'Z' && small[j] as u32
                == words[j] as u32 + 32));
            assert(!('A' <= small[j] <= 'Z'));
            assert(' ' <= small[j] <= 'z');
        }
        assert(lowered(words) =~= small);
        law_cached_words_are_found(message, before, words, after);
    }
}

proof fn lemma_cached_text_is_small()
    ensures
        forall|i: int|
            0 <= i < "tx already exists in cache"@.len() ==> ' '
                <= #[trigger] "tx already exists in cache"@[i] <= 'z' && !('A'
                <= "tx already exists in cache"@[i] <= 'Z'),
{
    reveal_strlit("tx already exists in cache");
}

/// A failure says that the claim could not be broadcast and why. Where a proof did not hold, the
/// text says that it was logged, and the log holds its error, its bytes and its block; nothing else
/// is logged.
pub proof fn law_failure_tells_what_happened(failure: ClaimFailure, e: RenderedError)
    requires
        claim_failed(failure, e),
    ensures
        failure.log is Some <==> e.error is DriveProofError,
        e.error matches Error::DriveProofError(text, bytes, block) ==> {
            &&& failure.message@ == "Error broadcasting ClaimTokens transition: "@ + text@
                + ", proof error logged"@
            &&& failure.log->0.request_type == RequestType::BroadcastStateTransition
            &&& failure.log->0.request_bytes@.len() == 0
            &&& failure.log->0.verification_path_query_bytes@.len() == 0
            &&& failure.log->0.height == block.height
            &&& failure.log->0.time_ms == block.time_ms
            &&& failure.log->0.proof_bytes@ == bytes@
            &&& failure.log->0.error is Some
            &&& failure.log->0.error->0@ == text@
        },
        !(e.error is DriveProofError) ==> failure.message@
            == "Error broadcasting ClaimTokens transition: "@ + e.text@,
{
}

/// A claim comes through exactly where its proof shows a document, of a single or of a group action,
/// and it is that document that counts. What is said otherwise tells a group action without a
/// document from all other proofs.
pub proof fn law_claim_needs_a_document(document: Document, power: u32, partial: PartialIdentity)
    ensures
        claim_document(StateTransitionProofResult::VerifiedTokenActionWithDocument(document))
            == Some(document),
        claim_document(
            StateTransitionProofResult::VerifiedTokenGroupActionWithDocument(power, Some(document)),
        ) == Some(document),
        claim_document(
            StateTransitionProofResult::VerifiedTokenGroupActionWithDocument(power, None),
        ) is None,
        claim_document(StateTransitionProofResult::VerifiedPartialIdentity(partial)) is None,
        claim_document(StateTransitionProofResult::Other) is None,
        no_document_text(
            StateTransitionProofResult::VerifiedTokenGroupActionWithDocument(power, None),
        ) == "Error broadcasting ClaimTokens transition: Expected document in group action result"@,
        no_document_text(StateTransitionProofResult::VerifiedPartialIdentity(partial))
            == "Error broadcasting ClaimTokens transition: Expected VerifiedTokenActionWithDocument or VerifiedTokenGroupActionWithDocument for claim transition"@,
        no_document_text(StateTransitionProofResult::Other)
            == "Error broadcasting ClaimTokens transition: Expected VerifiedTokenActionWithDocument or VerifiedTokenGroupActionWithDocument for claim transition"@,
{
}

} // verus!
