//! What tasks come to.

use vstd::prelude::*;

use crate::contacts::ContactData;
use crate::document::Document;
use crate::identifier::{Identifier, WalletSeedHash};
use crate::identity::{KeyID, QualifiedIdentity};
use crate::network::Network;
use crate::payload::Payload;

verus! {

/// The fees of a state transition, in credits.
#[derive(Clone, Copy, Debug, PartialEq, Eq)]
pub struct FeeResult {
    /// The fee that was estimated before the operation.
    pub estimated_fee: u64,
    /// The fee that was paid.
    pub actual_fee: u64,
}

impl FeeResult {
    /// The fees of a state transition.
    pub fn new(estimated_fee: u64, actual_fee: u64) -> (r: FeeResult)
        ensures
            r == (FeeResult { estimated_fee, actual_fee }),
    {
        FeeResult { estimated_fee, actual_fee }
    }
}

/// What a task came to. Results that hold values of other parts of the program are `Other`.
#[derive(Clone, Debug, PartialEq, Eq)]
pub enum BackendTaskSuccessResult {
    /// There was nothing to do.
    Nothing,
    Refresh,
    Message(String),
    /// An update from a long operation.
    Progress {
        message: String,
        /// The current step, counted from one.
        current: u32,
        /// The number of steps.
        total: u32,
    },
    WalletPayment {
        txid: String,
        /// Address and amount of each recipient.
        recipients: Vec<(String, u64)>,
        total_amount: u64,
    },
    Document(Document),
    BroadcastedDocument(Document),
    RegisteredIdentity(QualifiedIdentity, FeeResult),
    ToppedUpIdentity(QualifiedIdentity, FeeResult),
    /// Display name, bio and avatar.
    DashPayProfile(Option<(String, String, String)>),
    DashPayContactProfile(Option<Document>),
    /// Identity, profile and username of each hit.
    DashPayProfileSearchResults(Vec<(Identifier, Option<Document>, String)>),
    /// The requests by their identifiers.
    DashPayContactRequests {
        incoming: Vec<(Identifier, Document)>,
        outgoing: Vec<(Identifier, Document)>,
    },
    DashPayContacts(Vec<Identifier>),
    /// The contacts of an identity, with what is known about them.
    DashPayContactsWithInfo(Vec<ContactData>),
    /// Transaction, contact, amount, direction and memo of each payment.
    DashPayPaymentHistory(Vec<(String, String, u64, bool, String)>),
    DashPayProfileUpdated(Identifier),
    DashPayContactRequestSent(String),
    DashPayContactRequestAccepted(Identifier),
    DashPayContactRequestRejected(Identifier),
    DashPayContactAlreadyEstablished(Identifier),
    DashPayContactInfoUpdated(Identifier),
    GeneratedReceiveAddress { seed_hash: WalletSeedHash, address: String },
    PlatformCreditsTransferred { seed_hash: WalletSeedHash },
    PlatformAddressFunded { seed_hash: WalletSeedHash },
    PlatformAddressWithdrawal { seed_hash: WalletSeedHash },
    PausedTokens(FeeResult),
    ResumedTokens(FeeResult),
    MintedTokens(FeeResult),
    BurnedTokens(FeeResult),
    FrozeTokens(FeeResult),
    UnfrozeTokens(FeeResult),
    TransferredTokens(FeeResult),
    PurchasedTokens(FeeResult),
    SetTokenPrice(FeeResult),
    DestroyedFrozenFunds(FeeResult),
    ClaimedTokens(FeeResult),
    /// The item that was changed.
    UpdatedTokenConfig(String, FeeResult),
    FetchedTokenBalances,
    SavedToken,
    AddedKeyToIdentity(FeeResult),
    /// The keys that were disabled, and the identity as it is afterwards.
    DisabledIdentityKeys {
        identity: QualifiedIdentity,
        disabled_key_ids: Vec<KeyID>,
        fee_result: FeeResult,
    },
    TransferredCredits(FeeResult),
    WithdrewFromIdentity(FeeResult),
    RegisteredDpnsName(FeeResult),
    RefreshedIdentity(QualifiedIdentity),
    LoadedIdentity(QualifiedIdentity),
    DeletedDocument(Identifier, FeeResult),
    ReplacedDocument(Identifier, FeeResult),
    TransferredDocument(Identifier, FeeResult),
    PurchasedDocument(Identifier, FeeResult),
    SetDocumentPrice(Identifier, FeeResult),
    UpdatedContract(FeeResult),
    RemovedContract,
    FetchedNonce,
    RegisteredContract(FeeResult),
    RegisteredTokenContract,
    SavedContract,
    ContractNotFound,
    TokenNotFound,
    ProofErrorLogged,
    /// A contract was stored although its proof did not hold.
    ContractSavedAfterProofError,
    RefreshedWallet { warning: Option<String> },
    RecoveredAssetLocks { recovered_count: usize, total_amount: u64 },
    ScheduledVotes,
    RefreshedDpnsContests,
    RefreshedOwnedDpnsNames,
    BroadcastedStateTransition,
    MineBlocksSuccess(u64),
    CoreWalletsList(Vec<String>),
    ShieldedInitialized { seed_hash: WalletSeedHash, balance: u64 },
    ShieldedNotesSynced { seed_hash: WalletSeedHash, new_notes: u32, balance: u64 },
    ShieldedCreditsShielded { seed_hash: WalletSeedHash, amount: u64 },
    ShieldedTransferComplete { seed_hash: WalletSeedHash, amount: u64 },
    ShieldedCreditsUnshielded { seed_hash: WalletSeedHash, amount: u64 },
    ShieldedNullifiersChecked { seed_hash: WalletSeedHash, spent_count: u32 },
    ShieldedFromAssetLock { seed_hash: WalletSeedHash, amount: u64 },
    ShieldedWithdrawalComplete { seed_hash: WalletSeedHash, amount: u64 },
    ProvingKeyReady,
    /// The core client and the SDK were rebuilt.
    CoreClientReinitialized,
    /// A context for another network was created.
    NetworkContextCreated { network: Network, context: Payload, spv_started: bool },
    /// Fresh node addresses were discovered.
    DapiNodesDiscovered { network: Network, count: usize, addresses_csv: String },
    /// A result that holds values of another part of the program.
    Other(Payload),
}

} // verus!
