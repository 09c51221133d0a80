//! The tasks of the backend, and which of them need a synced light client.

use vstd::prelude::*;

use crate::identifier::WalletSeedHash;
use crate::network::Network;
use crate::payload::Payload;

verus! {

/// What is shown where a search for identities comes up empty.
pub const NO_IDENTITIES_FOUND: &'static str = "No identities found";

/// Tasks on identities.
#[derive(Clone, Copy, Debug, PartialEq, Eq)]
pub enum IdentityTask {
    RefreshLoadedIdentitiesOwnedDPNSNames,
    Other(Payload),
}

/// Tasks on local data and preferences.
#[derive(Clone, Copy, Debug, PartialEq, Eq)]
pub enum SystemTask {
    WipePlatformData,
    Other(Payload),
}

/// Tasks on masternode lists.
#[derive(Clone, Copy, Debug, PartialEq, Eq)]
pub enum MnListTask {
    FetchChainLocks { base_block_height: u32, block_height: u32 },
    Other(Payload),
}

/// Tasks on wallets and their platform addresses.
#[derive(Clone, Copy, Debug, PartialEq, Eq)]
pub enum WalletTask {
    GenerateReceiveAddress { seed_hash: WalletSeedHash },
    FetchPlatformAddressBalances { seed_hash: WalletSeedHash },
    TransferPlatformCredits {
        seed_hash: WalletSeedHash,
        inputs: Payload,
        outputs: Payload,
        fee_payer_index: u16,
    },
    FundPlatformAddressFromAssetLock {
        seed_hash: WalletSeedHash,
        asset_lock_proof: Payload,
        asset_lock_address: Payload,
        outputs: Payload,
    },
    WithdrawFromPlatformAddress {
        seed_hash: WalletSeedHash,
        inputs: Payload,
        output_script: Payload,
        core_fee_per_byte: u32,
        fee_payer_index: u16,
    },
    FundPlatformAddressFromWalletUtxos {
        seed_hash: WalletSeedHash,
        amount: u64,
        destination: Payload,
        fee_deduct_from_output: bool,
    },
}

/// Tasks on the shielded pool.
#[derive(Clone, Copy, Debug, PartialEq, Eq)]
pub enum ShieldedTask {
    WarmUpProvingKey,
    InitializeShieldedWallet { seed_hash: WalletSeedHash },
    SyncNotes { seed_hash: WalletSeedHash },
    ShieldCredits { seed_hash: WalletSeedHash, details: Payload },
    ShieldedTransfer { seed_hash: WalletSeedHash, details: Payload },
    UnshieldCredits { seed_hash: WalletSeedHash, details: Payload },
    CheckNullifiers { seed_hash: WalletSeedHash },
    ShieldFromAssetLock { seed_hash: WalletSeedHash, details: Payload },
    ShieldedWithdrawal { seed_hash: WalletSeedHash, details: Payload },
}

/// The tasks of the backend.
#[derive(Clone, Copy, Debug, PartialEq, Eq)]
pub enum BackendTask {
    IdentityTask(IdentityTask),
    DocumentTask(Payload),
    ContractTask(Payload),
    ContestedResourceTask(Payload),
    CoreTask(Payload),
    DashPayTask(Payload),
    BroadcastStateTransition(Payload),
    TokenTask(Payload),
    SystemTask(SystemTask),
    MnListTask(MnListTask),
    PlatformInfo(Payload),
    GroveSTARKTask(Payload),
    WalletTask(WalletTask),
    ShieldedTask(ShieldedTask),
    /// Rebuild the core client and the SDK of the current network.
    ReinitCoreClientAndSdk,
    /// Create a context for another network, and start its light client if that is asked for.
    SwitchNetwork { network: Network, start_spv: bool },
    /// Discover nodes of a network.
    DiscoverDapiNodes { network: Network },
    /// Nothing to do.
    Nothing,
}

impl WalletTask {
    /// Whether the task queries or changes platform addresses. Only a receive address is
    /// generated locally.
    pub open spec fn gated(self) -> bool {
        !(self is GenerateReceiveAddress)
    }

    /// Whether the task has to wait for the light client to be synced.
    pub fn requires_spv_ready_for_dapi(&self) -> (r: bool)
        ensures
            r == self.gated(),
            self is GenerateReceiveAddress <==> !r,
    {
        match self {
            WalletTask::GenerateReceiveAddress { .. } => false,
            WalletTask::FetchPlatformAddressBalances { .. }
            | WalletTask::TransferPlatformCredits { .. }
            | WalletTask::FundPlatformAddressFromAssetLock { .. }
            | WalletTask::WithdrawFromPlatformAddress { .. }
            | WalletTask::FundPlatformAddressFromWalletUtxos { .. } => true,
        }
    }
}

impl ShieldedTask {
    /// Whether the task deals with the shielded pool of the platform. Only the proving key is
    /// computed locally.
    pub open spec fn gated(self) -> bool {
        !(self is WarmUpProvingKey)
    }

    /// Whether the task has to wait for the light client to be synced.
    pub fn requires_spv_ready_for_dapi(&self) -> (r: bool)
        ensures
            r == self.gated(),
            self is WarmUpProvingKey <==> !r,
    {
        match self {
            ShieldedTask::WarmUpProvingKey => false,
            ShieldedTask::InitializeShieldedWallet { .. }
            | ShieldedTask::SyncNotes { .. }
            | ShieldedTask::ShieldCredits { .. }
            | ShieldedTask::ShieldedTransfer { .. }
            | ShieldedTask::UnshieldCredits { .. }
            | ShieldedTask::CheckNullifiers { .. }
            | ShieldedTask::ShieldFromAssetLock { .. }
            | ShieldedTask::ShieldedWithdrawal { .. } => true,
        }
    }
}

impl BackendTask {
    /// Whether the task makes calls whose proofs are verified against data of the light client.
    /// Those are all tasks but the ones on core, masternode lists and local data, and the ones
    /// that set up what the light client itself depends on.
    pub open spec fn gated(self) -> bool {
        match self {
            BackendTask::WalletTask(task) => task.gated(),
            BackendTask::ShieldedTask(task) => task.gated(),
            BackendTask::CoreTask(_)
            | BackendTask::MnListTask(_)
            | BackendTask::SystemTask(_)
            | BackendTask::ReinitCoreClientAndSdk
            | BackendTask::SwitchNetwork { .. }
            | BackendTask::DiscoverDapiNodes { .. }
            | BackendTask::Nothing => false,
            _ => true,
        }
    }

    /// Whether the task has to wait for the light client to be synced. Otherwise its proofs could
    /// not be verified.
    pub fn requires_spv_ready_for_dapi(&self) -> (r: bool)
        ensures
            r == self.gated(),
            self matches BackendTask::WalletTask(task) ==> r == !(task is GenerateReceiveAddress),
            self matches BackendTask::ShieldedTask(task) ==> r == !(task is WarmUpProvingKey),
            self is ContractTask || self is ContestedResourceTask || self is IdentityTask
                || self is DocumentTask || self is DashPayTask || self is BroadcastStateTransition
                || self is TokenTask || self is PlatformInfo || self is GroveSTARKTask ==> r,
            self is CoreTask || self is MnListTask || self is SystemTask
                || self is ReinitCoreClientAndSdk || self is SwitchNetwork
                || self is DiscoverDapiNodes || self is Nothing ==> !r,
    {
        match self {
            BackendTask::ContractTask(_)
            | BackendTask::ContestedResourceTask(_)
            | BackendTask::IdentityTask(_)
            | BackendTask::DocumentTask(_)
            | BackendTask::DashPayTask(_)
            | BackendTask::BroadcastStateTransition(_)
            | BackendTask::TokenTask(_)
            | BackendTask::PlatformInfo(_)
            | BackendTask::GroveSTARKTask(_) => true,
            BackendTask::WalletTask(task) => task.requires_spv_ready_for_dapi(),
            BackendTask::ShieldedTask(task) => task.requires_spv_ready_for_dapi(),
            BackendTask::CoreTask(_)
            | BackendTask::MnListTask(_)
            | BackendTask::SystemTask(_)
            | BackendTask::ReinitCoreClientAndSdk
            | BackendTask::SwitchNetwork { .. }
            | BackendTask::DiscoverDapiNodes { .. }
            | BackendTask::Nothing => false,
        }
    }
}

/// A wallet task waits exactly where it does more than to generate a receive address, and a shielded
/// task exactly where it does more than to warm up the proving key.
pub proof fn law_only_local_tasks_skip_the_wait(wallet: WalletTask, shielded: ShieldedTask)
    ensures
        wallet.gated() <==> !(wallet is GenerateReceiveAddress),
        shielded.gated() <==> !(shielded is WarmUpProvingKey),
        BackendTask::WalletTask(wallet).gated() <==> !(wallet is GenerateReceiveAddress),
        BackendTask::ShieldedTask(shielded).gated() <==> !(shielded is WarmUpProvingKey),
{
}

/// All tasks on the platform wait, whatever they are handed. Tasks on core, on masternode lists and
/// on local data do not, nor those that set up what the light client depends on.
pub proof fn law_platform_tasks_wait(
    payload: Payload,
    identity: IdentityTask,
    system: SystemTask,
    mn_list: MnListTask,
    network: Network,
    start_spv: bool,
)
    ensures
        BackendTask::ContractTask(payload).gated(),
        BackendTask::ContestedResourceTask(payload).gated(),
        BackendTask::IdentityTask(identity).gated(),
        BackendTask::DocumentTask(payload).gated(),
        BackendTask::DashPayTask(payload).gated(),
        BackendTask::BroadcastStateTransition(payload).gated(),
        BackendTask::TokenTask(payload).gated(),
        BackendTask::PlatformInfo(payload).gated(),
        BackendTask::GroveSTARKTask(payload).gated(),
        !BackendTask::CoreTask(payload).gated(),
        !BackendTask::MnListTask(mn_list).gated(),
        !BackendTask::SystemTask(system).gated(),
        !BackendTask::ReinitCoreClientAndSdk.gated(),
        !(BackendTask::SwitchNetwork { network, start_spv }).gated(),
        !(BackendTask::DiscoverDapiNodes { network }).gated(),
        !BackendTask::Nothing.gated(),
{
}

} // verus!
