//! Running the tasks of the backend.
//!
//! A run says what to do next, and is resumed with what came of it. A task that needs a synced
//! light client waits for one before anything else happens.

use vstd::prelude::*;

use crate::context::AppContext;
use crate::error::TaskError;
use crate::identifier::WalletSeedHash;
use crate::network::{CoreBackendMode, Network};
use crate::payload::Payload;
use crate::result::BackendTaskSuccessResult;
use crate::tasks::{BackendTask, IdentityTask, MnListTask, ShieldedTask, SystemTask, WalletTask};

verus! {

/// A call of the wallet.
#[derive(Clone, Copy, Debug, PartialEq, Eq)]
pub enum WalletCall {
    GenerateReceiveAddress(WalletSeedHash),
    FetchPlatformAddressBalances(WalletSeedHash),
    /// Inputs, outputs, and which output pays the fee.
    TransferPlatformCredits(WalletSeedHash, Payload, Payload, u16),
    /// Asset lock proof, asset lock address, and outputs.
    FundPlatformAddressFromAssetLock(WalletSeedHash, Payload, Payload, Payload),
    /// Inputs, output script, fee per byte, and which input pays the fee.
    WithdrawFromPlatformAddress(WalletSeedHash, Payload, Payload, u32, u16),
    /// Amount, destination, and whether the fee comes out of the amount.
    FundPlatformAddressFromWalletUtxos(WalletSeedHash, u64, Payload, bool),
}

/// A call of the part of the program that a task belongs to.
#[derive(Clone, Copy, Debug, PartialEq, Eq)]
pub enum HandlerCall {
    Contract(Payload),
    ContestedResource(Payload),
    Identity(IdentityTask),
    Document(Payload),
    Core(Payload),
    DashPay(Payload),
    BroadcastStateTransition(Payload),
    Token(Payload),
    System(SystemTask),
    MnList(MnListTask),
    PlatformInfo(Payload),
    GroveStark(Payload),
    Wallet(WalletCall),
    Shielded(ShieldedTask),
}

/// A task that waits for the light client.
pub struct GatedTask {
    task: BackendTask,
}

/// A task that waits for the call that it comes down to.
pub struct HandlerRun {
    call: HandlerCall,
}

/// A task that waits for the core client and the SDK to be rebuilt.
pub struct ReinitCoreClient {
    begun: (),
}

/// A task that waits for a context of another network to be created.
pub struct ContextCreation {
    network: Network,
    start_spv: bool,
}

/// A context that was created, and the backend that it has.
pub struct CreatedContext {
    pub context: Payload,
    pub core_backend_mode: CoreBackendMode,
}

/// A task that waits for the light client of a new context to be started.
pub struct SpvStart {
    network: Network,
    context: Payload,
    /// Whether the context has to be switched to the light client first.
    set_spv_mode: bool,
}

/// A task that waits for the configured name of the devnet.
pub struct DevnetNameRead {
    network: Network,
}

/// A task that waits for nodes to be discovered.
pub struct NodeDiscovery {
    network: Network,
    devnet_name: Option<String>,
}

/// What to do next.
pub enum TaskStep {
    /// Wait until the light client is synced.
    AwaitSpv(GatedTask),
    /// Make the call.
    Call(HandlerRun),
    /// Rebuild the core client and the SDK.
    Reinit(ReinitCoreClient),
    /// Create a context for the network.
    CreateContext(ContextCreation),
    /// Start the light client of the new context.
    StartSpv(SpvStart),
    /// Read the name of the devnet from the configuration.
    ReadDevnetName(DevnetNameRead),
    /// Discover nodes.
    Discover(NodeDiscovery),
    /// The task is over.
    Done(Result<BackendTaskSuccessResult, TaskError>),
}

/// The contents of a `TaskStep`.
pub enum TaskModel {
    AwaitSpv(BackendTask),
    Call(HandlerCall),
    Reinit,
    CreateContext { network: Network, start_spv: bool },
    StartSpv { network: Network, context: Payload, set_spv_mode: bool },
    ReadDevnetName(Network),
    Discover(Network, Option<String>),
    Done(Result<BackendTaskSuccessResult, TaskError>),
}

impl View for GatedTask {
    type V = BackendTask;

    closed spec fn view(&self) -> BackendTask {
        self.task
    }
}

impl View for HandlerRun {
    type V = HandlerCall;

    closed spec fn view(&self) -> HandlerCall {
        self.call
    }
}

impl View for ContextCreation {
    type V = (Network, bool);

    closed spec fn view(&self) -> (Network, bool) {
        (self.network, self.start_spv)
    }
}

impl View for SpvStart {
    type V = (Network, Payload, bool);

    closed spec fn view(&self) -> (Network, Payload, bool) {
        (self.network, self.context, self.set_spv_mode)
    }
}

impl View for DevnetNameRead {
    type V = Network;

    closed spec fn view(&self) -> Network {
        self.network
    }
}

impl View for NodeDiscovery {
    type V = (Network, Option<String>);

    closed spec fn view(&self) -> (Network, Option<String>) {
        (self.network, self.devnet_name)
    }
}

impl View for TaskStep {
    type V = TaskModel;

    open spec fn view(&self) -> TaskModel {
        match self {
            TaskStep::AwaitSpv(waiting) => TaskModel::AwaitSpv(waiting@),
            TaskStep::Call(run) => TaskModel::Call(run@),
            TaskStep::Reinit(_) => TaskModel::Reinit,
            TaskStep::CreateContext(creation) => TaskModel::CreateContext {
                network: creation@.0,
                start_spv: creation@.1,
            },
            TaskStep::StartSpv(start) => TaskModel::StartSpv {
                network: start@.0,
                context: start@.1,
                set_spv_mode: start@.2,
            },
            TaskStep::ReadDevnetName(read) => TaskModel::ReadDevnetName(read@),
            TaskStep::Discover(discovery) => TaskModel::Discover(discovery@.0, discovery@.1),
            TaskStep::Done(result) => TaskModel::Done(*result),
        }
    }
}

impl GatedTask {
    /// The task has to wait.
    #[verifier::type_invariant]
    spec fn has_to_wait(self) -> bool {
        self.task.gated()
    }
}

/// The call that a wallet task comes down to.
pub open spec fn wallet_call(task: WalletTask) -> WalletCall {
    match task {
        WalletTask::GenerateReceiveAddress { seed_hash } => WalletCall::GenerateReceiveAddress(
            seed_hash,
        ),
        WalletTask::FetchPlatformAddressBalances {
            seed_hash,
        } => WalletCall::FetchPlatformAddressBalances(seed_hash),
        WalletTask::TransferPlatformCredits {
            seed_hash,
            inputs,
            outputs,
            fee_payer_index,
        } => WalletCall::TransferPlatformCredits(seed_hash, inputs, outputs, fee_payer_index),
        WalletTask::FundPlatformAddressFromAssetLock {
            seed_hash,
            asset_lock_proof,
            asset_lock_address,
            outputs,
        } => WalletCall::FundPlatformAddressFromAssetLock(
            seed_hash,
            asset_lock_proof,
            asset_lock_address,
            outputs,
        ),
        WalletTask::WithdrawFromPlatformAddress {
            seed_hash,
            inputs,
            output_script,
            core_fee_per_byte,
            fee_payer_index,
        } => WalletCall::WithdrawFromPlatformAddress(
            seed_hash,
            inputs,
            output_script,
            core_fee_per_byte,
            fee_payer_index,
        ),
        WalletTask::FundPlatformAddressFromWalletUtxos {
            seed_hash,
            amount,
            destination,
            fee_deduct_from_output,
        } => WalletCall::FundPlatformAddressFromWalletUtxos(
            seed_hash,
            amount,
            destination,
            fee_deduct_from_output,
        ),
    }
}

/// The call that a task comes down to, if it is one call.
pub open spec fn handler_call(task: BackendTask) -> Option<HandlerCall> {
    match task {
        BackendTask::ContractTask(t) => Some(HandlerCall::Contract(t)),
        BackendTask::ContestedResourceTask(t) => Some(HandlerCall::ContestedResource(t)),
        BackendTask::IdentityTask(t) => Some(HandlerCall::Identity(t)),
        BackendTask::DocumentTask(t) => Some(HandlerCall::Document(t)),
        BackendTask::CoreTask(t) => Some(HandlerCall::Core(t)),
        BackendTask::DashPayTask(t) => Some(HandlerCall::DashPay(t)),
        BackendTask::BroadcastStateTransition(t) => Some(HandlerCall::BroadcastStateTransition(t)),
        BackendTask::TokenTask(t) => Some(HandlerCall::Token(t)),
        BackendTask::SystemTask(t) => Some(HandlerCall::System(t)),
        BackendTask::MnListTask(t) => Some(HandlerCall::MnList(t)),
        BackendTask::PlatformInfo(t) => Some(HandlerCall::PlatformInfo(t)),
        BackendTask::GroveSTARKTask(t) => Some(HandlerCall::GroveStark(t)),
        BackendTask::WalletTask(t) => Some(HandlerCall::Wallet(wallet_call(t))),
        BackendTask::ShieldedTask(t) => Some(HandlerCall::Shielded(t)),
        _ => None,
    }
}

/// The first step of a task that need not wait, or no longer.
pub open spec fn dispatched(task: BackendTask) -> TaskModel {
    match task {
        BackendTask::ReinitCoreClientAndSdk => TaskModel::Reinit,
        BackendTask::SwitchNetwork { network, start_spv } => TaskModel::CreateContext {
            network,
            start_spv,
        },
        BackendTask::DiscoverDapiNodes { network } => TaskModel::ReadDevnetName(network),
        BackendTask::Nothing => TaskModel::Done(Ok(BackendTaskSuccessResult::Nothing)),
        _ => TaskModel::Call(handler_call(task)->0),
    }
}

/// The first step of a task.
pub open spec fn first_step(task: BackendTask) -> TaskModel {
    if task.gated() {
        TaskModel::AwaitSpv(task)
    } else {
        dispatched(task)
    }
}

impl AppContext {
    /// Says which call a wallet task comes down to.
    pub fn run_wallet_task(&self, task: WalletTask) -> (r: WalletCall)
        ensures
            r == wallet_call(task),
    {
        match task {
            WalletTask::GenerateReceiveAddress { seed_hash } => WalletCall::GenerateReceiveAddress(
                seed_hash,
            ),
            WalletTask::FetchPlatformAddressBalances {
                seed_hash,
            } => WalletCall::FetchPlatformAddressBalances(seed_hash),
            WalletTask::TransferPlatformCredits {
                seed_hash,
                inputs,
                outputs,
                fee_payer_index,
            } => WalletCall::TransferPlatformCredits(seed_hash, inputs, outputs, fee_payer_index),
            WalletTask::FundPlatformAddressFromAssetLock {
                seed_hash,
                asset_lock_proof,
                asset_lock_address,
                outputs,
            } => WalletCall::FundPlatformAddressFromAssetLock(
                seed_hash,
                asset_lock_proof,
                asset_lock_address,
                outputs,
            ),
            WalletTask::WithdrawFromPlatformAddress {
                seed_hash,
                inputs,
                output_script,
                core_fee_per_byte,
                fee_payer_index,
            } => WalletCall::WithdrawFromPlatformAddress(
                seed_hash,
                inputs,
                output_script,
                core_fee_per_byte,
                fee_payer_index,
            ),
            WalletTask::FundPlatformAddressFromWalletUtxos {
                seed_hash,
                amount,
                destination,
                fee_deduct_from_output,
            } => WalletCall::FundPlatformAddressFromWalletUtxos(
                seed_hash,
                amount,
                destination,
                fee_deduct_from_output,
            ),
        }
    }
}

impl AppContext {
    /// Makes the first step of a task that need not wait, or no longer.
    fn dispatch(&self, task: BackendTask) -> (r: TaskStep)
        ensures
            r@ == dispatched(task),
    {
        let call = match task {
            BackendTask::ContractTask(t) => HandlerCall::Contract(t),
            BackendTask::ContestedResourceTask(t) => HandlerCall::ContestedResource(t),
            BackendTask::IdentityTask(t) => HandlerCall::Identity(t),
            BackendTask::DocumentTask(t) => HandlerCall::Document(t),
            BackendTask::CoreTask(t) => HandlerCall::Core(t),
            BackendTask::DashPayTask(t) => HandlerCall::DashPay(t),
            BackendTask::BroadcastStateTransition(t) => HandlerCall::BroadcastStateTransition(t),
            BackendTask::TokenTask(t) => HandlerCall::Token(t),
            BackendTask::SystemTask(t) => HandlerCall::System(t),
            BackendTask::MnListTask(t) => HandlerCall::MnList(t),
            BackendTask::PlatformInfo(t) => HandlerCall::PlatformInfo(t),
            BackendTask::GroveSTARKTask(t) => HandlerCall::GroveStark(t),
            BackendTask::WalletTask(t) => HandlerCall::Wallet(self.run_wallet_task(t)),
            BackendTask::ShieldedTask(t) => HandlerCall::Shielded(t),
            BackendTask::ReinitCoreClientAndSdk => {
                return TaskStep::Reinit(ReinitCoreClient { begun: () });
            },
            BackendTask::SwitchNetwork { network, start_spv } => {
                return TaskStep::CreateContext(ContextCreation { network, start_spv });
            },
            BackendTask::DiscoverDapiNodes { network } => {
                return TaskStep::ReadDevnetName(DevnetNameRead { network });
            },
            BackendTask::Nothing => {
                return TaskStep::Done(Ok(BackendTaskSuccessResult::Nothing));
            },
        };
        TaskStep::Call(HandlerRun { call })
    }

    /// Begins to run a task.
    pub fn run_backend_task(&self, task: BackendTask) -> (r: TaskStep)
        ensures
            r@ == first_step(task),
            task matches BackendTask::WalletTask(t) ==> (r is AwaitSpv <==> !(
            t is GenerateReceiveAddress)),
            task matches BackendTask::ShieldedTask(t) ==> (r is AwaitSpv <==> !(
            t is WarmUpProvingKey)),
    {
        if task.requires_spv_ready_for_dapi() {
            TaskStep::AwaitSpv(GatedTask { task })
        } else {
            self.dispatch(task)
        }
    }
}

impl GatedTask {
    /// Goes on once the light client is synced, or did not get there.
    pub fn resume(self, context: &AppContext, ready: Result<(), TaskError>) -> (r: TaskStep)
        ensures
            r@ == match ready {
                Ok(()) => dispatched(self@),
                Err(e) => TaskModel::Done(Err(e)),
            },
    {
        match ready {
            Ok(()) => context.dispatch(self.task),
            Err(e) => TaskStep::Done(Err(e)),
        }
    }
}

impl HandlerCall {
    /// Whether the SDK is handed to the call.
    pub open spec fn takes_sdk(self) -> bool {
        match self {
            HandlerCall::Core(_)
            | HandlerCall::System(_)
            | HandlerCall::MnList(_)
            | HandlerCall::Wallet(_)
            | HandlerCall::Shielded(_) => false,
            _ => true,
        }
    }

    /// Whether the call reports while it runs.
    pub open spec fn takes_sender(self) -> bool {
        self is Contract || self is ContestedResource || self is Identity || self is Token
            || self is System
    }

    /// Whether the SDK is to be handed to the call.
    pub fn needs_sdk(&self) -> (r: bool)
        ensures
            r == self.takes_sdk(),
    {
        match self {
            HandlerCall::Contract(_)
            | HandlerCall::ContestedResource(_)
            | HandlerCall::Identity(_)
            | HandlerCall::Document(_)
            | HandlerCall::DashPay(_)
            | HandlerCall::BroadcastStateTransition(_)
            | HandlerCall::Token(_)
            | HandlerCall::PlatformInfo(_)
            | HandlerCall::GroveStark(_) => true,
            HandlerCall::Core(_)
            | HandlerCall::System(_)
            | HandlerCall::MnList(_)
            | HandlerCall::Wallet(_)
            | HandlerCall::Shielded(_) => false,
        }
    }

    /// Whether the call is to be given a channel to report on while it runs.
    pub fn needs_sender(&self) -> (r: bool)
        ensures
            r == self.takes_sender(),
    {
        match self {
            HandlerCall::Contract(_)
            | HandlerCall::ContestedResource(_)
            | HandlerCall::Identity(_)
            | HandlerCall::Token(_)
            | HandlerCall::System(_) => true,
            _ => false,
        }
    }
}

impl HandlerRun {
    /// The call to make.
    pub fn call(&self) -> (r: &HandlerCall)
        ensures
            *r == self@,
    {
        &self.call
    }

    /// Ends with what the call came to.
    pub fn resume(self, result: Result<BackendTaskSuccessResult, TaskError>) -> (r: TaskStep)
        ensures
            r@ == TaskModel::Done(result),
    {
        TaskStep::Done(result)
    }
}

impl ReinitCoreClient {
    /// Ends once the core client and the SDK were rebuilt, or could not be.
    pub fn resume(self, rebuilt: Result<(), TaskError>) -> (r: TaskStep)
        ensures
            r@ == match rebuilt {
                Ok(()) => TaskModel::Done(Ok(BackendTaskSuccessResult::CoreClientReinitialized)),
                Err(e) => TaskModel::Done(Err(e)),
            },
    {
        match rebuilt {
            Ok(()) => TaskStep::Done(Ok(BackendTaskSuccessResult::CoreClientReinitialized)),
            Err(e) => TaskStep::Done(Err(e)),
        }
    }
}

/// The end of a switch to another network.
pub open spec fn switched(network: Network, context: Payload, spv_started: bool) -> TaskModel {
    TaskModel::Done(
        Ok(BackendTaskSuccessResult::NetworkContextCreated { network, context, spv_started }),
    )
}

impl ContextCreation {
    /// The network to create a context for.
    pub fn network(&self) -> (r: Network)
        ensures
            r == self@.0,
    {
        self.network
    }

    /// Goes on once the context was created, or could not be. The light client is started if
    /// that was asked for; a context with another backend is switched to it first.
    pub fn resume(self, created: Option<CreatedContext>) -> (r: TaskStep)
        ensures
            match created {
                Some(created) => r@ == if self@.1 {
                    TaskModel::StartSpv {
                        network: self@.0,
                        context: created.context,
                        set_spv_mode: created.core_backend_mode != CoreBackendMode::Spv,
                    }
                } else {
                    switched(self@.0, created.context, false)
                },
                None => {
                    &&& r@ matches TaskModel::Done(Err(e))
                    &&& e matches TaskError::NetworkContextCreationFailed { network, detail }
                    &&& network == self@.0
                    &&& detail@ == "AppContext::new() returned None"@
                },
            },
    {
        match created {
            Some(created) => if self.start_spv {
                TaskStep::StartSpv(
                    SpvStart {
                        network: self.network,
                        context: created.context,
                        set_spv_mode: created.core_backend_mode != CoreBackendMode::Spv,
                    },
                )
            } else {
                TaskStep::Done(
                    Ok(
                        BackendTaskSuccessResult::NetworkContextCreated {
                            network: self.network,
                            context: created.context,
                            spv_started: false,
                        },
                    ),
                )
            },
            None => TaskStep::Done(
                Err(
                    TaskError::NetworkContextCreationFailed {
                        network: self.network,
                        detail: "AppContext::new() returned None".to_owned(),
                    },
                ),
            ),
        }
    }
}

impl SpvStart {
    /// The network that is switched to.
    pub fn network(&self) -> (r: Network)
        ensures
            r == self@.0,
    {
        self.network
    }

    /// The context whose light client is to be started.
    pub fn context(&self) -> (r: Payload)
        ensures
            r == self@.1,
    {
        self.context
    }

    /// Whether the context has to be switched to the light client first.
    pub fn sets_spv_mode(&self) -> (r: bool)
        ensures
            r == self@.2,
    {
        self.set_spv_mode
    }

    /// Ends once the light client was started, or could not be. The switch stands either way.
    pub fn resume(self, started: Result<(), String>) -> (r: TaskStep)
        ensures
            r@ == switched(self@.0, self@.1, started is Ok),
    {
        TaskStep::Done(
            Ok(
                BackendTaskSuccessResult::NetworkContextCreated {
                    network: self.network,
                    context: self.context,
                    spv_started: started.is_ok(),
                },
            ),
        )
    }
}

impl DevnetNameRead {
    /// Goes on with the configured name of the devnet, if there is one, or ends where the
    /// configuration cannot be read.
    pub fn resume(self, devnet_name: Result<Option<String>, ()>) -> (r: TaskStep)
        ensures
            match devnet_name {
                Ok(devnet_name) => r@ == TaskModel::Discover(self@, devnet_name),
                Err(()) => {
                    &&& r@ matches TaskModel::Done(Err(e))
                    &&& e matches TaskError::LockPoisoned { resource }
                    &&& resource@ == "NetworkConfig"@
                },
            },
    {
        match devnet_name {
            Ok(devnet_name) => TaskStep::Discover(
                NodeDiscovery { network: self.network, devnet_name },
            ),
            Err(()) => TaskStep::Done(Err(TaskError::LockPoisoned { resource: "NetworkConfig" })),
        }
    }
}

impl NodeDiscovery {
    /// The network whose nodes are to be discovered.
    pub fn network(&self) -> (r: Network)
        ensures
            r == self@.0,
    {
        self.network
    }

    /// The configured name of the devnet, if there is one.
    pub fn devnet_name(&self) -> (r: &Option<String>)
        ensures
            *r == self@.1,
    {
        &self.devnet_name
    }

    /// Ends with the number of nodes and their addresses.
    pub fn resume(self, found: Result<(usize, String), TaskError>) -> (r: TaskStep)
        ensures
            r@ == match found {
                Ok((count, addresses_csv)) => TaskModel::Done(
                    Ok(
                        BackendTaskSuccessResult::DapiNodesDiscovered {
                            network: self@.0,
                            count,
                            addresses_csv,
                        },
                    ),
                ),
                Err(e) => TaskModel::Done(Err(e)),
            },
    {
        match found {
            Ok((count, addresses_csv)) => TaskStep::Done(
                Ok(
                    BackendTaskSuccessResult::DapiNodesDiscovered {
                        network: self.network,
                        count,
                        addresses_csv,
                    },
                ),
            ),
            Err(e) => TaskStep::Done(Err(e)),
        }
    }
}

/// Every task whose call is handed the SDK waits for the light client. Of the other tasks, only
/// those on wallets and on the shielded pool do, whose calls get at the SDK themselves.
pub proof fn law_sdk_calls_wait(task: BackendTask)
    ensures
        handler_call(task) matches Some(call) && call.takes_sdk() ==> task.gated(),
        task.gated() ==> {
            &&& handler_call(task) matches Some(call)
            &&& call.takes_sdk() || call is Wallet || call is Shielded
        },
{
}

/// No call is made for a task that has to wait until the light client is synced: its first step
/// is to wait, and what follows that is the call, or the end with the error of the wait.
pub proof fn law_gated_tasks_wait_first(task: BackendTask)
    ensures
        task.gated() <==> first_step(task) is AwaitSpv,
        first_step(task) is Call ==> !task.gated(),
        task.gated() ==> first_step(task) == TaskModel::AwaitSpv(task) && dispatched(task)
            == TaskModel::Call(handler_call(task)->0),
{
}

/// The tasks that the light client depends on never wait for it.
pub proof fn law_setup_never_waits(task: BackendTask)
    requires
        task is ReinitCoreClientAndSdk || task is SwitchNetwork || task is DiscoverDapiNodes
            || task is Nothing,
    ensures
        !task.gated(),
        first_step(task) == dispatched(task),
        !(first_step(task) is Call),
{
}

/// Tasks that are run one after the other.
pub struct SequentialRun {
    /// The tasks that are still to be run.
    tasks: Vec<BackendTask>,
    /// What the tasks before them came to.
    results: Vec<Result<BackendTaskSuccessResult, TaskError>>,
}

/// What to do next.
pub enum SequentialStep {
    /// Run the task, and resume the others with its result.
    Run(BackendTask, SequentialRun),
    /// All tasks were run.
    Done(Vec<Result<BackendTaskSuccessResult, TaskError>>),
}

/// The contents of a `SequentialStep`.
pub enum SequentialModel {
    Run(BackendTask, Seq<BackendTask>, Seq<Result<BackendTaskSuccessResult, TaskError>>),
    Done(Seq<Result<BackendTaskSuccessResult, TaskError>>),
}

impl View for SequentialRun {
    type V = (Seq<BackendTask>, Seq<Result<BackendTaskSuccessResult, TaskError>>);

    closed spec fn view(&self) -> (
        Seq<BackendTask>,
        Seq<Result<BackendTaskSuccessResult, TaskError>>,
    ) {
        (self.tasks@, self.results@)
    }
}

impl View for SequentialStep {
    type V = SequentialModel;

    open spec fn view(&self) -> SequentialModel {
        match self {
            SequentialStep::Run(task, others) => SequentialModel::Run(
                *task,
                others@.0,
                others@.1,
            ),
            SequentialStep::Done(results) => SequentialModel::Done(results@),
        }
    }
}

/// The step at which tasks are left to be run, after others came to these results.
pub open spec fn next_in_turn(
    tasks: Seq<BackendTask>,
    results: Seq<Result<BackendTaskSuccessResult, TaskError>>,
) -> SequentialModel {
    if tasks.len() == 0 {
        SequentialModel::Done(results)
    } else {
        SequentialModel::Run(tasks[0], tasks.skip(1), results)
    }
}

impl SequentialRun {
    /// Takes the next task.
    fn next(self) -> (r: SequentialStep)
        ensures
            r@ == next_in_turn(self.tasks@, self.results@),
    {
        let mut tasks = self.tasks;
        if tasks.len() == 0 {
            return SequentialStep::Done(self.results);
        }
        let task = tasks.remove(0);
        assert(tasks@ =~= self.tasks@.skip(1));
        SequentialStep::Run(task, SequentialRun { tasks, results: self.results })
    }

    /// Goes on with what the task that was handed out came to. An error does not keep the others
    /// from being run.
    pub fn resume(self, result: Result<BackendTaskSuccessResult, TaskError>) -> (r: SequentialStep)
        ensures
            r@ == next_in_turn(self@.0, self@.1.push(result)),
    {
        let mut results = self.results;
        results.push(result);
        SequentialRun { tasks: self.tasks, results }.next()
    }
}

impl AppContext {
    /// Begins to run tasks one after the other.
    pub fn run_backend_tasks_sequential(&self, tasks: Vec<BackendTask>) -> (r: SequentialStep)
        ensures
            r@ == next_in_turn(tasks@, seq![]),
    {
        let results: Vec<Result<BackendTaskSuccessResult, TaskError>> = Vec::new();
        assert(results@ =~= seq![]);
        SequentialRun { tasks, results }.next()
    }

    /// Begins to run tasks side by side: the first step of each, in the order of the tasks.
    pub fn run_backend_tasks_concurrent(&self, tasks: &Vec<BackendTask>) -> (r: Vec<TaskStep>)
        ensures
            r@.map_values(|step: TaskStep| step@) == first_steps(tasks@),
    {
        let mut r: Vec<TaskStep> = Vec::new();
        let mut i: usize = 0;
        while i < tasks.len()
            invariant
                i <= tasks@.len(),
                r@.len() == i,
                forall|j: int| 0 <= j < i ==> (#[trigger] r@[j])@ == first_step(tasks@[j]),
            decreases tasks@.len() - i,
        {
            r.push(self.run_backend_task(tasks[i]));
            i = i + 1;
        }
        assert(r@.map_values(|step: TaskStep| step@) =~= first_steps(tasks@));
        r
    }
}

/// The first step of each task.
pub open spec fn first_steps(tasks: Seq<BackendTask>) -> Seq<TaskModel> {
    tasks.map_values(|task: BackendTask| first_step(task))
}

/// The tasks that are handed out from a step on, in turn, and the results in the end, where the
/// tasks come to these outcomes one after the other.
pub open spec fn run_in_turn(
    step: SequentialModel,
    outcomes: Seq<Result<BackendTaskSuccessResult, TaskError>>,
) -> (Seq<BackendTask>, Seq<Result<BackendTaskSuccessResult, TaskError>>)
    decreases
            match step {
                SequentialModel::Run(_, tasks, _) => tasks.len() + 1,
                SequentialModel::Done(_) => 0,
            },
{
    match step {
        SequentialModel::Run(task, tasks, results) => {
            let others = run_in_turn(
                next_in_turn(tasks, results.push(outcomes[0])),
                outcomes.skip(1),
            );
            (seq![task] + others.0, others.1)
        },
        SequentialModel::Done(results) => (seq![], results),
    }
}

proof fn lemma_run_in_turn(
    tasks: Seq<BackendTask>,
    results: Seq<Result<BackendTaskSuccessResult, TaskError>>,
    outcomes: Seq<Result<BackendTaskSuccessResult, TaskError>>,
)
    requires
        outcomes.len() == tasks.len(),
    ensures
        run_in_turn(next_in_turn(tasks, results), outcomes) == (tasks, results + outcomes),
    decreases tasks.len(),
{
    if tasks.len() > 0 {
        let rest = tasks.skip(1);
        lemma_run_in_turn(rest, results.push(outcomes[0]), outcomes.skip(1));
        assert(seq![tasks[0]] + rest =~= tasks);
        assert(results.push(outcomes[0]) + outcomes.skip(1) =~= results + outcomes);
    } else {
        assert(tasks =~= seq![]);
        assert(results + outcomes =~= results);
    }
}

/// Tasks that are run one after the other are all run, in their order, whatever each comes to.
/// The results are what they came to, in the same order; equal tasks may come to different
/// things.
pub proof fn law_all_tasks_are_run(
    tasks: Seq<BackendTask>,
    outcomes: Seq<Result<BackendTaskSuccessResult, TaskError>>,
)
    requires
        outcomes.len() == tasks.len(),
    ensures
        run_in_turn(next_in_turn(tasks, seq![]), outcomes) == (tasks, outcomes),
{
    lemma_run_in_turn(tasks, seq![], outcomes);
    assert(Seq::<Result<BackendTaskSuccessResult, TaskError>>::empty() + outcomes =~= outcomes);
}

/// One of several tasks that run side by side goes on to its next step.
pub struct Progress {
    pub task: int,
    pub next: TaskModel,
}

/// Where tasks that run side by side stand, after these went on in this order.
pub open spec fn side_by_side(steps: Seq<TaskModel>, events: Seq<Progress>) -> Seq<TaskModel>
    decreases events.len(),
{
    if events.len() == 0 {
        steps
    } else {
        let before = side_by_side(steps, events.drop_last());
        if 0 <= events.last().task < before.len() {
            before.update(events.last().task, events.last().next)
        } else {
            before
        }
    }
}

/// Where the task at `i` stands when it runs alone: only what happened to it counts.
pub open spec fn alone(first: TaskModel, events: Seq<Progress>, i: int) -> TaskModel
    decreases events.len(),
{
    if events.len() == 0 {
        first
    } else if events.last().task == i {
        events.last().next
    } else {
        alone(first, events.drop_last(), i)
    }
}

/// The results of tasks that run side by side, in the order of the tasks. There are none before
/// the last task is over. This describes what a caller gets that awaits all tasks and keeps their
/// order; the awaiting itself is the caller's.
pub open spec fn joined(steps: Seq<TaskModel>) -> Option<
    Seq<Result<BackendTaskSuccessResult, TaskError>>,
> {
    if forall|i: int| 0 <= i < steps.len() ==> (#[trigger] steps[i]) is Done {
        Some(steps.map_values(|step: TaskModel| step->Done_0))
    } else {
        None
    }
}

/// No task is touched by what happens to another one beside it.
proof fn lemma_tasks_are_independent(steps: Seq<TaskModel>, events: Seq<Progress>, i: int)
    requires
        0 <= i < steps.len(),
    ensures
        side_by_side(steps, events)[i] == alone(steps[i], events, i),
    decreases events.len(),
{
    if events.len() > 0 {
        lemma_tasks_are_independent(steps, events.drop_last(), i);
        lemma_length_stays(steps, events.drop_last());
    }
}

/// Tasks that run side by side, in whatever order they go on and end, give one result each. The
/// result at `i` is what the task at `i` comes to when it runs alone, so an error of one task
/// stops no other. Until every task is over there are no results.
pub proof fn law_side_by_side_results(
    tasks: Seq<BackendTask>,
    events: Seq<Progress>,
    outcomes: Seq<Result<BackendTaskSuccessResult, TaskError>>,
)
    requires
        outcomes.len() == tasks.len(),
    ensures
        (forall|i: int|
            0 <= i < tasks.len() ==> #[trigger] alone(first_step(tasks[i]), events, i)
                == TaskModel::Done(outcomes[i])) <==> joined(
            side_by_side(first_steps(tasks), events),
        ) == Some(outcomes),
        (exists|i: int|
            0 <= i < tasks.len() && !(#[trigger] alone(first_step(tasks[i]), events, i) is Done))
            <==> joined(
            side_by_side(first_steps(tasks), events),
        ) is None,
{
    let first = first_steps(tasks);
    let steps = side_by_side(first, events);
    assert(steps.len() == tasks.len()) by {
        lemma_length_stays(first, events);
    }
    assert forall|i: int| 0 <= i < tasks.len() implies #[trigger] steps[i] == alone(
        first_step(tasks[i]),
        events,
        i,
    ) by {
        lemma_tasks_are_independent(first, events, i);
    }
    let results = steps.map_values(|step: TaskModel| step->Done_0);
    if forall|i: int|
        0 <= i < tasks.len() ==> #[trigger] alone(first_step(tasks[i]), events, i)
            == TaskModel::Done(outcomes[i]) {
        assert forall|i: int| 0 <= i < steps.len() implies (#[trigger] steps[i]) is Done by {
            assert(alone(first_step(tasks[i]), events, i) == TaskModel::Done(outcomes[i]));
        }
        assert forall|i: int| 0 <= i < steps.len() implies results[i] == outcomes[i] by {
            assert(alone(first_step(tasks[i]), events, i) == TaskModel::Done(outcomes[i]));
        }
        assert(results =~= outcomes);
    }
    if joined(steps) == Some(outcomes) {
        assert forall|i: int| 0 <= i < tasks.len() implies #[trigger] alone(
            first_step(tasks[i]),
            events,
            i,
        ) == TaskModel::Done(outcomes[i]) by {
            assert(steps[i] is Done);
            assert(results[i] == outcomes[i]);
        }
    }
    if joined(steps) is None {
        let i = choose|i: int| 0 <= i < steps.len() && !((#[trigger] steps[i]) is Done);
        assert(!(alone(first_step(tasks[i]), events, i) is Done));
    }
    if exists|i: int|
        0 <= i < tasks.len() && !(#[trigger] alone(first_step(tasks[i]), events, i) is Done) {
        let i = choose|i: int|
            0 <= i < tasks.len() && !(#[trigger] alone(first_step(tasks[i]), events, i) is Done);
        assert(!(steps[i] is Done));
    }
}

proof fn lemma_length_stays(steps: Seq<TaskModel>, events: Seq<Progress>)
    ensures
        side_by_side(steps, events).len() == steps.len(),
    decreases events.len(),
{
    if events.len() > 0 {
        lemma_length_stays(steps, events.drop_last());
    }
}

/// A run begins with the wait for the light client exactly where its task makes calls whose proofs
/// depend on it: any task on the platform, any wallet task but to generate a receive address, and
/// any shielded task but to warm up the proving key. What waits is that task.
pub proof fn law_run_begins_with_the_wait(task: BackendTask, step: TaskStep)
    requires
        step@ == first_step(task),
    ensures
        match task {
            BackendTask::WalletTask(t) => step is AwaitSpv <==> !(t is GenerateReceiveAddress),
            BackendTask::ShieldedTask(t) => step is AwaitSpv <==> !(t is WarmUpProvingKey),
            BackendTask::ContractTask(_)
            | BackendTask::ContestedResourceTask(_)
            | BackendTask::IdentityTask(_)
            | BackendTask::DocumentTask(_)
            | BackendTask::DashPayTask(_)
            | BackendTask::BroadcastStateTransition(_)
            | BackendTask::TokenTask(_)
            | BackendTask::PlatformInfo(_)
            | BackendTask::GroveSTARKTask(_) => step is AwaitSpv,
            BackendTask::CoreTask(_)
            | BackendTask::MnListTask(_)
            | BackendTask::SystemTask(_) => step is Call,
            BackendTask::ReinitCoreClientAndSdk => step is Reinit,
            BackendTask::SwitchNetwork { .. } => step is CreateContext,
            BackendTask::DiscoverDapiNodes { .. } => step is ReadDevnetName,
            BackendTask::Nothing => step is Done,
        },
        step matches TaskStep::AwaitSpv(waiting) ==> waiting@ == task,
{
}

/// Each task comes down to the call of the part of the program that it belongs to, with what the
/// task was handed.
pub proof fn law_tasks_reach_their_part(
    payload: Payload,
    identity: IdentityTask,
    system: SystemTask,
    mn_list: MnListTask,
    shielded: ShieldedTask,
    wallet: WalletTask,
)
    ensures
        dispatched(BackendTask::ContractTask(payload)) == TaskModel::Call(
            HandlerCall::Contract(payload),
        ),
        dispatched(BackendTask::ContestedResourceTask(payload)) == TaskModel::Call(
            HandlerCall::ContestedResource(payload),
        ),
        dispatched(BackendTask::IdentityTask(identity)) == TaskModel::Call(
            HandlerCall::Identity(identity),
        ),
        dispatched(BackendTask::DocumentTask(payload)) == TaskModel::Call(
            HandlerCall::Document(payload),
        ),
        dispatched(BackendTask::CoreTask(payload)) == TaskModel::Call(HandlerCall::Core(payload)),
        dispatched(BackendTask::DashPayTask(payload)) == TaskModel::Call(
            HandlerCall::DashPay(payload),
        ),
        dispatched(BackendTask::BroadcastStateTransition(payload)) == TaskModel::Call(
            HandlerCall::BroadcastStateTransition(payload),
        ),
        dispatched(BackendTask::TokenTask(payload)) == TaskModel::Call(HandlerCall::Token(payload)),
        dispatched(BackendTask::SystemTask(system)) == TaskModel::Call(HandlerCall::System(system)),
        dispatched(BackendTask::MnListTask(mn_list)) == TaskModel::Call(
            HandlerCall::MnList(mn_list),
        ),
        dispatched(BackendTask::PlatformInfo(payload)) == TaskModel::Call(
            HandlerCall::PlatformInfo(payload),
        ),
        dispatched(BackendTask::GroveSTARKTask(payload)) == TaskModel::Call(
            HandlerCall::GroveStark(payload),
        ),
        dispatched(BackendTask::ShieldedTask(shielded)) == TaskModel::Call(
            HandlerCall::Shielded(shielded),
        ),
        dispatched(BackendTask::WalletTask(wallet)) is Call,
        dispatched(BackendTask::WalletTask(wallet))->Call_0 is Wallet,
        match (dispatched(BackendTask::WalletTask(wallet))->Call_0->Wallet_0, wallet) {
            (
                WalletCall::GenerateReceiveAddress(hash),
                WalletTask::GenerateReceiveAddress { seed_hash },
            ) => hash == seed_hash,
            (
                WalletCall::FetchPlatformAddressBalances(hash),
                WalletTask::FetchPlatformAddressBalances { seed_hash },
            ) => hash == seed_hash,
            (
                WalletCall::TransferPlatformCredits(hash, from, to, payer),
                WalletTask::TransferPlatformCredits { seed_hash, inputs, outputs, fee_payer_index },
            ) => hash == seed_hash && from == inputs && to == outputs && payer == fee_payer_index,
            (
                WalletCall::FundPlatformAddressFromAssetLock(hash, lock, address, to),
                WalletTask::FundPlatformAddressFromAssetLock {
                    seed_hash,
                    asset_lock_proof,
                    asset_lock_address,
                    outputs,
                },
            ) => hash == seed_hash && lock == asset_lock_proof && address == asset_lock_address
                && to == outputs,
            (
                WalletCall::WithdrawFromPlatformAddress(hash, from, script, fee, payer),
                WalletTask::WithdrawFromPlatformAddress {
                    seed_hash,
                    inputs,
                    output_script,
                    core_fee_per_byte,
                    fee_payer_index,
                },
            ) => hash == seed_hash && from == inputs && script == output_script && fee
                == core_fee_per_byte && payer == fee_payer_index,
            (
                WalletCall::FundPlatformAddressFromWalletUtxos(hash, sum, to, deducted),
                WalletTask::FundPlatformAddressFromWalletUtxos {
                    seed_hash,
                    amount,
                    destination,
                    fee_deduct_from_output,
                },
            ) => hash == seed_hash && sum == amount && to == destination && deducted
                == fee_deduct_from_output,
            _ => false,
        },
{
}

/// A switch creates a context of the network that it was asked for and starts the light client where
/// that was asked for; a discovery reads the name of the devnet first. Nothing to do is done at once.
pub proof fn law_setup_tasks_begin(network: Network, start_spv: bool, context: Payload)
    ensures
        dispatched(BackendTask::ReinitCoreClientAndSdk) is Reinit,
        dispatched(BackendTask::SwitchNetwork { network, start_spv }) == (
        TaskModel::CreateContext { network, start_spv }),
        dispatched(BackendTask::DiscoverDapiNodes { network }) == TaskModel::ReadDevnetName(
            network,
        ),
        dispatched(BackendTask::Nothing) == TaskModel::Done(Ok(BackendTaskSuccessResult::Nothing)),
        switched(network, context, start_spv) is Done,
        switched(network, context, start_spv)->Done_0 is Ok,
        switched(network, context, start_spv)->Done_0->Ok_0 == (
        BackendTaskSuccessResult::NetworkContextCreated {
            network,
            context,
            spv_started: start_spv,
        }),
{
}

/// The SDK is handed to all calls but those of core, system, masternode lists, wallets and the
/// shielded pool. A channel to report on is handed to the calls on contracts, contested resources,
/// identities, tokens and the system, and to no other.
pub proof fn law_calls_get_what_they_need(call: HandlerCall)
    ensures
        call.takes_sdk() <==> match call {
            HandlerCall::Contract(_)
            | HandlerCall::ContestedResource(_)
            | HandlerCall::Identity(_)
            | HandlerCall::Document(_)
            | HandlerCall::DashPay(_)
            | HandlerCall::BroadcastStateTransition(_)
            | HandlerCall::Token(_)
            | HandlerCall::PlatformInfo(_)
            | HandlerCall::GroveStark(_) => true,
            HandlerCall::Core(_)
            | HandlerCall::System(_)
            | HandlerCall::MnList(_)
            | HandlerCall::Wallet(_)
            | HandlerCall::Shielded(_) => false,
        },
        call.takes_sender() <==> match call {
            HandlerCall::Contract(_)
            | HandlerCall::ContestedResource(_)
            | HandlerCall::Identity(_)
            | HandlerCall::Token(_)
            | HandlerCall::System(_) => true,
            HandlerCall::Document(_)
            | HandlerCall::Core(_)
            | HandlerCall::DashPay(_)
            | HandlerCall::BroadcastStateTransition(_)
            | HandlerCall::MnList(_)
            | HandlerCall::PlatformInfo(_)
            | HandlerCall::GroveStark(_)
            | HandlerCall::Wallet(_)
            | HandlerCall::Shielded(_) => false,
        },
{
}

/// Tasks that run side by side begin with one step each, in their order: the step with which each
/// begins alone.
pub proof fn law_tasks_begin_side_by_side(tasks: Seq<BackendTask>, steps: Seq<TaskStep>)
    requires
        steps.map_values(|step: TaskStep| step@) == first_steps(tasks),
    ensures
        steps.len() == tasks.len(),
        forall|i: int| 0 <= i < tasks.len() ==> (#[trigger] steps[i])@ == first_step(tasks[i]),
{
    let models = steps.map_values(|step: TaskStep| step@);
    assert(models.len() == tasks.len());
    assert forall|i: int| 0 <= i < tasks.len() implies (#[trigger] steps[i])@ == first_step(
        tasks[i],
    ) by {
        assert(models[i] == steps[i]@);
    }
}

/// A step of a task shows what is to be done next, with all that is needed for it, or how the task
/// ended.
pub proof fn law_task_step_shows_what_to_do(step: TaskStep)
    ensures
        match step {
            TaskStep::AwaitSpv(waiting) => step@ == TaskModel::AwaitSpv(waiting@),
            TaskStep::Call(run) => step@ == TaskModel::Call(run@),
            TaskStep::Reinit(_) => step@ == TaskModel::Reinit,
            TaskStep::CreateContext(creation) => step@ == (TaskModel::CreateContext {
                network: creation@.0,
                start_spv: creation@.1,
            }),
            TaskStep::StartSpv(start) => step@ == (TaskModel::StartSpv {
                network: start@.0,
                context: start@.1,
                set_spv_mode: start@.2,
            }),
            TaskStep::ReadDevnetName(read) => step@ == TaskModel::ReadDevnetName(read@),
            TaskStep::Discover(discovery) => step@ == TaskModel::Discover(
                discovery@.0,
                discovery@.1,
            ),
            TaskStep::Done(result) => step@ == TaskModel::Done(result),
        },
{
}

/// A step of tasks that are run in turn shows the task to run and the others, or all results.
pub proof fn law_sequential_step_shows_what_to_do(step: SequentialStep)
    ensures
        match step {
            SequentialStep::Run(task, others) => step@ == SequentialModel::Run(
                task,
                others@.0,
                others@.1,
            ),
            SequentialStep::Done(results) => step@ == SequentialModel::Done(results@),
        },
{
}

/// The tasks that are left are run from the first on, with the results so far untouched, and where
/// none is left the results are complete.
pub proof fn law_next_task_is_the_first_left(
    task: BackendTask,
    others: Seq<BackendTask>,
    results: Seq<Result<BackendTaskSuccessResult, TaskError>>,
)
    ensures
        next_in_turn(seq![task] + others, results) == SequentialModel::Run(task, others, results),
        next_in_turn(seq![], results) == SequentialModel::Done(results),
{
    assert((seq![task] + others).skip(1) =~= others);
}

} // verus!
