//! Which tasks wait for the light client, and how tasks are run.

use dash_evo_tool::context::AppContext;
use dash_evo_tool::error::TaskError;
use dash_evo_tool::network::{CoreBackendMode, Network};
use dash_evo_tool::payload::Payload;
use dash_evo_tool::result::{BackendTaskSuccessResult, FeeResult};
use dash_evo_tool::run_task::{
    CreatedContext, HandlerCall, SequentialStep, TaskStep, WalletCall,
};
use dash_evo_tool::tasks::{
    BackendTask, IdentityTask, MnListTask, ShieldedTask, SystemTask, WalletTask,
    NO_IDENTITIES_FOUND,
};

#[test]
fn local_only_tasks_are_not_gated() {
    assert!(!BackendTask::Nothing.requires_spv_ready_for_dapi());
    assert!(!BackendTask::ReinitCoreClientAndSdk.requires_spv_ready_for_dapi());
    assert!(
        !BackendTask::SwitchNetwork {
            network: Network::Testnet,
            start_spv: false,
        }
        .requires_spv_ready_for_dapi()
    );
    assert!(
        !BackendTask::DiscoverDapiNodes {
            network: Network::Testnet,
        }
        .requires_spv_ready_for_dapi()
    );
    assert!(
        !BackendTask::SystemTask(SystemTask::WipePlatformData).requires_spv_ready_for_dapi()
    );
    assert!(
        !BackendTask::MnListTask(MnListTask::FetchChainLocks {
            base_block_height: 0,
            block_height: 0,
        })
        .requires_spv_ready_for_dapi()
    );
}

#[test]
fn wallet_task_local_variant_is_not_gated() {
    let t = WalletTask::GenerateReceiveAddress {
        seed_hash: [0u8; 32],
    };
    assert!(!t.requires_spv_ready_for_dapi());
    assert!(!BackendTask::WalletTask(t).requires_spv_ready_for_dapi());
}

#[test]
fn wallet_task_platform_variants_are_gated() {
    let t = WalletTask::FetchPlatformAddressBalances {
        seed_hash: [0u8; 32],
    };
    assert!(t.requires_spv_ready_for_dapi());
    assert!(BackendTask::WalletTask(t).requires_spv_ready_for_dapi());
}

#[test]
fn shielded_warmup_is_not_gated() {
    let t = ShieldedTask::WarmUpProvingKey;
    assert!(!t.requires_spv_ready_for_dapi());
    assert!(!BackendTask::ShieldedTask(t).requires_spv_ready_for_dapi());
}

#[test]
fn shielded_platform_variants_are_gated() {
    let t = ShieldedTask::SyncNotes {
        seed_hash: [0u8; 32],
    };
    assert!(t.requires_spv_ready_for_dapi());
    assert!(BackendTask::ShieldedTask(t).requires_spv_ready_for_dapi());

    let t = ShieldedTask::CheckNullifiers {
        seed_hash: [0u8; 32],
    };
    assert!(t.requires_spv_ready_for_dapi());
    assert!(BackendTask::ShieldedTask(t).requires_spv_ready_for_dapi());
}

#[test]
fn identity_task_refresh_is_gated() {
    let t = BackendTask::IdentityTask(IdentityTask::RefreshLoadedIdentitiesOwnedDPNSNames);
    assert!(t.requires_spv_ready_for_dapi());
}

fn p(handle: u64) -> Payload {
    Payload { handle }
}

fn every_family() -> Vec<(BackendTask, bool, Option<HandlerCall>)> {
    let seed_hash = [6u8; 32];
    vec![
        (BackendTask::ContractTask(p(1)), true, Some(HandlerCall::Contract(p(1)))),
        (BackendTask::ContestedResourceTask(p(2)), true, Some(HandlerCall::ContestedResource(p(2)))),
        (
            BackendTask::IdentityTask(IdentityTask::Other(p(3))),
            true,
            Some(HandlerCall::Identity(IdentityTask::Other(p(3)))),
        ),
        (BackendTask::DocumentTask(p(4)), true, Some(HandlerCall::Document(p(4)))),
        (BackendTask::CoreTask(p(5)), false, Some(HandlerCall::Core(p(5)))),
        (BackendTask::DashPayTask(p(6)), true, Some(HandlerCall::DashPay(p(6)))),
        (
            BackendTask::BroadcastStateTransition(p(7)),
            true,
            Some(HandlerCall::BroadcastStateTransition(p(7))),
        ),
        (BackendTask::TokenTask(p(8)), true, Some(HandlerCall::Token(p(8)))),
        (
            BackendTask::SystemTask(SystemTask::Other(p(9))),
            false,
            Some(HandlerCall::System(SystemTask::Other(p(9)))),
        ),
        (
            BackendTask::MnListTask(MnListTask::Other(p(10))),
            false,
            Some(HandlerCall::MnList(MnListTask::Other(p(10)))),
        ),
        (BackendTask::PlatformInfo(p(11)), true, Some(HandlerCall::PlatformInfo(p(11)))),
        (BackendTask::GroveSTARKTask(p(12)), true, Some(HandlerCall::GroveStark(p(12)))),
        (
            BackendTask::WalletTask(WalletTask::FetchPlatformAddressBalances { seed_hash }),
            true,
            Some(HandlerCall::Wallet(WalletCall::FetchPlatformAddressBalances(seed_hash))),
        ),
        (
            BackendTask::ShieldedTask(ShieldedTask::SyncNotes { seed_hash }),
            true,
            Some(HandlerCall::Shielded(ShieldedTask::SyncNotes { seed_hash })),
        ),
        (BackendTask::ReinitCoreClientAndSdk, false, None),
        (BackendTask::Nothing, false, None),
    ]
}

fn context() -> AppContext {
    AppContext {
        state_transition_options: None,
    }
}

fn other(message: &str) -> TaskError {
    TaskError::Other {
        message: message.to_string(),
    }
}

#[test]
fn gated_tasks_wait_before_their_call() {
    for (task, gated, call) in every_family() {
        assert_eq!(task.requires_spv_ready_for_dapi(), gated);
        let step = context().run_backend_task(task);
        let step = match step {
            TaskStep::AwaitSpv(waiting) => {
                assert!(gated);
                waiting.resume(&context(), Ok(()))
            }
            step => {
                assert!(!gated);
                step
            }
        };
        match (step, call) {
            (TaskStep::Call(run), Some(call)) => {
                assert_eq!(*run.call(), call);
                let result = Ok(BackendTaskSuccessResult::Refresh);
                let TaskStep::Done(done) = run.resume(result.clone()) else {
                    panic!("a call ends its task")
                };
                assert_eq!(done, result);
            }
            (TaskStep::Call(_), None) => panic!("there is no such call"),
            (_, Some(_)) => panic!("a call is expected"),
            (_, None) => {}
        }
    }
}

#[test]
fn a_wait_that_fails_ends_the_task() {
    for (task, gated, _) in every_family() {
        if let TaskStep::AwaitSpv(waiting) = context().run_backend_task(task) {
            assert!(gated);
            let TaskStep::Done(result) = waiting.resume(&context(), Err(other("timeout"))) else {
                panic!("nothing is called")
            };
            assert_eq!(result, Err(other("timeout")));
        }
    }
}

#[test]
fn calls_with_the_sdk_are_gated() {
    for (task, gated, call) in every_family() {
        if let Some(call) = call {
            if call.needs_sdk() {
                assert!(gated);
            }
            if gated {
                assert!(
                    call.needs_sdk()
                        || matches!(call, HandlerCall::Wallet(_) | HandlerCall::Shielded(_))
                );
            }
            let reports = matches!(
                task,
                BackendTask::ContractTask(_)
                    | BackendTask::ContestedResourceTask(_)
                    | BackendTask::IdentityTask(_)
                    | BackendTask::TokenTask(_)
                    | BackendTask::SystemTask(_)
            );
            assert_eq!(call.needs_sender(), reports);
        }
    }
}

#[test]
fn wallet_tasks_become_calls() {
    let s = [1u8; 32];
    let run = |task| context().run_wallet_task(task);
    assert_eq!(
        run(WalletTask::GenerateReceiveAddress { seed_hash: s }),
        WalletCall::GenerateReceiveAddress(s)
    );
    assert_eq!(
        run(WalletTask::TransferPlatformCredits {
            seed_hash: s,
            inputs: p(1),
            outputs: p(2),
            fee_payer_index: 3,
        }),
        WalletCall::TransferPlatformCredits(s, p(1), p(2), 3)
    );
    assert_eq!(
        run(WalletTask::FundPlatformAddressFromAssetLock {
            seed_hash: s,
            asset_lock_proof: p(1),
            asset_lock_address: p(2),
            outputs: p(3),
        }),
        WalletCall::FundPlatformAddressFromAssetLock(s, p(1), p(2), p(3))
    );
    assert_eq!(
        run(WalletTask::WithdrawFromPlatformAddress {
            seed_hash: s,
            inputs: p(1),
            output_script: p(2),
            core_fee_per_byte: 4,
            fee_payer_index: 5,
        }),
        WalletCall::WithdrawFromPlatformAddress(s, p(1), p(2), 4, 5)
    );
    assert_eq!(
        run(WalletTask::FundPlatformAddressFromWalletUtxos {
            seed_hash: s,
            amount: 9,
            destination: p(2),
            fee_deduct_from_output: true,
        }),
        WalletCall::FundPlatformAddressFromWalletUtxos(s, 9, p(2), true)
    );
}

fn done(step: TaskStep) -> Result<BackendTaskSuccessResult, TaskError> {
    match step {
        TaskStep::Done(result) => result,
        _ => panic!("the task is over"),
    }
}

#[test]
fn nothing_to_do() {
    assert_eq!(
        done(context().run_backend_task(BackendTask::Nothing)),
        Ok(BackendTaskSuccessResult::Nothing)
    );
    assert_eq!(NO_IDENTITIES_FOUND, "No identities found");
    assert_eq!(
        FeeResult::new(1, 2),
        FeeResult {
            estimated_fee: 1,
            actual_fee: 2
        }
    );
}

#[test]
fn core_client_is_rebuilt() {
    let step = || match context().run_backend_task(BackendTask::ReinitCoreClientAndSdk) {
        TaskStep::Reinit(waiting) => waiting,
        _ => panic!("a rebuild is expected"),
    };
    assert_eq!(
        done(step().resume(Ok(()))),
        Ok(BackendTaskSuccessResult::CoreClientReinitialized)
    );
    assert_eq!(done(step().resume(Err(other("no")))), Err(other("no")));
}

fn switch(start_spv: bool, mode: CoreBackendMode) -> TaskStep {
    let task = BackendTask::SwitchNetwork {
        network: Network::Devnet,
        start_spv,
    };
    match context().run_backend_task(task) {
        TaskStep::CreateContext(waiting) => waiting.resume(Some(CreatedContext {
            context: p(4),
            core_backend_mode: mode,
        })),
        _ => panic!("a context is created first"),
    }
}

fn created(spv_started: bool) -> Result<BackendTaskSuccessResult, TaskError> {
    Ok(BackendTaskSuccessResult::NetworkContextCreated {
        network: Network::Devnet,
        context: p(4),
        spv_started,
    })
}

#[test]
fn network_is_switched() {
    assert_eq!(done(switch(false, CoreBackendMode::Rpc)), created(false));
    for (mode, set) in [(CoreBackendMode::Spv, false), (CoreBackendMode::Rpc, true)] {
        for (started, expected) in [(Ok(()), true), (Err("no".to_string()), false)] {
            let TaskStep::StartSpv(waiting) = switch(true, mode) else {
                panic!("the light client is started")
            };
            assert_eq!(waiting.sets_spv_mode(), set);
            assert_eq!((waiting.network(), waiting.context()), (Network::Devnet, p(4)));
            assert_eq!(done(waiting.resume(started)), created(expected));
        }
    }
}

#[test]
fn network_without_context() {
    let task = BackendTask::SwitchNetwork {
        network: Network::Regtest,
        start_spv: true,
    };
    let TaskStep::CreateContext(waiting) = context().run_backend_task(task) else {
        panic!("a context is created first")
    };
    assert_eq!(
        done(waiting.resume(None)),
        Err(TaskError::NetworkContextCreationFailed {
            network: Network::Regtest,
            detail: "AppContext::new() returned None".to_string(),
        })
    );
}

#[test]
fn nodes_are_discovered() {
    let task = BackendTask::DiscoverDapiNodes {
        network: Network::Devnet,
    };
    let read = || match context().run_backend_task(task) {
        TaskStep::ReadDevnetName(waiting) => waiting,
        _ => panic!("the name is read first"),
    };
    assert_eq!(
        done(read().resume(Err(()))),
        Err(TaskError::LockPoisoned {
            resource: "NetworkConfig"
        })
    );
    let discover = || match read().resume(Ok(Some("alpha".to_string()))) {
        TaskStep::Discover(waiting) => waiting,
        _ => panic!("nodes are discovered"),
    };
    assert_eq!(discover().devnet_name().as_deref(), Some("alpha"));
    assert_eq!(discover().network(), Network::Devnet);
    assert_eq!(
        done(discover().resume(Ok((2, "a,b".to_string())))),
        Ok(BackendTaskSuccessResult::DapiNodesDiscovered {
            network: Network::Devnet,
            count: 2,
            addresses_csv: "a,b".to_string(),
        })
    );
    assert_eq!(done(discover().resume(Err(other("no")))), Err(other("no")));
}

#[test]
fn tasks_in_turn_are_all_run() {
    let tasks = vec![
        BackendTask::CoreTask(p(0)),
        BackendTask::CoreTask(p(1)),
        BackendTask::CoreTask(p(2)),
    ];
    let outcome = |task: &BackendTask| match task {
        BackendTask::CoreTask(Payload { handle: 1 }) => Err(other("failed")),
        BackendTask::CoreTask(Payload { handle }) => Ok(BackendTaskSuccessResult::Other(p(*handle))),
        _ => panic!("no such task"),
    };
    let mut order = vec![];
    let mut step = context().run_backend_tasks_sequential(tasks.clone());
    let results = loop {
        step = match step {
            SequentialStep::Run(task, others) => {
                order.push(task);
                others.resume(outcome(&task))
            }
            SequentialStep::Done(results) => break results,
        }
    };
    assert_eq!(order, tasks);
    let expected: Vec<_> = tasks.iter().map(outcome).collect();
    assert_eq!(results, expected);
    assert!(matches!(
        context().run_backend_tasks_sequential(vec![]),
        SequentialStep::Done(results) if results.is_empty()
    ));
}

#[test]
fn equal_tasks_in_turn_may_come_to_different_things() {
    let tasks = vec![BackendTask::CoreTask(p(0)), BackendTask::CoreTask(p(0))];
    let outcomes = vec![Err(other("busy")), Ok(BackendTaskSuccessResult::Refresh)];
    let mut left = outcomes.clone().into_iter();
    let mut step = context().run_backend_tasks_sequential(tasks);
    let results = loop {
        step = match step {
            SequentialStep::Run(_, others) => others.resume(left.next().unwrap()),
            SequentialStep::Done(results) => break results,
        }
    };
    assert_eq!(results, outcomes);
}

#[test]
fn tasks_side_by_side_do_not_disturb_each_other() {
    let tasks = vec![
        BackendTask::CoreTask(p(0)),
        BackendTask::CoreTask(p(1)),
        BackendTask::CoreTask(p(2)),
    ];
    let outcome = |handle: u64| match handle {
        1 => Err(other("failed")),
        _ => Ok(BackendTaskSuccessResult::Other(p(handle))),
    };
    let mut steps: Vec<Option<TaskStep>> = context()
        .run_backend_tasks_concurrent(&tasks)
        .into_iter()
        .map(Some)
        .collect();
    // They end in another order than they began.
    for i in [1usize, 2, 0] {
        let Some(TaskStep::Call(run)) = steps[i].take() else {
            panic!("a call is expected")
        };
        steps[i] = Some(run.resume(outcome(i as u64)));
    }
    let results: Vec<_> = steps.into_iter().map(|step| done(step.unwrap())).collect();
    assert_eq!(results, vec![outcome(0), outcome(1), outcome(2)]);
}

#[test]
fn tasks_side_by_side_keep_their_order() {
    let tasks = vec![
        BackendTask::Nothing,
        BackendTask::CoreTask(p(1)),
        BackendTask::TokenTask(p(2)),
    ];
    let steps = context().run_backend_tasks_concurrent(&tasks);
    assert_eq!(steps.len(), 3);
    assert!(matches!(&steps[0], TaskStep::Done(Ok(BackendTaskSuccessResult::Nothing))));
    assert!(matches!(&steps[1], TaskStep::Call(run) if *run.call() == HandlerCall::Core(p(1))));
    let TaskStep::AwaitSpv(waiting) = steps.into_iter().nth(2).unwrap() else {
        panic!("the task waits")
    };
    let step = waiting.resume(&context(), Ok(()));
    assert!(matches!(step, TaskStep::Call(run) if *run.call() == HandlerCall::Token(p(2))));
}
