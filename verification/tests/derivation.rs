//! Derivation of the keys of contact-info documents. A key stands here for the path it lies at.

use dash_evo_tool::derivation::{
    derive_contact_info_keys, DeriveStep, KeyReply, KeyRequest, WalletState,
};
use dash_evo_tool::network::Network;

fn open_wallet() -> Option<Result<WalletState, String>> {
    Some(Ok(WalletState {
        is_open: true,
        seed: Ok(vec![1, 2, 3]),
    }))
}

/// Runs a derivation in which the request number `fails` fails, and the kind of failure.
fn run(fails: Option<(usize, bool)>) -> Result<(String, String), String> {
    let mut step: DeriveStep<String> = derive_contact_info_keys(open_wallet(), Network::Testnet, 7);
    let mut requests = 0;
    loop {
        step = match step {
            DeriveStep::Master(request) => {
                assert_eq!(request.seed(), &vec![1, 2, 3]);
                assert_eq!(request.network(), Network::Testnet);
                request.resume(Ok("m".to_string()))
            }
            DeriveStep::Derive(derivation) => {
                let key = match derivation.request() {
                    KeyRequest::Path { parent, path } => {
                        assert_eq!(parent, "m");
                        path.to_string()
                    }
                    KeyRequest::Hardened { parent, index } => format!("{}/{}'", parent, index),
                };
                let reply = match fails {
                    Some((at, true)) if at == requests => KeyReply::Invalid("bad".to_string()),
                    Some((at, false)) if at == requests => KeyReply::Failed("gone".to_string()),
                    _ => KeyReply::Key(key),
                };
                requests += 1;
                derivation.resume(reply)
            }
            DeriveStep::Done(result) => return result,
        }
    }
}

#[test]
fn keys_lie_below_the_root_encryption_key() {
    assert_eq!(
        run(None).unwrap(),
        (
            "m/9'/5'/15'/0'/65536'/7'".to_string(),
            "m/9'/5'/15'/0'/65537'/7'".to_string()
        )
    );
}

#[test]
fn every_derivation_has_its_error() {
    let invalid = [
        "Invalid derivation path: bad",
        "Invalid hardened index: bad",
        "Invalid hardened index: bad",
        "Invalid hardened index: bad",
        "Invalid hardened index: bad",
    ];
    let failed = [
        "Failed to derive root encryption key: gone",
        "Failed to derive key1 level1: gone",
        "Failed to derive key1 final: gone",
        "Failed to derive key2 level1: gone",
        "Failed to derive key2 final: gone",
    ];
    for i in 0..5 {
        assert_eq!(run(Some((i, true))).unwrap_err(), invalid[i]);
        assert_eq!(run(Some((i, false))).unwrap_err(), failed[i]);
    }
}

fn refused(wallet: Option<Result<WalletState, String>>) -> String {
    match derive_contact_info_keys::<String>(wallet, Network::Mainnet, 0) {
        DeriveStep::Done(Err(message)) => message,
        _ => panic!("the derivation cannot begin"),
    }
}

#[test]
fn wallets_that_cannot_be_read() {
    assert_eq!(
        refused(None),
        "No wallet associated with identity for key derivation"
    );
    assert_eq!(refused(Some(Err("poisoned".to_string()))), "poisoned");
    assert_eq!(
        refused(Some(Ok(WalletState {
            is_open: false,
            seed: Ok(vec![])
        }))),
        "Wallet must be unlocked to derive encryption keys"
    );
    assert_eq!(
        refused(Some(Ok(WalletState {
            is_open: true,
            seed: Err("closed".to_string())
        }))),
        "Wallet seed not available: closed"
    );
}

#[test]
fn master_key_may_fail() {
    let DeriveStep::Master(request) =
        derive_contact_info_keys::<String>(open_wallet(), Network::Mainnet, 0)
    else {
        panic!("a master key is needed first")
    };
    let DeriveStep::Done(Err(message)) = request.resume::<String>(Err("short".to_string())) else {
        panic!("the derivation is over")
    };
    assert_eq!(message, "Failed to create master key: short");
}
