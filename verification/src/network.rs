//! Networks, and the backends that serve them.

use vstd::prelude::*;

verus! {

/// A Dash network.
#[derive(Clone, Copy, Debug, PartialEq, Eq, Structural)]
pub enum Network {
    Mainnet,
    Testnet,
    Devnet,
    Regtest,
}

/// Where core-chain data come from: the built-in light client, or a local node.
#[derive(Clone, Copy, Debug, PartialEq, Eq, Structural)]
pub enum CoreBackendMode {
    Spv,
    Rpc,
}

} // verus!
