use vstd::prelude::*;

verus! {

pub const WVM_RPC_URL: &'static str = "https://testnet-rpc.wvm.dev";

pub const ARWEAVE_GQL_GATEWAY: &'static str = "https://arweave.net";

pub const IRYS_GQL_GATEWAY: &'static str = "https://arweave.mainnet.irys.xyz";

pub const IRYS_UPLOADER_URL: &'static str = "https://node1.bundlr.network";

pub const RETH_CLIENT_VERSION: &'static str = "reth/v1.0.6";

pub const WVM_NETWORK_TAG: &'static str = "Alphanet v0.1.0";

pub const GQL_START_TIMESTAMP: u128 = 1727828340;

/// The protocol tag value that marks every archived payload of this pipeline.
pub const PROTOCOL_TAG_VALUE: &'static str = "WeaveVM-ExEx";

} // verus!
