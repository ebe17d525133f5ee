//! The bitcoin networks the node runs on and what each one implies.

use vstd::prelude::*;

verus! {

/// The indexer used on regtest.
pub const ELECTRUM_URL_REGTEST: &'static str = "127.0.0.1:50001";

/// The indexer used on testnet.
pub const ELECTRUM_URL_TESTNET: &'static str = "ssl://electrum.iriswallet.com:50013";

/// The consignment proxy used on regtest.
pub const PROXY_ENDPOINT_REGTEST: &'static str = "rpc://127.0.0.1:3000/json-rpc";

/// The consignment proxy used on testnet.
pub const PROXY_ENDPOINT_TESTNET: &'static str = "rpcs://proxy.iriswallet.com/0.2/json-rpc";

/// The bitcoin networks the node runs on.
#[derive(Clone, Copy, Debug, PartialEq, Eq, Structural)]
pub enum BitcoinNetwork {
    Mainnet,
    Testnet,
    Signet,
    Regtest,
}

/// The chain name that bitcoind reports for each network.
pub fn expected_bitcoind_chain(network: BitcoinNetwork) -> (r: &'static str)
    ensures
        network == BitcoinNetwork::Mainnet ==> r == "main",
        network == BitcoinNetwork::Testnet ==> r == "test",
        network == BitcoinNetwork::Signet ==> r == "signet",
        network == BitcoinNetwork::Regtest ==> r == "regtest",
{
    match network {
        BitcoinNetwork::Mainnet => "main",
        BitcoinNetwork::Testnet => "test",
        BitcoinNetwork::Signet => "signet",
        BitcoinNetwork::Regtest => "regtest",
    }
}

/// The indexer and consignment proxy of a network; only testnet and regtest
/// have them.
pub fn rgb_endpoints(network: BitcoinNetwork) -> (r: Option<(&'static str, &'static str)>)
    ensures
        network == BitcoinNetwork::Testnet ==> r == Some(
            (ELECTRUM_URL_TESTNET, PROXY_ENDPOINT_TESTNET),
        ),
        network == BitcoinNetwork::Regtest ==> r == Some(
            (ELECTRUM_URL_REGTEST, PROXY_ENDPOINT_REGTEST),
        ),
        network == BitcoinNetwork::Mainnet || network == BitcoinNetwork::Signet ==> r is None,
{
    match network {
        BitcoinNetwork::Testnet => Some((ELECTRUM_URL_TESTNET, PROXY_ENDPOINT_TESTNET)),
        BitcoinNetwork::Regtest => Some((ELECTRUM_URL_REGTEST, PROXY_ENDPOINT_REGTEST)),
        _ => None,
    }
}

} // verus!
