//! Key material: the outside key types the library hands around, and the
//! derivation of the wallet's account key from its seed.

use bitcoin::bip32::{ChildNumber, ExtendedPrivKey};
use vstd::prelude::*;
use crate::network::BitcoinNetwork;

verus! {

/// A secp256k1 public key, carried through as it is.
#[verifier::external_type_specification]
#[verifier::external_body]
pub struct ExPublicKey(bitcoin::secp256k1::PublicKey);

/// A BIP32 extended private key, carried through as it is.
#[verifier::external_type_specification]
#[verifier::external_body]
pub struct ExExtendedPrivKey(bitcoin::bip32::ExtendedPrivKey);

/// A BIP32 derivation error, carried through as it is.
#[verifier::external_type_specification]
#[verifier::external_body]
pub struct ExBip32Error(bitcoin::bip32::Error);

/// The hardened indexes of the account path `86'/coin'/0'`, where the coin
/// type is 0 on mainnet and 1 elsewhere.
pub open spec fn account_path_of(network: BitcoinNetwork) -> Seq<u32> {
    seq![86u32, if network == BitcoinNetwork::Mainnet { 0u32 } else { 1u32 }, 0u32]
}

/// The hardened indexes of the account derivation path for a network.
pub fn account_derivation_path(network: BitcoinNetwork) -> (r: Vec<u32>)
    ensures
        r@ == account_path_of(network),
{
    let coin: u32 = if network == BitcoinNetwork::Mainnet {
        0
    } else {
        1
    };
    let r = vec![86u32, coin, 0u32];
    assert(r@ =~= account_path_of(network));
    r
}

/// Relies on `ExtendedPrivKey::new_master` and `ExtendedPrivKey::derive_priv`:
/// the BIP32 master key of a seed on a network, derived along a path of
/// hardened indexes. Each step adds one to the key's `u8` depth, starting at
/// zero on the master key, so the path has at most 255 steps.
#[verifier::external_body]
fn derive_from_seed(network: BitcoinNetwork, seed: &[u8; 64], path: &Vec<u32>) -> (r: Result<
    ExtendedPrivKey,
    bitcoin::bip32::Error,
>)
    requires
        path@.len() <= 255,
        forall|i: int| 0 <= i < path@.len() ==> path@[i] < 0x8000_0000,
{
    let net = match network {
        BitcoinNetwork::Mainnet => bitcoin::Network::Bitcoin,
        BitcoinNetwork::Testnet => bitcoin::Network::Testnet,
        BitcoinNetwork::Signet => bitcoin::Network::Signet,
        BitcoinNetwork::Regtest => bitcoin::Network::Regtest,
    };
    let p: Vec<ChildNumber> = path.iter().map(|i| ChildNumber::Hardened { index: *i }).collect();
    ExtendedPrivKey::new_master(net, seed)?.derive_priv(&bitcoin::secp256k1::Secp256k1::new(), &p)
}

/// The account extended private key of a 64-byte seed: the master key of the
/// seed, derived along [`account_derivation_path`].
pub fn xprv_from_seed(seed: [u8; 64], network: BitcoinNetwork) -> (r: Result<
    ExtendedPrivKey,
    bitcoin::bip32::Error,
>) {
    let path = account_derivation_path(network);
    derive_from_seed(network, &seed, &path)
}

} // verus!
