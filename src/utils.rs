//! Helpers of the node: wallet initialisation checks, identifiers and peer
//! strings, the mnemonic's encryption, and the clock.

use magic_crypt::MagicCryptTrait;
use vstd::prelude::*;
use vstd::string::{StrSliceExecFns, StringExecFns, StringSliceAdditionalSpecFns};
use crate::hex::{hex_decode, hex_str_to_vec};
use crate::events::NodeId;
use crate::ledger::Id32;

verus! {

/// The fewest bytes a wallet password may have.
pub const PASSWORD_MIN_LENGTH: u8 = 8;

/// Errors reported to the node's users.
#[derive(Clone, Debug)]
pub enum APIError {
    AlreadyInitialized,
    FailedKeysCreation(String, String),
    FailedPeerConnection,
    InvalidChannelID,
    InvalidPassword(String),
    InvalidPeerInfo(String),
    NotInitialized,
}

/// Refuses to initialise a wallet whose mnemonic file already exists.
pub fn check_already_initialized(mnemonic_exists: bool) -> (r: Result<(), APIError>)
    ensures
        r is Ok <==> !mnemonic_exists,
        r is Err ==> r->Err_0 is AlreadyInitialized,
{
    if mnemonic_exists {
        return Err(APIError::AlreadyInitialized);
    }
    Ok(())
}

/// Accepts a password of at least [`PASSWORD_MIN_LENGTH`] bytes.
pub fn check_password_strength(password: String) -> (r: Result<(), APIError>)
    ensures
        r is Ok <==> vstd::utf8::encode_utf8(password@).len() >= PASSWORD_MIN_LENGTH,
        r is Err ==> (match r->Err_0 {
            APIError::InvalidPassword(m) => m@ == "must have at least 8 chars"@,
            _ => false,
        }),
{
    if password.as_str().as_bytes().len() < PASSWORD_MIN_LENGTH as usize {
        return Err(APIError::InvalidPassword("must have at least 8 chars".to_owned()));
    }
    Ok(())
}

/// The path of the file `mnemonic` inside a storage directory, joined as a
/// path component: with a `/` between them unless the directory is empty or
/// already ends in one.
pub open spec fn mnemonic_path_of(dir: Seq<char>) -> Seq<char> {
    if dir.len() == 0 || dir.last() == '/' {
        dir + "mnemonic"@
    } else {
        dir + "/mnemonic"@
    }
}

/// The path of the mnemonic file inside the storage directory.
pub fn get_mnemonic_path(storage_dir_path: &str) -> (r: String)
    ensures
        r@ == mnemonic_path_of(storage_dir_path@),
{
    let mut r = storage_dir_path.to_owned();
    let n = storage_dir_path.unicode_len();
    if n == 0 || storage_dir_path.get_char(n - 1) == '/' {
        proof {
            reveal_strlit("mnemonic");
        }
        r.append("mnemonic");
    } else {
        proof {
            reveal_strlit("/mnemonic");
        }
        r.append("/mnemonic");
    }
    r
}

/// Parses a channel id: exactly 32 bytes in hexadecimal.
pub fn check_channel_id(channel_id_str: &str) -> (r: Result<Id32, APIError>)
    ensures
        r is Ok <==> (hex_decode(channel_id_str.spec_bytes()) is Some && hex_decode(
            channel_id_str.spec_bytes(),
        )->0.len() == 32),
        r is Ok ==> r->Ok_0@ == hex_decode(channel_id_str.spec_bytes())->0,
        r is Err ==> r->Err_0 is InvalidChannelID,
{
    match hex_str_to_vec(channel_id_str) {
        Some(bytes) => {
            if bytes.len() != 32 {
                return Err(APIError::InvalidChannelID);
            }
            let mut id: Id32 = [0u8; 32];
            let mut i: usize = 0;
            while i < 32
                invariant
                    bytes@.len() == 32,
                    i <= 32,
                    forall|j: int| 0 <= j < i ==> id[j] == bytes@[j],
                decreases 32 - i,
            {
                id[i] = bytes[i];
                i += 1;
            }
            assert(id@ =~= bytes@);
            Ok(id)
        },
        None => Err(APIError::InvalidChannelID),
    }
}

/// What the asset wallet knows of a channel's asset: its contract and the
/// amounts held on each side.
#[derive(Clone, Copy, Debug)]
pub struct RgbChannelInfo {
    pub contract_id: Id32,
    pub local_rgb_amount: u64,
    pub remote_rgb_amount: u64,
}

/// The largest local amount of `contract_id` over the channels, zero if no
/// channel holds that asset.
pub open spec fn max_local_amount(contract_id: Id32, chans: Seq<Option<RgbChannelInfo>>) -> u64
    decreases chans.len(),
{
    if chans.len() == 0 {
        0
    } else {
        let rest = max_local_amount(contract_id, chans.drop_last());
        match chans.last() {
            Some(info) => if info.contract_id == contract_id && info.local_rgb_amount > rest {
                info.local_rgb_amount
            } else {
                rest
            },
            None => rest,
        }
    }
}

/// The most of `contract_id` that any single channel can send: the largest
/// local amount of that asset over the channels' asset records (`None` for
/// a channel with no asset).
pub fn get_max_local_rgb_amount(contract_id: &Id32, channels: &Vec<Option<RgbChannelInfo>>) -> (r:
    u64)
    ensures
        r == max_local_amount(*contract_id, channels@),
{
    let mut max_balance: u64 = 0;
    let mut i: usize = 0;
    while i < channels.len()
        invariant
            i <= channels@.len(),
            max_balance == max_local_amount(*contract_id, channels@.subrange(0, i as int)),
        decreases channels@.len() - i,
    {
        assert(channels@.subrange(0, i + 1).drop_last() =~= channels@.subrange(0, i as int));
        if let Some(info) = channels[i] {
            if crate::ledger::same_id(&info.contract_id, contract_id)
                && info.local_rgb_amount > max_balance {
                max_balance = info.local_rgb_amount;
            }
        }
        i += 1;
    }
    assert(channels@.subrange(0, i as int) =~= channels@);
    max_balance
}

/// The index of the first `c` in `s` at or after `from`, or `s.len()`.
pub open spec fn next_index_of(s: Seq<char>, c: char, from: int) -> int
    decreases s.len() - from,
{
    if from >= s.len() {
        s.len() as int
    } else if s[from] == c {
        from
    } else {
        next_index_of(s, c, from + 1)
    }
}

fn find_char(s: &str, c: char, from: usize) -> (r: usize)
    requires
        from <= s@.len(),
    ensures
        r == next_index_of(s@, c, from as int),
        from <= r <= s@.len(),
    decreases s@.len() - from,
{
    let n = s.unicode_len();
    if from >= n {
        from
    } else if s.get_char(from) == c {
        from
    } else {
        find_char(s, c, from + 1)
    }
}

/// Splits `pubkey@host:port` at its `@`s: the text before the first one,
/// and, if there is one, the text between it and the next (or the end).
pub fn split_peer_info(peer_pubkey_and_ip_addr: &str) -> (r: (&str, Option<&str>))
    ensures
        ({
            let s = peer_pubkey_and_ip_addr@;
            let at = next_index_of(s, '@', 0);
            &&& r.0@ == s.subrange(0, at)
            &&& r.1 is Some <==> at < s.len()
            &&& r.1 is Some ==> r.1->0@ == s.subrange(at + 1, next_index_of(s, '@', at + 1))
        }),
{
    let s = peer_pubkey_and_ip_addr;
    let n = s.unicode_len();
    let at = find_char(s, '@', 0);
    let pubkey = s.substring_char(0, at);
    if at < n {
        let end = find_char(s, '@', at + 1);
        (pubkey, Some(s.substring_char(at + 1, end)))
    } else {
        (pubkey, None)
    }
}

/// Whether a peer is among the connected ones, so that no new connection
/// to it is needed.
pub fn is_peer_connected(connected: &Vec<NodeId>, pubkey: &NodeId) -> (r: bool)
    ensures
        r == connected@.contains(*pubkey),
{
    let mut i: usize = 0;
    while i < connected.len()
        invariant
            i <= connected@.len(),
            forall|j: int| 0 <= j < i ==> connected@[j] != *pubkey,
        decreases connected@.len() - i,
    {
        let mut same = true;
        let mut b: usize = 0;
        while b < 33
            invariant
                i < connected@.len(),
                b <= 33,
                same == (forall|l: int| 0 <= l < b ==> connected@[i as int][l] == pubkey[l]),
            decreases 33 - b,
        {
            if connected[i][b] != pubkey[b] {
                same = false;
            }
            b += 1;
        }
        if same {
            assert(connected@[i as int] =~= *pubkey);
            return true;
        }
        assert(!(connected@[i as int] =~= *pubkey));
        i += 1;
    }
    false
}

/// Whether secp256k1 accepts these bytes as a serialised public key.
pub uninterp spec fn parses_as_pubkey(b: Seq<u8>) -> bool;

/// Relies on `secp256k1::PublicKey::from_slice`: it accepts or refuses a
/// serialised key on its bytes alone.
#[verifier::external_body]
fn pubkey_from_slice(data: &Vec<u8>) -> (r: Option<bitcoin::secp256k1::PublicKey>)
    ensures
        r is Some <==> parses_as_pubkey(data@),
{
    bitcoin::secp256k1::PublicKey::from_slice(data).ok()
}

/// Parses a compressed public key written as 66 hexadecimal digits.
pub fn hex_str_to_compressed_pubkey(hex: &str) -> (r: Option<bitcoin::secp256k1::PublicKey>)
    ensures
        r is Some <==> (hex.spec_bytes().len() == 66 && hex_decode(hex.spec_bytes()) is Some
            && parses_as_pubkey(hex_decode(hex.spec_bytes())->0)),
{
    if hex.as_bytes().len() != 66 {
        return None;
    }
    let data = match hex_str_to_vec(hex) {
        Some(bytes) => bytes,
        None => return None,
    };
    pubkey_from_slice(&data)
}

/// The stored form of a mnemonic encrypted under a password.
pub uninterp spec fn encrypted_mnemonic(password: Seq<char>, mnemonic: Seq<char>) -> Seq<char>;

/// Relies on magic-crypt's `MagicCrypt256` with no IV and on
/// `encrypt_str_to_base64`: AES-256 under the SHA-256 of the password with a
/// zero IV, in base64, so the text depends on the password and mnemonic alone.
#[verifier::external_body]
fn aes256_base64(password: &str, mnemonic: &str) -> (r: String)
    ensures
        r@ == encrypted_mnemonic(password@, mnemonic@),
{
    magic_crypt::MagicCrypt256::new(password, None::<String>).encrypt_str_to_base64(mnemonic)
}

/// The text to store for a mnemonic encrypted under a password.
pub fn encrypt_mnemonic(password: &str, mnemonic: &str) -> (r: String)
    ensures
        r@ == encrypted_mnemonic(password@, mnemonic@),
{
    aes256_base64(password, mnemonic)
}

/// A reading of the system clock.
#[verifier::external_type_specification]
#[verifier::external_body]
pub struct ExSystemTime(std::time::SystemTime);

/// Relies on `SystemTime::now`: the system clock as it reads now.
#[verifier::external_body]
fn system_now() -> (r: std::time::SystemTime) {
    std::time::SystemTime::now()
}

/// Relies on `SystemTime::duration_since` with `UNIX_EPOCH`: the time elapsed
/// since the epoch, `None` for a clock set before it.
#[verifier::external_body]
fn since_unix_epoch(t: &std::time::SystemTime) -> (r: Option<std::time::Duration>) {
    t.duration_since(std::time::UNIX_EPOCH).ok()
}

/// Relies on `Duration::as_secs`: the whole seconds of a duration.
#[verifier::external_body]
fn whole_secs(d: &std::time::Duration) -> (r: u64) {
    d.as_secs()
}

/// The current time in seconds since the Unix epoch; zero for a clock set
/// before the epoch.
pub fn get_current_timestamp() -> (r: u64) {
    let now = system_now();
    match since_unix_epoch(&now) {
        Some(d) => whole_secs(&d),
        None => 0,
    }
}

} // verus!
