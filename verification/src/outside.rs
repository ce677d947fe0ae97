//! The calls this library makes into outside crates, each with the contract
//! that the outside source or documentation gives it.
use vstd::prelude::*;

use crate::rpc::wire::{fits_short_vecs, WireInstruction, WireTransaction, WireTxView};
use crate::types::account::{system_key, system_key_text};
use crate::types::pubkey::{Pubkey, Timestamp};
use solana_sdk::message::compiled_instruction::CompiledInstruction;
use solana_sdk::message::{Message, MessageHeader};
use solana_sdk::signature::Signature;
use solana_sdk::transaction::Transaction;

verus! {

/// The base58 text that Solana's `Pubkey` `Display` writes for a key.
pub uninterp spec fn spec_pubkey_base58(key: [u8; 32]) -> Seq<char>;

/// The base58 text that Solana's `Signature` `Display` writes for a signature.
pub uninterp spec fn spec_signature_base58(sig: [u8; 64]) -> Seq<char>;

/// What `str::parse::<solana_sdk::pubkey::Pubkey>` gives for a text: the key's
/// bytes, or the text of the parse error.
pub uninterp spec fn spec_parse_pubkey(text: Seq<char>) -> Result<[u8; 32], Seq<char>>;

/// What `bs58::decode(..).into_vec()` gives for a text: the bytes, or the text of
/// the decode error.
pub uninterp spec fn spec_bs58_decode(text: Seq<char>) -> Result<Seq<u8>, Seq<char>>;

/// What `bs58::encode(..).into_string()` gives for a byte string.
pub uninterp spec fn spec_bs58_encode(data: Seq<u8>) -> Seq<char>;

/// The SHA-256 digest of a byte string, as `sha2::Sha256` computes it.
pub uninterp spec fn spec_sha256(data: Seq<u8>) -> Seq<u8>;

/// `Pubkey`'s `Display` (solana-pubkey): the base58 encoding of the 32 bytes.
/// Claimed: the text is `spec_pubkey_base58` of the bytes, and parsing it with
/// `Pubkey`'s `FromStr` (which decodes the same base58) gives the bytes back.
#[verifier::external_body]
pub(crate) fn pubkey_to_string(key: &Pubkey) -> (res: String)
    ensures
        res@ == spec_pubkey_base58(key.bytes),
        spec_parse_pubkey(res@) is Ok && spec_parse_pubkey(res@)->Ok_0 == key.bytes,
{
    solana_sdk::pubkey::Pubkey::new_from_array(key.bytes).to_string()
}

/// `Signature`'s `Display` (solana-signature): the base58 encoding of the 64 bytes.
/// Claimed: the text is `spec_signature_base58` of the bytes.
#[verifier::external_body]
pub(crate) fn signature_to_string(sig: &[u8; 64]) -> (res: String)
    ensures
        res@ == spec_signature_base58(*sig),
{
    solana_sdk::signature::Signature::from(*sig).to_string()
}

/// `str::parse::<Pubkey>` (solana-pubkey's `FromStr`).
/// Claimed: the result is `spec_parse_pubkey` of the text, the error carried as
/// the error's `Display` text; and thirty-two '1's parse to the all-zero key
/// (five8's `decode_32`, as its own tests check).
#[verifier::external_body]
pub(crate) fn parse_pubkey(text: &str) -> (res: Result<Pubkey, String>)
    ensures
        match res {
            Ok(k) => spec_parse_pubkey(text@) == Ok::<[u8; 32], Seq<char>>(k.bytes),
            Err(e) => spec_parse_pubkey(text@) == Err::<[u8; 32], Seq<char>>(e@),
        },
        text@ == system_key_text() ==> (res is Ok && res->Ok_0 == system_key()),
{
    match text.parse::<solana_sdk::pubkey::Pubkey>() {
        Ok(k) => Ok(Pubkey { bytes: k.to_bytes() }),
        Err(e) => Err(e.to_string()),
    }
}

/// `bs58::decode(text).into_vec()`.
/// Claimed: the result is `spec_bs58_decode` of the text, the error carried as
/// the error's `Display` text.
#[verifier::external_body]
pub(crate) fn bs58_decode(text: &str) -> (res: Result<Vec<u8>, String>)
    ensures
        match res {
            Ok(v) => spec_bs58_decode(text@) == Ok::<Seq<u8>, Seq<char>>(v@),
            Err(e) => spec_bs58_decode(text@) == Err::<Seq<u8>, Seq<char>>(e@),
        },
{
    match bs58::decode(text).into_vec() {
        Ok(v) => Ok(v),
        Err(e) => Err(e.to_string()),
    }
}

/// `bs58::encode(data).into_string()`: the base58 text of the bytes.
/// Claimed: the text is `spec_bs58_encode` of the bytes.
#[verifier::external_body]
pub(crate) fn bs58_encode(data: &[u8]) -> (res: String)
    ensures
        res@ == spec_bs58_encode(data@),
{
    bs58::encode(data).into_string()
}

/// `sha2::Sha256::digest`.
/// Claimed: the digest is `spec_sha256` of the input and is 32 bytes long
/// (SHA-256's output size).
#[verifier::external_body]
pub(crate) fn sha256(data: &[u8]) -> (res: Vec<u8>)
    ensures
        res@ == spec_sha256(data@),
        res@.len() == 32,
{
    <sha2::Sha256 as sha2::Digest>::digest(data).to_vec()
}

/// `chrono::Utc::now()`, as whole seconds since the Unix epoch and the
/// sub-second nanoseconds. Claimed: only the range chrono documents for the
/// nanoseconds (up to 1_999_999_999 during a leap second); the time itself is
/// whatever the clock says.
#[verifier::external_body]
pub(crate) fn utc_now() -> (res: Timestamp)
    ensures
        res.nanos <= 1_999_999_999,
{
    let now = chrono::Utc::now();
    Timestamp { secs: now.timestamp(), nanos: now.timestamp_subsec_nanos() }
}

/// What `bincode::deserialize::<solana_sdk::transaction::Transaction>` gives for
/// a byte string: the transaction, or the text of the decode error.
pub uninterp spec fn spec_decode_wire(raw: Seq<u8>) -> Result<WireTxView, Seq<char>>;

/// Whether `Transaction::verify` accepts a transaction: every signature checks
/// against the serialized message and the account key in the same position.
pub uninterp spec fn spec_signatures_verify(tx: WireTxView) -> bool;

/// `bincode::deserialize` of a Solana `Transaction` (bincode 1.3, solana-transaction),
/// taken apart into plain values.
/// Claimed: the result is `spec_decode_wire` of the bytes, the error carried as
/// its `Display` text; and a decoded message's lists are no longer than 65535,
/// as solana-short-vec reads each length as a 16-bit number.
#[verifier::external_body]
pub(crate) fn decode_wire_transaction(raw: &[u8]) -> (res: Result<WireTransaction, String>)
    ensures
        match res {
            Ok(t) => spec_decode_wire(raw@) == Ok::<WireTxView, Seq<char>>(t@) && fits_short_vecs(t@),
            Err(e) => spec_decode_wire(raw@) == Err::<WireTxView, Seq<char>>(e@),
        },
{
    let tx: Transaction = match bincode::deserialize(raw) {
        Ok(tx) => tx,
        Err(e) => return Err(e.to_string()),
    };
    let (h, m) = (tx.message.header, tx.message);
    Ok(WireTransaction {
        signatures: tx.signatures.into_iter().map(<[u8; 64]>::from).collect(),
        num_required_signatures: h.num_required_signatures,
        num_readonly_signed_accounts: h.num_readonly_signed_accounts,
        num_readonly_unsigned_accounts: h.num_readonly_unsigned_accounts,
        account_keys: m.account_keys.iter().map(|k| Pubkey { bytes: k.to_bytes() }).collect(),
        recent_blockhash: m.recent_blockhash.to_bytes(),
        instructions: m.instructions.into_iter().map(|i| WireInstruction { program_id_index: i.program_id_index, accounts: i.accounts, data: i.data }).collect(),
    })
}

/// `Transaction::verify` (solana-transaction) on the transaction put back together.
/// Claimed: the answer is `spec_signatures_verify` of the transaction. It
/// serializes the message and panics on a list longer than 65535, so such
/// transactions are left out.
#[verifier::external_body]
pub(crate) fn verify_signatures(tx: &WireTransaction) -> (res: bool)
    requires
        fits_short_vecs(tx@),
    ensures
        res == spec_signatures_verify(tx@),
{
    let header = MessageHeader {
        num_required_signatures: tx.num_required_signatures,
        num_readonly_signed_accounts: tx.num_readonly_signed_accounts,
        num_readonly_unsigned_accounts: tx.num_readonly_unsigned_accounts,
    };
    let account_keys = tx.account_keys.iter().map(|k| solana_sdk::pubkey::Pubkey::new_from_array(k.bytes)).collect();
    let recent_blockhash = solana_sdk::hash::Hash::new_from_array(tx.recent_blockhash);
    let instructions = tx.instructions.iter().map(|i| CompiledInstruction { program_id_index: i.program_id_index, accounts: i.accounts.clone(), data: i.data.clone() }).collect();
    let message = Message { header, account_keys, recent_blockhash, instructions };
    let signatures = tx.signatures.iter().map(|s| Signature::from(*s)).collect();
    Transaction { signatures, message }.verify().is_ok()
}

} // verus!
