//! What the node answers to each JSON-RPC call, before it is rendered as JSON.
use vstd::prelude::*;

use crate::codec::utf8_bytes;
use crate::mempool::mempool::{Mempool, MAX_PENDING};
use crate::outside::{
    bs58_decode, bs58_encode, decode_wire_transaction, parse_pubkey, pubkey_to_string, spec_bs58_decode, spec_bs58_encode,
    spec_decode_wire, spec_parse_pubkey, spec_pubkey_base58, spec_signature_base58,
};
use crate::rpc::decode::{decode_transaction, decoded_from, decodes};
use crate::rpc::wire::WireTxView;
use crate::sequencer::sequencer::Sequencer;
use crate::state::state_manager::{lookup, opt_view, spec_key_of, StateManager};
use crate::types::error::{spec_error_message, ClutchError};
use crate::types::account::{AccountView, L2Account};
use crate::types::pubkey::Pubkey;
use crate::types::receipt::TxReceipt;
use crate::types::transaction::L2Transaction;

verus! {

/// JSON-RPC's code for invalid parameters.
pub const INVALID_PARAMS: i32 = -32602;

/// The code this node uses for a transaction it cannot take.
pub const SERVER_ERROR: i32 = -32000;

/// An error answer: a code, a message, and details.
#[derive(Clone, Debug)]
pub struct RpcError {
    pub code: i32,
    pub message: String,
    pub data: Option<String>,
}

/// `e` is the error answer with that code, message and details.
pub open spec fn is_rpc_error(e: RpcError, code: i32, message: Seq<char>, data: Seq<char>) -> bool {
    &&& e.code == code
    &&& e.message@ == message
    &&& e.data matches Some(d) && d@ == data
}

/// The error answer with that code, message and details.
pub fn rpc_err(code: i32, msg: &str, detail: String) -> (r: RpcError)
    ensures
        is_rpc_error(r, code, msg@, detail@),
{
    RpcError { code, message: String::from_str(msg), data: Some(detail) }
}

/// Reads an account key given as base58 text.
pub fn parse_key(pubkey: &str) -> (r: Result<Pubkey, RpcError>)
    ensures
        match spec_parse_pubkey(pubkey@) {
            Ok(bytes) => r == Ok::<Pubkey, RpcError>(Pubkey { bytes }),
            Err(e) => r matches Err(err) && is_rpc_error(err, INVALID_PARAMS, "Invalid pubkey"@, e),
        },
{
    match parse_pubkey(pubkey) {
        Ok(k) => Ok(k),
        Err(e) => Err(rpc_err(INVALID_PARAMS, "Invalid pubkey", e)),
    }
}

/// What `getAccountInfo` reports of an account: its lamports, its owner's
/// base58 text, whether it is executable, its nonce, and its data in base58.
#[derive(Clone, Debug)]
pub struct AccountInfo {
    pub lamports: u64,
    pub owner: String,
    pub executable: bool,
    pub nonce: u64,
    pub data_base58: String,
}

/// `info` reports the account `a`.
pub open spec fn reports_account(info: AccountInfo, a: AccountView) -> bool {
    &&& info.lamports == a.lamports
    &&& info.owner@ == spec_pubkey_base58(a.owner.bytes)
    &&& info.executable == a.executable
    &&& info.nonce == a.nonce
    &&& info.data_base58@ == spec_bs58_encode(a.data)
}

/// What `getAccountInfo` reports of an account.
pub fn account_info(a: &L2Account) -> (r: AccountInfo)
    ensures
        reports_account(r, a@),
{
    AccountInfo {
        lamports: a.lamports,
        owner: pubkey_to_string(&a.owner),
        executable: a.executable,
        nonce: a.nonce,
        data_base58: bs58_encode(a.data.as_slice()),
    }
}

/// `getAccountInfo`: what is reported of the account held for the key, if any.
pub fn get_account_info(state: &StateManager, pubkey: &str) -> (r: Result<Option<AccountInfo>, RpcError>)
    ensures
        match spec_parse_pubkey(pubkey@) {
            Ok(bytes) => r matches Ok(info) && match lookup(state.accounts(), spec_key_of(Pubkey { bytes })) {
                Some(a) => info matches Some(i) && reports_account(i, a),
                None => info is None,
            },
            Err(e) => r matches Err(err) && is_rpc_error(err, INVALID_PARAMS, "Invalid pubkey"@, e),
        },
{
    let key = parse_key(pubkey)?;
    match state.get_account(&key) {
        Some(a) => Ok(Some(account_info(&a))),
        None => Ok(None),
    }
}

/// `getBalance`: the lamports held for the key, or 0 if it has no account.
pub fn get_balance(state: &StateManager, pubkey: &str) -> (r: Result<u64, RpcError>)
    ensures
        match spec_parse_pubkey(pubkey@) {
            Ok(bytes) => r == Ok::<u64, RpcError>(
                match lookup(state.accounts(), spec_key_of(Pubkey { bytes })) {
                    Some(a) => a.lamports,
                    None => 0,
                },
            ),
            Err(e) => r matches Err(err) && is_rpc_error(err, INVALID_PARAMS, "Invalid pubkey"@, e),
        },
{
    let key = parse_key(pubkey)?;
    match state.get_account(&key) {
        Some(a) => Ok(a.lamports),
        None => Ok(0),
    }
}

/// Why a submitted transaction (base58 text of a bincode-encoded Solana
/// transaction) is refused, as the code, message and details of the error answer:
/// bad base58, a bad transaction, or wrong signatures. `None` when it is taken.
pub open spec fn submission_error(encoded: Seq<char>) -> Option<(i32, Seq<char>, Seq<char>)> {
    match spec_bs58_decode(encoded) {
        Err(e) => Some((INVALID_PARAMS, "Invalid base58 encoding"@, e)),
        Ok(raw) => match spec_decode_wire(raw) {
            Err(e) => Some((INVALID_PARAMS, "Invalid transaction format"@, e)),
            Ok(w) => if decodes(w) {
                None
            } else {
                Some((SERVER_ERROR, "Transaction decode failed"@, spec_error_message(ClutchError::InvalidSignature)))
            },
        },
    }
}

/// The bytes a submission decodes to.
pub open spec fn submitted_raw(encoded: Seq<char>) -> Seq<u8> {
    match spec_bs58_decode(encoded) {
        Ok(raw) => raw,
        Err(_) => Seq::empty(),
    }
}

/// The Solana transaction a submission decodes to.
pub open spec fn submitted_wire(encoded: Seq<char>) -> WireTxView {
    match spec_decode_wire(submitted_raw(encoded)) {
        Ok(w) => w,
        Err(_) => arbitrary(),
    }
}

/// The answer to a submission: the error answer for why it is refused, or the
/// transaction it becomes.
pub open spec fn submission_outcome(encoded: Seq<char>, r: Result<L2Transaction, RpcError>) -> bool {
    match submission_error(encoded) {
        Some((code, message, data)) => r matches Err(err) && is_rpc_error(err, code, message, data),
        None => r matches Ok(t) && decoded_from(t@, submitted_wire(encoded), submitted_raw(encoded)),
    }
}

/// Reads a submitted transaction.
pub fn decode_submission(encoded: &str) -> (r: Result<L2Transaction, RpcError>)
    ensures
        submission_outcome(encoded@, r),
{
    let raw = match bs58_decode(encoded) {
        Ok(raw) => raw,
        Err(e) => return Err(rpc_err(INVALID_PARAMS, "Invalid base58 encoding", e)),
    };
    let wire = match decode_wire_transaction(raw.as_slice()) {
        Ok(w) => w,
        Err(e) => return Err(rpc_err(INVALID_PARAMS, "Invalid transaction format", e)),
    };
    match decode_transaction(&wire, raw) {
        Ok(t) => Ok(t),
        Err(e) => Err(rpc_err(SERVER_ERROR, "Transaction decode failed", e.message())),
    }
}

/// `sendTransaction`: reads the submission and queues it; answers its id, or
/// why it was refused (a duplicate or a full mempool is refused with
/// "Transaction rejected"). The mempool changes only when the answer is an id.
pub fn send_transaction(mempool: &mut Mempool, encoded: &str) -> (r: Result<String, RpcError>)
    ensures
        match submission_error(encoded@) {
            Some((code, message, data)) => {
                &&& r matches Err(err) && is_rpc_error(err, code, message, data)
                &&& final(mempool)@ == old(mempool)@
            },
            None => {
                let w = submitted_wire(encoded@);
                let id = spec_signature_base58(w.signatures[0]);
                if old(mempool)@.seen.contains(id) || old(mempool)@.queue.len() >= MAX_PENDING {
                    &&& r matches Err(err) && is_rpc_error(err, SERVER_ERROR, "Transaction rejected"@, "duplicate or mempool full"@)
                    &&& final(mempool)@ == old(mempool)@
                } else {
                    &&& r matches Ok(s) && s@ == id
                    &&& final(mempool)@.seen == old(mempool)@.seen.push(id)
                    &&& final(mempool)@.queue.drop_last() == old(mempool)@.queue
                    &&& final(mempool)@.queue.len() == old(mempool)@.queue.len() + 1
                    &&& decoded_from(final(mempool)@.queue.last()@, w, submitted_raw(encoded@))
                }
            },
        },
{
    let tx = match decode_submission(encoded) {
        Ok(t) => t,
        Err(e) => return Err(e),
    };
    let tx_id = tx.id.clone();
    let ghost before = mempool@;
    if !mempool.accept(tx) {
        return Err(rpc_err(SERVER_ERROR, "Transaction rejected", String::from_str("duplicate or mempool full")));
    }
    assert(mempool@.queue.drop_last() =~= before.queue);
    Ok(tx_id)
}

/// `simulateTransaction`: reads the submission and, if it is taken, answers
/// that it would run; nothing is executed.
pub fn simulate_transaction(encoded: &str) -> (r: Result<(), RpcError>)
    ensures
        match submission_error(encoded@) {
            Some((code, message, data)) => r matches Err(err) && is_rpc_error(err, code, message, data),
            None => r is Ok,
        },
{
    match decode_submission(encoded) {
        Ok(_) => Ok(()),
        Err(e) => Err(e),
    }
}

/// The blockhash the node hands out: the text in the state root's first 32
/// bytes followed by thirty-one '1's.
pub open spec fn spec_latest_blockhash(root: Seq<char>) -> Seq<char> {
    vstd::utf8::decode_utf8(utf8_bytes(root).subrange(0, 32)) + Seq::new(31, |i: int| '1')
}

/// The state root can be cut after its 32nd byte: it is that long, and a
/// character ends there.
pub open spec fn root_cuts_at_32(root: Seq<char>) -> bool {
    vstd::utf8::is_char_boundary(utf8_bytes(root), 32) && utf8_bytes(root).len() >= 32
}

/// `getLatestBlockhash`'s blockhash. The root is cut after its 32nd byte, so a
/// character must end there (as in the hex roots this node computes).
pub fn latest_blockhash(state: &StateManager) -> (r: String)
    requires
        root_cuts_at_32(state.root()),
    ensures
        r@ == spec_latest_blockhash(state.root()),
{
    let root = state.get_state_root_async();
    let (head, _) = root.as_str().split_at(32);
    proof {
        vstd::utf8::encode_utf8_decode_utf8(head@);
    }
    let mut r = String::from_str(head);
    let ones = "1111111111111111111111111111111";
    proof {
        reveal_strlit("1111111111111111111111111111111");
    }
    r.append(ones);
    assert(r@ =~= spec_latest_blockhash(state.root()));
    r
}

/// Whether the state root can be cut for a blockhash.
pub fn root_is_sliceable(state: &StateManager) -> (r: bool)
    ensures
        r == root_cuts_at_32(state.root()),
{
    let root = state.get_state_root_async();
    let bytes = root.as_str().as_bytes();
    bytes.len() >= 32 && root.as_str().is_char_boundary(32)
}

/// `getLatestBlockhash`'s last valid height: 150 blocks past the chain's height
/// (wrapping at 2^64).
pub fn last_valid_block_height(height: u64) -> (r: u64)
    ensures
        r == vstd::wrapping::u64_specs::wrapping_add(height, 150),
{
    height.wrapping_add(150)
}

/// What `clutch_getChainStatus` reports.
#[derive(Clone, Debug)]
pub struct ChainStatus {
    pub block_height: u64,
    pub batch_number: u64,
    pub state_root: String,
    pub pending_txs: usize,
}

/// `clutch_getChainStatus`: the chain's height and batch number (0 for none),
/// its state root, and how many transactions wait in the mempool.
pub fn get_chain_status(sequencer: &Sequencer, state: &StateManager, mempool: &Mempool) -> (r: ChainStatus)
    ensures
        r.block_height == match sequencer.height_view() { Some(h) => h, None => 0 },
        r.batch_number == match sequencer.batch_number_view() { Some(n) => n, None => 0 },
        r.state_root@ == state.root(),
        r.pending_txs == mempool@.queue.len(),
{
    let block_height = match sequencer.block_height() {
        Some(h) => h,
        None => 0,
    };
    let batch_number = match sequencer.batch_number() {
        Some(n) => n,
        None => 0,
    };
    ChainStatus {
        block_height,
        batch_number,
        state_root: state.get_state_root_async(),
        pending_txs: mempool.pending_count(),
    }
}

/// How many recent blocks or batches to list: as asked, or 10.
pub fn recent_limit(limit: Option<usize>) -> (r: usize)
    ensures
        r == match limit { Some(l) => l, None => 10 },
{
    match limit {
        Some(l) => l,
        None => 10,
    }
}

/// Where the first receipt for `tx_id` stands among `receipts`, if any.
pub fn find_receipt(receipts: &Vec<TxReceipt>, tx_id: &str) -> (r: Option<usize>)
    ensures
        match r {
            Some(i) => i < receipts@.len() && receipts@[i as int].tx_id@ == tx_id@
                && forall|j: int| 0 <= j < i ==> #[trigger] receipts@[j].tx_id@ != tx_id@,
            None => forall|j: int| 0 <= j < receipts@.len() ==> #[trigger] receipts@[j].tx_id@ != tx_id@,
        },
{
    let wanted = String::from_str(tx_id);
    let n = receipts.len();
    let mut i: usize = 0;
    while i < n
        invariant
            n == receipts@.len(),
            i <= n,
            wanted@ == tx_id@,
            forall|j: int| 0 <= j < i ==> #[trigger] receipts@[j].tx_id@ != tx_id@,
        decreases n - i,
    {
        if receipts[i].tx_id == wanted {
            return Some(i);
        }
        i = i + 1;
    }
    None
}

} // verus!
