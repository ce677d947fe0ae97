//! The runtime: validates a transaction's nonce, applies its instruction to the
//! accounts, bumps the sender's nonce, and reports a receipt.
use vstd::prelude::*;

use crate::codec::{spec_decimal, u64_to_decimal};
use crate::outside::{pubkey_to_string, spec_pubkey_base58};
use crate::state::state_manager::{key_text_round_trips, lemma_distinct_keys, lookup, spec_key_of, spec_map_root, StateManager};
use crate::types::account::{spec_account_with, AccountView, L2Account};
use crate::types::error::{spec_error_message, ClutchError};
use crate::types::pubkey::Pubkey;
use crate::types::receipt::{TxReceipt, SUCCESS_GAS};
use crate::types::transaction::{KindView, L2Transaction, TransactionKind, TxView};

verus! {

/// The only key allowed to mint, in base58.
pub const MINT_AUTHORITY: &'static str = "11111111111111111111111111111111";

/// The accounts of the state, by key.
pub type Accounts = Map<Seq<u8>, AccountView>;

/// The account at `k`, or a fresh system-owned one if there is none.
pub open spec fn get_or_new(m: Accounts, k: Seq<u8>) -> AccountView {
    if m.contains_key(k) { m[k] } else { spec_account_with(0) }
}

/// `a` with its lamports set to `l`.
pub open spec fn set_lamports(a: AccountView, l: u64) -> AccountView {
    AccountView { lamports: l, ..a }
}

/// `a + b` modulo 2^64: credits and nonce steps wrap rather than fail.
pub open spec fn add_wrapping(a: u64, b: u64) -> u64 {
    vstd::wrapping::u64_specs::wrapping_add(a, b)
}

/// The log line of a transfer.
pub open spec fn transfer_log(lamports: u64, from: Pubkey, to: Pubkey) -> Seq<char> {
    "Transfer: "@ + spec_decimal(lamports as nat) + " lamports from "@ + spec_pubkey_base58(from.bytes) + " to "@
        + spec_pubkey_base58(to.bytes)
}

/// The log line of a mint.
pub open spec fn mint_log(lamports: u64, to: Pubkey) -> Seq<char> {
    "Mint: "@ + spec_decimal(lamports as nat) + " lamports to "@ + spec_pubkey_base58(to.bytes)
}

/// The log line of a burn.
pub open spec fn burn_log(lamports: u64, from: Pubkey) -> Seq<char> {
    "Burn: "@ + spec_decimal(lamports as nat) + " lamports from "@ + spec_pubkey_base58(from.bytes)
}

/// The log line of a custom instruction.
pub open spec fn custom_log(program_id: Pubkey, data_len: nat) -> Seq<char> {
    "CustomInstruction: program="@ + spec_pubkey_base58(program_id.bytes) + " data_len="@ + spec_decimal(
        data_len,
    )
}

/// What an instruction sent by `from` does to the accounts, and its logs.
/// - A transfer moves lamports from the sender to `to`, if the sender holds
///   enough. The receiver's account is read before the sender's is written, so a
///   transfer to oneself leaves the sender with its balance plus the amount.
/// - A mint credits `to`, and only the mint authority may mint.
/// - A burn debits the sender, if it holds enough.
/// - A custom instruction changes nothing.
/// Credits wrap around at 2^64.
pub open spec fn spec_apply_kind(m: Accounts, from: Pubkey, kind: KindView) -> Result<(Accounts, Seq<Seq<char>>), ClutchError> {
    let fk = spec_key_of(from);
    match kind {
        KindView::Transfer { to, lamports } => {
            let fa = get_or_new(m, fk);
            if fa.lamports < lamports {
                Err(ClutchError::InsufficientFunds { needed: lamports, available: fa.lamports })
            } else {
                let tk = spec_key_of(to);
                let ta = get_or_new(m, tk);
                let m1 = m.insert(fk, set_lamports(fa, (fa.lamports - lamports) as u64));
                let m2 = m1.insert(tk, set_lamports(ta, add_wrapping(ta.lamports, lamports)));
                Ok((m2, seq![transfer_log(lamports, from, to)]))
            }
        },
        KindView::Mint { to, lamports } => {
            if spec_pubkey_base58(from.bytes) != MINT_AUTHORITY@ {
                Err(ClutchError::InvalidSignature)
            } else {
                let tk = spec_key_of(to);
                let ta = get_or_new(m, tk);
                Ok((m.insert(tk, set_lamports(ta, add_wrapping(ta.lamports, lamports))), seq![mint_log(lamports, to)]))
            }
        },
        KindView::Burn { lamports } => {
            let fa = get_or_new(m, fk);
            if fa.lamports < lamports {
                Err(ClutchError::InsufficientFunds { needed: lamports, available: fa.lamports })
            } else {
                Ok((m.insert(fk, set_lamports(fa, (fa.lamports - lamports) as u64)), seq![burn_log(lamports, from)]))
            }
        },
        KindView::CustomInstruction { program_id, data } => Ok((m, seq![custom_log(program_id, data.len())])),
    }
}

/// The nonce a transaction from `from` must carry: the sender's, or 0.
pub open spec fn expected_nonce(m: Accounts, from: Pubkey) -> u64 {
    match lookup(m, spec_key_of(from)) {
        Some(a) => a.nonce,
        None => 0,
    }
}

/// Running a transaction: its nonce must be the sender's; then its instruction
/// is applied and the sender's nonce goes up by one (wrapping at 2^64). On any
/// error nothing changes.
pub open spec fn spec_run(m: Accounts, tx: TxView) -> Result<(Accounts, Seq<Seq<char>>), ClutchError> {
    let expected = expected_nonce(m, tx.from);
    if tx.nonce != expected {
        Err(ClutchError::InvalidNonce { expected, got: tx.nonce })
    } else {
        match spec_apply_kind(m, tx.from, tx.kind) {
            Err(e) => Err(e),
            Ok((m1, logs)) => {
                let fk = spec_key_of(tx.from);
                let a = get_or_new(m1, fk);
                Ok((m1.insert(fk, AccountView { nonce: add_wrapping(a.nonce, 1), ..a }), logs))
            },
        }
    }
}

/// The texts of a list of strings.
pub open spec fn texts(v: Seq<String>) -> Seq<Seq<char>> {
    v.map_values(|s: String| s@)
}

/// `r` is the receipt of running `tx` against accounts `m`: a success with the
/// instruction's logs and the standard gas, or a failure carrying the error's
/// text, no logs and no gas.
pub open spec fn receipt_reports(r: TxReceipt, m: Accounts, tx: TxView) -> bool {
    match spec_run(m, tx) {
        Ok((_, logs)) => {
            &&& r.success
            &&& r.error is None
            &&& r.gas_used == SUCCESS_GAS
            &&& texts(r.logs@) == logs
        },
        Err(e) => {
            &&& !r.success
            &&& r.error matches Some(msg) && msg@ == spec_error_message(e)
            &&& r.gas_used == 0
            &&& r.logs@.len() == 0
        },
    }
}

/// The accounts after running `tx`: changed as `spec_run` says on success,
/// unchanged on failure.
pub open spec fn spec_apply_tx(m: Accounts, tx: TxView) -> Accounts {
    match spec_run(m, tx) {
        Ok((m1, _)) => m1,
        Err(_) => m,
    }
}

/// The runtime.
pub struct Runtime {}

/// A one-line log.
fn one_line(s: String) -> (r: Vec<String>)
    ensures
        texts(r@) == seq![s@],
{
    let mut r: Vec<String> = Vec::new();
    r.push(s);
    assert(texts(r@) =~= seq![s@]);
    r
}

impl Runtime {
    /// A runtime.
    pub fn new() -> Runtime {
        Runtime {}
    }

    /// Runs `tx` as the transaction at `tx_index` of block `block_number` (whose
    /// hash is `block_hash`) and reports how it went. On success the accounts
    /// become those `spec_run` gives and the state root commits to them; on
    /// failure nothing changes and the receipt carries the error's text.
    pub fn execute(
        &self,
        state: &mut StateManager,
        tx: &L2Transaction,
        block_number: u64,
        block_hash: &str,
        tx_index: usize,
    ) -> (r: TxReceipt)
        ensures
            r.tx_id@ == tx.id@,
            r.block_number == block_number,
            r.block_hash@ == block_hash@,
            r.tx_index == tx_index,
            receipt_reports(r, old(state).accounts(), tx@),
            final(state).accounts() == spec_apply_tx(old(state).accounts(), tx@),
            final(state).root() == if spec_run(old(state).accounts(), tx@) is Ok {
                spec_map_root(final(state).accounts())
            } else {
                old(state).root()
            },
    {
        match self.run(state, tx) {
            Ok(logs) => TxReceipt::success(tx.id.clone(), block_number, String::from_str(block_hash), tx_index, logs),
            Err(e) => TxReceipt::failure(tx.id.clone(), block_number, String::from_str(block_hash), tx_index, e.message()),
        }
    }

    fn run(&self, state: &mut StateManager, tx: &L2Transaction) -> (r: Result<Vec<String>, ClutchError>)
        ensures
            match spec_run(old(state).accounts(), tx@) {
                Ok((m, logs)) => r matches Ok(v) && texts(v@) == logs && final(state).accounts() == m
                    && final(state).root() == spec_map_root(m),
                Err(e) => r == Err::<Vec<String>, ClutchError>(e) && final(state).accounts() == old(state).accounts()
                    && final(state).root() == old(state).root(),
            },
    {
        self.validate_nonce(state, tx)?;
        let logs = match &tx.kind {
            TransactionKind::Transfer { to, lamports } => self.transfer(state, &tx.from, to, *lamports)?,
            TransactionKind::Mint { to, lamports } => self.mint(state, &tx.from, to, *lamports)?,
            TransactionKind::Burn { lamports } => self.burn(state, &tx.from, *lamports)?,
            TransactionKind::CustomInstruction { program_id, data } => self.custom_instruction(&tx.from, program_id, data),
        };
        self.bump_nonce(state, &tx.from);
        Ok(logs)
    }

    fn validate_nonce(&self, state: &StateManager, tx: &L2Transaction) -> (r: Result<(), ClutchError>)
        ensures
            r == if tx.nonce == expected_nonce(state.accounts(), tx.from) {
                Ok::<(), ClutchError>(())
            } else {
                Err(ClutchError::InvalidNonce { expected: expected_nonce(state.accounts(), tx.from), got: tx.nonce })
            },
    {
        let expected = state.get_nonce(&tx.from);
        if tx.nonce != expected {
            return Err(ClutchError::InvalidNonce { expected, got: tx.nonce });
        }
        Ok(())
    }

    /// The account held for `key`, or a fresh system-owned one.
    fn account_or_new(state: &StateManager, key: &Pubkey) -> (r: L2Account)
        ensures
            r@ == get_or_new(state.accounts(), spec_key_of(*key)),
    {
        match state.get_account(key) {
            Some(a) => a,
            None => L2Account::new_system_owned(),
        }
    }

    fn bump_nonce(&self, state: &mut StateManager, pubkey: &Pubkey)
        ensures
            ({
                let a = get_or_new(old(state).accounts(), spec_key_of(*pubkey));
                final(state).accounts() == old(state).accounts().insert(
                    spec_key_of(*pubkey),
                    AccountView { nonce: add_wrapping(a.nonce, 1), ..a },
                )
            }),
            final(state).root() == spec_map_root(final(state).accounts()),
    {
        let mut acct = Self::account_or_new(state, pubkey);
        acct.nonce = acct.nonce.wrapping_add(1);
        state.update_account(pubkey, acct);
    }

    fn transfer(&self, state: &mut StateManager, from: &Pubkey, to: &Pubkey, lamports: u64) -> (r: Result<Vec<String>, ClutchError>)
        ensures
            match spec_apply_kind(old(state).accounts(), *from, KindView::Transfer { to: *to, lamports }) {
                Ok((m, logs)) => r matches Ok(v) && texts(v@) == logs && final(state).accounts() == m,
                Err(e) => r == Err::<Vec<String>, ClutchError>(e) && *final(state) == *old(state),
            },
    {
        let mut from_acct = Self::account_or_new(state, from);
        if from_acct.lamports < lamports {
            return Err(ClutchError::InsufficientFunds { needed: lamports, available: from_acct.lamports });
        }
        let mut to_acct = Self::account_or_new(state, to);
        from_acct.lamports = from_acct.lamports - lamports;
        to_acct.lamports = to_acct.lamports.wrapping_add(lamports);
        state.update_account(from, from_acct);
        state.update_account(to, to_acct);
        let mut line = String::from_str("Transfer: ");
        line.append(u64_to_decimal(lamports).as_str());
        line.append(" lamports from ");
        line.append(pubkey_to_string(from).as_str());
        line.append(" to ");
        line.append(pubkey_to_string(to).as_str());
        Ok(one_line(line))
    }

    fn mint(&self, state: &mut StateManager, authority: &Pubkey, to: &Pubkey, lamports: u64) -> (r: Result<Vec<String>, ClutchError>)
        ensures
            match spec_apply_kind(old(state).accounts(), *authority, KindView::Mint { to: *to, lamports }) {
                Ok((m, logs)) => r matches Ok(v) && texts(v@) == logs && final(state).accounts() == m,
                Err(e) => r == Err::<Vec<String>, ClutchError>(e) && *final(state) == *old(state),
            },
    {
        if pubkey_to_string(authority) != String::from_str(MINT_AUTHORITY) {
            return Err(ClutchError::InvalidSignature);
        }
        let mut to_acct = Self::account_or_new(state, to);
        to_acct.lamports = to_acct.lamports.wrapping_add(lamports);
        state.update_account(to, to_acct);
        let mut line = String::from_str("Mint: ");
        line.append(u64_to_decimal(lamports).as_str());
        line.append(" lamports to ");
        line.append(pubkey_to_string(to).as_str());
        Ok(one_line(line))
    }

    fn burn(&self, state: &mut StateManager, from: &Pubkey, lamports: u64) -> (r: Result<Vec<String>, ClutchError>)
        ensures
            match spec_apply_kind(old(state).accounts(), *from, KindView::Burn { lamports }) {
                Ok((m, logs)) => r matches Ok(v) && texts(v@) == logs && final(state).accounts() == m,
                Err(e) => r == Err::<Vec<String>, ClutchError>(e) && *final(state) == *old(state),
            },
    {
        let mut acct = Self::account_or_new(state, from);
        if acct.lamports < lamports {
            return Err(ClutchError::InsufficientFunds { needed: lamports, available: acct.lamports });
        }
        acct.lamports = acct.lamports - lamports;
        state.update_account(from, acct);
        let mut line = String::from_str("Burn: ");
        line.append(u64_to_decimal(lamports).as_str());
        line.append(" lamports from ");
        line.append(pubkey_to_string(from).as_str());
        Ok(one_line(line))
    }

    fn custom_instruction(&self, from: &Pubkey, program_id: &Pubkey, data: &Vec<u8>) -> (r: Vec<String>)
        ensures
            texts(r@) == seq![custom_log(*program_id, data@.len())],
    {
        let mut line = String::from_str("CustomInstruction: program=");
        line.append(pubkey_to_string(program_id).as_str());
        line.append(" data_len=");
        line.append(u64_to_decimal(data.len() as u64).as_str());
        one_line(line)
    }
}

/// A transaction that ran moves its sender's nonce up by exactly one.
pub proof fn law_nonce_advances(m: Accounts, tx: TxView)
    requires
        spec_run(m, tx) is Ok,
    ensures
        expected_nonce(spec_apply_tx(m, tx), tx.from) == add_wrapping(tx.nonce, 1),
{
}

/// A transaction that ran cannot run again: resubmitted, it is refused for its
/// stale nonce, and the state does not change.
pub proof fn law_replay_rejected(m: Accounts, tx: TxView)
    requires
        spec_run(m, tx) is Ok,
    ensures
        spec_run(spec_apply_tx(m, tx), tx) == Err::<(Accounts, Seq<Seq<char>>), ClutchError>(
            ClutchError::InvalidNonce { expected: add_wrapping(tx.nonce, 1), got: tx.nonce },
        ),
        spec_apply_tx(spec_apply_tx(m, tx), tx) == spec_apply_tx(m, tx),
{
    let fk = spec_key_of(tx.from);
    assert(get_or_new(m, fk).nonce == expected_nonce(m, tx.from));
    match tx.kind {
        KindView::Transfer { to, lamports } => {
            let tk = spec_key_of(to);
            if tk == fk {
                assert(get_or_new(m, tk).nonce == tx.nonce);
            }
        },
        _ => {},
    }
}

/// A transaction that fails changes no account.
pub proof fn law_failure_changes_nothing(m: Accounts, tx: TxView)
    requires
        spec_run(m, tx) is Err,
    ensures
        spec_apply_tx(m, tx) == m,
{
}

/// A transfer between two different accounts creates and destroys no lamports
/// (unless the receiver's balance wraps past 2^64): what the sender loses the
/// receiver gains, and every other account stays as it was.
pub proof fn law_transfer_conserves_lamports(m: Accounts, from: Pubkey, to: Pubkey, lamports: u64, other: Seq<u8>)
    requires
        from != to,
        key_text_round_trips(from),
        key_text_round_trips(to),
        spec_apply_kind(m, from, KindView::Transfer { to, lamports }) is Ok,
        get_or_new(m, spec_key_of(to)).lamports + lamports <= u64::MAX,
        other != spec_key_of(from),
        other != spec_key_of(to),
    ensures
        ({
            let m2 = spec_apply_kind(m, from, KindView::Transfer { to, lamports })->Ok_0.0;
            &&& m2[spec_key_of(from)].lamports + m2[spec_key_of(to)].lamports
                == get_or_new(m, spec_key_of(from)).lamports + get_or_new(m, spec_key_of(to)).lamports
            &&& m2[spec_key_of(from)].lamports == get_or_new(m, spec_key_of(from)).lamports - lamports
            &&& m2.contains_key(other) == m.contains_key(other)
            &&& m2.contains_key(other) ==> m2[other] == m[other]
        }),
{
    lemma_distinct_keys(from, to);
}

/// A transfer or a burn fails for want of funds exactly when the sender holds
/// less than the amount: holding the amount, even all of its balance, is
/// enough. With the right nonce, such a transaction runs.
pub proof fn law_enough_funds_suffice(m: Accounts, tx: TxView, to: Pubkey, lamports: u64)
    ensures
        ({
            let balance = get_or_new(m, spec_key_of(tx.from)).lamports;
            let short = ClutchError::InsufficientFunds { needed: lamports, available: balance };
            &&& (spec_apply_kind(m, tx.from, KindView::Transfer { to, lamports }) is Ok) == (lamports <= balance)
            &&& lamports > balance ==> spec_apply_kind(m, tx.from, KindView::Transfer { to, lamports })
                == Err::<(Accounts, Seq<Seq<char>>), ClutchError>(short)
            &&& (spec_apply_kind(m, tx.from, KindView::Burn { lamports }) is Ok) == (lamports <= balance)
            &&& lamports > balance ==> spec_apply_kind(m, tx.from, KindView::Burn { lamports })
                == Err::<(Accounts, Seq<Seq<char>>), ClutchError>(short)
            &&& (tx.nonce == expected_nonce(m, tx.from) && lamports <= balance
                && (tx.kind == KindView::Transfer { to, lamports } || tx.kind == KindView::Burn { lamports }))
                ==> spec_run(m, tx) is Ok
        }),
{
}

/// A transfer between two different accounts changes nothing of either but
/// their lamports: the sender's drop by the amount and the recipient's rise by
/// it (modulo 2^64); nonce, data, owner and executable flag stay as they were.
/// Run as a transaction, the sender's nonce then goes up by one and the
/// recipient's stays.
pub proof fn law_transfer_moves_only_lamports(m: Accounts, tx: TxView, to: Pubkey, lamports: u64)
    requires
        tx.from != to,
        key_text_round_trips(tx.from),
        key_text_round_trips(to),
        tx.kind == (KindView::Transfer { to, lamports }),
        spec_run(m, tx) is Ok,
    ensures
        ({
            let fk = spec_key_of(tx.from);
            let tk = spec_key_of(to);
            let (fa, ta) = (get_or_new(m, fk), get_or_new(m, tk));
            let m2 = spec_apply_kind(m, tx.from, tx.kind)->Ok_0.0;
            let m3 = spec_apply_tx(m, tx);
            &&& m2[tk].lamports == (ta.lamports + lamports) % 0x1_0000_0000_0000_0000
            &&& m2[tk].nonce == ta.nonce && m2[tk].data == ta.data
            &&& m2[tk].owner == ta.owner && m2[tk].executable == ta.executable
            &&& m2[fk].lamports == fa.lamports - lamports
            &&& m2[fk].nonce == fa.nonce && m2[fk].data == fa.data
            &&& m2[fk].owner == fa.owner && m2[fk].executable == fa.executable
            &&& m3[tk] == m2[tk]
            &&& m3[fk].lamports == m2[fk].lamports
            &&& m3[fk].nonce == (fa.nonce + 1) % 0x1_0000_0000_0000_0000
        }),
{
    lemma_distinct_keys(tx.from, to);
}

/// Only the mint authority can mint: a mint sent by any other key fails.
pub proof fn law_only_authority_mints(m: Accounts, from: Pubkey, to: Pubkey, lamports: u64)
    requires
        spec_pubkey_base58(from.bytes) != MINT_AUTHORITY@,
    ensures
        spec_apply_kind(m, from, KindView::Mint { to, lamports }) == Err::<(Accounts, Seq<Seq<char>>), ClutchError>(
            ClutchError::InvalidSignature,
        ),
{
}

/// A burn never leaves an account with more than it had, and fails rather
/// than go below zero.
pub proof fn law_burn_cannot_overdraw(m: Accounts, from: Pubkey, lamports: u64)
    ensures
        match spec_apply_kind(m, from, KindView::Burn { lamports }) {
            Ok((m1, _)) => m1[spec_key_of(from)].lamports + lamports == get_or_new(m, spec_key_of(from)).lamports,
            Err(e) => get_or_new(m, spec_key_of(from)).lamports < lamports && e == (ClutchError::InsufficientFunds {
                needed: lamports,
                available: get_or_new(m, spec_key_of(from)).lamports,
            }),
        },
{
}

} // verus!
