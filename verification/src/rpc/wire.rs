//! Solana transactions as submitted on the wire, held as plain values.
use vstd::prelude::*;

use crate::types::pubkey::Pubkey;

verus! {

/// A compiled instruction of a Solana message.
#[derive(Clone, Debug)]
pub struct WireInstruction {
    pub program_id_index: u8,
    pub accounts: Vec<u8>,
    pub data: Vec<u8>,
}

/// An instruction as values.
pub struct WireInstructionView {
    pub program_id_index: u8,
    pub accounts: Seq<u8>,
    pub data: Seq<u8>,
}

impl View for WireInstruction {
    type V = WireInstructionView;

    open spec fn view(&self) -> WireInstructionView {
        WireInstructionView { program_id_index: self.program_id_index, accounts: self.accounts@, data: self.data@ }
    }
}

/// A legacy Solana transaction: its signatures and its message (header, account
/// keys, recent blockhash and instructions).
#[derive(Clone, Debug)]
pub struct WireTransaction {
    pub signatures: Vec<[u8; 64]>,
    pub num_required_signatures: u8,
    pub num_readonly_signed_accounts: u8,
    pub num_readonly_unsigned_accounts: u8,
    pub account_keys: Vec<Pubkey>,
    pub recent_blockhash: [u8; 32],
    pub instructions: Vec<WireInstruction>,
}

/// A transaction as values.
pub struct WireTxView {
    pub signatures: Seq<[u8; 64]>,
    pub num_required_signatures: u8,
    pub num_readonly_signed_accounts: u8,
    pub num_readonly_unsigned_accounts: u8,
    pub account_keys: Seq<Pubkey>,
    pub recent_blockhash: [u8; 32],
    pub instructions: Seq<WireInstructionView>,
}

impl View for WireTransaction {
    type V = WireTxView;

    open spec fn view(&self) -> WireTxView {
        WireTxView {
            signatures: self.signatures@,
            num_required_signatures: self.num_required_signatures,
            num_readonly_signed_accounts: self.num_readonly_signed_accounts,
            num_readonly_unsigned_accounts: self.num_readonly_unsigned_accounts,
            account_keys: self.account_keys@,
            recent_blockhash: self.recent_blockhash,
            instructions: self.instructions@.map_values(|i: WireInstruction| i@),
        }
    }
}

/// The longest list a Solana message can encode: its lengths are written as
/// 16-bit numbers.
pub const SHORT_VEC_MAX: usize = 65535;

/// Every list of the message (account keys, instructions, and each
/// instruction's accounts and data) is short enough to be encoded.
pub open spec fn fits_short_vecs(w: WireTxView) -> bool {
    &&& w.account_keys.len() <= SHORT_VEC_MAX
    &&& w.instructions.len() <= SHORT_VEC_MAX
    &&& forall|i: int| 0 <= i < w.instructions.len() ==> {
        &&& (#[trigger] w.instructions[i]).accounts.len() <= SHORT_VEC_MAX
        &&& w.instructions[i].data.len() <= SHORT_VEC_MAX
    }
}

} // verus!
