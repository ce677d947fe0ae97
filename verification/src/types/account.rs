//! Accounts of the L2 state.
use vstd::prelude::*;

use crate::types::pubkey::Pubkey;

verus! {

/// An account held by the rollup.
#[derive(Clone, Debug)]
pub struct L2Account {
    pub lamports: u64,
    pub data: Vec<u8>,
    pub owner: Pubkey,
    pub executable: bool,
    pub nonce: u64,
}

/// The value of an account, its data taken as a sequence.
pub struct AccountView {
    pub lamports: u64,
    pub data: Seq<u8>,
    pub owner: Pubkey,
    pub executable: bool,
    pub nonce: u64,
}

impl View for L2Account {
    type V = AccountView;

    open spec fn view(&self) -> AccountView {
        AccountView {
            lamports: self.lamports,
            data: self.data@,
            owner: self.owner,
            executable: self.executable,
            nonce: self.nonce,
        }
    }
}

/// The system program's key: 32 zero bytes, "11111111111111111111111111111111"
/// in base58.
pub open spec fn system_key() -> Pubkey {
    Pubkey { bytes: vstd::array::spec_array_fill_for_copy_type::<u8, 32>(0u8) }
}

/// The system program's key as base58 text: thirty-two '1's.
pub open spec fn system_key_text() -> Seq<char> {
    Seq::new(32, |i: int| '1')
}

/// An empty account of the system program holding `lamports`.
pub open spec fn spec_account_with(lamports: u64) -> AccountView {
    AccountView {
        lamports,
        data: Seq::empty(),
        owner: system_key(),
        executable: false,
        nonce: 0,
    }
}

impl L2Account {
    /// An empty, non-executable account owned by the system program, with no
    /// lamports and nonce 0.
    pub fn new_system_owned() -> (r: Self)
        ensures
            r@ == spec_account_with(0),
    {
        L2Account { lamports: 0, data: Vec::new(), owner: Pubkey { bytes: [0u8; 32] }, executable: false, nonce: 0 }
    }

    /// A system-owned account holding `lamports`, otherwise as `new_system_owned`.
    pub fn with_lamports(lamports: u64) -> (r: Self)
        ensures
            r@ == spec_account_with(lamports),
    {
        let base = Self::new_system_owned();
        L2Account { lamports, ..base }
    }

    /// A copy of the account.
    pub fn duplicate(&self) -> (r: Self)
        ensures
            r@ == self@,
    {
        let data = self.data.clone();
        assert(data@ =~= self.data@);
        L2Account {
            lamports: self.lamports,
            data,
            owner: self.owner,
            executable: self.executable,
            nonce: self.nonce,
        }
    }
}

} // verus!
