//! The initial state of the chain: a pre-funded faucet.
use vstd::prelude::*;

use crate::outside::parse_pubkey;
use crate::state::state_manager::{spec_key_of, spec_map_root, StateManager};
use crate::types::account::{spec_account_with, system_key, system_key_text, AccountView, L2Account};
use crate::types::error::ClutchError;

verus! {

/// The faucet's starting balance: a million SOL in lamports.
pub const FAUCET_LAMPORTS: u64 = 1_000_000_000_000_000;

/// The faucet's key, in base58.
pub const FAUCET_PUBKEY: &'static str = "11111111111111111111111111111111";

/// The accounts after seeding the faucet held under `k`: unchanged if it has
/// an account, else with a fresh one holding `FAUCET_LAMPORTS`.
pub open spec fn spec_seeded(m: Map<Seq<u8>, AccountView>, k: Seq<u8>) -> Map<Seq<u8>, AccountView> {
    if m.contains_key(k) { m } else { m.insert(k, spec_account_with(FAUCET_LAMPORTS)) }
}

/// Funds the faucet (the system program's key) with `FAUCET_LAMPORTS`, unless
/// it already has an account. Always succeeds.
pub fn maybe_seed_genesis(state: &mut StateManager) -> (r: Result<(), ClutchError>)
    ensures
        ({
            let k = spec_key_of(system_key());
            &&& r is Ok
            &&& final(state).accounts() == spec_seeded(old(state).accounts(), k)
            &&& if old(state).accounts().contains_key(k) {
                *final(state) == *old(state)
            } else {
                final(state).root() == spec_map_root(final(state).accounts())
            }
        }),
{
    let text = FAUCET_PUBKEY;
    proof {
        reveal_strlit("11111111111111111111111111111111");
        assert(text@ =~= system_key_text());
    }
    let faucet = match parse_pubkey(text) {
        Ok(k) => k,
        Err(e) => return Err(ClutchError::InvalidPubkey(e)),
    };
    if state.get_account(&faucet).is_some() {
        return Ok(());
    }
    state.update_account(&faucet, L2Account::with_lamports(FAUCET_LAMPORTS));
    Ok(())
}

/// Seeding is idempotent: after one seeding the faucet has an account, so a
/// second seeding changes nothing.
pub proof fn law_seeding_is_idempotent(m: Map<Seq<u8>, AccountView>, k: Seq<u8>)
    ensures
        spec_seeded(m, k).contains_key(k),
        spec_seeded(spec_seeded(m, k), k) == spec_seeded(m, k),
{
}

} // verus!
