use vstd::prelude::*;
use crate::address::Address;

verus! {

/// A stand-in USDC token for exercising purchases: it accepts every transfer
/// and keeps no balances.
pub struct MockToken;

impl MockToken {
    pub fn transfer(&self, from: &Address, to: &Address, amount: i128) {
        let _ = (from, to, amount);
    }
}

/// A stand-in credit contract for exercising purchases: it accepts every
/// batch transfer and keeps no state.
pub struct MockCredit;

impl MockCredit {
    pub fn transfer_credits(&self, from: &Address, batch_id: u64, to: &Address) {
        let _ = (from, batch_id, to);
    }
}

} // verus!
