//! The ledger funding step: given a target amount and the balances
//! gathered from the ledger, decide which transfer brings the account to
//! exactly the target.

use vstd::prelude::*;

verus! {

/// What a funding step must do so that an account holds exactly a target
/// amount: receive the shortfall from the faucet, return the surplus to
/// it, or nothing.
#[derive(Debug, PartialEq, Eq, Structural)]
pub enum BalanceAction {
    /// The faucet sends this much to the account.
    FundFromFaucet(u128),
    /// The account sends this much back to the faucet.
    ReturnToFaucet(u128),
    /// The balance is already the target.
    Leave,
}

/// The transfer that brings `current` to `amount`.
pub open spec fn settle_action(amount: u128, current: u128) -> BalanceAction {
    if amount > current {
        BalanceAction::FundFromFaucet((amount - current) as u128)
    } else if amount < current {
        BalanceAction::ReturnToFaucet((current - amount) as u128)
    } else {
        BalanceAction::Leave
    }
}

/// Decide how to bring an account's balance to a target amount. The
/// account's and the faucet's combined holdings must exceed the target,
/// so a shortfall never asks the faucet for more than it holds. Amounts
/// are unsigned 128-bit integers; a ledger whose token amounts exceed
/// that range is out of this model's scope.
pub fn settle_balance(amount: u128, current: u128, faucet: u128) -> (r: BalanceAction)
    requires
        current + faucet > amount,
    ensures
        r == settle_action(amount, current),
        r matches BalanceAction::FundFromFaucet(x) ==> x <= faucet,
{
    if amount > current {
        BalanceAction::FundFromFaucet(amount - current)
    } else if amount < current {
        BalanceAction::ReturnToFaucet(current - amount)
    } else {
        BalanceAction::Leave
    }
}

} // verus!
