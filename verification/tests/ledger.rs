use gherkin_tests::steps::ledger::{settle_balance, BalanceAction};

#[test]
fn shortfall_is_funded_from_the_faucet() {
    assert_eq!(
        settle_balance(10, 4, 100),
        BalanceAction::FundFromFaucet(6)
    );
}

#[test]
fn surplus_is_returned_to_the_faucet() {
    assert_eq!(
        settle_balance(4, 10, 100),
        BalanceAction::ReturnToFaucet(6)
    );
}

#[test]
fn exact_balance_needs_no_transfer() {
    assert_eq!(settle_balance(7, 7, 1), BalanceAction::Leave);
}
