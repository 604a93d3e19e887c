use freelancer_marketplace::FreelancerMarketplace;
use freelancer_marketplace::errors::Error;
use freelancer_marketplace::journal::TxReason;

const CUSTODY: u64 = 1000;
const TOKEN: u64 = 1;
const PAYER: u64 = 10;
const PAYEE: u64 = 20;

#[test]
fn regular_payment_fires_once_per_interval_without_drift() {
    let mut m = FreelancerMarketplace::new(CUSTODY);
    m.ledger.mint(TOKEN, PAYER, 500);
    let id = m.create_regular_payment(PAYER, PAYEE, 50, 100, TxReason::Other(9), 0);
    assert_eq!(id, 1);
    assert_eq!(m.regular_payments[0].next_payment, 100);

    m.execute_regular_payments(TOKEN, 100);
    assert_eq!(m.get_balance(PAYER, TOKEN), 450);
    assert_eq!(m.get_balance(PAYEE, TOKEN), 50);
    assert_eq!(m.transactions.len(), 1);
    assert_eq!(m.transactions[0].reason, TxReason::Other(9));
    // advances by exactly the interval
    assert_eq!(m.regular_payments[0].next_payment, 200);

    // a second pass within the same interval performs no transfer
    m.execute_regular_payments(TOKEN, 150);
    assert_eq!(m.get_balance(PAYER, TOKEN), 450);
    assert_eq!(m.get_balance(PAYEE, TOKEN), 50);
    assert_eq!(m.transactions.len(), 1);
    assert_eq!(m.regular_payments[0].next_payment, 200);

    // fired late, the cadence is kept: next due stays on the original grid
    m.execute_regular_payments(TOKEN, 250);
    assert_eq!(m.get_balance(PAYEE, TOKEN), 100);
    assert_eq!(m.regular_payments[0].next_payment, 300);
}

#[test]
fn declined_payment_is_left_unchanged_and_retried() {
    let mut m = FreelancerMarketplace::new(CUSTODY);
    m.create_regular_payment(PAYER, PAYEE, 50, 100, TxReason::Other(9), 0);
    // the payer cannot cover the payment: nothing fires, nothing advances
    m.execute_regular_payments(TOKEN, 100);
    assert_eq!(m.transactions.len(), 0);
    assert_eq!(m.regular_payments[0].next_payment, 100);
    // once funded, the next pass fires it
    m.ledger.mint(TOKEN, PAYER, 500);
    m.execute_regular_payments(TOKEN, 120);
    assert_eq!(m.get_balance(PAYEE, TOKEN), 50);
    assert_eq!(m.regular_payments[0].next_payment, 200);
}

#[test]
fn scheduler_pass_commits_each_payment_independently() {
    let mut m = FreelancerMarketplace::new(CUSTODY);
    m.ledger.mint(TOKEN, PAYER, 60);
    m.create_regular_payment(PAYER, PAYEE, 50, 100, TxReason::Other(1), 0);
    m.create_regular_payment(PAYER, PAYEE, 50, 100, TxReason::Other(2), 0);
    m.execute_regular_payments(TOKEN, 100);
    // the first fired; the second could not be covered and waits
    assert_eq!(m.get_balance(PAYEE, TOKEN), 50);
    assert_eq!(m.transactions.len(), 1);
    assert_eq!(m.regular_payments[0].next_payment, 200);
    assert_eq!(m.regular_payments[1].next_payment, 100);
}

#[test]
fn multi_transfer_moves_and_journals_each_recipient() {
    let mut m = FreelancerMarketplace::new(CUSTODY);
    m.ledger.mint(TOKEN, PAYER, 100);
    m.multi_transfer(PAYER, vec![(20, 30), (30, 50)], TOKEN, TxReason::Other(5), 7).unwrap();
    assert_eq!(m.get_balance(PAYER, TOKEN), 20);
    assert_eq!(m.get_balance(20, TOKEN), 30);
    assert_eq!(m.get_balance(30, TOKEN), 50);
    assert_eq!(m.transactions.len(), 2);
    assert_eq!(m.transactions[0].to, 20);
    assert_eq!(m.transactions[0].amount, 30);
    assert_eq!(m.transactions[1].to, 30);
    assert_eq!(m.transactions[1].amount, 50);
}

#[test]
fn multi_transfer_is_all_or_nothing() {
    let mut m = FreelancerMarketplace::new(CUSTODY);
    m.ledger.mint(TOKEN, PAYER, 100);
    let r = m.multi_transfer(PAYER, vec![(20, 30), (30, 500)], TOKEN, TxReason::Other(5), 7);
    assert_eq!(r, Err(Error::TransferFailed));
    assert_eq!(m.get_balance(PAYER, TOKEN), 100);
    assert_eq!(m.get_balance(20, TOKEN), 0);
    assert_eq!(m.transactions.len(), 0);
}

#[test]
fn mint_and_get_balance() {
    let mut m = FreelancerMarketplace::new(CUSTODY);
    assert_eq!(m.get_balance(PAYER, TOKEN), 0);
    m.ledger.mint(TOKEN, PAYER, 123);
    m.ledger.mint(TOKEN, PAYER, 7);
    assert_eq!(m.get_balance(PAYER, TOKEN), 130);
    assert_eq!(m.get_balance(PAYER, 2), 0);
    // a transfer of a negative amount is declined by the gateway
    assert_eq!(m.ledger.transfer(TOKEN, PAYER, PAYEE, -1), Err(Error::TransferFailed));
    assert_eq!(m.get_balance(PAYER, TOKEN), 130);
}
