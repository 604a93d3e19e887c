use freelancer_marketplace::FreelancerMarketplace;
use freelancer_marketplace::errors::Error;
use freelancer_marketplace::job::JobStatus;
use freelancer_marketplace::journal::TxReason;
use freelancer_marketplace::user::UserRole;

const CUSTODY: u64 = 1000;
const TOKEN: u64 = 1;
const EMPLOYER: u64 = 10;
const FREELANCER: u64 = 20;

fn market_with_funds() -> FreelancerMarketplace {
    let mut m = FreelancerMarketplace::new(CUSTODY);
    m.ledger.mint(TOKEN, EMPLOYER, 500);
    m
}

#[test]
fn job_lifecycle_escrow_and_payout() {
    let mut m = market_with_funds();
    let id = m.create_job(EMPLOYER, 7, 8, 200, TOKEN, 5).unwrap();
    assert_eq!(id, 1);
    // budget debited from the employer exactly once, at creation
    assert_eq!(m.get_balance(EMPLOYER, TOKEN), 300);
    assert_eq!(m.get_balance(CUSTODY, TOKEN), 200);
    assert_eq!(m.transactions.len(), 1);
    assert_eq!(m.transactions[0].id, 1);
    assert_eq!(m.transactions[0].from, EMPLOYER);
    assert_eq!(m.transactions[0].to, CUSTODY);
    assert_eq!(m.transactions[0].amount, 200);
    assert_eq!(m.transactions[0].reason, TxReason::JobCreation);

    m.submit_proposal(FREELANCER, id, 150).unwrap();
    let j = m.get_job(id).unwrap();
    assert_eq!(j.proposals.len(), 1);
    assert_eq!(j.proposals[0].freelancer, FREELANCER);
    assert_eq!(j.proposals[0].price, 150);

    m.accept_proposal(EMPLOYER, id, FREELANCER).unwrap();
    let j = m.get_job(id).unwrap();
    assert_eq!(j.status, JobStatus::InProgress);
    assert_eq!(j.accepted_freelancer, Some(FREELANCER));

    m.complete_job(FREELANCER, id).unwrap();
    assert_eq!(m.get_job(id).unwrap().status, JobStatus::Completed);

    m.approve_job(EMPLOYER, id, 9).unwrap();
    let j = m.get_job(id).unwrap();
    assert_eq!(j.status, JobStatus::Approved);
    // budget credited to the freelancer exactly once, at approval
    assert_eq!(m.get_balance(FREELANCER, TOKEN), 200);
    assert_eq!(m.get_balance(CUSTODY, TOKEN), 0);
    assert_eq!(m.get_balance(EMPLOYER, TOKEN), 300);
    assert_eq!(m.transactions.len(), 2);
    assert_eq!(m.transactions[1].id, 2);
    assert_eq!(m.transactions[1].from, CUSTODY);
    assert_eq!(m.transactions[1].to, FREELANCER);
    assert_eq!(m.transactions[1].amount, 200);
    assert_eq!(m.transactions[1].reason, TxReason::JobPayment);
}

#[test]
fn create_then_get_returns_fresh_open_job() {
    let mut m = market_with_funds();
    let id = m.create_job(EMPLOYER, 1, 2, 100, TOKEN, 0).unwrap();
    let j = m.get_job(id).unwrap();
    assert_eq!(j.status, JobStatus::Open);
    assert_eq!(j.proposals.len(), 0);
    assert_eq!(j.accepted_freelancer, None);
    assert_eq!(j.employer, EMPLOYER);
    assert_eq!(j.budget, 100);
    assert_eq!(j.token, TOKEN);
}

#[test]
fn submit_proposal_rejected_once_not_open() {
    let mut m = market_with_funds();
    let id = m.create_job(EMPLOYER, 1, 2, 100, TOKEN, 0).unwrap();
    m.accept_proposal(EMPLOYER, id, FREELANCER).unwrap();
    assert_eq!(m.submit_proposal(FREELANCER, id, 50), Err(Error::InvalidState));
    assert_eq!(m.submit_proposal(FREELANCER, 99, 50), Err(Error::NotFound));
}

#[test]
fn duplicate_proposals_are_allowed() {
    let mut m = market_with_funds();
    let id = m.create_job(EMPLOYER, 1, 2, 100, TOKEN, 0).unwrap();
    m.submit_proposal(FREELANCER, id, 50).unwrap();
    m.submit_proposal(FREELANCER, id, 50).unwrap();
    assert_eq!(m.get_job(id).unwrap().proposals.len(), 2);
}

#[test]
fn job_authorization_and_state_errors() {
    let mut m = market_with_funds();
    let id = m.create_job(EMPLOYER, 1, 2, 100, TOKEN, 0).unwrap();
    assert_eq!(m.accept_proposal(99, id, FREELANCER), Err(Error::Unauthorized));
    assert_eq!(m.complete_job(FREELANCER, id), Err(Error::Unauthorized));
    assert_eq!(m.approve_job(EMPLOYER, id, 0), Err(Error::InvalidState));
    m.accept_proposal(EMPLOYER, id, FREELANCER).unwrap();
    assert_eq!(m.accept_proposal(EMPLOYER, id, FREELANCER), Err(Error::InvalidState));
    assert_eq!(m.complete_job(99, id), Err(Error::Unauthorized));
    m.complete_job(FREELANCER, id).unwrap();
    assert_eq!(m.complete_job(FREELANCER, id), Err(Error::InvalidState));
    assert_eq!(m.approve_job(99, id, 0), Err(Error::Unauthorized));
    m.approve_job(EMPLOYER, id, 0).unwrap();
    assert_eq!(m.approve_job(EMPLOYER, id, 0), Err(Error::InvalidState));
}

#[test]
fn create_job_rejected_when_transfer_declined() {
    let mut m = FreelancerMarketplace::new(CUSTODY);
    m.ledger.mint(TOKEN, EMPLOYER, 100);
    assert_eq!(m.create_job(EMPLOYER, 1, 2, 200, TOKEN, 0), Err(Error::TransferFailed));
    assert_eq!(m.jobs.len(), 0);
    assert_eq!(m.transactions.len(), 0);
    assert_eq!(m.get_balance(EMPLOYER, TOKEN), 100);
    assert_eq!(m.get_balance(CUSTODY, TOKEN), 0);
}

#[test]
fn create_job_rejects_non_positive_budget() {
    let mut m = market_with_funds();
    assert_eq!(m.create_job(EMPLOYER, 1, 2, 0, TOKEN, 0), Err(Error::InvalidState));
    assert_eq!(m.create_job(EMPLOYER, 1, 2, -5, TOKEN, 0), Err(Error::InvalidState));
    assert_eq!(m.jobs.len(), 0);
}

#[test]
fn jobs_by_status_returns_exactly_the_unaccepted_jobs() {
    let mut m = market_with_funds();
    let a = m.create_job(EMPLOYER, 1, 2, 10, TOKEN, 0).unwrap();
    let b = m.create_job(EMPLOYER, 3, 4, 10, TOKEN, 0).unwrap();
    let c = m.create_job(EMPLOYER, 5, 6, 10, TOKEN, 0).unwrap();
    m.accept_proposal(EMPLOYER, b, FREELANCER).unwrap();
    let open = m.get_jobs_by_status(JobStatus::Open);
    assert_eq!(open.len(), 2);
    assert_eq!(open[0].id, a);
    assert_eq!(open[1].id, c);
    assert!(open.iter().all(|j| j.accepted_freelancer.is_none()));
    let in_progress = m.get_jobs_by_status(JobStatus::InProgress);
    assert_eq!(in_progress.len(), 1);
    assert_eq!(in_progress[0].id, b);
}

#[test]
fn register_and_get_user() {
    let mut m = FreelancerMarketplace::new(CUSTODY);
    assert!(matches!(m.get_user(EMPLOYER), Err(Error::NotFound)));
    let r = m.register_user(EMPLOYER, UserRole::Employer);
    assert_eq!(r, EMPLOYER);
    let u = m.get_user(EMPLOYER).unwrap();
    assert_eq!(u.address, EMPLOYER);
    assert_eq!(u.role, UserRole::Employer);
    assert_eq!(u.jobs.len(), 0);
    // a role is assigned once and never changed: re-registration is a no-op
    let r2 = m.register_user(EMPLOYER, UserRole::Freelancer);
    assert_eq!(r2, EMPLOYER);
    assert_eq!(m.users.len(), 1);
    assert_eq!(m.get_user(EMPLOYER).unwrap().role, UserRole::Employer);
}

#[test]
fn record_transaction_and_history_filter() {
    let mut m = FreelancerMarketplace::new(CUSTODY);
    m.record_transaction(10, 20, 5, TxReason::Other(77), 1);
    m.record_transaction(20, 30, -7, TxReason::Other(78), 2);
    m.record_transaction(40, 50, 9, TxReason::Other(79), 3);
    assert_eq!(m.transactions[0].id, 1);
    assert_eq!(m.transactions[1].id, 2);
    assert_eq!(m.transactions[2].id, 3);
    let h = m.get_transaction_history(20);
    assert_eq!(h.len(), 2);
    assert_eq!(h[0].id, 1);
    assert_eq!(h[1].id, 2);
    assert_eq!(h[1].amount, -7);
    assert_eq!(m.get_transaction_history(60).len(), 0);
}

#[test]
fn initialize_resets_aggregates_but_not_balances() {
    let mut m = market_with_funds();
    m.register_user(EMPLOYER, UserRole::Employer);
    m.create_job(EMPLOYER, 1, 2, 100, TOKEN, 0).unwrap();
    m.initialize();
    assert_eq!(m.users.len(), 0);
    assert_eq!(m.jobs.len(), 0);
    assert_eq!(m.campaigns.len(), 0);
    assert_eq!(m.transactions.len(), 0);
    assert_eq!(m.regular_payments.len(), 0);
    // gateway balances are external state and survive a reset
    assert_eq!(m.get_balance(EMPLOYER, TOKEN), 400);
    assert_eq!(m.get_balance(CUSTODY, TOKEN), 100);
}
