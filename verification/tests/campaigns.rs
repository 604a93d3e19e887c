use freelancer_marketplace::FreelancerMarketplace;
use freelancer_marketplace::campaign::CampaignStatus;
use freelancer_marketplace::errors::Error;
use freelancer_marketplace::journal::TxReason;

const CUSTODY: u64 = 1000;
const TOKEN: u64 = 1;
const CREATOR: u64 = 5;
const BACKER_A: u64 = 20;
const BACKER_B: u64 = 30;

fn market() -> FreelancerMarketplace {
    let mut m = FreelancerMarketplace::new(CUSTODY);
    m.ledger.mint(TOKEN, BACKER_A, 1_000);
    m.ledger.mint(TOKEN, BACKER_B, 1_000);
    m
}

#[test]
fn create_campaign_starts_active_and_empty() {
    let mut m = market();
    let id = m.create_campaign(CREATOR, 1, 2, 1_000, 100, TOKEN, Vec::new(), 10);
    assert_eq!(id, 1);
    let c = m.get_campaign(id).unwrap();
    assert_eq!(c.creator, CREATOR);
    assert_eq!(c.goal, 1_000);
    assert_eq!(c.raised, 0);
    assert_eq!(c.end_time, 110);
    assert_eq!(c.status, CampaignStatus::Active);
    assert_eq!(c.backers.len(), 0);
}

#[test]
fn fund_campaign_accepted_and_additive_within_window() {
    let mut m = market();
    let id = m.create_campaign(CREATOR, 1, 2, 1_000, 100, TOKEN, Vec::new(), 0);
    m.fund_campaign(BACKER_A, id, 100, 10).unwrap();
    m.fund_campaign(BACKER_B, id, 50, 20).unwrap();
    let c = m.get_campaign(id).unwrap();
    assert_eq!(c.raised, 150);
    assert_eq!(c.backers, vec![BACKER_A, BACKER_B]);
    assert_eq!(m.get_balance(CUSTODY, TOKEN), 150);
    assert_eq!(m.get_balance(BACKER_A, TOKEN), 900);
    assert_eq!(m.transactions.len(), 2);
    assert_eq!(m.transactions[0].reason, TxReason::CampaignFunding);
}

#[test]
fn fund_campaign_rejected_once_closed_or_past_deadline() {
    let mut m = market();
    let id = m.create_campaign(CREATOR, 1, 2, 1_000, 100, TOKEN, Vec::new(), 0);
    assert_eq!(m.fund_campaign(BACKER_A, 99, 10, 10), Err(Error::NotFound));
    assert_eq!(m.fund_campaign(BACKER_A, id, 10, 101), Err(Error::DeadlinePassed));
    m.close_campaign(id, 200).unwrap();
    assert_eq!(m.fund_campaign(BACKER_A, id, 10, 210), Err(Error::InvalidState));
    let c = m.get_campaign(id).unwrap();
    assert_eq!(c.raised, 0);
}

#[test]
fn funding_auto_advances_to_successful_at_goal() {
    let mut m = market();
    let id = m.create_campaign(CREATOR, 1, 2, 100, 100, TOKEN, Vec::new(), 0);
    m.fund_campaign(BACKER_A, id, 60, 10).unwrap();
    assert_eq!(m.get_campaign(id).unwrap().status, CampaignStatus::Active);
    m.fund_campaign(BACKER_B, id, 40, 20).unwrap();
    assert_eq!(m.get_campaign(id).unwrap().status, CampaignStatus::Successful);
    // once resolved, the campaign no longer accepts pledges
    assert_eq!(m.fund_campaign(BACKER_A, id, 10, 30), Err(Error::InvalidState));
}

#[test]
fn closing_failed_campaign_refunds_each_distinct_backer_once() {
    let mut m = market();
    let id = m.create_campaign(CREATOR, 1, 2, 1_000, 100, TOKEN, Vec::new(), 0);
    m.fund_campaign(BACKER_A, id, 100, 10).unwrap();
    m.fund_campaign(BACKER_A, id, 100, 20).unwrap();
    m.fund_campaign(BACKER_B, id, 50, 30).unwrap();
    assert_eq!(m.get_balance(CUSTODY, TOKEN), 250);
    m.close_campaign(id, 200).unwrap();
    // per distinct backer, exactly the sum of that backer's funding entries
    assert_eq!(m.get_balance(BACKER_A, TOKEN), 1_000);
    assert_eq!(m.get_balance(BACKER_B, TOKEN), 1_000);
    // conservation: total refunded equals total raised
    assert_eq!(m.get_balance(CUSTODY, TOKEN), 0);
    assert_eq!(m.get_balance(CREATOR, TOKEN), 0);
    // journal: three funding entries, then exactly two refund entries
    assert_eq!(m.transactions.len(), 5);
    assert_eq!(m.transactions[3].reason, TxReason::CampaignRefund);
    assert_eq!(m.transactions[3].from, CUSTODY);
    assert_eq!(m.transactions[3].to, BACKER_A);
    assert_eq!(m.transactions[3].amount, 200);
    assert_eq!(m.transactions[4].reason, TxReason::CampaignRefund);
    assert_eq!(m.transactions[4].to, BACKER_B);
    assert_eq!(m.transactions[4].amount, 50);
    assert_eq!(m.transactions[3].amount + m.transactions[4].amount, 250);
    assert_eq!(m.get_campaign(id).unwrap().status, CampaignStatus::Closed);
}

#[test]
fn closing_successful_campaign_pays_creator_raised_in_one_transfer() {
    let mut m = market();
    let id = m.create_campaign(CREATOR, 1, 2, 100, 100, TOKEN, Vec::new(), 0);
    m.fund_campaign(BACKER_A, id, 80, 10).unwrap();
    m.fund_campaign(BACKER_B, id, 70, 20).unwrap();
    m.close_campaign(id, 200).unwrap();
    assert_eq!(m.get_balance(CREATOR, TOKEN), 150);
    assert_eq!(m.get_balance(CUSTODY, TOKEN), 0);
    let payouts: Vec<_> = m.transactions.iter().filter(|t| t.reason == TxReason::CampaignPayout).collect();
    assert_eq!(payouts.len(), 1);
    assert_eq!(payouts[0].amount, 150);
    assert_eq!(payouts[0].to, CREATOR);
    assert_eq!(m.get_campaign(id).unwrap().status, CampaignStatus::Closed);
}

#[test]
fn closing_twice_is_rejected_and_pays_nothing_again() {
    let mut m = market();
    let id = m.create_campaign(CREATOR, 1, 2, 100, 100, TOKEN, Vec::new(), 0);
    m.fund_campaign(BACKER_A, id, 150, 10).unwrap();
    m.close_campaign(id, 200).unwrap();
    let creator_after_first = m.get_balance(CREATOR, TOKEN);
    let journal_after_first = m.transactions.len();
    // the documented policy: settling a Closed campaign is rejected
    assert_eq!(m.close_campaign(id, 300), Err(Error::InvalidState));
    assert_eq!(m.get_balance(CREATOR, TOKEN), creator_after_first);
    assert_eq!(m.transactions.len(), journal_after_first);
    assert_eq!(m.get_campaign(id).unwrap().status, CampaignStatus::Closed);
}

#[test]
fn closing_active_campaign_before_deadline_is_rejected() {
    let mut m = market();
    let id = m.create_campaign(CREATOR, 1, 2, 100, 100, TOKEN, Vec::new(), 0);
    assert_eq!(m.close_campaign(id, 50), Err(Error::DeadlineNotReached));
    assert_eq!(m.close_campaign(99, 50), Err(Error::NotFound));
    assert_eq!(m.get_campaign(id).unwrap().status, CampaignStatus::Active);
}

#[test]
fn campaigns_by_status_filters_in_storage_order() {
    let mut m = market();
    let a = m.create_campaign(CREATOR, 1, 2, 100, 100, TOKEN, Vec::new(), 0);
    let b = m.create_campaign(CREATOR, 3, 4, 100, 100, TOKEN, Vec::new(), 0);
    let c = m.create_campaign(CREATOR, 5, 6, 100, 100, TOKEN, Vec::new(), 0);
    m.fund_campaign(BACKER_A, b, 100, 10).unwrap();
    let active = m.get_campaigns_by_status(CampaignStatus::Active);
    assert_eq!(active.len(), 2);
    assert_eq!(active[0].id, a);
    assert_eq!(active[1].id, c);
    let successful = m.get_campaigns_by_status(CampaignStatus::Successful);
    assert_eq!(successful.len(), 1);
    assert_eq!(successful[0].id, b);
}

#[test]
fn close_aborts_whole_settlement_when_custody_cannot_cover() {
    let mut m = market();
    let id = m.create_campaign(CREATOR, 1, 2, 100, 100, TOKEN, Vec::new(), 0);
    m.fund_campaign(BACKER_A, id, 150, 10).unwrap();
    // drain custody behind the campaign's back
    m.multi_transfer(CUSTODY, vec![(99, 150)], TOKEN, TxReason::Other(0), 20).unwrap();
    let journal_before = m.transactions.len();
    assert_eq!(m.close_campaign(id, 200), Err(Error::TransferFailed));
    // no partial settlement: status, journal and balances are untouched
    assert_eq!(m.get_campaign(id).unwrap().status, CampaignStatus::Successful);
    assert_eq!(m.transactions.len(), journal_before);
    assert_eq!(m.get_balance(CREATOR, TOKEN), 0);
}

#[test]
fn closing_failed_campaign_with_no_backers_just_closes() {
    let mut m = market();
    let id = m.create_campaign(CREATOR, 1, 2, 1_000, 100, TOKEN, Vec::new(), 0);
    m.close_campaign(id, 200).unwrap();
    assert_eq!(m.get_campaign(id).unwrap().status, CampaignStatus::Closed);
    assert_eq!(m.transactions.len(), 0);
}

#[test]
fn backer_contribution_is_derived_from_the_journal() {
    let mut m = market();
    let id = m.create_campaign(CREATOR, 1, 2, 1_000, 100, TOKEN, Vec::new(), 0);
    assert_eq!(m.get_backer_contribution(BACKER_A), Some(0));
    m.fund_campaign(BACKER_A, id, 100, 10).unwrap();
    m.fund_campaign(BACKER_A, id, 100, 20).unwrap();
    m.fund_campaign(BACKER_B, id, 50, 30).unwrap();
    // free-form entries with other reasons do not count as contributions
    m.record_transaction(BACKER_A, CUSTODY, 999, TxReason::Other(3), 40);
    assert_eq!(m.get_backer_contribution(BACKER_A), Some(200));
    assert_eq!(m.get_backer_contribution(BACKER_B), Some(50));
}

#[test]
fn funding_tiers_are_kept_verbatim() {
    let mut m = market();
    let tiers = vec![
        freelancer_marketplace::campaign::FundingTier { amount: 10, reward: 1 },
        freelancer_marketplace::campaign::FundingTier { amount: 50, reward: 2 },
    ];
    let id = m.create_campaign(CREATOR, 1, 2, 100, 100, TOKEN, tiers, 0);
    let c = m.get_campaign(id).unwrap();
    assert_eq!(c.tiers.len(), 2);
    assert_eq!(c.tiers[0].amount, 10);
    assert_eq!(c.tiers[1].reward, 2);
}
