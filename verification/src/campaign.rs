use vstd::prelude::*;

verus! {

/// A campaign's lifecycle: `Active` until settlement resolves it
/// `Successful` or `Failed`; `Closed` is the single absorbing terminal
/// state, reached from either.
#[derive(Clone, Copy, PartialEq, Eq, Structural, Debug)]
pub enum CampaignStatus {
    Active,
    Successful,
    Failed,
    Closed,
}

/// A static, informational reward step of a campaign; never enforced
/// against contribution amounts.
#[derive(Clone, Copy, PartialEq, Eq, Structural, Debug)]
pub struct FundingTier {
    pub amount: i128,
    pub reward: u64,
}

/// A pledge-based campaign. `raised` is the cached running total of all
/// transferred-in pledges; `backers` holds one entry per funding event, so
/// it may contain duplicates.
pub struct Campaign {
    pub id: u32,
    pub creator: u64,
    pub title: u64,
    pub description: u64,
    pub goal: i128,
    pub raised: i128,
    pub end_time: u64,
    pub token: u64,
    pub status: CampaignStatus,
    pub backers: Vec<u64>,
    pub tiers: Vec<FundingTier>,
}

/// A campaign's internal invariant: the running total never goes negative,
/// since only accepted non-negative pledges are added to it.
pub open spec fn campaign_wf(c: Campaign) -> bool {
    0 <= c.raised
}

/// Field-wise equality between two campaigns, with backer and tier lists
/// compared as sequences; used to state what lookups return.
pub open spec fn campaign_eq(a: Campaign, b: Campaign) -> bool {
    &&& a.id == b.id
    &&& a.creator == b.creator
    &&& a.title == b.title
    &&& a.description == b.description
    &&& a.goal == b.goal
    &&& a.raised == b.raised
    &&& a.end_time == b.end_time
    &&& a.token == b.token
    &&& a.status == b.status
    &&& a.backers@ == b.backers@
    &&& a.tiers@ == b.tiers@
}

/// How a settlement resolves a campaign: one still `Active` becomes
/// `Successful` when the goal was reached and `Failed` otherwise; one
/// already resolved keeps its resolution.
pub open spec fn resolved_status(c: Campaign) -> CampaignStatus {
    if c.status == CampaignStatus::Active {
        if c.raised >= c.goal {
            CampaignStatus::Successful
        } else {
            CampaignStatus::Failed
        }
    } else {
        c.status
    }
}

} // verus!
