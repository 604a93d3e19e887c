use vstd::prelude::*;

verus! {

/// The linear lifecycle of a job: no back-edges, no skipped stages and no
/// cancellation path.
#[derive(Clone, Copy, PartialEq, Eq, Structural, Debug)]
pub enum JobStatus {
    Open,
    InProgress,
    Completed,
    Approved,
}

/// A bid on a job: who offers to do the work and at what price. Immutable
/// once appended; a freelancer may submit any number of proposals.
#[derive(Clone, Copy, PartialEq, Eq, Structural, Debug)]
pub struct Proposal {
    pub freelancer: u64,
    pub price: i128,
}

/// A posted job: the employer's escrowed budget, the settlement token, the
/// lifecycle status, the ordered proposals, and the freelancer accepted for
/// the work, if any.
pub struct Job {
    pub id: u32,
    pub employer: u64,
    pub title: u64,
    pub description: u64,
    pub budget: i128,
    pub token: u64,
    pub status: JobStatus,
    pub proposals: Vec<Proposal>,
    pub accepted_freelancer: Option<u64>,
}

/// A job's internal invariant: a freelancer is recorded exactly when the job
/// has left the `Open` stage.
pub open spec fn job_wf(j: Job) -> bool {
    (j.accepted_freelancer is Some) <==> (j.status != JobStatus::Open)
}

/// Field-wise equality between two jobs, with the proposal list compared as a
/// sequence; used to state what lookups return.
pub open spec fn job_eq(a: Job, b: Job) -> bool {
    &&& a.id == b.id
    &&& a.employer == b.employer
    &&& a.title == b.title
    &&& a.description == b.description
    &&& a.budget == b.budget
    &&& a.token == b.token
    &&& a.status == b.status
    &&& a.proposals@ == b.proposals@
    &&& a.accepted_freelancer == b.accepted_freelancer
}

/// How far along the lifecycle a status is.
pub open spec fn job_rank(s: JobStatus) -> int {
    match s {
        JobStatus::Open => 0,
        JobStatus::InProgress => 1,
        JobStatus::Completed => 2,
        JobStatus::Approved => 3,
    }
}

/// The transitions a single operation may make: stay put, or advance one
/// stage along `Open -> InProgress -> Completed -> Approved`.
pub open spec fn job_step_ok(s1: JobStatus, s2: JobStatus) -> bool {
    ||| s2 == s1
    ||| (s1 == JobStatus::Open && s2 == JobStatus::InProgress)
    ||| (s1 == JobStatus::InProgress && s2 == JobStatus::Completed)
    ||| (s1 == JobStatus::Completed && s2 == JobStatus::Approved)
}

/// A job's status only ever advances, and never skips a stage: every allowed
/// transition raises the rank by at most one and never lowers it.
pub proof fn lemma_job_status_advances(s1: JobStatus, s2: JobStatus)
    requires
        job_step_ok(s1, s2),
    ensures
        job_rank(s1) <= job_rank(s2) <= job_rank(s1) + 1,
{
}

/// `Approved` is terminal: no allowed transition leaves it.
pub proof fn lemma_approved_is_terminal(s1: JobStatus, s2: JobStatus)
    requires
        job_step_ok(s1, s2),
        s1 == JobStatus::Approved,
    ensures
        s2 == JobStatus::Approved,
{
}

/// Under the job invariant, a job is `Open` exactly when no freelancer was
/// ever accepted for it.
pub proof fn lemma_open_iff_unaccepted(j: Job)
    requires
        job_wf(j),
    ensures
        (j.status == JobStatus::Open) <==> (j.accepted_freelancer is None),
{
}

impl Job {
    /// A fresh job in the `Open` state with no proposals and no accepted
    /// freelancer.
    pub fn new(id: u32, employer: u64, title: u64, description: u64, budget: i128, token: u64) -> (r: Job)
        ensures
            r.id == id,
            r.employer == employer,
            r.title == title,
            r.description == description,
            r.budget == budget,
            r.token == token,
            r.status == JobStatus::Open,
            r.proposals@ == Seq::<Proposal>::empty(),
            r.accepted_freelancer is None,
            job_wf(r),
    {
        Job {
            id,
            employer,
            title,
            description,
            budget,
            token,
            status: JobStatus::Open,
            proposals: Vec::new(),
            accepted_freelancer: None,
        }
    }

    /// Appends a proposal; everything else is untouched.
    pub fn add_proposal(&mut self, freelancer: u64, price: i128)
        ensures
            final(self).proposals@ == old(self).proposals@.push(Proposal { freelancer, price }),
            final(self).id == old(self).id,
            final(self).employer == old(self).employer,
            final(self).title == old(self).title,
            final(self).description == old(self).description,
            final(self).budget == old(self).budget,
            final(self).token == old(self).token,
            final(self).status == old(self).status,
            final(self).accepted_freelancer == old(self).accepted_freelancer,
    {
        self.proposals.push(Proposal { freelancer, price });
    }

    /// Records the accepted freelancer and moves the job to `InProgress`.
    pub fn accept_proposal(&mut self, freelancer: u64)
        ensures
            final(self).status == JobStatus::InProgress,
            final(self).accepted_freelancer == Some(freelancer),
            final(self).id == old(self).id,
            final(self).employer == old(self).employer,
            final(self).title == old(self).title,
            final(self).description == old(self).description,
            final(self).budget == old(self).budget,
            final(self).token == old(self).token,
            final(self).proposals@ == old(self).proposals@,
            job_wf(*final(self)),
    {
        self.status = JobStatus::InProgress;
        self.accepted_freelancer = Some(freelancer);
    }

    /// Moves the job to `Completed`.
    pub fn complete(&mut self)
        ensures
            final(self).status == JobStatus::Completed,
            final(self).id == old(self).id,
            final(self).employer == old(self).employer,
            final(self).title == old(self).title,
            final(self).description == old(self).description,
            final(self).budget == old(self).budget,
            final(self).token == old(self).token,
            final(self).proposals@ == old(self).proposals@,
            final(self).accepted_freelancer == old(self).accepted_freelancer,
    {
        self.status = JobStatus::Completed;
    }

    /// Moves the job to `Approved`.
    pub fn approve(&mut self)
        ensures
            final(self).status == JobStatus::Approved,
            final(self).id == old(self).id,
            final(self).employer == old(self).employer,
            final(self).title == old(self).title,
            final(self).description == old(self).description,
            final(self).budget == old(self).budget,
            final(self).token == old(self).token,
            final(self).proposals@ == old(self).proposals@,
            final(self).accepted_freelancer == old(self).accepted_freelancer,
    {
        self.status = JobStatus::Approved;
    }
}

} // verus!
