use vstd::prelude::*;

verus! {

/// The role a user is given once, at registration.
#[derive(Clone, Copy, PartialEq, Eq, Structural, Debug)]
pub enum UserRole {
    Employer,
    Freelancer,
}

/// A registered participant: an account identity, its role, and the ids of
/// jobs associated with it (referential only).
pub struct User {
    pub address: u64,
    pub role: UserRole,
    pub jobs: Vec<u32>,
}

impl User {
    /// A fresh user with an empty job list.
    pub fn new(address: u64, role: UserRole) -> (r: User)
        ensures
            r.address == address,
            r.role == role,
            r.jobs@ == Seq::<u32>::empty(),
    {
        User { address, role, jobs: Vec::new() }
    }

    /// Appends a job id to the user's association list.
    pub fn add_job(&mut self, job_id: u32)
        ensures
            final(self).address == old(self).address,
            final(self).role == old(self).role,
            final(self).jobs@ == old(self).jobs@.push(job_id),
    {
        self.jobs.push(job_id);
    }
}

/// Field-wise equality between two users, with the job list compared as a
/// sequence; used to state what lookups return.
pub open spec fn user_eq(a: User, b: User) -> bool {
    a.address == b.address && a.role == b.role && a.jobs@ == b.jobs@
}

} // verus!
