//! Accounting and lifecycle core of a labor marketplace with an escrow-held
//! custody balance, a crowdfunding facility, a recurring-payment scheduler
//! and the append-only transaction journal they all share.
//!
//! The external collaborators of the system — the durable key-value store,
//! the caller-authentication layer, the clock, and the atomic fund-transfer
//! gateway — are modelled with plain values: identities, tokens and opaque
//! text are integer ids, the clock is a timestamp argument to each
//! operation, and token balances live in a [`ledger::TokenLedger`] whose
//! transfers are atomic and all-or-nothing. Every operation either
//! completes in full or returns an [`errors::Error`] with no state changed.

use vstd::prelude::*;

pub mod campaign;
pub mod errors;
pub mod job;
pub mod journal;
pub mod ledger;
pub mod payment;
pub mod user;

use crate::campaign::{Campaign, CampaignStatus, FundingTier, campaign_eq, campaign_wf, resolved_status};
use crate::errors::Error;
use crate::job::{Job, JobStatus, Proposal, job_eq, job_step_ok, job_wf};
use crate::journal::{
    Transaction, TxReason, contribution, contribution_fits, dedup, lemma_dedup_contains,
    lemma_dedup_len, lemma_refund_conservation, refund_total, total_funding,
};
use crate::ledger::{TokenLedger, balances, spec_balance, multi_xfer, xfer_map, xfer_ok};
use crate::payment::RegularPayment;
use crate::user::{User, UserRole, user_eq};

verus! {

/// Copies a vector of plain values.
fn copy_vec<T: Copy>(v: &Vec<T>) -> (r: Vec<T>)
    ensures
        r@ == v@,
{
    let mut r: Vec<T> = Vec::new();
    let mut i: usize = 0;
    let n = v.len();
    while i < n
        invariant
            n == v@.len(),
            i <= n,
            r@ == v@.take(i as int),
        decreases n - i,
    {
        let e = v[i];
        r.push(e);
        proof {
            assert(v@.take(i as int + 1) =~= v@.take(i as int).push(v@[i as int]));
        }
        i = i + 1;
    }
    proof {
        assert(v@.take(n as int) =~= v@);
    }
    r
}

/// Whether a vector of identities contains one.
fn vec_contains_u64(v: &Vec<u64>, x: u64) -> (r: bool)
    ensures
        r == v@.contains(x),
{
    let mut i: usize = 0;
    let n = v.len();
    while i < n
        invariant
            n == v@.len(),
            i <= n,
            forall|j: int| 0 <= j < i ==> v@[j] != x,
        decreases n - i,
    {
        if v[i] == x {
            assert(v@.contains(x));
            return true;
        }
        i = i + 1;
    }
    assert(!v@.contains(x)) by {
        if v@.contains(x) {
            let j = choose|j: int| 0 <= j < v@.len() && v@[j] == x;
        }
    }
    false
}

/// No registered user carries this address.
pub open spec fn no_user(s: Seq<User>, address: u64) -> bool {
    forall|i: int| 0 <= i < s.len() ==> (#[trigger] s[i]).address != address
}

/// `i` is the first slot registered under `address`.
pub open spec fn first_user_at(s: Seq<User>, address: u64, i: int) -> bool {
    &&& 0 <= i < s.len()
    &&& s[i].address == address
    &&& forall|j: int| 0 <= j < i ==> (#[trigger] s[j]).address != address
}

/// The journal entries that name `address` as either party, oldest first.
pub open spec fn history_of(j: Seq<Transaction>, address: u64) -> Seq<Transaction>
    decreases j.len(),
{
    if j.len() == 0 {
        Seq::empty()
    } else {
        let rest = history_of(j.drop_last(), address);
        if j.last().from == address || j.last().to == address {
            rest.push(j.last())
        } else {
            rest
        }
    }
}

/// The jobs whose status is `status`, in storage order.
pub open spec fn jobs_with_status(s: Seq<Job>, status: JobStatus) -> Seq<Job>
    decreases s.len(),
{
    if s.len() == 0 {
        Seq::empty()
    } else {
        let rest = jobs_with_status(s.drop_last(), status);
        if s.last().status == status {
            rest.push(s.last())
        } else {
            rest
        }
    }
}

/// The campaigns whose status is `status`, in storage order.
pub open spec fn campaigns_with_status(s: Seq<Campaign>, status: CampaignStatus) -> Seq<Campaign>
    decreases s.len(),
{
    if s.len() == 0 {
        Seq::empty()
    } else {
        let rest = campaigns_with_status(s.drop_last(), status);
        if s.last().status == status {
            rest.push(s.last())
        } else {
            rest
        }
    }
}

/// A status filter returns exactly the jobs in that status: every returned
/// job carries the status and comes from the store, and every stored job in
/// that status is returned. With [`job::lemma_open_iff_unaccepted`], the
/// `Open` filter is exactly the set of jobs never yet accepted.
pub proof fn lemma_jobs_with_status_exact(s: Seq<Job>, status: JobStatus)
    ensures
        forall|k: int| 0 <= k < jobs_with_status(s, status).len()
            ==> (#[trigger] jobs_with_status(s, status)[k]).status == status
                && s.contains(jobs_with_status(s, status)[k]),
        forall|i: int| 0 <= i < s.len() && (#[trigger] s[i]).status == status
            ==> jobs_with_status(s, status).contains(s[i]),
    decreases s.len(),
{
    if s.len() == 0 {
    } else {
        let sp = s.drop_last();
        lemma_jobs_with_status_exact(sp, status);
        let f = jobs_with_status(s, status);
        let fp = jobs_with_status(sp, status);
        assert forall|k: int| 0 <= k < f.len() implies
            (#[trigger] f[k]).status == status && s.contains(f[k])
        by {
            if k < fp.len() {
                assert(f[k] == fp[k]);
                assert(sp.contains(fp[k]));
                let w = choose|w: int| 0 <= w < sp.len() && sp[w] == fp[k];
                assert(s[w] == fp[k]);
                assert(s.contains(f[k]));
            } else {
                assert(f[k] == s.last());
                assert(s[s.len() - 1] == s.last());
                assert(s.contains(f[k]));
            }
        }
        assert forall|i: int| 0 <= i < s.len() && (#[trigger] s[i]).status == status implies
            f.contains(s[i])
        by {
            if i < s.len() - 1 {
                assert(sp[i] == s[i]);
                assert(fp.contains(s[i]));
                let w = choose|w: int| 0 <= w < fp.len() && fp[w] == s[i];
                assert(f[w] == s[i]);
                assert(f.contains(s[i]));
            } else {
                assert(s[i] == s.last());
                assert(f[f.len() - 1] == s.last());
                assert(f.contains(s[i]));
            }
        }
    }
}

/// The refunds a failed campaign owes: one per distinct backer, in order of
/// first occurrence, each of that backer's journal-derived contribution.
pub open spec fn refund_pairs(j: Seq<Transaction>, custody: u64, backers: Seq<u64>) -> Seq<(u64, i128)> {
    Seq::new(
        dedup(backers).len(),
        |i: int| (dedup(backers)[i], contribution(j, custody, dedup(backers)[i]) as i128),
    )
}

/// Every distinct backer's derived contribution is representable at every
/// step of its summation.
pub open spec fn contributions_fit_all(j: Seq<Transaction>, custody: u64, backers: Seq<u64>) -> bool {
    forall|i: int| 0 <= i < dedup(backers).len()
        ==> contribution_fits(j, custody, #[trigger] dedup(backers)[i])
}

/// The journal entries a failed campaign's settlement appends: one refund
/// per distinct backer, ids continuing the monotonic counter.
pub open spec fn refund_txs(j: Seq<Transaction>, custody: u64, backers: Seq<u64>, now: u64) -> Seq<Transaction> {
    Seq::new(
        dedup(backers).len(),
        |i: int| Transaction {
            id: (j.len() + i + 1) as u32,
            from: custody,
            to: dedup(backers)[i],
            amount: contribution(j, custody, dedup(backers)[i]) as i128,
            reason: TxReason::CampaignRefund,
            timestamp: now,
        },
    )
}

/// What one scheduler pass does with one payment against the current
/// balances and journal: a payment that is due, whose advanced due time is
/// representable and whose transfer the gateway accepts fires — the funds
/// move, one entry is journaled, and `next_payment` advances by exactly
/// `interval` — and any other payment is left untouched, to be retried on a
/// later pass.
pub open spec fn pay_step(m: Map<(u64, u64), int>, p: RegularPayment, token: u64, now: u64, j: Seq<Transaction>) -> (Map<(u64, u64), int>, RegularPayment, Seq<Transaction>) {
    if p.next_payment <= now && p.next_payment + p.interval <= u64::MAX && xfer_ok(m, token, p.from, p.to, p.amount) {
        (
            xfer_map(m, token, p.from, p.to, p.amount),
            RegularPayment {
                id: p.id,
                from: p.from,
                to: p.to,
                amount: p.amount,
                interval: p.interval,
                next_payment: (p.next_payment + p.interval) as u64,
                message: p.message,
            },
            j.push(Transaction {
                id: (j.len() + 1) as u32,
                from: p.from,
                to: p.to,
                amount: p.amount,
                reason: p.message,
                timestamp: now,
            }),
        )
    } else {
        (m, p, j)
    }
}

/// One whole scheduler pass: the payments are visited in storage order,
/// each step seeing the balances and journal the previous steps left.
pub open spec fn run_payments(m: Map<(u64, u64), int>, ps: Seq<RegularPayment>, token: u64, now: u64, j: Seq<Transaction>) -> (Map<(u64, u64), int>, Seq<RegularPayment>, Seq<Transaction>)
    decreases ps.len(),
{
    if ps.len() == 0 {
        (m, Seq::empty(), j)
    } else {
        let s = pay_step(m, ps[0], token, now, j);
        let rest = run_payments(s.0, ps.subrange(1, ps.len() as int), token, now, s.2);
        (rest.0, seq![s.1] + rest.1, rest.2)
    }
}

/// The total amount a batch of journal entries moves.
pub open spec fn sum_amounts(ts: Seq<Transaction>) -> int
    decreases ts.len(),
{
    if ts.len() == 0 {
        0
    } else {
        sum_amounts(ts.drop_last()) + ts.last().amount as int
    }
}

proof fn lemma_sum_refund_prefix(j: Seq<Transaction>, custody: u64, backers: Seq<u64>, now: u64, k: int)
    requires
        contributions_fit_all(j, custody, backers),
        0 <= k <= dedup(backers).len(),
    ensures
        sum_amounts(refund_txs(j, custody, backers, now).take(k))
            == refund_total(j, custody, dedup(backers).take(k)),
    decreases k,
{
    let txs = refund_txs(j, custody, backers, now);
    let d = dedup(backers);
    if k == 0 {
        assert(txs.take(0) =~= Seq::<Transaction>::empty());
        assert(d.take(0) =~= Seq::<u64>::empty());
    } else {
        lemma_sum_refund_prefix(j, custody, backers, now, k - 1);
        assert(txs.take(k).drop_last() =~= txs.take(k - 1));
        assert(d.take(k).drop_last() =~= d.take(k - 1));
        assert(txs.take(k).last() == txs[k - 1]);
        assert(d.take(k).last() == d[k - 1]);
        assert(contribution_fits(j, custody, d[k - 1]));
        assert(j.take(j.len() as int) =~= j);
        assert(i128::MIN <= contribution(j, custody, d[k - 1]) <= i128::MAX);
        assert(txs[k - 1].amount as int == contribution(j, custody, d[k - 1]));
    }
}

/// The conservation law of a failed settlement, stated over exactly the
/// entries the settlement appends: when every campaign-funding entry in the
/// journal came from someone in the backer list, and every distinct
/// backer's contribution is representable, the refund entries sum to
/// exactly the total of all campaign-funding entries in the journal.
pub proof fn lemma_refund_txs_conserve(j: Seq<Transaction>, custody: u64, backers: Seq<u64>, now: u64)
    requires
        contributions_fit_all(j, custody, backers),
        forall|i: int|
            0 <= i < j.len() && (#[trigger] j[i]).to == custody && j[i].reason == TxReason::CampaignFunding
                ==> backers.contains(j[i].from),
    ensures
        sum_amounts(refund_txs(j, custody, backers, now)) == total_funding(j, custody),
{
    let d = dedup(backers);
    lemma_sum_refund_prefix(j, custody, backers, now, d.len() as int);
    assert(refund_txs(j, custody, backers, now).take(d.len() as int)
        =~= refund_txs(j, custody, backers, now));
    assert(d.take(d.len() as int) =~= d);
    lemma_refund_conservation(j, custody, backers);
}

/// The two marketplace states hold the same data: an aborted operation
/// leaves no partial mutation behind.
pub open spec fn unchanged(a: FreelancerMarketplace, b: FreelancerMarketplace) -> bool {
    &&& a.custody == b.custody
    &&& a.users@ == b.users@
    &&& a.jobs@ == b.jobs@
    &&& a.campaigns@ == b.campaigns@
    &&& a.transactions@ == b.transactions@
    &&& a.regular_payments@ == b.regular_payments@
    &&& a.ledger.entries@ == b.ledger.entries@
}

/// The journal entry an operation appends: its id continues the monotonic
/// counter, one past the current journal length.
pub open spec fn tx_at(j: Seq<Transaction>, from: u64, to: u64, amount: i128, reason: TxReason, now: u64) -> Transaction {
    Transaction { id: (j.len() + 1) as u32, from, to, amount, reason, timestamp: now }
}

/// The whole marketplace: one repository per aggregate kind, the shared
/// journal, and the model of the external token balances. `custody` is the
/// account that escrows job budgets and campaign pledges.
pub struct FreelancerMarketplace {
    pub custody: u64,
    pub users: Vec<User>,
    pub jobs: Vec<Job>,
    pub campaigns: Vec<Campaign>,
    pub transactions: Vec<Transaction>,
    pub regular_payments: Vec<RegularPayment>,
    pub ledger: TokenLedger,
}

impl FreelancerMarketplace {
    /// The marketplace invariant: every aggregate sits at the slot its
    /// auto-incremented id names (ids start at 1 and are never reused), and
    /// each aggregate's own invariant holds.
    pub open spec fn wf(self) -> bool {
        &&& forall|i: int| 0 <= i < self.jobs@.len()
            ==> (#[trigger] self.jobs@[i]).id as int == i + 1 && job_wf(self.jobs@[i])
        &&& forall|i: int| 0 <= i < self.campaigns@.len()
            ==> (#[trigger] self.campaigns@[i]).id as int == i + 1 && campaign_wf(self.campaigns@[i])
        &&& forall|i: int| 0 <= i < self.transactions@.len()
            ==> (#[trigger] self.transactions@[i]).id as int == i + 1
        &&& forall|i: int| 0 <= i < self.regular_payments@.len()
            ==> (#[trigger] self.regular_payments@[i]).id as int == i + 1
    }

    /// The balance of `account` in `token`, as the gateway holds it.
    pub open spec fn bal(self, token: u64, account: u64) -> int {
        spec_balance(self.ledger.entries@, token, account)
    }

    /// An empty marketplace whose custody account is `custody`.
    pub fn new(custody: u64) -> (r: FreelancerMarketplace)
        ensures
            r.custody == custody,
            r.users@ == Seq::<User>::empty(),
            r.jobs@ == Seq::<Job>::empty(),
            r.campaigns@ == Seq::<Campaign>::empty(),
            r.transactions@ == Seq::<Transaction>::empty(),
            r.regular_payments@ == Seq::<RegularPayment>::empty(),
            r.ledger.entries@ == Seq::<ledger::BalanceEntry>::empty(),
            r.wf(),
    {
        FreelancerMarketplace {
            custody,
            users: Vec::new(),
            jobs: Vec::new(),
            campaigns: Vec::new(),
            transactions: Vec::new(),
            regular_payments: Vec::new(),
            ledger: TokenLedger::new(),
        }
    }

    /// Resets every aggregate collection and counter to its seeded, empty
    /// state. A second call is a full reset again — this is the one
    /// documented meaning of re-initialization here. Token balances model
    /// state held by the external gateway, so they are untouched.
    pub fn initialize(&mut self)
        ensures
            final(self).custody == old(self).custody,
            final(self).users@ == Seq::<User>::empty(),
            final(self).jobs@ == Seq::<Job>::empty(),
            final(self).campaigns@ == Seq::<Campaign>::empty(),
            final(self).transactions@ == Seq::<Transaction>::empty(),
            final(self).regular_payments@ == Seq::<RegularPayment>::empty(),
            final(self).ledger.entries@ == old(self).ledger.entries@,
            final(self).wf(),
    {
        self.users = Vec::new();
        self.jobs = Vec::new();
        self.campaigns = Vec::new();
        self.transactions = Vec::new();
        self.regular_payments = Vec::new();
    }

    /// The index of the first user slot registered under `address`.
    fn find_user(&self, address: u64) -> (r: Option<usize>)
        ensures
            match r {
                Some(i) => first_user_at(self.users@, address, i as int),
                None => no_user(self.users@, address),
            },
    {
        let mut i: usize = 0;
        let n = self.users.len();
        while i < n
            invariant
                n == self.users@.len(),
                i <= n,
                forall|j: int| 0 <= j < i ==> (#[trigger] self.users@[j]).address != address,
            decreases n - i,
        {
            if self.users[i].address == address {
                return Some(i);
            }
            i = i + 1;
        }
        None
    }

    /// Registers `address` under `role` with a fresh, empty record and
    /// returns the address. A role is assigned once, at registration, and
    /// never changed: registering an already-registered address is a no-op
    /// that leaves the stored role and job list untouched and still returns
    /// the address.
    pub fn register_user(&mut self, address: u64, role: UserRole) -> (r: u64)
        requires
            old(self).wf(),
        ensures
            r == address,
            no_user(old(self).users@, address) ==> {
                &&& final(self).users@.len() == old(self).users@.len() + 1
                &&& final(self).users@.take(old(self).users@.len() as int) == old(self).users@
                &&& final(self).users@.last().address == address
                &&& final(self).users@.last().role == role
                &&& final(self).users@.last().jobs@ == Seq::<u32>::empty()
            },
            !no_user(old(self).users@, address) ==> final(self).users@ == old(self).users@,
            final(self).custody == old(self).custody,
            final(self).jobs@ == old(self).jobs@,
            final(self).campaigns@ == old(self).campaigns@,
            final(self).transactions@ == old(self).transactions@,
            final(self).regular_payments@ == old(self).regular_payments@,
            final(self).ledger.entries@ == old(self).ledger.entries@,
            final(self).wf(),
    {
        match self.find_user(address) {
            Some(_) => {},
            None => {
                let u = User::new(address, role);
                proof {
                    assert(self.users@.push(u).take(self.users@.len() as int) =~= self.users@);
                }
                self.users.push(u);
            },
        }
        address
    }

    /// Looks a user up by address; `NotFound` exactly when the address was
    /// never registered.
    pub fn get_user(&self, address: u64) -> (r: Result<User, Error>)
        ensures
            r is Ok <==> !no_user(self.users@, address),
            r is Err ==> r == Err::<User, Error>(Error::NotFound),
            r is Ok ==> exists|i: int|
                #[trigger] first_user_at(self.users@, address, i) && user_eq(r.unwrap(), self.users@[i]),
    {
        match self.find_user(address) {
            Some(i) => {
                let jobs = copy_vec(&self.users[i].jobs);
                let role = self.users[i].role;
                let addr = self.users[i].address;
                Ok(User { address: addr, role, jobs })
            },
            None => Err(Error::NotFound),
        }
    }

    /// Appends one journal entry with the next monotonic id.
    fn push_tx(&mut self, from: u64, to: u64, amount: i128, reason: TxReason, now: u64)
        requires
            old(self).wf(),
            old(self).transactions@.len() < u32::MAX,
        ensures
            final(self).transactions@ == old(self).transactions@.push(
                tx_at(old(self).transactions@, from, to, amount, reason, now),
            ),
            final(self).custody == old(self).custody,
            final(self).users@ == old(self).users@,
            final(self).jobs@ == old(self).jobs@,
            final(self).campaigns@ == old(self).campaigns@,
            final(self).regular_payments@ == old(self).regular_payments@,
            final(self).ledger.entries@ == old(self).ledger.entries@,
            final(self).wf(),
    {
        let id = (self.transactions.len() as u32) + 1;
        self.transactions.push(Transaction { id, from, to, amount, reason, timestamp: now });
    }

    /// Writes one free-form journal entry: always succeeds, validating
    /// neither the amount's sign nor the parties' distinctness. Moves no
    /// funds.
    pub fn record_transaction(&mut self, from: u64, to: u64, amount: i128, reason: TxReason, now: u64)
        requires
            old(self).wf(),
            old(self).transactions@.len() < u32::MAX,
        ensures
            final(self).transactions@ == old(self).transactions@.push(
                tx_at(old(self).transactions@, from, to, amount, reason, now),
            ),
            final(self).custody == old(self).custody,
            final(self).users@ == old(self).users@,
            final(self).jobs@ == old(self).jobs@,
            final(self).campaigns@ == old(self).campaigns@,
            final(self).regular_payments@ == old(self).regular_payments@,
            final(self).ledger.entries@ == old(self).ledger.entries@,
            final(self).wf(),
    {
        self.push_tx(from, to, amount, reason, now);
    }

    /// Every journal entry that names `address` as either party, oldest
    /// first.
    pub fn get_transaction_history(&self, address: u64) -> (r: Vec<Transaction>)
        ensures
            r@ == history_of(self.transactions@, address),
    {
        let mut r: Vec<Transaction> = Vec::new();
        let mut i: usize = 0;
        let n = self.transactions.len();
        while i < n
            invariant
                n == self.transactions@.len(),
                i <= n,
                r@ == history_of(self.transactions@.take(i as int), address),
            decreases n - i,
        {
            let t = self.transactions[i];
            if t.from == address || t.to == address {
                r.push(t);
            }
            proof {
                assert(self.transactions@.take(i as int + 1).drop_last()
                    =~= self.transactions@.take(i as int));
                assert(self.transactions@.take(i as int + 1).last() == self.transactions@[i as int]);
            }
            i = i + 1;
        }
        proof {
            assert(self.transactions@.take(n as int) =~= self.transactions@);
        }
        r
    }

    /// Posts a job: atomically moves `budget` from the employer into
    /// custody, stores the job in the `Open` state under the next id, and
    /// journals the deposit. A non-positive budget is rejected before any
    /// movement; a declined transfer aborts the operation with no state
    /// change, so the budget is escrowed exactly once, at creation.
    pub fn create_job(&mut self, employer: u64, title: u64, description: u64, budget: i128, token: u64, now: u64) -> (r: Result<u32, Error>)
        requires
            old(self).wf(),
            old(self).jobs@.len() < u32::MAX,
            old(self).transactions@.len() < u32::MAX,
        ensures
            r is Ok <==> (budget > 0 && xfer_ok(balances(old(self).ledger.entries@), token, employer, old(self).custody, budget)),
            budget <= 0 ==> r == Err::<u32, Error>(Error::InvalidState),
            budget > 0 && !xfer_ok(balances(old(self).ledger.entries@), token, employer, old(self).custody, budget)
                ==> r == Err::<u32, Error>(Error::TransferFailed),
            r is Err ==> unchanged(*final(self), *old(self)),
            r is Ok ==> {
                &&& r.unwrap() as int == old(self).jobs@.len() + 1
                &&& final(self).jobs@.len() == old(self).jobs@.len() + 1
                &&& final(self).jobs@.take(old(self).jobs@.len() as int) == old(self).jobs@
                &&& final(self).jobs@.last().id == r.unwrap()
                &&& final(self).jobs@.last().employer == employer
                &&& final(self).jobs@.last().title == title
                &&& final(self).jobs@.last().description == description
                &&& final(self).jobs@.last().budget == budget
                &&& final(self).jobs@.last().token == token
                &&& final(self).jobs@.last().status == JobStatus::Open
                &&& final(self).jobs@.last().proposals@ == Seq::<Proposal>::empty()
                &&& final(self).jobs@.last().accepted_freelancer is None
                &&& balances(final(self).ledger.entries@)
                    == xfer_map(balances(old(self).ledger.entries@), token, employer, old(self).custody, budget)
                &&& final(self).transactions@ == old(self).transactions@.push(
                    tx_at(old(self).transactions@, employer, old(self).custody, budget, TxReason::JobCreation, now),
                )
            },
            final(self).custody == old(self).custody,
            final(self).users@ == old(self).users@,
            final(self).campaigns@ == old(self).campaigns@,
            final(self).regular_payments@ == old(self).regular_payments@,
            final(self).wf(),
    {
        if budget <= 0 {
            return Err(Error::InvalidState);
        }
        let custody = self.custody;
        match self.ledger.transfer(token, employer, custody, budget) {
            Err(e) => {
                return Err(e);
            },
            Ok(()) => {},
        }
        let id = (self.jobs.len() as u32) + 1;
        let j = Job::new(id, employer, title, description, budget, token);
        proof {
            assert(self.jobs@.push(j).take(self.jobs@.len() as int) =~= self.jobs@);
        }
        self.jobs.push(j);
        self.push_tx(employer, custody, budget, TxReason::JobCreation, now);
        Ok(id)
    }

    /// Appends a proposal to an `Open` job; rejected with `InvalidState`
    /// exactly when the job exists but has left the `Open` state. There is
    /// no uniqueness or minimum-price rule: repeat proposals are allowed by
    /// design.
    pub fn submit_proposal(&mut self, freelancer: u64, job_id: u32, price: i128) -> (r: Result<(), Error>)
        requires
            old(self).wf(),
        ensures
            r is Ok <==> (1 <= job_id && job_id as int <= old(self).jobs@.len()
                && old(self).jobs@[job_id as int - 1].status == JobStatus::Open),
            !(1 <= job_id && job_id as int <= old(self).jobs@.len()) ==> r == Err::<(), Error>(Error::NotFound),
            1 <= job_id && job_id as int <= old(self).jobs@.len()
                && old(self).jobs@[job_id as int - 1].status != JobStatus::Open
                ==> r == Err::<(), Error>(Error::InvalidState),
            r is Err ==> unchanged(*final(self), *old(self)),
            r is Ok ==> {
                let i = job_id as int - 1;
                let j0 = old(self).jobs@[i];
                let j1 = final(self).jobs@[i];
                &&& final(self).jobs@.len() == old(self).jobs@.len()
                &&& forall|k: int| 0 <= k < old(self).jobs@.len() && k != i
                    ==> final(self).jobs@[k] == old(self).jobs@[k]
                &&& j1.proposals@ == j0.proposals@.push(Proposal { freelancer, price })
                &&& job_step_ok(j0.status, j1.status)
                &&& j1.id == j0.id
                &&& j1.employer == j0.employer
                &&& j1.title == j0.title
                &&& j1.description == j0.description
                &&& j1.budget == j0.budget
                &&& j1.token == j0.token
                &&& j1.status == j0.status
                &&& j1.accepted_freelancer == j0.accepted_freelancer
            },
            final(self).custody == old(self).custody,
            final(self).users@ == old(self).users@,
            final(self).campaigns@ == old(self).campaigns@,
            final(self).transactions@ == old(self).transactions@,
            final(self).regular_payments@ == old(self).regular_payments@,
            final(self).ledger.entries@ == old(self).ledger.entries@,
            final(self).wf(),
    {
        if job_id < 1 || job_id as usize > self.jobs.len() {
            return Err(Error::NotFound);
        }
        let i = (job_id - 1) as usize;
        if !matches!(self.jobs[i].status, JobStatus::Open) {
            return Err(Error::InvalidState);
        }
        let mut proposals = copy_vec(&self.jobs[i].proposals);
        proposals.push(Proposal { freelancer, price });
        let j = Job {
            id: self.jobs[i].id,
            employer: self.jobs[i].employer,
            title: self.jobs[i].title,
            description: self.jobs[i].description,
            budget: self.jobs[i].budget,
            token: self.jobs[i].token,
            status: self.jobs[i].status,
            proposals,
            accepted_freelancer: self.jobs[i].accepted_freelancer,
        };
        self.jobs.set(i, j);
        Ok(())
    }

    /// Accepts a freelancer for an `Open` job: only the job's employer may
    /// do so, and the job moves to `InProgress` with that freelancer
    /// recorded. Deliberately loose, as the lifecycle is specified: the
    /// accepted identity need not appear among the submitted proposals.
    pub fn accept_proposal(&mut self, employer: u64, job_id: u32, freelancer: u64) -> (r: Result<(), Error>)
        requires
            old(self).wf(),
        ensures
            r is Ok <==> (1 <= job_id && job_id as int <= old(self).jobs@.len()
                && old(self).jobs@[job_id as int - 1].employer == employer
                && old(self).jobs@[job_id as int - 1].status == JobStatus::Open),
            !(1 <= job_id && job_id as int <= old(self).jobs@.len()) ==> r == Err::<(), Error>(Error::NotFound),
            1 <= job_id && job_id as int <= old(self).jobs@.len()
                && old(self).jobs@[job_id as int - 1].employer != employer
                ==> r == Err::<(), Error>(Error::Unauthorized),
            1 <= job_id && job_id as int <= old(self).jobs@.len()
                && old(self).jobs@[job_id as int - 1].employer == employer
                && old(self).jobs@[job_id as int - 1].status != JobStatus::Open
                ==> r == Err::<(), Error>(Error::InvalidState),
            r is Err ==> unchanged(*final(self), *old(self)),
            r is Ok ==> {
                let i = job_id as int - 1;
                let j0 = old(self).jobs@[i];
                let j1 = final(self).jobs@[i];
                &&& final(self).jobs@.len() == old(self).jobs@.len()
                &&& forall|k: int| 0 <= k < old(self).jobs@.len() && k != i
                    ==> final(self).jobs@[k] == old(self).jobs@[k]
                &&& j1.status == JobStatus::InProgress
                &&& job_step_ok(j0.status, j1.status)
                &&& j1.accepted_freelancer == Some(freelancer)
                &&& j1.proposals@ == j0.proposals@
                &&& j1.id == j0.id
                &&& j1.employer == j0.employer
                &&& j1.title == j0.title
                &&& j1.description == j0.description
                &&& j1.budget == j0.budget
                &&& j1.token == j0.token
            },
            final(self).custody == old(self).custody,
            final(self).users@ == old(self).users@,
            final(self).campaigns@ == old(self).campaigns@,
            final(self).transactions@ == old(self).transactions@,
            final(self).regular_payments@ == old(self).regular_payments@,
            final(self).ledger.entries@ == old(self).ledger.entries@,
            final(self).wf(),
    {
        if job_id < 1 || job_id as usize > self.jobs.len() {
            return Err(Error::NotFound);
        }
        let i = (job_id - 1) as usize;
        if self.jobs[i].employer != employer {
            return Err(Error::Unauthorized);
        }
        if !matches!(self.jobs[i].status, JobStatus::Open) {
            return Err(Error::InvalidState);
        }
        let proposals = copy_vec(&self.jobs[i].proposals);
        let j = Job {
            id: self.jobs[i].id,
            employer: self.jobs[i].employer,
            title: self.jobs[i].title,
            description: self.jobs[i].description,
            budget: self.jobs[i].budget,
            token: self.jobs[i].token,
            status: JobStatus::InProgress,
            proposals,
            accepted_freelancer: Some(freelancer),
        };
        self.jobs.set(i, j);
        Ok(())
    }

    /// Marks an `InProgress` job `Completed`: only the accepted freelancer
    /// may do so.
    pub fn complete_job(&mut self, freelancer: u64, job_id: u32) -> (r: Result<(), Error>)
        requires
            old(self).wf(),
        ensures
            r is Ok <==> (1 <= job_id && job_id as int <= old(self).jobs@.len()
                && old(self).jobs@[job_id as int - 1].accepted_freelancer == Some(freelancer)
                && old(self).jobs@[job_id as int - 1].status == JobStatus::InProgress),
            !(1 <= job_id && job_id as int <= old(self).jobs@.len()) ==> r == Err::<(), Error>(Error::NotFound),
            1 <= job_id && job_id as int <= old(self).jobs@.len()
                && old(self).jobs@[job_id as int - 1].accepted_freelancer != Some(freelancer)
                ==> r == Err::<(), Error>(Error::Unauthorized),
            1 <= job_id && job_id as int <= old(self).jobs@.len()
                && old(self).jobs@[job_id as int - 1].accepted_freelancer == Some(freelancer)
                && old(self).jobs@[job_id as int - 1].status != JobStatus::InProgress
                ==> r == Err::<(), Error>(Error::InvalidState),
            r is Err ==> unchanged(*final(self), *old(self)),
            r is Ok ==> {
                let i = job_id as int - 1;
                let j0 = old(self).jobs@[i];
                let j1 = final(self).jobs@[i];
                &&& final(self).jobs@.len() == old(self).jobs@.len()
                &&& forall|k: int| 0 <= k < old(self).jobs@.len() && k != i
                    ==> final(self).jobs@[k] == old(self).jobs@[k]
                &&& j1.status == JobStatus::Completed
                &&& job_step_ok(j0.status, j1.status)
                &&& j1.accepted_freelancer == j0.accepted_freelancer
                &&& j1.proposals@ == j0.proposals@
                &&& j1.id == j0.id
                &&& j1.employer == j0.employer
                &&& j1.title == j0.title
                &&& j1.description == j0.description
                &&& j1.budget == j0.budget
                &&& j1.token == j0.token
            },
            final(self).custody == old(self).custody,
            final(self).users@ == old(self).users@,
            final(self).campaigns@ == old(self).campaigns@,
            final(self).transactions@ == old(self).transactions@,
            final(self).regular_payments@ == old(self).regular_payments@,
            final(self).ledger.entries@ == old(self).ledger.entries@,
            final(self).wf(),
    {
        if job_id < 1 || job_id as usize > self.jobs.len() {
            return Err(Error::NotFound);
        }
        let i = (job_id - 1) as usize;
        let accepted_ok = match self.jobs[i].accepted_freelancer {
            Some(f) => f == freelancer,
            None => false,
        };
        if !accepted_ok {
            return Err(Error::Unauthorized);
        }
        if !matches!(self.jobs[i].status, JobStatus::InProgress) {
            return Err(Error::InvalidState);
        }
        let proposals = copy_vec(&self.jobs[i].proposals);
        let j = Job {
            id: self.jobs[i].id,
            employer: self.jobs[i].employer,
            title: self.jobs[i].title,
            description: self.jobs[i].description,
            budget: self.jobs[i].budget,
            token: self.jobs[i].token,
            status: JobStatus::Completed,
            proposals,
            accepted_freelancer: self.jobs[i].accepted_freelancer,
        };
        self.jobs.set(i, j);
        Ok(())
    }

    /// Approves a `Completed` job: only the job's employer may do so. The
    /// job moves to `Approved` and, atomically with it, the escrowed budget
    /// is released from custody to the accepted freelancer and journaled —
    /// the one and only payout of that budget. A declined release aborts
    /// the whole operation.
    pub fn approve_job(&mut self, employer: u64, job_id: u32, now: u64) -> (r: Result<(), Error>)
        requires
            old(self).wf(),
            old(self).transactions@.len() < u32::MAX,
        ensures
            ({
                let i = job_id as int - 1;
                let j0 = old(self).jobs@[i];
                r is Ok <==> (1 <= job_id && job_id as int <= old(self).jobs@.len()
                    && j0.employer == employer
                    && j0.status == JobStatus::Completed
                    && xfer_ok(balances(old(self).ledger.entries@), j0.token, old(self).custody, j0.accepted_freelancer.unwrap(), j0.budget))
            }),
            !(1 <= job_id && job_id as int <= old(self).jobs@.len()) ==> r == Err::<(), Error>(Error::NotFound),
            1 <= job_id && job_id as int <= old(self).jobs@.len()
                && old(self).jobs@[job_id as int - 1].employer != employer
                ==> r == Err::<(), Error>(Error::Unauthorized),
            1 <= job_id && job_id as int <= old(self).jobs@.len()
                && old(self).jobs@[job_id as int - 1].employer == employer
                && old(self).jobs@[job_id as int - 1].status != JobStatus::Completed
                ==> r == Err::<(), Error>(Error::InvalidState),
            r is Err ==> unchanged(*final(self), *old(self)),
            r is Ok ==> {
                let i = job_id as int - 1;
                let j0 = old(self).jobs@[i];
                let j1 = final(self).jobs@[i];
                &&& final(self).jobs@.len() == old(self).jobs@.len()
                &&& forall|k: int| 0 <= k < old(self).jobs@.len() && k != i
                    ==> final(self).jobs@[k] == old(self).jobs@[k]
                &&& j1.status == JobStatus::Approved
                &&& job_step_ok(j0.status, j1.status)
                &&& j1.accepted_freelancer == j0.accepted_freelancer
                &&& j1.proposals@ == j0.proposals@
                &&& j1.id == j0.id
                &&& j1.employer == j0.employer
                &&& j1.title == j0.title
                &&& j1.description == j0.description
                &&& j1.budget == j0.budget
                &&& j1.token == j0.token
                &&& balances(final(self).ledger.entries@) == xfer_map(
                    balances(old(self).ledger.entries@),
                    j0.token,
                    old(self).custody,
                    j0.accepted_freelancer.unwrap(),
                    j0.budget,
                )
                &&& final(self).transactions@ == old(self).transactions@.push(
                    tx_at(old(self).transactions@, old(self).custody, j0.accepted_freelancer.unwrap(), j0.budget, TxReason::JobPayment, now),
                )
            },
            final(self).custody == old(self).custody,
            final(self).users@ == old(self).users@,
            final(self).campaigns@ == old(self).campaigns@,
            final(self).regular_payments@ == old(self).regular_payments@,
            final(self).wf(),
    {
        if job_id < 1 || job_id as usize > self.jobs.len() {
            return Err(Error::NotFound);
        }
        let i = (job_id - 1) as usize;
        if self.jobs[i].employer != employer {
            return Err(Error::Unauthorized);
        }
        if !matches!(self.jobs[i].status, JobStatus::Completed) {
            return Err(Error::InvalidState);
        }
        let freelancer = match self.jobs[i].accepted_freelancer {
            Some(f) => f,
            None => {
                proof {
                    assert(job_wf(self.jobs@[i as int]));
                }
                return Err(Error::InvalidState);
            },
        };
        let budget = self.jobs[i].budget;
        let token = self.jobs[i].token;
        let custody = self.custody;
        match self.ledger.transfer(token, custody, freelancer, budget) {
            Err(e) => {
                return Err(e);
            },
            Ok(()) => {},
        }
        let proposals = copy_vec(&self.jobs[i].proposals);
        let j = Job {
            id: self.jobs[i].id,
            employer: self.jobs[i].employer,
            title: self.jobs[i].title,
            description: self.jobs[i].description,
            budget: self.jobs[i].budget,
            token: self.jobs[i].token,
            status: JobStatus::Approved,
            proposals,
            accepted_freelancer: self.jobs[i].accepted_freelancer,
        };
        self.jobs.set(i, j);
        self.push_tx(custody, freelancer, budget, TxReason::JobPayment, now);
        Ok(())
    }

    /// Looks a job up by id; `NotFound` exactly when no job carries it.
    pub fn get_job(&self, job_id: u32) -> (r: Result<Job, Error>)
        ensures
            r is Ok <==> (1 <= job_id && job_id as int <= self.jobs@.len()),
            r is Err ==> r == Err::<Job, Error>(Error::NotFound),
            r is Ok ==> job_eq(r.unwrap(), self.jobs@[job_id as int - 1]),
    {
        if job_id < 1 || job_id as usize > self.jobs.len() {
            return Err(Error::NotFound);
        }
        let i = (job_id - 1) as usize;
        let proposals = copy_vec(&self.jobs[i].proposals);
        Ok(Job {
            id: self.jobs[i].id,
            employer: self.jobs[i].employer,
            title: self.jobs[i].title,
            description: self.jobs[i].description,
            budget: self.jobs[i].budget,
            token: self.jobs[i].token,
            status: self.jobs[i].status,
            proposals,
            accepted_freelancer: self.jobs[i].accepted_freelancer,
        })
    }

    /// The jobs currently in `status`, in storage iteration order.
    pub fn get_jobs_by_status(&self, status: JobStatus) -> (r: Vec<Job>)
        ensures
            r@.len() == jobs_with_status(self.jobs@, status).len(),
            forall|k: int| 0 <= k < r@.len()
                ==> job_eq(#[trigger] r@[k], jobs_with_status(self.jobs@, status)[k]),
    {
        let mut r: Vec<Job> = Vec::new();
        let mut i: usize = 0;
        let n = self.jobs.len();
        while i < n
            invariant
                n == self.jobs@.len(),
                i <= n,
                r@.len() == jobs_with_status(self.jobs@.take(i as int), status).len(),
                forall|k: int| 0 <= k < r@.len()
                    ==> job_eq(#[trigger] r@[k], jobs_with_status(self.jobs@.take(i as int), status)[k]),
            decreases n - i,
        {
            if self.jobs[i].status == status {
                let proposals = copy_vec(&self.jobs[i].proposals);
                let j = Job {
                    id: self.jobs[i].id,
                    employer: self.jobs[i].employer,
                    title: self.jobs[i].title,
                    description: self.jobs[i].description,
                    budget: self.jobs[i].budget,
                    token: self.jobs[i].token,
                    status: self.jobs[i].status,
                    proposals,
                    accepted_freelancer: self.jobs[i].accepted_freelancer,
                };
                r.push(j);
            }
            proof {
                assert(self.jobs@.take(i as int + 1).drop_last() =~= self.jobs@.take(i as int));
                assert(self.jobs@.take(i as int + 1).last() == self.jobs@[i as int]);
            }
            i = i + 1;
        }
        proof {
            assert(self.jobs@.take(n as int) =~= self.jobs@);
        }
        r
    }

    /// Creates a campaign: `Active`, nothing raised, no backers, with its
    /// funding window ending at `now + duration`. Moves no funds.
    pub fn create_campaign(&mut self, creator: u64, title: u64, description: u64, goal: i128, duration: u64, token: u64, tiers: Vec<FundingTier>, now: u64) -> (r: u32)
        requires
            old(self).wf(),
            old(self).campaigns@.len() < u32::MAX,
            now + duration <= u64::MAX,
        ensures
            r as int == old(self).campaigns@.len() + 1,
            final(self).campaigns@.len() == old(self).campaigns@.len() + 1,
            final(self).campaigns@.take(old(self).campaigns@.len() as int) == old(self).campaigns@,
            final(self).campaigns@.last().id == r,
            final(self).campaigns@.last().creator == creator,
            final(self).campaigns@.last().title == title,
            final(self).campaigns@.last().description == description,
            final(self).campaigns@.last().goal == goal,
            final(self).campaigns@.last().raised == 0,
            final(self).campaigns@.last().end_time == now + duration,
            final(self).campaigns@.last().token == token,
            final(self).campaigns@.last().status == CampaignStatus::Active,
            final(self).campaigns@.last().backers@ == Seq::<u64>::empty(),
            final(self).campaigns@.last().tiers@ == tiers@,
            final(self).custody == old(self).custody,
            final(self).users@ == old(self).users@,
            final(self).jobs@ == old(self).jobs@,
            final(self).transactions@ == old(self).transactions@,
            final(self).regular_payments@ == old(self).regular_payments@,
            final(self).ledger.entries@ == old(self).ledger.entries@,
            final(self).wf(),
    {
        let id = (self.campaigns.len() as u32) + 1;
        let c = Campaign {
            id,
            creator,
            title,
            description,
            goal,
            raised: 0,
            end_time: now + duration,
            token,
            status: CampaignStatus::Active,
            backers: Vec::new(),
            tiers,
        };
        proof {
            assert(self.campaigns@.push(c).take(self.campaigns@.len() as int) =~= self.campaigns@);
        }
        self.campaigns.push(c);
        id
    }

    /// Pledges `amount` to an `Active` campaign inside its funding window:
    /// atomically moves the pledge into custody, adds it to `raised`,
    /// appends the backer (one entry per funding event, duplicates
    /// allowed), journals the pledge, and auto-advances the campaign to
    /// `Successful` the moment `raised` reaches the goal. Rejected with
    /// `InvalidState` once the campaign is not `Active` and with
    /// `DeadlinePassed` once past `end_time`.
    pub fn fund_campaign(&mut self, backer: u64, campaign_id: u32, amount: i128, now: u64) -> (r: Result<(), Error>)
        requires
            old(self).wf(),
            old(self).transactions@.len() < u32::MAX,
        ensures
            ({
                let i = campaign_id as int - 1;
                let c = old(self).campaigns@[i];
                r is Ok <==> (1 <= campaign_id && campaign_id as int <= old(self).campaigns@.len()
                    && c.status == CampaignStatus::Active
                    && now <= c.end_time
                    && c.raised + amount <= i128::MAX
                    && xfer_ok(balances(old(self).ledger.entries@), c.token, backer, old(self).custody, amount))
            }),
            !(1 <= campaign_id && campaign_id as int <= old(self).campaigns@.len()) ==> r == Err::<(), Error>(Error::NotFound),
            1 <= campaign_id && campaign_id as int <= old(self).campaigns@.len()
                && old(self).campaigns@[campaign_id as int - 1].status != CampaignStatus::Active
                ==> r == Err::<(), Error>(Error::InvalidState),
            1 <= campaign_id && campaign_id as int <= old(self).campaigns@.len()
                && old(self).campaigns@[campaign_id as int - 1].status == CampaignStatus::Active
                && now > old(self).campaigns@[campaign_id as int - 1].end_time
                ==> r == Err::<(), Error>(Error::DeadlinePassed),
            1 <= campaign_id && campaign_id as int <= old(self).campaigns@.len()
                && old(self).campaigns@[campaign_id as int - 1].status == CampaignStatus::Active
                && now <= old(self).campaigns@[campaign_id as int - 1].end_time
                && r is Err
                ==> r == Err::<(), Error>(Error::TransferFailed),
            r is Err ==> unchanged(*final(self), *old(self)),
            r is Ok ==> {
                let i = campaign_id as int - 1;
                let c0 = old(self).campaigns@[i];
                let c1 = final(self).campaigns@[i];
                &&& final(self).campaigns@.len() == old(self).campaigns@.len()
                &&& forall|k: int| 0 <= k < old(self).campaigns@.len() && k != i
                    ==> final(self).campaigns@[k] == old(self).campaigns@[k]
                &&& c1.raised == c0.raised + amount
                &&& c1.backers@ == c0.backers@.push(backer)
                &&& c1.status == (if c0.raised + amount >= c0.goal { CampaignStatus::Successful } else { CampaignStatus::Active })
                &&& c1.id == c0.id
                &&& c1.creator == c0.creator
                &&& c1.title == c0.title
                &&& c1.description == c0.description
                &&& c1.goal == c0.goal
                &&& c1.end_time == c0.end_time
                &&& c1.token == c0.token
                &&& c1.tiers@ == c0.tiers@
                &&& balances(final(self).ledger.entries@)
                    == xfer_map(balances(old(self).ledger.entries@), c0.token, backer, old(self).custody, amount)
                &&& final(self).transactions@ == old(self).transactions@.push(
                    tx_at(old(self).transactions@, backer, old(self).custody, amount, TxReason::CampaignFunding, now),
                )
            },
            final(self).custody == old(self).custody,
            final(self).users@ == old(self).users@,
            final(self).jobs@ == old(self).jobs@,
            final(self).regular_payments@ == old(self).regular_payments@,
            final(self).wf(),
    {
        if campaign_id < 1 || campaign_id as usize > self.campaigns.len() {
            return Err(Error::NotFound);
        }
        let i = (campaign_id - 1) as usize;
        if !matches!(self.campaigns[i].status, CampaignStatus::Active) {
            return Err(Error::InvalidState);
        }
        if now > self.campaigns[i].end_time {
            return Err(Error::DeadlinePassed);
        }
        let raised = self.campaigns[i].raised;
        proof {
            assert(campaign_wf(self.campaigns@[i as int]));
        }
        if amount > i128::MAX - raised {
            return Err(Error::TransferFailed);
        }
        let token = self.campaigns[i].token;
        let custody = self.custody;
        match self.ledger.transfer(token, backer, custody, amount) {
            Err(e) => {
                return Err(e);
            },
            Ok(()) => {},
        }
        let new_raised = raised + amount;
        let mut backers = copy_vec(&self.campaigns[i].backers);
        backers.push(backer);
        let tiers = copy_vec(&self.campaigns[i].tiers);
        let status = if new_raised >= self.campaigns[i].goal {
            CampaignStatus::Successful
        } else {
            CampaignStatus::Active
        };
        let c = Campaign {
            id: self.campaigns[i].id,
            creator: self.campaigns[i].creator,
            title: self.campaigns[i].title,
            description: self.campaigns[i].description,
            goal: self.campaigns[i].goal,
            raised: new_raised,
            end_time: self.campaigns[i].end_time,
            token,
            status,
            backers,
            tiers,
        };
        self.campaigns.set(i, c);
        self.push_tx(backer, custody, amount, TxReason::CampaignFunding, now);
        Ok(())
    }

    /// Settles a campaign once its funding window is over (or it already
    /// resolved) and moves it to `Closed`. One still `Active` past its end
    /// time resolves `Successful` when `raised` reached the goal, else
    /// `Failed`. A `Successful` resolution pays the creator exactly
    /// `raised` in one transfer, journaled once. A `Failed` resolution
    /// refunds each distinct backer — once, however many entries that
    /// backer has in the list — exactly its contribution as derived from
    /// the journal's campaign-funding entries, all-or-nothing. Settling an
    /// already `Closed` campaign is rejected with `InvalidState`: a
    /// settlement pays out at most once.
    pub fn close_campaign(&mut self, campaign_id: u32, now: u64) -> (r: Result<(), Error>)
        requires
            old(self).wf(),
            1 <= campaign_id && campaign_id as int <= old(self).campaigns@.len()
                ==> old(self).transactions@.len()
                    + old(self).campaigns@[campaign_id as int - 1].backers@.len() < u32::MAX,
        ensures
            !(1 <= campaign_id && campaign_id as int <= old(self).campaigns@.len())
                ==> r == Err::<(), Error>(Error::NotFound),
            1 <= campaign_id && campaign_id as int <= old(self).campaigns@.len()
                && old(self).campaigns@[campaign_id as int - 1].status == CampaignStatus::Closed
                ==> r == Err::<(), Error>(Error::InvalidState),
            1 <= campaign_id && campaign_id as int <= old(self).campaigns@.len()
                && old(self).campaigns@[campaign_id as int - 1].status == CampaignStatus::Active
                && now <= old(self).campaigns@[campaign_id as int - 1].end_time
                ==> r == Err::<(), Error>(Error::DeadlineNotReached),
            ({
                let c = old(self).campaigns@[campaign_id as int - 1];
                let settling = 1 <= campaign_id && campaign_id as int <= old(self).campaigns@.len()
                    && c.status != CampaignStatus::Closed
                    && !(c.status == CampaignStatus::Active && now <= c.end_time);
                &&& (settling && resolved_status(c) == CampaignStatus::Successful
                    ==> (r is Ok <==> xfer_ok(balances(old(self).ledger.entries@), c.token, old(self).custody, c.creator, c.raised)))
                &&& (settling && resolved_status(c) == CampaignStatus::Failed
                    ==> (r is Ok <==> (contributions_fit_all(old(self).transactions@, old(self).custody, c.backers@)
                        && multi_xfer(balances(old(self).ledger.entries@), c.token, old(self).custody,
                            refund_pairs(old(self).transactions@, old(self).custody, c.backers@)) is Some)))
                &&& (settling && r is Err ==> r == Err::<(), Error>(Error::TransferFailed))
                &&& !settling ==> r is Err
            }),
            r is Err ==> unchanged(*final(self), *old(self)),
            r is Ok ==> {
                let i = campaign_id as int - 1;
                let c0 = old(self).campaigns@[i];
                let c1 = final(self).campaigns@[i];
                &&& final(self).campaigns@.len() == old(self).campaigns@.len()
                &&& forall|k: int| 0 <= k < old(self).campaigns@.len() && k != i
                    ==> final(self).campaigns@[k] == old(self).campaigns@[k]
                &&& c1.status == CampaignStatus::Closed
                &&& c1.id == c0.id
                &&& c1.creator == c0.creator
                &&& c1.title == c0.title
                &&& c1.description == c0.description
                &&& c1.goal == c0.goal
                &&& c1.raised == c0.raised
                &&& c1.end_time == c0.end_time
                &&& c1.token == c0.token
                &&& c1.backers@ == c0.backers@
                &&& c1.tiers@ == c0.tiers@
                &&& (resolved_status(c0) == CampaignStatus::Successful ==> {
                    &&& balances(final(self).ledger.entries@)
                        == xfer_map(balances(old(self).ledger.entries@), c0.token, old(self).custody, c0.creator, c0.raised)
                    &&& final(self).transactions@ == old(self).transactions@.push(
                        tx_at(old(self).transactions@, old(self).custody, c0.creator, c0.raised, TxReason::CampaignPayout, now),
                    )
                })
                &&& (resolved_status(c0) == CampaignStatus::Failed ==> {
                    &&& balances(final(self).ledger.entries@)
                        == multi_xfer(balances(old(self).ledger.entries@), c0.token, old(self).custody,
                            refund_pairs(old(self).transactions@, old(self).custody, c0.backers@)).unwrap()
                    &&& final(self).transactions@ == old(self).transactions@
                        + refund_txs(old(self).transactions@, old(self).custody, c0.backers@, now)
                })
            },
            final(self).custody == old(self).custody,
            final(self).users@ == old(self).users@,
            final(self).jobs@ == old(self).jobs@,
            final(self).regular_payments@ == old(self).regular_payments@,
            final(self).wf(),
    {
        if campaign_id < 1 || campaign_id as usize > self.campaigns.len() {
            return Err(Error::NotFound);
        }
        let i = (campaign_id - 1) as usize;
        if matches!(self.campaigns[i].status, CampaignStatus::Closed) {
            return Err(Error::InvalidState);
        }
        let end_time = self.campaigns[i].end_time;
        if matches!(self.campaigns[i].status, CampaignStatus::Active) && now <= end_time {
            return Err(Error::DeadlineNotReached);
        }
        let raised = self.campaigns[i].raised;
        let goal = self.campaigns[i].goal;
        let creator = self.campaigns[i].creator;
        let token = self.campaigns[i].token;
        let custody = self.custody;
        let successful = if matches!(self.campaigns[i].status, CampaignStatus::Active) {
            raised >= goal
        } else {
            matches!(self.campaigns[i].status, CampaignStatus::Successful)
        };
        let ghost c0 = self.campaigns@[i as int];
        let ghost j0 = self.transactions@;

        let backers = copy_vec(&self.campaigns[i].backers);
        if successful {
            match self.ledger.transfer(token, custody, creator, raised) {
                Err(e) => {
                    return Err(e);
                },
                Ok(()) => {},
            }
            self.push_tx(custody, creator, raised, TxReason::CampaignPayout, now);
        } else {
            // Distinct backers, each at its first occurrence.
            let mut distinct: Vec<u64> = Vec::new();
            let mut k: usize = 0;
            let nb = backers.len();
            while k < nb
                invariant
                    nb == backers@.len(),
                    k <= nb,
                    distinct@ == dedup(backers@.take(k as int)),
                decreases nb - k,
            {
                let b = backers[k];
                proof {
                    assert(backers@.take(k as int + 1).drop_last() =~= backers@.take(k as int));
                    assert(backers@.take(k as int + 1).last() == backers@[k as int]);
                    lemma_dedup_contains(backers@.take(k as int), b);
                }
                if !vec_contains_u64(&distinct, b) {
                    distinct.push(b);
                }
                k = k + 1;
            }
            proof {
                assert(backers@.take(nb as int) =~= backers@);
                lemma_dedup_len(backers@);
            }
            // Each distinct backer's derived refund.
            let mut pairs: Vec<(u64, i128)> = Vec::new();
            let mut k: usize = 0;
            let nd = distinct.len();
            #[verifier::loop_isolation(false)]
            while k < nd
                invariant
                    nd == distinct@.len(),
                    k <= nd,
                    distinct@ == dedup(backers@),
                    backers@ == c0.backers@,
                    j0 == self.transactions@,
                    pairs@.len() == k,
                    forall|m: int| 0 <= m < k
                        ==> #[trigger] pairs@[m] == (distinct@[m], contribution(j0, custody, distinct@[m]) as i128),
                    forall|m: int| 0 <= m < k ==> contribution_fits(j0, custody, #[trigger] distinct@[m]),
                decreases nd - k,
            {
                match crate::journal::sum_contribution(&self.transactions, custody, distinct[k]) {
                    None => {
                        proof {
                            assert(!contributions_fit_all(j0, custody, c0.backers@));
                        }
                        return Err(Error::TransferFailed);
                    },
                    Some(a) => {
                        let d = distinct[k];
                        pairs.push((d, a));
                    },
                }
                k = k + 1;
            }
            proof {
                assert(pairs@ =~= refund_pairs(j0, custody, c0.backers@));
                assert(contributions_fit_all(j0, custody, c0.backers@));
            }
            // Attempt every refund on a scratch copy: all or nothing.
            let mut dup = self.ledger.duplicate();
            let ghost m0 = balances(self.ledger.entries@);
            proof {
                assert(pairs@.skip(0) =~= pairs@);
            }
            let mut k: usize = 0;
            let np = pairs.len();
            #[verifier::loop_isolation(false)]
            while k < np
                invariant
                    np == pairs@.len(),
                    k <= np,
                    multi_xfer(m0, token, custody, pairs@)
                        == multi_xfer(balances(dup.entries@), token, custody, pairs@.skip(k as int)),
                decreases np - k,
            {
                proof {
                    assert(pairs@.skip(k as int)[0] == pairs@[k as int]);
                    assert(pairs@.skip(k as int).subrange(1, pairs@.skip(k as int).len() as int)
                        =~= pairs@.skip(k as int + 1));
                }
                let to = pairs[k].0;
                let amt = pairs[k].1;
                match dup.transfer(token, custody, to, amt) {
                    Err(_) => {
                        return Err(Error::TransferFailed);
                    },
                    Ok(()) => {},
                }
                k = k + 1;
            }
            proof {
                assert(pairs@.skip(np as int) =~= Seq::<(u64, i128)>::empty());
            }
            self.ledger = dup;
            // Journal one refund entry per distinct backer.
            let mut k: usize = 0;
            #[verifier::loop_isolation(false)]
            while k < np
                invariant
                    np == pairs@.len(),
                    np == dedup(c0.backers@).len(),
                    np + j0.len() < u32::MAX,
                    k <= np,
                    forall|m: int| 0 <= m < np
                        ==> #[trigger] pairs@[m] == (dedup(c0.backers@)[m], contribution(j0, custody, dedup(c0.backers@)[m]) as i128),
                    self.wf(),
                    self.custody == old(self).custody,
                    self.users@ == old(self).users@,
                    self.jobs@ == old(self).jobs@,
                    self.campaigns@ == old(self).campaigns@,
                    self.regular_payments@ == old(self).regular_payments@,
                    self.ledger.entries@ == dup.entries@,
                    self.transactions@ == j0 + refund_txs(j0, custody, c0.backers@, now).take(k as int),
                decreases np - k,
            {
                proof {
                    assert((j0 + refund_txs(j0, custody, c0.backers@, now).take(k as int)).len()
                        == j0.len() + k);
                }
                let to = pairs[k].0;
                let amt = pairs[k].1;
                self.push_tx(custody, to, amt, TxReason::CampaignRefund, now);
                proof {
                    assert(self.transactions@
                        =~= j0 + refund_txs(j0, custody, c0.backers@, now).take(k as int + 1));
                }
                k = k + 1;
            }
            proof {
                assert(refund_txs(j0, custody, c0.backers@, now).take(np as int)
                    =~= refund_txs(j0, custody, c0.backers@, now));
            }
        }
        let tiers = copy_vec(&self.campaigns[i].tiers);
        let c = Campaign {
            id: self.campaigns[i].id,
            creator: self.campaigns[i].creator,
            title: self.campaigns[i].title,
            description: self.campaigns[i].description,
            goal: self.campaigns[i].goal,
            raised: self.campaigns[i].raised,
            end_time: self.campaigns[i].end_time,
            token: self.campaigns[i].token,
            status: CampaignStatus::Closed,
            backers,
            tiers,
        };
        self.campaigns.set(i, c);
        Ok(())
    }

    /// Looks a campaign up by id; `NotFound` exactly when no campaign
    /// carries it.
    pub fn get_campaign(&self, campaign_id: u32) -> (r: Result<Campaign, Error>)
        ensures
            r is Ok <==> (1 <= campaign_id && campaign_id as int <= self.campaigns@.len()),
            r is Err ==> r == Err::<Campaign, Error>(Error::NotFound),
            r is Ok ==> campaign_eq(r.unwrap(), self.campaigns@[campaign_id as int - 1]),
    {
        if campaign_id < 1 || campaign_id as usize > self.campaigns.len() {
            return Err(Error::NotFound);
        }
        let i = (campaign_id - 1) as usize;
        let backers = copy_vec(&self.campaigns[i].backers);
        let tiers = copy_vec(&self.campaigns[i].tiers);
        Ok(Campaign {
            id: self.campaigns[i].id,
            creator: self.campaigns[i].creator,
            title: self.campaigns[i].title,
            description: self.campaigns[i].description,
            goal: self.campaigns[i].goal,
            raised: self.campaigns[i].raised,
            end_time: self.campaigns[i].end_time,
            token: self.campaigns[i].token,
            status: self.campaigns[i].status,
            backers,
            tiers,
        })
    }

    /// The campaigns currently in `status`, in storage iteration order.
    pub fn get_campaigns_by_status(&self, status: CampaignStatus) -> (r: Vec<Campaign>)
        ensures
            r@.len() == campaigns_with_status(self.campaigns@, status).len(),
            forall|k: int| 0 <= k < r@.len()
                ==> campaign_eq(#[trigger] r@[k], campaigns_with_status(self.campaigns@, status)[k]),
    {
        let mut r: Vec<Campaign> = Vec::new();
        let mut i: usize = 0;
        let n = self.campaigns.len();
        while i < n
            invariant
                n == self.campaigns@.len(),
                i <= n,
                r@.len() == campaigns_with_status(self.campaigns@.take(i as int), status).len(),
                forall|k: int| 0 <= k < r@.len()
                    ==> campaign_eq(#[trigger] r@[k], campaigns_with_status(self.campaigns@.take(i as int), status)[k]),
            decreases n - i,
        {
            if self.campaigns[i].status == status {
                let backers = copy_vec(&self.campaigns[i].backers);
                let tiers = copy_vec(&self.campaigns[i].tiers);
                let c = Campaign {
                    id: self.campaigns[i].id,
                    creator: self.campaigns[i].creator,
                    title: self.campaigns[i].title,
                    description: self.campaigns[i].description,
                    goal: self.campaigns[i].goal,
                    raised: self.campaigns[i].raised,
                    end_time: self.campaigns[i].end_time,
                    token: self.campaigns[i].token,
                    status: self.campaigns[i].status,
                    backers,
                    tiers,
                };
                r.push(c);
            }
            proof {
                assert(self.campaigns@.take(i as int + 1).drop_last() =~= self.campaigns@.take(i as int));
                assert(self.campaigns@.take(i as int + 1).last() == self.campaigns@[i as int]);
            }
            i = i + 1;
        }
        proof {
            assert(self.campaigns@.take(n as int) =~= self.campaigns@);
        }
        r
    }

    /// Moves `amount` to each recipient in turn out of `from`, journaling
    /// one entry per movement. All or nothing: if the gateway declines any
    /// movement in the batch, no funds move and nothing is journaled.
    pub fn multi_transfer(&mut self, from: u64, recipients: Vec<(u64, i128)>, token: u64, reason: TxReason, now: u64) -> (r: Result<(), Error>)
        requires
            old(self).wf(),
            old(self).transactions@.len() + recipients@.len() < u32::MAX,
        ensures
            r is Ok <==> multi_xfer(balances(old(self).ledger.entries@), token, from, recipients@) is Some,
            r is Err ==> unchanged(*final(self), *old(self)) && r == Err::<(), Error>(Error::TransferFailed),
            r is Ok ==> {
                &&& balances(final(self).ledger.entries@)
                    == multi_xfer(balances(old(self).ledger.entries@), token, from, recipients@).unwrap()
                &&& final(self).transactions@ == old(self).transactions@ + Seq::new(
                    recipients@.len(),
                    |m: int| Transaction {
                        id: (old(self).transactions@.len() + m + 1) as u32,
                        from,
                        to: recipients@[m].0,
                        amount: recipients@[m].1,
                        reason,
                        timestamp: now,
                    },
                )
            },
            final(self).custody == old(self).custody,
            final(self).users@ == old(self).users@,
            final(self).jobs@ == old(self).jobs@,
            final(self).campaigns@ == old(self).campaigns@,
            final(self).regular_payments@ == old(self).regular_payments@,
            final(self).wf(),
    {
        let ghost j0 = self.transactions@;
        let ghost m0 = balances(self.ledger.entries@);
        let ghost txs = Seq::new(
            recipients@.len(),
            |m: int| Transaction {
                id: (j0.len() + m + 1) as u32,
                from,
                to: recipients@[m].0,
                amount: recipients@[m].1,
                reason,
                timestamp: now,
            },
        );
        let mut dup = self.ledger.duplicate();
        proof {
            assert(recipients@.skip(0) =~= recipients@);
        }
        let mut k: usize = 0;
        let np = recipients.len();
        #[verifier::loop_isolation(false)]
        while k < np
            invariant
                np == recipients@.len(),
                k <= np,
                multi_xfer(m0, token, from, recipients@)
                    == multi_xfer(balances(dup.entries@), token, from, recipients@.skip(k as int)),
            decreases np - k,
        {
            proof {
                assert(recipients@.skip(k as int)[0] == recipients@[k as int]);
                assert(recipients@.skip(k as int).subrange(1, recipients@.skip(k as int).len() as int)
                    =~= recipients@.skip(k as int + 1));
            }
            let to = recipients[k].0;
            let amt = recipients[k].1;
            match dup.transfer(token, from, to, amt) {
                Err(_) => {
                    return Err(Error::TransferFailed);
                },
                Ok(()) => {},
            }
            k = k + 1;
        }
        proof {
            assert(recipients@.skip(np as int) =~= Seq::<(u64, i128)>::empty());
        }
        self.ledger = dup;
        let mut k: usize = 0;
        #[verifier::loop_isolation(false)]
        while k < np
            invariant
                np == recipients@.len(),
                np + j0.len() < u32::MAX,
                k <= np,
                self.wf(),
                self.custody == old(self).custody,
                self.users@ == old(self).users@,
                self.jobs@ == old(self).jobs@,
                self.campaigns@ == old(self).campaigns@,
                self.regular_payments@ == old(self).regular_payments@,
                self.ledger.entries@ == dup.entries@,
                self.transactions@ == j0 + txs.take(k as int),
            decreases np - k,
        {
            proof {
                assert((j0 + txs.take(k as int)).len() == j0.len() + k);
            }
            let to = recipients[k].0;
            let amt = recipients[k].1;
            self.push_tx(from, to, amt, reason, now);
            proof {
                assert(self.transactions@ =~= j0 + txs.take(k as int + 1));
            }
            k = k + 1;
        }
        proof {
            assert(txs.take(np as int) =~= txs);
        }
        Ok(())
    }

    /// Schedules a standing order: first due at `now + interval`, then
    /// every `interval` after each firing, forever.
    pub fn create_regular_payment(&mut self, from: u64, to: u64, amount: i128, interval: u64, message: TxReason, now: u64) -> (r: u32)
        requires
            old(self).wf(),
            old(self).regular_payments@.len() < u32::MAX,
            now + interval <= u64::MAX,
        ensures
            r as int == old(self).regular_payments@.len() + 1,
            final(self).regular_payments@ == old(self).regular_payments@.push(
                RegularPayment {
                    id: r,
                    from,
                    to,
                    amount,
                    interval,
                    next_payment: (now + interval) as u64,
                    message,
                },
            ),
            final(self).custody == old(self).custody,
            final(self).users@ == old(self).users@,
            final(self).jobs@ == old(self).jobs@,
            final(self).campaigns@ == old(self).campaigns@,
            final(self).transactions@ == old(self).transactions@,
            final(self).ledger.entries@ == old(self).ledger.entries@,
            final(self).wf(),
    {
        let id = (self.regular_payments.len() as u32) + 1;
        let p = RegularPayment {
            id,
            from,
            to,
            amount,
            interval,
            next_payment: now + interval,
            message,
        };
        self.regular_payments.push(p);
        id
    }

    /// One scheduler pass at `now`: every due payment whose transfer the
    /// gateway accepts fires — funds move, the firing is journaled, and its
    /// due time advances by exactly its interval — while a payment not yet
    /// due, or whose transfer was declined, is left unchanged to be retried
    /// on a later pass. The pass is deliberately not atomic across
    /// payments: each payment's firing commits independently.
    pub fn execute_regular_payments(&mut self, token: u64, now: u64)
        requires
            old(self).wf(),
            old(self).transactions@.len() + old(self).regular_payments@.len() < u32::MAX,
        ensures
            ({
                let res = run_payments(
                    balances(old(self).ledger.entries@),
                    old(self).regular_payments@,
                    token,
                    now,
                    old(self).transactions@,
                );
                &&& balances(final(self).ledger.entries@) == res.0
                &&& final(self).regular_payments@ == res.1
                &&& final(self).transactions@ == res.2
            }),
            final(self).custody == old(self).custody,
            final(self).users@ == old(self).users@,
            final(self).jobs@ == old(self).jobs@,
            final(self).campaigns@ == old(self).campaigns@,
            final(self).wf(),
    {
        let ghost m0 = balances(self.ledger.entries@);
        let ghost ps0 = self.regular_payments@;
        let ghost j0 = self.transactions@;
        let ghost full = run_payments(m0, ps0, token, now, j0);
        proof {
            assert(ps0.skip(0) =~= ps0);
            assert(self.regular_payments@.take(0) =~= Seq::<RegularPayment>::empty());
            assert(Seq::<RegularPayment>::empty() + full.1 =~= full.1);
        }
        let n = self.regular_payments.len();
        let mut i: usize = 0;
        #[verifier::loop_isolation(false)]
        while i < n
            invariant
                n == ps0.len(),
                self.regular_payments@.len() == n,
                i <= n,
                self.wf(),
                self.custody == old(self).custody,
                self.users@ == old(self).users@,
                self.jobs@ == old(self).jobs@,
                self.campaigns@ == old(self).campaigns@,
                self.transactions@.len() <= j0.len() + i,
                forall|k: int| i <= k < n ==> self.regular_payments@[k] == ps0[k],
                full.0 == run_payments(balances(self.ledger.entries@), ps0.skip(i as int), token, now, self.transactions@).0,
                full.1 == self.regular_payments@.take(i as int)
                    + run_payments(balances(self.ledger.entries@), ps0.skip(i as int), token, now, self.transactions@).1,
                full.2 == run_payments(balances(self.ledger.entries@), ps0.skip(i as int), token, now, self.transactions@).2,
            decreases n - i,
        {
            let ghost m_cur = balances(self.ledger.entries@);
            let ghost j_cur = self.transactions@;
            let ghost s = pay_step(m_cur, ps0[i as int], token, now, j_cur);
            proof {
                assert(ps0.skip(i as int)[0] == ps0[i as int]);
                assert(ps0.skip(i as int).subrange(1, ps0.skip(i as int).len() as int)
                    =~= ps0.skip(i as int + 1));
            }
            let p = self.regular_payments[i];
            if p.next_payment <= now && p.interval <= u64::MAX - p.next_payment {
                match self.ledger.transfer(token, p.from, p.to, p.amount) {
                    Ok(()) => {
                        self.push_tx(p.from, p.to, p.amount, p.message, now);
                        let p2 = RegularPayment {
                            id: p.id,
                            from: p.from,
                            to: p.to,
                            amount: p.amount,
                            interval: p.interval,
                            next_payment: p.next_payment + p.interval,
                            message: p.message,
                        };
                        self.regular_payments.set(i, p2);
                    },
                    Err(_) => {},
                }
            }
            proof {
                assert(self.regular_payments@[i as int] == s.1);
                assert(balances(self.ledger.entries@) == s.0);
                assert(self.transactions@ == s.2);
                assert(self.regular_payments@.take(i as int + 1)
                    =~= self.regular_payments@.take(i as int) + seq![s.1]);
                let rest = run_payments(s.0, ps0.skip(i as int + 1), token, now, s.2);
                assert(self.regular_payments@.take(i as int) + (seq![s.1] + rest.1)
                    =~= self.regular_payments@.take(i as int + 1) + rest.1);
            }
            i = i + 1;
        }
        proof {
            assert(ps0.skip(n as int) =~= Seq::<RegularPayment>::empty());
            assert(self.regular_payments@.take(n as int) =~= self.regular_payments@);
            assert(self.regular_payments@ + Seq::<RegularPayment>::empty() =~= self.regular_payments@);
        }
    }

    /// Derives one backer's total historical contribution by scanning the
    /// journal's campaign-funding entries into custody; `None` exactly when
    /// the running sum would leave the representable range.
    pub fn get_backer_contribution(&self, backer: u64) -> (r: Option<i128>)
        ensures
            r is Some <==> contribution_fits(self.transactions@, self.custody, backer),
            r is Some ==> r.unwrap() as int == contribution(self.transactions@, self.custody, backer),
    {
        crate::journal::sum_contribution(&self.transactions, self.custody, backer)
    }

    /// The balance the gateway holds for `address` in `token`.
    pub fn get_balance(&self, address: u64, token: u64) -> (r: i128)
        ensures
            r as int == self.bal(token, address),
    {
        self.ledger.balance_of(token, address)
    }
}

} // verus!

