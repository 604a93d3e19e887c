use vstd::prelude::*;

verus! {

/// Why a journal entry was written. The campaign-funding reason is the one
/// the refund derivation filters on; `Other` carries an opaque free-text
/// code supplied by the caller.
#[derive(Clone, Copy, PartialEq, Eq, Structural, Debug)]
pub enum TxReason {
    JobCreation,
    JobPayment,
    CampaignFunding,
    CampaignPayout,
    CampaignRefund,
    Other(u64),
}

/// One immutable money-movement record. Ids are assigned by a monotonic
/// counter starting at 1 and are never reused.
#[derive(Clone, Copy, PartialEq, Eq, Structural, Debug)]
pub struct Transaction {
    pub id: u32,
    pub from: u64,
    pub to: u64,
    pub amount: i128,
    pub reason: TxReason,
    pub timestamp: u64,
}

/// An entry that moved a pledge of `backer` into the custody account.
pub open spec fn is_funding(t: Transaction, custody: u64, backer: u64) -> bool {
    t.to == custody && t.from == backer && t.reason == TxReason::CampaignFunding
}

/// A backer's total historical contribution: the sum of that backer's
/// campaign-funding entries into custody, over the whole journal.
pub open spec fn contribution(j: Seq<Transaction>, custody: u64, backer: u64) -> int
    decreases j.len(),
{
    if j.len() == 0 {
        0
    } else {
        contribution(j.drop_last(), custody, backer)
            + if is_funding(j.last(), custody, backer) { j.last().amount as int } else { 0 }
    }
}

/// Whether a left-to-right summation of the backer's contribution stays
/// representable in an `i128` at every step.
pub open spec fn contribution_fits(j: Seq<Transaction>, custody: u64, backer: u64) -> bool {
    forall|k: int| 0 <= k <= j.len() ==> i128::MIN <= #[trigger] contribution(j.take(k), custody, backer) <= i128::MAX
}

/// The sum of every campaign-funding entry into custody, whoever pledged it.
pub open spec fn total_funding(j: Seq<Transaction>, custody: u64) -> int
    decreases j.len(),
{
    if j.len() == 0 {
        0
    } else {
        total_funding(j.drop_last(), custody)
            + if j.last().to == custody && j.last().reason == TxReason::CampaignFunding { j.last().amount as int } else { 0 }
    }
}

/// The distinct identities of a list, each kept at its first occurrence.
pub open spec fn dedup(s: Seq<u64>) -> Seq<u64>
    decreases s.len(),
{
    if s.len() == 0 {
        Seq::empty()
    } else {
        let d = dedup(s.drop_last());
        if s.drop_last().contains(s.last()) {
            d
        } else {
            d.push(s.last())
        }
    }
}

/// No identity occurs twice.
pub open spec fn distinct_seq(s: Seq<u64>) -> bool {
    forall|i: int, k: int| 0 <= i < k < s.len() ==> s[i] != s[k]
}

/// The total refunded when each identity in `d` is refunded its
/// contribution exactly once.
pub open spec fn refund_total(j: Seq<Transaction>, custody: u64, d: Seq<u64>) -> int
    decreases d.len(),
{
    if d.len() == 0 {
        0
    } else {
        refund_total(j, custody, d.drop_last()) + contribution(j, custody, d.last())
    }
}

/// What one journal entry adds across the per-identity sums of `d`.
spec fn point_mass(t: Transaction, custody: u64, d: Seq<u64>) -> int
    decreases d.len(),
{
    if d.len() == 0 {
        0
    } else {
        point_mass(t, custody, d.drop_last()) + if is_funding(t, custody, d.last()) { t.amount as int } else { 0 }
    }
}

proof fn lemma_contains_split(s: Seq<u64>, x: u64)
    requires
        s.len() > 0,
    ensures
        s.contains(x) <==> (s.drop_last().contains(x) || s.last() == x),
{
    if s.contains(x) {
        let i = choose|i: int| 0 <= i < s.len() && s[i] == x;
        if i < s.len() - 1 {
            assert(s.drop_last()[i] == x);
            assert(s.drop_last().contains(x));
        }
    }
    if s.drop_last().contains(x) {
        let i = choose|i: int| 0 <= i < s.drop_last().len() && s.drop_last()[i] == x;
        assert(s[i] == x);
        assert(s.contains(x));
    }
    if s.last() == x {
        assert(s[s.len() - 1] == x);
        assert(s.contains(x));
    }
}

/// An identity is among the distinct identities exactly when it is in the
/// original list.
pub proof fn lemma_dedup_contains(s: Seq<u64>, x: u64)
    ensures
        dedup(s).contains(x) <==> s.contains(x),
    decreases s.len(),
{
    if s.len() == 0 {
        if dedup(s).contains(x) {
            let i = choose|i: int| 0 <= i < dedup(s).len() && dedup(s)[i] == x;
        }
        if s.contains(x) {
            let i = choose|i: int| 0 <= i < s.len() && s[i] == x;
        }
    } else {
        lemma_dedup_contains(s.drop_last(), x);
        lemma_contains_split(s, x);
        let d = dedup(s.drop_last());
        if s.drop_last().contains(s.last()) {
        } else {
            lemma_contains_split(d.push(s.last()), x);
            assert(d.push(s.last()).drop_last() =~= d);
        }
    }
}

/// There are no more distinct identities than list entries.
pub proof fn lemma_dedup_len(s: Seq<u64>)
    ensures
        dedup(s).len() <= s.len(),
    decreases s.len(),
{
    if s.len() == 0 {
    } else {
        lemma_dedup_len(s.drop_last());
    }
}

/// The distinct identities are pairwise distinct.
pub proof fn lemma_dedup_distinct(s: Seq<u64>)
    ensures
        distinct_seq(dedup(s)),
    decreases s.len(),
{
    if s.len() == 0 {
    } else {
        lemma_dedup_distinct(s.drop_last());
        let d = dedup(s.drop_last());
        if s.drop_last().contains(s.last()) {
        } else {
            lemma_dedup_contains(s.drop_last(), s.last());
            let d2 = d.push(s.last());
            assert forall|i: int, k: int| 0 <= i < k < d2.len() implies d2[i] != d2[k] by {
                if k == d2.len() - 1 {
                    assert(d.contains(d[i]));
                    lemma_dedup_contains(s.drop_last(), d[i]);
                }
            }
        }
    }
}

proof fn lemma_refund_total_empty_journal(custody: u64, d: Seq<u64>)
    ensures
        refund_total(Seq::empty(), custody, d) == 0,
    decreases d.len(),
{
    if d.len() == 0 {
    } else {
        lemma_refund_total_empty_journal(custody, d.drop_last());
    }
}

proof fn lemma_refund_split(j: Seq<Transaction>, custody: u64, d: Seq<u64>)
    requires
        j.len() > 0,
    ensures
        refund_total(j, custody, d) == refund_total(j.drop_last(), custody, d) + point_mass(j.last(), custody, d),
    decreases d.len(),
{
    if d.len() == 0 {
    } else {
        lemma_refund_split(j, custody, d.drop_last());
    }
}

proof fn lemma_point_mass_value(t: Transaction, custody: u64, d: Seq<u64>)
    requires
        distinct_seq(d),
    ensures
        point_mass(t, custody, d)
            == if t.to == custody && t.reason == TxReason::CampaignFunding && d.contains(t.from) { t.amount as int } else { 0 },
    decreases d.len(),
{
    if d.len() == 0 {
        if d.contains(t.from) {
            let i = choose|i: int| 0 <= i < d.len() && d[i] == t.from;
        }
    } else {
        let dp = d.drop_last();
        assert(distinct_seq(dp)) by {
            assert forall|i: int, k: int| 0 <= i < k < dp.len() implies dp[i] != dp[k] by {
                assert(d[i] == dp[i] && d[k] == dp[k]);
            }
        }
        lemma_point_mass_value(t, custody, dp);
        lemma_contains_split(d, t.from);
        if t.to == custody && t.reason == TxReason::CampaignFunding && d.last() == t.from {
            if dp.contains(t.from) {
                let i = choose|i: int| 0 <= i < dp.len() && dp[i] == t.from;
                assert(d[i] == t.from && d[d.len() - 1] == t.from);
            }
        }
    }
}

/// Conservation of a failed campaign's settlement: when every
/// campaign-funding entry in the journal came from someone in the backer
/// list, refunding each distinct backer its derived contribution pays out in
/// total exactly the sum of all campaign-funding entries.
pub proof fn lemma_refund_conservation(j: Seq<Transaction>, custody: u64, backers: Seq<u64>)
    requires
        forall|i: int|
            0 <= i < j.len() && (#[trigger] j[i]).to == custody && j[i].reason == TxReason::CampaignFunding
                ==> backers.contains(j[i].from),
    ensures
        refund_total(j, custody, dedup(backers)) == total_funding(j, custody),
    decreases j.len(),
{
    let d = dedup(backers);
    if j.len() == 0 {
        lemma_refund_total_empty_journal(custody, d);
        assert(j =~= Seq::<Transaction>::empty());
    } else {
        let jp = j.drop_last();
        assert(forall|i: int|
            0 <= i < jp.len() && (#[trigger] jp[i]).to == custody && jp[i].reason == TxReason::CampaignFunding
                ==> backers.contains(jp[i].from)) by {
            assert forall|i: int|
                0 <= i < jp.len() && (#[trigger] jp[i]).to == custody && jp[i].reason == TxReason::CampaignFunding
                    implies backers.contains(jp[i].from) by {
                assert(jp[i] == j[i]);
            }
        }
        lemma_refund_conservation(jp, custody, backers);
        lemma_refund_split(j, custody, d);
        lemma_dedup_distinct(backers);
        lemma_point_mass_value(j.last(), custody, d);
        if j.last().to == custody && j.last().reason == TxReason::CampaignFunding {
            assert(j[j.len() - 1] == j.last());
            assert(backers.contains(j.last().from));
            lemma_dedup_contains(backers, j.last().from);
        }
    }
}

/// Derives a backer's total contribution from the journal by one linear
/// scan, summing in an `i128`. Returns `None` exactly when the running sum
/// would leave the representable range at some step.
pub fn sum_contribution(journal: &Vec<Transaction>, custody: u64, backer: u64) -> (r: Option<i128>)
    ensures
        r is Some <==> contribution_fits(journal@, custody, backer),
        r is Some ==> r.unwrap() as int == contribution(journal@, custody, backer),
{
    let mut acc: i128 = 0;
    let mut i: usize = 0;
    let n = journal.len();
    while i < n
        invariant
            n == journal@.len(),
            i <= n,
            acc as int == contribution(journal@.take(i as int), custody, backer),
            forall|k: int| 0 <= k <= i ==> i128::MIN <= #[trigger] contribution(journal@.take(k), custody, backer) <= i128::MAX,
        decreases n - i,
    {
        let t = journal[i];
        proof {
            assert(journal@.take(i as int + 1).drop_last() =~= journal@.take(i as int));
            assert(journal@.take(i as int + 1).last() == journal@[i as int]);
        }
        if t.to == custody && t.from == backer && t.reason == TxReason::CampaignFunding {
            if t.amount >= 0 {
                if acc > i128::MAX - t.amount {
                    proof {
                        assert(contribution(journal@.take(i as int + 1), custody, backer) > i128::MAX);
                    }
                    return None;
                }
            } else {
                if acc < i128::MIN - t.amount {
                    proof {
                        assert(contribution(journal@.take(i as int + 1), custody, backer) < i128::MIN);
                    }
                    return None;
                }
            }
            acc = acc + t.amount;
        }
        i = i + 1;
    }
    proof {
        assert(journal@.take(n as int) =~= journal@);
    }
    Some(acc)
}

} // verus!
