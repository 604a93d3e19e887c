use vstd::prelude::*;
use crate::errors::Error;

verus! {

/// One account's balance of one token.
#[derive(Clone, Copy, PartialEq, Eq, Structural, Debug)]
pub struct BalanceEntry {
    pub token: u64,
    pub account: u64,
    pub amount: i128,
}

/// The model of the external fund-transfer gateway: the token balances of
/// every account-like entity, with an atomic, all-or-nothing `transfer`.
/// An account with no entry holds zero. Value enters the system only through
/// [`TokenLedger::mint`], which stands for a deposit made outside the
/// marketplace.
pub struct TokenLedger {
    pub entries: Vec<BalanceEntry>,
}

/// The balance of `account` in `token`: the amount of the first matching
/// entry, or zero when none exists.
pub open spec fn spec_balance(l: Seq<BalanceEntry>, token: u64, account: u64) -> int
    decreases l.len(),
{
    if l.len() == 0 {
        0
    } else if l[0].token == token && l[0].account == account {
        l[0].amount as int
    } else {
        spec_balance(l.subrange(1, l.len() as int), token, account)
    }
}

/// The ledger as a total map from (token, account) to balance.
pub open spec fn balances(l: Seq<BalanceEntry>) -> Map<(u64, u64), int> {
    Map::new(|k: (u64, u64)| true, |k: (u64, u64)| spec_balance(l, k.0, k.1))
}

/// When the gateway accepts a movement: the amount is not negative, the
/// sender covers it, and the recipient's balance stays representable.
pub open spec fn xfer_ok(m: Map<(u64, u64), int>, token: u64, from: u64, to: u64, amount: i128) -> bool {
    &&& 0 <= amount
    &&& amount <= m[(token, from)]
    &&& (from == to || m[(token, to)] + amount <= i128::MAX)
}

/// The balances after an accepted movement; a self-transfer changes nothing.
pub open spec fn xfer_map(m: Map<(u64, u64), int>, token: u64, from: u64, to: u64, amount: i128) -> Map<(u64, u64), int> {
    if from == to {
        m
    } else {
        m.insert((token, from), m[(token, from)] - amount).insert((token, to), m[(token, to)] + amount)
    }
}

/// Sequential application of a batch of movements out of one account:
/// `Some` of the resulting balances when every step is accepted, else `None`.
pub open spec fn multi_xfer(m: Map<(u64, u64), int>, token: u64, from: u64, recipients: Seq<(u64, i128)>) -> Option<Map<(u64, u64), int>>
    decreases recipients.len(),
{
    if recipients.len() == 0 {
        Some(m)
    } else if xfer_ok(m, token, from, recipients[0].0, recipients[0].1) {
        multi_xfer(
            xfer_map(m, token, from, recipients[0].0, recipients[0].1),
            token,
            from,
            recipients.subrange(1, recipients.len() as int),
        )
    } else {
        None
    }
}

/// Every stored balance is an `i128`, so every balance the ledger derives is
/// representable.
pub proof fn lemma_balance_bounds(l: Seq<BalanceEntry>, token: u64, account: u64)
    ensures
        i128::MIN <= spec_balance(l, token, account) <= i128::MAX,
    decreases l.len(),
{
    if l.len() == 0 {
    } else if l[0].token == token && l[0].account == account {
    } else {
        lemma_balance_bounds(l.subrange(1, l.len() as int), token, account);
    }
}

/// Overwriting the amount of the first entry of a key changes that key's
/// balance to the new amount and no other.
proof fn lemma_update_entry(l: Seq<BalanceEntry>, i: int, v: i128)
    requires
        0 <= i < l.len(),
        forall|j: int| 0 <= j < i ==> !((#[trigger] l[j]).token == l[i].token && l[j].account == l[i].account),
    ensures
        forall|t: u64, a: u64|
            spec_balance(l.update(i, BalanceEntry { token: l[i].token, account: l[i].account, amount: v }), t, a)
                == if t == l[i].token && a == l[i].account { v as int } else { spec_balance(l, t, a) },
    decreases i,
{
    let e = BalanceEntry { token: l[i].token, account: l[i].account, amount: v };
    let l2 = l.update(i, e);
    if i == 0 {
        assert forall|t: u64, a: u64|
            spec_balance(l2, t, a) == if t == e.token && a == e.account { v as int } else { spec_balance(l, t, a) }
        by {
            assert(l2.subrange(1, l2.len() as int) =~= l.subrange(1, l.len() as int));
        }
    } else {
        let lt = l.subrange(1, l.len() as int);
        lemma_update_entry(lt, i - 1, v);
        assert(l2.subrange(1, l2.len() as int) =~= lt.update(i - 1, e));
        assert forall|t: u64, a: u64|
            spec_balance(l2, t, a) == if t == e.token && a == e.account { v as int } else { spec_balance(l, t, a) }
        by {
            assert(l2[0] == l[0]);
            if !(l[0].token == t && l[0].account == a) {
                assert(spec_balance(l2, t, a) == spec_balance(lt.update(i - 1, e), t, a));
                assert(spec_balance(l, t, a) == spec_balance(lt, t, a));
                assert(lt[i - 1] == l[i]);
            }
        }
    }
}

/// Appending an entry for a key the ledger does not hold gives that key the
/// appended amount and leaves every other balance unchanged.
proof fn lemma_push_new(l: Seq<BalanceEntry>, e: BalanceEntry)
    requires
        forall|j: int| 0 <= j < l.len() ==> !((#[trigger] l[j]).token == e.token && l[j].account == e.account),
    ensures
        forall|t: u64, a: u64|
            spec_balance(l.push(e), t, a)
                == if t == e.token && a == e.account { e.amount as int } else { spec_balance(l, t, a) },
    decreases l.len(),
{
    let l2 = l.push(e);
    if l.len() == 0 {
        assert forall|t: u64, a: u64|
            spec_balance(l2, t, a) == if t == e.token && a == e.account { e.amount as int } else { spec_balance(l, t, a) }
        by {
            assert(l2[0] == e);
            if !(e.token == t && e.account == a) {
                assert(l2.subrange(1, l2.len() as int) =~= Seq::<BalanceEntry>::empty());
                assert(spec_balance(l2, t, a) == spec_balance(Seq::<BalanceEntry>::empty(), t, a));
            }
        }
    } else {
        let lt = l.subrange(1, l.len() as int);
        lemma_push_new(lt, e);
        assert(l2.subrange(1, l2.len() as int) =~= lt.push(e));
        assert forall|t: u64, a: u64|
            spec_balance(l2, t, a) == if t == e.token && a == e.account { e.amount as int } else { spec_balance(l, t, a) }
        by {
            assert(l2[0] == l[0]);
            if !(l[0].token == t && l[0].account == a) {
                assert(spec_balance(l2, t, a) == spec_balance(lt.push(e), t, a));
                assert(spec_balance(l, t, a) == spec_balance(lt, t, a));
            }
        }
    }
}

/// The first entry of a key gives that key's balance.
proof fn lemma_first_match_value(l: Seq<BalanceEntry>, i: int)
    requires
        0 <= i < l.len(),
        forall|j: int| 0 <= j < i ==> !((#[trigger] l[j]).token == l[i].token && l[j].account == l[i].account),
    ensures
        spec_balance(l, l[i].token, l[i].account) == l[i].amount as int,
    decreases i,
{
    if i == 0 {
    } else {
        let lt = l.subrange(1, l.len() as int);
        lemma_first_match_value(lt, i - 1);
    }
}

/// A key with no entry holds zero.
proof fn lemma_no_match_zero(l: Seq<BalanceEntry>, token: u64, account: u64)
    requires
        forall|j: int| 0 <= j < l.len() ==> !((#[trigger] l[j]).token == token && l[j].account == account),
    ensures
        spec_balance(l, token, account) == 0,
    decreases l.len(),
{
    if l.len() == 0 {
    } else {
        lemma_no_match_zero(l.subrange(1, l.len() as int), token, account);
    }
}

impl TokenLedger {
    /// An empty ledger: every balance is zero.
    pub fn new() -> (r: TokenLedger)
        ensures
            r.entries@ == Seq::<BalanceEntry>::empty(),
    {
        TokenLedger { entries: Vec::new() }
    }

    /// The index of the first entry for (token, account), if any.
    fn find_idx(&self, token: u64, account: u64) -> (r: Option<usize>)
        ensures
            match r {
                Some(i) => {
                    &&& i < self.entries@.len()
                    &&& self.entries@[i as int].token == token
                    &&& self.entries@[i as int].account == account
                    &&& forall|j: int| 0 <= j < i ==> !((#[trigger] self.entries@[j]).token == token && self.entries@[j].account == account)
                },
                None => forall|j: int| 0 <= j < self.entries@.len() ==> !((#[trigger] self.entries@[j]).token == token && self.entries@[j].account == account),
            },
    {
        let mut i: usize = 0;
        let n = self.entries.len();
        while i < n
            invariant
                n == self.entries@.len(),
                i <= n,
                forall|j: int| 0 <= j < i ==> !((#[trigger] self.entries@[j]).token == token && self.entries@[j].account == account),
            decreases n - i,
        {
            if self.entries[i].token == token && self.entries[i].account == account {
                return Some(i);
            }
            i = i + 1;
        }
        None
    }

    /// The balance of `account` in `token`.
    pub fn balance_of(&self, token: u64, account: u64) -> (r: i128)
        ensures
            r as int == spec_balance(self.entries@, token, account),
    {
        match self.find_idx(token, account) {
            Some(i) => {
                proof {
                    lemma_first_match_value(self.entries@, i as int);
                }
                self.entries[i].amount
            },
            None => {
                proof {
                    lemma_no_match_zero(self.entries@, token, account);
                }
                0
            },
        }
    }

    /// Sets one balance, leaving every other balance unchanged.
    fn set_balance(&mut self, token: u64, account: u64, v: i128)
        ensures
            forall|t: u64, a: u64|
                spec_balance(final(self).entries@, t, a)
                    == if t == token && a == account { v as int } else { spec_balance(old(self).entries@, t, a) },
    {
        match self.find_idx(token, account) {
            Some(i) => {
                proof {
                    lemma_update_entry(self.entries@, i as int, v);
                }
                self.entries.set(i, BalanceEntry { token, account, amount: v });
            },
            None => {
                proof {
                    lemma_push_new(self.entries@, BalanceEntry { token, account, amount: v });
                }
                self.entries.push(BalanceEntry { token, account, amount: v });
            },
        }
    }

    /// A deposit arriving from outside the marketplace: raises one balance by
    /// `amount`.
    pub fn mint(&mut self, token: u64, account: u64, amount: i128)
        requires
            0 <= amount,
            spec_balance(old(self).entries@, token, account) + amount <= i128::MAX,
        ensures
            balances(final(self).entries@)
                == balances(old(self).entries@).insert((token, account), spec_balance(old(self).entries@, token, account) + amount),
    {
        proof {
            lemma_balance_bounds(self.entries@, token, account);
        }
        let b = self.balance_of(token, account);
        self.set_balance(token, account, b + amount);
        proof {
            assert(balances(self.entries@)
                =~= balances(old(self).entries@).insert((token, account), spec_balance(old(self).entries@, token, account) + amount));
        }
    }

    /// The gateway's atomic movement: succeeds exactly when the sender covers
    /// a non-negative amount and the recipient's balance stays representable;
    /// on refusal nothing changes.
    pub fn transfer(&mut self, token: u64, from: u64, to: u64, amount: i128) -> (r: Result<(), Error>)
        ensures
            r is Ok <==> xfer_ok(balances(old(self).entries@), token, from, to, amount),
            r is Ok ==> balances(final(self).entries@) == xfer_map(balances(old(self).entries@), token, from, to, amount),
            r is Err ==> final(self).entries@ == old(self).entries@ && r == Err::<(), Error>(Error::TransferFailed),
    {
        if amount < 0 {
            return Err(Error::TransferFailed);
        }
        let from_bal = self.balance_of(token, from);
        if from_bal < amount {
            return Err(Error::TransferFailed);
        }
        if from == to {
            return Ok(());
        }
        let to_bal = self.balance_of(token, to);
        if to_bal > i128::MAX - amount {
            return Err(Error::TransferFailed);
        }
        self.set_balance(token, from, from_bal - amount);
        self.set_balance(token, to, to_bal + amount);
        proof {
            assert(balances(self.entries@)
                =~= xfer_map(balances(old(self).entries@), token, from, to, amount));
        }
        Ok(())
    }

    /// A value copy of the ledger, used to attempt a batch of movements
    /// without touching the committed state.
    pub fn duplicate(&self) -> (r: TokenLedger)
        ensures
            r.entries@ == self.entries@,
    {
        let mut v: Vec<BalanceEntry> = Vec::new();
        let mut i: usize = 0;
        let n = self.entries.len();
        while i < n
            invariant
                n == self.entries@.len(),
                i <= n,
                v@ == self.entries@.take(i as int),
            decreases n - i,
        {
            let e = self.entries[i];
            v.push(e);
            proof {
                assert(self.entries@.take(i as int + 1) =~= self.entries@.take(i as int).push(self.entries@[i as int]));
            }
            i = i + 1;
        }
        proof {
            assert(self.entries@.take(n as int) =~= self.entries@);
        }
        TokenLedger { entries: v }
    }
}

} // verus!
