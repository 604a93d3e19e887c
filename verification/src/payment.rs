use vstd::prelude::*;
use crate::journal::TxReason;

verus! {

/// A standing order: once created it fires every `interval`, advancing
/// `next_payment` by exactly the interval each time so the cadence never
/// drifts. Recurring payments run forever; they are never marked complete.
#[derive(Clone, Copy, PartialEq, Eq, Structural, Debug)]
pub struct RegularPayment {
    pub id: u32,
    pub from: u64,
    pub to: u64,
    pub amount: i128,
    pub interval: u64,
    pub next_payment: u64,
    pub message: TxReason,
}

/// Whether a payment is due at `now`.
pub open spec fn payment_due(p: RegularPayment, now: u64) -> bool {
    p.next_payment <= now
}

/// A payment that fired advances by exactly its interval, so a second pass
/// within the same interval finds it not yet due and performs no transfer.
pub proof fn lemma_no_double_fire(p: RegularPayment, p2: RegularPayment, now1: u64, now2: u64)
    requires
        payment_due(p, now1),
        p2.next_payment == p.next_payment + p.interval,
        now2 < p.next_payment + p.interval,
    ensures
        !payment_due(p2, now2),
{
}

} // verus!
