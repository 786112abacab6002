use vstd::prelude::*;
use crate::error::ContractError;
use crate::validate::decide;
use crate::types::{KeyView, PaymentView};

verus! {

/// One entry of the payment log: the trip it belongs to and the record.
pub type EntryView = (Seq<char>, PaymentView);

/// The payments of one trip, in the order in which they were logged.
pub open spec fn trip_history(log: Seq<EntryView>, trip: Seq<char>) -> Seq<PaymentView>
    decreases log.len(),
{
    if log.len() == 0 {
        Seq::empty()
    } else {
        let before = trip_history(log.drop_last(), trip);
        if log.last().0 == trip {
            before.push(log.last().1)
        } else {
            before
        }
    }
}

/// A trip's history is non-empty exactly when some logged payment belongs to
/// the trip.
pub proof fn lemma_history_nonempty(log: Seq<EntryView>, trip: Seq<char>)
    ensures
        trip_history(log, trip).len() > 0 <==> exists|i: int|
            0 <= i < log.len() && (#[trigger] log[i]).0 == trip,
    decreases log.len(),
{
    if log.len() > 0 {
        let init = log.drop_last();
        lemma_history_nonempty(init, trip);
        if exists|i: int| 0 <= i < init.len() && (#[trigger] init[i]).0 == trip {
            let i = choose|i: int| 0 <= i < init.len() && (#[trigger] init[i]).0 == trip;
            assert(log[i] == init[i]);
        }
        if exists|i: int| 0 <= i < log.len() && (#[trigger] log[i]).0 == trip {
            let i = choose|i: int| 0 <= i < log.len() && (#[trigger] log[i]).0 == trip;
            if i < log.len() - 1 {
                assert(init[i] == log[i]);
            }
        }
    }
}

/// The state of a ledger: every payment logged so far, in order, with its
/// trip, and the (expense, member) pairs that are marked as paid.
pub struct LedgerView {
    pub log: Seq<EntryView>,
    pub paid: Seq<(Seq<char>, Seq<char>)>,
}

impl LedgerView {
    /// The history of a trip; empty for a trip that has none.
    pub open spec fn history(self, trip: Seq<char>) -> Seq<PaymentView> {
        trip_history(self.log, trip)
    }

    /// Whether the slot under `key` holds a value: a trip's history once it
    /// has a payment, a paid marker once it is set.
    pub open spec fn has(self, key: KeyView) -> bool {
        match key {
            KeyView::TripPayments(trip) => self.history(trip).len() > 0,
            KeyView::ExpensePaid(expense, member) => self.is_paid(expense, member),
        }
    }

    pub open spec fn is_paid(self, expense: Seq<char>, member: Seq<char>) -> bool {
        self.paid.contains((expense, member))
    }

    /// How a submission is answered, checks taken in order: the amount, the
    /// identifiers, then the paid marker.
    pub open spec fn outcome(
        self,
        trip: Seq<char>,
        expense: Seq<char>,
        member: Seq<char>,
        amount: int,
    ) -> Result<(), ContractError> {
        decide(trip, expense, amount, self.is_paid(expense, member))
    }

    /// The state after a payment is accepted: the record is appended to the
    /// log and its (expense, member) pair is marked as paid.
    pub open spec fn record(self, trip: Seq<char>, p: PaymentView) -> LedgerView {
        LedgerView { log: self.log.push((trip, p)), paid: self.paid.push((p.expense_id, p.member)) }
    }

    /// Submits a payment: the outcome, and the state after it.
    pub open spec fn submit(self, trip: Seq<char>, p: PaymentView) -> (
        Result<(), ContractError>,
        LedgerView,
    ) {
        let r = self.outcome(trip, p.expense_id, p.member, p.amount);
        if r is Ok {
            (r, self.record(trip, p))
        } else {
            (r, self)
        }
    }

    /// The invariants of the stored data: positive amounts, non-empty
    /// identifiers, each logged payment marked as paid and each marker backed
    /// by a logged payment, and at most one payment per (expense, member)
    /// pair over all trips.
    pub open spec fn inv(self) -> bool {
        &&& forall|i: int|
            0 <= i < self.log.len() ==> {
                let e = #[trigger] self.log[i];
                &&& e.0.len() > 0
                &&& e.1.expense_id.len() > 0
                &&& e.1.amount > 0
                &&& self.paid.contains((e.1.expense_id, e.1.member))
            }
        &&& forall|k: int| #![trigger self.paid[k]]
            0 <= k < self.paid.len() ==> exists|i: int|
                0 <= i < self.log.len() && #[trigger] self.log[i].1.expense_id == self.paid[k].0
                    && self.log[i].1.member == self.paid[k].1
        &&& forall|i: int, j: int|
            0 <= i < self.log.len() && 0 <= j < self.log.len() && i != j ==> {
                let a = #[trigger] self.log[i];
                let b = #[trigger] self.log[j];
                a.1.expense_id != b.1.expense_id || a.1.member != b.1.member
            }
    }
}

} // verus!
