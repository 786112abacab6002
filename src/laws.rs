use vstd::prelude::*;
use crate::error::ContractError;
use crate::model::{trip_history, EntryView, LedgerView};
use crate::types::PaymentView;

verus! {

/// Whether a submission passes the amount and identifier checks.
pub open spec fn well_formed(trip: Seq<char>, p: PaymentView) -> bool {
    p.amount > 0 && trip.len() > 0 && p.expense_id.len() > 0
}

/// Submits the payments `ps`, in order, all under `trip`: the outcome of each,
/// and the state after the last.
pub open spec fn submit_all(l: LedgerView, trip: Seq<char>, ps: Seq<PaymentView>) -> (
    Seq<Result<(), ContractError>>,
    LedgerView,
)
    decreases ps.len(),
{
    if ps.len() == 0 {
        (Seq::empty(), l)
    } else {
        let (rs, mid) = submit_all(l, trip, ps.drop_last());
        let (r, next) = mid.submit(trip, ps.last());
        (rs.push(r), next)
    }
}

/// Whether the timestamps of `s` never decrease along it.
pub open spec fn time_ordered(s: Seq<PaymentView>) -> bool {
    forall|i: int, j: int| 0 <= i <= j < s.len() ==> #[trigger] s[i].timestamp <= #[trigger] s[j].timestamp
}

/// Appending a payment of `trip` extends that trip's history by it.
proof fn lemma_history_push(log: Seq<EntryView>, trip: Seq<char>, e: EntryView)
    ensures
        trip_history(log.push(e), trip) == if e.0 == trip {
            trip_history(log, trip).push(e.1)
        } else {
            trip_history(log, trip)
        },
{
    assert(log.push(e).drop_last() =~= log);
}

/// A second valid submission by the same member toward the same expense fails
/// with `AlreadyPaid` and changes nothing, whatever its trip, amount or
/// transaction reference, and whether or not the first was accepted.
pub proof fn lemma_second_payment_rejected(
    l: LedgerView,
    trip1: Seq<char>,
    p1: PaymentView,
    trip2: Seq<char>,
    p2: PaymentView,
)
    requires
        well_formed(trip1, p1),
        well_formed(trip2, p2),
        p2.expense_id == p1.expense_id,
        p2.member == p1.member,
    ensures
        l.submit(trip1, p1).1.submit(trip2, p2).0 == Err::<(), ContractError>(
            ContractError::AlreadyPaid,
        ),
        l.submit(trip1, p1).1.submit(trip2, p2).1 == l.submit(trip1, p1).1,
{
    let mid = l.submit(trip1, p1).1;
    if l.is_paid(p1.expense_id, p1.member) {
        assert(mid == l);
    } else {
        assert(mid.paid.last() == (p1.expense_id, p1.member));
        assert(mid.paid.contains((p1.expense_id, p1.member)));
    }
}

/// The (expense, member) pair that a payment marks as paid.
pub open spec fn pair_of(p: PaymentView) -> (Seq<char>, Seq<char>) {
    (p.expense_id, p.member)
}

/// Submitting, under one non-empty trip, valid payments by pairwise distinct
/// members, none of whom had paid toward its expense before: every
/// submission is accepted, the trip's history grows by exactly these records
/// in the order submitted, and their pairs become marked as paid.
/// Timestamps that the clock handed out in non-decreasing order stay so in
/// the history.
pub proof fn lemma_history_append(l: LedgerView, trip: Seq<char>, ps: Seq<PaymentView>)
    requires
        trip.len() > 0,
        forall|i: int|
            0 <= i < ps.len() ==> #[trigger] ps[i].amount > 0 && ps[i].expense_id.len() > 0
                && !l.is_paid(ps[i].expense_id, ps[i].member),
        forall|i: int, j: int|
            0 <= i < ps.len() && 0 <= j < ps.len() && i != j ==> #[trigger] ps[i].member
                != #[trigger] ps[j].member,
    ensures
        submit_all(l, trip, ps).0.len() == ps.len(),
        forall|i: int|
            0 <= i < ps.len() ==> #[trigger] submit_all(l, trip, ps).0[i] == Ok::<
                (),
                ContractError,
            >(()),
        submit_all(l, trip, ps).1.history(trip) == l.history(trip) + ps,
        submit_all(l, trip, ps).1.paid == l.paid + ps.map_values(|p: PaymentView| pair_of(p)),
        time_ordered(l.history(trip) + ps) ==> time_ordered(submit_all(l, trip, ps).1.history(trip)),
    decreases ps.len(),
{
    if ps.len() > 0 {
        let init = ps.drop_last();
        let last = ps.last();
        assert forall|i: int, j: int|
            0 <= i < init.len() && 0 <= j < init.len() && i != j implies #[trigger] init[i].member
            != #[trigger] init[j].member by {
            assert(init[i] == ps[i] && init[j] == ps[j]);
        }
        assert forall|i: int| 0 <= i < init.len() implies #[trigger] init[i].amount > 0
            && init[i].expense_id.len() > 0 && !l.is_paid(init[i].expense_id, init[i].member) by {
            assert(init[i] == ps[i]);
        }
        lemma_history_append(l, trip, init);
        let (rs, mid) = submit_all(l, trip, init);
        let n = ps.len() - 1;
        assert(ps[n] == last);
        if mid.is_paid(last.expense_id, last.member) {
            let k = choose|k: int| 0 <= k < mid.paid.len() && mid.paid[k] == pair_of(last);
            if k < l.paid.len() {
                assert(mid.paid[k] == l.paid[k]);
            } else {
                let j = k - l.paid.len();
                assert(mid.paid[k] == pair_of(init[j]));
                assert(init[j] == ps[j]);
            }
        }
        lemma_history_push(mid.log, trip, (trip, last));
        assert(l.history(trip) + ps =~= (l.history(trip) + init).push(last));
        assert(ps.map_values(|p: PaymentView| pair_of(p)) =~= init.map_values(
            |p: PaymentView| pair_of(p),
        ).push(pair_of(last)));
        assert(l.paid + ps.map_values(|p: PaymentView| pair_of(p)) =~= (l.paid + init.map_values(
            |p: PaymentView| pair_of(p),
        )).push(pair_of(last)));
        let out = submit_all(l, trip, ps).0;
        assert forall|i: int| 0 <= i < ps.len() implies #[trigger] out[i] == Ok::<
            (),
            ContractError,
        >(()) by {
            if i < n {
                assert(out[i] == rs[i]);
            }
        }
    } else {
        assert(l.history(trip) + ps =~= l.history(trip));
        assert(l.paid + ps.map_values(|p: PaymentView| pair_of(p)) =~= l.paid);
    }
}

/// A submission whose amount is zero or negative fails with `InvalidAmount`
/// and leaves the ledger as it was.
pub proof fn lemma_non_positive_amount_rejected(l: LedgerView, trip: Seq<char>, p: PaymentView)
    requires
        p.amount <= 0,
    ensures
        l.submit(trip, p) == (Err::<(), ContractError>(ContractError::InvalidAmount), l),
{
}

/// A submission with an empty trip or expense identifier changes nothing, and
/// when its amount is positive it fails with `EmptyId`.
pub proof fn lemma_empty_id_rejected(l: LedgerView, trip: Seq<char>, p: PaymentView)
    requires
        trip.len() == 0 || p.expense_id.len() == 0,
    ensures
        l.submit(trip, p).1 == l,
        p.amount > 0 ==> l.submit(trip, p).0 == Err::<(), ContractError>(ContractError::EmptyId),
{
}

/// Paying toward one expense does not mark the member as having paid toward
/// any other expense.
pub proof fn lemma_other_expense_unaffected(
    l: LedgerView,
    trip: Seq<char>,
    p: PaymentView,
    other: Seq<char>,
)
    requires
        other != p.expense_id,
    ensures
        l.submit(trip, p).1.is_paid(other, p.member) == l.is_paid(other, p.member),
{
    let next = l.submit(trip, p).1;
    if l.outcome(trip, p.expense_id, p.member, p.amount) is Ok {
        assert(next.paid == l.paid.push((p.expense_id, p.member)));
        if next.paid.contains((other, p.member)) {
            let k = choose|k: int| 0 <= k < next.paid.len() && next.paid[k] == (other, p.member);
            assert(k < l.paid.len());
            assert(l.paid[k] == (other, p.member));
        }
        if l.paid.contains((other, p.member)) {
            let k = choose|k: int| 0 <= k < l.paid.len() && l.paid[k] == (other, p.member);
            assert(next.paid[k] == (other, p.member));
        }
    }
}

/// In a ledger that holds its invariants, a trip under which no payment was
/// ever logged has an empty history, and an (expense, member) pair for which
/// no payment was ever logged is not marked as paid.
pub proof fn lemma_unknown_keys_read_empty(
    l: LedgerView,
    trip: Seq<char>,
    expense: Seq<char>,
    member: Seq<char>,
)
    requires
        l.inv(),
    ensures
        (forall|i: int| 0 <= i < l.log.len() ==> (#[trigger] l.log[i]).0 != trip) ==> l.history(
            trip,
        ).len() == 0,
        (forall|i: int|
            0 <= i < l.log.len() ==> (#[trigger] l.log[i]).1.expense_id != expense
                || l.log[i].1.member != member) ==> !l.is_paid(expense, member),
{
    lemma_history_absent(l.log, trip);
    if l.is_paid(expense, member) {
        let k = choose|k: int| 0 <= k < l.paid.len() && l.paid[k] == (expense, member);
        assert(l.paid[k] == (expense, member));
    }
}

proof fn lemma_history_absent(log: Seq<EntryView>, trip: Seq<char>)
    ensures
        (forall|i: int| 0 <= i < log.len() ==> (#[trigger] log[i]).0 != trip) ==> trip_history(
            log,
            trip,
        ).len() == 0,
    decreases log.len(),
{
    if log.len() > 0 {
        lemma_history_absent(log.drop_last(), trip);
        if forall|i: int| 0 <= i < log.len() ==> (#[trigger] log[i]).0 != trip {
            assert forall|i: int| 0 <= i < log.drop_last().len() implies (
            #[trigger] log.drop_last()[i]).0 != trip by {
                assert(log.drop_last()[i] == log[i]);
            }
            assert(log[log.len() - 1].0 != trip);
        }
    }
}

} // verus!
