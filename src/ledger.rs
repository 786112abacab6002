use vstd::prelude::*;
use crate::error::ContractError;
use crate::model::{lemma_history_nonempty, trip_history, EntryView, LedgerView};
use crate::validate::check_submission;
use crate::types::{Address, DataKey, KeyView, PaymentRecord, PaymentView};

verus! {

/// A logged payment and the trip it was recorded under.
pub struct LogEntry {
    pub trip_id: String,
    pub record: PaymentRecord,
}

impl View for LogEntry {
    type V = EntryView;

    open spec fn view(&self) -> EntryView {
        (self.trip_id@, self.record@)
    }
}

/// The payment ledger. Each call runs to completion before the next one
/// starts: the `&mut` borrow is the transaction boundary that makes the
/// paid-marker check and its setting one indivisible step.
pub struct SettleXContract {
    log: Vec<LogEntry>,
    paid: Vec<(String, Address)>,
}

impl View for SettleXContract {
    type V = LedgerView;

    closed spec fn view(&self) -> LedgerView {
        LedgerView {
            log: self.log@.map_values(|e: LogEntry| e@),
            paid: self.paid@.map_values(|k: (String, Address)| (k.0@, k.1@)),
        }
    }
}

impl SettleXContract {
    pub open spec fn wf(&self) -> bool {
        self@.inv()
    }

    /// A ledger with no payments.
    pub fn new() -> (r: SettleXContract)
        ensures
            r.wf(),
            r@.log == Seq::<EntryView>::empty(),
            r@.paid == Seq::<(Seq<char>, Seq<char>)>::empty(),
    {
        let r = SettleXContract { log: Vec::new(), paid: Vec::new() };
        assert(r@.log =~= Seq::<EntryView>::empty());
        assert(r@.paid =~= Seq::<(Seq<char>, Seq<char>)>::empty());
        r
    }

    /// Whether `member` has recorded a payment toward `expense_id`; `false`
    /// for a pair never seen.
    pub fn is_paid(&self, expense_id: &String, member: &Address) -> (r: bool)
        ensures
            r == self@.is_paid(expense_id@, member@),
    {
        let ghost target = (expense_id@, member@);
        let mut i: usize = 0;
        while i < self.paid.len()
            invariant
                0 <= i <= self.paid@.len(),
                target == (expense_id@, member@),
                self@.paid.len() == self.paid@.len(),
                forall|k: int| 0 <= k < i ==> self@.paid[k] != target,
            decreases self.paid@.len() - i,
        {
            assert(self@.paid[i as int] == (self.paid@[i as int].0@, self.paid@[i as int].1@));
            if self.paid[i].0 == *expense_id && self.paid[i].1 == *member {
                assert(self@.paid[i as int] == target);
                return true;
            }
            i = i + 1;
        }
        proof {
            if self@.paid.contains(target) {
                let k = choose|k: int| 0 <= k < self@.paid.len() && self@.paid[k] == target;
                assert(self@.paid[k] != target);
            }
        }
        false
    }

    /// Whether the slot under `key` holds a value.
    pub fn has(&self, key: &DataKey) -> (r: bool)
        ensures
            r == self@.has(key@),
    {
        match key {
            DataKey::TripPayments(trip_id) => {
                let mut i: usize = 0;
                while i < self.log.len()
                    invariant
                        0 <= i <= self.log@.len(),
                        self@.log.len() == self.log@.len(),
                        key@ == KeyView::TripPayments(trip_id@),
                        forall|k: int| 0 <= k < i ==> (#[trigger] self@.log[k]).0 != trip_id@,
                    decreases self.log@.len() - i,
                {
                    assert(self@.log[i as int] == self.log@[i as int]@);
                    if self.log[i].trip_id == *trip_id {
                        proof {
                            lemma_history_nonempty(self@.log, trip_id@);
                            assert((self@.log[i as int]).0 == trip_id@);
                        }
                        return true;
                    }
                    i = i + 1;
                }
                proof {
                    lemma_history_nonempty(self@.log, trip_id@);
                }
                false
            },
            DataKey::ExpensePaid(expense_id, member) => self.is_paid(expense_id, member),
        }
    }

    /// The payments of a trip in the order in which they were recorded; empty
    /// for a trip never seen.
    pub fn get_payments(&self, trip_id: &String) -> (r: Vec<PaymentRecord>)
        ensures
            r@.map_values(|p: PaymentRecord| p@) == self@.history(trip_id@),
    {
        let ghost log = self@.log;
        let mut out: Vec<PaymentRecord> = Vec::new();
        let mut i: usize = 0;
        while i < self.log.len()
            invariant
                0 <= i <= self.log@.len(),
                log == self@.log,
                log.len() == self.log@.len(),
                out@.map_values(|p: PaymentRecord| p@) == trip_history(log.take(i as int), trip_id@),
            decreases self.log@.len() - i,
        {
            let ghost before = out@.map_values(|p: PaymentRecord| p@);
            assert(log.take(i + 1).drop_last() =~= log.take(i as int));
            assert(log[i as int] == self.log@[i as int]@);
            if self.log[i].trip_id == *trip_id {
                out.push(self.log[i].record.copy());
                assert(out@.map_values(|p: PaymentRecord| p@) =~= before.push(log[i as int].1));
            }
            i = i + 1;
        }
        assert(log.take(i as int) =~= log);
        out
    }

    /// Records that `member` paid `amount` toward `expense_id` of trip
    /// `trip_id`, on behalf of `payer`, at time `now`. The caller has already
    /// established that the call is authorised by `member`; `payer` is taken
    /// as given.
    ///
    /// The amount is checked first, then the identifiers, then whether the
    /// member has already paid toward this expense. On any error nothing is
    /// changed; on success the record is appended to the trip's history and
    /// the (expense, member) pair is marked as paid.
    pub fn record_payment(
        &mut self,
        trip_id: String,
        expense_id: String,
        payer: Address,
        member: Address,
        amount: i128,
        tx_hash: String,
        now: u64,
    ) -> (r: Result<(), ContractError>)
        requires
            old(self).wf(),
        ensures
            final(self).wf(),
            r == old(self)@.outcome(trip_id@, expense_id@, member@, amount as int),
            r is Ok ==> final(self)@ == old(self)@.record(
                trip_id@,
                PaymentView {
                    expense_id: expense_id@,
                    payer: payer@,
                    member: member@,
                    amount: amount as int,
                    tx_hash: tx_hash@,
                    timestamp: now,
                },
            ),
            r is Err ==> final(self)@ == old(self)@,
            (r, final(self)@) == old(self)@.submit(
                trip_id@,
                PaymentView {
                    expense_id: expense_id@,
                    payer: payer@,
                    member: member@,
                    amount: amount as int,
                    tx_hash: tx_hash@,
                    timestamp: now,
                },
            ),
    {
        let already_paid = self.is_paid(&expense_id, &member);
        check_submission(&trip_id, &expense_id, amount, already_paid)?;
        let ghost pre = self@;
        let record = PaymentRecord {
            expense_id: expense_id.clone(),
            payer,
            member: member.copy(),
            amount,
            tx_hash,
            timestamp: now,
        };
        let ghost p = record@;
        self.log.push(LogEntry { trip_id, record });
        self.paid.push((expense_id, member));
        assert(self@.log =~= pre.log.push((trip_id@, p)));
        assert(self@.paid =~= pre.paid.push((p.expense_id, p.member)));
        proof {
            let post = self@;
            let n = pre.log.len() as int;
            assert forall|i: int| 0 <= i < post.log.len() implies post.paid.contains(
                (post.log[i].1.expense_id, post.log[i].1.member),
            ) by {
                if i < n {
                    let x = (pre.log[i].1.expense_id, pre.log[i].1.member);
                    assert(post.log[i] == pre.log[i]);
                    assert(pre.log[i].0.len() > 0);
                    assert(pre.paid.contains(x));
                    let k = choose|k: int| 0 <= k < pre.paid.len() && pre.paid[k] == x;
                    assert(post.paid[k] == x);
                } else {
                    assert(post.paid[pre.paid.len() as int] == (p.expense_id, p.member));
                }
            }
            assert forall|k: int| #![trigger post.paid[k]] 0 <= k < post.paid.len() implies exists|i: int|
                0 <= i < post.log.len() && #[trigger] post.log[i].1.expense_id == post.paid[k].0
                    && post.log[i].1.member == post.paid[k].1 by {
                if k < pre.paid.len() {
                    assert(post.paid[k] == pre.paid[k]);
                    let i = choose|i: int|
                        0 <= i < pre.log.len() && #[trigger] pre.log[i].1.expense_id
                            == pre.paid[k].0 && pre.log[i].1.member == pre.paid[k].1;
                    assert(post.log[i] == pre.log[i]);
                } else {
                    assert(post.log[n] == (trip_id@, p));
                }
            }
            assert forall|i: int, j: int|
                0 <= i < post.log.len() && 0 <= j < post.log.len() && i != j implies {
                let a = #[trigger] post.log[i];
                let b = #[trigger] post.log[j];
                a.1.expense_id != b.1.expense_id || a.1.member != b.1.member
            } by {
                if i == n {
                    assert(post.log[j] == pre.log[j]);
                    assert(pre.paid.contains((pre.log[j].1.expense_id, pre.log[j].1.member)));
                } else if j == n {
                    assert(post.log[i] == pre.log[i]);
                    assert(pre.paid.contains((pre.log[i].1.expense_id, pre.log[i].1.member)));
                } else {
                    assert(post.log[i] == pre.log[i]);
                    assert(post.log[j] == pre.log[j]);
                }
            }
        }
        Ok(())
    }
}

} // verus!
