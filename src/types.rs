use vstd::prelude::*;

verus! {

/// A principal, identified by the text of its account or contract key.
#[derive(Clone, Debug)]
pub struct Address {
    pub key: String,
}

impl View for Address {
    type V = Seq<char>;

    open spec fn view(&self) -> Seq<char> {
        self.key@
    }
}

impl PartialEq for Address {
    fn eq(&self, o: &Address) -> (r: bool) {
        self.key == o.key
    }
}

impl vstd::std_specs::cmp::PartialEqSpecImpl for Address {
    open spec fn obeys_eq_spec() -> bool {
        true
    }

    open spec fn eq_spec(&self, o: &Address) -> bool {
        self.key@ == o.key@
    }
}

impl Eq for Address {
}

impl Address {
    pub fn new(key: String) -> (r: Address)
        ensures
            r@ == key@,
    {
        Address { key }
    }

    /// A copy of the address.
    pub fn copy(&self) -> (r: Address)
        ensures
            r@ == self@,
    {
        Address { key: self.key.clone() }
    }
}

/// What a stored payment record says, in mathematical terms.
pub struct PaymentView {
    pub expense_id: Seq<char>,
    pub payer: Seq<char>,
    pub member: Seq<char>,
    pub amount: int,
    pub tx_hash: Seq<char>,
    pub timestamp: u64,
}

/// One payment toward an expense, as it is kept in a trip's history.
#[derive(Clone, Debug)]
pub struct PaymentRecord {
    pub expense_id: String,
    pub payer: Address,
    pub member: Address,
    pub amount: i128,
    pub tx_hash: String,
    pub timestamp: u64,
}

impl View for PaymentRecord {
    type V = PaymentView;

    open spec fn view(&self) -> PaymentView {
        PaymentView {
            expense_id: self.expense_id@,
            payer: self.payer@,
            member: self.member@,
            amount: self.amount as int,
            tx_hash: self.tx_hash@,
            timestamp: self.timestamp,
        }
    }
}

impl PaymentRecord {
    /// A copy of the record.
    pub fn copy(&self) -> (r: PaymentRecord)
        ensures
            r@ == self@,
    {
        PaymentRecord {
            expense_id: self.expense_id.clone(),
            payer: self.payer.copy(),
            member: self.member.copy(),
            amount: self.amount,
            tx_hash: self.tx_hash.clone(),
            timestamp: self.timestamp,
        }
    }
}

/// The logical storage key of a slot: a trip's payment history, or the
/// marker that a member has paid toward an expense.
#[derive(Clone, Debug)]
pub enum DataKey {
    TripPayments(String),
    ExpensePaid(String, Address),
}

/// A storage key in mathematical terms.
pub enum KeyView {
    TripPayments(Seq<char>),
    ExpensePaid(Seq<char>, Seq<char>),
}

impl View for DataKey {
    type V = KeyView;

    open spec fn view(&self) -> KeyView {
        match self {
            DataKey::TripPayments(t) => KeyView::TripPayments(t@),
            DataKey::ExpensePaid(e, m) => KeyView::ExpensePaid(e@, m@),
        }
    }
}

} // verus!
