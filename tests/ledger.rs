use settlex::{Address, ContractError, SettleXContract};

fn s(text: &str) -> String {
    String::from(text)
}

fn addr(key: &str) -> Address {
    Address::new(String::from(key))
}

fn pay(
    ledger: &mut SettleXContract,
    trip: &str,
    expense: &str,
    payer: &Address,
    member: &Address,
    amount: i128,
    tx: &str,
    now: u64,
) -> Result<(), ContractError> {
    ledger.record_payment(s(trip), s(expense), payer.clone(), member.clone(), amount, s(tx), now)
}

#[test]
fn test_record_and_query() {
    let mut ledger = SettleXContract::new();
    let trip_id = s("trip-123");
    let expense_id = s("exp-456");
    let payer = addr("GPAYER");
    let member = addr("GMEMBER");

    assert!(!ledger.is_paid(&expense_id, &member));
    assert_eq!(ledger.get_payments(&trip_id).len(), 0);

    let r = pay(&mut ledger, "trip-123", "exp-456", &payer, &member, 10_000_000_i128, "abc123def456", 1000);
    assert_eq!(r, Ok(()));

    assert!(ledger.is_paid(&expense_id, &member));

    let payments = ledger.get_payments(&trip_id);
    assert_eq!(payments.len(), 1);
    let rec = &payments[0];
    assert_eq!(rec.amount, 10_000_000_i128);
    assert_eq!(rec.expense_id, expense_id);
}

#[test]
fn test_multiple_members() {
    let mut ledger = SettleXContract::new();
    let payer = addr("GPAYER");
    let member_a = addr("GMEMBERA");
    let member_b = addr("GMEMBERB");

    assert_eq!(pay(&mut ledger, "trip-multi", "exp-multi", &payer, &member_a, 5_000_000_i128, "hash_a", 1), Ok(()));
    assert_eq!(pay(&mut ledger, "trip-multi", "exp-multi", &payer, &member_b, 7_500_000_i128, "hash_b", 2), Ok(()));

    assert!(ledger.is_paid(&s("exp-multi"), &member_a));
    assert!(ledger.is_paid(&s("exp-multi"), &member_b));
    assert_eq!(ledger.get_payments(&s("trip-multi")).len(), 2);
}

#[test]
fn test_multiple_expenses_same_trip() {
    let mut ledger = SettleXContract::new();
    let payer = addr("GPAYER");
    let member = addr("GMEMBER");

    assert_eq!(pay(&mut ledger, "trip-abc", "exp-001", &payer, &member, 3_000_000_i128, "tx_001", 1), Ok(()));
    assert_eq!(pay(&mut ledger, "trip-abc", "exp-002", &payer, &member, 4_500_000_i128, "tx_002", 2), Ok(()));

    assert!(ledger.is_paid(&s("exp-001"), &member));
    assert!(ledger.is_paid(&s("exp-002"), &member));
    assert_eq!(ledger.get_payments(&s("trip-abc")).len(), 2);
}

#[test]
fn test_duplicate_payment_rejected() {
    let mut ledger = SettleXContract::new();
    let payer = addr("GPAYER");
    let member = addr("GMEMBER");

    assert_eq!(pay(&mut ledger, "trip-dup", "exp-dup", &payer, &member, 1_000_000_i128, "hash_dup", 1), Ok(()));
    assert_eq!(
        pay(&mut ledger, "trip-dup", "exp-dup", &payer, &member, 1_000_000_i128, "hash_dup", 2),
        Err(ContractError::AlreadyPaid)
    );
}

#[test]
fn test_zero_amount_rejected() {
    let mut ledger = SettleXContract::new();
    let payer = addr("GPAYER");
    let member = addr("GMEMBER");

    assert_eq!(
        pay(&mut ledger, "trip-zero", "exp-zero", &payer, &member, 0_i128, "hash_zero", 1),
        Err(ContractError::InvalidAmount)
    );
}

#[test]
fn test_negative_amount_rejected() {
    let mut ledger = SettleXContract::new();
    let payer = addr("GPAYER");
    let member = addr("GMEMBER");

    assert_eq!(
        pay(&mut ledger, "trip-neg", "exp-neg", &payer, &member, -1_i128, "hash_neg", 1),
        Err(ContractError::InvalidAmount)
    );
}

#[test]
fn test_is_paid_unknown_returns_false() {
    let ledger = SettleXContract::new();
    assert!(!ledger.is_paid(&s("exp-never"), &addr("GMEMBER")));
}

#[test]
fn test_get_payments_unknown_trip_is_empty() {
    let ledger = SettleXContract::new();
    assert_eq!(ledger.get_payments(&s("trip-ghost")).len(), 0);
}
