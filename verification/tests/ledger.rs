use journal_dapp::{AllocationError, Ledger};

const HERE: [u8; 32] = [11u8; 32];
const THERE: [u8; 32] = [12u8; 32];

#[test]
fn new_ledger_is_empty() {
    let ledger = Ledger::new(3);
    assert_eq!(ledger.storage_price(), 3);
    assert_eq!(ledger.len(), 0);
    assert!(!ledger.contains(&HERE));
    assert_eq!(ledger.record_at(&HERE), None);
}

#[test]
fn allocation_stores_the_data_followed_by_zeros() {
    let mut ledger = Ledger::new(3);
    assert_eq!(ledger.allocate(&HERE, 6, &[1, 2, 3], 100), Ok(82));
    assert_eq!(ledger.len(), 1);
    assert!(ledger.contains(&HERE));
    assert_eq!(ledger.record_at(&HERE), Some(&vec![1, 2, 3, 0, 0, 0]));
    assert!(!ledger.contains(&THERE));
}

#[test]
fn allocation_charges_price_times_space() {
    let mut ledger = Ledger::new(7);
    assert_eq!(ledger.allocate(&HERE, 285, &[], 2000), Ok(5));
    assert_eq!(ledger.allocate(&THERE, 285, &[], 1995), Ok(0));
    let mut free = Ledger::new(0);
    assert_eq!(free.allocate(&HERE, 285, &[], 0), Ok(0));
}

#[test]
fn allocation_of_an_address_in_use_is_a_duplicate() {
    let mut ledger = Ledger::new(1);
    assert_eq!(ledger.allocate(&HERE, 4, &[1], 10), Ok(6));
    assert_eq!(ledger.allocate(&HERE, 4, &[2], 10), Err(AllocationError::DuplicateEntry));
    assert_eq!(ledger.allocate(&HERE, 2, &[], 0), Err(AllocationError::DuplicateEntry));
    assert_eq!(ledger.len(), 1);
    assert_eq!(ledger.record_at(&HERE), Some(&vec![1, 0, 0, 0]));
}

#[test]
fn allocation_without_funds_stores_nothing() {
    let mut ledger = Ledger::new(2);
    assert_eq!(ledger.allocate(&HERE, 4, &[1], 7), Err(AllocationError::InsufficientFunds));
    assert_eq!(ledger.len(), 0);
    assert!(!ledger.contains(&HERE));
    assert_eq!(ledger.allocate(&HERE, 4, &[1], 8), Ok(0));
}

#[test]
fn allocation_too_small_for_the_data_stores_nothing() {
    let mut ledger = Ledger::new(0);
    assert_eq!(ledger.allocate(&HERE, 2, &[1, 2, 3], 0), Err(AllocationError::SpaceTooSmall));
    assert_eq!(ledger.len(), 0);
    assert_eq!(ledger.allocate(&HERE, 3, &[1, 2, 3], 0), Ok(0));
    assert_eq!(ledger.record_at(&HERE), Some(&vec![1, 2, 3]));
}

#[test]
fn cost_may_exceed_any_funds() {
    let mut ledger = Ledger::new(u64::MAX);
    assert_eq!(
        ledger.allocate(&HERE, 2, &[], u64::MAX),
        Err(AllocationError::InsufficientFunds)
    );
    assert_eq!(ledger.allocate(&HERE, 1, &[], u64::MAX), Ok(0));
}

#[test]
fn records_are_kept_apart() {
    let mut ledger = Ledger::new(0);
    assert_eq!(ledger.allocate(&HERE, 2, &[1], 0), Ok(0));
    assert_eq!(ledger.allocate(&THERE, 3, &[2], 0), Ok(0));
    assert_eq!(ledger.len(), 2);
    assert_eq!(ledger.record_at(&HERE), Some(&vec![1, 0]));
    assert_eq!(ledger.record_at(&THERE), Some(&vec![2, 0, 0]));
}

#[test]
fn cost_is_price_times_space() {
    assert_eq!(Ledger::new(7).cost(285), 1995);
    assert_eq!(Ledger::new(0).cost(285), 0);
    assert_eq!(Ledger::new(7).cost(0), 0);
    assert_eq!(Ledger::new(u64::MAX).cost(2), 36_893_488_147_419_103_230);
}
