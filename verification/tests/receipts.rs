//! Events, receipts, their canonical hashes and the receipts root.

use aoxcore::receipts::calculate_receipts_root;
use aoxcore::receipts::checked_len;
use aoxcore::receipts::empty_receipts_root;
use aoxcore::receipts::Event;
use aoxcore::receipts::Receipt;
use aoxcore::receipts::ReceiptError;
use aoxcore::receipts::HASH_SIZE;
use aoxcore::receipts::MAX_EVENTS_PER_RECEIPT;
use aoxcore::receipts::MAX_EVENT_DATA_LEN;

fn sample_event() -> Event {
    Event::new(1, vec![1, 2, 3]).expect("sample event must be valid")
}

fn sample_receipt() -> Receipt {
    let mut receipt =
        Receipt::success([1u8; HASH_SIZE], 100).expect("sample receipt must be valid");

    receipt
        .push_event(sample_event())
        .expect("event insertion must succeed");

    receipt
}

#[test]
fn success_constructor_creates_valid_receipt() {
    let receipt = Receipt::success([7u8; HASH_SIZE], 55).expect("receipt must be valid");

    assert!(receipt.success);
    assert_eq!(receipt.error_code, None);
    assert!(receipt.validate().is_ok());
}

#[test]
fn failure_constructor_creates_valid_receipt() {
    let receipt = Receipt::failure([7u8; HASH_SIZE], 55, 9).expect("receipt must be valid");

    assert!(!receipt.success);
    assert_eq!(receipt.error_code, Some(9));
    assert!(receipt.validate().is_ok());
}

#[test]
fn validation_rejects_zero_transaction_hash() {
    let receipt = Receipt {
        transaction_hash: [0u8; HASH_SIZE],
        success: true,
        energy_used: 1,
        error_code: None,
        events: Vec::new(),
    };

    assert_eq!(receipt.validate(), Err(ReceiptError::ZeroTransactionHash));
}

#[test]
fn validation_rejects_success_receipt_with_error_code() {
    let receipt = Receipt {
        transaction_hash: [1u8; HASH_SIZE],
        success: true,
        energy_used: 1,
        error_code: Some(9),
        events: Vec::new(),
    };

    assert_eq!(
        receipt.validate(),
        Err(ReceiptError::SuccessReceiptMustNotContainErrorCode)
    );
}

#[test]
fn validation_rejects_failure_receipt_without_error_code() {
    let receipt = Receipt {
        transaction_hash: [1u8; HASH_SIZE],
        success: false,
        energy_used: 1,
        error_code: None,
        events: Vec::new(),
    };

    assert_eq!(
        receipt.validate(),
        Err(ReceiptError::FailureReceiptMustContainErrorCode)
    );
}

#[test]
fn event_validation_rejects_oversized_payload() {
    let event = Event {
        event_type: 1,
        data: vec![0u8; MAX_EVENT_DATA_LEN + 1],
    };

    assert_eq!(event.validate(), Err(ReceiptError::EventDataTooLarge));
}

#[test]
fn push_event_enforces_maximum_event_count() {
    let mut receipt = Receipt::success([1u8; HASH_SIZE], 1).expect("receipt must be valid");

    for _ in 0..MAX_EVENTS_PER_RECEIPT {
        receipt
            .push_event(Event::new(1, vec![1]).expect("event must be valid"))
            .expect("event insertion must succeed");
    }

    let result = receipt.push_event(Event::new(1, vec![1]).expect("event must be valid"));
    assert_eq!(result, Err(ReceiptError::TooManyEvents));
}

#[test]
fn event_hash_is_deterministic() {
    let event = sample_event();
    assert_eq!(event.hash(), event.hash());
}

#[test]
fn receipt_hash_is_deterministic() {
    let receipt = sample_receipt();

    let a = receipt.hash();
    let b = receipt.hash();

    assert_eq!(a, b);
}

#[test]
fn receipt_hash_changes_with_events() {
    let r1 = sample_receipt();
    let mut r2 = sample_receipt();

    r2.push_event(Event::new(2, vec![9]).expect("event must be valid"))
        .expect("event insertion must succeed");

    assert_ne!(r1.hash(), r2.hash());
}

#[test]
fn receipt_hash_changes_with_success_state() {
    let r1 = Receipt::success([1u8; HASH_SIZE], 100).expect("receipt must be valid");
    let r2 = Receipt::failure([1u8; HASH_SIZE], 100, 77).expect("receipt must be valid");

    assert_ne!(r1.hash(), r2.hash());
}

#[test]
fn receipts_root_is_deterministic() {
    let r1 = sample_receipt();
    let r2 = sample_receipt();

    let root_a = calculate_receipts_root(&[r1.clone(), r2.clone()]);
    let root_b = calculate_receipts_root(&[r1, r2]);

    assert_eq!(root_a, root_b);
}

#[test]
fn receipts_root_changes_when_order_changes() {
    let r1 = sample_receipt();

    let mut r2 = Receipt::success([2u8; HASH_SIZE], 100).expect("receipt must be valid");
    r2.push_event(Event::new(1, vec![1, 2, 3]).expect("event must be valid"))
        .expect("event insertion must succeed");

    let root_a = calculate_receipts_root(&[r1.clone(), r2.clone()]);
    let root_b = calculate_receipts_root(&[r2, r1]);

    assert_ne!(root_a, root_b);
}

#[test]
fn empty_receipts_root_matches_empty_calculation() {
    assert_eq!(empty_receipts_root(), calculate_receipts_root(&[]));
}

#[test]
fn mod_checked_len_rejects_usize_values_above_u32() {
    assert_eq!(
        checked_len((u32::MAX as usize) + 1),
        Err(ReceiptError::LengthOverflow)
    );
}
