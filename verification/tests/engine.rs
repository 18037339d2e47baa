use europay::account::{Account, AccountStatus};
use europay::card::{CardStatus, PaymentCard};
use europay::currency::Currency;
use europay::errors::{Entity, PayError, StateLabel};
use europay::merchant::{Merchant, MerchantStatus};
use europay::transaction::{PaymentProcessor, Transaction, TransactionStatus, TransactionType};
use europay::utils::validate_amount;

fn processor_with_fixtures(balance: u64) -> (PaymentProcessor, u128, u128, u128) {
    let mut p = PaymentProcessor::new();
    let mut account = Account::new("John Doe".to_string(), Currency::EUR);
    if balance > 0 {
        account.credit(balance);
    }
    let account_id = account.id;
    p.add_account(account);
    let card = PaymentCard::new(
        account_id,
        "4111111111111111".to_string(),
        12,
        2099,
        "123".to_string(),
        "John Doe".to_string(),
    );
    let card_id = card.id;
    p.add_card(card);
    let merchant = Merchant::new("Example Store".to_string(), "Retail".to_string(), 7);
    let merchant_id = merchant.id;
    p.add_merchant(merchant);
    (p, account_id, card_id, merchant_id)
}

#[test]
fn account_balance_tracks_credits_and_debits() {
    let mut account = Account::new("Jane".to_string(), Currency::GBP);
    assert_eq!(account.balance, 0);
    account.credit(100);
    account.credit(250);
    assert!(account.debit(30).is_ok());
    assert_eq!(account.balance, 320);
    assert_eq!(account.debit(321), Err(PayError::InsufficientFunds));
    assert_eq!(account.balance, 320);
    assert!(account.debit(320).is_ok());
    assert_eq!(account.balance, 0);
}

#[test]
fn validate_amount_rejects_zero() {
    assert_eq!(validate_amount(5), Ok(5));
    assert_eq!(validate_amount(0), Err(PayError::InvalidAmount));
}

#[test]
fn authorize_capture_settle_happy_path() {
    let (mut p, account_id, card_id, merchant_id) = processor_with_fixtures(1000);
    let tx_id = p
        .authorize_transaction(card_id, merchant_id, 100, Currency::EUR)
        .expect("authorization should succeed");
    let tx = p.get_transaction(tx_id).expect("transaction should exist");
    assert_eq!(tx.status, TransactionStatus::Authorized);
    assert_eq!(tx.amount, 100);
    // Authorization holds no funds.
    assert_eq!(p.account_balance(account_id), Some(1000));

    p.capture_transaction(tx_id).expect("capture should succeed");
    assert_eq!(p.account_balance(account_id), Some(900));
    assert_eq!(
        p.get_transaction(tx_id).unwrap().status,
        TransactionStatus::Captured
    );

    p.settle_transaction(tx_id).expect("settle should succeed");
    assert_eq!(
        p.get_transaction(tx_id).unwrap().status,
        TransactionStatus::Settled
    );
    // Settle moves no funds.
    assert_eq!(p.account_balance(account_id), Some(900));
}

#[test]
fn capture_fails_when_balance_drained_after_authorize() {
    let (mut p, account_id, card_id, merchant_id) = processor_with_fixtures(1000);
    // Both authorizations pass against the same balance: nothing is held.
    let t1 = p
        .authorize_transaction(card_id, merchant_id, 600, Currency::EUR)
        .unwrap();
    let t2 = p
        .authorize_transaction(card_id, merchant_id, 600, Currency::EUR)
        .unwrap();
    p.capture_transaction(t1).unwrap();
    assert_eq!(p.account_balance(account_id), Some(400));
    // The second capture finds the balance drained.
    assert_eq!(
        p.capture_transaction(t2),
        Err(PayError::InsufficientFunds)
    );
    assert_eq!(p.account_balance(account_id), Some(400));
    assert_eq!(
        p.get_transaction(t2).unwrap().status,
        TransactionStatus::Authorized
    );
}

#[test]
fn transaction_status_never_regresses() {
    let (mut p, _account_id, card_id, merchant_id) = processor_with_fixtures(1000);
    let tx_id = p
        .authorize_transaction(card_id, merchant_id, 100, Currency::EUR)
        .unwrap();
    // Settle before capture is refused.
    assert_eq!(
        p.settle_transaction(tx_id),
        Err(PayError::InvalidState {
            expected: StateLabel::Captured,
            actual: StateLabel::Authorized,
        })
    );
    p.capture_transaction(tx_id).unwrap();
    // A second capture is refused.
    assert_eq!(
        p.capture_transaction(tx_id),
        Err(PayError::InvalidState {
            expected: StateLabel::Authorized,
            actual: StateLabel::Captured,
        })
    );
    p.settle_transaction(tx_id).unwrap();
    // Once settled, neither capture nor settle succeeds.
    assert_eq!(
        p.capture_transaction(tx_id),
        Err(PayError::InvalidState {
            expected: StateLabel::Authorized,
            actual: StateLabel::Settled,
        })
    );
    assert_eq!(
        p.settle_transaction(tx_id),
        Err(PayError::InvalidState {
            expected: StateLabel::Captured,
            actual: StateLabel::Settled,
        })
    );
    assert_eq!(
        p.get_transaction(tx_id).unwrap().status,
        TransactionStatus::Settled
    );
}

#[test]
fn authorize_error_precedence() {
    let (mut p, _account_id, card_id, merchant_id) = processor_with_fixtures(5000);
    assert_eq!(
        p.authorize_transaction(card_id, merchant_id, 0, Currency::EUR),
        Err(PayError::InvalidAmount)
    );
    assert_eq!(
        p.authorize_transaction(999_999, merchant_id, 100, Currency::EUR),
        Err(PayError::NotFound(Entity::Card))
    );
    assert_eq!(
        p.authorize_transaction(card_id, 999_999, 100, Currency::EUR),
        Err(PayError::NotFound(Entity::Merchant))
    );
    assert_eq!(
        p.authorize_transaction(card_id, merchant_id, 1500, Currency::EUR),
        Err(PayError::FraudFlagged)
    );
    assert_eq!(
        p.authorize_transaction(card_id, merchant_id, 1001, Currency::EUR),
        Err(PayError::FraudFlagged)
    );
    assert_eq!(
        p.capture_transaction(123),
        Err(PayError::NotFound(Entity::Transaction))
    );
}

#[test]
fn authorize_rejects_inactive_and_expired_cards() {
    let mut p = PaymentProcessor::new();
    let mut account = Account::new("A".to_string(), Currency::EUR);
    account.credit(500);
    let account_id = account.id;
    p.add_account(account);

    let mut blocked = PaymentCard::new(
        account_id,
        "4000000000000002".to_string(),
        1,
        2099,
        "000".to_string(),
        "A".to_string(),
    );
    blocked.status = CardStatus::Blocked;
    let blocked_id = blocked.id;
    p.add_card(blocked);

    let expired = PaymentCard::new(
        account_id,
        "4000000000000010".to_string(),
        1,
        2020,
        "000".to_string(),
        "A".to_string(),
    );
    assert!(expired.is_expired());
    let expired_id = expired.id;
    p.add_card(expired);

    let merchant = Merchant::new("Shop".to_string(), "Retail".to_string(), 1);
    let merchant_id = merchant.id;
    p.add_merchant(merchant);

    assert_eq!(
        p.authorize_transaction(blocked_id, merchant_id, 10, Currency::EUR),
        Err(PayError::CardInactive)
    );
    assert_eq!(
        p.authorize_transaction(expired_id, merchant_id, 10, Currency::EUR),
        Err(PayError::CardExpired)
    );
}

#[test]
fn authorize_rejects_inactive_merchant_and_account() {
    let mut p = PaymentProcessor::new();
    let mut account = Account::new("A".to_string(), Currency::EUR);
    account.credit(500);
    let account_id = account.id;
    p.add_account(account);
    let card = PaymentCard::new(
        account_id,
        "4000000000000028".to_string(),
        1,
        2099,
        "000".to_string(),
        "A".to_string(),
    );
    let card_id = card.id;
    p.add_card(card);

    let mut suspended = Merchant::new("S".to_string(), "Retail".to_string(), 1);
    suspended.status = MerchantStatus::Suspended;
    let suspended_id = suspended.id;
    p.add_merchant(suspended);
    assert_eq!(
        p.authorize_transaction(card_id, suspended_id, 10, Currency::EUR),
        Err(PayError::MerchantInactive)
    );

    let merchant = Merchant::new("M".to_string(), "Retail".to_string(), 1);
    let merchant_id = merchant.id;
    p.add_merchant(merchant);

    // A card whose owning account is unknown.
    let orphan = PaymentCard::new(
        424242,
        "4000000000000036".to_string(),
        1,
        2099,
        "000".to_string(),
        "A".to_string(),
    );
    let orphan_id = orphan.id;
    p.add_card(orphan);
    assert_eq!(
        p.authorize_transaction(orphan_id, merchant_id, 10, Currency::EUR),
        Err(PayError::NotFound(Entity::Account))
    );

    // Freeze the account: authorization is refused.
    let mut frozen = Account::new("F".to_string(), Currency::EUR);
    frozen.credit(500);
    frozen.status = AccountStatus::Frozen;
    let frozen_id = frozen.id;
    p.add_account(frozen);
    let frozen_card = PaymentCard::new(
        frozen_id,
        "4000000000000044".to_string(),
        1,
        2099,
        "000".to_string(),
        "A".to_string(),
    );
    let frozen_card_id = frozen_card.id;
    p.add_card(frozen_card);
    assert_eq!(
        p.authorize_transaction(frozen_card_id, merchant_id, 10, Currency::EUR),
        Err(PayError::AccountInactive)
    );
}

#[test]
fn authorize_rejects_insufficient_funds() {
    let (mut p, _account_id, card_id, merchant_id) = processor_with_fixtures(50);
    assert_eq!(
        p.authorize_transaction(card_id, merchant_id, 51, Currency::EUR),
        Err(PayError::InsufficientFunds)
    );
    assert!(p
        .authorize_transaction(card_id, merchant_id, 50, Currency::EUR)
        .is_ok());
}

#[test]
fn credit_account_validates_input() {
    let (mut p, account_id, _card_id, _merchant_id) = processor_with_fixtures(0);
    assert_eq!(
        p.credit_account(999_999, 10),
        Err(PayError::NotFound(Entity::Account))
    );
    assert_eq!(
        p.credit_account(account_id, 0),
        Err(PayError::InvalidAmount)
    );
    assert_eq!(p.credit_account(account_id, 75), Ok(()));
    assert_eq!(p.account_balance(account_id), Some(75));
}

#[test]
fn transaction_new_starts_pending() {
    let tx = Transaction::new(1, 2, 30, Currency::HUF, TransactionType::Refund);
    assert_eq!(tx.card_id, 1);
    assert_eq!(tx.merchant_id, 2);
    assert_eq!(tx.amount, 30);
    assert_eq!(tx.currency, Currency::HUF);
    assert_eq!(tx.status, TransactionStatus::Pending);
    assert_eq!(tx.transaction_type, TransactionType::Refund);
    assert!(tx.processed_at.is_none());
}

#[test]
fn card_activity_check_combines_status_and_expiry() {
    let active = PaymentCard::new(
        1,
        "4111111111111111".to_string(),
        12,
        2099,
        "123".to_string(),
        "A".to_string(),
    );
    assert!(active.is_active_and_unexpired());
    assert!(!active.is_expired());

    let mut blocked = PaymentCard::new(
        1,
        "4111111111111111".to_string(),
        12,
        2099,
        "123".to_string(),
        "A".to_string(),
    );
    blocked.status = CardStatus::Blocked;
    assert!(!blocked.is_active_and_unexpired());

    let expired = PaymentCard::new(
        1,
        "4111111111111111".to_string(),
        1,
        2020,
        "123".to_string(),
        "A".to_string(),
    );
    assert!(!expired.is_active_and_unexpired());
}

#[test]
fn currency_metadata() {
    assert_eq!(Currency::EUR.symbol(), "\u{20ac}");
    assert_eq!(Currency::GBP.symbol(), "\u{a3}");
    assert_eq!(Currency::HRK.symbol(), "kn");
    assert_eq!(Currency::HUF.decimal_places(), 0);
    assert_eq!(Currency::EUR.decimal_places(), 2);
    assert_eq!(Currency::CZK.decimal_places(), 2);
    assert!(Currency::EUR.is_eurozone());
    assert!(!Currency::GBP.is_eurozone());
}

#[test]
fn error_descriptions_are_stable() {
    assert_eq!(
        PayError::NotFound(Entity::Card).describe(),
        "card not found"
    );
    assert_eq!(PayError::InsufficientFunds.describe(), "insufficient funds");
    assert_eq!(
        PayError::TruncatedMessage.describe(),
        "message too short"
    );
}
