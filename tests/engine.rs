use std::str::FromStr;

use payment_engine::account::{AccountBalance, AccountData, AccountStore, BalanceOperationError};
use payment_engine::amount::Amount;
use payment_engine::engine::{Engine, EngineError, ValidationError};
use payment_engine::transaction::{
    RawTransactionData, StoredTransactionType, TransactionData, TransactionStatus,
    TransactionStore, TransactionStoreError, TransactionType,
};
use rust_decimal::Decimal;

fn dec(s: &str) -> Amount {
    let d = Decimal::from_str(s).unwrap();
    Amount::from_parts(d.mantissa(), d.scale()).unwrap()
}

fn tx(ty: TransactionType, account_id: u16, id: u32, amount: Option<&str>) -> RawTransactionData {
    RawTransactionData { id, ty, account_id, amount: amount.map(dec) }
}

fn deposit(account_id: u16, id: u32, amount: &str) -> RawTransactionData {
    tx(TransactionType::Deposit, account_id, id, Some(amount))
}

fn withdrawal(account_id: u16, id: u32, amount: &str) -> RawTransactionData {
    tx(TransactionType::Withdrawal, account_id, id, Some(amount))
}

fn dispute(account_id: u16, id: u32) -> RawTransactionData {
    tx(TransactionType::Dispute, account_id, id, None)
}

fn resolve(account_id: u16, id: u32) -> RawTransactionData {
    tx(TransactionType::Resolve, account_id, id, None)
}

fn chargeback(account_id: u16, id: u32) -> RawTransactionData {
    tx(TransactionType::Chargeback, account_id, id, None)
}

fn account(engine: &Engine, id: u16) -> Option<AccountData> {
    engine.accounts().into_iter().find(|a| a.id() == id)
}

fn balance(engine: &Engine, id: u16) -> AccountBalance {
    *account(engine, id).unwrap().balance()
}

fn assert_balance(engine: &Engine, id: u16, available: &str, held: &str, total: &str) {
    let b = balance(engine, id);
    assert_eq!(b.available(), dec(available));
    assert_eq!(b.held(), dec(held));
    assert_eq!(b.total(), dec(total));
}

#[test]
fn transaction_types() {
    let input = vec![
        deposit(1, 1, "15.0"),
        withdrawal(1, 2, "5.0"),
        deposit(1, 3, "5.0"),
        dispute(1, 3),
        resolve(1, 3),
        deposit(1, 4, "5.0"),
        dispute(1, 4),
        chargeback(1, 4),
    ];

    let expected = vec![
        AccountBalance::with_amount(dec("15.0"), dec("0.0")).unwrap(),
        AccountBalance::with_amount(dec("10.0"), dec("0.0")).unwrap(),
        AccountBalance::with_amount(dec("15.0"), dec("0.0")).unwrap(),
        AccountBalance::with_amount(dec("15.0"), dec("5.0")).unwrap(),
        AccountBalance::with_amount(dec("15.0"), dec("0.0")).unwrap(),
        AccountBalance::with_amount(dec("20.0"), dec("0.0")).unwrap(),
        AccountBalance::with_amount(dec("20.0"), dec("5.0")).unwrap(),
        AccountBalance::with_amount(dec("15.0"), dec("0.0")).unwrap(),
    ];

    let mut engine = Engine::new();

    for (data, expected) in std::iter::zip(input, expected) {
        engine.process_transaction(&data).unwrap();
        assert_eq!(balance(&engine, 1), expected);
    }

    let account = account(&engine, 1).unwrap();

    assert!(account.locked());
    assert_eq!(
        *account.balance(),
        AccountBalance::with_amount(dec("15.0"), dec("0.0")).unwrap()
    );
}

#[test]
fn transaction_errors() {
    let input = vec![
        deposit(1, 1, "15.0"),
        dispute(1, 2),
        resolve(1, 1),
        dispute(2, 1),
        tx(TransactionType::Deposit, 1, 3, None),
        deposit(1, 4, "-10.0"),
        deposit(2, 5, "10.0"),
        dispute(2, 5),
        chargeback(2, 5),
        deposit(2, 6, "10.0"),
        deposit(3, 6, "1.0"),
        deposit(1, 7, "1.0"),
        dispute(1, 7),
        chargeback(3, 7),
        withdrawal(1, 8, "100.0"),
        deposit(1, 9, "5.0"),
        withdrawal(1, 10, "20.0"),
        dispute(1, 9),
    ];

    let mut input = input.iter();
    let mut engine = Engine::new();
    let mut next = move || engine.process_transaction(input.next().unwrap());

    next().unwrap();

    assert!(matches!(
        next(),
        Err(EngineError::InvalidTransactionData(ValidationError::InvalidTransactionId))
    ));

    assert!(matches!(next(), Err(EngineError::InvalidTransactionStatus { .. })));

    assert!(matches!(
        next(),
        Err(EngineError::InvalidTransactionData(ValidationError::InvalidAccountId))
    ));

    assert!(matches!(
        next(),
        Err(EngineError::InvalidTransactionData(ValidationError::MalformedTransactionData))
    ));

    assert!(matches!(
        next(),
        Err(EngineError::InvalidTransactionData(ValidationError::InvalidAmount))
    ));

    next().unwrap();
    next().unwrap();
    next().unwrap();

    assert!(matches!(
        next(),
        Err(EngineError::InvalidTransactionData(ValidationError::AccountLocked))
    ));

    next().unwrap();
    next().unwrap();
    next().unwrap();

    assert!(matches!(
        next(),
        Err(EngineError::InvalidTransactionData(ValidationError::InvalidAccountId))
    ));

    assert!(matches!(
        next(),
        Err(EngineError::BalanceOperationError(
            BalanceOperationError::InsufficientAvailableFunds { .. }
        ))
    ));

    next().unwrap();
    next().unwrap();

    assert!(matches!(
        next(),
        Err(EngineError::BalanceOperationError(
            BalanceOperationError::InsufficientAvailableFunds { .. }
        ))
    ));
}

#[test]
fn scenario_deposit_then_withdrawal() {
    let mut engine = Engine::new();
    engine.process_transaction(&deposit(1, 1, "15.0")).unwrap();
    assert_balance(&engine, 1, "15.0", "0", "15.0");
    engine.process_transaction(&withdrawal(1, 2, "5.0")).unwrap();
    assert_balance(&engine, 1, "10.0", "0", "10.0");
}

#[test]
fn scenario_dispute_then_resolve() {
    let mut engine = Engine::new();
    engine.process_transaction(&deposit(1, 1, "15.0")).unwrap();
    engine.process_transaction(&withdrawal(1, 2, "5.0")).unwrap();
    engine.process_transaction(&deposit(1, 3, "5.0")).unwrap();
    engine.process_transaction(&dispute(1, 3)).unwrap();
    assert_balance(&engine, 1, "10.0", "5.0", "15.0");
    engine.process_transaction(&resolve(1, 3)).unwrap();
    assert_balance(&engine, 1, "15.0", "0", "15.0");

    // Resolving again finds the record undisputed.
    match engine.process_transaction(&resolve(1, 3)) {
        Err(EngineError::InvalidTransactionStatus { required, actual }) => {
            assert_eq!(required, TransactionStatus::UnderDispute);
            assert_eq!(actual, TransactionStatus::Undisputed);
        }
        other => panic!("unexpected result: {:?}", other),
    }
    assert_balance(&engine, 1, "15.0", "0", "15.0");
}

#[test]
fn scenario_chargeback_locks_account() {
    let mut engine = Engine::new();
    engine.process_transaction(&deposit(1, 1, "15.0")).unwrap();
    engine.process_transaction(&deposit(1, 4, "5.0")).unwrap();
    engine.process_transaction(&dispute(1, 4)).unwrap();
    assert_balance(&engine, 1, "15.0", "5.0", "20.0");
    engine.process_transaction(&chargeback(1, 4)).unwrap();
    assert_balance(&engine, 1, "15.0", "0", "15.0");
    assert!(account(&engine, 1).unwrap().locked());

    // A locked account takes nothing more, whatever the kind.
    assert!(matches!(
        engine.process_transaction(&deposit(1, 5, "1.0")),
        Err(EngineError::InvalidTransactionData(ValidationError::AccountLocked))
    ));
    assert!(matches!(
        engine.process_transaction(&dispute(1, 4)),
        Err(EngineError::InvalidTransactionData(ValidationError::AccountLocked))
    ));
    assert_balance(&engine, 1, "15.0", "0", "15.0");
}

#[test]
fn scenario_dispute_of_unknown_transaction() {
    let mut engine = Engine::new();
    engine.process_transaction(&deposit(1, 1, "15.0")).unwrap();
    assert!(matches!(
        engine.process_transaction(&dispute(1, 999)),
        Err(EngineError::InvalidTransactionData(ValidationError::InvalidTransactionId))
    ));
    assert_balance(&engine, 1, "15.0", "0", "15.0");
    assert_eq!(engine.accounts().len(), 1);
}

#[test]
fn scenario_withdrawal_above_available() {
    let mut engine = Engine::new();
    engine.process_transaction(&deposit(1, 1, "20.0")).unwrap();
    match engine.process_transaction(&withdrawal(1, 10, "100.0")) {
        Err(EngineError::BalanceOperationError(BalanceOperationError::InsufficientAvailableFunds {
            requested,
            available,
        })) => {
            assert_eq!(requested, dec("100.0"));
            assert_eq!(available, dec("20.0"));
        }
        other => panic!("unexpected result: {:?}", other),
    }
    assert_balance(&engine, 1, "20.0", "0", "20.0");
    // The rejected identity was not stored: it can still be used.
    engine.process_transaction(&withdrawal(1, 10, "20.0")).unwrap();
    assert_balance(&engine, 1, "0", "0", "0");
}

#[test]
fn failed_withdrawal_does_not_create_account() {
    let mut engine = Engine::new();
    assert!(matches!(
        engine.process_transaction(&withdrawal(7, 1, "1.0")),
        Err(EngineError::BalanceOperationError(
            BalanceOperationError::InsufficientAvailableFunds { .. }
        ))
    ));
    assert!(engine.accounts().is_empty());
}

#[test]
fn repeated_transaction_id_is_rejected() {
    let mut engine = Engine::new();
    engine.process_transaction(&deposit(1, 1, "3.0")).unwrap();
    assert!(matches!(
        engine.process_transaction(&deposit(1, 1, "4.0")),
        Err(EngineError::InvalidTransactionData(ValidationError::InvalidTransactionId))
    ));
    assert!(matches!(
        engine.process_transaction(&withdrawal(2, 1, "1.0")),
        Err(EngineError::InvalidTransactionData(ValidationError::InvalidTransactionId))
    ));
    assert_balance(&engine, 1, "3.0", "0", "3.0");
    assert_eq!(engine.accounts().len(), 1);

    // The stored record is still the first deposit.
    engine.process_transaction(&dispute(1, 1)).unwrap();
    assert_balance(&engine, 1, "0", "3.0", "3.0");
}

#[test]
fn held_matches_disputed_records() {
    let mut engine = Engine::new();
    engine.process_transaction(&deposit(1, 1, "1.5")).unwrap();
    engine.process_transaction(&deposit(1, 2, "2.25")).unwrap();
    engine.process_transaction(&deposit(2, 3, "4")).unwrap();
    engine.process_transaction(&dispute(1, 1)).unwrap();
    engine.process_transaction(&dispute(1, 2)).unwrap();
    engine.process_transaction(&dispute(2, 3)).unwrap();
    assert_balance(&engine, 1, "0", "3.75", "3.75");
    assert_balance(&engine, 2, "0", "4", "4");
    engine.process_transaction(&resolve(1, 1)).unwrap();
    assert_balance(&engine, 1, "1.5", "2.25", "3.75");
    engine.process_transaction(&chargeback(1, 2)).unwrap();
    assert_balance(&engine, 1, "1.5", "0", "1.5");
    assert_balance(&engine, 2, "0", "4", "4");
}

#[test]
fn status_moves_only_along_allowed_steps() {
    let mut engine = Engine::new();
    engine.process_transaction(&deposit(1, 1, "5")).unwrap();
    engine.process_transaction(&deposit(1, 2, "5")).unwrap();
    engine.process_transaction(&deposit(2, 3, "5")).unwrap();

    // Undisputed: only a dispute applies.
    assert!(matches!(
        engine.process_transaction(&chargeback(1, 1)),
        Err(EngineError::InvalidTransactionStatus { .. })
    ));
    engine.process_transaction(&dispute(1, 1)).unwrap();
    // Under dispute: a second dispute does not apply.
    match engine.process_transaction(&dispute(1, 1)) {
        Err(EngineError::InvalidTransactionStatus { required, actual }) => {
            assert_eq!(required, TransactionStatus::Undisputed);
            assert_eq!(actual, TransactionStatus::UnderDispute);
        }
        other => panic!("unexpected result: {:?}", other),
    }
    engine.process_transaction(&resolve(1, 1)).unwrap();
    engine.process_transaction(&dispute(1, 1)).unwrap();
    assert_balance(&engine, 1, "5", "5", "10");

    // Cancelled is final.
    engine.process_transaction(&dispute(2, 3)).unwrap();
    engine.process_transaction(&chargeback(2, 3)).unwrap();
    assert!(engine.process_transaction(&dispute(2, 3)).is_err());
    assert!(engine.process_transaction(&resolve(2, 3)).is_err());
    assert!(engine.process_transaction(&chargeback(2, 3)).is_err());
    assert_balance(&engine, 2, "0", "0", "0");
}

#[test]
fn withdrawals_cannot_be_disputed() {
    let mut engine = Engine::new();
    engine.process_transaction(&deposit(1, 1, "5")).unwrap();
    engine.process_transaction(&withdrawal(1, 2, "2")).unwrap();
    match engine.process_transaction(&dispute(1, 2)) {
        Err(EngineError::InvalidTransactionType { required, actual }) => {
            assert_eq!(required, StoredTransactionType::Deposit);
            assert_eq!(actual, StoredTransactionType::Withdrawal);
        }
        other => panic!("unexpected result: {:?}", other),
    }
    assert_balance(&engine, 1, "3", "0", "3");
}

#[test]
fn dispute_kinds_must_not_carry_amount() {
    let mut engine = Engine::new();
    engine.process_transaction(&deposit(1, 1, "5")).unwrap();
    assert!(matches!(
        engine.process_transaction(&tx(TransactionType::Dispute, 1, 1, Some("5"))),
        Err(EngineError::InvalidTransactionData(ValidationError::MalformedTransactionData))
    ));
    assert!(matches!(
        engine.process_transaction(&deposit(1, 2, "0")),
        Err(EngineError::InvalidTransactionData(ValidationError::InvalidAmount))
    ));
    assert_balance(&engine, 1, "5", "0", "5");
}

#[test]
fn accounts_listed_in_creation_order() {
    let mut engine = Engine::new();
    engine.process_transaction(&deposit(3, 1, "1")).unwrap();
    engine.process_transaction(&deposit(1, 2, "1")).unwrap();
    engine.process_transaction(&deposit(3, 3, "1")).unwrap();
    engine.process_transaction(&deposit(2, 4, "1")).unwrap();
    let ids: Vec<u16> = engine.accounts().iter().map(|a| a.id()).collect();
    assert_eq!(ids, vec![3, 1, 2]);
    assert_balance(&engine, 3, "2", "0", "2");
}

#[test]
fn stored_records_from_raw_data() {
    let record = TransactionData::try_from(&deposit(4, 9, "2.5")).unwrap();
    assert_eq!(record.id, 9);
    assert_eq!(record.account_id, 4);
    assert_eq!(record.ty, StoredTransactionType::Deposit);
    assert_eq!(record.amount, dec("2.5"));
    assert_eq!(record.status, TransactionStatus::Undisputed);

    assert!(matches!(
        TransactionData::try_from(&dispute(4, 9)),
        Err(TransactionStoreError::InvalidType(TransactionType::Dispute))
    ));
    assert!(matches!(
        TransactionData::try_from(&tx(TransactionType::Withdrawal, 4, 9, None)),
        Err(TransactionStoreError::AmountNotAvailable)
    ));
}

#[test]
fn kind_names_ignore_ascii_case() {
    assert_eq!(TransactionType::from_name("deposit"), Some(TransactionType::Deposit));
    assert_eq!(TransactionType::from_name("Withdrawal"), Some(TransactionType::Withdrawal));
    assert_eq!(TransactionType::from_name("DISPUTE"), Some(TransactionType::Dispute));
    assert_eq!(TransactionType::from_name("reSolve"), Some(TransactionType::Resolve));
    assert_eq!(TransactionType::from_name("chargeback"), Some(TransactionType::Chargeback));
    assert_eq!(TransactionType::from_name("charge back"), None);
    assert_eq!(TransactionType::from_name("deposits"), None);
    assert_eq!(TransactionType::from_name(""), None);
}

#[test]
fn store_accessors_on_missing_ids() {
    let mut transactions = TransactionStore::new();
    assert!(!transactions.set_status(3, TransactionStatus::UnderDispute));
    assert!(!transactions.contains(3));
    transactions.insert(TransactionData::try_from(&deposit(2, 3, "1.5")).unwrap());
    assert!(transactions.set_status(3, TransactionStatus::UnderDispute));
    assert_eq!(transactions.get(3).unwrap().status, TransactionStatus::UnderDispute);
    assert_eq!(transactions.get(3).unwrap().amount, dec("1.5"));

    let mut accounts = AccountStore::new();
    assert!(!accounts.contains(8));
    assert_eq!(accounts.get_mut(8).id(), 8);
    assert!(accounts.contains(8));
    assert!(!accounts.get(8).unwrap().locked());
    assert_eq!(*accounts.balance(8).unwrap(), AccountBalance::new());
    accounts.get_mut(8).set_locked(true);
    assert_eq!(accounts.get_mut(8).id(), 8);
    assert!(accounts.get(8).unwrap().locked());
    assert_eq!(accounts.all().len(), 1);
}
