use pay::domain::account::ClientAccount;
use pay::domain::amount::AmountType;
use pay::domain::amount::FixedPoint;
use pay::domain::error::DomainError;
use pay::domain::operations::apply_chargeback;
use pay::domain::operations::apply_deposit;
use pay::domain::operations::apply_dispute;
use pay::domain::operations::apply_resolve;
use pay::domain::operations::apply_withdrawal;
use pay::domain::operations::AccountOperation;
use pay::domain::transaction::Transaction;
use pay::engine::error::EngineError;
use pay::engine::processor::TransactionProcessor;
use pay::storage::concurrent::ConcurrentAccountManager;
use pay::storage::concurrent_transaction_store::ConcurrentTransactionStore;
use pay::storage::error::StorageError;
use pay::storage::traits::ClientAccountEntry;
use pay::storage::traits::ClientAccountManager;

fn amount(raw: i64) -> FixedPoint {
    FixedPoint::from_raw(raw)
}

fn funded(raw: i64) -> ClientAccount<FixedPoint> {
    let mut account = ClientAccount::new(1);
    apply_deposit(&mut account, amount(raw)).unwrap();
    account
}

#[test]
fn total_is_available_plus_held() {
    let mut account = funded(100);
    apply_dispute(&mut account, 1, amount(30)).unwrap();
    assert_eq!(account.available(), amount(70));
    assert_eq!(account.held(), amount(30));
    assert_eq!(account.total(), amount(100));
    assert_eq!(account.checked_total(), Some(amount(100)));
}

#[test]
fn withdrawal_of_everything_leaves_nothing() {
    let mut account = funded(12_345);
    assert_eq!(apply_withdrawal(&mut account, amount(12_345)), Ok(()));
    assert_eq!(account.available(), FixedPoint::zero());
    assert_eq!(apply_withdrawal(&mut account, amount(1)), Err(DomainError::InsufficientFunds));
}

#[test]
fn overflowing_deposit_changes_nothing() {
    let mut account = funded(i64::MAX);
    let before = account.clone();
    assert_eq!(apply_deposit(&mut account, amount(1)), Err(DomainError::Overflow));
    assert_eq!(account, before);
}

#[test]
fn checks_come_in_the_order_of_the_rules() {
    let mut locked = funded(10);
    locked.lock();
    // the amount is looked at before the lock
    assert_eq!(apply_deposit(&mut locked, amount(0)), Err(DomainError::InvalidAmount));
    assert_eq!(apply_withdrawal(&mut locked, amount(-1)), Err(DomainError::InvalidAmount));
    // the lock before the disputed set and the funds
    locked.add_disputed(3);
    assert_eq!(apply_dispute(&mut locked, 3, amount(1000)), Err(DomainError::AccountLocked));
    assert_eq!(apply_resolve(&mut locked, 4, amount(1000)), Err(DomainError::AccountLocked));
    // the disputed set before the funds
    let mut account = funded(10);
    account.add_disputed(3);
    assert_eq!(apply_dispute(&mut account, 3, amount(1000)), Err(DomainError::AlreadyDisputed));
    assert_eq!(apply_resolve(&mut account, 4, amount(1000)), Err(DomainError::NotDisputed));
    assert_eq!(apply_chargeback(&mut account, 4, amount(1000)), Err(DomainError::NotDisputed));
    assert_eq!(apply_resolve(&mut account, 3, amount(1000)), Err(DomainError::InsufficientFunds));
    assert_eq!(apply_chargeback(&mut account, 3, amount(1000)), Err(DomainError::InsufficientFunds));
}

#[test]
fn chargeback_succeeds_on_a_locked_account() {
    let mut account = funded(100);
    apply_dispute(&mut account, 1, amount(40)).unwrap();
    apply_dispute(&mut account, 2, amount(60)).unwrap();
    apply_chargeback(&mut account, 1, amount(40)).unwrap();
    assert!(account.is_locked());
    assert_eq!(apply_chargeback(&mut account, 2, amount(60)), Ok(()));
    assert_eq!(account.held(), FixedPoint::zero());
    assert_eq!(account.disputed_count(), 0);
    assert!(account.is_locked());
}

#[test]
fn arithmetic_that_does_not_fit_is_an_overflow() {
    let mut account = funded(10);
    account.set_held(amount(i64::MAX));
    let before = account.clone();
    assert_eq!(apply_dispute(&mut account, 1, amount(5)), Err(DomainError::Overflow));
    assert_eq!(account, before);

    let mut account = funded(i64::MAX);
    account.set_held(amount(5));
    account.add_disputed(1);
    let before = account.clone();
    assert_eq!(apply_resolve(&mut account, 1, amount(5)), Err(DomainError::Overflow));
    assert_eq!(account, before);
}

#[test]
fn refused_operations_change_nothing() {
    let mut account = funded(50);
    apply_dispute(&mut account, 9, amount(20)).unwrap();
    let before = account.clone();
    let refused: Vec<AccountOperation<FixedPoint>> = vec![
        AccountOperation::Deposit { amount: amount(0) },
        AccountOperation::Deposit { amount: amount(i64::MAX) },
        AccountOperation::Withdrawal { amount: amount(31) },
        AccountOperation::Dispute { tx_id: 9, amount: amount(1) },
        AccountOperation::Dispute { tx_id: 8, amount: amount(31) },
        AccountOperation::Resolve { tx_id: 8, amount: amount(1) },
        AccountOperation::Resolve { tx_id: 9, amount: amount(21) },
        AccountOperation::Chargeback { tx_id: 8, amount: amount(1) },
        AccountOperation::Chargeback { tx_id: 9, amount: amount(21) },
    ];
    for operation in refused {
        assert!(operation.apply(&mut account).is_err(), "{:?}", operation);
        assert_eq!(account, before);
    }
}

#[test]
fn resolve_undoes_dispute() {
    let mut account = funded(80);
    apply_dispute(&mut account, 5, amount(10)).unwrap();
    let before = account.clone();
    apply_dispute(&mut account, 6, amount(25)).unwrap();
    assert_ne!(account, before);
    apply_resolve(&mut account, 6, amount(25)).unwrap();
    assert_eq!(account, before);
}

#[test]
fn deposits_between_dispute_and_chargeback_count_with_their_sum() {
    let mut with_deposits = funded(80);
    apply_dispute(&mut with_deposits, 5, amount(30)).unwrap();
    apply_deposit(&mut with_deposits, amount(7)).unwrap();
    apply_deposit(&mut with_deposits, amount(11)).unwrap();
    apply_chargeback(&mut with_deposits, 5, amount(30)).unwrap();

    let mut deposits_first = funded(80);
    apply_deposit(&mut deposits_first, amount(11)).unwrap();
    apply_deposit(&mut deposits_first, amount(7)).unwrap();
    apply_dispute(&mut deposits_first, 5, amount(30)).unwrap();
    apply_chargeback(&mut deposits_first, 5, amount(30)).unwrap();

    assert_eq!(with_deposits, deposits_first);
    assert_eq!(with_deposits.available(), amount(80 - 30 + 18));
    assert_eq!(with_deposits.held(), FixedPoint::zero());
    assert!(with_deposits.is_locked());
    assert_eq!(with_deposits.disputed_count(), 0);
}

#[test]
fn a_copy_keeps_the_disputes_and_goes_its_own_way() {
    let mut account = funded(80);
    apply_dispute(&mut account, 5, amount(10)).unwrap();
    let copy = account.clone();
    apply_resolve(&mut account, 5, amount(10)).unwrap();
    assert!(copy.is_disputed(5));
    assert_eq!(copy.held(), amount(10));
    assert!(!account.is_disputed(5));
}

fn engine(
) -> TransactionProcessor<FixedPoint, ConcurrentAccountManager<FixedPoint>, ConcurrentTransactionStore<FixedPoint>>
{
    TransactionProcessor::new(ConcurrentAccountManager::new(), ConcurrentTransactionStore::new())
}

fn deposit(client_id: u16, tx_id: u32, raw: i64) -> Transaction<FixedPoint> {
    Transaction::Deposit { client_id, tx_id, amount: amount(raw) }
}

#[test]
fn equal_deposits_commute() {
    let mut one = engine();
    one.process_transaction(deposit(1, 10, 500)).unwrap();
    one.process_transaction(deposit(2, 11, 500)).unwrap();
    one.process_transaction(deposit(1, 12, 500)).unwrap();
    let mut other = engine();
    other.process_transaction(deposit(1, 12, 500)).unwrap();
    other.process_transaction(deposit(2, 11, 500)).unwrap();
    other.process_transaction(deposit(1, 10, 500)).unwrap();
    for client in [1, 2, 3] {
        assert_eq!(
            one.account_manager().entry(client).unwrap().read(),
            other.account_manager().entry(client).unwrap().read()
        );
    }
    // the log holds both deposits either way
    for processor in [&mut one, &mut other] {
        processor.process_transaction(Transaction::Dispute { client_id: 1, tx_id: 10 }).unwrap();
        processor.process_transaction(Transaction::Dispute { client_id: 1, tx_id: 12 }).unwrap();
        let account = processor.account_manager().entry(1).unwrap().read();
        assert_eq!(account.held(), amount(1000));
    }
}

#[test]
fn a_refused_event_leaves_no_record() {
    let mut processor = engine();
    processor.process_transaction(deposit(1, 1, 100)).unwrap();
    assert!(processor
        .process_transaction(Transaction::Withdrawal { client_id: 1, tx_id: 2, amount: amount(500) })
        .is_err());
    let result = processor.process_transaction(Transaction::Dispute { client_id: 1, tx_id: 2 });
    assert!(matches!(result, Err(EngineError::TransactionNotFound(2))));
}

#[test]
fn other_clients_transactions_are_not_found() {
    let mut processor = engine();
    processor.process_transaction(deposit(1, 1, 100)).unwrap();
    processor.process_transaction(Transaction::Dispute { client_id: 1, tx_id: 1 }).unwrap();
    for event in [
        Transaction::Dispute { client_id: 2, tx_id: 1 },
        Transaction::Resolve { client_id: 2, tx_id: 1 },
        Transaction::Chargeback { client_id: 2, tx_id: 1 },
        Transaction::Resolve { client_id: 1, tx_id: 7 },
        Transaction::Chargeback { client_id: 1, tx_id: 7 },
    ] {
        let tx_id = event.tx_id();
        let result = processor.process_transaction(event);
        assert!(matches!(result, Err(EngineError::TransactionNotFound(t)) if t == tx_id));
    }
    // and no account was made for the client that asked
    let mut output = String::new();
    processor.account_manager().snapshot(&mut output).unwrap();
    assert_eq!(output, "client,available,held,total,locked\n1,0.0000,0.0100,0.0100,false\n");
}

#[test]
fn a_withdrawal_can_be_disputed_like_a_deposit() {
    let mut processor = engine();
    processor.process_transaction(deposit(1, 1, 100)).unwrap();
    processor
        .process_transaction(Transaction::Withdrawal { client_id: 1, tx_id: 2, amount: amount(30) })
        .unwrap();
    processor.process_transaction(Transaction::Dispute { client_id: 1, tx_id: 2 }).unwrap();
    let account = processor.account_manager().entry(1).unwrap().read();
    assert_eq!(account.available(), amount(40));
    assert_eq!(account.held(), amount(30));
    assert!(account.is_disputed(2));
}

#[test]
fn after_a_chargeback_the_transaction_is_closed() {
    let mut processor = engine();
    processor.process_transaction(deposit(1, 1, 100)).unwrap();
    processor.process_transaction(Transaction::Dispute { client_id: 1, tx_id: 1 }).unwrap();
    processor.process_transaction(Transaction::Chargeback { client_id: 1, tx_id: 1 }).unwrap();
    let again = processor.process_transaction(Transaction::Chargeback { client_id: 1, tx_id: 1 });
    assert!(matches!(
        again,
        Err(EngineError::Storage(StorageError::DomainError(DomainError::NotDisputed)))
    ));
    let resolve = processor.process_transaction(Transaction::Resolve { client_id: 1, tx_id: 1 });
    assert!(matches!(
        resolve,
        Err(EngineError::Storage(StorageError::DomainError(DomainError::AccountLocked)))
    ));
    let dispute = processor.process_transaction(Transaction::Dispute { client_id: 1, tx_id: 1 });
    assert!(matches!(
        dispute,
        Err(EngineError::Storage(StorageError::DomainError(DomainError::AccountLocked)))
    ));
}
