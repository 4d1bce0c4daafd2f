use pay::domain::amount::AmountType;
use pay::domain::amount::FixedPoint;
use pay::domain::error::DomainError;
use pay::domain::transaction::Transaction;
use pay::engine::error::EngineError;
use pay::engine::processor::TransactionProcessor;
use pay::storage::concurrent::ConcurrentAccountManager;
use pay::storage::concurrent_transaction_store::ConcurrentTransactionStore;
use pay::storage::error::StorageError;
use pay::storage::traits::ClientAccountEntry;
use pay::storage::traits::ClientAccountManager;

#[test]
fn process_deposit_creates_account_and_credits() {
    let manager = ConcurrentAccountManager::<FixedPoint>::new();
    let store = ConcurrentTransactionStore::new();
    let mut processor = TransactionProcessor::new(manager, store);

    let tx = Transaction::Deposit {
        client_id: 1,
        tx_id: 1,
        amount: FixedPoint::from_raw(10_000),
    };

    processor.process_transaction(tx).unwrap();

    let entry = processor.account_manager().entry(1).unwrap();
    let account = entry.read();
    assert_eq!(account.available(), FixedPoint::from_raw(10_000));
}

#[test]
fn process_withdrawal_debits_account() {
    let manager = ConcurrentAccountManager::<FixedPoint>::new();
    let store = ConcurrentTransactionStore::new();
    let mut processor = TransactionProcessor::new(manager, store);

    // Deposit first
    processor
        .process_transaction(Transaction::Deposit {
            client_id: 1,
            tx_id: 1,
            amount: FixedPoint::from_raw(10_000),
        })
        .unwrap();

    // Withdraw
    processor
        .process_transaction(Transaction::Withdrawal {
            client_id: 1,
            tx_id: 2,
            amount: FixedPoint::from_raw(3_000),
        })
        .unwrap();

    let entry = processor.account_manager().entry(1).unwrap();
    let account = entry.read();
    assert_eq!(account.available(), FixedPoint::from_raw(7_000));
}

#[test]
fn process_withdrawal_insufficient_funds_fails() {
    let manager = ConcurrentAccountManager::<FixedPoint>::new();
    let store = ConcurrentTransactionStore::new();
    let mut processor = TransactionProcessor::new(manager, store);

    processor
        .process_transaction(Transaction::Deposit {
            client_id: 1,
            tx_id: 1,
            amount: FixedPoint::from_raw(1_000),
        })
        .unwrap();

    let result = processor.process_transaction(Transaction::Withdrawal {
        client_id: 1,
        tx_id: 2,
        amount: FixedPoint::from_raw(2_000),
    });

    assert!(result.is_err());

    // Account unchanged
    let entry = processor.account_manager().entry(1).unwrap();
    let account = entry.read();
    assert_eq!(account.available(), FixedPoint::from_raw(1_000));
}

#[test]
fn dispute_requires_existing_transaction() {
    let manager = ConcurrentAccountManager::<FixedPoint>::new();
    let store = ConcurrentTransactionStore::new();
    let mut processor = TransactionProcessor::new(manager, store);

    let result = processor.process_transaction(Transaction::Dispute {
        client_id: 1,
        tx_id: 999,
    });

    assert!(matches!(result, Err(EngineError::TransactionNotFound(999))));
}

#[test]
fn dispute_marks_transaction_as_disputed() {
    let manager = ConcurrentAccountManager::<FixedPoint>::new();
    let store = ConcurrentTransactionStore::new();
    let mut processor = TransactionProcessor::new(manager, store);

    // Deposit
    processor
        .process_transaction(Transaction::Deposit {
            client_id: 1,
            tx_id: 1,
            amount: FixedPoint::from_raw(10_000),
        })
        .unwrap();

    // Dispute
    processor
        .process_transaction(Transaction::Dispute {
            client_id: 1,
            tx_id: 1,
        })
        .unwrap();

    // Check account state and dispute tracking
    let entry = processor.account_manager().entry(1).unwrap();
    let account = entry.read();
    assert_eq!(account.available(), FixedPoint::zero());
    assert_eq!(account.held(), FixedPoint::from_raw(10_000));
    assert_eq!(account.total(), FixedPoint::from_raw(10_000));
    assert!(account.is_disputed(1)); // Dispute tracked in account
}

#[test]
fn cannot_dispute_twice() {
    let manager = ConcurrentAccountManager::<FixedPoint>::new();
    let store = ConcurrentTransactionStore::new();
    let mut processor = TransactionProcessor::new(manager, store);

    processor
        .process_transaction(Transaction::Deposit {
            client_id: 1,
            tx_id: 1,
            amount: FixedPoint::from_raw(10_000),
        })
        .unwrap();

    processor
        .process_transaction(Transaction::Dispute {
            client_id: 1,
            tx_id: 1,
        })
        .unwrap();

    let result = processor.process_transaction(Transaction::Dispute {
        client_id: 1,
        tx_id: 1,
    });

    assert!(matches!(
        result,
        Err(EngineError::Storage(StorageError::DomainError(DomainError::AlreadyDisputed)))
    ));
}

#[test]
fn processor_resolve_releases_held_funds() {
    let manager = ConcurrentAccountManager::<FixedPoint>::new();
    let store = ConcurrentTransactionStore::new();
    let mut processor = TransactionProcessor::new(manager, store);

    // Deposit and dispute
    processor
        .process_transaction(Transaction::Deposit {
            client_id: 1,
            tx_id: 1,
            amount: FixedPoint::from_raw(10_000),
        })
        .unwrap();

    processor
        .process_transaction(Transaction::Dispute {
            client_id: 1,
            tx_id: 1,
        })
        .unwrap();

    // Resolve
    processor
        .process_transaction(Transaction::Resolve {
            client_id: 1,
            tx_id: 1,
        })
        .unwrap();

    let entry = processor.account_manager().entry(1).unwrap();
    let account = entry.read();
    assert_eq!(account.available(), FixedPoint::from_raw(10_000));
    assert_eq!(account.held(), FixedPoint::zero());
    assert_eq!(account.total(), FixedPoint::from_raw(10_000));
    assert!(!account.is_disputed(1)); // Dispute resolved, tracked in account
}

#[test]
fn resolve_requires_disputed_transaction() {
    let manager = ConcurrentAccountManager::<FixedPoint>::new();
    let store = ConcurrentTransactionStore::new();
    let mut processor = TransactionProcessor::new(manager, store);

    processor
        .process_transaction(Transaction::Deposit {
            client_id: 1,
            tx_id: 1,
            amount: FixedPoint::from_raw(10_000),
        })
        .unwrap();

    let result = processor.process_transaction(Transaction::Resolve {
        client_id: 1,
        tx_id: 1,
    });

    assert!(matches!(
        result,
        Err(EngineError::Storage(StorageError::DomainError(DomainError::NotDisputed)))
    ));
}

#[test]
fn chargeback_removes_held_and_locks_account() {
    let manager = ConcurrentAccountManager::<FixedPoint>::new();
    let store = ConcurrentTransactionStore::new();
    let mut processor = TransactionProcessor::new(manager, store);

    // Deposit and dispute
    processor
        .process_transaction(Transaction::Deposit {
            client_id: 1,
            tx_id: 1,
            amount: FixedPoint::from_raw(10_000),
        })
        .unwrap();

    processor
        .process_transaction(Transaction::Dispute {
            client_id: 1,
            tx_id: 1,
        })
        .unwrap();

    // Chargeback
    processor
        .process_transaction(Transaction::Chargeback {
            client_id: 1,
            tx_id: 1,
        })
        .unwrap();

    let entry = processor.account_manager().entry(1).unwrap();
    let account = entry.read();
    assert_eq!(account.available(), FixedPoint::zero());
    assert_eq!(account.held(), FixedPoint::zero());
    assert_eq!(account.total(), FixedPoint::zero());
    assert!(account.is_locked());
}

#[test]
fn chargeback_requires_disputed_transaction() {
    let manager = ConcurrentAccountManager::<FixedPoint>::new();
    let store = ConcurrentTransactionStore::new();
    let mut processor = TransactionProcessor::new(manager, store);

    processor
        .process_transaction(Transaction::Deposit {
            client_id: 1,
            tx_id: 1,
            amount: FixedPoint::from_raw(10_000),
        })
        .unwrap();

    let result = processor.process_transaction(Transaction::Chargeback {
        client_id: 1,
        tx_id: 1,
    });

    assert!(matches!(
        result,
        Err(EngineError::Storage(StorageError::DomainError(DomainError::NotDisputed)))
    ));
}

#[test]
fn operations_on_locked_account_fail() {
    let manager = ConcurrentAccountManager::<FixedPoint>::new();
    let store = ConcurrentTransactionStore::new();
    let mut processor = TransactionProcessor::new(manager, store);

    // Deposit, dispute, chargeback to lock account
    processor
        .process_transaction(Transaction::Deposit {
            client_id: 1,
            tx_id: 1,
            amount: FixedPoint::from_raw(10_000),
        })
        .unwrap();

    processor
        .process_transaction(Transaction::Dispute {
            client_id: 1,
            tx_id: 1,
        })
        .unwrap();

    processor
        .process_transaction(Transaction::Chargeback {
            client_id: 1,
            tx_id: 1,
        })
        .unwrap();

    // Try to deposit to locked account
    let result = processor.process_transaction(Transaction::Deposit {
        client_id: 1,
        tx_id: 2,
        amount: FixedPoint::from_raw(5_000),
    });

    assert!(result.is_err());
}

#[test]
fn processor_full_dispute_resolve_cycle() {
    let manager = ConcurrentAccountManager::<FixedPoint>::new();
    let store = ConcurrentTransactionStore::new();
    let mut processor = TransactionProcessor::new(manager, store);

    // Initial deposit
    processor
        .process_transaction(Transaction::Deposit {
            client_id: 1,
            tx_id: 1,
            amount: FixedPoint::from_raw(10_000),
        })
        .unwrap();

    let entry = processor.account_manager().entry(1).unwrap();
    assert_eq!(entry.read().total(), FixedPoint::from_raw(10_000));

    // Dispute
    processor
        .process_transaction(Transaction::Dispute {
            client_id: 1,
            tx_id: 1,
        })
        .unwrap();

    let entry = processor.account_manager().entry(1).unwrap();
    let account = entry.read();
    assert_eq!(account.available(), FixedPoint::zero());
    assert_eq!(account.held(), FixedPoint::from_raw(10_000));
    assert_eq!(account.total(), FixedPoint::from_raw(10_000));

    // Resolve
    processor
        .process_transaction(Transaction::Resolve {
            client_id: 1,
            tx_id: 1,
        })
        .unwrap();

    let entry = processor.account_manager().entry(1).unwrap();
    let account = entry.read();
    assert_eq!(account.available(), FixedPoint::from_raw(10_000));
    assert_eq!(account.held(), FixedPoint::zero());
    assert_eq!(account.total(), FixedPoint::from_raw(10_000));
}

#[test]
fn processor_full_dispute_chargeback_cycle() {
    let manager = ConcurrentAccountManager::<FixedPoint>::new();
    let store = ConcurrentTransactionStore::new();
    let mut processor = TransactionProcessor::new(manager, store);

    // Initial deposit
    processor
        .process_transaction(Transaction::Deposit {
            client_id: 1,
            tx_id: 1,
            amount: FixedPoint::from_raw(10_000),
        })
        .unwrap();

    // Dispute
    processor
        .process_transaction(Transaction::Dispute {
            client_id: 1,
            tx_id: 1,
        })
        .unwrap();

    let entry = processor.account_manager().entry(1).unwrap();
    assert_eq!(entry.read().total(), FixedPoint::from_raw(10_000));

    // Chargeback
    processor
        .process_transaction(Transaction::Chargeback {
            client_id: 1,
            tx_id: 1,
        })
        .unwrap();

    let entry = processor.account_manager().entry(1).unwrap();
    let account = entry.read();
    assert_eq!(account.total(), FixedPoint::zero());
    assert!(account.is_locked());
}

#[test]
fn dispute_client_mismatch_fails() {
    let manager = ConcurrentAccountManager::<FixedPoint>::new();
    let store = ConcurrentTransactionStore::new();
    let mut processor = TransactionProcessor::new(manager, store);

    // Client 1 deposits
    processor
        .process_transaction(Transaction::Deposit {
            client_id: 1,
            tx_id: 1,
            amount: FixedPoint::from_raw(10_000),
        })
        .unwrap();

    // Client 2 tries to dispute client 1's transaction
    let result = processor.process_transaction(Transaction::Dispute {
        client_id: 2,
        tx_id: 1,
    });

    assert!(matches!(result, Err(EngineError::TransactionNotFound(1))));
}
