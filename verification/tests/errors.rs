use std::io;

use pay::domain::error::DomainError;
use pay::engine::error::EngineError;
use pay::io::error::IoError;
use pay::storage::error::StorageError;

#[test]
fn error_error_display_formats_correctly() {
    assert_eq!(
        DomainError::InsufficientFunds.to_string(),
        "Insufficient funds for withdrawal"
    );
    assert_eq!(DomainError::AccountLocked.to_string(), "Account is locked");
    assert_eq!(DomainError::InvalidAmount.to_string(), "Invalid amount");
    assert_eq!(DomainError::Overflow.to_string(), "Arithmetic overflow");
    assert_eq!(
        DomainError::AlreadyDisputed.to_string(),
        "Transaction is already disputed"
    );
    assert_eq!(
        DomainError::NotDisputed.to_string(),
        "Transaction is not disputed"
    );

    assert_eq!(
        EngineError::TransactionNotFound(123).to_string(),
        "Transaction not found: 123"
    );
    assert_eq!(
        EngineError::TransactionNotDisputed(456).to_string(),
        "Transaction not under dispute: 456"
    );
    assert_eq!(
        EngineError::TransactionAlreadyDisputed(789).to_string(),
        "Transaction already disputed: 789"
    );
    assert_eq!(
        EngineError::CannotDisputeWithdrawal.to_string(),
        "Cannot dispute a withdrawal"
    );

    assert_eq!(StorageError::NotFound.to_string(), "Entity not found");

    let io_err = io::Error::new(io::ErrorKind::NotFound, "file not found");
    let storage_err = StorageError::from(io_err);
    assert!(storage_err.to_string().contains("I/O error"));

    assert_eq!(
        IoError::InvalidTransactionType("foo".to_string()).to_string(),
        "Invalid transaction type: foo"
    );
    assert_eq!(
        IoError::MissingField("amount".to_string()).to_string(),
        "Missing required field: amount"
    );
    assert_eq!(
        IoError::InvalidAmount("xyz".to_string()).to_string(),
        "Invalid amount format: xyz"
    );
}

#[test]
fn error_domain_error_conversion() {
    let domain_err = DomainError::InsufficientFunds;
    let engine_err = EngineError::from(domain_err);

    match engine_err {
        EngineError::Domain(DomainError::InsufficientFunds) => {}
        _ => panic!("Expected Domain error variant"),
    }

    let domain_err = DomainError::InsufficientFunds;
    let storage_err = StorageError::from(domain_err);

    match storage_err {
        StorageError::DomainError(DomainError::InsufficientFunds) => {}
        _ => panic!("Expected DomainError variant"),
    }

    let domain_err = DomainError::InsufficientFunds;
    let io_err = IoError::from(domain_err);

    match io_err {
        IoError::Domain(DomainError::InsufficientFunds) => {}
        _ => panic!("Expected Domain error variant"),
    }
}

#[test]
fn storage_error_conversion() {
    let storage_err = StorageError::NotFound;
    let engine_err = EngineError::from(storage_err);

    match engine_err {
        EngineError::Storage(StorageError::NotFound) => {}
        _ => panic!("Expected Storage error variant"),
    }
}

#[test]
fn error_io_error_conversion() {
    let io_err = io::Error::new(io::ErrorKind::PermissionDenied, "access denied");
    let storage_err = StorageError::from(io_err);

    match storage_err {
        StorageError::IoError(_) => {}
        _ => panic!("Expected IoError variant"),
    }

    let io_err = io::Error::new(io::ErrorKind::NotFound, "file not found");
    let wrapped = IoError::from(io_err);

    match wrapped {
        IoError::Io(_) => {}
        _ => panic!("Expected Io error variant"),
    }
}

#[test]
fn wrapped_errors_show_what_they_wrap() {
    let io_err = io::Error::new(io::ErrorKind::NotFound, "file not found");
    assert_eq!(
        StorageError::from(io_err).to_string(),
        "I/O error: file not found"
    );
    assert_eq!(
        StorageError::DomainError(DomainError::Overflow).to_string(),
        "Domain error: Arithmetic overflow"
    );
    assert_eq!(
        EngineError::Domain(DomainError::AccountLocked).to_string(),
        "Domain error: Account is locked"
    );
    assert_eq!(
        EngineError::Storage(StorageError::DomainError(DomainError::NotDisputed)).to_string(),
        "Storage error: Domain error: Transaction is not disputed"
    );
    assert_eq!(
        EngineError::TransactionNotFound(0).to_string(),
        "Transaction not found: 0"
    );
    assert_eq!(
        EngineError::TransactionNotFound(u32::MAX).to_string(),
        "Transaction not found: 4294967295"
    );
    let io_err = io::Error::new(io::ErrorKind::Other, "broken pipe");
    assert_eq!(IoError::from(io_err).to_string(), "IO error: broken pipe");
    assert_eq!(
        IoError::Storage(StorageError::NotFound).to_string(),
        "Storage error: Entity not found"
    );
    assert_eq!(
        IoError::Domain(DomainError::InvalidAmount).to_string(),
        "Domain error: Invalid amount"
    );
}
