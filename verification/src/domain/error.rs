//! Violations of the account rules.

use vstd::prelude::*;

verus! {

/// Why an operation on an account was refused.
#[derive(Debug, Clone, PartialEq, Eq, Structural)]
pub enum DomainError {
    InsufficientFunds,
    AccountLocked,
    InvalidAmount,
    Overflow,
    AlreadyDisputed,
    NotDisputed,
}

impl DomainError {
    /// The text shown for this error.
    pub open spec fn message(self) -> Seq<char> {
        match self {
            DomainError::InsufficientFunds => "Insufficient funds for withdrawal"@,
            DomainError::AccountLocked => "Account is locked"@,
            DomainError::InvalidAmount => "Invalid amount"@,
            DomainError::Overflow => "Arithmetic overflow"@,
            DomainError::AlreadyDisputed => "Transaction is already disputed"@,
            DomainError::NotDisputed => "Transaction is not disputed"@,
        }
    }

    /// Renders the error as text.
    pub fn to_string(&self) -> (text: String)
        ensures
            text@ == self.message(),
    {
        match self {
            DomainError::InsufficientFunds => String::from_str("Insufficient funds for withdrawal"),
            DomainError::AccountLocked => String::from_str("Account is locked"),
            DomainError::InvalidAmount => String::from_str("Invalid amount"),
            DomainError::Overflow => String::from_str("Arithmetic overflow"),
            DomainError::AlreadyDisputed => String::from_str("Transaction is already disputed"),
            DomainError::NotDisputed => String::from_str("Transaction is not disputed"),
        }
    }
}

} // verus!
