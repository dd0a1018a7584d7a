//! The closed set of failures that the invoice operations report.

use vstd::prelude::*;

verus! {

/// Why an operation on the invoice book was refused.
#[derive(Clone, Copy, Debug, PartialEq, Eq, Structural)]
pub enum AdelantaError {
    /// No configuration has been stored yet.
    NotInitialized,
    /// A configuration is already stored.
    AlreadyInitialized,
    /// No invoice has the given identifier.
    InvoiceNotFound,
    /// An invoice with this identifier already exists.
    InvoiceAlreadyExists,
    /// The invoice has left the `Created` state.
    InvoiceAlreadyFunded,
    /// The invoice has already been settled.
    InvoiceAlreadySettled,
    /// The invoice has not been funded.
    InvoiceNotFunded,
    /// The caller may not perform this operation.
    Unauthorized,
    /// The amount is not positive or lies outside the configured bounds.
    InvalidAmount,
    /// A fee above 1000 basis points.
    InvalidFeePercentage,
    /// An advance fraction above 10000 basis points.
    InvalidAdvancePercentage,
    /// The settlement does not cover the face amount.
    InsufficientSettlement,
    /// The ledger refused a transfer.
    TransferFailed,
    /// The due date has passed.
    InvoiceExpired,
    /// The payer reference is not acceptable.
    InvalidPayer,
}

impl AdelantaError {
    /// The number under which this failure is reported: the failures are
    /// numbered from 1 in the order in which they are declared.
    pub open spec fn spec_code(self) -> u32 {
        match self {
            AdelantaError::NotInitialized => 1,
            AdelantaError::AlreadyInitialized => 2,
            AdelantaError::InvoiceNotFound => 3,
            AdelantaError::InvoiceAlreadyExists => 4,
            AdelantaError::InvoiceAlreadyFunded => 5,
            AdelantaError::InvoiceAlreadySettled => 6,
            AdelantaError::InvoiceNotFunded => 7,
            AdelantaError::Unauthorized => 8,
            AdelantaError::InvalidAmount => 9,
            AdelantaError::InvalidFeePercentage => 10,
            AdelantaError::InvalidAdvancePercentage => 11,
            AdelantaError::InsufficientSettlement => 12,
            AdelantaError::TransferFailed => 13,
            AdelantaError::InvoiceExpired => 14,
            AdelantaError::InvalidPayer => 15,
        }
    }

    /// The number under which this failure is reported.
    #[verifier::when_used_as_spec(spec_code)]
    pub fn code(self) -> (code: u32)
        ensures
            code == self.spec_code(),
            1 <= code <= 15,
    {
        match self {
            AdelantaError::NotInitialized => 1,
            AdelantaError::AlreadyInitialized => 2,
            AdelantaError::InvoiceNotFound => 3,
            AdelantaError::InvoiceAlreadyExists => 4,
            AdelantaError::InvoiceAlreadyFunded => 5,
            AdelantaError::InvoiceAlreadySettled => 6,
            AdelantaError::InvoiceNotFunded => 7,
            AdelantaError::Unauthorized => 8,
            AdelantaError::InvalidAmount => 9,
            AdelantaError::InvalidFeePercentage => 10,
            AdelantaError::InvalidAdvancePercentage => 11,
            AdelantaError::InsufficientSettlement => 12,
            AdelantaError::TransferFailed => 13,
            AdelantaError::InvoiceExpired => 14,
            AdelantaError::InvalidPayer => 15,
        }
    }
}

} // verus!
