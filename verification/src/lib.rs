//! Programmable invoice factoring: an invoice book with a verified lifecycle,
//! settlement split and originator reputation.

use vstd::prelude::*;

pub mod address;
pub mod book;
pub mod bps;
pub mod contract;
pub mod errors;
pub mod laws;
pub mod preservation;
pub mod reputation;
pub mod settlement;
pub mod storage;
pub mod tally;
pub mod types;

pub use address::Address;
pub use contract::AdelantaInvoiceContract;
pub use errors::AdelantaError;
pub use storage::Storage;
pub use types::{
    ContractConfig, FundingEvent, Invoice, InvoiceStatus, SettlementResult, SmeReputation,
    Transfer, TransferFailed,
};
