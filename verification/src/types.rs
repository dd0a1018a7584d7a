//! The records of the invoice book and what makes each of them valid.

use vstd::prelude::*;
use crate::address::Address;
use crate::reputation::{risk_score, risk_score_of};

verus! {

/// The smallest face amount that a configuration of this library admits
/// when it is first stored: 50 units of an asset with seven decimals.
pub const MIN_INVOICE_AMOUNT: i128 = 50_0000000;

/// The largest face amount that any configuration may admit: 100000 units of
/// an asset with seven decimals.
pub const MAX_INVOICE_AMOUNT: i128 = 100000_0000000;

/// Where an invoice stands in its lifecycle.
#[derive(Clone, Copy, Debug, PartialEq, Eq, Structural)]
pub enum InvoiceStatus {
    /// Created and waiting for a funder.
    Created,
    /// Funded: the advance has been paid to the originator.
    Funded,
    /// Settled: the payment has been split among the parties.
    Settled,
    /// Cancelled before it was funded.
    Cancelled,
}

impl InvoiceStatus {
    /// Whether no funder has ever been attached in this state.
    pub open spec fn unfunded(self) -> bool {
        self is Created || self is Cancelled
    }

    /// Whether an invoice in this state never changes again.
    pub open spec fn terminal(self) -> bool {
        self is Settled || self is Cancelled
    }

    /// Whether an invoice in this state may be found in the state `next`
    /// after an operation: in the same state, or one step further in its
    /// lifecycle, from `Created` to `Funded` or `Cancelled` and from
    /// `Funded` to `Settled`.
    pub open spec fn may_become(self, next: InvoiceStatus) -> bool {
        ||| self == next
        ||| self is Created && (next is Funded || next is Cancelled)
        ||| self is Funded && next is Settled
    }
}

/// A receivable that an originator has put up for funding.
#[derive(Debug)]
pub struct Invoice {
    /// Identifier, unique within the book.
    pub id: u64,
    /// The originator, who receives the advance and the remainder.
    pub sme: Address,
    /// Reference to the payer, not interpreted here.
    pub payer_id: String,
    /// Face amount in minor units.
    pub amount: i128,
    /// Amount advanced to the originator when the invoice is funded.
    pub advance_amount: i128,
    /// Fee of the funder on the advance, in basis points.
    pub fee_bps: u32,
    /// The funder, once there is one.
    pub lender: Option<Address>,
    /// Current state.
    pub status: InvoiceStatus,
    /// When the invoice was created.
    pub created_at: u64,
    /// When the invoice was funded.
    pub funded_at: Option<u64>,
    /// When the invoice was settled.
    pub settled_at: Option<u64>,
    /// When the payment is due.
    pub due_date: u64,
    /// Country code of the originator.
    pub country: String,
    /// Industry code of the originator.
    pub industry: String,
}

impl Invoice {
    /// What holds of every invoice in the book: the amounts are in range, and
    /// the funder and the timestamps are present exactly in the states that
    /// set them.
    pub open spec fn wf(&self) -> bool {
        &&& 0 < self.amount <= MAX_INVOICE_AMOUNT
        &&& 0 <= self.advance_amount <= self.amount
        &&& self.fee_bps <= 1000
        &&& self.lender is None <==> self.status.unfunded()
        &&& self.funded_at is None <==> self.status.unfunded()
        &&& self.settled_at is Some <==> self.status is Settled
        &&& self.funded_at matches Some(at) ==> at <= self.due_date
    }
}

impl Invoice {
    /// Whether this invoice is one that the book may hold.
    pub fn is_valid(&self) -> (valid: bool)
        ensures
            valid == self.wf(),
    {
        let unfunded = match self.status {
            InvoiceStatus::Created => true,
            InvoiceStatus::Cancelled => true,
            _ => false,
        };
        let settled = match self.status {
            InvoiceStatus::Settled => true,
            _ => false,
        };
        let funded_in_time = match self.funded_at {
            Some(at) => at <= self.due_date,
            None => true,
        };
        0 < self.amount && self.amount <= MAX_INVOICE_AMOUNT && 0 <= self.advance_amount
            && self.advance_amount <= self.amount && self.fee_bps <= 1000
            && self.lender.is_none() == unfunded && self.funded_at.is_none() == unfunded
            && self.settled_at.is_some() == settled && funded_in_time
    }
}

impl Clone for Invoice {
    fn clone(&self) -> (copy: Invoice)
        ensures
            copy == *self,
    {
        Invoice {
            id: self.id,
            sme: self.sme.clone(),
            payer_id: self.payer_id.clone(),
            amount: self.amount,
            advance_amount: self.advance_amount,
            fee_bps: self.fee_bps,
            lender: match &self.lender {
                Some(lender) => Some(lender.clone()),
                None => None,
            },
            status: self.status,
            created_at: self.created_at,
            funded_at: self.funded_at,
            settled_at: self.settled_at,
            due_date: self.due_date,
            country: self.country.clone(),
            industry: self.industry.clone(),
        }
    }
}

/// What the book knows of an originator's record of payment.
#[derive(Debug)]
pub struct SmeReputation {
    /// The originator.
    pub sme: Address,
    /// Invoices created.
    pub total_invoices: u32,
    /// Invoices settled.
    pub settled_invoices: u32,
    /// Sum of the face amounts of the settled invoices.
    pub total_volume: i128,
    /// Average days to settlement; carried, never computed.
    pub avg_settlement_days: u32,
    /// Share of settlements that came in by the due date, in basis points.
    pub on_time_rate_bps: u32,
    /// Risk score from 0 to 1000; lower is better.
    pub risk_score: u32,
}

impl SmeReputation {
    /// What holds of every reputation record in the book: no more invoices
    /// are settled than were created, the rate and the score are in range,
    /// the volume is what that many settlements can amount to, and the score
    /// is the one that the other fields determine.
    pub open spec fn wf(&self) -> bool {
        &&& self.settled_invoices <= self.total_invoices
        &&& self.on_time_rate_bps <= 10000
        &&& self.risk_score <= 1000
        &&& 0 <= self.total_volume <= self.settled_invoices * MAX_INVOICE_AMOUNT
        &&& self.settled_invoices == 0 ==> self.on_time_rate_bps == 10000 && self.risk_score == 500
        &&& self.settled_invoices > 0 ==> self.risk_score == risk_score(
            self.on_time_rate_bps,
            self.total_volume,
            self.settled_invoices,
        )
    }
}

impl SmeReputation {
    /// Whether this record is one that the book may hold.
    pub fn is_valid(&self) -> (valid: bool)
        ensures
            valid == self.wf(),
    {
        if self.settled_invoices > self.total_invoices || self.on_time_rate_bps > 10000
            || self.risk_score > 1000 || self.total_volume < 0 {
            return false;
        }
        let most: i128 = self.settled_invoices as i128 * MAX_INVOICE_AMOUNT;
        if self.total_volume > most {
            return false;
        }
        if self.settled_invoices == 0 {
            self.on_time_rate_bps == 10000 && self.risk_score == 500
        } else {
            self.risk_score == risk_score_of(
                self.on_time_rate_bps,
                self.total_volume,
                self.settled_invoices,
            )
        }
    }
}

impl Clone for SmeReputation {
    fn clone(&self) -> (copy: SmeReputation)
        ensures
            copy == *self,
    {
        SmeReputation {
            sme: self.sme.clone(),
            total_invoices: self.total_invoices,
            settled_invoices: self.settled_invoices,
            total_volume: self.total_volume,
            avg_settlement_days: self.avg_settlement_days,
            on_time_rate_bps: self.on_time_rate_bps,
            risk_score: self.risk_score,
        }
    }
}

/// The parameters that govern every invoice.
#[derive(Debug)]
pub struct ContractConfig {
    /// The administrator, who settles invoices and updates this record.
    pub admin: Address,
    /// The asset in which every amount is denominated.
    pub usdc_token: Address,
    /// Where protocol fees are paid.
    pub treasury: Address,
    /// Fraction of the face amount that is advanced, in basis points.
    pub default_advance_bps: u32,
    /// Fee of the protocol on the face amount, in basis points.
    pub protocol_fee_bps: u32,
    /// Smallest face amount accepted.
    pub min_invoice_amount: i128,
    /// Largest face amount accepted.
    pub max_invoice_amount: i128,
}

impl ContractConfig {
    /// What holds of the stored configuration: both fractions are in range
    /// and the bounds on the face amount are positive, ordered and no larger
    /// than `MAX_INVOICE_AMOUNT`.
    pub open spec fn wf(&self) -> bool {
        &&& self.default_advance_bps <= 10000
        &&& self.protocol_fee_bps <= 1000
        &&& 0 < self.min_invoice_amount <= self.max_invoice_amount <= MAX_INVOICE_AMOUNT
    }
}

impl ContractConfig {
    /// Whether this configuration is one that the book may hold.
    pub fn is_valid(&self) -> (valid: bool)
        ensures
            valid == self.wf(),
    {
        self.default_advance_bps <= 10000 && self.protocol_fee_bps <= 1000 && 0
            < self.min_invoice_amount && self.min_invoice_amount <= self.max_invoice_amount
            && self.max_invoice_amount <= MAX_INVOICE_AMOUNT
    }
}

impl Clone for ContractConfig {
    fn clone(&self) -> (copy: ContractConfig)
        ensures
            copy == *self,
    {
        ContractConfig {
            admin: self.admin.clone(),
            usdc_token: self.usdc_token.clone(),
            treasury: self.treasury.clone(),
            default_advance_bps: self.default_advance_bps,
            protocol_fee_bps: self.protocol_fee_bps,
            min_invoice_amount: self.min_invoice_amount,
            max_invoice_amount: self.max_invoice_amount,
        }
    }
}

/// How a settlement was split.
#[derive(Clone, Copy, Debug, PartialEq, Eq, Structural)]
pub struct SettlementResult {
    /// The invoice that was settled.
    pub invoice_id: u64,
    /// Paid to the funder: the advance and the funder's fee.
    pub lender_amount: i128,
    /// Left for the originator.
    pub sme_amount: i128,
    /// Paid to the treasury.
    pub protocol_fee: i128,
    /// When the invoice was settled.
    pub timestamp: u64,
}

/// The receipt of a funding.
#[derive(Debug)]
pub struct FundingEvent {
    /// The invoice that was funded.
    pub invoice_id: u64,
    /// The funder.
    pub lender: Address,
    /// The amount advanced.
    pub amount: i128,
    /// When the invoice was funded.
    pub timestamp: u64,
}

impl Clone for FundingEvent {
    fn clone(&self) -> (copy: FundingEvent)
        ensures
            copy == *self,
    {
        FundingEvent {
            invoice_id: self.invoice_id,
            lender: self.lender.clone(),
            amount: self.amount,
            timestamp: self.timestamp,
        }
    }
}

/// A movement of funds that the ledger is asked to make.
#[derive(Debug)]
pub struct Transfer {
    /// Who pays.
    pub from: Address,
    /// Who is paid.
    pub to: Address,
    /// How much, in minor units.
    pub amount: i128,
}

impl Clone for Transfer {
    fn clone(&self) -> (copy: Transfer)
        ensures
            copy == *self,
    {
        Transfer { from: self.from.clone(), to: self.to.clone(), amount: self.amount }
    }
}

/// The ledger's answer when it could not move the funds it was asked to move.
#[derive(Clone, Copy, Debug, PartialEq, Eq, Structural)]
pub struct TransferFailed;

} // verus!
