//! How a settlement payment is split among the funder, the originator and
//! the treasury.

use vstd::prelude::*;
use crate::bps::{bps_share, lemma_bps_share_bounds, share_of};
use crate::types::{ContractConfig, Invoice, MAX_INVOICE_AMOUNT};

verus! {

/// What the funder is owed at settlement: the advance, and the funder's fee
/// on the advance, rounded down.
pub open spec fn lender_amount(invoice: Invoice) -> int {
    invoice.advance_amount + bps_share(invoice.advance_amount as int, invoice.fee_bps as int)
}

/// What the treasury is owed at settlement: the protocol's fee on the face
/// amount, rounded down.
pub open spec fn protocol_fee(invoice: Invoice, config: ContractConfig) -> int {
    bps_share(invoice.amount as int, config.protocol_fee_bps as int)
}

/// What is left for the originator once the funder and the treasury are
/// paid. It is negative where the payment does not cover the other two.
pub open spec fn sme_amount(invoice: Invoice, config: ContractConfig, settlement_amount: i128) -> int {
    settlement_amount - lender_amount(invoice) - protocol_fee(invoice, config)
}

/// The funder's part and the treasury's part of a valid invoice are never
/// negative, and together they stay below twice the largest face amount.
pub proof fn lemma_distribution_bounds(invoice: Invoice, config: ContractConfig)
    requires
        invoice.wf(),
        config.wf(),
    ensures
        invoice.advance_amount <= lender_amount(invoice) <= 2 * invoice.advance_amount,
        0 <= protocol_fee(invoice, config) <= invoice.amount,
        0 <= lender_amount(invoice) + protocol_fee(invoice, config) <= 3 * MAX_INVOICE_AMOUNT,
{
    lemma_bps_share_bounds(invoice.advance_amount as int, invoice.fee_bps as int);
    lemma_bps_share_bounds(invoice.amount as int, config.protocol_fee_bps as int);
}

/// Splits a settlement payment. The result is the funder's part, the
/// originator's part and the treasury's part, in this order; the three add
/// up to the payment.
pub fn distribute(invoice: &Invoice, config: &ContractConfig, settlement_amount: i128) -> (parts: (
    i128,
    i128,
    i128,
))
    requires
        invoice.wf(),
        config.wf(),
        i128::MIN <= sme_amount(*invoice, *config, settlement_amount),
    ensures
        parts.0 == lender_amount(*invoice),
        parts.1 == sme_amount(*invoice, *config, settlement_amount),
        parts.2 == protocol_fee(*invoice, *config),
        parts.0 + parts.1 + parts.2 == settlement_amount,
{
    proof {
        lemma_distribution_bounds(*invoice, *config);
    }
    let lender_fee: i128 = share_of(invoice.advance_amount, invoice.fee_bps);
    let lender_amount: i128 = invoice.advance_amount + lender_fee;
    let protocol_fee: i128 = share_of(invoice.amount, config.protocol_fee_bps);
    let sme_amount: i128 = settlement_amount - lender_amount - protocol_fee;
    (lender_amount, sme_amount, protocol_fee)
}

} // verus!
