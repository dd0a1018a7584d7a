//! What the operations on the invoice book guarantee together.

use vstd::prelude::*;
use crate::address::Address;
use crate::book::Book;
use crate::bps::lemma_bps_share_bounds;
use crate::errors::AdelantaError;
use crate::preservation::{
    lemma_create_invoice_wf, lemma_fund_invoice_wf, lemma_funded_volume_within_range,
    lemma_reputation_within_book, lemma_unsettled_invoice_is_outstanding,
};
use crate::reputation::lemma_with_settled_wf;
use crate::settlement::lemma_distribution_bounds;
use crate::types::{InvoiceStatus, TransferFailed};

verus! {

/// A book is initialized once: after an initialization that was accepted,
/// every further one is refused as `AlreadyInitialized`, whatever it asks
/// for, and leaves the book as it is.
pub proof fn law_initialize_once(
    book: Book,
    admin: Address,
    usdc_token: Address,
    treasury: Address,
    default_advance_bps: u32,
    protocol_fee_bps: u32,
    next_admin: Address,
    next_usdc_token: Address,
    next_treasury: Address,
    next_default_advance_bps: u32,
    next_protocol_fee_bps: u32,
)
    requires
        book.initialize(admin, usdc_token, treasury, default_advance_bps, protocol_fee_bps).1 is Ok,
    ensures
        ({
            let initialized = book.initialize(
                admin,
                usdc_token,
                treasury,
                default_advance_bps,
                protocol_fee_bps,
            ).0;
            initialized.initialize(
                next_admin,
                next_usdc_token,
                next_treasury,
                next_default_advance_bps,
                next_protocol_fee_bps,
            ) == (initialized, Err::<(), AdelantaError>(AdelantaError::AlreadyInitialized))
        }),
{
}

/// An invoice is created with the advance that the configured fraction
/// gives of its face amount, rounded down; the advance is never negative
/// and never more than the face amount.
pub proof fn law_advance_at_creation(
    book: Book,
    sme: Address,
    payer_id: String,
    amount: i128,
    due_date: u64,
    country: String,
    industry: String,
    fee_bps: u32,
    now: u64,
)
    requires
        book.wf(),
        book.create_invoice(sme, payer_id, amount, due_date, country, industry, fee_bps, now).1 is Ok,
    ensures
        ({
            let (after, answer) = book.create_invoice(
                sme,
                payer_id,
                amount,
                due_date,
                country,
                industry,
                fee_bps,
                now,
            );
            let invoice = after.invoice(answer.unwrap());
            &&& invoice is Some
            &&& invoice.unwrap().id == answer.unwrap()
            &&& invoice.unwrap().amount == amount
            &&& invoice.unwrap().status == InvoiceStatus::Created
            &&& invoice.unwrap().advance_amount == amount * book.config.unwrap().default_advance_bps
                / 10000
            &&& 0 <= invoice.unwrap().advance_amount <= amount
        }),
{
    lemma_bps_share_bounds(amount as int, book.config.unwrap().default_advance_bps as int);
}

/// In a well-formed book the advance of every invoice lies between zero and
/// the face amount.
pub proof fn law_advance_within_amount(book: Book, invoice_id: u64)
    requires
        book.wf(),
        book.invoice(invoice_id) is Some,
    ensures
        0 <= book.invoice(invoice_id).unwrap().advance_amount <= book.invoice(
            invoice_id,
        ).unwrap().amount,
        book.invoice(invoice_id).unwrap().id == invoice_id,
{
    assert(book.invoices[invoice_id - 1].wf());
}

/// Every settlement that is accepted splits the payment without remainder:
/// the funder's part, the originator's part and the treasury's part add up
/// to the payment.
pub proof fn law_settlement_adds_up(
    book: Book,
    caller: Address,
    invoice_id: u64,
    settlement_amount: i128,
    now: u64,
    ledger: Result<(), TransferFailed>,
)
    requires
        book.wf(),
        book.settle_invoice(caller, invoice_id, settlement_amount, now, ledger).1 is Ok,
    ensures
        ({
            let split = book.settle_invoice(
                caller,
                invoice_id,
                settlement_amount,
                now,
                ledger,
            ).1.unwrap();
            &&& split.lender_amount + split.sme_amount + split.protocol_fee == settlement_amount
            &&& split.lender_amount >= 0
            &&& split.protocol_fee >= 0
        }),
{
    let (config, invoice, lender) = book.settleable(caller, invoice_id, settlement_amount).unwrap();
    assert(invoice == book.invoices[invoice_id - 1]);
    lemma_distribution_bounds(invoice, config);
}

/// Funding an invoice and then settling it with a payment of exactly its
/// face amount splits that amount without remainder.
pub proof fn law_fund_then_settle_adds_up(
    book: Book,
    lender: Address,
    invoice_id: u64,
    funded_at: u64,
    caller: Address,
    settled_at: u64,
)
    requires
        book.wf(),
        book.fund_invoice(lender, invoice_id, funded_at, Ok(())).1 is Ok,
        book.fund_invoice(lender, invoice_id, funded_at, Ok(())).0.settle_invoice(
            caller,
            invoice_id,
            book.invoice(invoice_id).unwrap().amount,
            settled_at,
            Ok(()),
        ).1 is Ok,
    ensures
        ({
            let amount = book.invoice(invoice_id).unwrap().amount;
            let split = book.fund_invoice(lender, invoice_id, funded_at, Ok(())).0.settle_invoice(
                caller,
                invoice_id,
                amount,
                settled_at,
                Ok(()),
            ).1.unwrap();
            split.lender_amount + split.sme_amount + split.protocol_fee == amount
        }),
{
    let funded = book.fund_invoice(lender, invoice_id, funded_at, Ok(())).0;
    lemma_fund_invoice_wf(book, lender, invoice_id, funded_at, Ok(()));
    law_settlement_adds_up(
        funded,
        caller,
        invoice_id,
        book.invoice(invoice_id).unwrap().amount,
        settled_at,
        Ok(()),
    );
}

/// Only an invoice in the `Created` state is ever cancelled, and a
/// cancellation changes nothing but the state of that invoice.
pub proof fn law_cancel_only_from_created(book: Book, caller: Address, invoice_id: u64)
    requires
        book.cancel_invoice(caller, invoice_id).1 is Ok,
    ensures
        book.invoice(invoice_id) is Some,
        book.invoice(invoice_id).unwrap().status == InvoiceStatus::Created,
        book.cancel_invoice(caller, invoice_id).0.invoice(invoice_id) is Some,
        book.cancel_invoice(caller, invoice_id).0.invoice(invoice_id).unwrap().status
            == InvoiceStatus::Cancelled,
{
}

/// The originator and the administrator are refused with
/// `InvoiceAlreadyFunded` when they cancel an invoice that has left the
/// `Created` state, and the book stays as it is.
pub proof fn law_cancel_after_created_is_refused(book: Book, caller: Address, invoice_id: u64)
    requires
        book.wf(),
        book.invoice(invoice_id) is Some,
        book.invoice(invoice_id).unwrap().status != InvoiceStatus::Created,
        caller@ == book.invoice(invoice_id).unwrap().sme@ || (book.config is Some && caller@
            == book.config.unwrap().admin@),
    ensures
        book.cancel_invoice(caller, invoice_id) == (
            book,
            Err::<(), AdelantaError>(AdelantaError::InvoiceAlreadyFunded),
        ),
{
}

/// The administrator is refused with `InvoiceAlreadySettled` when it
/// settles a settled invoice, and with `InvoiceNotFunded` when it settles
/// one that was never funded; the book stays as it is, whatever the payment
/// and whatever the ledger answered.
pub proof fn law_settle_needs_funded(
    book: Book,
    caller: Address,
    invoice_id: u64,
    settlement_amount: i128,
    now: u64,
    ledger: Result<(), TransferFailed>,
)
    requires
        book.wf(),
        book.invoice(invoice_id) is Some,
        book.config is Some ==> caller@ == book.config.unwrap().admin@,
    ensures
        ({
            let status = book.invoice(invoice_id).unwrap().status;
            let (after, answer) = book.settle_invoice(
                caller,
                invoice_id,
                settlement_amount,
                now,
                ledger,
            );
            &&& status == InvoiceStatus::Settled ==> after == book && answer == Err::<
                crate::types::SettlementResult,
                AdelantaError,
            >(AdelantaError::InvoiceAlreadySettled)
            &&& status.unfunded() ==> after == book && answer == Err::<
                crate::types::SettlementResult,
                AdelantaError,
            >(AdelantaError::InvoiceNotFunded)
        }),
{
}

/// A settlement pays what the preview of the same payment on the same book
/// says, and the settlement transfers move these amounts: the funder's part
/// always, the other two where they are positive.
pub proof fn law_preview_matches_settlement(
    book: Book,
    caller: Address,
    invoice_id: u64,
    settlement_amount: i128,
    now: u64,
    ledger: Result<(), TransferFailed>,
)
    requires
        book.wf(),
        book.settle_invoice(caller, invoice_id, settlement_amount, now, ledger).1 is Ok,
    ensures
        ({
            let split = book.settle_invoice(
                caller,
                invoice_id,
                settlement_amount,
                now,
                ledger,
            ).1.unwrap();
            let preview = book.preview_settlement(invoice_id, settlement_amount);
            let transfers = book.settlement_transfers(caller, invoice_id, settlement_amount);
            &&& preview == Ok::<(int, int, int), AdelantaError>(
                (split.lender_amount as int, split.sme_amount as int, split.protocol_fee as int),
            )
            &&& transfers is Ok
            &&& transfers.unwrap().len() == 1 + (if split.sme_amount > 0 {
                1int
            } else {
                0int
            }) + (if split.protocol_fee > 0 {
                1int
            } else {
                0int
            })
            &&& transfers.unwrap()[0].amount == split.lender_amount
            &&& split.sme_amount > 0 ==> transfers.unwrap()[1].amount == split.sme_amount
                && transfers.unwrap()[1].to == book.invoice(invoice_id).unwrap().sme
            &&& split.protocol_fee > 0 ==> transfers.unwrap().last().amount == split.protocol_fee
                && transfers.unwrap().last().to == book.config.unwrap().treasury
        }),
{
    let (config, invoice, lender) = book.settleable(caller, invoice_id, settlement_amount).unwrap();
    assert(invoice == book.invoices[invoice_id - 1]);
    lemma_distribution_bounds(invoice, config);
}

/// After its due date an invoice is not funded: the funding of a `Created`
/// invoice is refused with `InvoiceExpired`, whoever the funder is and
/// whatever the ledger answered, and the book stays as it is.
pub proof fn law_fund_after_due_date_is_refused(
    book: Book,
    lender: Address,
    invoice_id: u64,
    now: u64,
    ledger: Result<(), TransferFailed>,
)
    requires
        book.wf(),
        book.invoice(invoice_id) is Some,
        book.invoice(invoice_id).unwrap().status == InvoiceStatus::Created,
        now > book.invoice(invoice_id).unwrap().due_date,
    ensures
        book.fund_invoice(lender, invoice_id, now, ledger) == (
            book,
            Err::<crate::types::FundingEvent, AdelantaError>(AdelantaError::InvoiceExpired),
        ),
        book.funding_transfer(lender, invoice_id, now) == Err::<
            crate::types::Transfer,
            AdelantaError,
        >(AdelantaError::InvoiceExpired),
{
}

/// Where the ledger failed, a funding and a settlement that would else be
/// accepted are refused with `TransferFailed`, and the book stays as it is.
pub proof fn law_failed_transfer_changes_nothing(
    book: Book,
    lender: Address,
    caller: Address,
    invoice_id: u64,
    settlement_amount: i128,
    now: u64,
)
    ensures
        book.fund_invoice(lender, invoice_id, now, Ok(())).1 is Ok ==> book.fund_invoice(
            lender,
            invoice_id,
            now,
            Err(TransferFailed),
        ) == (book, Err::<crate::types::FundingEvent, AdelantaError>(AdelantaError::TransferFailed)),
        book.settle_invoice(caller, invoice_id, settlement_amount, now, Ok(())).1 is Ok
            ==> book.settle_invoice(caller, invoice_id, settlement_amount, now, Err(TransferFailed))
            == (
            book,
            Err::<crate::types::SettlementResult, AdelantaError>(AdelantaError::TransferFailed),
        ),
{
}

/// The first invoice of an originator, created, funded and settled, leaves
/// a reputation that counts one invoice created, one settled and its face
/// amount as the volume, with the on-time rate still at the whole.
pub proof fn law_full_lifecycle(
    book: Book,
    sme: Address,
    payer_id: String,
    amount: i128,
    due_date: u64,
    country: String,
    industry: String,
    fee_bps: u32,
    created_at: u64,
    lender: Address,
    funded_at: u64,
    caller: Address,
    settlement_amount: i128,
    settled_at: u64,
)
    requires
        book.wf(),
        book.total_invoices < u32::MAX,
        book.reputation(sme@) is None,
        book.create_invoice(
            sme,
            payer_id,
            amount,
            due_date,
            country,
            industry,
            fee_bps,
            created_at,
        ).1 is Ok,
        ({
            let (created, id) = book.create_invoice(
                sme,
                payer_id,
                amount,
                due_date,
                country,
                industry,
                fee_bps,
                created_at,
            );
            let funded = created.fund_invoice(lender, id.unwrap(), funded_at, Ok(()));
            &&& funded.1 is Ok
            &&& funded.0.settle_invoice(
                caller,
                id.unwrap(),
                settlement_amount,
                settled_at,
                Ok(()),
            ).1 is Ok
        }),
    ensures
        ({
            let (created, id) = book.create_invoice(
                sme,
                payer_id,
                amount,
                due_date,
                country,
                industry,
                fee_bps,
                created_at,
            );
            let funded = created.fund_invoice(lender, id.unwrap(), funded_at, Ok(())).0;
            let settled = funded.settle_invoice(
                caller,
                id.unwrap(),
                settlement_amount,
                settled_at,
                Ok(()),
            ).0;
            let reputation = settled.reputation(sme@);
            &&& reputation is Some
            &&& reputation.unwrap().total_invoices == 1
            &&& reputation.unwrap().settled_invoices == 1
            &&& reputation.unwrap().total_volume == amount
            &&& reputation.unwrap().on_time_rate_bps == 10000
            &&& settled.invoice(id.unwrap()).unwrap().status == InvoiceStatus::Settled
        }),
{
    let (created, id) = book.create_invoice(
        sme,
        payer_id,
        amount,
        due_date,
        country,
        industry,
        fee_bps,
        created_at,
    );
    lemma_create_invoice_wf(
        book,
        sme,
        payer_id,
        amount,
        due_date,
        country,
        industry,
        fee_bps,
        created_at,
    );
    let invoice_id = id.unwrap();
    assert(created.invoices[invoice_id - 1].sme == sme);
    let funded = created.fund_invoice(lender, invoice_id, funded_at, Ok(())).0;
    assert(funded.invoices[invoice_id - 1].sme == sme);
}

/// No operation lowers a counter of the book, takes the configuration, an
/// invoice or a reputation out of it, lowers what a reputation counts, or
/// changes an invoice in another way than by one step of its lifecycle: an
/// invoice that is settled or cancelled stays as it is, and a funder and the
/// times of funding and settlement are set once.
pub proof fn law_book_only_grows(
    book: Book,
    sme: Address,
    payer_id: String,
    amount: i128,
    due_date: u64,
    country: String,
    industry: String,
    fee_bps: u32,
    actor: Address,
    invoice_id: u64,
    settlement_amount: i128,
    now: u64,
    ledger: Result<(), TransferFailed>,
    new_treasury: Option<Address>,
    new_advance_bps: Option<u32>,
    new_protocol_fee_bps: Option<u32>,
    usdc_token: Address,
    treasury: Address,
    default_advance_bps: u32,
    protocol_fee_bps: u32,
    kept: u64,
    known: Seq<char>,
)
    requires
        book.wf(),
        book.total_invoices < u32::MAX,
        book.total_volume_settled + settlement_amount <= i128::MAX,
    ensures
        Book::extends(
            book,
            book.create_invoice(sme, payer_id, amount, due_date, country, industry, fee_bps, now).0,
            kept,
            known,
        ),
        Book::extends(book, book.fund_invoice(actor, invoice_id, now, ledger).0, kept, known),
        Book::extends(
            book,
            book.settle_invoice(actor, invoice_id, settlement_amount, now, ledger).0,
            kept,
            known,
        ),
        Book::extends(book, book.cancel_invoice(actor, invoice_id).0, kept, known),
        Book::extends(
            book,
            book.update_config(actor, new_treasury, new_advance_bps, new_protocol_fee_bps).0,
            kept,
            known,
        ),
        Book::extends(
            book,
            book.initialize(actor, usdc_token, treasury, default_advance_bps, protocol_fee_bps).0,
            kept,
            known,
        ),
{
    lemma_funded_volume_within_range(book);
    if 1 <= kept <= book.invoices.len() {
        assert(book.invoices[kept - 1].wf());
    }
    if 1 <= invoice_id <= book.invoices.len() {
        assert(book.invoices[invoice_id - 1].wf());
    }
    if book.reputations.contains_key(known) {
        lemma_reputation_within_book(book, known);
        assert(book.counts(known, book.reputations[known]));
    }
    if book.settle_invoice(actor, invoice_id, settlement_amount, now, ledger).1 is Ok {
        let invoice = book.invoices[invoice_id - 1];
        lemma_unsettled_invoice_is_outstanding(book, invoice_id);
        let reputation = book.reputations[invoice.sme@];
        assert(book.counts(invoice.sme@, reputation));
        lemma_with_settled_wf(reputation, invoice.amount, now <= invoice.due_date);
    }
}

/// The transfers and the operations go together. A funding is accepted on
/// the ledger's success exactly where the funding transfer is named, and its
/// receipt shows the amount of that transfer, which goes from the funder to
/// the originator. A settlement is accepted on the ledger's success exactly
/// where the settlement transfers are named; they are all made by the
/// caller, the first pays the funder of the invoice what the split gives it,
/// and there are at most three.
pub proof fn law_transfers_match_operations(
    book: Book,
    actor: Address,
    invoice_id: u64,
    settlement_amount: i128,
    now: u64,
)
    requires
        book.wf(),
    ensures
        book.fund_invoice(actor, invoice_id, now, Ok(())).1 is Ok <==> book.funding_transfer(
            actor,
            invoice_id,
            now,
        ) is Ok,
        book.funding_transfer(actor, invoice_id, now) matches Ok(transfer) ==> {
            let event = book.fund_invoice(actor, invoice_id, now, Ok(())).1.unwrap();
            &&& transfer.from == actor
            &&& transfer.to == book.invoice(invoice_id).unwrap().sme
            &&& transfer.amount == event.amount
            &&& transfer.amount == book.invoice(invoice_id).unwrap().advance_amount
            &&& transfer.amount >= 0
        },
        book.settle_invoice(actor, invoice_id, settlement_amount, now, Ok(())).1 is Ok
            <==> book.settlement_transfers(actor, invoice_id, settlement_amount) is Ok,
        book.settlement_transfers(actor, invoice_id, settlement_amount) matches Ok(transfers) ==> {
            let split = book.settle_invoice(
                actor,
                invoice_id,
                settlement_amount,
                now,
                Ok(()),
            ).1.unwrap();
            &&& 1 <= transfers.len() <= 3
            &&& forall|i: int| 0 <= i < transfers.len() ==> (#[trigger] transfers[i]).from == actor
            &&& forall|i: int| 0 <= i < transfers.len() ==> (#[trigger] transfers[i]).amount >= 0
            &&& transfers[0].to == book.invoice(invoice_id).unwrap().lender.unwrap()
            &&& transfers[0].amount == split.lender_amount
        },
{
    if 1 <= invoice_id <= book.invoices.len() {
        assert(book.invoices[invoice_id - 1].wf());
    }
    if book.settlement_transfers(actor, invoice_id, settlement_amount) is Ok {
        let (config, invoice, lender) = book.settleable(
            actor,
            invoice_id,
            settlement_amount,
        ).unwrap();
        lemma_distribution_bounds(invoice, config);
    }
}

} // verus!
