//! Every operation keeps the invoice book well formed, and a well-formed
//! book leaves room for the arithmetic of each operation.

use vstd::prelude::*;
use crate::address::Address;
use crate::book::Book;
use crate::bps::lemma_bps_share_bounds;
use crate::reputation::lemma_with_settled_wf;
use crate::tally::{
    lemma_tally_bounds, lemma_tally_ordered, lemma_tally_push, lemma_tally_update, tally, weight,
    Measure,
};
use crate::types::{Invoice, TransferFailed, MAX_INVOICE_AMOUNT};

verus! {

/// No reputation counts more invoices than the book holds.
pub proof fn lemma_reputation_within_book(book: Book, sme: Seq<char>)
    requires
        book.wf(),
        book.reputations.contains_key(sme),
    ensures
        book.reputations[sme].settled_invoices <= book.reputations[sme].total_invoices
            <= book.invoices.len(),
{
    lemma_tally_bounds(book.invoices, Measure::CreatedBy(sme), 0, 1);
}

/// An originator without a reputation has no invoice in the book.
pub proof fn lemma_unknown_sme_has_no_invoice(book: Book, sme: Seq<char>)
    requires
        book.wf(),
        !book.reputations.contains_key(sme),
    ensures
        tally(book.invoices, Measure::CreatedBy(sme)) == 0,
        tally(book.invoices, Measure::SettledBy(sme)) == 0,
        tally(book.invoices, Measure::SettledVolumeOf(sme)) == 0,
{
    assert forall|i: int| 0 <= i < book.invoices.len() implies (#[trigger] book.invoices[i]).sme@
        != sme by {}
    lemma_tally_bounds(book.invoices, Measure::CreatedBy(sme), 0, 0);
    lemma_tally_bounds(book.invoices, Measure::SettledBy(sme), 0, 0);
    lemma_tally_bounds(book.invoices, Measure::SettledVolumeOf(sme), 0, 0);
}

/// The funded volume is at most the largest face amount for each invoice,
/// so that one more advance never leaves the range of the counter.
pub proof fn lemma_funded_volume_within_range(book: Book)
    requires
        book.wf(),
    ensures
        0 <= book.total_volume_funded <= book.invoices.len() * MAX_INVOICE_AMOUNT,
        book.total_volume_funded + MAX_INVOICE_AMOUNT <= i128::MAX,
        0 <= tally(book.invoices, Measure::SettledFace) <= book.total_volume_settled,
{
    lemma_tally_bounds(book.invoices, Measure::FundedVolume, 0, MAX_INVOICE_AMOUNT as int);
    lemma_tally_bounds(book.invoices, Measure::SettledFace, 0, MAX_INVOICE_AMOUNT as int);
    let n = book.invoices.len() as int;
    assert(n * MAX_INVOICE_AMOUNT <= 0xffff_ffff * MAX_INVOICE_AMOUNT) by (nonlinear_arith)
        requires
            0 <= n <= 0xffff_ffff,
    ;
}

/// An invoice that is not settled yet is one that its originator's
/// reputation counts as created and not as settled.
pub proof fn lemma_unsettled_invoice_is_outstanding(book: Book, invoice_id: u64)
    requires
        book.wf(),
        book.invoice(invoice_id) matches Some(invoice) && !(invoice.status is Settled),
    ensures
        book.reputations.contains_key(book.invoice(invoice_id).unwrap().sme@),
        book.reputations[book.invoice(invoice_id).unwrap().sme@].settled_invoices
            < book.reputations[book.invoice(invoice_id).unwrap().sme@].total_invoices,
{
    let at = invoice_id - 1;
    let sme = book.invoices[at].sme@;
    assert(book.reputations.contains_key(book.invoices[at].sme@));
    assert(weight(Measure::SettledBy(sme), book.invoices[at]) < weight(
        Measure::CreatedBy(sme),
        book.invoices[at],
    ));
    lemma_tally_ordered(book.invoices, Measure::SettledBy(sme), Measure::CreatedBy(sme));
}

/// Initialization keeps the book well formed.
pub proof fn lemma_initialize_wf(
    book: Book,
    admin: Address,
    usdc_token: Address,
    treasury: Address,
    default_advance_bps: u32,
    protocol_fee_bps: u32,
)
    requires
        book.wf(),
    ensures
        book.initialize(admin, usdc_token, treasury, default_advance_bps, protocol_fee_bps).0.wf(),
{
    let after = book.initialize(
        admin,
        usdc_token,
        treasury,
        default_advance_bps,
        protocol_fee_bps,
    ).0;
    assert forall|sme: Seq<char>| #[trigger] after.reputations.contains_key(sme) implies after.counts(
        sme,
        after.reputations[sme],
    ) by {
        assert(book.counts(sme, book.reputations[sme]));
    }
}

/// A change of the configuration keeps the book well formed.
pub proof fn lemma_update_config_wf(
    book: Book,
    admin: Address,
    new_treasury: Option<Address>,
    new_advance_bps: Option<u32>,
    new_protocol_fee_bps: Option<u32>,
)
    requires
        book.wf(),
    ensures
        book.update_config(admin, new_treasury, new_advance_bps, new_protocol_fee_bps).0.wf(),
{
    let after = book.update_config(admin, new_treasury, new_advance_bps, new_protocol_fee_bps).0;
    assert forall|sme: Seq<char>| #[trigger] after.reputations.contains_key(sme) implies after.counts(
        sme,
        after.reputations[sme],
    ) by {
        assert(book.counts(sme, book.reputations[sme]));
    }
}

/// The creation of an invoice keeps the book well formed, as long as the
/// counter of invoices has room for one more.
pub proof fn lemma_create_invoice_wf(
    book: Book,
    sme: Address,
    payer_id: String,
    amount: i128,
    due_date: u64,
    country: String,
    industry: String,
    fee_bps: u32,
    now: u64,
)
    requires
        book.wf(),
        book.total_invoices < u32::MAX,
    ensures
        book.create_invoice(sme, payer_id, amount, due_date, country, industry, fee_bps, now).0.wf(),
{
    let (after, answer) = book.create_invoice(
        sme,
        payer_id,
        amount,
        due_date,
        country,
        industry,
        fee_bps,
        now,
    );
    if answer is Ok {
        let config = book.config.unwrap();
        let invoice = book.new_invoice(
            config,
            sme,
            payer_id,
            amount,
            due_date,
            country,
            industry,
            fee_bps,
            now,
        );
        lemma_bps_share_bounds(amount as int, config.default_advance_bps as int);
        assert(invoice.wf());
        assert(after.invoices == book.invoices.push(invoice));
        assert forall|i: int| 0 <= i < after.invoices.len() implies {
            &&& (#[trigger] after.invoices[i]).id == i + 1
            &&& after.invoices[i].wf()
            &&& after.reputations.contains_key(after.invoices[i].sme@)
        } by {
            if i < book.invoices.len() {
                assert(after.invoices[i] == book.invoices[i]);
            }
        }
        assert forall|k: Seq<char>| #[trigger] after.reputations.contains_key(k) implies after.counts(
            k,
            after.reputations[k],
        ) by {
            lemma_tally_push(book.invoices, invoice, Measure::CreatedBy(k));
            lemma_tally_push(book.invoices, invoice, Measure::SettledBy(k));
            lemma_tally_push(book.invoices, invoice, Measure::SettledVolumeOf(k));
            if k == sme@ {
                if book.reputations.contains_key(k) {
                    assert(book.counts(k, book.reputations[k]));
                    lemma_reputation_within_book(book, k);
                } else {
                    lemma_unknown_sme_has_no_invoice(book, k);
                }
            } else {
                assert(book.counts(k, book.reputations[k]));
            }
        }
        lemma_tally_push(book.invoices, invoice, Measure::FundedVolume);
        lemma_tally_push(book.invoices, invoice, Measure::SettledFace);
    }
}

/// Replacing an invoice by one of the same originator that is settled
/// exactly if the first one is leaves every count of every originator as
/// it was.
pub proof fn lemma_counts_kept(book: Book, at: int, invoice: Invoice, sme: Seq<char>)
    requires
        0 <= at < book.invoices.len(),
        invoice.sme == book.invoices[at].sme,
        invoice.amount == book.invoices[at].amount,
        invoice.status is Settled <==> book.invoices[at].status is Settled,
    ensures
        tally(book.invoices.update(at, invoice), Measure::CreatedBy(sme)) == tally(
            book.invoices,
            Measure::CreatedBy(sme),
        ),
        tally(book.invoices.update(at, invoice), Measure::SettledBy(sme)) == tally(
            book.invoices,
            Measure::SettledBy(sme),
        ),
        tally(book.invoices.update(at, invoice), Measure::SettledVolumeOf(sme)) == tally(
            book.invoices,
            Measure::SettledVolumeOf(sme),
        ),
        tally(book.invoices.update(at, invoice), Measure::SettledFace) == tally(
            book.invoices,
            Measure::SettledFace,
        ),
{
    lemma_tally_update(book.invoices, at, invoice, Measure::CreatedBy(sme));
    lemma_tally_update(book.invoices, at, invoice, Measure::SettledBy(sme));
    lemma_tally_update(book.invoices, at, invoice, Measure::SettledVolumeOf(sme));
    lemma_tally_update(book.invoices, at, invoice, Measure::SettledFace);
}

/// The funding of an invoice keeps the book well formed.
pub proof fn lemma_fund_invoice_wf(
    book: Book,
    lender: Address,
    invoice_id: u64,
    now: u64,
    ledger: Result<(), TransferFailed>,
)
    requires
        book.wf(),
    ensures
        book.fund_invoice(lender, invoice_id, now, ledger).0.wf(),
{
    let (after, answer) = book.fund_invoice(lender, invoice_id, now, ledger);
    if answer is Ok {
        let at = invoice_id - 1;
        let before = book.invoices[at];
        let invoice = after.invoices[at];
        assert(before.wf());
        assert(invoice.wf());
        lemma_funded_volume_within_range(book);
        assert forall|i: int| 0 <= i < after.invoices.len() implies {
            &&& (#[trigger] after.invoices[i]).id == i + 1
            &&& after.invoices[i].wf()
            &&& after.reputations.contains_key(after.invoices[i].sme@)
        } by {
            if i != at {
                assert(after.invoices[i] == book.invoices[i]);
            }
        }
        assert forall|k: Seq<char>| #[trigger] after.reputations.contains_key(k) implies after.counts(
            k,
            after.reputations[k],
        ) by {
            assert(book.counts(k, book.reputations[k]));
            lemma_counts_kept(book, at, invoice, k);
        }
        lemma_counts_kept(book, at, invoice, lender@);
        lemma_tally_update(book.invoices, at, invoice, Measure::FundedVolume);
    }
}

/// The settlement of an invoice keeps the book well formed, as long as the
/// counter of the settled volume has room for the payment.
pub proof fn lemma_settle_invoice_wf(
    book: Book,
    caller: Address,
    invoice_id: u64,
    settlement_amount: i128,
    now: u64,
    ledger: Result<(), TransferFailed>,
)
    requires
        book.wf(),
        book.total_volume_settled + settlement_amount <= i128::MAX,
    ensures
        book.settle_invoice(caller, invoice_id, settlement_amount, now, ledger).0.wf(),
{
    let (after, answer) = book.settle_invoice(caller, invoice_id, settlement_amount, now, ledger);
    if answer is Ok {
        let at = invoice_id - 1;
        let before = book.invoices[at];
        let invoice = after.invoices[at];
        let sme = before.sme@;
        assert(before.wf());
        assert(invoice.wf());
        lemma_funded_volume_within_range(book);
        lemma_unsettled_invoice_is_outstanding(book, invoice_id);
        let reputation = book.reputations[sme];
        assert(book.counts(sme, reputation));
        lemma_with_settled_wf(reputation, before.amount, now <= before.due_date);
        assert forall|i: int| 0 <= i < after.invoices.len() implies {
            &&& (#[trigger] after.invoices[i]).id == i + 1
            &&& after.invoices[i].wf()
            &&& after.reputations.contains_key(after.invoices[i].sme@)
        } by {
            if i != at {
                assert(after.invoices[i] == book.invoices[i]);
            }
            assert(book.reputations.contains_key(book.invoices[i].sme@));
        }
        assert forall|k: Seq<char>| #[trigger] after.reputations.contains_key(k) implies after.counts(
            k,
            after.reputations[k],
        ) by {
            assert(book.counts(k, book.reputations[k]));
            lemma_tally_update(book.invoices, at, invoice, Measure::CreatedBy(k));
            lemma_tally_update(book.invoices, at, invoice, Measure::SettledBy(k));
            lemma_tally_update(book.invoices, at, invoice, Measure::SettledVolumeOf(k));
        }
        lemma_tally_update(book.invoices, at, invoice, Measure::FundedVolume);
        lemma_tally_update(book.invoices, at, invoice, Measure::SettledFace);
    }
}

/// The cancellation of an invoice keeps the book well formed.
pub proof fn lemma_cancel_invoice_wf(book: Book, caller: Address, invoice_id: u64)
    requires
        book.wf(),
    ensures
        book.cancel_invoice(caller, invoice_id).0.wf(),
{
    let (after, answer) = book.cancel_invoice(caller, invoice_id);
    if answer is Ok {
        let at = invoice_id - 1;
        let before = book.invoices[at];
        let invoice = after.invoices[at];
        assert(before.wf());
        assert(invoice.wf());
        assert forall|i: int| 0 <= i < after.invoices.len() implies {
            &&& (#[trigger] after.invoices[i]).id == i + 1
            &&& after.invoices[i].wf()
            &&& after.reputations.contains_key(after.invoices[i].sme@)
        } by {
            if i != at {
                assert(after.invoices[i] == book.invoices[i]);
            }
        }
        assert forall|k: Seq<char>| #[trigger] after.reputations.contains_key(k) implies after.counts(
            k,
            after.reputations[k],
        ) by {
            assert(book.counts(k, book.reputations[k]));
            lemma_counts_kept(book, at, invoice, k);
        }
        lemma_counts_kept(book, at, invoice, caller@);
        lemma_tally_update(book.invoices, at, invoice, Measure::FundedVolume);
    }
}

} // verus!
