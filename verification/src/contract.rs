//! The operations on the invoice book: initialization, the lifecycle of an
//! invoice from creation to settlement or cancellation, and the views.
//!
//! Every operation that names a caller takes it that the caller has proved
//! to be that principal; the proof itself is made before the call. The
//! ledger is not called from here either: `funding_transfer` and
//! `settlement_transfers` say which transfers an operation needs, and
//! `fund_invoice` and `settle_invoice` take the ledger's answer to them.

use vstd::prelude::*;
use crate::address::Address;
use crate::book::Book;
use crate::bps::share_of;
use crate::errors::AdelantaError;
use crate::preservation::{
    lemma_cancel_invoice_wf, lemma_create_invoice_wf, lemma_fund_invoice_wf,
    lemma_funded_volume_within_range, lemma_initialize_wf, lemma_reputation_within_book,
    lemma_settle_invoice_wf, lemma_unsettled_invoice_is_outstanding, lemma_update_config_wf,
};
use crate::settlement::{distribute, lemma_distribution_bounds};
use crate::storage::Storage;
use crate::types::{
    ContractConfig, FundingEvent, Invoice, InvoiceStatus, SettlementResult, SmeReputation,
    Transfer, TransferFailed, MAX_INVOICE_AMOUNT, MIN_INVOICE_AMOUNT,
};

verus! {

/// The operations on a store of the invoice book.
pub struct AdelantaInvoiceContract;

impl AdelantaInvoiceContract {
    // ---------- initialization ----------

    /// Stores the configuration of a book that has none yet.
    pub fn initialize(
        storage: &mut Storage,
        admin: Address,
        usdc_token: Address,
        treasury: Address,
        default_advance_bps: u32,
        protocol_fee_bps: u32,
    ) -> (answer: Result<(), AdelantaError>)
        requires
            old(storage).wf(),
        ensures
            (final(storage)@, answer) == old(storage)@.initialize(
                admin,
                usdc_token,
                treasury,
                default_advance_bps,
                protocol_fee_bps,
            ),
            final(storage).wf(),
    {
        proof {
            lemma_initialize_wf(
                storage@,
                admin,
                usdc_token,
                treasury,
                default_advance_bps,
                protocol_fee_bps,
            );
        }
        if storage.has_config() {
            return Err(AdelantaError::AlreadyInitialized);
        }
        if default_advance_bps > 10000 {
            return Err(AdelantaError::InvalidAdvancePercentage);
        }
        if protocol_fee_bps > 1000 {
            return Err(AdelantaError::InvalidFeePercentage);
        }
        let config = ContractConfig {
            admin,
            usdc_token,
            treasury,
            default_advance_bps,
            protocol_fee_bps,
            min_invoice_amount: MIN_INVOICE_AMOUNT,
            max_invoice_amount: MAX_INVOICE_AMOUNT,
        };
        storage.set_config(config);
        storage.set_next_invoice_id(1);
        Ok(())
    }

    // ---------- invoices ----------

    /// Creates an invoice of the originator `sme` at the time `now` and
    /// answers its identifier.
    pub fn create_invoice(
        storage: &mut Storage,
        sme: Address,
        payer_id: String,
        amount: i128,
        due_date: u64,
        country: String,
        industry: String,
        fee_bps: u32,
        now: u64,
    ) -> (answer: Result<u64, AdelantaError>)
        requires
            old(storage).wf(),
            old(storage)@.total_invoices < u32::MAX,
        ensures
            (final(storage)@, answer) == old(storage)@.create_invoice(
                sme,
                payer_id,
                amount,
                due_date,
                country,
                industry,
                fee_bps,
                now,
            ),
            final(storage).wf(),
    {
        proof {
            lemma_create_invoice_wf(
                storage@,
                sme,
                payer_id,
                amount,
                due_date,
                country,
                industry,
                fee_bps,
                now,
            );
            if storage@.reputations.contains_key(sme@) {
                lemma_reputation_within_book(storage@, sme@);
                assert(storage@.counts(sme@, storage@.reputations[sme@]));
            }
        }
        let config = match storage.get_config() {
            Some(config) => config,
            None => {
                return Err(AdelantaError::NotInitialized);
            },
        };
        if amount <= 0 {
            return Err(AdelantaError::InvalidAmount);
        }
        if amount < config.min_invoice_amount || amount > config.max_invoice_amount {
            return Err(AdelantaError::InvalidAmount);
        }
        if fee_bps > 1000 {
            return Err(AdelantaError::InvalidFeePercentage);
        }
        let advance_amount: i128 = share_of(amount, config.default_advance_bps);
        let invoice_id: u64 = storage.get_next_invoice_id();
        storage.set_next_invoice_id(invoice_id + 1);
        let invoice = Invoice {
            id: invoice_id,
            sme: sme.clone(),
            payer_id,
            amount,
            advance_amount,
            fee_bps,
            lender: None,
            status: InvoiceStatus::Created,
            created_at: now,
            funded_at: None,
            settled_at: None,
            due_date,
            country,
            industry,
        };
        storage.set_invoice(invoice);
        storage.increment_total_invoices();
        Self::update_sme_reputation_on_create(storage, &sme);
        Ok(invoice_id)
    }

    /// The invoice that a funding at the time `now` would act on.
    fn fundable(storage: &Storage, invoice_id: u64, now: u64) -> (answer: Result<
        Invoice,
        AdelantaError,
    >)
        ensures
            answer == storage@.fundable(invoice_id, now),
    {
        if !storage.has_config() {
            return Err(AdelantaError::NotInitialized);
        }
        let invoice = match storage.get_invoice(invoice_id) {
            Some(invoice) => invoice,
            None => {
                return Err(AdelantaError::InvoiceNotFound);
            },
        };
        if invoice.status != InvoiceStatus::Created {
            return Err(AdelantaError::InvoiceAlreadyFunded);
        }
        if now > invoice.due_date {
            return Err(AdelantaError::InvoiceExpired);
        }
        Ok(invoice)
    }

    /// The transfer that the funder `lender` has to make to fund the invoice
    /// at the time `now`.
    pub fn funding_transfer(storage: &Storage, lender: &Address, invoice_id: u64, now: u64) -> (answer:
        Result<Transfer, AdelantaError>)
        ensures
            answer == storage@.funding_transfer(*lender, invoice_id, now),
    {
        match Self::fundable(storage, invoice_id, now) {
            Err(error) => Err(error),
            Ok(invoice) => Ok(
                Transfer { from: lender.clone(), to: invoice.sme, amount: invoice.advance_amount },
            ),
        }
    }

    /// Funds the invoice by `lender` at the time `now`, where `ledger` is
    /// the ledger's answer to the funding transfer. Where the funding is
    /// refused the book stays as it is.
    pub fn fund_invoice(
        storage: &mut Storage,
        lender: Address,
        invoice_id: u64,
        now: u64,
        ledger: Result<(), TransferFailed>,
    ) -> (answer: Result<FundingEvent, AdelantaError>)
        requires
            old(storage).wf(),
        ensures
            (final(storage)@, answer) == old(storage)@.fund_invoice(lender, invoice_id, now, ledger),
            final(storage).wf(),
    {
        proof {
            lemma_fund_invoice_wf(storage@, lender, invoice_id, now, ledger);
            lemma_funded_volume_within_range(storage@);
        }
        let mut invoice = match Self::fundable(storage, invoice_id, now) {
            Ok(invoice) => invoice,
            Err(error) => {
                return Err(error);
            },
        };
        if ledger.is_err() {
            return Err(AdelantaError::TransferFailed);
        }
        assert(invoice == storage@.invoices[invoice_id - 1]);
        assert(invoice.wf());
        invoice.status = InvoiceStatus::Funded;
        invoice.lender = Some(lender.clone());
        invoice.funded_at = Some(now);
        let amount: i128 = invoice.advance_amount;
        storage.set_invoice(invoice);
        storage.add_volume_funded(amount);
        Ok(FundingEvent { invoice_id, lender, amount, timestamp: now })
    }

    /// The configuration and the invoice that a settlement by `caller`
    /// would act on, and the funder to pay.
    fn settleable(
        storage: &Storage,
        caller: &Address,
        invoice_id: u64,
        settlement_amount: i128,
    ) -> (answer: Result<(ContractConfig, Invoice, Address), AdelantaError>)
        ensures
            answer == storage@.settleable(*caller, invoice_id, settlement_amount),
    {
        let config = match storage.get_config() {
            Some(config) => config,
            None => {
                return Err(AdelantaError::NotInitialized);
            },
        };
        if *caller != config.admin {
            return Err(AdelantaError::Unauthorized);
        }
        let invoice = match storage.get_invoice(invoice_id) {
            Some(invoice) => invoice,
            None => {
                return Err(AdelantaError::InvoiceNotFound);
            },
        };
        if invoice.status != InvoiceStatus::Funded {
            if invoice.status == InvoiceStatus::Settled {
                return Err(AdelantaError::InvoiceAlreadySettled);
            }
            return Err(AdelantaError::InvoiceNotFunded);
        }
        if settlement_amount < invoice.amount {
            return Err(AdelantaError::InsufficientSettlement);
        }
        let lender = match &invoice.lender {
            Some(lender) => lender.clone(),
            None => {
                return Err(AdelantaError::InvoiceNotFunded);
            },
        };
        Ok((config, invoice, lender))
    }

    /// The transfers that `caller` has to make to settle the invoice with a
    /// payment of `settlement_amount`, in the order in which they are made.
    /// They stand or fall together.
    pub fn settlement_transfers(
        storage: &Storage,
        caller: &Address,
        invoice_id: u64,
        settlement_amount: i128,
    ) -> (answer: Result<Vec<Transfer>, AdelantaError>)
        requires
            storage.wf(),
        ensures
            match (answer, storage@.settlement_transfers(*caller, invoice_id, settlement_amount)) {
                (Ok(transfers), Ok(owed)) => transfers@ == owed,
                (Err(error), Err(refusal)) => error == refusal,
                _ => false,
            },
    {
        let (config, invoice, lender) = match Self::settleable(
            storage,
            caller,
            invoice_id,
            settlement_amount,
        ) {
            Ok(found) => found,
            Err(error) => {
                return Err(error);
            },
        };
        proof {
            assert(invoice == storage@.invoices[invoice_id - 1]);
            lemma_distribution_bounds(invoice, config);
        }
        let parts = distribute(&invoice, &config, settlement_amount);
        let mut transfers: Vec<Transfer> = Vec::new();
        transfers.push(Transfer { from: caller.clone(), to: lender, amount: parts.0 });
        if parts.1 > 0 {
            transfers.push(Transfer { from: caller.clone(), to: invoice.sme, amount: parts.1 });
        }
        if parts.2 > 0 {
            transfers.push(Transfer { from: caller.clone(), to: config.treasury, amount: parts.2 });
        }
        proof {
            assert(transfers@ =~= Book::payout(
                *caller,
                config,
                invoice,
                lender,
                settlement_amount,
            ));
        }
        Ok(transfers)
    }

    /// Settles the invoice with a payment of `settlement_amount` at the time
    /// `now`, where `ledger` is the ledger's answer to the settlement
    /// transfers. Where the settlement is refused the book stays as it is.
    pub fn settle_invoice(
        storage: &mut Storage,
        caller: Address,
        invoice_id: u64,
        settlement_amount: i128,
        now: u64,
        ledger: Result<(), TransferFailed>,
    ) -> (answer: Result<SettlementResult, AdelantaError>)
        requires
            old(storage).wf(),
            old(storage)@.total_volume_settled + settlement_amount <= i128::MAX,
        ensures
            (final(storage)@, answer) == old(storage)@.settle_invoice(
                caller,
                invoice_id,
                settlement_amount,
                now,
                ledger,
            ),
            final(storage).wf(),
    {
        proof {
            lemma_settle_invoice_wf(storage@, caller, invoice_id, settlement_amount, now, ledger);
            lemma_funded_volume_within_range(storage@);
        }
        let (config, mut invoice, lender) = match Self::settleable(
            storage,
            &caller,
            invoice_id,
            settlement_amount,
        ) {
            Ok(found) => found,
            Err(error) => {
                return Err(error);
            },
        };
        proof {
            assert(invoice == storage@.invoices[invoice_id - 1]);
            lemma_distribution_bounds(invoice, config);
            lemma_unsettled_invoice_is_outstanding(storage@, invoice_id);
            assert(storage@.counts(invoice.sme@, storage@.reputations[invoice.sme@]));
        }
        let parts = distribute(&invoice, &config, settlement_amount);
        if ledger.is_err() {
            return Err(AdelantaError::TransferFailed);
        }
        invoice.status = InvoiceStatus::Settled;
        invoice.settled_at = Some(now);
        storage.set_invoice(invoice.clone());
        storage.add_volume_settled(settlement_amount);
        Self::update_sme_reputation_on_settle(storage, &invoice);
        Ok(
            SettlementResult {
                invoice_id,
                lender_amount: parts.0,
                sme_amount: parts.1,
                protocol_fee: parts.2,
                timestamp: now,
            },
        )
    }

    /// Cancels an invoice that has not been funded, on behalf of its
    /// originator or of the administrator. Where the cancellation is refused
    /// the book stays as it is.
    pub fn cancel_invoice(storage: &mut Storage, caller: Address, invoice_id: u64) -> (answer: Result<
        (),
        AdelantaError,
    >)
        requires
            old(storage).wf(),
        ensures
            (final(storage)@, answer) == old(storage)@.cancel_invoice(caller, invoice_id),
            final(storage).wf(),
    {
        proof {
            lemma_cancel_invoice_wf(storage@, caller, invoice_id);
        }
        let mut invoice = match storage.get_invoice(invoice_id) {
            Some(invoice) => invoice,
            None => {
                return Err(AdelantaError::InvoiceNotFound);
            },
        };
        let config = match storage.get_config() {
            Some(config) => config,
            None => {
                return Err(AdelantaError::NotInitialized);
            },
        };
        if caller != invoice.sme && caller != config.admin {
            return Err(AdelantaError::Unauthorized);
        }
        if invoice.status != InvoiceStatus::Created {
            return Err(AdelantaError::InvoiceAlreadyFunded);
        }
        invoice.status = InvoiceStatus::Cancelled;
        storage.set_invoice(invoice);
        Ok(())
    }

    // ---------- views ----------

    /// The invoice with the given identifier.
    pub fn get_invoice(storage: &Storage, invoice_id: u64) -> (answer: Result<Invoice, AdelantaError>)
        ensures
            answer == match storage@.invoice(invoice_id) {
                Some(invoice) => Ok::<Invoice, AdelantaError>(invoice),
                None => Err(AdelantaError::InvoiceNotFound),
            },
    {
        match storage.get_invoice(invoice_id) {
            Some(invoice) => Ok(invoice),
            None => Err(AdelantaError::InvoiceNotFound),
        }
    }

    /// The reputation of the given originator, if it has created an invoice.
    pub fn get_sme_reputation(storage: &Storage, sme: Address) -> (reputation: Option<SmeReputation>)
        ensures
            reputation == storage@.reputation(sme@),
    {
        storage.get_sme_reputation(&sme)
    }

    /// The configuration.
    pub fn get_config(storage: &Storage) -> (answer: Result<ContractConfig, AdelantaError>)
        ensures
            answer == match storage@.config {
                Some(config) => Ok::<ContractConfig, AdelantaError>(config),
                None => Err(AdelantaError::NotInitialized),
            },
    {
        match storage.get_config() {
            Some(config) => Ok(config),
            None => Err(AdelantaError::NotInitialized),
        }
    }

    /// The counters of the book: the invoices created, the volume funded
    /// and the volume settled.
    pub fn get_stats(storage: &Storage) -> (stats: (u32, i128, i128))
        ensures
            stats == (
                storage@.total_invoices,
                storage@.total_volume_funded,
                storage@.total_volume_settled,
            ),
    {
        (
            storage.get_total_invoices(),
            storage.get_total_volume_funded(),
            storage.get_total_volume_settled(),
        )
    }

    /// The split that a settlement of `settlement_amount` would make: the
    /// funder's part, the originator's part and the treasury's part. The
    /// originator's part is negative where the payment does not cover the
    /// other two; it has to fit the range of `i128`.
    pub fn preview_settlement(storage: &Storage, invoice_id: u64, settlement_amount: i128) -> (answer:
        Result<(i128, i128, i128), AdelantaError>)
        requires
            storage.wf(),
            storage@.preview_settlement(invoice_id, settlement_amount) matches Ok(parts)
                ==> i128::MIN <= parts.1,
        ensures
            match (answer, storage@.preview_settlement(invoice_id, settlement_amount)) {
                (Ok(parts), Ok(split)) => parts.0 == split.0 && parts.1 == split.1 && parts.2
                    == split.2,
                (Err(error), Err(refusal)) => error == refusal,
                _ => false,
            },
    {
        let config = match storage.get_config() {
            Some(config) => config,
            None => {
                return Err(AdelantaError::NotInitialized);
            },
        };
        let invoice = match storage.get_invoice(invoice_id) {
            Some(invoice) => invoice,
            None => {
                return Err(AdelantaError::InvoiceNotFound);
            },
        };
        proof {
            assert(invoice == storage@.invoices[invoice_id - 1]);
        }
        Ok(distribute(&invoice, &config, settlement_amount))
    }

    /// The split that a settlement of `settlement_amount` would make, as
    /// `preview_settlement` gives it, or nothing where the originator's part
    /// would not fit the range of `i128`.
    pub fn checked_preview_settlement(
        storage: &Storage,
        invoice_id: u64,
        settlement_amount: i128,
    ) -> (answer: Option<Result<(i128, i128, i128), AdelantaError>>)
        requires
            storage.wf(),
        ensures
            answer is None <==> (storage@.preview_settlement(invoice_id, settlement_amount)
                matches Ok(parts) && parts.1 < i128::MIN),
            answer matches Some(given) ==> match (
                given,
                storage@.preview_settlement(invoice_id, settlement_amount),
            ) {
                (Ok(parts), Ok(split)) => parts.0 == split.0 && parts.1 == split.1 && parts.2
                    == split.2,
                (Err(error), Err(refusal)) => error == refusal,
                _ => false,
            },
    {
        let config = match storage.get_config() {
            Some(config) => config,
            None => {
                return Some(Err(AdelantaError::NotInitialized));
            },
        };
        let invoice = match storage.get_invoice(invoice_id) {
            Some(invoice) => invoice,
            None => {
                return Some(Err(AdelantaError::InvoiceNotFound));
            },
        };
        proof {
            assert(invoice == storage@.invoices[invoice_id - 1]);
            lemma_distribution_bounds(invoice, config);
        }
        let owed: i128 = share_of(invoice.advance_amount, invoice.fee_bps) + invoice.advance_amount
            + share_of(invoice.amount, config.protocol_fee_bps);
        if settlement_amount < i128::MIN + owed {
            return None;
        }
        Some(Ok(distribute(&invoice, &config, settlement_amount)))
    }

    // ---------- administration ----------

    /// Changes the treasury, the advance fraction and the protocol fee, each
    /// where a new value is given, on behalf of the administrator. Where the
    /// change is refused the book stays as it is.
    pub fn update_config(
        storage: &mut Storage,
        admin: Address,
        new_treasury: Option<Address>,
        new_advance_bps: Option<u32>,
        new_protocol_fee_bps: Option<u32>,
    ) -> (answer: Result<(), AdelantaError>)
        requires
            old(storage).wf(),
        ensures
            (final(storage)@, answer) == old(storage)@.update_config(
                admin,
                new_treasury,
                new_advance_bps,
                new_protocol_fee_bps,
            ),
            final(storage).wf(),
    {
        proof {
            lemma_update_config_wf(
                storage@,
                admin,
                new_treasury,
                new_advance_bps,
                new_protocol_fee_bps,
            );
        }
        let mut config = match storage.get_config() {
            Some(config) => config,
            None => {
                return Err(AdelantaError::NotInitialized);
            },
        };
        if admin != config.admin {
            return Err(AdelantaError::Unauthorized);
        }
        if let Some(treasury) = new_treasury {
            config.treasury = treasury;
        }
        if let Some(advance_bps) = new_advance_bps {
            if advance_bps > 10000 {
                return Err(AdelantaError::InvalidAdvancePercentage);
            }
            config.default_advance_bps = advance_bps;
        }
        if let Some(fee_bps) = new_protocol_fee_bps {
            if fee_bps > 1000 {
                return Err(AdelantaError::InvalidFeePercentage);
            }
            config.protocol_fee_bps = fee_bps;
        }
        storage.set_config(config);
        Ok(())
    }

    // ---------- reputation ----------

    /// Counts one more invoice in the reputation of the originator, which is
    /// started if there is none.
    fn update_sme_reputation_on_create(storage: &mut Storage, sme: &Address)
        requires
            old(storage)@.reputation(sme@) matches Some(reputation) ==> reputation.sme@ == sme@
                && reputation.total_invoices < u32::MAX,
        ensures
            final(storage)@ == (Book {
                reputations: old(storage)@.reputations_after_create(*sme),
                ..old(storage)@
            }),
    {
        let mut reputation = match storage.get_sme_reputation(sme) {
            Some(reputation) => reputation,
            None => SmeReputation::new(sme.clone()),
        };
        reputation.record_created();
        storage.set_sme_reputation(reputation);
    }

    /// Counts the settlement of the invoice in the reputation of its
    /// originator, if it has one.
    fn update_sme_reputation_on_settle(storage: &mut Storage, invoice: &Invoice)
        requires
            0 < invoice.amount <= MAX_INVOICE_AMOUNT,
            invoice.settled_at is Some,
            old(storage)@.reputation(invoice.sme@) matches Some(reputation) ==> reputation.sme@
                == invoice.sme@ && reputation.wf() && reputation.settled_invoices
                < reputation.total_invoices,
        ensures
            final(storage)@ == (Book {
                reputations: old(storage)@.reputations_after_settle(
                    *invoice,
                    invoice.settled_at.unwrap(),
                ),
                ..old(storage)@
            }),
    {
        if let Some(mut reputation) = storage.get_sme_reputation(&invoice.sme) {
            let is_on_time = match invoice.settled_at {
                Some(at) => at <= invoice.due_date,
                None => true,
            };
            reputation.record_settled(invoice.amount, is_on_time);
            storage.set_sme_reputation(reputation);
        }
    }
}

} // verus!
