//! The invoice book as a mathematical value, and each operation as a function
//! from the book before it to the book after it and the answer it gives.

use vstd::prelude::*;
use crate::address::Address;
use crate::errors::AdelantaError;
use crate::settlement::{lender_amount, protocol_fee, sme_amount};
use crate::tally::{tally, Measure};
use crate::types::{
    ContractConfig, FundingEvent, Invoice, InvoiceStatus, SettlementResult, SmeReputation,
    Transfer, TransferFailed, MAX_INVOICE_AMOUNT, MIN_INVOICE_AMOUNT,
};

verus! {

/// Everything that the operations read and write.
pub struct Book {
    /// The configuration, once the book is initialized.
    pub config: Option<ContractConfig>,
    /// The identifier that the next invoice will get.
    pub next_invoice_id: u64,
    /// The invoices in the order of their creation.
    pub invoices: Seq<Invoice>,
    /// The reputation of each originator, by the originator's address.
    pub reputations: Map<Seq<char>, SmeReputation>,
    /// The number of invoices created.
    pub total_invoices: u32,
    /// The sum of the advances paid.
    pub total_volume_funded: i128,
    /// The sum of the settlement payments received.
    pub total_volume_settled: i128,
}

impl Book {
    /// The book in which nothing has been stored.
    pub open spec fn empty() -> Book {
        Book {
            config: None,
            next_invoice_id: 1,
            invoices: Seq::empty(),
            reputations: Map::empty(),
            total_invoices: 0,
            total_volume_funded: 0,
            total_volume_settled: 0,
        }
    }

    /// The invoice with the given identifier, if there is one. Identifiers
    /// start at 1 and follow the order of creation.
    pub open spec fn invoice(self, id: u64) -> Option<Invoice> {
        if 1 <= id <= self.invoices.len() {
            Some(self.invoices[id - 1])
        } else {
            None
        }
    }

    /// The reputation of the given originator, if it has one.
    pub open spec fn reputation(self, sme: Seq<char>) -> Option<SmeReputation> {
        if self.reputations.contains_key(sme) {
            Some(self.reputations[sme])
        } else {
            None
        }
    }

    /// What holds of the book after any sequence of operations.
    ///
    /// The configuration is valid, and without one there are no invoices.
    /// The invoices are valid and carry the identifiers 1, 2, 3 and so on;
    /// the two counters of invoices agree with their number. Every originator
    /// of an invoice has a reputation, and every reputation is valid, is
    /// stored under its own address, and counts exactly the invoices of that
    /// originator: those created, those settled, and the face amounts of the
    /// settled ones. The funded volume is the sum of the advances of the
    /// invoices that were funded, and the settled volume is no less than the
    /// face amounts of the settled invoices.
    pub open spec fn wf(self) -> bool {
        &&& self.config matches Some(config) ==> config.wf()
        &&& self.config is None ==> self.invoices.len() == 0
        &&& self.invoices.len() == self.total_invoices
        &&& self.next_invoice_id == self.invoices.len() + 1
        &&& forall|i: int|
            0 <= i < self.invoices.len() ==> {
                &&& (#[trigger] self.invoices[i]).id == i + 1
                &&& self.invoices[i].wf()
                &&& self.reputations.contains_key(self.invoices[i].sme@)
            }
        &&& forall|sme: Seq<char>| #[trigger]
            self.reputations.contains_key(sme) ==> self.counts(sme, self.reputations[sme])
        &&& self.total_volume_funded == tally(self.invoices, Measure::FundedVolume)
        &&& self.total_volume_settled >= tally(self.invoices, Measure::SettledFace)
    }

    /// Whether a reputation is the valid record of the given originator and
    /// counts the invoices of the book.
    pub open spec fn counts(self, sme: Seq<char>, reputation: SmeReputation) -> bool {
        &&& reputation.sme@ == sme
        &&& reputation.wf()
        &&& reputation.total_invoices == tally(self.invoices, Measure::CreatedBy(sme))
        &&& reputation.settled_invoices == tally(self.invoices, Measure::SettledBy(sme))
        &&& reputation.total_volume == tally(self.invoices, Measure::SettledVolumeOf(sme))
    }

    /// Whether the invoice `after` is what an operation may have made of
    /// the invoice `before`: what was fixed at its creation is the same, its
    /// state is the same or one step further, and the funder and the times
    /// of funding and settlement are the same once they are set.
    pub open spec fn follows(before: Invoice, after: Invoice) -> bool {
        &&& after.id == before.id
        &&& after.sme == before.sme
        &&& after.payer_id == before.payer_id
        &&& after.amount == before.amount
        &&& after.advance_amount == before.advance_amount
        &&& after.fee_bps == before.fee_bps
        &&& after.created_at == before.created_at
        &&& after.due_date == before.due_date
        &&& after.country == before.country
        &&& after.industry == before.industry
        &&& before.status.may_become(after.status)
        &&& before.status.terminal() ==> after == before
        &&& before.lender is Some ==> after.lender == before.lender
        &&& before.funded_at is Some ==> after.funded_at == before.funded_at
        &&& before.settled_at is Some ==> after.settled_at == before.settled_at
    }

    /// Whether the book `later` holds what `earlier` held: no counter is
    /// lower, the configuration is still there, the invoice `kept` is still
    /// there and follows what it was, and the reputation of `sme` is still
    /// there and counts no less.
    pub open spec fn extends(earlier: Book, later: Book, kept: u64, sme: Seq<char>) -> bool {
        &&& earlier.total_invoices <= later.total_invoices
        &&& earlier.next_invoice_id <= later.next_invoice_id
        &&& earlier.total_volume_funded <= later.total_volume_funded
        &&& earlier.total_volume_settled <= later.total_volume_settled
        &&& earlier.invoices.len() <= later.invoices.len()
        &&& earlier.config is Some ==> later.config is Some
        &&& earlier.invoice(kept) matches Some(before) ==> later.invoice(kept) matches Some(after)
            && Book::follows(before, after)
        &&& earlier.reputation(sme) matches Some(before) ==> later.reputation(sme) matches Some(
            after,
        ) && before.total_invoices <= after.total_invoices && before.settled_invoices
            <= after.settled_invoices && before.total_volume <= after.total_volume

    }

    /// The configuration that initialization stores.
    pub open spec fn initial_config(
        admin: Address,
        usdc_token: Address,
        treasury: Address,
        default_advance_bps: u32,
        protocol_fee_bps: u32,
    ) -> ContractConfig {
        ContractConfig {
            admin,
            usdc_token,
            treasury,
            default_advance_bps,
            protocol_fee_bps,
            min_invoice_amount: MIN_INVOICE_AMOUNT,
            max_invoice_amount: MAX_INVOICE_AMOUNT,
        }
    }

    /// Initialization: refused where a configuration is stored or a fraction
    /// is out of range; else the configuration is stored and the identifiers
    /// start at 1.
    pub open spec fn initialize(
        self,
        admin: Address,
        usdc_token: Address,
        treasury: Address,
        default_advance_bps: u32,
        protocol_fee_bps: u32,
    ) -> (Book, Result<(), AdelantaError>) {
        if self.config is Some {
            (self, Err(AdelantaError::AlreadyInitialized))
        } else if default_advance_bps > 10000 {
            (self, Err(AdelantaError::InvalidAdvancePercentage))
        } else if protocol_fee_bps > 1000 {
            (self, Err(AdelantaError::InvalidFeePercentage))
        } else {
            (
                Book {
                    config: Some(
                        Book::initial_config(
                            admin,
                            usdc_token,
                            treasury,
                            default_advance_bps,
                            protocol_fee_bps,
                        ),
                    ),
                    next_invoice_id: 1,
                    ..self
                },
                Ok(()),
            )
        }
    }

    /// A change of the configuration: refused without a configuration, from
    /// anyone but the administrator, and where a new fraction is out of
    /// range; else each field that is given replaces the stored one.
    pub open spec fn update_config(
        self,
        admin: Address,
        new_treasury: Option<Address>,
        new_advance_bps: Option<u32>,
        new_protocol_fee_bps: Option<u32>,
    ) -> (Book, Result<(), AdelantaError>) {
        match self.config {
            None => (self, Err(AdelantaError::NotInitialized)),
            Some(config) => if admin@ != config.admin@ {
                (self, Err(AdelantaError::Unauthorized))
            } else if new_advance_bps matches Some(bps) && bps > 10000 {
                (self, Err(AdelantaError::InvalidAdvancePercentage))
            } else if new_protocol_fee_bps matches Some(bps) && bps > 1000 {
                (self, Err(AdelantaError::InvalidFeePercentage))
            } else {
                (
                    Book {
                        config: Some(
                            ContractConfig {
                                treasury: match new_treasury {
                                    Some(treasury) => treasury,
                                    None => config.treasury,
                                },
                                default_advance_bps: match new_advance_bps {
                                    Some(bps) => bps,
                                    None => config.default_advance_bps,
                                },
                                protocol_fee_bps: match new_protocol_fee_bps {
                                    Some(bps) => bps,
                                    None => config.protocol_fee_bps,
                                },
                                ..config
                            },
                        ),
                        ..self
                    },
                    Ok(()),
                )
            },
        }
    }

    /// The invoice that a creation stores.
    pub open spec fn new_invoice(
        self,
        config: ContractConfig,
        sme: Address,
        payer_id: String,
        amount: i128,
        due_date: u64,
        country: String,
        industry: String,
        fee_bps: u32,
        now: u64,
    ) -> Invoice {
        Invoice {
            id: self.next_invoice_id,
            sme,
            payer_id,
            amount,
            advance_amount: (amount * config.default_advance_bps / 10000) as i128,
            fee_bps,
            lender: None,
            status: InvoiceStatus::Created,
            created_at: now,
            funded_at: None,
            settled_at: None,
            due_date,
            country,
            industry,
        }
    }

    /// The reputations after the given originator created one more invoice:
    /// its record is started if there is none, and counts one more.
    pub open spec fn reputations_after_create(self, sme: Address) -> Map<Seq<char>, SmeReputation> {
        let reputation = match self.reputation(sme@) {
            Some(reputation) => reputation,
            None => SmeReputation::fresh(sme),
        };
        self.reputations.insert(sme@, reputation.with_created())
    }

    /// The creation of an invoice: refused without a configuration, for an
    /// amount that is not positive or outside the configured bounds, and for
    /// a fee above 1000 basis points; else the invoice is appended under the
    /// next identifier, which is the answer, and counted in the book and in
    /// the originator's reputation.
    pub open spec fn create_invoice(
        self,
        sme: Address,
        payer_id: String,
        amount: i128,
        due_date: u64,
        country: String,
        industry: String,
        fee_bps: u32,
        now: u64,
    ) -> (Book, Result<u64, AdelantaError>) {
        match self.config {
            None => (self, Err(AdelantaError::NotInitialized)),
            Some(config) => if amount <= 0 || amount < config.min_invoice_amount || amount
                > config.max_invoice_amount {
                (self, Err(AdelantaError::InvalidAmount))
            } else if fee_bps > 1000 {
                (self, Err(AdelantaError::InvalidFeePercentage))
            } else {
                (
                    Book {
                        next_invoice_id: (self.next_invoice_id + 1) as u64,
                        invoices: self.invoices.push(
                            self.new_invoice(
                                config,
                                sme,
                                payer_id,
                                amount,
                                due_date,
                                country,
                                industry,
                                fee_bps,
                                now,
                            ),
                        ),
                        reputations: self.reputations_after_create(sme),
                        total_invoices: (self.total_invoices + 1) as u32,
                        ..self
                    },
                    Ok(self.next_invoice_id),
                )
            },
        }
    }

    /// The invoice that a funding would act on: refused without a
    /// configuration, for an unknown invoice, for one that has left the
    /// `Created` state, and after the due date.
    pub open spec fn fundable(self, invoice_id: u64, now: u64) -> Result<Invoice, AdelantaError> {
        if self.config is None {
            Err(AdelantaError::NotInitialized)
        } else {
            match self.invoice(invoice_id) {
                None => Err(AdelantaError::InvoiceNotFound),
                Some(invoice) => if invoice.status != InvoiceStatus::Created {
                    Err(AdelantaError::InvoiceAlreadyFunded)
                } else if now > invoice.due_date {
                    Err(AdelantaError::InvoiceExpired)
                } else {
                    Ok(invoice)
                },
            }
        }
    }

    /// The transfer that funds an invoice: the advance, from the funder to
    /// the originator.
    pub open spec fn funding_transfer(self, lender: Address, invoice_id: u64, now: u64) -> Result<
        Transfer,
        AdelantaError,
    > {
        match self.fundable(invoice_id, now) {
            Err(error) => Err(error),
            Ok(invoice) => Ok(
                Transfer { from: lender, to: invoice.sme, amount: invoice.advance_amount },
            ),
        }
    }

    /// The funding of an invoice, given what the ledger answered to the
    /// funding transfer: refused as that transfer is, and where the ledger
    /// failed; else the invoice is `Funded` by the funder at the given time
    /// and its advance is added to the funded volume.
    pub open spec fn fund_invoice(
        self,
        lender: Address,
        invoice_id: u64,
        now: u64,
        ledger: Result<(), TransferFailed>,
    ) -> (Book, Result<FundingEvent, AdelantaError>) {
        match self.fundable(invoice_id, now) {
            Err(error) => (self, Err(error)),
            Ok(invoice) => if ledger is Err {
                (self, Err(AdelantaError::TransferFailed))
            } else {
                (
                    Book {
                        invoices: self.invoices.update(
                            invoice_id - 1,
                            Invoice {
                                status: InvoiceStatus::Funded,
                                lender: Some(lender),
                                funded_at: Some(now),
                                ..invoice
                            },
                        ),
                        total_volume_funded: (self.total_volume_funded
                            + invoice.advance_amount) as i128,
                        ..self
                    },
                    Ok(
                        FundingEvent {
                            invoice_id,
                            lender,
                            amount: invoice.advance_amount,
                            timestamp: now,
                        },
                    ),
                )
            },
        }
    }

    /// The configuration and the invoice that a settlement would act on,
    /// and the funder to pay: refused without a configuration, from anyone
    /// but the administrator, for an unknown invoice, for a settled one, for
    /// one that is not funded, and for a payment below the face amount.
    pub open spec fn settleable(self, caller: Address, invoice_id: u64, settlement_amount: i128) -> Result<
        (ContractConfig, Invoice, Address),
        AdelantaError,
    > {
        match self.config {
            None => Err(AdelantaError::NotInitialized),
            Some(config) => if caller@ != config.admin@ {
                Err(AdelantaError::Unauthorized)
            } else {
                match self.invoice(invoice_id) {
                    None => Err(AdelantaError::InvoiceNotFound),
                    Some(invoice) => if invoice.status == InvoiceStatus::Settled {
                        Err(AdelantaError::InvoiceAlreadySettled)
                    } else if invoice.status != InvoiceStatus::Funded {
                        Err(AdelantaError::InvoiceNotFunded)
                    } else if settlement_amount < invoice.amount {
                        Err(AdelantaError::InsufficientSettlement)
                    } else {
                        match invoice.lender {
                            None => Err(AdelantaError::InvoiceNotFunded),
                            Some(lender) => Ok((config, invoice, lender)),
                        }
                    },
                }
            },
        }
    }

    /// The transfers that pay out a settlement, in the order in which they
    /// are made: to the funder; to the originator, if anything is left for
    /// it; to the treasury, if there is a protocol fee.
    pub open spec fn payout(
        caller: Address,
        config: ContractConfig,
        invoice: Invoice,
        lender: Address,
        settlement_amount: i128,
    ) -> Seq<Transfer> {
        let to_lender = seq![
            Transfer { from: caller, to: lender, amount: lender_amount(invoice) as i128 },
        ];
        let to_sme = if sme_amount(invoice, config, settlement_amount) > 0 {
            seq![
                Transfer {
                    from: caller,
                    to: invoice.sme,
                    amount: sme_amount(invoice, config, settlement_amount) as i128,
                },
            ]
        } else {
            Seq::empty()
        };
        let to_treasury = if protocol_fee(invoice, config) > 0 {
            seq![
                Transfer {
                    from: caller,
                    to: config.treasury,
                    amount: protocol_fee(invoice, config) as i128,
                },
            ]
        } else {
            Seq::empty()
        };
        to_lender + to_sme + to_treasury
    }

    /// The transfers that settle an invoice, all from the caller.
    pub open spec fn settlement_transfers(
        self,
        caller: Address,
        invoice_id: u64,
        settlement_amount: i128,
    ) -> Result<Seq<Transfer>, AdelantaError> {
        match self.settleable(caller, invoice_id, settlement_amount) {
            Err(error) => Err(error),
            Ok((config, invoice, lender)) => Ok(
                Book::payout(caller, config, invoice, lender, settlement_amount),
            ),
        }
    }

    /// The reputations after the given invoice was settled at the given
    /// time: the record of its originator counts the settlement, on time if
    /// it came by the due date.
    pub open spec fn reputations_after_settle(self, invoice: Invoice, now: u64) -> Map<
        Seq<char>,
        SmeReputation,
    > {
        match self.reputation(invoice.sme@) {
            Some(reputation) => self.reputations.insert(
                invoice.sme@,
                reputation.with_settled(invoice.amount, now <= invoice.due_date),
            ),
            None => self.reputations,
        }
    }

    /// The settlement of an invoice, given what the ledger answered to the
    /// settlement transfers: refused as those transfers are, and where the
    /// ledger failed; else the invoice is `Settled` at the given time, the
    /// payment is added to the settled volume, the originator's reputation
    /// counts the settlement, and the answer is the split.
    pub open spec fn settle_invoice(
        self,
        caller: Address,
        invoice_id: u64,
        settlement_amount: i128,
        now: u64,
        ledger: Result<(), TransferFailed>,
    ) -> (Book, Result<SettlementResult, AdelantaError>) {
        match self.settleable(caller, invoice_id, settlement_amount) {
            Err(error) => (self, Err(error)),
            Ok((config, invoice, lender)) => if ledger is Err {
                (self, Err(AdelantaError::TransferFailed))
            } else {
                (
                    Book {
                        invoices: self.invoices.update(
                            invoice_id - 1,
                            Invoice {
                                status: InvoiceStatus::Settled,
                                settled_at: Some(now),
                                ..invoice
                            },
                        ),
                        reputations: self.reputations_after_settle(invoice, now),
                        total_volume_settled: (self.total_volume_settled
                            + settlement_amount) as i128,
                        ..self
                    },
                    Ok(
                        SettlementResult {
                            invoice_id,
                            lender_amount: lender_amount(invoice) as i128,
                            sme_amount: sme_amount(invoice, config, settlement_amount) as i128,
                            protocol_fee: protocol_fee(invoice, config) as i128,
                            timestamp: now,
                        },
                    ),
                )
            },
        }
    }

    /// The cancellation of an invoice: refused for an unknown invoice,
    /// without a configuration, from anyone but the originator and the
    /// administrator, and for an invoice that has left the `Created` state;
    /// else the invoice is `Cancelled`.
    pub open spec fn cancel_invoice(self, caller: Address, invoice_id: u64) -> (Book, Result<(), AdelantaError>) {
        match self.invoice(invoice_id) {
            None => (self, Err(AdelantaError::InvoiceNotFound)),
            Some(invoice) => match self.config {
                None => (self, Err(AdelantaError::NotInitialized)),
                Some(config) => if caller@ != invoice.sme@ && caller@ != config.admin@ {
                    (self, Err(AdelantaError::Unauthorized))
                } else if invoice.status != InvoiceStatus::Created {
                    (self, Err(AdelantaError::InvoiceAlreadyFunded))
                } else {
                    (
                        Book {
                            invoices: self.invoices.update(
                                invoice_id - 1,
                                Invoice { status: InvoiceStatus::Cancelled, ..invoice },
                            ),
                            ..self
                        },
                        Ok(()),
                    )
                },
            },
        }
    }

    /// The split that a settlement of the given amount would make: the
    /// funder's part, the originator's part and the treasury's part. Refused
    /// without a configuration and for an unknown invoice, and for nothing
    /// else: neither the caller nor the state of the invoice nor the size of
    /// the payment is looked at.
    pub open spec fn preview_settlement(self, invoice_id: u64, settlement_amount: i128) -> Result<
        (int, int, int),
        AdelantaError,
    > {
        match self.config {
            None => Err(AdelantaError::NotInitialized),
            Some(config) => match self.invoice(invoice_id) {
                None => Err(AdelantaError::InvoiceNotFound),
                Some(invoice) => Ok(
                    (
                        lender_amount(invoice),
                        sme_amount(invoice, config, settlement_amount),
                        protocol_fee(invoice, config),
                    ),
                ),
            },
        }
    }
}

} // verus!
