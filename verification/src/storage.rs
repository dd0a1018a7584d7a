//! The store that holds the invoice book: the configuration, the invoices,
//! the reputations and the counters, each read and written on its own.

use vstd::prelude::*;
use crate::address::Address;
use crate::book::Book;
use crate::tally::{lemma_tally_push, tally, Measure};
use crate::types::{ContractConfig, Invoice, InvoiceStatus, SmeReputation, MAX_INVOICE_AMOUNT};

verus! {

/// The reputations of a list as a map from the originator's address. Where
/// two entries have the same address, the later one counts.
pub open spec fn reputations_of(entries: Seq<SmeReputation>) -> Map<Seq<char>, SmeReputation>
    decreases entries.len(),
{
    if entries.len() == 0 {
        Map::empty()
    } else {
        reputations_of(entries.drop_last()).insert(entries.last().sme@, entries.last())
    }
}

/// Whether the entry at `at` is the last of the list with the given address.
pub open spec fn is_last_entry_of(entries: Seq<SmeReputation>, sme: Seq<char>, at: int) -> bool {
    &&& 0 <= at < entries.len()
    &&& entries[at].sme@ == sme
    &&& forall|j: int| at < j < entries.len() ==> (#[trigger] entries[j]).sme@ != sme
}

/// The map holds, for an address, the last entry of the list with it.
pub proof fn lemma_reputations_of_found(entries: Seq<SmeReputation>, sme: Seq<char>, at: int)
    requires
        is_last_entry_of(entries, sme, at),
    ensures
        reputations_of(entries).contains_key(sme),
        reputations_of(entries)[sme] == entries[at],
    decreases entries.len(),
{
    if at < entries.len() - 1 {
        let rest = entries.drop_last();
        assert(entries.last() == entries[entries.len() - 1]);
        assert forall|j: int| at < j < rest.len() implies (#[trigger] rest[j]).sme@ != sme by {
            assert(rest[j] == entries[j]);
        }
        lemma_reputations_of_found(rest, sme, at);
    }
}

/// The map holds nothing for an address that no entry of the list has.
pub proof fn lemma_reputations_of_absent(entries: Seq<SmeReputation>, sme: Seq<char>)
    requires
        forall|j: int| 0 <= j < entries.len() ==> (#[trigger] entries[j]).sme@ != sme,
    ensures
        !reputations_of(entries).contains_key(sme),
    decreases entries.len(),
{
    if entries.len() > 0 {
        let rest = entries.drop_last();
        assert(entries.last() == entries[entries.len() - 1]);
        assert forall|j: int| 0 <= j < rest.len() implies (#[trigger] rest[j]).sme@ != sme by {
            assert(rest[j] == entries[j]);
        }
        lemma_reputations_of_absent(rest, sme);
    }
}

/// Every address of the map is the address of some entry of the list.
pub proof fn lemma_reputations_of_key(entries: Seq<SmeReputation>, sme: Seq<char>)
    requires
        reputations_of(entries).contains_key(sme),
    ensures
        exists|at: int| is_last_entry_of(entries, sme, at),
    decreases entries.len(),
{
    if entries.len() > 0 {
        let rest = entries.drop_last();
        if entries.last().sme@ == sme {
            assert(is_last_entry_of(entries, sme, entries.len() - 1));
        } else {
            lemma_reputations_of_key(rest, sme);
            let at = choose|at: int| is_last_entry_of(rest, sme, at);
            assert forall|j: int| at < j < entries.len() implies (#[trigger] entries[j]).sme@
                != sme by {
                if j < rest.len() {
                    assert(rest[j] == entries[j]);
                }
            }
            assert(rest[at] == entries[at]);
            assert(is_last_entry_of(entries, sme, at));
        }
    }
}

/// Replacing the last entry with an address by another with that address
/// replaces what the map holds for it, and nothing else.
pub proof fn lemma_reputations_of_replaced(
    entries: Seq<SmeReputation>,
    at: int,
    reputation: SmeReputation,
)
    requires
        is_last_entry_of(entries, reputation.sme@, at),
    ensures
        reputations_of(entries.update(at, reputation)) == reputations_of(entries).insert(
            reputation.sme@,
            reputation,
        ),
    decreases entries.len(),
{
    let sme = reputation.sme@;
    let updated = entries.update(at, reputation);
    let rest = entries.drop_last();
    if at == entries.len() - 1 {
        assert(updated.drop_last() =~= rest);
        assert(reputations_of(updated) =~= reputations_of(entries).insert(sme, reputation));
    } else {
        assert(entries.last() == entries[entries.len() - 1]);
        assert(updated.drop_last() =~= rest.update(at, reputation));
        assert forall|j: int| at < j < rest.len() implies (#[trigger] rest[j]).sme@ != sme by {
            assert(rest[j] == entries[j]);
        }
        lemma_reputations_of_replaced(rest, at, reputation);
        assert(reputations_of(updated) =~= reputations_of(entries).insert(sme, reputation));
    }
}

/// The store of the invoice book.
///
/// The operations on the book go through the functions here that read and
/// write one record each. A function that writes a record writes nothing
/// else: it is the operation that calls it which writes the records that
/// belong together. A store that was written record by record from
/// elsewhere is checked with `is_consistent` before an operation is called
/// on it, or made with `restore`.
pub struct Storage {
    config: Option<ContractConfig>,
    next_invoice_id: u64,
    invoices: Vec<Invoice>,
    reputations: Vec<SmeReputation>,
    total_invoices: u32,
    total_volume_funded: i128,
    total_volume_settled: i128,
}

impl View for Storage {
    type V = Book;

    closed spec fn view(&self) -> Book {
        Book {
            config: self.config,
            next_invoice_id: self.next_invoice_id,
            invoices: self.invoices@,
            reputations: reputations_of(self.reputations@),
            total_invoices: self.total_invoices,
            total_volume_funded: self.total_volume_funded,
            total_volume_settled: self.total_volume_settled,
        }
    }
}

impl Storage {
    /// Whether the book in this store is one that the operations keep.
    pub open spec fn wf(&self) -> bool {
        self@.wf()
    }

    /// The store of the empty book.
    pub fn new() -> (storage: Storage)
        ensures
            storage@ == Book::empty(),
            storage.wf(),
    {
        let storage = Storage {
            config: None,
            next_invoice_id: 1,
            invoices: Vec::new(),
            reputations: Vec::new(),
            total_invoices: 0,
            total_volume_funded: 0,
            total_volume_settled: 0,
        };
        proof {
            assert(storage@.reputations =~= Map::empty());
            assert(storage@.invoices =~= Seq::empty());
        }
        storage
    }

    /// The store of the book that is made of the given records, where that
    /// book is one that the operations keep; nothing where it is not. The
    /// reputations are given as a list; of two with the same address the
    /// later one counts.
    pub fn restore(
        config: Option<ContractConfig>,
        next_invoice_id: u64,
        invoices: Vec<Invoice>,
        reputations: Vec<SmeReputation>,
        total_invoices: u32,
        total_volume_funded: i128,
        total_volume_settled: i128,
    ) -> (restored: Option<Storage>)
        ensures
            restored is Some <==> (Book {
                config,
                next_invoice_id,
                invoices: invoices@,
                reputations: reputations_of(reputations@),
                total_invoices,
                total_volume_funded,
                total_volume_settled,
            }).wf(),
            restored matches Some(storage) ==> storage.wf() && storage@ == (Book {
                config,
                next_invoice_id,
                invoices: invoices@,
                reputations: reputations_of(reputations@),
                total_invoices,
                total_volume_funded,
                total_volume_settled,
            }),
    {
        let storage = Storage {
            config,
            next_invoice_id,
            invoices,
            reputations,
            total_invoices,
            total_volume_funded,
            total_volume_settled,
        };
        if storage.is_consistent() {
            Some(storage)
        } else {
            None
        }
    }

    // ---------- configuration ----------

    /// The stored configuration.
    pub fn get_config(&self) -> (config: Option<ContractConfig>)
        ensures
            config == self@.config,
    {
        match &self.config {
            Some(config) => Some(config.clone()),
            None => None,
        }
    }

    /// Stores the configuration in place of any earlier one.
    pub fn set_config(&mut self, config: ContractConfig)
        ensures
            final(self)@ == (Book { config: Some(config), ..old(self)@ }),
    {
        self.config = Some(config);
    }

    /// Whether a configuration is stored.
    pub fn has_config(&self) -> (present: bool)
        ensures
            present == self@.config is Some,
    {
        self.config.is_some()
    }

    // ---------- invoices ----------

    /// The invoice with the given identifier.
    pub fn get_invoice(&self, id: u64) -> (invoice: Option<Invoice>)
        ensures
            invoice == self@.invoice(id),
    {
        if id >= 1 && id - 1 < self.invoices.len() as u64 {
            Some(self.invoices[(id - 1) as usize].clone())
        } else {
            None
        }
    }

    /// Stores the invoice under its identifier: in place of the invoice that
    /// has this identifier, or after the last one where it carries the next
    /// identifier that is free.
    pub fn set_invoice(&mut self, invoice: Invoice)
        requires
            1 <= invoice.id <= old(self)@.invoices.len() + 1,
        ensures
            final(self)@ == (Book {
                invoices: if invoice.id <= old(self)@.invoices.len() {
                    old(self)@.invoices.update(invoice.id - 1, invoice)
                } else {
                    old(self)@.invoices.push(invoice)
                },
                ..old(self)@
            }),
    {
        if invoice.id - 1 < self.invoices.len() as u64 {
            let at: usize = (invoice.id - 1) as usize;
            self.invoices.set(at, invoice);
        } else {
            self.invoices.push(invoice);
        }
    }

    /// Whether an invoice has the given identifier.
    pub fn has_invoice(&self, id: u64) -> (present: bool)
        ensures
            present == self@.invoice(id) is Some,
    {
        id >= 1 && id - 1 < self.invoices.len() as u64
    }

    /// The identifier that the next invoice will get.
    pub fn get_next_invoice_id(&self) -> (id: u64)
        ensures
            id == self@.next_invoice_id,
    {
        self.next_invoice_id
    }

    /// Sets the identifier that the next invoice will get.
    pub fn set_next_invoice_id(&mut self, id: u64)
        ensures
            final(self)@ == (Book { next_invoice_id: id, ..old(self)@ }),
    {
        self.next_invoice_id = id;
    }

    // ---------- reputations ----------

    /// Where the last entry with the given address stands in the list.
    fn find_reputation(&self, sme: &Address) -> (found: Option<usize>)
        ensures
            match found {
                Some(at) => is_last_entry_of(self.reputations@, sme@, at as int),
                None => forall|j: int|
                    0 <= j < self.reputations@.len() ==> (#[trigger] self.reputations@[j]).sme@
                        != sme@,
            },
    {
        let mut at: usize = self.reputations.len();
        while at > 0
            invariant
                at <= self.reputations@.len(),
                forall|j: int|
                    at <= j < self.reputations@.len() ==> (#[trigger] self.reputations@[j]).sme@
                        != sme@,
            decreases at,
        {
            at = at - 1;
            if self.reputations[at].sme == *sme {
                return Some(at);
            }
        }
        None
    }

    /// The reputation of the given originator.
    pub fn get_sme_reputation(&self, sme: &Address) -> (reputation: Option<SmeReputation>)
        ensures
            reputation == self@.reputation(sme@),
    {
        match self.find_reputation(sme) {
            Some(at) => {
                proof {
                    lemma_reputations_of_found(self.reputations@, sme@, at as int);
                }
                Some(self.reputations[at].clone())
            },
            None => {
                proof {
                    lemma_reputations_of_absent(self.reputations@, sme@);
                }
                None
            },
        }
    }

    /// Stores the reputation under the address of its originator, in place
    /// of any earlier one.
    pub fn set_sme_reputation(&mut self, reputation: SmeReputation)
        ensures
            final(self)@ == (Book {
                reputations: old(self)@.reputations.insert(reputation.sme@, reputation),
                ..old(self)@
            }),
    {
        match self.find_reputation(&reputation.sme) {
            Some(at) => {
                proof {
                    lemma_reputations_of_replaced(self.reputations@, at as int, reputation);
                }
                self.reputations.set(at, reputation);
            },
            None => {
                proof {
                    assert(self.reputations@.push(reputation).drop_last() =~= self.reputations@);
                }
                self.reputations.push(reputation);
            },
        }
    }

    // ---------- counters ----------

    /// The number of invoices created.
    pub fn get_total_invoices(&self) -> (total: u32)
        ensures
            total == self@.total_invoices,
    {
        self.total_invoices
    }

    /// Counts one more invoice created.
    pub fn increment_total_invoices(&mut self)
        requires
            old(self)@.total_invoices < u32::MAX,
        ensures
            final(self)@ == (Book {
                total_invoices: (old(self)@.total_invoices + 1) as u32,
                ..old(self)@
            }),
    {
        self.total_invoices = self.total_invoices + 1;
    }

    /// The sum of the advances paid.
    pub fn get_total_volume_funded(&self) -> (volume: i128)
        ensures
            volume == self@.total_volume_funded,
    {
        self.total_volume_funded
    }

    /// Adds an advance to the funded volume.
    pub fn add_volume_funded(&mut self, amount: i128)
        requires
            i128::MIN <= old(self)@.total_volume_funded + amount <= i128::MAX,
        ensures
            final(self)@ == (Book {
                total_volume_funded: (old(self)@.total_volume_funded + amount) as i128,
                ..old(self)@
            }),
    {
        self.total_volume_funded = self.total_volume_funded + amount;
    }

    /// The sum of the settlement payments received.
    pub fn get_total_volume_settled(&self) -> (volume: i128)
        ensures
            volume == self@.total_volume_settled,
    {
        self.total_volume_settled
    }

    /// Adds a settlement payment to the settled volume.
    pub fn add_volume_settled(&mut self, amount: i128)
        requires
            i128::MIN <= old(self)@.total_volume_settled + amount <= i128::MAX,
        ensures
            final(self)@ == (Book {
                total_volume_settled: (old(self)@.total_volume_settled + amount) as i128,
                ..old(self)@
            }),
    {
        self.total_volume_settled = self.total_volume_settled + amount;
    }

    // ---------- consistency ----------

    /// Whether the invoices are valid, carry the identifiers 1, 2, 3 and so
    /// on, and each have an originator with a reputation.
    fn invoices_in_order(&self) -> (ok: bool)
        ensures
            ok == (forall|i: int|
                0 <= i < self@.invoices.len() ==> {
                    &&& (#[trigger] self@.invoices[i]).id == i + 1
                    &&& self@.invoices[i].wf()
                    &&& self@.reputations.contains_key(self@.invoices[i].sme@)
                }),
    {
        let mut i: usize = 0;
        while i < self.invoices.len()
            invariant
                i <= self.invoices@.len(),
                forall|j: int|
                    0 <= j < i ==> {
                        &&& (#[trigger] self@.invoices[j]).id == j + 1
                        &&& self@.invoices[j].wf()
                        &&& self@.reputations.contains_key(self@.invoices[j].sme@)
                    },
            decreases self.invoices@.len() - i,
        {
            let invoice = &self.invoices[i];
            let known = match self.find_reputation(&invoice.sme) {
                Some(at) => {
                    proof {
                        lemma_reputations_of_found(self.reputations@, invoice.sme@, at as int);
                    }
                    true
                },
                None => {
                    proof {
                        lemma_reputations_of_absent(self.reputations@, invoice.sme@);
                    }
                    false
                },
            };
            if invoice.id != i as u64 + 1 || !invoice.is_valid() || !known {
                proof {
                    assert(self@.invoices[i as int] == *invoice);
                }
                return false;
            }
            i = i + 1;
        }
        true
    }

    /// How many invoices the given originator has created and settled, and
    /// the face amounts of the settled ones.
    fn tally_for(&self, sme: &Address) -> (sums: (u32, u32, i128))
        requires
            self@.invoices.len() <= u32::MAX,
            forall|i: int| 0 <= i < self@.invoices.len() ==> (#[trigger] self@.invoices[i]).wf(),
        ensures
            sums.0 == tally(self@.invoices, Measure::CreatedBy(sme@)),
            sums.1 == tally(self@.invoices, Measure::SettledBy(sme@)),
            sums.2 == tally(self@.invoices, Measure::SettledVolumeOf(sme@)),
    {
        let mut created: u32 = 0;
        let mut settled: u32 = 0;
        let mut volume: i128 = 0;
        let mut i: usize = 0;
        while i < self.invoices.len()
            invariant
                i <= self.invoices@.len() <= u32::MAX,
                forall|j: int| 0 <= j < self@.invoices.len() ==> (#[trigger] self@.invoices[j]).wf(),
                created == tally(self@.invoices.take(i as int), Measure::CreatedBy(sme@)),
                settled == tally(self@.invoices.take(i as int), Measure::SettledBy(sme@)),
                volume == tally(self@.invoices.take(i as int), Measure::SettledVolumeOf(sme@)),
                created <= i,
                settled <= i,
                0 <= volume <= i * MAX_INVOICE_AMOUNT,
            decreases self.invoices@.len() - i,
        {
            let invoice = &self.invoices[i];
            proof {
                let seen = self@.invoices.take(i as int);
                assert(self@.invoices.take(i + 1) =~= seen.push(*invoice));
                assert(invoice.wf());
                lemma_tally_push(seen, *invoice, Measure::CreatedBy(sme@));
                lemma_tally_push(seen, *invoice, Measure::SettledBy(sme@));
                lemma_tally_push(seen, *invoice, Measure::SettledVolumeOf(sme@));
                assert(i * MAX_INVOICE_AMOUNT + MAX_INVOICE_AMOUNT == (i + 1) * MAX_INVOICE_AMOUNT)
                    by (nonlinear_arith);
                assert((i + 1) * MAX_INVOICE_AMOUNT <= 0x1_0000_0000 * MAX_INVOICE_AMOUNT)
                    by (nonlinear_arith)
                    requires
                        i + 1 <= 0x1_0000_0000,
                ;
            }
            if invoice.sme == *sme {
                created = created + 1;
                if invoice.status == InvoiceStatus::Settled {
                    settled = settled + 1;
                    volume = volume + invoice.amount;
                }
            }
            i = i + 1;
        }
        proof {
            assert(self@.invoices.take(i as int) =~= self@.invoices);
        }
        (created, settled, volume)
    }

    /// The advances of the funded invoices and the face amounts of the
    /// settled ones.
    fn tally_volumes(&self) -> (sums: (i128, i128))
        requires
            self@.invoices.len() <= u32::MAX,
            forall|i: int| 0 <= i < self@.invoices.len() ==> (#[trigger] self@.invoices[i]).wf(),
        ensures
            sums.0 == tally(self@.invoices, Measure::FundedVolume),
            sums.1 == tally(self@.invoices, Measure::SettledFace),
    {
        let mut funded: i128 = 0;
        let mut face: i128 = 0;
        let mut i: usize = 0;
        while i < self.invoices.len()
            invariant
                i <= self.invoices@.len() <= u32::MAX,
                forall|j: int| 0 <= j < self@.invoices.len() ==> (#[trigger] self@.invoices[j]).wf(),
                funded == tally(self@.invoices.take(i as int), Measure::FundedVolume),
                face == tally(self@.invoices.take(i as int), Measure::SettledFace),
                0 <= funded <= i * MAX_INVOICE_AMOUNT,
                0 <= face <= i * MAX_INVOICE_AMOUNT,
            decreases self.invoices@.len() - i,
        {
            let invoice = &self.invoices[i];
            proof {
                let seen = self@.invoices.take(i as int);
                assert(self@.invoices.take(i + 1) =~= seen.push(*invoice));
                assert(invoice.wf());
                lemma_tally_push(seen, *invoice, Measure::FundedVolume);
                lemma_tally_push(seen, *invoice, Measure::SettledFace);
                assert(i * MAX_INVOICE_AMOUNT + MAX_INVOICE_AMOUNT == (i + 1) * MAX_INVOICE_AMOUNT)
                    by (nonlinear_arith);
                assert((i + 1) * MAX_INVOICE_AMOUNT <= 0x1_0000_0000 * MAX_INVOICE_AMOUNT)
                    by (nonlinear_arith)
                    requires
                        i + 1 <= 0x1_0000_0000,
                ;
            }
            match invoice.status {
                InvoiceStatus::Funded => {
                    funded = funded + invoice.advance_amount;
                },
                InvoiceStatus::Settled => {
                    funded = funded + invoice.advance_amount;
                    face = face + invoice.amount;
                },
                _ => {},
            }
            i = i + 1;
        }
        proof {
            assert(self@.invoices.take(i as int) =~= self@.invoices);
        }
        (funded, face)
    }

    /// Whether every reputation is valid, is stored under its own address
    /// and counts the invoices of its originator.
    fn reputations_count(&self) -> (ok: bool)
        requires
            self@.invoices.len() <= u32::MAX,
            forall|i: int| 0 <= i < self@.invoices.len() ==> (#[trigger] self@.invoices[i]).wf(),
        ensures
            ok == (forall|sme: Seq<char>| #[trigger]
                self@.reputations.contains_key(sme) ==> self@.counts(sme, self@.reputations[sme])),
    {
        let mut j: usize = 0;
        while j < self.reputations.len()
            invariant
                j <= self.reputations@.len(),
                self@.invoices.len() <= u32::MAX,
                forall|i: int| 0 <= i < self@.invoices.len() ==> (#[trigger] self@.invoices[i]).wf(),
                forall|k: int|
                    0 <= k < j ==> self@.counts(
                        (#[trigger] self.reputations@[k]).sme@,
                        self@.reputations[self.reputations@[k].sme@],
                    ),
            decreases self.reputations@.len() - j,
        {
            let key = &self.reputations[j].sme;
            match self.find_reputation(key) {
                None => {
                    assert(false);
                    return false;
                },
                Some(at) => {
                    proof {
                        lemma_reputations_of_found(self.reputations@, key@, at as int);
                    }
                    let reputation = &self.reputations[at];
                    let sums = self.tally_for(key);
                    if !reputation.is_valid() || reputation.total_invoices != sums.0
                        || reputation.settled_invoices != sums.1 || reputation.total_volume
                        != sums.2 {
                        proof {
                            assert(!self@.counts(key@, self@.reputations[key@]));
                        }
                        return false;
                    }
                },
            }
            j = j + 1;
        }
        proof {
            assert forall|sme: Seq<char>| #[trigger]
                self@.reputations.contains_key(sme) implies self@.counts(
                sme,
                self@.reputations[sme],
            ) by {
                lemma_reputations_of_key(self.reputations@, sme);
                let at = choose|at: int| is_last_entry_of(self.reputations@, sme, at);
                assert(self.reputations@[at].sme@ == sme);
            }
        }
        true
    }

    /// Whether the book in this store is one that the operations keep. A
    /// store that was filled through the operations always is; one that was
    /// filled record by record is checked with this before an operation is
    /// called on it.
    pub fn is_consistent(&self) -> (ok: bool)
        ensures
            ok == self.wf(),
    {
        let config_ok = match &self.config {
            Some(config) => config.is_valid(),
            None => self.invoices.len() == 0,
        };
        if !config_ok {
            return false;
        }
        if self.invoices.len() as u64 != self.total_invoices as u64 {
            return false;
        }
        if self.next_invoice_id != self.total_invoices as u64 + 1 {
            return false;
        }
        if !self.invoices_in_order() {
            return false;
        }
        if !self.reputations_count() {
            return false;
        }
        let (funded, face) = self.tally_volumes();
        self.total_volume_funded == funded && self.total_volume_settled >= face
    }
}

} // verus!
