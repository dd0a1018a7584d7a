//! Sums over the invoices of the book: how many an originator has created
//! and settled, and the volumes that were funded and settled.

use vstd::prelude::*;
use crate::types::Invoice;

verus! {

/// What is summed over the invoices.
pub enum Measure {
    /// One for each invoice of the originator.
    CreatedBy(Seq<char>),
    /// One for each settled invoice of the originator.
    SettledBy(Seq<char>),
    /// The face amount of each settled invoice of the originator.
    SettledVolumeOf(Seq<char>),
    /// The advance of each invoice that was funded, settled or not.
    FundedVolume,
    /// The face amount of each settled invoice.
    SettledFace,
}

/// What one invoice adds to a sum.
pub open spec fn weight(measure: Measure, invoice: Invoice) -> int {
    match measure {
        Measure::CreatedBy(sme) => if invoice.sme@ == sme {
            1
        } else {
            0
        },
        Measure::SettledBy(sme) => if invoice.sme@ == sme && invoice.status is Settled {
            1
        } else {
            0
        },
        Measure::SettledVolumeOf(sme) => if invoice.sme@ == sme && invoice.status is Settled {
            invoice.amount as int
        } else {
            0
        },
        Measure::FundedVolume => if invoice.status is Funded || invoice.status is Settled {
            invoice.advance_amount as int
        } else {
            0
        },
        Measure::SettledFace => if invoice.status is Settled {
            invoice.amount as int
        } else {
            0
        },
    }
}

/// The sum of what each of the invoices adds.
pub open spec fn tally(invoices: Seq<Invoice>, measure: Measure) -> int
    decreases invoices.len(),
{
    if invoices.len() == 0 {
        0
    } else {
        tally(invoices.drop_last(), measure) + weight(measure, invoices.last())
    }
}

/// One more invoice adds its own weight to the sum.
pub proof fn lemma_tally_push(invoices: Seq<Invoice>, invoice: Invoice, measure: Measure)
    ensures
        tally(invoices.push(invoice), measure) == tally(invoices, measure) + weight(
            measure,
            invoice,
        ),
{
    assert(invoices.push(invoice).drop_last() =~= invoices);
}

/// Replacing an invoice changes the sum by the difference of the weights.
pub proof fn lemma_tally_update(invoices: Seq<Invoice>, at: int, invoice: Invoice, measure: Measure)
    requires
        0 <= at < invoices.len(),
    ensures
        tally(invoices.update(at, invoice), measure) == tally(invoices, measure) - weight(
            measure,
            invoices[at],
        ) + weight(measure, invoice),
    decreases invoices.len(),
{
    let updated = invoices.update(at, invoice);
    if at == invoices.len() - 1 {
        assert(updated.drop_last() =~= invoices.drop_last());
    } else {
        assert(updated.drop_last() =~= invoices.drop_last().update(at, invoice));
        lemma_tally_update(invoices.drop_last(), at, invoice, measure);
    }
}

/// A sum of weights that all lie in a range lies in that range times the
/// number of invoices.
pub proof fn lemma_tally_bounds(invoices: Seq<Invoice>, measure: Measure, low: int, high: int)
    requires
        forall|i: int| 0 <= i < invoices.len() ==> low <= weight(measure, #[trigger] invoices[i]) <= high,
    ensures
        invoices.len() * low <= tally(invoices, measure) <= invoices.len() * high,
    decreases invoices.len(),
{
    if invoices.len() > 0 {
        let rest = invoices.drop_last();
        assert forall|i: int| 0 <= i < rest.len() implies low <= weight(measure, #[trigger] rest[i])
            <= high by {
            assert(rest[i] == invoices[i]);
        }
        lemma_tally_bounds(rest, measure, low, high);
        let n = rest.len() as int;
        assert((n + 1) * low == n * low + low) by (nonlinear_arith);
        assert((n + 1) * high == n * high + high) by (nonlinear_arith);
    }
}

/// Where one measure weighs every invoice no more than another does, its sum
/// is no larger; and it is smaller where some invoice weighs less.
pub proof fn lemma_tally_ordered(invoices: Seq<Invoice>, smaller: Measure, larger: Measure)
    requires
        forall|i: int| 0 <= i < invoices.len() ==> weight(smaller, #[trigger] invoices[i]) <= weight(larger, invoices[i]),
    ensures
        tally(invoices, smaller) <= tally(invoices, larger),
        (exists|i: int| 0 <= i < invoices.len() && weight(smaller, #[trigger] invoices[i]) < weight(larger, invoices[i]))
            ==> tally(invoices, smaller) < tally(invoices, larger),
    decreases invoices.len(),
{
    if invoices.len() > 0 {
        let rest = invoices.drop_last();
        assert forall|i: int| 0 <= i < rest.len() implies weight(smaller, #[trigger] rest[i])
            <= weight(larger, rest[i]) by {
            assert(rest[i] == invoices[i]);
        }
        lemma_tally_ordered(rest, smaller, larger);
        if exists|i: int| 0 <= i < invoices.len() && weight(smaller, #[trigger] invoices[i]) < weight(larger, invoices[i]) {
            let i = choose|i: int| 0 <= i < invoices.len() && weight(smaller, #[trigger] invoices[i]) < weight(larger, invoices[i]);
            if i < rest.len() {
                assert(rest[i] == invoices[i]);
            }
        }
    }
}

} // verus!
