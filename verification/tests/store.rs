use adelanta_invoice::{
    Address, AdelantaError, AdelantaInvoiceContract, ContractConfig, Invoice, InvoiceStatus,
    SmeReputation, Storage,
};

fn addr(key: &str) -> Address {
    Address::from_str(key)
}

fn config() -> ContractConfig {
    ContractConfig {
        admin: addr("admin"),
        usdc_token: addr("usdc"),
        treasury: addr("treasury"),
        default_advance_bps: 9000,
        protocol_fee_bps: 50,
        min_invoice_amount: 50_0000000,
        max_invoice_amount: 100000_0000000,
    }
}

fn created(id: u64, sme: &str, amount: i128) -> Invoice {
    Invoice {
        id,
        sme: addr(sme),
        payer_id: String::from("CORP-001"),
        amount,
        advance_amount: amount / 10 * 9,
        fee_bps: 200,
        lender: None,
        status: InvoiceStatus::Created,
        created_at: 1000,
        funded_at: None,
        settled_at: None,
        due_date: 2000,
        country: String::from("MX"),
        industry: String::from("DESIGN"),
    }
}

fn funded(id: u64, sme: &str, amount: i128) -> Invoice {
    let mut invoice = created(id, sme, amount);
    invoice.status = InvoiceStatus::Funded;
    invoice.lender = Some(addr("lender"));
    invoice.funded_at = Some(1100);
    invoice
}

fn settled(id: u64, sme: &str, amount: i128) -> Invoice {
    let mut invoice = funded(id, sme, amount);
    invoice.status = InvoiceStatus::Settled;
    invoice.settled_at = Some(1500);
    invoice
}

fn reputation(sme: &str, total: u32, settled: u32, volume: i128, rate: u32, risk: u32) -> SmeReputation {
    SmeReputation {
        sme: addr(sme),
        total_invoices: total,
        settled_invoices: settled,
        total_volume: volume,
        avg_settlement_days: 0,
        on_time_rate_bps: rate,
        risk_score: risk,
    }
}

/// A book with three invoices of two originators: one settled, one funded,
/// one created.
fn parts() -> (Vec<Invoice>, Vec<SmeReputation>) {
    (
        vec![settled(1, "a", 1000_0000000), funded(2, "b", 500_0000000), created(3, "a", 100_0000000)],
        vec![reputation("a", 2, 1, 1000_0000000, 10000, 0), reputation("b", 1, 0, 0, 10000, 500)],
    )
}

fn restore(invoices: Vec<Invoice>, reputations: Vec<SmeReputation>) -> Option<Storage> {
    let count = invoices.len() as u32;
    Storage::restore(
        Some(config()),
        count as u64 + 1,
        invoices,
        reputations,
        count,
        900_0000000 + 450_0000000,
        1000_0000000,
    )
}

#[test]
fn new_store_is_empty_and_consistent() {
    let storage = Storage::new();
    assert!(storage.is_consistent());
    assert!(!storage.has_config());
    assert!(storage.get_config().is_none());
    assert_eq!(storage.get_next_invoice_id(), 1);
    assert!(!storage.has_invoice(1));
    assert!(storage.get_invoice(1).is_none());
    assert!(storage.get_sme_reputation(&addr("sme")).is_none());
    assert_eq!(storage.get_total_invoices(), 0);
    assert_eq!(storage.get_total_volume_funded(), 0);
    assert_eq!(storage.get_total_volume_settled(), 0);
}

#[test]
fn operations_keep_the_store_consistent() {
    let mut storage = Storage::new();
    AdelantaInvoiceContract::initialize(&mut storage, addr("admin"), addr("usdc"), addr("treasury"), 9000, 50)
        .unwrap();
    assert!(storage.is_consistent());
    for (sme, amount) in [("a", 1000_0000000), ("b", 500_0000000), ("a", 100_0000000), ("c", 50_0000000)] {
        AdelantaInvoiceContract::create_invoice(
            &mut storage,
            addr(sme),
            String::from("CORP-001"),
            amount,
            2000,
            String::from("MX"),
            String::from("DESIGN"),
            200,
            1000,
        )
        .unwrap();
        assert!(storage.is_consistent());
    }
    AdelantaInvoiceContract::fund_invoice(&mut storage, addr("lender"), 1, 1100, Ok(())).unwrap();
    assert!(storage.is_consistent());
    AdelantaInvoiceContract::fund_invoice(&mut storage, addr("lender"), 2, 1100, Ok(())).unwrap();
    AdelantaInvoiceContract::cancel_invoice(&mut storage, addr("c"), 4).unwrap();
    assert!(storage.is_consistent());
    AdelantaInvoiceContract::settle_invoice(&mut storage, addr("admin"), 1, 1200_0000000, 1500, Ok(())).unwrap();
    assert!(storage.is_consistent());
    AdelantaInvoiceContract::update_config(&mut storage, addr("admin"), Some(addr("vault")), Some(0), Some(0))
        .unwrap();
    assert!(storage.is_consistent());
    // refused operations leave it consistent too
    let _ = AdelantaInvoiceContract::settle_invoice(&mut storage, addr("admin"), 3, 1, 1500, Ok(()));
    let _ = AdelantaInvoiceContract::fund_invoice(&mut storage, addr("lender"), 3, 9999, Ok(()));
    assert!(storage.is_consistent());
    assert_eq!(AdelantaInvoiceContract::get_stats(&storage), (4, 1350_0000000, 1200_0000000));
}

#[test]
fn restore_accepts_a_consistent_book() {
    let (invoices, reputations) = parts();
    let mut storage = restore(invoices, reputations).unwrap();
    assert!(storage.is_consistent());
    assert_eq!(storage.get_next_invoice_id(), 4);
    assert_eq!(AdelantaInvoiceContract::get_stats(&storage), (3, 1350_0000000, 1000_0000000));
    assert_eq!(storage.get_invoice(2).unwrap().status, InvoiceStatus::Funded);
    assert_eq!(storage.get_sme_reputation(&addr("a")).unwrap().total_invoices, 2);
    assert_eq!(storage.get_config().unwrap().treasury, addr("treasury"));

    // the operations go on where the book stood
    let result =
        AdelantaInvoiceContract::settle_invoice(&mut storage, addr("admin"), 2, 500_0000000, 2500, Ok(()))
            .unwrap();
    assert_eq!(result.lender_amount, 450_0000000 + 9_0000000);
    assert_eq!(result.protocol_fee, 2_5000000);
    assert_eq!(result.sme_amount, 500_0000000 - 459_0000000 - 2_5000000);
    let b = storage.get_sme_reputation(&addr("b")).unwrap();
    assert_eq!((b.settled_invoices, b.total_volume, b.on_time_rate_bps, b.risk_score), (1, 500_0000000, 10000, 0));
    assert_eq!(
        AdelantaInvoiceContract::create_invoice(
            &mut storage,
            addr("b"),
            String::from("CORP-003"),
            60_0000000,
            3000,
            String::from("BR"),
            String::from("RETAIL"),
            0,
            2600,
        ),
        Ok(4)
    );
    assert!(storage.is_consistent());
}

#[test]
fn restore_takes_the_later_of_two_reputations() {
    let (invoices, mut reputations) = parts();
    reputations.insert(0, reputation("b", 7, 7, 7, 7, 7));
    let storage = restore(invoices, reputations).unwrap();
    assert_eq!(storage.get_sme_reputation(&addr("b")).unwrap().total_invoices, 1);

    let (invoices, mut reputations) = parts();
    reputations.push(reputation("b", 7, 7, 7, 7, 7));
    assert!(restore(invoices, reputations).is_none());
}

#[test]
fn restore_refuses_an_invalid_configuration() {
    let (invoices, reputations) = parts();
    assert!(Storage::restore(None, 4, invoices, reputations, 3, 1350_0000000, 1000_0000000).is_none());
    assert!(Storage::restore(None, 1, vec![], vec![], 0, 0, 0).is_some());
    assert!(Storage::restore(Some(config()), 1, vec![], vec![], 0, 0, 0).is_some());
    // the settled volume may exceed the face amounts, the funded volume is exact
    assert!(Storage::restore(Some(config()), 1, vec![], vec![], 0, 0, 5).is_some());
    assert!(Storage::restore(Some(config()), 1, vec![], vec![], 0, 0, -1).is_none());
    assert!(Storage::restore(Some(config()), 1, vec![], vec![], 0, 5, 0).is_none());

    let mut wrong = config();
    wrong.default_advance_bps = 10001;
    assert!(!wrong.is_valid());
    assert!(Storage::restore(Some(wrong), 1, vec![], vec![], 0, 0, 0).is_none());
    let mut wrong = config();
    wrong.protocol_fee_bps = 1001;
    assert!(Storage::restore(Some(wrong), 1, vec![], vec![], 0, 0, 0).is_none());
    let mut wrong = config();
    wrong.min_invoice_amount = 0;
    assert!(Storage::restore(Some(wrong), 1, vec![], vec![], 0, 0, 0).is_none());
    let mut wrong = config();
    wrong.max_invoice_amount = 49_0000000;
    assert!(Storage::restore(Some(wrong), 1, vec![], vec![], 0, 0, 0).is_none());
    let mut wrong = config();
    wrong.max_invoice_amount = 100000_0000001;
    assert!(Storage::restore(Some(wrong), 1, vec![], vec![], 0, 0, 0).is_none());
    assert!(config().is_valid());
}

#[test]
fn restore_refuses_counters_that_disagree() {
    let (invoices, reputations) = parts();
    assert!(Storage::restore(Some(config()), 5, invoices, reputations, 3, 1350_0000000, 1000_0000000).is_none());
    let (invoices, reputations) = parts();
    assert!(Storage::restore(Some(config()), 4, invoices, reputations, 4, 1350_0000000, 1000_0000000).is_none());
    let (invoices, reputations) = parts();
    assert!(Storage::restore(Some(config()), 4, invoices, reputations, 3, 1350_0000001, 1000_0000000).is_none());
    let (invoices, reputations) = parts();
    assert!(Storage::restore(Some(config()), 4, invoices, reputations, 3, 1350_0000000, 999_9999999).is_none());
    let (invoices, reputations) = parts();
    assert!(Storage::restore(Some(config()), 4, invoices, reputations, 3, 1350_0000000, 1000_0000000).is_some());
}

#[test]
fn restore_refuses_invalid_invoices() {
    let check = |change: &dyn Fn(&mut Vec<Invoice>)| {
        let (mut invoices, reputations) = parts();
        change(&mut invoices);
        restore(invoices, reputations).is_some()
    };
    assert!(check(&|_| {}));
    // identifiers out of order
    assert!(!check(&|invoices| invoices[2].id = 4));
    assert!(!check(&|invoices| invoices.swap(0, 1)));
    // advance above the face amount, or negative
    assert!(!check(&|invoices| invoices[2].advance_amount = 100_0000001));
    assert!(!check(&|invoices| invoices[2].advance_amount = -1));
    // amounts out of range
    assert!(!check(&|invoices| {
        invoices[2].amount = 0;
        invoices[2].advance_amount = 0
    }));
    assert!(!check(&|invoices| invoices[2].amount = 100000_0000001));
    assert!(!check(&|invoices| invoices[2].fee_bps = 1001));
    // a funder without a funding, and a funding without a funder
    assert!(!check(&|invoices| invoices[2].lender = Some(addr("lender"))));
    assert!(!check(&|invoices| invoices[2].funded_at = Some(1)));
    assert!(!check(&|invoices| invoices[1].lender = None));
    assert!(!check(&|invoices| invoices[1].funded_at = None));
    // funded after the due date
    assert!(!check(&|invoices| invoices[1].funded_at = Some(2001)));
    // settled without a time of settlement, and the reverse
    assert!(!check(&|invoices| invoices[0].settled_at = None));
    assert!(!check(&|invoices| invoices[1].settled_at = Some(1500)));
    // a state that the counts do not see
    assert!(check(&|invoices| invoices[2].status = InvoiceStatus::Cancelled));
    assert!(!check(&|invoices| *invoices = vec![settled(1, "a", 1000_0000000), settled(2, "b", 500_0000000), created(3, "a", 100_0000000)]));
    // an originator without a reputation
    assert!(!check(&|invoices| invoices[2].sme = addr("c")));
    assert!(created(1, "a", 50_0000000).is_valid());
    assert!(!created(1, "a", 0).is_valid());
}

#[test]
fn restore_refuses_reputations_that_miscount() {
    let check = |change: &dyn Fn(&mut Vec<SmeReputation>)| {
        let (invoices, mut reputations) = parts();
        change(&mut reputations);
        restore(invoices, reputations).is_some()
    };
    assert!(check(&|_| {}));
    assert!(!check(&|reputations| reputations[0].total_invoices = 3));
    assert!(!check(&|reputations| reputations[0].settled_invoices = 0));
    assert!(!check(&|reputations| reputations[0].total_volume = 999_0000000));
    assert!(!check(&|reputations| reputations[0].risk_score = 500));
    assert!(!check(&|reputations| reputations[0].on_time_rate_bps = 10001));
    assert!(!check(&|reputations| reputations[1].on_time_rate_bps = 9000));
    assert!(!check(&|reputations| reputations[1].risk_score = 0));
    assert!(!check(&|reputations| {
        reputations.pop();
    }));
    // a reputation of an originator without invoices counts none
    assert!(!check(&|reputations| reputations.push(reputation("c", 1, 0, 0, 10000, 500))));
    assert!(check(&|reputations| reputations.push(reputation("c", 0, 0, 0, 10000, 500))));
    // a rate that the settlements could have left is accepted with its score
    assert!(check(&|reputations| {
        reputations[0].on_time_rate_bps = 5000;
        reputations[0].risk_score = 500
    }));
    assert!(reputation("a", 2, 1, 1000_0000000, 10000, 0).is_valid());
    assert!(!reputation("a", 1, 2, 1000_0000000, 10000, 0).is_valid());
    assert!(!reputation("a", 2, 1, 100000_0000001, 10000, 0).is_valid());
}

#[test]
fn records_are_written_one_by_one() {
    let mut storage = Storage::new();
    storage.set_config(config());
    assert!(storage.has_config());
    assert_eq!(storage.get_config().unwrap().default_advance_bps, 9000);

    storage.set_invoice(created(1, "a", 100_0000000));
    storage.set_invoice(created(2, "b", 200_0000000));
    assert!(storage.has_invoice(2));
    assert!(!storage.has_invoice(3));
    assert_eq!(storage.get_invoice(2).unwrap().amount, 200_0000000);
    // an invoice with a known identifier takes the place of the earlier one
    storage.set_invoice(funded(1, "a", 100_0000000));
    assert_eq!(storage.get_invoice(1).unwrap().status, InvoiceStatus::Funded);
    assert_eq!(storage.get_invoice(2).unwrap().status, InvoiceStatus::Created);
    assert!(!storage.has_invoice(3));

    storage.set_next_invoice_id(3);
    assert_eq!(storage.get_next_invoice_id(), 3);
    storage.increment_total_invoices();
    assert_eq!(storage.get_total_invoices(), 1);
    storage.add_volume_funded(90_0000000);
    storage.add_volume_funded(0);
    assert_eq!(storage.get_total_volume_funded(), 90_0000000);
    storage.add_volume_settled(5);
    storage.add_volume_settled(7);
    assert_eq!(storage.get_total_volume_settled(), 12);

    storage.set_sme_reputation(reputation("a", 1, 0, 0, 10000, 500));
    storage.set_sme_reputation(reputation("b", 1, 0, 0, 10000, 500));
    // the store does not count yet what it holds
    assert!(!storage.is_consistent());
    storage.increment_total_invoices();
    assert!(storage.is_consistent());
    // a reputation with a known address takes the place of the earlier one
    storage.set_sme_reputation(reputation("a", 2, 0, 0, 10000, 500));
    assert_eq!(storage.get_sme_reputation(&addr("a")).unwrap().total_invoices, 2);
    assert_eq!(storage.get_sme_reputation(&addr("b")).unwrap().total_invoices, 1);
    assert!(!storage.is_consistent());
    storage.set_invoice(created(3, "a", 50_0000000));
    storage.set_next_invoice_id(4);
    storage.increment_total_invoices();
    assert!(storage.is_consistent());
}

#[test]
fn checked_preview_refuses_what_does_not_fit() {
    let (invoices, reputations) = parts();
    let storage = restore(invoices, reputations).unwrap();
    // the funder is owed 918 and the treasury 5 units of invoice 1
    let owed: i128 = 918_0000000 + 5_0000000;
    assert_eq!(
        AdelantaInvoiceContract::checked_preview_settlement(&storage, 1, i128::MIN + owed),
        Some(Ok((918_0000000, i128::MIN, 5_0000000)))
    );
    assert_eq!(AdelantaInvoiceContract::checked_preview_settlement(&storage, 1, i128::MIN + owed - 1), None);
    assert_eq!(AdelantaInvoiceContract::checked_preview_settlement(&storage, 1, i128::MIN), None);
    assert_eq!(
        AdelantaInvoiceContract::checked_preview_settlement(&storage, 1, i128::MAX),
        Some(Ok((918_0000000, i128::MAX - owed, 5_0000000)))
    );
    assert_eq!(
        AdelantaInvoiceContract::checked_preview_settlement(&storage, 1, 1000_0000000),
        Some(AdelantaInvoiceContract::preview_settlement(&storage, 1, 1000_0000000))
    );
    assert_eq!(
        AdelantaInvoiceContract::checked_preview_settlement(&storage, 9, i128::MIN),
        Some(Err(AdelantaError::InvoiceNotFound))
    );
    assert_eq!(
        AdelantaInvoiceContract::checked_preview_settlement(&Storage::new(), 1, i128::MIN),
        Some(Err(AdelantaError::NotInitialized))
    );
}

#[test]
fn addresses_are_equal_by_their_key() {
    let a = Address::new(String::from("GABC"));
    let b = Address::from_str("GABC");
    assert_eq!(a, b);
    assert_eq!(a.clone(), a);
    assert_ne!(a, Address::from_str("GABD"));
    assert_ne!(a, Address::from_str("gabc"));
    assert_ne!(a, Address::from_str(""));
    assert_eq!(a.as_str(), "GABC");
    assert_eq!(b.key, "GABC");
}
