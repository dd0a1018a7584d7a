use adelanta_invoice::bps::share_of;
use adelanta_invoice::settlement::distribute;
use adelanta_invoice::{
    Address, AdelantaInvoiceContract, ContractConfig, Invoice, InvoiceStatus, SmeReputation,
    Storage,
};

fn addr(key: &str) -> Address {
    Address::from_str(key)
}

fn invoice(amount: i128, advance_amount: i128, fee_bps: u32) -> Invoice {
    Invoice {
        id: 1,
        sme: addr("sme"),
        payer_id: String::from("CORP-001"),
        amount,
        advance_amount,
        fee_bps,
        lender: Some(addr("lender")),
        status: InvoiceStatus::Funded,
        created_at: 1000,
        funded_at: Some(1000),
        settled_at: None,
        due_date: 2000,
        country: String::from("MX"),
        industry: String::from("DESIGN"),
    }
}

fn config(protocol_fee_bps: u32) -> ContractConfig {
    ContractConfig {
        admin: addr("admin"),
        usdc_token: addr("usdc"),
        treasury: addr("treasury"),
        default_advance_bps: 9000,
        protocol_fee_bps,
        min_invoice_amount: 50_0000000,
        max_invoice_amount: 100000_0000000,
    }
}

/// A book with one originator whose invoices are all funded.
fn funded_book(invoices: u32, amount: i128, due_date: u64) -> Storage {
    let mut storage = Storage::new();
    AdelantaInvoiceContract::initialize(
        &mut storage,
        addr("admin"),
        addr("usdc"),
        addr("treasury"),
        9000,
        50,
    )
    .unwrap();
    for _ in 0..invoices {
        let id = AdelantaInvoiceContract::create_invoice(
            &mut storage,
            addr("sme"),
            String::from("CORP-001"),
            amount,
            due_date,
            String::from("MX"),
            String::from("DESIGN"),
            200,
            1000,
        )
        .unwrap();
        AdelantaInvoiceContract::fund_invoice(&mut storage, addr("lender"), id, 1000, Ok(())).unwrap();
    }
    storage
}

fn settle_at(storage: &mut Storage, invoice_id: u64, amount: i128, now: u64) {
    AdelantaInvoiceContract::settle_invoice(storage, addr("admin"), invoice_id, amount, now, Ok(()))
        .unwrap();
}

#[test]
fn share_of_rounds_down() {
    assert_eq!(share_of(0, 10000), 0);
    assert_eq!(share_of(1000_0000000, 9000), 900_0000000);
    assert_eq!(share_of(900_0000000, 200), 18_0000000);
    assert_eq!(share_of(1000_0000000, 50), 5_0000000);
    assert_eq!(share_of(9999, 1), 0);
    assert_eq!(share_of(10000, 1), 1);
    assert_eq!(share_of(19999, 1), 1);
    assert_eq!(share_of(3, 3333), 0);
    assert_eq!(share_of(7, 5000), 3);
    assert_eq!(share_of(123456789, 0), 0);
    assert_eq!(share_of(123456789, 10000), 123456789);
}

#[test]
fn share_of_stays_in_range_for_the_largest_amount() {
    assert_eq!(share_of(i128::MAX, 10000), i128::MAX);
    assert_eq!(share_of(i128::MAX, 0), 0);
    // i128::MAX = 170141183460469231731687303715884105727
    assert_eq!(share_of(i128::MAX, 5000), 85070591730234615865843651857942052863);
    assert_eq!(share_of(i128::MAX, 1), 17014118346046923173168730371588410);
    assert_eq!(share_of(i128::MAX, 9999), i128::MAX - 17014118346046923173168730371588411);
}

#[test]
fn distribute_splits_a_full_payment() {
    let (lender_amount, sme_amount, protocol_fee) =
        distribute(&invoice(1000_0000000, 900_0000000, 200), &config(50), 1000_0000000);
    assert_eq!(lender_amount, 918_0000000);
    assert_eq!(protocol_fee, 5_0000000);
    assert_eq!(sme_amount, 77_0000000);
}

#[test]
fn distribute_takes_the_protocol_fee_on_the_face_amount() {
    // the funder's fee is taken on the advance, the protocol's on the face amount
    let (lender_amount, sme_amount, protocol_fee) =
        distribute(&invoice(1000_0000000, 500_0000000, 1000), &config(1000), 1200_0000000);
    assert_eq!(lender_amount, 550_0000000);
    assert_eq!(protocol_fee, 100_0000000);
    assert_eq!(sme_amount, 550_0000000);
    let (lender_amount, sme_amount, protocol_fee) =
        distribute(&invoice(50_0000000, 0, 1000), &config(0), 50_0000000);
    assert_eq!((lender_amount, sme_amount, protocol_fee), (0, 50_0000000, 0));
    let (lender_amount, sme_amount, protocol_fee) =
        distribute(&invoice(100000_0000000, 100000_0000000, 1000), &config(1000), i128::MAX);
    assert_eq!(lender_amount, 110000_0000000);
    assert_eq!(protocol_fee, 10000_0000000);
    assert_eq!(sme_amount, i128::MAX - 120000_0000000);
}

#[test]
fn reputation_record_starts_neutral() {
    let mut reputation = SmeReputation::new(addr("sme"));
    assert_eq!(reputation.sme, addr("sme"));
    assert_eq!(reputation.total_invoices, 0);
    assert_eq!(reputation.settled_invoices, 0);
    assert_eq!(reputation.total_volume, 0);
    assert_eq!(reputation.avg_settlement_days, 0);
    assert_eq!(reputation.on_time_rate_bps, 10000);
    assert_eq!(reputation.risk_score, 500);
    reputation.record_created();
    reputation.record_created();
    assert_eq!(reputation.total_invoices, 2);
    assert_eq!(reputation.risk_score, 500);
}

#[test]
fn first_settlement_keeps_the_on_time_rate() {
    let mut late = SmeReputation::new(addr("sme"));
    late.record_created();
    late.record_settled(1000_0000000, false);
    assert_eq!(late.settled_invoices, 1);
    assert_eq!(late.total_volume, 1000_0000000);
    assert_eq!(late.on_time_rate_bps, 10000);
    // 1000 - 10000 / 10, no bonus
    assert_eq!(late.risk_score, 0);
}

#[test]
fn on_time_rate_is_a_running_count() {
    let mut reputation = SmeReputation::new(addr("sme"));
    for _ in 0..5 {
        reputation.record_created();
    }
    reputation.record_settled(100_0000000, true);
    assert_eq!(reputation.on_time_rate_bps, 10000);
    // one earlier on time, this one late: 1 of 2
    reputation.record_settled(100_0000000, false);
    assert_eq!(reputation.on_time_rate_bps, 5000);
    assert_eq!(reputation.risk_score, 500);
    // 5000 * 2 / 10000 = 1 earlier, this one on time: 2 of 3
    reputation.record_settled(100_0000000, true);
    assert_eq!(reputation.on_time_rate_bps, 6666);
    // 1000 - 666
    assert_eq!(reputation.risk_score, 334);
    // 6666 * 3 / 10000 = 1.9998, rounded down to 1; this one late: 1 of 4
    reputation.record_settled(100_0000000, false);
    assert_eq!(reputation.on_time_rate_bps, 2500);
    assert_eq!(reputation.risk_score, 750);
    // 2500 * 4 / 10000 = 1 earlier, this one on time: 2 of 5
    reputation.record_settled(100_0000000, true);
    assert_eq!(reputation.on_time_rate_bps, 4000);
    assert_eq!(reputation.risk_score, 600);
    assert_eq!(reputation.settled_invoices, 5);
    assert_eq!(reputation.total_invoices, 5);
    assert_eq!(reputation.total_volume, 500_0000000);
}

#[test]
fn risk_score_takes_the_bonuses_and_stops_at_zero() {
    let mut reputation = SmeReputation::new(addr("sme"));
    for _ in 0..12 {
        reputation.record_created();
    }
    reputation.record_settled(60000_0000000, true);
    reputation.record_settled(40000_0000000, false);
    // the volume is at the threshold, not above it
    assert_eq!(reputation.total_volume, 100000_0000000);
    assert_eq!(reputation.on_time_rate_bps, 5000);
    assert_eq!(reputation.risk_score, 500);
    reputation.record_settled(50_0000000, false);
    // 5000 * 2 / 10000 = 1 of 3; the volume is above the threshold
    assert_eq!(reputation.on_time_rate_bps, 3333);
    assert_eq!(reputation.risk_score, 1000 - 333 - 100);
    for _ in 0..7 {
        reputation.record_settled(50_0000000, false);
    }
    // 3333 * 3 / 10000 = 0.9999, rounded down: the one on-time settlement is lost
    assert_eq!(reputation.on_time_rate_bps, 0);
    // ten settlements are at the threshold, not above it
    assert_eq!(reputation.settled_invoices, 10);
    assert_eq!(reputation.risk_score, 1000 - 100);
    reputation.record_settled(50_0000000, true);
    assert_eq!(reputation.settled_invoices, 11);
    // none earlier, this one on time: 1 of 11
    assert_eq!(reputation.on_time_rate_bps, 909);
    assert_eq!(reputation.risk_score, 1000 - 90 - 100 - 100);

    let mut prompt = SmeReputation::new(addr("prompt"));
    for _ in 0..2 {
        prompt.record_created();
    }
    prompt.record_settled(100000_0000000, true);
    prompt.record_settled(100000_0000000, true);
    // 1000 - 1000 is nothing, and the bonus cannot take it below
    assert_eq!(prompt.on_time_rate_bps, 10000);
    assert_eq!(prompt.risk_score, 0);
}

#[test]
fn settlement_is_on_time_up_to_the_due_date() {
    let mut storage = funded_book(3, 1000_0000000, 2000);
    settle_at(&mut storage, 1, 1000_0000000, 2000);
    settle_at(&mut storage, 2, 1000_0000000, 2001);
    let reputation = storage.get_sme_reputation(&addr("sme")).unwrap();
    assert_eq!(reputation.on_time_rate_bps, 5000);
    assert_eq!(storage.get_invoice(2).unwrap().settled_at, Some(2001));
    settle_at(&mut storage, 3, 2000_0000000, 2000);
    let reputation = storage.get_sme_reputation(&addr("sme")).unwrap();
    assert_eq!(reputation.on_time_rate_bps, 6666);
    assert_eq!(reputation.total_invoices, 3);
    assert_eq!(reputation.settled_invoices, 3);
    // the volume counts the face amounts, not the payments
    assert_eq!(reputation.total_volume, 3000_0000000);
    assert_eq!(storage.get_total_volume_settled(), 4000_0000000);
    assert_eq!(storage.get_total_volume_funded(), 2700_0000000);
}

#[test]
fn reputations_are_kept_by_originator() {
    let mut storage = funded_book(2, 1000_0000000, 2000);
    AdelantaInvoiceContract::create_invoice(
        &mut storage,
        addr("other"),
        String::from("CORP-002"),
        500_0000000,
        2000,
        String::from("CO"),
        String::from("RETAIL"),
        100,
        1000,
    )
    .unwrap();
    settle_at(&mut storage, 1, 1000_0000000, 1500);
    let first = storage.get_sme_reputation(&addr("sme")).unwrap();
    let other = storage.get_sme_reputation(&addr("other")).unwrap();
    assert_eq!((first.total_invoices, first.settled_invoices, first.total_volume), (2, 1, 1000_0000000));
    assert_eq!((other.total_invoices, other.settled_invoices, other.total_volume), (1, 0, 0));
    assert_eq!(other.risk_score, 500);
    assert!(storage.get_sme_reputation(&addr("lender")).is_none());
    assert!(AdelantaInvoiceContract::get_sme_reputation(&storage, addr("admin")).is_none());
}
