use utility_billing::billing::{
    account_overview, dashboard_stats, latest_invoice, outstanding_balance, payment_status,
    payment_trend, reading_history, total_cents, Amount, InvoiceLine, InvoiceSummary, MeterBilling,
    PaymentPoint, PaymentStatus, ReadingRow, Settlement, MAX_AMOUNT_CENTS, RATE_PER_UNIT,
};
use utility_billing::calendar::{timestamp_text, Timestamp};

fn amt(cents: i64) -> Amount {
    Amount::from_cents(cents).unwrap()
}

fn at(year: i32, month: u32, day: u32) -> Timestamp {
    Timestamp { year, month, day, hour: 10, minute: 30, second: 0, nanosecond: 0 }
}

#[test]
fn amounts_are_limited_to_the_column() {
    assert!(Amount::from_cents(MAX_AMOUNT_CENTS).is_some());
    assert!(Amount::from_cents(-MAX_AMOUNT_CENTS).is_some());
    assert!(Amount::from_cents(MAX_AMOUNT_CENTS + 1).is_none());
    assert!(Amount::from_cents(-MAX_AMOUNT_CENTS - 1).is_none());
    assert_eq!(amt(1234).cents(), 1234);
    assert_eq!(Amount::zero().cents(), 0);
}

#[test]
fn whole_units_drop_the_fraction_toward_zero() {
    assert_eq!(amt(12399).whole_units(), 123);
    assert_eq!(amt(-150).whole_units(), -1);
    assert_eq!(amt(-99).whole_units(), 0);
    assert_eq!(amt(MAX_AMOUNT_CENTS).whole_units(), 99_999_999);
}

#[test]
fn total_adds_amounts() {
    assert_eq!(total_cents(&vec![]), 0);
    assert_eq!(total_cents(&vec![amt(1050), amt(250), amt(-100)]), 1200);
    let big = vec![amt(MAX_AMOUNT_CENTS); 3];
    assert_eq!(total_cents(&big), 3 * MAX_AMOUNT_CENTS as i128);
}

#[test]
fn balance_counts_unpaid_invoices_and_payment_balances() {
    let lines = vec![
        InvoiceLine { amount: amt(10000), settlement: Settlement::Unpaid },
        InvoiceLine { amount: amt(5000), settlement: Settlement::Paid { balance: Some(amt(1500)) } },
        InvoiceLine { amount: amt(7000), settlement: Settlement::Paid { balance: None } },
    ];
    assert_eq!(outstanding_balance(&lines), 11500);
    assert_eq!(outstanding_balance(&vec![]), 0);
}

#[test]
fn balance_without_payments_is_total_invoiced() {
    let amounts = vec![amt(100), amt(2500), amt(75)];
    let lines: Vec<InvoiceLine> =
        amounts.iter().map(|a| InvoiceLine { amount: *a, settlement: Settlement::Unpaid }).collect();
    assert_eq!(outstanding_balance(&lines), total_cents(&amounts));
}

#[test]
fn balance_of_two_runs_adds_up() {
    let a = vec![InvoiceLine { amount: amt(300), settlement: Settlement::Unpaid }];
    let b = vec![InvoiceLine { amount: amt(900), settlement: Settlement::Paid { balance: Some(amt(40)) } }];
    let mut both = Vec::new();
    both.extend(a.iter().copied());
    both.extend(b.iter().copied());
    assert_eq!(outstanding_balance(&both), outstanding_balance(&a) + outstanding_balance(&b));
}

#[test]
fn latest_invoice_breaks_down_the_total() {
    let inv = InvoiceSummary { id: "INV-004".to_string(), amount: amt(37500), created_at: at(2024, 6, 3) };
    let r = latest_invoice(Some(inv), "Ann".to_string(), "HMI-002".to_string(), at(2024, 9, 1), 50);
    assert_eq!(r.invoice_no, "INV-004");
    assert_eq!(r.date, at(2024, 6, 3));
    assert_eq!(r.customer_name, "Ann");
    assert_eq!(r.meter_no, "HMI-002");
    assert_eq!(r.period, "6");
    assert_eq!(r.rate, RATE_PER_UNIT);
    assert_eq!(r.service_charge, 50);
    assert_eq!(r.subtotal, 325);
    assert_eq!(r.consumption, 13);
    assert_eq!(r.total, amt(37500));
}

#[test]
fn latest_invoice_recovers_priced_consumption() {
    for units in [0, 1, 7, 40] {
        let sc = 120;
        let cents = ((units * RATE_PER_UNIT + sc) as i64) * 100;
        let inv = InvoiceSummary { id: "INV-001".to_string(), amount: amt(cents), created_at: at(2024, 1, 1) };
        let r = latest_invoice(Some(inv), String::new(), String::new(), at(2024, 1, 1), sc);
        assert_eq!(r.consumption, units);
        assert_eq!(r.subtotal + r.service_charge, r.total.whole_units());
    }
}

#[test]
fn latest_invoice_rounds_negative_subtotals_toward_zero() {
    let inv = InvoiceSummary { id: "INV-002".to_string(), amount: amt(1000), created_at: at(2024, 11, 5) };
    let r = latest_invoice(Some(inv), String::new(), String::new(), at(2024, 1, 1), 60);
    assert_eq!(r.subtotal, -50);
    assert_eq!(r.consumption, -2);
    assert_eq!(r.period, "11");
}

#[test]
fn latest_invoice_without_invoice() {
    let r = latest_invoice(None, "Anon".to_string(), "HMI-9".to_string(), at(2025, 10, 2), 50);
    assert_eq!(r.invoice_no, "Unknown");
    assert_eq!(r.date, at(2025, 10, 2));
    assert_eq!(r.period, "10");
    assert_eq!(r.subtotal, 0);
    assert_eq!(r.consumption, 0);
    assert_eq!(r.total.cents(), 0);
}

#[test]
fn status_compares_payment_with_amount_due() {
    assert_eq!(payment_status(Some(amt(500)), amt(500)), PaymentStatus::Paid);
    assert_eq!(payment_status(Some(amt(800)), amt(500)), PaymentStatus::Paid);
    assert_eq!(payment_status(Some(amt(499)), amt(500)), PaymentStatus::Pending);
    assert_eq!(payment_status(None, amt(0)), PaymentStatus::Unpaid);
    assert_eq!(PaymentStatus::Paid.label(), "Paid");
    assert_eq!(PaymentStatus::Pending.label(), "Pending");
    assert_eq!(PaymentStatus::Unpaid.label(), "Unpaid");
}

#[test]
fn reading_history_skips_readings_without_meter() {
    let rows = vec![
        ReadingRow {
            reading_id: 1,
            period: "2024-01-01".to_string(),
            units: 40,
            meter: Some(MeterBilling { amount: Some(amt(2000)), last_payment: Some(amt(2500)) }),
        },
        ReadingRow { reading_id: 2, period: "2024-02-01".to_string(), units: 55, meter: None },
        ReadingRow {
            reading_id: 3,
            period: "2024-03-01".to_string(),
            units: 61,
            meter: Some(MeterBilling { amount: None, last_payment: None }),
        },
        ReadingRow {
            reading_id: 4,
            period: "2024-04-01".to_string(),
            units: 70,
            meter: Some(MeterBilling { amount: Some(amt(3000)), last_payment: Some(amt(10)) }),
        },
    ];
    let (history, trend) = reading_history(&rows);
    assert_eq!(history.len(), 3);
    assert_eq!(history[0].history_id, 1);
    assert_eq!(history[0].status, "Paid");
    assert_eq!(history[0].amount, amt(2000));
    assert_eq!(history[0].consumption, 40);
    assert_eq!(history[1].history_id, 3);
    assert_eq!(history[1].status, "Unpaid");
    assert_eq!(history[1].amount.cents(), 0);
    assert_eq!(history[2].status, "Pending");
    assert_eq!(history[2].reading, 70);
    assert_eq!(trend.labels, vec!["2024-01-01", "2024-03-01", "2024-04-01"]);
    assert_eq!(trend.values, vec![40, 61, 70]);
}

#[test]
fn payment_trend_keeps_order() {
    let points = vec![
        PaymentPoint { made_at: at(2024, 1, 5), amount: amt(1000) },
        PaymentPoint {
            made_at: Timestamp { year: 2024, month: 2, day: 29, hour: 23, minute: 59, second: 59, nanosecond: 500_000_000 },
            amount: amt(2000),
        },
    ];
    let t = payment_trend(&points);
    assert_eq!(t.labels, vec!["2024-01-05 10:30:00", "2024-02-29 23:59:59.500"]);
    assert_eq!(t.values, vec![amt(1000), amt(2000)]);
}

#[test]
fn timestamp_text_follows_chrono() {
    let t = Timestamp { year: 2001, month: 7, day: 8, hour: 0, minute: 34, second: 60 - 1, nanosecond: 1_500_000_000 };
    let expected = chrono::NaiveDate::from_ymd_opt(2001, 7, 8).unwrap().and_hms_nano_opt(0, 34, 59, 1_500_000_000).unwrap().to_string();
    assert_eq!(timestamp_text(t), expected);
    assert_eq!(timestamp_text(at(999, 12, 31)), "0999-12-31 10:30:00");
}

#[test]
fn account_overview_defaults_to_zero() {
    let r = account_overview(&vec![], None, None);
    assert_eq!(r.balance_cents, 0);
    assert_eq!(r.last_payment.cents(), 0);
    assert_eq!(r.latest_reading, 0);
    let lines = vec![InvoiceLine { amount: amt(700), settlement: Settlement::Unpaid }];
    let r = account_overview(&lines, Some(amt(300)), Some(12));
    assert_eq!(r.balance_cents, 700);
    assert_eq!(r.last_payment, amt(300));
    assert_eq!(r.latest_reading, 12);
}

#[test]
fn dashboard_sums_payments_and_pending_invoices() {
    let s = dashboard_stats(4, 3, &vec![amt(100), amt(250)], &vec![amt(999)]);
    assert_eq!(s.total_customers, 4);
    assert_eq!(s.active_meters, 3);
    assert_eq!(s.monthly_revenue_cents, 350);
    assert_eq!(s.pending_payments_cents, 999);
}

#[test]
fn breakdown_fit_check() {
    let inv = |c: i64| Some(InvoiceSummary { id: String::new(), amount: amt(c), created_at: at(2024, 1, 1) });
    assert!(utility_billing::billing::invoice_breakdown_fits(&None, i32::MIN));
    assert!(utility_billing::billing::invoice_breakdown_fits(&inv(10000), 50));
    assert!(!utility_billing::billing::invoice_breakdown_fits(&inv(10000), i32::MIN));
    assert!(!utility_billing::billing::invoice_breakdown_fits(&inv(-10000), i32::MAX));
}

#[test]
fn timestamp_text_fractions_and_signed_years() {
    let cases: [(i32, u32, u32, u32, u32, u32, u32); 8] = [
        (2016, 11, 15, 7, 39, 24, 0),
        (2015, 6, 30, 23, 59, 59, 1_500_000_000),
        (2024, 1, 2, 3, 4, 5, 123_456),
        (2024, 1, 2, 3, 4, 5, 120_000),
        (2024, 1, 2, 3, 4, 5, 7_000_000),
        (-1, 1, 1, 0, 0, 0, 1),
        (10000, 12, 31, 12, 0, 0, 0),
        (0, 1, 1, 0, 0, 59, 1_000_000_000),
    ];
    for (y, mo, d, h, mi, s, n) in cases {
        let t = Timestamp { year: y, month: mo, day: d, hour: h, minute: mi, second: s, nanosecond: n };
        assert!(t.is_valid());
        let expected = chrono::NaiveDate::from_ymd_opt(y, mo, d).unwrap().and_hms_nano_opt(h, mi, s, n).unwrap().to_string();
        assert_eq!(timestamp_text(t), expected);
    }
    assert_eq!(
        timestamp_text(Timestamp { year: 2015, month: 6, day: 30, hour: 23, minute: 59, second: 59, nanosecond: 1_500_000_000 }),
        "2015-06-30 23:59:60.500"
    );
    assert_eq!(
        timestamp_text(Timestamp { year: 2024, month: 1, day: 2, hour: 3, minute: 4, second: 5, nanosecond: 123_456 }),
        "2024-01-02 03:04:05.000123456"
    );
}

#[test]
fn timestamp_validity() {
    assert!(!Timestamp { year: 2024, month: 2, day: 30, hour: 0, minute: 0, second: 0, nanosecond: 0 }.is_valid());
    assert!(!Timestamp { year: 2024, month: 2, day: 1, hour: 24, minute: 0, second: 0, nanosecond: 0 }.is_valid());
    assert!(!Timestamp { year: 2024, month: 2, day: 1, hour: 0, minute: 0, second: 58, nanosecond: 1_000_000_000 }.is_valid());
    assert!(Timestamp { year: 2024, month: 2, day: 1, hour: 0, minute: 0, second: 59, nanosecond: 1_999_999_999 }.is_valid());
}

#[test]
fn paying_an_invoice_lowers_pending_by_its_amount() {
    let unpaid = vec![amt(1000), amt(2500), amt(400)];
    let before = dashboard_stats(5, 2, &vec![amt(100)], &unpaid);
    let mut rest = unpaid.clone();
    let paid = rest.remove(1);
    let after = dashboard_stats(5, 2, &vec![amt(100), amt(2500)], &rest);
    assert_eq!(after.pending_payments_cents, before.pending_payments_cents - paid.cents() as i128);
    assert_eq!(after.total_customers, before.total_customers);
    assert_eq!(after.active_meters, before.active_meters);
}

#[test]
fn reading_charge_prices_units() {
    assert_eq!(utility_billing::billing::reading_charge(13, 50), Some(375));
    assert_eq!(utility_billing::billing::reading_charge(0, 50), Some(50));
    assert_eq!(utility_billing::billing::reading_charge(-2, 10), Some(-40));
    assert_eq!(utility_billing::billing::reading_charge(i32::MAX, 0), None);
    assert_eq!(utility_billing::billing::reading_charge(85_899_345, 0), Some(2_147_483_625));
    assert_eq!(utility_billing::billing::reading_charge(85_899_345, 23), None);
}

#[test]
fn charged_reading_breaks_down_to_its_units() {
    let sc = 120;
    let units = 37;
    let charge = utility_billing::billing::reading_charge(units, sc).unwrap();
    let inv = InvoiceSummary { id: "INV-003".to_string(), amount: amt(charge as i64 * 100), created_at: at(2024, 3, 1) };
    let r = latest_invoice(Some(inv), String::new(), String::new(), at(2024, 3, 1), sc);
    assert_eq!(r.consumption, units);
}

#[test]
fn pending_total_ignores_order() {
    let unpaid = vec![amt(1000), amt(2500), amt(400), amt(75)];
    let remaining = vec![amt(75), amt(1000), amt(400)];
    assert_eq!(total_cents(&remaining), total_cents(&unpaid) - 2500);
    let lines = vec![
        InvoiceLine { amount: amt(300), settlement: Settlement::Unpaid },
        InvoiceLine { amount: amt(900), settlement: Settlement::Paid { balance: Some(amt(40)) } },
    ];
    let reversed: Vec<InvoiceLine> = lines.iter().rev().copied().collect();
    assert_eq!(outstanding_balance(&lines), outstanding_balance(&reversed));
}
