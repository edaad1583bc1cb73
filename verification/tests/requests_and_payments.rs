use utility_billing::payments::{PaymentFilter, PaymentQuery};
use utility_billing::requests::{
    customer_registration, display_customer_name, invoice_customer, invoice_message,
    meter_customer_id, new_reading, payment_draft,
};

fn query(filter: Option<&str>) -> PaymentQuery {
    PaymentQuery { filter: filter.map(|s| s.to_string()) }
}

#[test]
fn filters_are_recognised() {
    assert_eq!(query(None).payment_filter(), PaymentFilter::All);
    assert_eq!(query(Some("all")).payment_filter(), PaymentFilter::All);
    assert_eq!(query(Some("pending")).payment_filter(), PaymentFilter::Pending);
    assert_eq!(query(Some("completed")).payment_filter(), PaymentFilter::Completed);
    assert_eq!(query(Some("defaulters")).payment_filter(), PaymentFilter::Defaulters);
}

#[test]
fn unknown_filter_lists_everything() {
    assert_eq!(query(Some("overdue")).payment_filter(), PaymentFilter::All);
    assert_eq!(query(Some("Pending")).payment_filter(), PaymentFilter::All);
    assert_eq!(query(Some("")).payment_filter(), PaymentFilter::All);
}

#[test]
fn status_words_of_listings() {
    assert_eq!(PaymentFilter::All.status_label(), "All");
    assert_eq!(PaymentFilter::Pending.status_label(), "Pending");
    assert_eq!(PaymentFilter::Completed.status_label(), "Completed");
    assert_eq!(PaymentFilter::Defaulters.status_label(), "Defaulted");
}

#[test]
fn registration_applies_defaults() {
    let r = customer_registration(None, None, "HMI-003".to_string());
    assert_eq!(r.name, "Guest");
    assert_eq!(r.email, "customer123@gmail.com");
    assert_eq!(r.meter_no, "HMI-003");
    assert_eq!(r.password, "CUS-HMI-001");
    assert_eq!(r.welcome, "Welcome, Guest!");
}

#[test]
fn registration_keeps_given_fields() {
    let r = customer_registration(Some("Ada".to_string()), Some("ada@example.com".to_string()), "HMI-010".to_string());
    assert_eq!(r.name, "Ada");
    assert_eq!(r.email, "ada@example.com");
    assert_eq!(r.welcome, "Welcome, Ada!");
}

#[test]
fn reading_defaults_and_truncation() {
    let r = new_reading("HMI-001".to_string(), None, None);
    assert_eq!(r.meter_id, "HMI-001");
    assert_eq!(r.units, 0);
    assert_eq!(r.period, "Unknown");
    let r = new_reading("HMI-001".to_string(), Some(42), Some("2024-05-01".to_string()));
    assert_eq!(r.units, 42);
    assert_eq!(r.period, "2024-05-01");
    let big: i64 = (1i64 << 32) + 7;
    assert_eq!(new_reading("m".to_string(), Some(big), None).units, big as i32);
    assert_eq!(new_reading("m".to_string(), Some(-1), None).units, -1);
}

#[test]
fn meter_customer_defaults() {
    assert_eq!(meter_customer_id(None), "Unknown");
    assert_eq!(meter_customer_id(Some(None)), "Unknown");
    assert_eq!(meter_customer_id(Some(Some("CUS-HMI-002".to_string()))), "CUS-HMI-002");
    assert_eq!(invoice_customer(Some(None)), None);
    assert_eq!(invoice_customer(Some(Some("C".to_string()))), Some("C".to_string()));
    assert_eq!(display_customer_name(None), "Anon");
    assert_eq!(display_customer_name(Some("Bo".to_string())), "Bo");
}

#[test]
fn payment_draft_defaults() {
    let d = payment_draft(None, None, None);
    assert_eq!(d.meter_no, "Unknown");
    assert_eq!(d.customer_id, "Unknown");
    assert_eq!(d.invoice_id, "Unknown");
    let d = payment_draft(Some("HMI-004".to_string()), Some(Some("CUS-HMI-001".to_string())), Some("INV-009".to_string()));
    assert_eq!(d.meter_no, "HMI-004");
    assert_eq!(d.customer_id, "CUS-HMI-001");
    assert_eq!(d.invoice_id, "INV-009");
}

#[test]
fn invoice_message_names_the_meter() {
    assert_eq!(invoice_message("HMI-007"), "Generate a new invoice for HMI-007");
}
