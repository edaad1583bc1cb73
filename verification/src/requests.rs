//! Defaults applied to the fields of incoming requests, and the records and
//! messages built from them.

use vstd::prelude::*;

verus! {

/// Name given to a customer registered without one.
pub const DEFAULT_CUSTOMER_NAME: &'static str = "Guest";

/// Email given to a customer registered without one.
pub const DEFAULT_CUSTOMER_EMAIL: &'static str = "customer123@gmail.com";

/// Password given to every newly registered customer.
pub const INITIAL_PASSWORD: &'static str = "CUS-HMI-001";

/// Text standing for a reference that could not be found.
pub const UNKNOWN: &'static str = "Unknown";

/// Name shown for a meter whose customer could not be found.
pub const ANONYMOUS: &'static str = "Anon";

/// The text of `value`, or `fallback` when there is none.
pub open spec fn or_default(value: Option<String>, fallback: Seq<char>) -> Seq<char> {
    match value {
        Some(s) => s@,
        None => fallback,
    }
}

fn text_or(value: Option<String>, fallback: &str) -> (r: String)
    ensures
        r@ == or_default(value, fallback@),
{
    match value {
        Some(s) => s,
        None => String::from_str(fallback),
    }
}

/// A customer about to be registered, and the greeting sent back.
#[derive(Debug)]
pub struct CustomerRegistration {
    pub name: String,
    pub email: String,
    pub meter_no: String,
    pub password: String,
    pub welcome: String,
}

/// The registration of a customer for the meter `meter_no`: a missing name
/// becomes `Guest`, a missing email `customer123@gmail.com`, the password is
/// the initial one and the greeting reads `Welcome, <name>!`.
pub fn customer_registration(name: Option<String>, email: Option<String>, meter_no: String) -> (r:
    CustomerRegistration)
    ensures
        r.name@ == or_default(name, DEFAULT_CUSTOMER_NAME@),
        r.email@ == or_default(email, DEFAULT_CUSTOMER_EMAIL@),
        r.meter_no == meter_no,
        r.password@ == INITIAL_PASSWORD@,
        r.welcome@ == "Welcome, "@ + or_default(name, DEFAULT_CUSTOMER_NAME@) + "!"@,
{
    let name = text_or(name, DEFAULT_CUSTOMER_NAME);
    let email = text_or(email, DEFAULT_CUSTOMER_EMAIL);
    let mut welcome = String::from_str("Welcome, ");
    welcome.append(name.as_str());
    welcome.append("!");
    CustomerRegistration {
        name,
        email,
        meter_no,
        password: String::from_str(INITIAL_PASSWORD),
        welcome,
    }
}

/// A meter reading about to be recorded.
#[derive(Debug)]
pub struct NewReading {
    pub meter_id: String,
    pub units: i32,
    pub period: String,
}

/// The reading submitted for `meter_no`: a missing reading counts as 0 and is
/// cut to 32 bits as `as i32` does, a missing period reads `Unknown`.
pub fn new_reading(meter_no: String, reading: Option<i64>, period: Option<String>) -> (r: NewReading)
    ensures
        r.meter_id == meter_no,
        r.units == (match reading {
            Some(v) => v as i32,
            None => 0i32,
        }),
        r.period@ == or_default(period, UNKNOWN@),
{
    let units: i32 = match reading {
        Some(v) => v as i32,
        None => 0,
    };
    NewReading { meter_id: meter_no, units, period: text_or(period, UNKNOWN) }
}

/// The customer of a meter lookup: `None` when no meter was found,
/// `Some(None)` when the meter has no customer.
pub open spec fn customer_of(meter_customer: Option<Option<String>>) -> Option<String> {
    match meter_customer {
        Some(Some(c)) => Some(c),
        _ => None,
    }
}

/// The customer an invoice for a meter goes to: the meter's customer, when
/// the meter was found and has one.
pub fn invoice_customer(meter_customer: Option<Option<String>>) -> (r: Option<String>)
    ensures
        r == customer_of(meter_customer),
{
    match meter_customer {
        Some(Some(c)) => Some(c),
        _ => None,
    }
}

/// The customer number used for a meter: the meter's customer, `Unknown`
/// when the meter was not found or has no customer.
pub fn meter_customer_id(meter_customer: Option<Option<String>>) -> (r: String)
    ensures
        r@ == or_default(customer_of(meter_customer), UNKNOWN@),
{
    text_or(invoice_customer(meter_customer), UNKNOWN)
}

/// The name shown for a meter's customer: `Anon` when the customer was not
/// found.
pub fn display_customer_name(name: Option<String>) -> (r: String)
    ensures
        r@ == or_default(name, ANONYMOUS@),
{
    text_or(name, ANONYMOUS)
}

/// The references of a payment about to be recorded.
#[derive(Debug)]
pub struct PaymentDraft {
    pub meter_no: String,
    pub customer_id: String,
    pub invoice_id: String,
}

/// The references of a payment: the meter number given (`Unknown` when
/// missing), the customer of that meter and the customer's latest invoice
/// (each `Unknown` when not found).
pub fn payment_draft(
    meter_no: Option<String>,
    meter_customer: Option<Option<String>>,
    latest_invoice_id: Option<String>,
) -> (r: PaymentDraft)
    ensures
        r.meter_no@ == or_default(meter_no, UNKNOWN@),
        r.customer_id@ == or_default(customer_of(meter_customer), UNKNOWN@),
        r.invoice_id@ == or_default(latest_invoice_id, UNKNOWN@),
{
    PaymentDraft {
        meter_no: text_or(meter_no, UNKNOWN),
        customer_id: meter_customer_id(meter_customer),
        invoice_id: text_or(latest_invoice_id, UNKNOWN),
    }
}

/// The reply to an invoice request for `meter_no`.
pub fn invoice_message(meter_no: &str) -> (r: String)
    ensures
        r@ == "Generate a new invoice for "@ + meter_no@,
{
    let mut m = String::from_str("Generate a new invoice for ");
    m.append(meter_no);
    m
}

} // verus!
