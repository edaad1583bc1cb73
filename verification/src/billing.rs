//! Money and invoice arithmetic: amounts in hundredths, totals, a
//! customer's outstanding balance, the breakdown of an invoice into
//! consumption, rate and service charge, and the payment status of a
//! reading.

use vstd::prelude::*;
use crate::text::{decimal, push_decimal};
use crate::calendar::{timestamp_text, timestamp_text_spec, Timestamp};

verus! {

/// Largest magnitude, in hundredths, of a stored money amount: amounts are
/// kept as decimals with 10 digits, 2 of them after the point.
pub const MAX_AMOUNT_CENTS: i64 = 9_999_999_999;

/// Charge per unit of consumption.
pub const RATE_PER_UNIT: i32 = 25;

/// A stored money amount, counted in hundredths of the currency unit.
#[derive(Clone, Copy, Debug, PartialEq, Eq, Structural)]
pub struct Amount {
    cents: i64,
}

impl View for Amount {
    type V = int;

    closed spec fn view(&self) -> int {
        self.cents as int
    }
}

impl Amount {
    #[verifier::type_invariant]
    spec fn within_column(self) -> bool {
        -MAX_AMOUNT_CENTS <= self.cents <= MAX_AMOUNT_CENTS
    }

    /// The amount of `cents` hundredths, or `None` when it does not fit the
    /// stored range.
    pub fn from_cents(cents: i64) -> (r: Option<Amount>)
        ensures
            r is Some <==> -MAX_AMOUNT_CENTS <= cents <= MAX_AMOUNT_CENTS,
            r matches Some(a) ==> a@ == cents,
    {
        if -MAX_AMOUNT_CENTS <= cents && cents <= MAX_AMOUNT_CENTS {
            Some(Amount { cents })
        } else {
            None
        }
    }

    /// The amount zero.
    pub fn zero() -> (r: Amount)
        ensures
            r@ == 0,
    {
        Amount { cents: 0 }
    }

    /// The amount in hundredths.
    pub fn cents(&self) -> (r: i64)
        ensures
            r == self@,
    {
        self.cents
    }

    /// The whole-unit part of the amount, the fraction dropped toward zero
    /// (as `Decimal::to_i32`; every stored amount fits an `i32`).
    pub fn whole_units(&self) -> (r: i32)
        ensures
            r == trunc_div(self@, 100),
    {
        proof { use_type_invariant(self); }
        if self.cents >= 0 {
            (self.cents / 100) as i32
        } else {
            (0 - ((0 - self.cents) / 100)) as i32
        }
    }
}

/// Integer division rounding toward zero, for a positive divisor.
pub open spec fn trunc_div(a: int, b: int) -> int {
    if a >= 0 {
        a / b
    } else {
        -((-a) / b)
    }
}

/// Sum of a sequence of amounts, in hundredths.
pub open spec fn total_spec(items: Seq<Amount>) -> int
    decreases items.len(),
{
    if items.len() == 0 {
        0
    } else {
        total_spec(items.drop_last()) + items.last()@
    }
}

/// Sum of `items`, in hundredths (the sum of the stored decimals).
pub fn total_cents(items: &Vec<Amount>) -> (r: i128)
    ensures
        r == total_spec(items@),
{
    let mut acc: i128 = 0;
    let mut i: usize = 0;
    while i < items.len()
        invariant
            i <= items.len(),
            acc == total_spec(items@.take(i as int)),
            -(i as int) * MAX_AMOUNT_CENTS <= acc <= (i as int) * MAX_AMOUNT_CENTS,
        decreases items.len() - i,
    {
        let a = items[i];
        proof { use_type_invariant(&a); }
        assert(items@.take(i + 1).drop_last() =~= items@.take(i as int));
        acc = acc + a.cents as i128;
        i += 1;
    }
    assert(items@.take(items.len() as int) =~= items@);
    acc
}

/// Removing one amount from a run lowers the total by that amount.
pub proof fn lemma_total_remove(items: Seq<Amount>, i: int)
    requires
        0 <= i < items.len(),
    ensures
        total_spec(items.remove(i)) == total_spec(items) - items[i]@,
    decreases items.len(),
{
    if i == items.len() - 1 {
        assert(items.remove(i) =~= items.drop_last());
    } else {
        let t = items.drop_last();
        lemma_total_remove(t, i);
        assert(items.remove(i).drop_last() =~= t.remove(i));
        assert(items.remove(i).last() == items.last());
        assert(t[i] == items[i]);
    }
}

/// Law: the total of a run of amounts depends only on which amounts it
/// holds, not on their order (two runs with the same multiset of amounts
/// have the same total).
pub proof fn law_total_ignores_order(a: Seq<Amount>, b: Seq<Amount>)
    requires
        a.to_multiset() == b.to_multiset(),
    ensures
        total_spec(a) == total_spec(b),
    decreases a.len(),
{
    broadcast use vstd::seq_lib::group_to_multiset_ensures;

    if a.len() == 0 {
        assert(a.to_multiset().len() == a.len());
        assert(b.to_multiset().len() == b.len());
        assert(b.len() == 0);
        assert(b =~= Seq::<Amount>::empty());
    } else {
        let x = a.last();
        let a1 = a.drop_last();
        assert(a1.push(x) =~= a);
        assert(a.to_multiset() =~= a1.to_multiset().insert(x));
        assert(b.to_multiset().count(x) > 0);
        assert(b.contains(x));
        let j = choose|j: int| 0 <= j < b.len() && b[j] == x;
        let b1 = b.remove(j);
        assert(b1.to_multiset() =~= b.to_multiset().remove(x));
        assert(b1.to_multiset() =~= a1.to_multiset());
        law_total_ignores_order(a1, b1);
        lemma_total_remove(b, j);
    }
}

/// Law: when a payment comes to refer to one of the unpaid invoices, that
/// invoice leaves the unpaid ones, so the pending total (the figure that
/// `dashboard_stats` reports) drops by exactly its amount, whatever order
/// the remaining unpaid invoices come in. The customer and meter counts,
/// which `dashboard_stats` passes through, stay.
pub proof fn law_paying_an_invoice_lowers_pending(unpaid: Seq<Amount>, i: int, remaining: Seq<Amount>)
    requires
        0 <= i < unpaid.len(),
        remaining.to_multiset() == unpaid.remove(i).to_multiset(),
    ensures
        total_spec(remaining) == total_spec(unpaid) - unpaid[i]@,
{
    lemma_total_remove(unpaid, i);
    law_total_ignores_order(remaining, unpaid.remove(i));
}

/// How an invoice stands: no payment refers to it, or a payment does,
/// carrying the balance left after it (if one was recorded).
#[derive(Clone, Copy, Debug, PartialEq, Eq, Structural)]
pub enum Settlement {
    Unpaid,
    Paid { balance: Option<Amount> },
}

/// An invoice of a customer and how it stands.
#[derive(Clone, Copy, Debug, PartialEq, Eq, Structural)]
pub struct InvoiceLine {
    pub amount: Amount,
    pub settlement: Settlement,
}

/// What an invoice still contributes to the balance: the whole amount when
/// unpaid, the recorded balance of its payment otherwise (zero when none was
/// recorded).
pub open spec fn owed(line: InvoiceLine) -> int {
    match line.settlement {
        Settlement::Unpaid => line.amount@,
        Settlement::Paid { balance: Some(b) } => b@,
        Settlement::Paid { balance: None } => 0,
    }
}

/// The outstanding balance over a sequence of invoice lines.
pub open spec fn balance_spec(lines: Seq<InvoiceLine>) -> int
    decreases lines.len(),
{
    if lines.len() == 0 {
        0
    } else {
        balance_spec(lines.drop_last()) + owed(lines.last())
    }
}

/// The outstanding balance of a customer, in hundredths: the sum over the
/// customer's invoices of what each still contributes.
pub fn outstanding_balance(lines: &Vec<InvoiceLine>) -> (r: i128)
    ensures
        r == balance_spec(lines@),
{
    let mut acc: i128 = 0;
    let mut i: usize = 0;
    while i < lines.len()
        invariant
            i <= lines.len(),
            acc == balance_spec(lines@.take(i as int)),
            -(i as int) * MAX_AMOUNT_CENTS <= acc <= (i as int) * MAX_AMOUNT_CENTS,
        decreases lines.len() - i,
    {
        let line = lines[i];
        assert(lines@.take(i + 1).drop_last() =~= lines@.take(i as int));
        let contribution: i64 = match line.settlement {
            Settlement::Unpaid => {
                proof { use_type_invariant(&line.amount); }
                line.amount.cents
            },
            Settlement::Paid { balance: Some(b) } => {
                proof { use_type_invariant(&b); }
                b.cents
            },
            Settlement::Paid { balance: None } => 0,
        };
        acc = acc + contribution as i128;
        i += 1;
    }
    assert(lines@.take(lines.len() as int) =~= lines@);
    acc
}

/// Law: the balance over two runs of invoices is the sum of their balances.
pub proof fn law_balance_adds_up(a: Seq<InvoiceLine>, b: Seq<InvoiceLine>)
    ensures
        balance_spec(a + b) == balance_spec(a) + balance_spec(b),
    decreases b.len(),
{
    if b.len() == 0 {
        assert(a + b =~= a);
    } else {
        assert((a + b).drop_last() =~= a + b.drop_last());
        law_balance_adds_up(a, b.drop_last());
    }
}

/// Removing one invoice line lowers the balance by what that line owes.
pub proof fn lemma_balance_remove(lines: Seq<InvoiceLine>, i: int)
    requires
        0 <= i < lines.len(),
    ensures
        balance_spec(lines.remove(i)) == balance_spec(lines) - owed(lines[i]),
    decreases lines.len(),
{
    if i == lines.len() - 1 {
        assert(lines.remove(i) =~= lines.drop_last());
    } else {
        let t = lines.drop_last();
        lemma_balance_remove(t, i);
        assert(lines.remove(i).drop_last() =~= t.remove(i));
        assert(lines.remove(i).last() == lines.last());
        assert(t[i] == lines[i]);
    }
}

/// Law: the outstanding balance depends only on which invoice lines there
/// are, not on the order in which they come.
pub proof fn law_balance_ignores_order(a: Seq<InvoiceLine>, b: Seq<InvoiceLine>)
    requires
        a.to_multiset() == b.to_multiset(),
    ensures
        balance_spec(a) == balance_spec(b),
    decreases a.len(),
{
    broadcast use vstd::seq_lib::group_to_multiset_ensures;

    if a.len() == 0 {
        assert(a.to_multiset().len() == a.len());
        assert(b.to_multiset().len() == b.len());
        assert(b.len() == 0);
        assert(b =~= Seq::<InvoiceLine>::empty());
    } else {
        let x = a.last();
        let a1 = a.drop_last();
        assert(a1.push(x) =~= a);
        assert(a.to_multiset() =~= a1.to_multiset().insert(x));
        assert(b.to_multiset().count(x) > 0);
        assert(b.contains(x));
        let j = choose|j: int| 0 <= j < b.len() && b[j] == x;
        let b1 = b.remove(j);
        assert(b1.to_multiset() =~= b.to_multiset().remove(x));
        assert(b1.to_multiset() =~= a1.to_multiset());
        law_balance_ignores_order(a1, b1);
        lemma_balance_remove(b, j);
    }
}

/// The invoice amounts of a sequence of lines.
pub open spec fn line_amounts(lines: Seq<InvoiceLine>) -> Seq<Amount> {
    lines.map_values(|l: InvoiceLine| l.amount)
}

/// Law: while no payment refers to any invoice, the balance is the total
/// invoiced.
pub proof fn law_unpaid_balance_is_total_invoiced(lines: Seq<InvoiceLine>)
    requires
        forall|i: int| 0 <= i < lines.len() ==> #[trigger] lines[i].settlement == Settlement::Unpaid,
    ensures
        balance_spec(lines) == total_spec(line_amounts(lines)),
    decreases lines.len(),
{
    if lines.len() > 0 {
        let t = lines.drop_last();
        assert forall|i: int| 0 <= i < t.len() implies #[trigger] t[i].settlement == Settlement::Unpaid by {
            assert(t[i] == lines[i]);
        }
        law_unpaid_balance_is_total_invoiced(t);
        assert(line_amounts(lines).drop_last() =~= line_amounts(t));
        assert(lines[lines.len() - 1].settlement == Settlement::Unpaid);
    } else {
        assert(line_amounts(lines) =~= Seq::<Amount>::empty());
    }
}


/// The invoice that a customer received last.
#[derive(Debug)]
pub struct InvoiceSummary {
    pub id: String,
    pub amount: Amount,
    pub created_at: Timestamp,
}

/// The breakdown of a customer's latest invoice.
#[derive(Debug)]
pub struct LatestInvoice {
    pub invoice_no: String,
    pub date: Timestamp,
    pub customer_name: String,
    pub meter_no: String,
    pub period: String,
    pub consumption: i32,
    pub rate: i32,
    pub subtotal: i32,
    pub service_charge: i32,
    pub total: Amount,
}

/// The part of an invoice total (in hundredths) before the service charge:
/// the whole-unit total less the charge.
pub open spec fn subtotal_spec(total_cents: int, service_charge: int) -> int {
    trunc_div(total_cents, 100) - service_charge
}

/// The units of consumption that an invoice total stands for: the subtotal
/// divided by the rate per unit, rounded toward zero.
pub open spec fn consumption_spec(total_cents: int, service_charge: int) -> int {
    trunc_div(subtotal_spec(total_cents, service_charge), RATE_PER_UNIT as int)
}

/// Whether the subtotal of the latest invoice fits an `i32`.
pub open spec fn breakdown_fits(invoice: Option<InvoiceSummary>, service_charge: i32) -> bool {
    invoice matches Some(inv) ==> i32::MIN <= subtotal_spec(inv.amount@, service_charge as int)
        <= i32::MAX
}

/// Whether the subtotal of the latest invoice fits an `i32`, the condition
/// under which `latest_invoice` may be called.
pub fn invoice_breakdown_fits(invoice: &Option<InvoiceSummary>, service_charge: i32) -> (r: bool)
    ensures
        r == breakdown_fits(*invoice, service_charge),
{
    match invoice {
        Some(inv) => {
            let units = inv.amount.whole_units() as i64;
            let subtotal = units - service_charge as i64;
            i32::MIN as i64 <= subtotal && subtotal <= i32::MAX as i64
        },
        None => true,
    }
}

/// The breakdown of the latest invoice of a customer. Without an invoice
/// the number reads `Unknown`, the date and period are those of `now`, and
/// the amounts are zero.
pub fn latest_invoice(
    invoice: Option<InvoiceSummary>,
    customer_name: String,
    meter_no: String,
    now: Timestamp,
    service_charge: i32,
) -> (r: LatestInvoice)
    requires
        breakdown_fits(invoice, service_charge),
    ensures
        r.customer_name == customer_name,
        r.meter_no == meter_no,
        r.rate == RATE_PER_UNIT,
        r.service_charge == service_charge,
        match invoice {
            Some(inv) => {
                &&& r.invoice_no@ == inv.id@
                &&& r.date == inv.created_at
                &&& r.period@ == decimal(inv.created_at.month as nat)
                &&& r.subtotal == subtotal_spec(inv.amount@, service_charge as int)
                &&& r.consumption == consumption_spec(inv.amount@, service_charge as int)
                &&& rounds_toward_zero(r.subtotal as int, RATE_PER_UNIT as int, r.consumption as int)
                &&& r.total == inv.amount
            },
            None => {
                &&& r.invoice_no@ == "Unknown"@
                &&& r.date == now
                &&& r.period@ == decimal(now.month as nat)
                &&& r.subtotal == 0
                &&& r.consumption == 0
                &&& r.total@ == 0
            },
        },
{
    match invoice {
        Some(inv) => {
            let units = inv.amount.whole_units();
            assert(i32::MIN <= units - service_charge <= i32::MAX);
            let subtotal = units - service_charge;
            let consumption = if subtotal >= 0 {
                subtotal / RATE_PER_UNIT
            } else {
                (0 - ((0 - subtotal as i64) / RATE_PER_UNIT as i64)) as i32
            };
            let mut period = String::new();
            push_decimal(&mut period, inv.created_at.month as u64);
            LatestInvoice {
                invoice_no: inv.id,
                date: inv.created_at,
                customer_name,
                meter_no,
                period,
                consumption,
                rate: RATE_PER_UNIT,
                subtotal,
                service_charge,
                total: inv.amount,
            }
        },
        None => {
            let mut period = String::new();
            push_decimal(&mut period, now.month as u64);
            LatestInvoice {
                invoice_no: String::from_str("Unknown"),
                date: now,
                customer_name,
                meter_no,
                period,
                consumption: 0,
                rate: RATE_PER_UNIT,
                subtotal: 0,
                service_charge,
                total: Amount::zero(),
            }
        },
    }
}

/// The charge for `units` of consumption, in whole units: the units at
/// the rate per unit plus the service charge. This is the pricing that the
/// breakdown of an invoice undoes.
pub open spec fn charge_spec(units: int, service_charge: int) -> int {
    units * RATE_PER_UNIT + service_charge
}

/// The charge of a reading of `units`, in whole units; `None` where it does
/// not fit an `i32`.
pub fn reading_charge(units: i32, service_charge: i32) -> (r: Option<i32>)
    ensures
        r is Some <==> i32::MIN <= charge_spec(units as int, service_charge as int) <= i32::MAX,
        r matches Some(c) ==> c == charge_spec(units as int, service_charge as int),
{
    let rate = RATE_PER_UNIT as i64;
    assert(rate == 25);
    let c = units as i64 * rate + service_charge as i64;
    if i32::MIN as i64 <= c && c <= i32::MAX as i64 {
        Some(c as i32)
    } else {
        None
    }
}

/// Law: the breakdown undoes pricing. An invoice whose total is the charge
/// of `units` (`charge_spec`, as `reading_charge` computes it) breaks down
/// into a subtotal of `units` times the rate and a consumption of `units`.
pub proof fn law_breakdown_recovers_consumption(units: int, service_charge: int)
    requires
        units >= 0,
    ensures
        subtotal_spec(charge_spec(units, service_charge) * 100, service_charge)
            == units * RATE_PER_UNIT,
        consumption_spec(charge_spec(units, service_charge) * 100, service_charge) == units,
{
    let whole = units * RATE_PER_UNIT + service_charge;
    assert(trunc_div(whole * 100, 100) == whole) by {
        if whole >= 0 {
            assert((whole * 100) / 100 == whole);
        } else {
            assert(((-(whole * 100)) / 100) == -whole);
        }
    }
    assert((units * 25) / 25 == units);
}

/// Law: the subtotal and the service charge add up to the whole-unit total.
pub proof fn law_subtotal_plus_charge_is_total(total_cents: int, service_charge: int)
    ensures
        subtotal_spec(total_cents, service_charge) + service_charge == trunc_div(total_cents, 100),
{
}

/// Whether the reading of a meter is covered by the customer's last payment.
#[derive(Clone, Copy, Debug, PartialEq, Eq, Structural)]
pub enum PaymentStatus {
    Paid,
    Pending,
    Unpaid,
}

/// The status of a reading: `Paid` when the customer's last payment covers
/// the amount due (in hundredths), `Pending` when it falls short, `Unpaid`
/// without payment.
pub open spec fn payment_status_spec(last_payment: Option<Amount>, due: int) -> PaymentStatus {
    match last_payment {
        Some(p) => if p@ >= due { PaymentStatus::Paid } else { PaymentStatus::Pending },
        None => PaymentStatus::Unpaid,
    }
}

/// The status of a reading given the customer's last payment and the amount
/// due on the meter.
pub fn payment_status(last_payment: Option<Amount>, due: Amount) -> (r: PaymentStatus)
    ensures
        r == payment_status_spec(last_payment, due@),
        last_payment matches Some(p) && p@ >= due@ ==> r == PaymentStatus::Paid,
        last_payment matches Some(p) && p@ < due@ ==> r == PaymentStatus::Pending,
        last_payment is None ==> r == PaymentStatus::Unpaid,
{
    match last_payment {
        Some(p) => if p.cents >= due.cents { PaymentStatus::Paid } else { PaymentStatus::Pending },
        None => PaymentStatus::Unpaid,
    }
}

/// The word shown for a status.
pub open spec fn status_word(s: PaymentStatus) -> Seq<char> {
    match s {
        PaymentStatus::Paid => "Paid"@,
        PaymentStatus::Pending => "Pending"@,
        PaymentStatus::Unpaid => "Unpaid"@,
    }
}

impl PaymentStatus {
    /// The word shown for this status.
    pub fn label(&self) -> (r: String)
        ensures
            r@ == status_word(*self),
    {
        match self {
            PaymentStatus::Paid => String::from_str("Paid"),
            PaymentStatus::Pending => String::from_str("Pending"),
            PaymentStatus::Unpaid => String::from_str("Unpaid"),
        }
    }
}

/// Law: paying more never turns a paid reading into an unpaid or pending
/// one.
pub proof fn law_larger_payment_stays_paid(p: Amount, q: Amount, due: int)
    requires
        p@ <= q@,
        payment_status_spec(Some(p), due) == PaymentStatus::Paid,
    ensures
        payment_status_spec(Some(q), due) == PaymentStatus::Paid,
{
}


/// What the billing of a meter holds for a reading: the amount due on the
/// meter (if recorded) and the last payment of its customer (if any).
#[derive(Clone, Copy, Debug, PartialEq, Eq, Structural)]
pub struct MeterBilling {
    pub amount: Option<Amount>,
    pub last_payment: Option<Amount>,
}

/// A reading of a meter, with the billing of its meter when the meter is
/// known.
#[derive(Debug)]
pub struct ReadingRow {
    pub reading_id: i32,
    pub period: String,
    pub units: i32,
    pub meter: Option<MeterBilling>,
}

/// One line of a meter's reading history.
#[derive(Debug)]
pub struct ReadingHistory {
    pub history_id: i32,
    pub period: String,
    pub reading: i32,
    pub consumption: i32,
    pub amount: Amount,
    pub status: String,
}

/// The consumption of each reading, labelled with its period.
#[derive(Debug)]
pub struct ConsumptionTrend {
    pub labels: Vec<String>,
    pub values: Vec<i32>,
}

/// The readings whose meter is known, in their order.
pub open spec fn metered(rows: Seq<ReadingRow>) -> Seq<ReadingRow>
    decreases rows.len(),
{
    if rows.len() == 0 {
        Seq::empty()
    } else if rows.last().meter is Some {
        metered(rows.drop_last()).push(rows.last())
    } else {
        metered(rows.drop_last())
    }
}

/// The amount due on a meter: the recorded amount, zero when none is.
pub open spec fn due_amount(b: MeterBilling) -> int {
    match b.amount {
        Some(a) => a@,
        None => 0,
    }
}

/// Whether `h` is the history line of the metered reading `row`: the
/// reading's units are both its reading and its consumption, the amount is
/// the amount due on the meter and the status compares it with the last
/// payment.
pub open spec fn history_line_of(h: ReadingHistory, row: ReadingRow) -> bool {
    let b = row.meter->0;
    &&& h.history_id == row.reading_id
    &&& h.period@ == row.period@
    &&& h.reading == row.units
    &&& h.consumption == row.units
    &&& h.amount@ == due_amount(b)
    &&& h.status@ == status_word(payment_status_spec(b.last_payment, due_amount(b)))
}

/// Whether the history lines `h`, trend labels `l` and trend values `v`
/// describe the metered readings `m`, one entry each, in order.
pub open spec fn describes(
    h: Seq<ReadingHistory>,
    l: Seq<String>,
    v: Seq<i32>,
    m: Seq<ReadingRow>,
) -> bool {
    &&& h.len() == m.len()
    &&& l.len() == m.len()
    &&& v.len() == m.len()
    &&& forall|k: int|
        0 <= k < m.len() ==> {
            &&& history_line_of(#[trigger] h[k], m[k])
            &&& l[k]@ == m[k].period@
            &&& v[k] == m[k].units
        }
}

proof fn lemma_metered_step(rows: Seq<ReadingRow>, i: int)
    requires
        0 <= i < rows.len(),
    ensures
        metered(rows.take(i + 1)) == (if rows[i].meter is Some {
            metered(rows.take(i)).push(rows[i])
        } else {
            metered(rows.take(i))
        }),
{
    assert(rows.take(i + 1).drop_last() =~= rows.take(i));
    assert(rows.take(i + 1).last() == rows[i]);
}

proof fn lemma_describes_push(
    h: Seq<ReadingHistory>,
    l: Seq<String>,
    v: Seq<i32>,
    m: Seq<ReadingRow>,
    line: ReadingHistory,
    label: String,
    value: i32,
    row: ReadingRow,
)
    requires
        describes(h, l, v, m),
        history_line_of(line, row),
        label@ == row.period@,
        value == row.units,
    ensures
        describes(h.push(line), l.push(label), v.push(value), m.push(row)),
{
    let h2 = h.push(line);
    let l2 = l.push(label);
    let v2 = v.push(value);
    let m2 = m.push(row);
    assert forall|k: int| 0 <= k < m2.len() implies {
        &&& history_line_of(#[trigger] h2[k], m2[k])
        &&& l2[k]@ == m2[k].period@
        &&& v2[k] == m2[k].units
    } by {
        if k < m.len() {
            assert(h2[k] == h[k]);
            assert(m2[k] == m[k]);
        }
    }
}

/// The reading history of a meter and its consumption trend. Readings whose
/// meter is unknown are left out of both; the others keep their order.
#[verifier::spinoff_prover]
pub fn reading_history(rows: &Vec<ReadingRow>) -> (r: (Vec<ReadingHistory>, ConsumptionTrend))
    ensures
        describes(r.0@, r.1.labels@, r.1.values@, metered(rows@)),
{
    let mut history: Vec<ReadingHistory> = Vec::new();
    let mut labels: Vec<String> = Vec::new();
    let mut values: Vec<i32> = Vec::new();
    let mut i: usize = 0;
    while i < rows.len()
        invariant
            i <= rows.len(),
            describes(history@, labels@, values@, metered(rows@.take(i as int))),
        decreases rows.len() - i,
    {
        let row = &rows[i];
        proof { lemma_metered_step(rows@, i as int); }
        match row.meter {
            Some(b) => {
                let due = match b.amount {
                    Some(a) => a,
                    None => Amount::zero(),
                };
                let status = payment_status(b.last_payment, due);
                let line = ReadingHistory {
                    history_id: row.reading_id,
                    period: row.period.clone(),
                    reading: row.units,
                    consumption: row.units,
                    amount: due,
                    status: status.label(),
                };
                let label = row.period.clone();
                proof {
                    lemma_describes_push(
                        history@, labels@, values@, metered(rows@.take(i as int)),
                        line, label, row.units, rows@[i as int],
                    );
                }
                history.push(line);
                labels.push(label);
                values.push(row.units);
            },
            None => {},
        }
        i += 1;
    }
    assert(rows@.take(rows.len() as int) =~= rows@);
    (history, ConsumptionTrend { labels, values })
}

/// The payments of a customer, labelled with when they were made.
#[derive(Debug)]
pub struct PaymentTrend {
    pub labels: Vec<String>,
    pub values: Vec<Amount>,
}

/// A payment as shown in a customer's payment trend.
#[derive(Clone, Copy, Debug, PartialEq, Eq, Structural)]
pub struct PaymentPoint {
    pub made_at: Timestamp,
    pub amount: Amount,
}

/// Whether `labels` and `values` hold the trend of the first
/// `labels.len()` payments of `payments`.
pub open spec fn trend_of(labels: Seq<String>, values: Seq<Amount>, payments: Seq<PaymentPoint>) -> bool {
    &&& labels.len() == values.len()
    &&& labels.len() <= payments.len()
    &&& forall|k: int|
        #![trigger labels[k]]
        0 <= k < labels.len() ==> {
            &&& labels[k]@ == timestamp_text_spec(payments[k].made_at)
            &&& values[k] == payments[k].amount
        }
}

proof fn lemma_trend_step(
    labels: Seq<String>,
    values: Seq<Amount>,
    payments: Seq<PaymentPoint>,
    label: String,
)
    requires
        trend_of(labels, values, payments),
        labels.len() < payments.len(),
        label@ == timestamp_text_spec(payments[labels.len() as int].made_at),
    ensures
        trend_of(labels.push(label), values.push(payments[labels.len() as int].amount), payments),
{
    let n = labels.len() as int;
    let l2 = labels.push(label);
    let v2 = values.push(payments[n].amount);
    assert forall|k: int|
        #![trigger l2[k]]
        0 <= k < l2.len() implies {
            &&& l2[k]@ == timestamp_text_spec(payments[k].made_at)
            &&& v2[k] == payments[k].amount
        } by {
        if k < n {
            assert(l2[k] == labels[k]);
            assert(v2[k] == values[k]);
        }
    }
}

/// The payment trend of a customer: each payment's time, as chrono displays
/// it, as label and its amount as value, in the order given.
pub fn payment_trend(payments: &Vec<PaymentPoint>) -> (r: PaymentTrend)
    requires
        forall|k: int| 0 <= k < payments.len() ==> (#[trigger] payments@[k]).made_at.valid(),
    ensures
        r.labels.len() == payments.len(),
        trend_of(r.labels@, r.values@, payments@),
{
    let mut labels: Vec<String> = Vec::new();
    let mut values: Vec<Amount> = Vec::new();
    let mut i: usize = 0;
    while i < payments.len()
        invariant
            i <= payments.len(),
            labels.len() == i,
            forall|k: int| 0 <= k < payments.len() ==> (#[trigger] payments@[k]).made_at.valid(),
            trend_of(labels@, values@, payments@),
        decreases payments.len() - i,
    {
        let p = payments[i];
        assert(p.made_at.valid());
        let label = timestamp_text(p.made_at);
        proof { lemma_trend_step(labels@, values@, payments@, label); }
        labels.push(label);
        values.push(p.amount);
        i += 1;
    }
    PaymentTrend { labels, values }
}

/// The figures of a customer's account shown with a meter search.
#[derive(Debug)]
pub struct AccountOverview {
    pub balance_cents: i128,
    pub last_payment: Amount,
    pub latest_reading: i32,
}

/// The account figures of a customer: the outstanding balance over the
/// invoices, the last payment (zero when none) and the latest reading
/// (zero when none).
pub fn account_overview(
    invoices: &Vec<InvoiceLine>,
    last_payment: Option<Amount>,
    latest_reading: Option<i32>,
) -> (r: AccountOverview)
    ensures
        r.balance_cents == balance_spec(invoices@),
        r.last_payment@ == (match last_payment {
            Some(p) => p@,
            None => 0,
        }),
        r.latest_reading == (match latest_reading {
            Some(u) => u,
            None => 0,
        }),
{
    AccountOverview {
        balance_cents: outstanding_balance(invoices),
        last_payment: match last_payment {
            Some(p) => p,
            None => Amount::zero(),
        },
        latest_reading: match latest_reading {
            Some(u) => u,
            None => 0,
        },
    }
}

/// Figures shown on the company dashboard.
#[derive(Debug, PartialEq, Eq, Structural)]
pub struct DashboardStats {
    pub total_customers: usize,
    pub active_meters: usize,
    pub monthly_revenue_cents: i128,
    pub pending_payments_cents: i128,
}

/// The dashboard figures: the counts as given, the revenue as the total of
/// the month's payments and the pending amount as the total of the invoices
/// that no payment refers to.
pub fn dashboard_stats(
    total_customers: usize,
    active_meters: usize,
    monthly_payments: &Vec<Amount>,
    unpaid_invoices: &Vec<Amount>,
) -> (r: DashboardStats)
    ensures
        r.total_customers == total_customers,
        r.active_meters == active_meters,
        r.monthly_revenue_cents == total_spec(monthly_payments@),
        r.pending_payments_cents == total_spec(unpaid_invoices@),
{
    DashboardStats {
        total_customers,
        active_meters,
        monthly_revenue_cents: total_cents(monthly_payments),
        pending_payments_cents: total_cents(unpaid_invoices),
    }
}


/// Whether `q` is `n` divided by `d` rounded toward zero: for `n >= 0`,
/// `q * d <= n < (q + 1) * d`; for `n < 0`, `(q - 1) * d < n <= q * d`.
pub open spec fn rounds_toward_zero(n: int, d: int, q: int) -> bool {
    if n >= 0 {
        q * d <= n < (q + 1) * d
    } else {
        (q - 1) * d < n <= q * d
    }
}

/// Law: the whole-unit part of an amount in hundredths drops the fraction
/// toward zero, for every amount.
pub proof fn law_whole_units_round_toward_zero(cents: int)
    ensures
        rounds_toward_zero(cents, 100, trunc_div(cents, 100)),
{
}

/// Law: for every invoice total and service charge, the consumption of the
/// breakdown is the subtotal divided by the rate per unit, rounded toward
/// zero, and the subtotal is the whole-unit total less the service charge.
pub proof fn law_consumption_is_subtotal_over_rate(total_cents: int, service_charge: int)
    ensures
        rounds_toward_zero(total_cents, 100, subtotal_spec(total_cents, service_charge) + service_charge),
        rounds_toward_zero(
            subtotal_spec(total_cents, service_charge),
            RATE_PER_UNIT as int,
            consumption_spec(total_cents, service_charge),
        ),
{
}

/// Law: what each invoice adds to the balance. An invoice that no payment
/// refers to adds its amount; one that a payment refers to adds exactly the
/// balance recorded on that payment, whatever its value (zero included),
/// and nothing when no balance was recorded. A customer without invoices
/// owes nothing.
pub proof fn law_balance_contributions(lines: Seq<InvoiceLine>, amount: Amount, recorded: Amount)
    ensures
        balance_spec(Seq::<InvoiceLine>::empty()) == 0,
        balance_spec(lines.push(InvoiceLine { amount, settlement: Settlement::Unpaid }))
            == balance_spec(lines) + amount@,
        balance_spec(lines.push(InvoiceLine { amount, settlement: Settlement::Paid { balance: Some(recorded) } }))
            == balance_spec(lines) + recorded@,
        balance_spec(lines.push(InvoiceLine { amount, settlement: Settlement::Paid { balance: None } }))
            == balance_spec(lines),
{
    let a = lines.push(InvoiceLine { amount, settlement: Settlement::Unpaid });
    let b = lines.push(InvoiceLine { amount, settlement: Settlement::Paid { balance: Some(recorded) } });
    let c = lines.push(InvoiceLine { amount, settlement: Settlement::Paid { balance: None } });
    assert(a.drop_last() =~= lines);
    assert(b.drop_last() =~= lines);
    assert(c.drop_last() =~= lines);
}

/// Law: the status of a reading, for every amount due (zero included) and
/// every payment: `Paid` whenever the last payment is at least the amount
/// due, `Pending` whenever it is below it, `Unpaid` without a payment.
pub proof fn law_status_compares_payment_with_due(last_payment: Option<Amount>, due: int)
    ensures
        last_payment matches Some(p) && p@ >= due ==> payment_status_spec(last_payment, due)
            == PaymentStatus::Paid,
        last_payment matches Some(p) && p@ < due ==> payment_status_spec(last_payment, due)
            == PaymentStatus::Pending,
        last_payment is None ==> payment_status_spec(last_payment, due) == PaymentStatus::Unpaid,
{
}

/// Law: a reading of a meter without a recorded amount owes zero, so any
/// last payment of at least zero shows it as paid.
pub proof fn law_no_recorded_amount_is_paid_by_any_payment(row: ReadingRow, h: ReadingHistory, p: Amount)
    requires
        row.meter matches Some(b) && b.amount is None && b.last_payment == Some(p),
        p@ >= 0,
        history_line_of(h, row),
    ensures
        h.amount@ == 0,
        h.status@ == "Paid"@,
{
}

} // verus!
