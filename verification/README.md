# utility_billing

The billing rules of a utility metering service (meters, customers,
readings, invoices and payments), written in Verus with their contracts and
proved.

## Layout

- `src/text.rs`: decimal digits, zero padding, `u32` parsing and prefix
  trimming over `Seq<char>`.
- `src/ids.rs`: meter, customer and invoice numbers (`HMI-001`,
  `CUS-HMI-001`, `INV-001`), the next number after the most recent one, and
  batches of meter numbers.
- `src/calendar.rs`: which dates exist (through `chrono`), the month-to-date
  window, the defaulting cut-off date and the label of a reading's period.
- `src/billing.rs`: money amounts in hundredths, totals, outstanding
  balances, the breakdown of the latest invoice, reading history and
  payment status, dashboard figures.
- `src/payments.rs`: the payment listing filter and its status word.
- `src/requests.rs`: defaults for the fields of incoming requests.
- `app/`: the HTTP service (axum, sea-orm, tera) that reads the database,
  calls the library and renders its answers.
- `tests/`: tests of the library on concrete values.

The service charge added to invoices is read from the `SERVICE_CHARGE`
environment variable by the service.
