//! Billing rules of a utility metering service: identifier numbering,
//! billing-period dates, invoice arithmetic, payment status and the
//! defaults applied to incoming requests.

pub mod text;
pub mod ids;
pub mod calendar;
pub mod billing;
pub mod payments;
pub mod requests;
