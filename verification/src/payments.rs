//! The payment listing: which payments a query asks for and the status
//! word shown beside each of them.

use vstd::prelude::*;
use crate::text::same_text;

verus! {

/// Query string of the payment listing.
#[derive(Debug)]
pub struct PaymentQuery {
    pub filter: Option<String>,
}

/// The payments a listing shows.
#[derive(Clone, Copy, Debug, PartialEq, Eq, Structural)]
pub enum PaymentFilter {
    /// Every payment.
    All,
    /// Payments that refer to no invoice.
    Pending,
    /// Payments that refer to an invoice.
    Completed,
    /// Payments that refer to no invoice and were made after the defaulting
    /// cut-off date.
    Defaulters,
}

/// The filter that a query text selects: `all`, `pending`, `completed` and
/// `defaulters` select their listing; no text, or any other text, selects
/// every payment.
pub open spec fn filter_for(text: Option<Seq<char>>) -> PaymentFilter {
    match text {
        None => PaymentFilter::All,
        Some(t) => if t == "pending"@ {
            PaymentFilter::Pending
        } else if t == "completed"@ {
            PaymentFilter::Completed
        } else if t == "defaulters"@ {
            PaymentFilter::Defaulters
        } else {
            PaymentFilter::All
        },
    }
}

/// The status word shown beside each payment of a listing.
pub open spec fn listing_status(f: PaymentFilter) -> Seq<char> {
    match f {
        PaymentFilter::All => "All"@,
        PaymentFilter::Pending => "Pending"@,
        PaymentFilter::Completed => "Completed"@,
        PaymentFilter::Defaulters => "Defaulted"@,
    }
}

impl PaymentQuery {
    /// The text of the query's filter, if it has one.
    pub open spec fn filter_text(&self) -> Option<Seq<char>> {
        match &self.filter {
            Some(s) => Some(s@),
            None => None,
        }
    }

    /// The listing this query asks for.
    pub fn payment_filter(&self) -> (r: PaymentFilter)
        ensures
            r == filter_for(self.filter_text()),
    {
        match &self.filter {
            None => PaymentFilter::All,
            Some(s) => {
                let t = s.as_str();
                if same_text(t, "pending") {
                    PaymentFilter::Pending
                } else if same_text(t, "completed") {
                    PaymentFilter::Completed
                } else if same_text(t, "defaulters") {
                    PaymentFilter::Defaulters
                } else {
                    PaymentFilter::All
                }
            },
        }
    }
}

impl PaymentFilter {
    /// The status word shown beside each payment of this listing.
    pub fn status_label(&self) -> (r: String)
        ensures
            r@ == listing_status(*self),
    {
        match self {
            PaymentFilter::All => String::from_str("All"),
            PaymentFilter::Pending => String::from_str("Pending"),
            PaymentFilter::Completed => String::from_str("Completed"),
            PaymentFilter::Defaulters => String::from_str("Defaulted"),
        }
    }
}

/// Law: a query without a filter and a query naming `all` or any word that
/// is not a listing both show every payment, with the status word `All`.
pub proof fn law_unknown_filter_lists_everything(t: Seq<char>)
    requires
        t != "pending"@,
        t != "completed"@,
        t != "defaulters"@,
    ensures
        filter_for(Some(t)) == filter_for(None),
        filter_for(Some(t)) == PaymentFilter::All,
        listing_status(filter_for(Some(t))) == "All"@,
{
}

} // verus!
