//! Invoices: status lifecycle and tax arithmetic.
use vstd::prelude::*;

use crate::domain::error::{
    errors_result, plain_error, put_new, unit_result_is, ConflictReason, DomainError,
    DomainErrorView, ErrorEntries, FieldErrors,
};
use crate::domain::money::{round_half_up, Money};
use crate::domain::order::LineItem;
use crate::engine::money::{fits_i64, spec_round_half_up};
use crate::text::chars_of;
use chrono::Datelike;

verus! {

/// Default VAT rate (19%, in basis points) applied to every invoice.
pub const DEFAULT_TAX_RATE_BP: u32 = 1900;

/// Default payment term: `due_date = issue_date + 14 days`.
pub const INVOICE_DUE_DAYS: i64 = 14;

/// The calendar date `days` days after the date `y-m-d` (proleptic
/// Gregorian), as year, month and day; `None` where `y-m-d` is no date or
/// the result falls outside the range of dates chrono represents.
pub uninterp spec fn date_plus_days(y: i32, m: u32, d: u32, days: i64) -> Option<(i32, u32, u32)>;

/// Calls `chrono::NaiveDate::from_ymd_opt` and `checked_add_signed` with
/// `TimeDelta::try_days`: the date `days` days after `y-m-d`, or `None`
/// where the input is no date or the result is out of chrono's range. It
/// depends on its arguments alone and never panics.
#[verifier::external_body]
fn add_days(y: i32, m: u32, d: u32, days: i64) -> (r: Option<(i32, u32, u32)>)
    ensures
        r == date_plus_days(y, m, d, days),
{
    chrono::NaiveDate::from_ymd_opt(y, m, d)
        .and_then(|date| date.checked_add_signed(chrono::TimeDelta::try_days(days)?))
        .map(|due| (due.year(), due.month(), due.day()))
}

/// The due date of an invoice issued on `y-m-d`: the payment term later.
/// `None` where `y-m-d` is no date or the due date would fall outside the
/// range of dates.
pub fn due_date_from_issue(y: i32, m: u32, d: u32) -> (r: Option<(i32, u32, u32)>)
    ensures
        r == date_plus_days(y, m, d, INVOICE_DUE_DAYS),
{
    add_days(y, m, d, INVOICE_DUE_DAYS)
}

#[derive(Debug, Clone, Copy, PartialEq, Eq, Structural)]
pub enum InvoiceStatus {
    Draft,
    Issued,
    Paid,
    Void,
}

/// The snake_case key of an invoice status (its wire form).
pub open spec fn invoice_status_key(s: InvoiceStatus) -> Seq<char> {
    match s {
        InvoiceStatus::Draft => "draft"@,
        InvoiceStatus::Issued => "issued"@,
        InvoiceStatus::Paid => "paid"@,
        InvoiceStatus::Void => "void"@,
    }
}

pub open spec fn invoice_status_name(s: InvoiceStatus) -> Seq<char> {
    match s {
        InvoiceStatus::Draft => "Draft"@,
        InvoiceStatus::Issued => "Issued"@,
        InvoiceStatus::Paid => "Paid"@,
        InvoiceStatus::Void => "Void"@,
    }
}

impl InvoiceStatus {
    pub fn key(self) -> (r: &'static str)
        ensures
            r@ == invoice_status_key(self),
    {
        match self {
            InvoiceStatus::Draft => "draft",
            InvoiceStatus::Issued => "issued",
            InvoiceStatus::Paid => "paid",
            InvoiceStatus::Void => "void",
        }
    }

    pub fn debug_name(self) -> (r: &'static str)
        ensures
            r@ == invoice_status_name(self),
    {
        match self {
            InvoiceStatus::Draft => "Draft",
            InvoiceStatus::Issued => "Issued",
            InvoiceStatus::Paid => "Paid",
            InvoiceStatus::Void => "Void",
        }
    }
}

/// `draft -> issued -> paid`; `void` reachable from `draft` and `issued`.
pub open spec fn invoice_transition_allowed(current: InvoiceStatus, target: InvoiceStatus) -> bool {
    match current {
        InvoiceStatus::Draft => target == InvoiceStatus::Issued || target == InvoiceStatus::Void,
        InvoiceStatus::Issued => target == InvoiceStatus::Paid || target == InvoiceStatus::Void,
        InvoiceStatus::Paid | InvoiceStatus::Void => false,
    }
}

/// An invoice moves only forward, draft to issued to paid; it can be voided
/// exactly while not yet paid (from draft or issued); it is paid only once
/// issued, and nothing returns to draft.
pub proof fn lemma_invoice_lifecycle(current: InvoiceStatus, target: InvoiceStatus)
    ensures
        invoice_transition_allowed(current, InvoiceStatus::Void) <==> (current == InvoiceStatus::Draft
            || current == InvoiceStatus::Issued),
        invoice_transition_allowed(current, InvoiceStatus::Paid) <==> current == InvoiceStatus::Issued,
        invoice_transition_allowed(current, InvoiceStatus::Issued) <==> current == InvoiceStatus::Draft,
        !invoice_transition_allowed(current, InvoiceStatus::Draft),
        current == InvoiceStatus::Paid || current == InvoiceStatus::Void ==> !invoice_transition_allowed(
            current,
            target,
        ),
{
}

/// A disallowed move is a transition conflict.
pub fn validate_transition(current: InvoiceStatus, target: InvoiceStatus) -> (r: Result<(), DomainError>)
    ensures
        invoice_transition_allowed(current, target) ==> r is Ok,
        !invoice_transition_allowed(current, target) ==> (r matches Err(e) && e@
            == DomainErrorView::Conflict(
            ConflictReason::InvoiceStatusTransition { from: current, to: target },
        )),
{
    let allowed = match current {
        InvoiceStatus::Draft => target == InvoiceStatus::Issued || target == InvoiceStatus::Void,
        InvoiceStatus::Issued => target == InvoiceStatus::Paid || target == InvoiceStatus::Void,
        InvoiceStatus::Paid | InvoiceStatus::Void => false,
    };
    if allowed {
        Ok(())
    } else {
        Err(
            DomainError::Conflict(
                ConflictReason::InvoiceStatusTransition { from: current, to: target },
            ),
        )
    }
}

/// `round(net_total × tax_rate_bp / 10000)`, half up, on the total.
pub fn compute_tax(net_total: &Money, tax_rate_bp: u32) -> (r: Money)
    requires
        fits_i64(net_total.amount_minor * tax_rate_bp),
        fits_i64(net_total.amount_minor * tax_rate_bp + 5000),
    ensures
        r.amount_minor == spec_round_half_up(net_total.amount_minor * tax_rate_bp, 10000),
        r.currency@ == net_total.currency@,
{
    let amount_minor = round_half_up(net_total.amount_minor * tax_rate_bp as i64, 10_000);
    Money { amount_minor, currency: net_total.currency.clone() }
}

/// Net plus tax, in the net's currency.
pub fn compute_gross(net_total: &Money, tax_total: &Money) -> (r: Money)
    requires
        fits_i64(net_total.amount_minor + tax_total.amount_minor),
    ensures
        r.amount_minor == net_total.amount_minor + tax_total.amount_minor,
        r.currency@ == net_total.currency@,
{
    Money {
        amount_minor: net_total.amount_minor + tax_total.amount_minor,
        currency: net_total.currency.clone(),
    }
}

#[derive(Debug, Clone, PartialEq)]
pub struct Invoice {
    pub id: String,
    pub number: String,
    pub order_id: String,
    pub customer_id: String,
    pub status: InvoiceStatus,
    pub currency: String,
    pub exchange_rate: Option<String>,
    pub line_items: Vec<LineItem>,
    pub net_total: Money,
    pub tax_rate_bp: u32,
    pub tax_total: Money,
    pub gross_total: Money,
    pub issue_date: Option<String>,
    pub due_date: Option<String>,
    pub created_at: String,
    pub updated_at: String,
}

#[derive(Debug, Clone, PartialEq)]
pub struct NewInvoice {
    pub order_id: String,
    /// Optional currency override; only the order's own currency is accepted.
    pub currency: Option<String>,
}

impl NewInvoice {
    /// The order reference must not be empty.
    pub open spec fn spec_errors(self) -> ErrorEntries {
        if self.order_id@.len() < 1 {
            put_new(Seq::empty(), "order_id"@, plain_error("length"@))
        } else {
            Seq::empty()
        }
    }

    pub fn validate_domain(&self) -> (r: Result<(), DomainError>)
        ensures
            unit_result_is(r, errors_result(self.spec_errors())),
    {
        let mut e = FieldErrors::new();
        if chars_of(self.order_id.as_str()).len() < 1 {
            e.put("order_id", "length");
        }
        crate::domain::error::into_result(e)
    }
}

#[derive(Debug, Clone, PartialEq)]
pub struct InvoiceListQuery {
    pub page: u32,
    pub limit: u32,
    pub sort: String,
    pub customer_id: Option<String>,
    pub status: Option<InvoiceStatus>,
    pub q: Option<String>,
}

} // verus!
