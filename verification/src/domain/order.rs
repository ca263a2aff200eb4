//! Orders: status lifecycle, line items, totals.
use vstd::prelude::*;

use crate::domain::customer::money_errors;
use crate::domain::error::{
    errors_result, plain_error, put_new, unit_result_is, ConflictReason, DomainError,
    DomainErrorView, ErrorEntries, FieldError, FieldErrorView, FieldErrors, StrMap,
};
use crate::domain::money::Money;
use crate::engine::money::fits_i64;
use crate::seqs::{lemma_sum_concat, sum};
use crate::text::{append_decimal, chars_of, decimal, owned, str_eq};

verus! {

#[derive(Debug, Clone, Copy, PartialEq, Eq, Structural)]
pub enum OrderStatus {
    Draft,
    Confirmed,
    InProduction,
    Completed,
    Cancelled,
}

pub open spec fn order_status_key(s: OrderStatus) -> Seq<char> {
    match s {
        OrderStatus::Draft => "draft"@,
        OrderStatus::Confirmed => "confirmed"@,
        OrderStatus::InProduction => "in_production"@,
        OrderStatus::Completed => "completed"@,
        OrderStatus::Cancelled => "cancelled"@,
    }
}

impl OrderStatus {
    /// The numeric wire code.
    pub open spec fn spec_code(self) -> u8 {
        match self {
            OrderStatus::Draft => 0,
            OrderStatus::Confirmed => 1,
            OrderStatus::InProduction => 2,
            OrderStatus::Completed => 3,
            OrderStatus::Cancelled => 4,
        }
    }

    pub fn code(self) -> (r: u8)
        ensures
            r == self.spec_code(),
    {
        match self {
            OrderStatus::Draft => 0,
            OrderStatus::Confirmed => 1,
            OrderStatus::InProduction => 2,
            OrderStatus::Completed => 3,
            OrderStatus::Cancelled => 4,
        }
    }

    /// The snake_case key.
    pub fn key(self) -> (r: &'static str)
        ensures
            r@ == order_status_key(self),
    {
        match self {
            OrderStatus::Draft => "draft",
            OrderStatus::Confirmed => "confirmed",
            OrderStatus::InProduction => "in_production",
            OrderStatus::Completed => "completed",
            OrderStatus::Cancelled => "cancelled",
        }
    }

    pub open spec fn spec_from_code(code: u8) -> Option<OrderStatus> {
        if code == 0 {
            Some(OrderStatus::Draft)
        } else if code == 1 {
            Some(OrderStatus::Confirmed)
        } else if code == 2 {
            Some(OrderStatus::InProduction)
        } else if code == 3 {
            Some(OrderStatus::Completed)
        } else if code == 4 {
            Some(OrderStatus::Cancelled)
        } else {
            None
        }
    }

    pub fn from_code(code: u8) -> (r: Option<OrderStatus>)
        ensures
            r == OrderStatus::spec_from_code(code),
    {
        if code == 0 {
            Some(OrderStatus::Draft)
        } else if code == 1 {
            Some(OrderStatus::Confirmed)
        } else if code == 2 {
            Some(OrderStatus::InProduction)
        } else if code == 3 {
            Some(OrderStatus::Completed)
        } else if code == 4 {
            Some(OrderStatus::Cancelled)
        } else {
            None
        }
    }

    /// The variant name, as in messages.
    pub fn debug_name(self) -> (r: &'static str)
        ensures
            r@ == order_status_name(self),
    {
        match self {
            OrderStatus::Draft => "Draft",
            OrderStatus::Confirmed => "Confirmed",
            OrderStatus::InProduction => "InProduction",
            OrderStatus::Completed => "Completed",
            OrderStatus::Cancelled => "Cancelled",
        }
    }
}

pub open spec fn order_status_name(s: OrderStatus) -> Seq<char> {
    match s {
        OrderStatus::Draft => "Draft"@,
        OrderStatus::Confirmed => "Confirmed"@,
        OrderStatus::InProduction => "InProduction"@,
        OrderStatus::Completed => "Completed"@,
        OrderStatus::Cancelled => "Cancelled"@,
    }
}

/// Whether an invoice may be raised against an order in `status`.
pub open spec fn spec_can_invoice(status: OrderStatus) -> bool {
    status == OrderStatus::Confirmed || status == OrderStatus::InProduction || status
        == OrderStatus::Completed
}

pub fn can_invoice(status: OrderStatus) -> (r: bool)
    ensures
        r == spec_can_invoice(status),
{
    match status {
        OrderStatus::Confirmed | OrderStatus::InProduction | OrderStatus::Completed => true,
        _ => false,
    }
}

/// Order lifecycle: `draft -> confirmed -> in_production -> completed`;
/// `cancelled` reachable from `draft` and `confirmed`; no other moves.
pub open spec fn order_transition_allowed(current: OrderStatus, target: OrderStatus) -> bool {
    match current {
        OrderStatus::Draft => target == OrderStatus::Confirmed || target == OrderStatus::Cancelled,
        OrderStatus::Confirmed => target == OrderStatus::InProduction || target
            == OrderStatus::Cancelled,
        OrderStatus::InProduction => target == OrderStatus::Completed,
        OrderStatus::Completed | OrderStatus::Cancelled => false,
    }
}

/// An order can be cancelled exactly before production starts: from draft
/// and from confirmed, and from no other status. Otherwise an order only
/// moves forward, draft to confirmed to in production to completed.
pub proof fn lemma_order_cancellation(current: OrderStatus, target: OrderStatus)
    ensures
        order_transition_allowed(current, OrderStatus::Cancelled) <==> (current == OrderStatus::Draft
            || current == OrderStatus::Confirmed),
        order_transition_allowed(OrderStatus::Confirmed, target) <==> (target == OrderStatus::InProduction
            || target == OrderStatus::Cancelled),
        !order_transition_allowed(current, OrderStatus::Draft),
        order_transition_allowed(current, target) && target != OrderStatus::Cancelled ==> (match (current, target) {
            (OrderStatus::Draft, OrderStatus::Confirmed) => true,
            (OrderStatus::Confirmed, OrderStatus::InProduction) => true,
            (OrderStatus::InProduction, OrderStatus::Completed) => true,
            _ => false,
        }),
{
}

/// A disallowed move is a transition conflict.
pub fn validate_transition(current: OrderStatus, target: OrderStatus) -> (r: Result<(), DomainError>)
    ensures
        order_transition_allowed(current, target) ==> r is Ok,
        !order_transition_allowed(current, target) ==> (r matches Err(e) && e@
            == DomainErrorView::Conflict(
            ConflictReason::OrderStatusTransition { from: current, to: target },
        )),
{
    let allowed = match current {
        OrderStatus::Draft => target == OrderStatus::Confirmed || target == OrderStatus::Cancelled,
        OrderStatus::Confirmed => target == OrderStatus::InProduction || target
            == OrderStatus::Cancelled,
        OrderStatus::InProduction => target == OrderStatus::Completed,
        OrderStatus::Completed | OrderStatus::Cancelled => false,
    };
    if allowed {
        Ok(())
    } else {
        Err(DomainError::Conflict(ConflictReason::OrderStatusTransition { from: current, to: target }))
    }
}

#[derive(Debug, Clone, PartialEq)]
pub struct LineItem {
    pub description: String,
    pub quantity: u32,
    pub unit_price: Money,
}

/// Each line's `unit_price × quantity`.
pub open spec fn line_products(items: Seq<LineItem>) -> Seq<int> {
    items.map_values(|it: LineItem| it.unit_price.amount_minor * it.quantity)
}

/// Totals add up over joined lists of line items, and no items total zero.
pub proof fn lemma_line_totals_add(a: Seq<LineItem>, b: Seq<LineItem>)
    ensures
        sum(line_products(Seq::<LineItem>::empty())) == 0,
        sum(line_products(a + b)) == sum(line_products(a)) + sum(line_products(b)),
{
    assert(line_products(a + b) =~= line_products(a) + line_products(b));
    lemma_sum_concat(line_products(a), line_products(b));
    assert(line_products(Seq::<LineItem>::empty()) =~= Seq::<int>::empty());
}

/// Running sums of `s`, left to right, all fit machine arithmetic.
pub open spec fn prefix_sums_fit(s: Seq<int>) -> bool {
    forall|k: int| 0 <= k <= s.len() ==> fits_i64(#[trigger] sum(s.take(k)))
}

/// Sums `quantity × unit_price` over the line items, in `currency` (whose
/// prices callers have checked are all in `currency`).
pub fn line_items_total(line_items: &[LineItem], currency: &str) -> (r: Money)
    requires
        forall|i: int| 0 <= i < line_items@.len() ==> fits_i64(#[trigger] line_products(line_items@)[i]),
        prefix_sums_fit(line_products(line_items@)),
    ensures
        r.amount_minor == sum(line_products(line_items@)),
        r.currency@ == currency@,
{
    let ghost ps = line_products(line_items@);
    let mut acc: i64 = 0;
    let mut i: usize = 0;
    assert(ps.take(0) =~= Seq::<int>::empty());
    while i < line_items.len()
        invariant
            i <= line_items.len(),
            ps == line_products(line_items@),
            forall|j: int| 0 <= j < line_items@.len() ==> fits_i64(#[trigger] ps[j]),
            prefix_sums_fit(ps),
            acc == sum(ps.take(i as int)),
        decreases line_items.len() - i,
    {
        assert(ps.take(i + 1).drop_last() =~= ps.take(i as int));
        assert(fits_i64(sum(ps.take(i + 1))));
        assert(fits_i64(ps[i as int]));
        let item = &line_items[i];
        acc = acc + item.unit_price.amount_minor * item.quantity as i64;
        i += 1;
    }
    assert(ps.take(line_items.len() as int) =~= ps);
    Money { amount_minor: acc, currency: owned(currency) }
}

/// Every line item's price is in `currency`; otherwise one `line_items`
/// error, `currency_mismatch`, naming the expected currency.
pub fn validate_line_item_currencies(line_items: &[LineItem], currency: &str) -> (r: Result<(), DomainError>)
    ensures
        (forall|i: int| 0 <= i < line_items@.len() ==> (#[trigger] line_items@[i]).unit_price.currency@
            == currency@) ==> r is Ok,
        !(forall|i: int| 0 <= i < line_items@.len() ==> (#[trigger] line_items@[i]).unit_price.currency@
            == currency@) ==> (r matches Err(DomainError::Validation(e)) && e@ == seq![
            (
                "line_items"@,
                FieldErrorView {
                    code: "currency_mismatch"@,
                    params: seq![("currency"@, currency@)],
                },
            ),
        ]),
{
    let mut i: usize = 0;
    while i < line_items.len()
        invariant
            i <= line_items.len(),
            forall|j: int| 0 <= j < i ==> (#[trigger] line_items@[j]).unit_price.currency@ == currency@,
        decreases line_items.len() - i,
    {
        if !str_eq(line_items[i].unit_price.currency.as_str(), currency) {
            let mut params = StrMap::new();
            let mut pv: Vec<(String, String)> = Vec::new();
            pv.push((owned("currency"), owned(currency)));
            let params = StrMap { entries: pv };
            let mut ev: Vec<(String, FieldError)> = Vec::new();
            ev.push((owned("line_items"), FieldError::with_params("currency_mismatch", params)));
            let e = FieldErrors { entries: ev };
            assert(e@ =~= seq![
                (
                    "line_items"@,
                    FieldErrorView {
                        code: "currency_mismatch"@,
                        params: seq![("currency"@, currency@)],
                    },
                ),
            ]) by {
                assert(e.entries@[0].1.params@ =~= seq![("currency"@, currency@)]);
            }
            return Err(DomainError::Validation(e));
        }
        i += 1;
    }
    Ok(())
}

#[derive(Debug, Clone, PartialEq)]
pub struct Order {
    pub id: String,
    pub number: String,
    pub customer_id: String,
    /// Resolved from the customer record at read time.
    pub customer_name: Option<String>,
    pub status: OrderStatus,
    pub currency: String,
    pub line_items: Vec<LineItem>,
    pub total: Money,
    pub notes: Option<String>,
    pub created_at: String,
    pub updated_at: String,
}

#[derive(Debug, Clone, PartialEq)]
pub struct NewOrder {
    pub customer_id: String,
    pub currency: Option<String>,
    pub line_items: Vec<LineItem>,
    pub notes: Option<String>,
}

/// The path of field `f` of line item `i`.
pub open spec fn item_key(i: int, f: Seq<char>) -> Seq<char> {
    "line_items["@ + decimal(i as nat) + "]."@ + f
}

/// Errors of the line items, added to `e` in order: description required,
/// positive quantity, a valid unit price.
pub open spec fn items_errors(e: ErrorEntries, items: Seq<LineItem>) -> ErrorEntries
    decreases items.len(),
{
    if items.len() == 0 {
        e
    } else {
        let prev = items_errors(e, items.drop_last());
        let i = items.len() - 1;
        let it = items.last();
        let e1 = if it.description@.len() < 1 {
            put_new(prev, item_key(i, "description"@), plain_error("required"@))
        } else {
            prev
        };
        let e2 = if it.quantity < 1 {
            put_new(e1, item_key(i, "quantity"@), plain_error("positive_quantity"@))
        } else {
            e1
        };
        money_errors(e2, item_key(i, "unit_price."@), it.unit_price)
    }
}

impl NewOrder {
    pub open spec fn spec_errors(self) -> ErrorEntries {
        let e1 = if self.customer_id@.len() < 1 {
            put_new(Seq::empty(), "customer_id"@, plain_error("required"@))
        } else {
            Seq::empty()
        };
        let e2 = if self.line_items@.len() < 1 {
            put_new(e1, "line_items"@, plain_error("min_line_items"@))
        } else {
            e1
        };
        items_errors(e2, self.line_items@)
    }

    pub fn validate_domain(&self) -> (r: Result<(), DomainError>)
        ensures
            unit_result_is(r, errors_result(self.spec_errors())),
    {
        let mut e = FieldErrors::new();
        if chars_of(self.customer_id.as_str()).len() < 1 {
            e.put("customer_id", "required");
        }
        if self.line_items.len() < 1 {
            e.put("line_items", "min_line_items");
        }
        let ghost e0 = e@;
        let mut i: usize = 0;
        while i < self.line_items.len()
            invariant
                i <= self.line_items.len(),
                e@ == items_errors(e0, self.line_items@.take(i as int)),
            decreases self.line_items.len() - i,
        {
            assert(self.line_items@.take(i + 1).drop_last() =~= self.line_items@.take(i as int));
            let it = &self.line_items[i];
            if chars_of(it.description.as_str()).len() < 1 {
                e.put(item_path(i, "description").as_str(), "required");
            }
            if it.quantity < 1 {
                e.put(item_path(i, "quantity").as_str(), "positive_quantity");
            }
            if it.unit_price.amount_minor < 0 {
                let mut k = item_path(i, "unit_price.");
                k.append("amount_minor");
                e.put(k.as_str(), "not_negative");
            }
            if chars_of(it.unit_price.currency.as_str()).len() != 3 {
                let mut k = item_path(i, "unit_price.");
                k.append("currency");
                e.put(k.as_str(), "invalid_currency_code");
            }
            i += 1;
        }
        assert(self.line_items@.take(self.line_items.len() as int) =~= self.line_items@);
        crate::domain::error::into_result(e)
    }

    /// Fills `currency` from the tenant's default when it was omitted.
    pub fn resolve_currency(&mut self, tenant_default_currency: &str)
        ensures
            *final(self) == (NewOrder { currency: final(self).currency, ..*old(self) }),
            old(self).currency is Some ==> final(self).currency == old(self).currency,
            old(self).currency is None ==> (final(self).currency matches Some(c) && c@
                == tenant_default_currency@),
    {
        if self.currency.is_none() {
            self.currency = Some(owned(tenant_default_currency));
        }
    }
}

/// `"line_items[{i}].{field}"`.
fn item_path(i: usize, field: &str) -> (r: String)
    ensures
        r@ == item_key(i as int, field@),
{
    let mut s = owned("line_items[");
    append_decimal(&mut s, i);
    s.append("].");
    s.append(field);
    s
}

#[derive(Debug, Clone, PartialEq)]
pub struct OrderListQuery {
    pub page: u32,
    pub limit: u32,
    pub sort: String,
    pub customer_id: Option<String>,
    pub status: Option<OrderStatus>,
    pub q: Option<String>,
}

/// A status's wire code reads back as the status, and every code that
/// reads as a status is that status's code.
pub proof fn lemma_order_status_code_round_trip(s: OrderStatus, code: u8)
    ensures
        OrderStatus::spec_from_code(s.spec_code()) == Some(s),
        OrderStatus::spec_from_code(code) matches Some(t) ==> t.spec_code() == code,
{
}

} // verus!
