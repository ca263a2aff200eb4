use polymix::domain::invoice::due_date_from_issue;
use polymix::domain::error::DomainError;
use polymix::domain::invoice::{
    compute_gross, compute_tax, validate_transition as validate_invoice_transition, InvoiceStatus,
    NewInvoice, DEFAULT_TAX_RATE_BP,
};
use polymix::domain::money::{round_half_up, Money};
use polymix::domain::order::{
    can_invoice, line_items_total, validate_line_item_currencies,
    validate_transition as validate_order_transition, LineItem, NewOrder, OrderStatus,
};

fn money(amount_minor: i64) -> Money {
    Money { amount_minor, currency: "EUR".to_string() }
}

fn line_item(quantity: u32, unit_price_minor: i64) -> LineItem {
    LineItem { description: "Flyers".to_string(), quantity, unit_price: money(unit_price_minor) }
}

#[test]
fn tax_rounds_down_below_half() {
    let net = money(333);
    let tax = compute_tax(&net, DEFAULT_TAX_RATE_BP);
    assert_eq!(tax.amount_minor, 63);
}

#[test]
fn tax_rounds_up_at_exact_half() {
    let net = money(50);
    let tax = compute_tax(&net, DEFAULT_TAX_RATE_BP);
    assert_eq!(tax.amount_minor, 10);
}

#[test]
fn tax_with_no_rounding_needed() {
    let net = money(1000);
    let tax = compute_tax(&net, DEFAULT_TAX_RATE_BP);
    assert_eq!(tax.amount_minor, 190);
}

#[test]
fn gross_is_net_plus_tax() {
    let net = money(1000);
    let tax = compute_tax(&net, DEFAULT_TAX_RATE_BP);
    let gross = compute_gross(&net, &tax);
    assert_eq!(gross.amount_minor, 1190);
    assert_eq!(gross.currency, "EUR");
}

#[test]
fn draft_can_be_issued_or_voided() {
    assert!(validate_invoice_transition(InvoiceStatus::Draft, InvoiceStatus::Issued).is_ok());
    assert!(validate_invoice_transition(InvoiceStatus::Draft, InvoiceStatus::Void).is_ok());
}

#[test]
fn draft_cannot_skip_to_paid() {
    let err = validate_invoice_transition(InvoiceStatus::Draft, InvoiceStatus::Paid).unwrap_err();
    assert!(matches!(err, DomainError::Conflict(_)));
}

#[test]
fn paid_and_void_are_terminal() {
    assert!(validate_invoice_transition(InvoiceStatus::Paid, InvoiceStatus::Void).is_err());
    assert!(validate_invoice_transition(InvoiceStatus::Void, InvoiceStatus::Draft).is_err());
}

#[test]
fn invoice_without_order_id_is_invalid() {
    let data = NewInvoice { order_id: String::new(), currency: None };
    match data.validate_domain() {
        Err(DomainError::Validation(details)) => {
            assert_eq!(details.get("order_id").unwrap().code, "length");
        },
        _ => panic!("expected Validation error"),
    }
    let ok = NewInvoice { order_id: "order1".to_string(), currency: None };
    assert!(ok.validate_domain().is_ok());
}

#[test]
fn round_half_up_rounds_up_at_exact_half() {
    assert_eq!(round_half_up(5, 2), 3);
}

#[test]
fn round_half_up_rounds_down_below_half() {
    assert_eq!(round_half_up(4, 10), 0);
    assert_eq!(round_half_up(24, 10), 2);
}

#[test]
fn negative_amount_is_invalid() {
    let money = Money { amount_minor: -1, currency: "EUR".to_string() };
    assert!(money.validate().is_err());
}

#[test]
fn short_currency_code_is_invalid() {
    let money = Money { amount_minor: 100, currency: "EU".to_string() };
    assert!(money.validate().is_err());
}

#[test]
fn zero_money_is_valid() {
    let z = Money::zero("UAH");
    assert_eq!(z.amount_minor, 0);
    assert!(z.validate().is_ok());
}

#[test]
fn total_sums_quantity_times_unit_price() {
    let items = vec![line_item(3, 250), line_item(2, 1000)];
    let total = line_items_total(&items, "EUR");
    assert_eq!(total.amount_minor, 3 * 250 + 2 * 1000);
    assert_eq!(total.currency, "EUR");
}

#[test]
fn empty_line_items_is_invalid() {
    let data = NewOrder { customer_id: "customer1".to_string(), currency: None, line_items: vec![], notes: None };
    match data.validate_domain() {
        Err(DomainError::Validation(details)) => assert!(details.contains_key("line_items")),
        _ => panic!("expected Validation error"),
    }
}

#[test]
fn zero_quantity_is_invalid() {
    let data = NewOrder {
        customer_id: "customer1".to_string(),
        currency: None,
        line_items: vec![line_item(0, 100)],
        notes: None,
    };
    match data.validate_domain() {
        Err(DomainError::Validation(details)) => assert!(details.contains_key("line_items[0].quantity")),
        _ => panic!("expected Validation error"),
    }
}

#[test]
fn resolve_currency_fills_only_when_absent() {
    let mut with_default = NewOrder {
        customer_id: "customer1".to_string(),
        currency: None,
        line_items: vec![line_item(1, 100)],
        notes: None,
    };
    with_default.resolve_currency("EUR");
    assert_eq!(with_default.currency.as_deref(), Some("EUR"));

    let mut with_explicit = NewOrder {
        customer_id: "customer1".to_string(),
        currency: Some("USD".to_string()),
        line_items: vec![line_item(1, 100)],
        notes: None,
    };
    with_explicit.resolve_currency("EUR");
    assert_eq!(with_explicit.currency.as_deref(), Some("USD"));
}

#[test]
fn mismatched_line_item_currency_is_rejected() {
    let items = vec![LineItem {
        description: "Flyers".to_string(),
        quantity: 1,
        unit_price: Money { amount_minor: 100, currency: "USD".to_string() },
    }];
    match validate_line_item_currencies(&items, "EUR").unwrap_err() {
        DomainError::Validation(details) => {
            assert!(details.contains_key("line_items"));
            let e = details.get("line_items").unwrap();
            assert_eq!(e.code, "currency_mismatch");
            assert_eq!(e.params.get("currency").map(String::as_str), Some("EUR"));
        },
        _ => panic!("expected Validation error"),
    }
}

#[test]
fn draft_can_confirm_or_cancel() {
    assert!(validate_order_transition(OrderStatus::Draft, OrderStatus::Confirmed).is_ok());
    assert!(validate_order_transition(OrderStatus::Draft, OrderStatus::Cancelled).is_ok());
}

#[test]
fn draft_cannot_skip_to_in_production() {
    let err = validate_order_transition(OrderStatus::Draft, OrderStatus::InProduction).unwrap_err();
    assert!(matches!(err, DomainError::Conflict(_)));
}

#[test]
fn completed_is_terminal() {
    assert!(validate_order_transition(OrderStatus::Completed, OrderStatus::Cancelled).is_err());
}

#[test]
fn cancelled_is_terminal() {
    assert!(validate_order_transition(OrderStatus::Cancelled, OrderStatus::Draft).is_err());
}

#[test]
fn only_confirmed_or_later_can_be_invoiced() {
    assert!(!can_invoice(OrderStatus::Draft));
    assert!(can_invoice(OrderStatus::Confirmed));
    assert!(can_invoice(OrderStatus::InProduction));
    assert!(can_invoice(OrderStatus::Completed));
    assert!(!can_invoice(OrderStatus::Cancelled));
}

#[test]
fn order_status_codes_round_trip() {
    for s in [
        OrderStatus::Draft,
        OrderStatus::Confirmed,
        OrderStatus::InProduction,
        OrderStatus::Completed,
        OrderStatus::Cancelled,
    ] {
        assert_eq!(OrderStatus::from_code(s.code()), Some(s));
    }
    assert_eq!(OrderStatus::from_code(5), None);
    assert_eq!(OrderStatus::InProduction.key(), "in_production");
    assert_eq!(InvoiceStatus::Issued.key(), "issued");
}

#[test]
fn due_date_is_fourteen_days_after_issue() {
    assert_eq!(due_date_from_issue(2026, 1, 1), Some((2026, 1, 15)));
}

#[test]
fn due_date_crosses_months_and_leap_days() {
    assert_eq!(due_date_from_issue(2024, 2, 20), Some((2024, 3, 5)));
    assert_eq!(due_date_from_issue(2025, 12, 25), Some((2026, 1, 8)));
    assert_eq!(due_date_from_issue(2025, 2, 30), None);
}
