use polymix::domain::customer::CustomerStatus;
use polymix::domain::error::{ConflictReason, DomainError, FieldError, FieldErrors, StrMap};
use polymix::domain::invoice::InvoiceStatus;
use polymix::domain::order::OrderStatus;
use polymix::domain::quote::QuoteStatus;

#[test]
fn field_error_code_starts_with_no_params() {
    let err = FieldError::code("required");
    assert_eq!(err.code, "required");
    assert!(err.params.is_empty());
}

#[test]
fn field_error_with_params_keeps_them() {
    let params = StrMap::from_pairs(vec![("max".to_string(), "10".to_string())]);
    let err = FieldError::with_params("too_long", params);
    assert_eq!(err.code, "too_long");
    assert_eq!(err.params.get("max").map(String::as_str), Some("10"));
}

#[test]
fn conflict_codes_are_stable_and_unique() {
    let reasons = [
        ConflictReason::CustomerHasOrders,
        ConflictReason::CustomerModified,
        ConflictReason::CustomerNotActiveForOrder,
        ConflictReason::OrderHasInvoice,
        ConflictReason::OrderNotConfirmedForInvoice,
        ConflictReason::OrderAlreadyInvoiced,
        ConflictReason::InvoiceNotDraft,
        ConflictReason::InvoiceCannotBeDeleted,
        ConflictReason::OrderStatusTransition { from: OrderStatus::Draft, to: OrderStatus::Completed },
        ConflictReason::InvoiceStatusTransition { from: InvoiceStatus::Draft, to: InvoiceStatus::Paid },
        ConflictReason::CustomerStatusTransition { from: CustomerStatus::Lead, to: CustomerStatus::Blocked },
    ];
    let codes: Vec<&str> = reasons.iter().map(|r| r.code()).collect();
    let unique: std::collections::HashSet<&str> = codes.iter().copied().collect();
    assert_eq!(codes.len(), unique.len(), "conflict codes must be unique");
    assert!(codes.iter().all(|c| !c.is_empty()));
}

#[test]
fn non_transition_conflicts_have_no_details() {
    assert!(ConflictReason::CustomerHasOrders.details().is_none());
    assert!(ConflictReason::OrderHasInvoice.details().is_none());
    assert!(ConflictReason::InvoiceCannotBeDeleted.details().is_none());
}

#[test]
fn order_transition_details_use_numeric_status_codes() {
    let details = ConflictReason::OrderStatusTransition { from: OrderStatus::Draft, to: OrderStatus::Completed }
        .details()
        .expect("transition reasons carry details");
    assert_eq!(details.get("from").map(String::as_str), Some("0"));
    assert_eq!(details.get("to").map(String::as_str), Some("3"));
}

#[test]
fn invoice_transition_details_use_string_status_codes() {
    let details = ConflictReason::InvoiceStatusTransition { from: InvoiceStatus::Draft, to: InvoiceStatus::Issued }
        .details()
        .expect("transition reasons carry details");
    assert_eq!(details.get("from").map(String::as_str), Some("draft"));
    assert_eq!(details.get("to").map(String::as_str), Some("issued"));
}

#[test]
fn customer_transition_details_use_numeric_status_codes() {
    let details = ConflictReason::CustomerStatusTransition { from: CustomerStatus::Lead, to: CustomerStatus::Blocked }
        .details()
        .expect("transition reasons carry details");
    assert_eq!(details.get("from").map(String::as_str), Some("0"));
    assert_eq!(details.get("to").map(String::as_str), Some("3"));
}

#[test]
fn quote_transition_details_use_numeric_status_codes() {
    let details = ConflictReason::QuoteStatusTransition { from: QuoteStatus::Sent, to: QuoteStatus::Draft }
        .details()
        .expect("transition reasons carry details");
    assert_eq!(details.get("from").map(String::as_str), Some("1"));
    assert_eq!(details.get("to").map(String::as_str), Some("0"));
}

#[test]
fn display_mentions_the_status_names_for_transitions() {
    let reason = ConflictReason::OrderStatusTransition { from: OrderStatus::Draft, to: OrderStatus::Completed };
    let text = reason.message();
    assert!(text.contains("Draft"), "got: {text}");
    assert!(text.contains("Completed"), "got: {text}");
    assert_eq!(text, "cannot transition order from Draft to Completed");
}

#[test]
fn display_is_human_readable_for_simple_conflicts() {
    assert_eq!(ConflictReason::CustomerHasOrders.message(), "customer has orders and cannot be deleted");
    assert!(ConflictReason::OrderAlreadyInvoiced.message().contains("already has an invoice"));
}

#[test]
fn domain_error_display_wraps_the_conflict_reason() {
    let err = DomainError::Conflict(ConflictReason::CustomerModified);
    assert_eq!(err.message(), "conflict: customer was modified by someone else since it was loaded");
    assert_eq!(DomainError::NotFound.message(), "not found");
    assert_eq!(DomainError::Store("boom".to_string()).message(), "store error: boom");
}

#[test]
fn str_map_later_pairs_replace_earlier_ones() {
    let m = StrMap::from_pairs(vec![
        ("a".to_string(), "1".to_string()),
        ("b".to_string(), "2".to_string()),
        ("a".to_string(), "3".to_string()),
    ]);
    assert_eq!(m.len(), 2);
    assert_eq!(m.get("a").map(String::as_str), Some("3"));
    assert_eq!(m.get("b").map(String::as_str), Some("2"));
    assert!(!m.contains_key("c"));
}

#[test]
fn field_errors_keep_the_first_error_of_a_field() {
    let mut e = FieldErrors::new();
    assert!(e.is_empty());
    e.put("name", "required");
    e.put("name", "too_long");
    e.put("email", "email");
    assert_eq!(e.len(), 2);
    assert_eq!(e.get("name").unwrap().code, "required");
    assert_eq!(FieldErrors::single("x", "y").get("x").unwrap().code, "y");
}
