use polymix::api::error::{
    ApiError, ErrorDetails, JwksError, STATUS_CONFLICT, STATUS_FORBIDDEN, STATUS_INTERNAL, STATUS_NOT_FOUND,
    STATUS_UNAUTHORIZED, STATUS_UNPROCESSABLE,
};
use polymix::domain::error::{ConflictReason, DomainError, FieldError, FieldErrors};
use polymix::domain::order::OrderStatus;

#[test]
fn constructors_set_status_and_code() {
    let unauthorized = ApiError::unauthorized("nope");
    assert_eq!(unauthorized.status, STATUS_UNAUTHORIZED);
    assert_eq!(unauthorized.code, "unauthorized");
    assert_eq!(unauthorized.message, "nope");
    assert!(unauthorized.details.is_none());

    assert_eq!(ApiError::forbidden("x").status, STATUS_FORBIDDEN);
    assert_eq!(ApiError::forbidden("x").code, "forbidden");

    let internal = ApiError::internal("boom");
    assert_eq!(internal.status, STATUS_INTERNAL);
    assert_eq!(internal.code, "internal");
}

#[test]
fn not_found_maps_to_404() {
    let err = ApiError::from_domain(DomainError::NotFound);
    assert_eq!(err.status, STATUS_NOT_FOUND);
    assert_eq!(err.code, "not_found");
    assert!(err.details.is_none());
}

#[test]
fn validation_maps_to_422_with_details() {
    let mut fields = FieldErrors::new();
    fields.entries.push(("name".to_string(), FieldError::code("required")));
    let err = ApiError::from_domain(DomainError::Validation(fields));
    assert_eq!(err.status, STATUS_UNPROCESSABLE);
    assert_eq!(err.code, "validation_failed");
    match err.details.expect("validation carries details") {
        ErrorDetails::Fields(f) => assert_eq!(f.get("name").unwrap().code, "required"),
        _ => panic!("expected field details"),
    }
}

#[test]
fn conflict_maps_to_409_with_reason_code_and_details() {
    let err = ApiError::from_domain(DomainError::Conflict(ConflictReason::OrderStatusTransition {
        from: OrderStatus::Draft,
        to: OrderStatus::Completed,
    }));
    assert_eq!(err.status, STATUS_CONFLICT);
    assert_eq!(err.code, "order_status_transition");
    match err.details.expect("transition conflicts carry details") {
        ErrorDetails::Pairs(d) => {
            assert_eq!(d.get("from").map(String::as_str), Some("0"));
            assert_eq!(d.get("to").map(String::as_str), Some("3"));
        },
        _ => panic!("expected pair details"),
    }
}

#[test]
fn conflict_without_details_leaves_details_none() {
    let err = ApiError::from_domain(DomainError::Conflict(ConflictReason::CustomerHasOrders));
    assert_eq!(err.status, STATUS_CONFLICT);
    assert_eq!(err.code, "customer_has_orders");
    assert_eq!(err.message, "customer has orders and cannot be deleted");
    assert!(err.details.is_none());
}

#[test]
fn store_error_is_hidden_behind_a_generic_500() {
    let err = ApiError::from_domain(DomainError::Store("connection reset".to_string()));
    assert_eq!(err.status, STATUS_INTERNAL);
    assert_eq!(err.code, "internal");
    assert!(!err.message.contains("connection reset"));
}

#[test]
fn jwks_fetch_failure_is_a_generic_500() {
    let err = ApiError::from_jwks(JwksError::FetchFailed("upstream down".to_string()));
    assert_eq!(err.status, STATUS_INTERNAL);
    assert_eq!(err.code, "internal");
    assert!(!err.message.contains("upstream down"));
}

#[test]
fn jwks_unknown_kid_is_a_401() {
    let err = ApiError::from_jwks(JwksError::UnknownKid("abc123".to_string()));
    assert_eq!(err.status, STATUS_UNAUTHORIZED);
    assert_eq!(err.code, "unauthorized");
    assert!(err.message.contains("abc123"));
    assert_eq!(err.message, "unknown signing key: abc123");
}

#[test]
fn jwks_error_messages() {
    assert_eq!(JwksError::FetchFailed("x".to_string()).message(), "failed to fetch JWKS: x");
    assert_eq!(JwksError::UnknownKid("k".to_string()).message(), "unknown signing key: k");
}
