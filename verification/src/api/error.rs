//! The API error envelope and how domain, key-set and engine errors map
//! onto it.
use vstd::prelude::*;

use crate::domain::error::{conflict_code, conflict_details, conflict_message, DomainError, DomainErrorView, ErrorEntries, FieldErrors, StrMap};
use crate::engine::error::{EngineError, EngineErrorView, PriceErrorView, ResolveErrorView, SelectionReason};
use crate::text::{join, join3, owned};

verus! {

pub const STATUS_BAD_REQUEST: u16 = 400;
pub const STATUS_UNAUTHORIZED: u16 = 401;
pub const STATUS_FORBIDDEN: u16 = 403;
pub const STATUS_NOT_FOUND: u16 = 404;
pub const STATUS_CONFLICT: u16 = 409;
pub const STATUS_UNPROCESSABLE: u16 = 422;
pub const STATUS_INTERNAL: u16 = 500;

/// Structured detail of an error: field errors, or a string map.
#[derive(Debug, PartialEq)]
pub enum ErrorDetails {
    Fields(FieldErrors),
    Pairs(StrMap),
}

pub enum DetailsView {
    Fields(ErrorEntries),
    Pairs(Seq<(Seq<char>, Seq<char>)>),
}

impl View for ErrorDetails {
    type V = DetailsView;

    open spec fn view(&self) -> DetailsView {
        match self {
            ErrorDetails::Fields(f) => DetailsView::Fields(f@),
            ErrorDetails::Pairs(m) => DetailsView::Pairs(m@),
        }
    }
}

#[derive(Debug, PartialEq)]
pub struct ApiError {
    /// HTTP status code.
    pub status: u16,
    pub code: String,
    pub message: String,
    pub details: Option<ErrorDetails>,
}

pub struct ApiErrorView {
    pub status: u16,
    pub code: Seq<char>,
    pub message: Seq<char>,
    pub details: Option<DetailsView>,
}

impl View for ApiError {
    type V = ApiErrorView;

    open spec fn view(&self) -> ApiErrorView {
        ApiErrorView {
            status: self.status,
            code: self.code@,
            message: self.message@,
            details: match self.details {
                Some(d) => Some(d@),
                None => None,
            },
        }
    }
}

/// An error without details.
pub open spec fn plain_api_error(status: u16, code: Seq<char>, message: Seq<char>) -> ApiErrorView {
    ApiErrorView { status, code, message, details: None }
}

/// The envelope of a domain error.
pub open spec fn domain_api_error(err: DomainErrorView) -> ApiErrorView {
    match err {
        DomainErrorView::NotFound => plain_api_error(STATUS_NOT_FOUND, "not_found"@, "not found"@),
        DomainErrorView::Validation(details) => ApiErrorView {
            status: STATUS_UNPROCESSABLE,
            code: "validation_failed"@,
            message: "validation failed"@,
            details: Some(DetailsView::Fields(details)),
        },
        DomainErrorView::Conflict(reason) => ApiErrorView {
            status: STATUS_CONFLICT,
            code: conflict_code(reason),
            message: conflict_message(reason),
            details: match conflict_details(reason) {
                Some(d) => Some(DetailsView::Pairs(seq![("from"@, d.0), ("to"@, d.1)])),
                None => None,
            },
        },
        DomainErrorView::Store(_) => plain_api_error(STATUS_INTERNAL, "internal"@, "internal server error"@),
    }
}

impl ApiError {
    pub fn new(status: u16, code: &str, message: &str) -> (r: ApiError)
        ensures
            r@ == plain_api_error(status, code@, message@),
    {
        ApiError { status, code: owned(code), message: owned(message), details: None }
    }

    pub fn unauthorized(message: &str) -> (r: ApiError)
        ensures
            r@ == plain_api_error(STATUS_UNAUTHORIZED, "unauthorized"@, message@),
    {
        ApiError::new(STATUS_UNAUTHORIZED, "unauthorized", message)
    }

    pub fn forbidden(message: &str) -> (r: ApiError)
        ensures
            r@ == plain_api_error(STATUS_FORBIDDEN, "forbidden"@, message@),
    {
        ApiError::new(STATUS_FORBIDDEN, "forbidden", message)
    }

    pub fn internal(message: &str) -> (r: ApiError)
        ensures
            r@ == plain_api_error(STATUS_INTERNAL, "internal"@, message@),
    {
        ApiError::new(STATUS_INTERNAL, "internal", message)
    }

    /// The envelope of a domain error: not found is 404; validation is 422
    /// with the field errors; a conflict is 409 with its code, text and
    /// transition details; a store failure is a generic 500 that never
    /// shows the store's message.
    pub fn from_domain(err: DomainError) -> (r: ApiError)
        ensures
            r@ == domain_api_error(err@),
    {
        match err {
            DomainError::NotFound => ApiError::new(STATUS_NOT_FOUND, "not_found", "not found"),
            DomainError::Validation(details) => {
                let mut e = ApiError::new(STATUS_UNPROCESSABLE, "validation_failed", "validation failed");
                e.details = Some(ErrorDetails::Fields(details));
                e
            },
            DomainError::Conflict(reason) => {
                let message = reason.message();
                let details = match reason.details() {
                    Some(m) => Some(ErrorDetails::Pairs(m)),
                    None => None,
                };
                ApiError { status: STATUS_CONFLICT, code: owned(reason.code()), message, details }
            },
            DomainError::Store(_) => ApiError::internal("internal server error"),
        }
    }

    /// The envelope of a key-set failure: an unreachable key set is an
    /// upstream failure (a generic 500), an unknown key id a 401.
    pub fn from_jwks(err: JwksError) -> (r: ApiError)
        ensures
            r@ == match err {
                JwksError::FetchFailed(_) => plain_api_error(
                    STATUS_INTERNAL,
                    "internal"@,
                    "internal server error"@,
                ),
                JwksError::UnknownKid(kid) => plain_api_error(
                    STATUS_UNAUTHORIZED,
                    "unauthorized"@,
                    "unknown signing key: "@ + kid@,
                ),
            },
    {
        match err {
            JwksError::FetchFailed(_) => ApiError::internal("internal server error"),
            JwksError::UnknownKid(kid) => {
                let m = join("unknown signing key: ", kid.as_str());
                ApiError::unauthorized(m.as_str())
            },
        }
    }

    /// The envelope of an engine error: a refused selection, quantity or
    /// rule set is the caller's (422: `INVALID_SELECTION`,
    /// `INVALID_QUANTITY`, `RULE_VIOLATION`); a template or pricing fault is
    /// the catalog's (500: `TEMPLATE_ERROR`, `UNPRICEABLE`, with the
    /// registry code as message).
    pub fn from_engine(err: EngineError) -> (r: ApiError)
        ensures
            r@ == engine_api_error(err.view()),
    {
        match err {
            EngineError::InvalidSelection { parameter, reason } => {
                let m = join3(parameter.as_str(), ": ", reason.code());
                ApiError::new(STATUS_UNPROCESSABLE, "INVALID_SELECTION", m.as_str())
            },
            EngineError::InvalidQuantity { .. } => ApiError::new(
                STATUS_UNPROCESSABLE,
                "INVALID_QUANTITY",
                "requested quantity is outside the custom range",
            ),
            EngineError::RuleViolation(_) => ApiError::new(
                STATUS_UNPROCESSABLE,
                "RULE_VIOLATION",
                "compatibility rules violated",
            ),
            EngineError::Resolve(e) => ApiError::new(STATUS_INTERNAL, "TEMPLATE_ERROR", e.code()),
            EngineError::Price(e) => ApiError::new(STATUS_INTERNAL, "UNPRICEABLE", e.code()),
        }
    }
}

pub open spec fn selection_reason_code(r: SelectionReason) -> Seq<char> {
    match r {
        SelectionReason::UnknownParameter => "unknown_parameter"@,
        SelectionReason::MissingNoDefault => "missing_no_default"@,
        SelectionReason::UnknownOption => "unknown_option"@,
        SelectionReason::OptionUnavailable => "option_unavailable"@,
        SelectionReason::OutOfRange => "out_of_range"@,
    }
}

pub open spec fn resolve_code(e: ResolveErrorView) -> Seq<char> {
    match e {
        ResolveErrorView::UnknownRole(_) => "E101"@,
        ResolveErrorView::DuplicateOperation(_) => "E102"@,
        ResolveErrorView::OpParamOnAbsentOperation(_) => "E103"@,
        ResolveErrorView::ComponentExists(_) => "E104"@,
        ResolveErrorView::EmptyTechnologyAllow => "E105"@,
        ResolveErrorView::IncompleteSpec(_) => "E106"@,
        ResolveErrorView::DanglingReference(_) => "E107"@,
        ResolveErrorView::BadNumericDefault(_) => "E108"@,
        ResolveErrorView::InputOutsideNumeric => "E110"@,
    }
}

pub open spec fn price_code(e: PriceErrorView) -> Seq<char> {
    match e {
        PriceErrorView::NoCapableMachine(_) => "E201"@,
        PriceErrorView::ItemLargerThanSheet(_) => "E202"@,
        PriceErrorView::MaterialBasisMismatch(_) => "E204"@,
        PriceErrorView::InvalidReservedParam(_) => "E205"@,
    }
}

pub open spec fn engine_api_error(err: EngineErrorView) -> ApiErrorView {
    match err {
        EngineErrorView::InvalidSelection { parameter, reason } => plain_api_error(
            STATUS_UNPROCESSABLE,
            "INVALID_SELECTION"@,
            parameter + ": "@ + selection_reason_code(reason),
        ),
        EngineErrorView::InvalidQuantity { .. } => plain_api_error(
            STATUS_UNPROCESSABLE,
            "INVALID_QUANTITY"@,
            "requested quantity is outside the custom range"@,
        ),
        EngineErrorView::RuleViolation(_) => plain_api_error(
            STATUS_UNPROCESSABLE,
            "RULE_VIOLATION"@,
            "compatibility rules violated"@,
        ),
        EngineErrorView::Resolve(e) => plain_api_error(STATUS_INTERNAL, "TEMPLATE_ERROR"@, resolve_code(e)),
        EngineErrorView::Price(e) => plain_api_error(STATUS_INTERNAL, "UNPRICEABLE"@, price_code(e)),
    }
}

/// Why the signing key set could not serve a key.
#[derive(Debug, Clone, PartialEq)]
pub enum JwksError {
    /// The key-set endpoint is unreachable, slow, or returned garbage.
    FetchFailed(String),
    /// The key set was fetched but has no key with this id.
    UnknownKid(String),
}

impl JwksError {
    /// The English text of the error.
    pub fn message(&self) -> (r: String)
        ensures
            r@ == match self {
                JwksError::FetchFailed(s) => "failed to fetch JWKS: "@ + s@,
                JwksError::UnknownKid(k) => "unknown signing key: "@ + k@,
            },
    {
        match self {
            JwksError::FetchFailed(s) => join("failed to fetch JWKS: ", s.as_str()),
            JwksError::UnknownKid(k) => join("unknown signing key: ", k.as_str()),
        }
    }
}

} // verus!
