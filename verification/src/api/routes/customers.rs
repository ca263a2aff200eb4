//! Customer routes: list query, status body, body preparation.
use vstd::prelude::*;

use crate::api::error::{plain_api_error, ApiError, ApiErrorView, STATUS_BAD_REQUEST};
use crate::text::{parse_i64, parse_i64_spec, strip_leading_quotes, strip_trailing_quotes, trim_quotes};
use crate::api::routes::{clamp_limit, clamp_page, limit_of, page_of};
use crate::domain::customer::{CustomerStatus, ListQuery, NewCustomer};
use crate::domain::error::DomainError;
use crate::domain::tenant::Tenant;

verus! {

#[derive(Debug, PartialEq)]
pub struct ListParams {
    pub page: u32,
    pub limit: u32,
    pub sort: String,
    pub q: Option<String>,
    pub status: Option<CustomerStatus>,
    pub tag: Option<String>,
}

impl From<ListParams> for ListQuery {
    fn from(params: ListParams) -> (r: ListQuery) {
        ListQuery {
            page: clamp_page(params.page),
            limit: clamp_limit(params.limit),
            sort: params.sort,
            q: params.q,
            status: params.status,
            tag: params.tag,
        }
    }
}

impl vstd::std_specs::convert::FromSpecImpl<ListParams> for ListQuery {
    open spec fn obeys_from_spec() -> bool {
        true
    }

    open spec fn from_spec(v: ListParams) -> ListQuery {
        ListQuery {
            page: page_of(v.page),
            limit: limit_of(v.limit),
            sort: v.sort,
            q: v.q,
            status: v.status,
            tag: v.tag,
        }
    }
}

#[derive(Debug, Clone, Copy, PartialEq, Eq, Structural)]
pub struct StatusBody {
    pub status: CustomerStatus,
}

/// Normalize the tags, fill the tenant's default currency, and validate:
/// shared by create and update.
pub fn prepare(body: &mut NewCustomer, tenant: &Tenant) -> (r: Result<(), ApiError>)
    ensures
        crate::domain::customer::strings_view(final(body).tags@)
            == crate::domain::customer::normalized_tags(
            crate::domain::customer::strings_view(old(body).tags@),
        ),
        old(body).default_currency is None ==> (final(body).default_currency matches Some(c) && c@
            == tenant.default_currency@),
        old(body).default_currency is Some ==> final(body).default_currency == old(body).default_currency,
        match crate::domain::error::errors_result(
            crate::domain::customer::customer_errors(*final(body)),
        ) {
            Ok(()) => r is Ok,
            Err(e) => r matches Err(x) && x@ == crate::api::error::ApiErrorView {
                status: crate::api::error::STATUS_UNPROCESSABLE,
                code: "validation_failed"@,
                message: "validation failed"@,
                details: Some(
                    crate::api::error::DetailsView::Fields(
                        e->Validation_0,
                    ),
                ),
            },
        },
{
    body.normalize();
    body.resolve_default_currency(tenant.default_currency.as_str());
    match body.validate_domain() {
        Ok(()) => Ok(()),
        Err(e) => Err(ApiError::from_domain(e)),
    }
}

pub open spec fn invalid_if_match() -> ApiErrorView {
    plain_api_error(STATUS_BAD_REQUEST, "invalid_if_match"@, "If-Match must be an integer customer version"@)
}

/// The customer version an update expects, from its `If-Match` header
/// (absent: `None`; present but not visible ASCII: `Some(None)`): absent
/// means an unconditional write; otherwise the value, without surrounding
/// double quotes, must be an integer, else the request is a 400.
pub fn if_match_version(header: Option<Option<&str>>) -> (r: Result<Option<i64>, ApiError>)
    ensures
        match header {
            None => r == Ok::<Option<i64>, ApiError>(None),
            Some(None) => r matches Err(e) && e@ == invalid_if_match(),
            Some(Some(raw)) => match parse_i64_spec(strip_trailing_quotes(strip_leading_quotes(raw@))) {
                Some(v) => r == Ok::<Option<i64>, ApiError>(Some(v)),
                None => r matches Err(e) && e@ == invalid_if_match(),
            },
        },
{
    match header {
        None => Ok(None),
        Some(value) => {
            let parsed = match value {
                Some(raw) => parse_i64(trim_quotes(raw).as_str()),
                None => None,
            };
            match parsed {
                Some(v) => Ok(Some(v)),
                None => Err(
                    ApiError::new(
                        STATUS_BAD_REQUEST,
                        "invalid_if_match",
                        "If-Match must be an integer customer version",
                    ),
                ),
            }
        },
    }
}

} // verus!
