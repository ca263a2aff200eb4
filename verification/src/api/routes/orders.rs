//! Order routes: list query, status body, body preparation.
use vstd::prelude::*;

use crate::api::error::ApiError;
use crate::api::routes::{clamp_limit, clamp_page, limit_of, page_of};
use crate::domain::error::{errors_result, unit_result_is, DomainError};
use crate::domain::order::{validate_line_item_currencies, NewOrder, OrderListQuery, OrderStatus};
use crate::domain::tenant::Tenant;

verus! {

#[derive(Debug, PartialEq)]
pub struct ListParams {
    pub page: u32,
    pub limit: u32,
    pub sort: String,
    pub customer_id: Option<String>,
    pub status: Option<OrderStatus>,
    pub q: Option<String>,
}

impl From<ListParams> for OrderListQuery {
    fn from(params: ListParams) -> (r: OrderListQuery) {
        OrderListQuery {
            page: clamp_page(params.page),
            limit: clamp_limit(params.limit),
            sort: params.sort,
            customer_id: params.customer_id,
            status: params.status,
            q: params.q,
        }
    }
}

impl vstd::std_specs::convert::FromSpecImpl<ListParams> for OrderListQuery {
    open spec fn obeys_from_spec() -> bool {
        true
    }

    open spec fn from_spec(v: ListParams) -> OrderListQuery {
        OrderListQuery {
            page: page_of(v.page),
            limit: limit_of(v.limit),
            sort: v.sort,
            customer_id: v.customer_id,
            status: v.status,
            q: v.q,
        }
    }
}

#[derive(Debug, Clone, Copy, PartialEq, Eq, Structural)]
pub struct StatusBody {
    pub status: OrderStatus,
}

/// Fill the tenant's default currency, validate, and check every line item
/// is priced in the order's currency: shared by create and update.
pub fn prepare(body: &mut NewOrder, tenant: &Tenant) -> (r: Result<(), ApiError>)
    ensures
        *final(body) == (NewOrder { currency: final(body).currency, ..*old(body) }),
        old(body).currency is None ==> (final(body).currency matches Some(c) && c@
            == tenant.default_currency@),
        old(body).currency is Some ==> final(body).currency == old(body).currency,
        errors_result(final(body).spec_errors()) is Err ==> (r matches Err(x) && x@.status
            == crate::api::error::STATUS_UNPROCESSABLE && x@.code == "validation_failed"@ && x@.details
            == Some(crate::api::error::DetailsView::Fields(final(body).spec_errors()))),
        errors_result(final(body).spec_errors()) is Ok ==> ((forall|i: int|
            0 <= i < final(body).line_items@.len() ==> (#[trigger] final(body).line_items@[i]).unit_price.currency@
                == final(body).currency->0@) <==> r is Ok),
{
    body.resolve_currency(tenant.default_currency.as_str());
    match body.validate_domain() {
        Ok(()) => {},
        Err(e) => {
            return Err(ApiError::from_domain(e));
        },
    }
    let currency = match &body.currency {
        Some(c) => c.as_str(),
        None => tenant.default_currency.as_str(),
    };
    match validate_line_item_currencies(body.line_items.as_slice(), currency) {
        Ok(()) => Ok(()),
        Err(e) => Err(ApiError::from_domain(e)),
    }
}

} // verus!
