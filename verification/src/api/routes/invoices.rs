//! Invoice routes: list query and bodies.
use vstd::prelude::*;

use crate::api::routes::{clamp_limit, clamp_page, limit_of, page_of};
use crate::domain::invoice::{InvoiceListQuery, InvoiceStatus};

verus! {

#[derive(Debug, PartialEq)]
pub struct ListParams {
    pub page: u32,
    pub limit: u32,
    pub sort: String,
    pub customer_id: Option<String>,
    pub status: Option<InvoiceStatus>,
    pub q: Option<String>,
}

impl From<ListParams> for InvoiceListQuery {
    fn from(params: ListParams) -> (r: InvoiceListQuery) {
        InvoiceListQuery {
            page: clamp_page(params.page),
            limit: clamp_limit(params.limit),
            sort: params.sort,
            customer_id: params.customer_id,
            status: params.status,
            q: params.q,
        }
    }
}

impl vstd::std_specs::convert::FromSpecImpl<ListParams> for InvoiceListQuery {
    open spec fn obeys_from_spec() -> bool {
        true
    }

    open spec fn from_spec(v: ListParams) -> InvoiceListQuery {
        InvoiceListQuery {
            page: page_of(v.page),
            limit: limit_of(v.limit),
            sort: v.sort,
            customer_id: v.customer_id,
            status: v.status,
            q: v.q,
        }
    }
}

#[derive(Debug, Clone, Copy, PartialEq, Eq, Structural)]
pub struct StatusBody {
    pub status: InvoiceStatus,
}

/// Body of the invoice routes; the order comes from the path or the body.
#[derive(Debug, Clone, PartialEq)]
pub struct NewInvoiceBody {
    pub currency: Option<String>,
}

#[derive(Debug, Clone, PartialEq)]
pub struct CreateBody {
    pub order_id: String,
    pub currency: Option<String>,
}

} // verus!
