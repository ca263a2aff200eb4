//! Request-side logic of the HTTP routes: query defaults and conversions,
//! body preparation, and quote line pricing.
use vstd::prelude::*;

use crate::text::owned;

pub mod customers;
pub mod dev;
pub mod dictionaries;
pub mod estimate;
pub mod invoices;
pub mod me;
pub mod orders;
pub mod pricing;
pub mod quotes;
pub mod search;

verus! {

/// Default page of a list query.
pub fn default_page() -> (r: u32)
    ensures
        r == 1,
{
    1
}

/// Default page size of a list query.
pub fn default_limit() -> (r: u32)
    ensures
        r == 25,
{
    25
}

/// Default sort of a list query: newest first.
pub fn default_sort() -> (r: String)
    ensures
        r@ == "-created_at"@,
{
    owned("-created_at")
}

/// A requested page, at least 1.
pub open spec fn page_of(page: u32) -> u32 {
    if page >= 1 {
        page
    } else {
        1
    }
}

/// A requested page size, within `1..=100`.
pub open spec fn limit_of(limit: u32) -> u32 {
    if limit < 1 {
        1
    } else if limit > 100 {
        100
    } else {
        limit
    }
}

pub fn clamp_page(page: u32) -> (r: u32)
    ensures
        r == page_of(page),
{
    if page >= 1 {
        page
    } else {
        1
    }
}

pub fn clamp_limit(limit: u32) -> (r: u32)
    ensures
        r == limit_of(limit),
{
    if limit < 1 {
        1
    } else if limit > 100 {
        100
    } else {
        limit
    }
}

} // verus!
