//! Tenants and their provisioning defaults.
use vstd::prelude::*;

verus! {

/// Language of a newly provisioned tenant that requested none.
pub const DEFAULT_LANGUAGE: &'static str = "en";

/// Currency of a newly provisioned tenant that requested none.
pub const DEFAULT_CURRENCY: &'static str = "EUR";

#[derive(Debug, Clone, PartialEq)]
pub struct Tenant {
    pub id: String,
    pub org_id: String,
    pub db_name: String,
    pub name: String,
    pub default_language: String,
    pub default_currency: String,
    /// Prefix of order numbers as `"{prefix}-{NNNNNN}"`; empty means none.
    pub order_prefix: String,
    /// Same as `order_prefix`, for invoice numbers.
    pub invoice_prefix: String,
    pub created_at: String,
    pub updated_at: String,
}

#[derive(Debug, Clone, PartialEq)]
pub struct NewTenant {
    pub org_id: String,
    pub db_name: String,
    pub name: String,
    pub default_language: String,
    pub default_currency: String,
}

} // verus!
