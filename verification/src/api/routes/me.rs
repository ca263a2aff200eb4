//! The caller's own identity and tenant.
use vstd::prelude::*;

use crate::domain::auth::AuthContext;
use crate::domain::tenant::Tenant;

verus! {

#[derive(Debug, Clone, PartialEq)]
pub struct TenantSummary {
    pub name: String,
    pub default_language: String,
    pub default_currency: String,
}

#[derive(Debug, Clone, PartialEq)]
pub struct MeResponse {
    pub user_id: String,
    pub org_id: String,
    pub tenant: TenantSummary,
}

/// Who the caller is, and the name and defaults of their tenant.
pub fn me(auth: AuthContext, tenant: Tenant) -> (r: MeResponse)
    ensures
        r.user_id == auth.user_id,
        r.org_id == auth.org_id,
        r.tenant.name == tenant.name,
        r.tenant.default_language == tenant.default_language,
        r.tenant.default_currency == tenant.default_currency,
{
    MeResponse {
        user_id: auth.user_id,
        org_id: auth.org_id,
        tenant: TenantSummary {
            name: tenant.name,
            default_language: tenant.default_language,
            default_currency: tenant.default_currency,
        },
    }
}

} // verus!
