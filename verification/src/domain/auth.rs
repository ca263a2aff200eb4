//! The caller's identity, resolved from a verified token.
use vstd::prelude::*;

verus! {

/// The caller's identity and the tenant database their org maps to.
#[derive(Debug, Clone, PartialEq)]
pub struct AuthContext {
    pub user_id: String,
    pub org_id: String,
    pub tenant_db: String,
}

} // verus!
