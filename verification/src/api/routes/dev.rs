//! The dev-mode token issuer's request and answer.
use vstd::prelude::*;

use crate::api::error::{plain_api_error, ApiError, ApiErrorView, STATUS_INTERNAL};

verus! {

#[derive(Debug, Clone, PartialEq)]
pub struct TokenRequest {
    pub user_id: String,
    pub org_id: String,
}

#[derive(Debug, Clone, PartialEq)]
pub struct TokenResponse {
    pub token: String,
}

/// The dev routes need the dev issuer; without it they fail with a 500.
pub fn require_dev_issuer(enabled: bool) -> (r: Result<(), ApiError>)
    ensures
        enabled ==> r is Ok,
        !enabled ==> (r matches Err(e) && e@ == plain_api_error(
            STATUS_INTERNAL,
            "internal"@,
            "dev issuer not enabled"@,
        )),
{
    if enabled {
        Ok(())
    } else {
        Err(ApiError::internal("dev issuer not enabled"))
    }
}

} // verus!
