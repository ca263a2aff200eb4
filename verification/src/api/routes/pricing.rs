//! Pricing catalog routes: the path segment names the table.
use vstd::prelude::*;

use crate::api::error::{plain_api_error, ApiError, STATUS_NOT_FOUND};
use crate::domain::pricing::PricingEntity;

verus! {

/// The catalog entity a path segment names; an unknown segment is a 404.
pub fn parse_entity(segment: &str) -> (r: Result<PricingEntity, ApiError>)
    ensures
        match r {
            Ok(e) => PricingEntity::from_segment_spec(segment@) == Some(e),
            Err(x) => PricingEntity::from_segment_spec(segment@) is None && x@ == plain_api_error(
                STATUS_NOT_FOUND,
                "not_found"@,
                "unknown catalog entity"@,
            ),
        },
{
    match PricingEntity::from_segment(segment) {
        Some(e) => Ok(e),
        None => Err(ApiError::new(STATUS_NOT_FOUND, "not_found", "unknown catalog entity")),
    }
}

} // verus!
