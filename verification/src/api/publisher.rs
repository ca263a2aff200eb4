//! Publication of changes from the request handlers.
use vstd::prelude::*;

use crate::domain::live::LiveChange;

verus! {

/// Announces a change of a tenant's data to live subscribers.
pub trait ChangePublisher {
    fn publish(&self, tenant_db: &str, change: LiveChange);
}

/// Publishes nothing: the store's live queries already feed the hub, so
/// publishing from handlers as well would send every event twice.
#[derive(Debug, Clone, Copy, PartialEq, Eq, Structural)]
pub struct NoopPublisher;

impl ChangePublisher for NoopPublisher {
    fn publish(&self, tenant_db: &str, change: LiveChange) {
    }
}

} // verus!
