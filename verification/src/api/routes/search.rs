//! Omnibox search: the query that is searched for.
use vstd::prelude::*;

use crate::text::{trim, trimmed};

verus! {

/// Max hits per entity in the omnibox response.
pub const HITS_PER_ENTITY: u32 = 5;

#[derive(Debug, Clone, PartialEq, Default)]
pub struct SearchParams {
    pub q: Option<String>,
}

/// The trimmed query, or `None` when it is absent or blank (an empty result,
/// no search).
pub fn search_query(params: &SearchParams) -> (r: Option<String>)
    ensures
        match params.q {
            Some(q) => if trimmed(q@).len() == 0 {
                r is None
            } else {
                r matches Some(t) && t@ == trimmed(q@)
            },
            None => r is None,
        },
{
    match &params.q {
        Some(q) => {
            let t = trim(q.as_str());
            if crate::text::chars_of(t.as_str()).len() == 0 {
                None
            } else {
                Some(t)
            }
        },
        None => None,
    }
}

} // verus!
