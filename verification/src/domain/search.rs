//! Omnibox search results.
use vstd::prelude::*;

verus! {

/// One ranked hit: `highlight` falls back to `label` when the query matched
/// another field.
#[derive(Debug, Clone, PartialEq)]
pub struct SearchHit {
    pub id: String,
    pub label: String,
    pub highlight: String,
}

#[derive(Debug, Clone, PartialEq, Default)]
pub struct SearchResults {
    pub customers: Vec<SearchHit>,
    pub orders: Vec<SearchHit>,
    pub invoices: Vec<SearchHit>,
    pub quotes: Vec<SearchHit>,
}

} // verus!
