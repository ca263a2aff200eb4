//! Change events pushed to live subscribers.
use vstd::prelude::*;

use crate::domain::customer::Customer;
use crate::domain::invoice::Invoice;
use crate::domain::order::Order;
use crate::domain::quote::Quote;

verus! {

#[derive(Debug, Clone, Copy, PartialEq, Eq, Structural)]
pub enum ChangeAction {
    Create,
    Update,
    Delete,
}

#[derive(Debug, PartialEq)]
pub struct ChangeEvent<T> {
    pub action: ChangeAction,
    pub id: String,
    /// The entity for create/update, `None` for delete.
    pub data: Option<T>,
}

#[derive(Debug, PartialEq)]
pub enum LiveChange {
    Customer(Box<ChangeEvent<Customer>>),
    Order(Box<ChangeEvent<Order>>),
    Invoice(Box<ChangeEvent<Invoice>>),
    Quote(Box<ChangeEvent<Quote>>),
}

} // verus!
