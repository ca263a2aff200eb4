pub mod auth;
pub mod customer;
pub mod error;
pub mod invoice;
pub mod live;
pub mod money;
pub mod order;
pub mod pricing;
pub mod quote;
pub mod search;
pub mod tenant;
