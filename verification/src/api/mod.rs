pub mod auth;
pub mod config;
pub mod error;
pub mod hub;
pub mod price_model;
pub mod publisher;
pub mod quote_pricing;
pub mod routes;
