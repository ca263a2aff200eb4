pub mod effect;
pub mod model;
pub mod money;
pub mod rules;
pub mod error;
pub mod outcome;
pub mod laws;
pub mod price;
pub mod resolve;
