//! Normalization of token-lifecycle events into canonical activity records.
pub mod address;
pub mod decimal;
pub mod event;
pub mod identifier;
pub mod activity;
