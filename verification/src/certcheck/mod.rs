//! Certificate and domain-registration checks.

pub mod alerts;
pub mod domain;
pub mod ssl;
