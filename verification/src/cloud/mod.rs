//! Errors of the cloud storage and key management services.

pub mod error;
