//! A small HTTP GIF service, verified: a time-ordered distributed ID
//! generator, the request-routing and error-classification rules, the
//! storage-result classification, and the two diagnostic text transforms.
//!
//! Transport, SQL and the system clock live outside the library; every
//! decision the service makes is a verified function in here.

pub mod errors;
pub mod gateway;
pub mod router;
pub mod snowflake;
pub mod text;
