//! Core of a newsletter subscription service: idempotent publishing of
//! newsletter issues, a durable per-recipient delivery queue with bounded
//! retries, and credential verification.
//!
//! The durable state of the service (idempotency records, newsletter issues,
//! the delivery queue, the subscriber directory, stored credentials) is
//! modelled by in-memory stores with verified invariants; the surrounding
//! process supplies the I/O: the HTTP layer hands the handlers plain values
//! and transmits the responses they return, and the email transport performs
//! the sends the delivery worker decides on.

pub mod authentication;
pub mod configuration;
pub mod delivery;
pub mod domain;
pub mod email;
pub mod idempotency;
pub mod issues;
pub mod login;
pub mod newsletters;
pub mod publish;
pub mod response;
pub mod runtime;
pub mod subscriptions;

pub use response::HandlerError;
pub use response::SavedHttpResponse;
