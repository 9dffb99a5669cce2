//! Data-model layer for a third-party messaging HTTP API (email and SMS
//! sending, delivery reporting, domain and tracking management).
//!
//! The library defines every request and response payload shape exchanged
//! with the remote API, validates field-level constraints before a payload
//! is handed to a transport, and renders requests to their JSON wire form
//! with the API's field names, omitting optional fields that are absent.

pub mod decode;
pub mod email;
pub mod sms;
pub mod validation;
pub mod wire;
