//! Captive-portal onboarding for a Wi-Fi station: a bounded-retry connection state machine
//! and the reading of access-point metadata from a portal's redirect.
//!
//! The radio and the HTTP transport stay with the caller. The caller carries out each
//! action that [`wifi::step`] asks for and reports the outcome as an event; it sends the
//! probe request and hands the answer's status and `Location` header to
//! [`portal::ap_from_response`].
pub mod portal;
pub mod wifi;
