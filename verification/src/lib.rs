//! A message relay for call-event notifications.
//!
//! The relay consumes deliveries from a fixed inbound queue, acknowledges
//! each one, decodes its payload as a JSON notification, and dispatches a
//! fixed JSON response onto a per-call response queue. This crate holds the
//! verified core: the wire codec, the per-delivery consumer protocol, and
//! the outbound responder protocol. Broker connectivity and logging live in
//! the unverified application shell around it.

pub mod codec;
pub mod messages;
pub mod relay;
pub mod responder;
