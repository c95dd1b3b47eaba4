//! The two wire-level message shapes and the decode error taxonomy.

use vstd::prelude::*;

verus! {

/// One call-event notification, decoded from an inbound delivery's payload.
///
/// Both fields are opaque identifiers; `call_sid` doubles as the name of the
/// response queue for this call.
pub struct IncomingNotification {
    pub account_sid: String,
    pub call_sid: String,
}

/// The response published onto a call's response queue.
pub struct OutgoingResponse {
    pub content: String,
}

/// Why an inbound payload was rejected. A rejected payload is dropped, never
/// retried: the delivery was already acknowledged.
#[derive(Clone, Copy, Debug, PartialEq, Eq, Structural)]
pub enum DecodeError {
    /// The payload bytes are not valid UTF-8.
    Encoding,
    /// The payload is UTF-8 text but not a well-formed notification object.
    Schema,
}

impl Clone for IncomingNotification {
    fn clone(&self) -> (r: Self)
        ensures
            r.account_sid@ == self.account_sid@,
            r.call_sid@ == self.call_sid@,
    {
        IncomingNotification { account_sid: self.account_sid.clone(), call_sid: self.call_sid.clone() }
    }
}

} // verus!
