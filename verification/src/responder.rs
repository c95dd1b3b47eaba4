//! The outbound responder protocol: one fresh broker session per response.
//!
//! For each successfully decoded notification the relay opens a new
//! connection, declares the call's queue, publishes the fixed response,
//! awaits the broker's confirmation and closes the connection. The plan
//! below fixes that order; the application shell performs each step against
//! the broker and stops at the first failure, which the consumer loop
//! treats as non-fatal. The confirmation the broker returns is mapped to a
//! report text here.

use crate::codec::response_content;
use crate::codec::response_json;
use crate::codec::response_payload;
use vstd::prelude::*;
use vstd::string::StringExecFns;
use vstd::utf8::encode_utf8;

verus! {

/// One outbound step, to be performed in order against the broker.
pub enum OutboundAction {
    /// Open a fresh connection, independent of the inbound session.
    Connect,
    /// Open a channel on that connection.
    OpenChannel,
    /// Declare the response queue: create it if absent, reuse it if present.
    DeclareQueue { queue_name: String },
    /// Publish the payload to the default exchange under the queue's name.
    Publish { queue_name: String, payload: Vec<u8> },
    /// Wait for the broker's publish confirmation.
    AwaitConfirmation,
    /// Close the connection cleanly.
    CloseConnection,
}

/// The broker's reply to a publish, as far as the relay reads it.
pub enum BrokerConfirmation {
    /// Confirmations were not requested on the channel.
    NotRequested,
    /// The broker confirmed the publish; `detail` describes the reply.
    Acknowledged { detail: String },
    /// The broker refused the publish; `detail` describes the reply.
    Rejected { detail: String },
}

/// The steps that send one response to the queue named after a call:
/// connect, open a channel, declare the queue, publish the fixed response
/// payload to it, await confirmation, close. The queue is declared before
/// anything is published to it, and the connection outlives the publish.
pub fn responder_plan(queue_name: &str) -> (plan: Vec<OutboundAction>)
    ensures
        plan@.len() == 6,
        plan@[0] is Connect,
        plan@[1] is OpenChannel,
        plan@[2] matches OutboundAction::DeclareQueue { queue_name: q } && q@ == queue_name@,
        plan@[3] matches OutboundAction::Publish { queue_name: q, payload } && q@ == queue_name@
            && payload@ == encode_utf8(response_json(response_content())),
        plan@[4] is AwaitConfirmation,
        plan@[5] is CloseConnection,
{
    let mut plan: Vec<OutboundAction> = Vec::new();
    plan.push(OutboundAction::Connect);
    plan.push(OutboundAction::OpenChannel);
    plan.push(OutboundAction::DeclareQueue { queue_name: queue_name.to_owned() });
    plan.push(
        OutboundAction::Publish { queue_name: queue_name.to_owned(), payload: response_payload() },
    );
    plan.push(OutboundAction::AwaitConfirmation);
    plan.push(OutboundAction::CloseConnection);
    plan
}

/// The report text for a publish confirmation: the fixed "in queue" text
/// when confirmations were not requested, and a text embedding the broker's
/// reply otherwise.
pub fn confirmation_text(confirmation: &BrokerConfirmation) -> (r: String)
    ensures
        (match confirmation {
            BrokerConfirmation::NotRequested => r@ == "Message in queue"@,
            BrokerConfirmation::Acknowledged { detail } => r@ == "Received confirmation - "@
                + detail@,
            BrokerConfirmation::Rejected { detail } => r@ == "Received confirmation - "@ + detail@,
        }),
{
    match confirmation {
        BrokerConfirmation::NotRequested => "Message in queue".to_owned(),
        BrokerConfirmation::Acknowledged { detail } => {
            let mut out = String::new();
            out.append("Received confirmation - ");
            out.append(detail.as_str());
            proof {
                assert(Seq::<char>::empty() + "Received confirmation - "@ + detail@
                    =~= "Received confirmation - "@ + detail@);
            }
            out
        },
        BrokerConfirmation::Rejected { detail } => {
            let mut out = String::new();
            out.append("Received confirmation - ");
            out.append(detail.as_str());
            proof {
                assert(Seq::<char>::empty() + "Received confirmation - "@ + detail@
                    =~= "Received confirmation - "@ + detail@);
            }
            out
        },
    }
}

} // verus!
