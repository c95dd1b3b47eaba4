//! The inbound consumer protocol: what the relay does with each delivery.
//!
//! The loop around the broker is modelled as a step function from a state
//! and an event to the next state and the actions to perform. The
//! application shell receives deliveries and dispatch outcomes from the
//! broker, feeds them in as events, and performs the returned actions in
//! order. Every delivery is acknowledged first, exactly once, whatever its
//! payload holds; only a successfully decoded payload adds a dispatch.

use crate::codec::decode_notification;
use crate::codec::decode_outcome;
use crate::codec::response_content;
use crate::codec::response_json;
use crate::codec::response_payload;
use crate::messages::DecodeError;
use vstd::prelude::*;
use vstd::utf8::encode_utf8;

verus! {

/// One action for the application shell to perform, in order.
pub enum RelayAction {
    /// Acknowledge the current delivery to the broker.
    Ack,
    /// Send the response payload to the queue named after the call.
    Dispatch { queue_name: String, payload: Vec<u8> },
    /// Log that the payload was rejected, and why.
    ReportDecodeFailure { error: DecodeError },
    /// Log how a dispatch ended for a call.
    ReportOutcome { call_sid: String, success: bool, detail: String },
}

/// The state of the consumer loop between events.
pub enum LoopState {
    /// Waiting for the next delivery.
    AwaitingDelivery,
    /// Waiting to hear how the dispatch for this call ended.
    AwaitingOutcome { call_sid: String },
}

/// One event handed in by the application shell.
pub enum LoopEvent {
    /// A delivery arrived with this payload.
    Delivered { payload: Vec<u8> },
    /// The outbound dispatch ended, well or badly, with a report text.
    OutcomeReady { success: bool, detail: String },
}

/// `RelayAction`, over mathematical values.
pub enum RelayActionV {
    Ack,
    Dispatch { queue_name: Seq<char>, payload: Seq<u8> },
    ReportDecodeFailure { error: DecodeError },
    ReportOutcome { call_sid: Seq<char>, success: bool, detail: Seq<char> },
}

/// `LoopState`, over mathematical values.
pub enum LoopStateV {
    AwaitingDelivery,
    AwaitingOutcome { call_sid: Seq<char> },
}

/// `LoopEvent`, over mathematical values.
pub enum LoopEventV {
    Delivered { payload: Seq<u8> },
    OutcomeReady { success: bool, detail: Seq<char> },
}

impl View for RelayAction {
    type V = RelayActionV;

    open spec fn view(&self) -> RelayActionV {
        match self {
            RelayAction::Ack => RelayActionV::Ack,
            RelayAction::Dispatch { queue_name, payload } => (RelayActionV::Dispatch {
                queue_name: queue_name@,
                payload: payload@,
            }),
            RelayAction::ReportDecodeFailure { error } => (RelayActionV::ReportDecodeFailure {
                error: *error,
            }),
            RelayAction::ReportOutcome { call_sid, success, detail } => (
            RelayActionV::ReportOutcome {
                call_sid: call_sid@,
                success: *success,
                detail: detail@,
            }),
        }
    }
}

impl View for LoopState {
    type V = LoopStateV;

    open spec fn view(&self) -> LoopStateV {
        match self {
            LoopState::AwaitingDelivery => LoopStateV::AwaitingDelivery,
            LoopState::AwaitingOutcome { call_sid } => (LoopStateV::AwaitingOutcome {
                call_sid: call_sid@,
            }),
        }
    }
}

impl View for LoopEvent {
    type V = LoopEventV;

    open spec fn view(&self) -> LoopEventV {
        match self {
            LoopEvent::Delivered { payload } => (LoopEventV::Delivered { payload: payload@ }),
            LoopEvent::OutcomeReady { success, detail } => (LoopEventV::OutcomeReady {
                success: *success,
                detail: detail@,
            }),
        }
    }
}

/// The actions of a sequence, over mathematical values.
pub open spec fn actions_view(s: Seq<RelayAction>) -> Seq<RelayActionV> {
    s.map_values(|a: RelayAction| a@)
}

/// The actions taken for one delivery: acknowledge it first, always and
/// exactly once; dispatch the fixed response to the decoded call's queue on
/// success, report the rejection otherwise.
pub open spec fn delivery_actions(payload: Seq<u8>) -> Seq<RelayActionV> {
    match decode_outcome(payload) {
        Ok(p) => seq![
            RelayActionV::Ack,
            RelayActionV::Dispatch {
                queue_name: p.1,
                payload: encode_utf8(response_json(response_content())),
            },
        ],
        Err(e) => seq![RelayActionV::Ack, RelayActionV::ReportDecodeFailure { error: e }],
    }
}

/// The consumer loop's step relation.
pub open spec fn relay_step_spec(state: LoopStateV, event: LoopEventV) -> (
    LoopStateV,
    Seq<RelayActionV>,
) {
    match (state, event) {
        (LoopStateV::AwaitingDelivery, LoopEventV::Delivered { payload }) => {
            match decode_outcome(payload) {
                Ok(p) => ((LoopStateV::AwaitingOutcome { call_sid: p.1 }), delivery_actions(
                    payload,
                )),
                Err(_) => (LoopStateV::AwaitingDelivery, delivery_actions(payload)),
            }
        },
        (
            LoopStateV::AwaitingOutcome { call_sid },
            LoopEventV::OutcomeReady { success, detail },
        ) => (
            LoopStateV::AwaitingDelivery,
            seq![RelayActionV::ReportOutcome { call_sid, success, detail }],
        ),
        (s, _) => (s, Seq::empty()),
    }
}

/// Performs one step of the consumer loop.
pub fn relay_step(state: LoopState, event: LoopEvent) -> (r: (LoopState, Vec<RelayAction>))
    ensures
        r.0@ == relay_step_spec(state@, event@).0,
        actions_view(r.1@) == relay_step_spec(state@, event@).1,
{
    match (state, event) {
        (LoopState::AwaitingDelivery, LoopEvent::Delivered { payload }) => {
            match decode_notification(payload.as_slice()) {
                Ok(n) => {
                    let next = LoopState::AwaitingOutcome { call_sid: n.call_sid.clone() };
                    let mut acts: Vec<RelayAction> = Vec::new();
                    acts.push(RelayAction::Ack);
                    acts.push(
                        RelayAction::Dispatch {
                            queue_name: n.call_sid,
                            payload: response_payload(),
                        },
                    );
                    proof {
                        assert(actions_view(acts@) =~= relay_step_spec(
                            LoopStateV::AwaitingDelivery,
                            (LoopEventV::Delivered { payload: payload@ }),
                        ).1);
                    }
                    (next, acts)
                },
                Err(e) => {
                    let mut acts: Vec<RelayAction> = Vec::new();
                    acts.push(RelayAction::Ack);
                    acts.push(RelayAction::ReportDecodeFailure { error: e });
                    proof {
                        assert(actions_view(acts@) =~= relay_step_spec(
                            LoopStateV::AwaitingDelivery,
                            (LoopEventV::Delivered { payload: payload@ }),
                        ).1);
                    }
                    (LoopState::AwaitingDelivery, acts)
                },
            }
        },
        (LoopState::AwaitingOutcome { call_sid }, LoopEvent::OutcomeReady { success, detail }) => {
            let mut acts: Vec<RelayAction> = Vec::new();
            let ghost sid = call_sid@;
            let ghost det = detail@;
            acts.push(RelayAction::ReportOutcome { call_sid, success, detail });
            proof {
                assert(actions_view(acts@) =~= seq![
                    RelayActionV::ReportOutcome { call_sid: sid, success, detail: det },
                ]);
            }
            (LoopState::AwaitingDelivery, acts)
        },
        (s, _) => {
            let acts: Vec<RelayAction> = Vec::new();
            proof {
                assert(actions_view(acts@) =~= Seq::<RelayActionV>::empty());
            }
            (s, acts)
        },
    }
}

/// For every delivery, whatever its payload holds, the first action is the
/// acknowledgement, and no other action acknowledges: the delivery is
/// acknowledged exactly once, before any decode outcome is acted on.
pub proof fn lemma_ack_before_processing(payload: Seq<u8>)
    ensures
        ({
            let acts = relay_step_spec(
                LoopStateV::AwaitingDelivery,
                (LoopEventV::Delivered { payload }),
            ).1;
            acts.len() >= 1 && acts[0] is Ack && (forall|i: int|
                1 <= i < acts.len() ==> !(#[trigger] acts[i] is Ack))
        }),
{
}

/// A payload the codec rejects — not UTF-8, or not a well-formed
/// notification object, a required member missing or mistyped among them —
/// is still acknowledged, is never dispatched, and leaves the loop waiting
/// for the next delivery as before.
pub proof fn lemma_rejected_payload_is_dropped(payload: Seq<u8>)
    requires
        decode_outcome(payload) is Err,
    ensures
        ({
            let r = relay_step_spec(
                LoopStateV::AwaitingDelivery,
                (LoopEventV::Delivered { payload }),
            );
            r.0 == LoopStateV::AwaitingDelivery && r.1.len() == 2 && r.1[0] is Ack && (r.1[1]
                matches RelayActionV::ReportDecodeFailure { error } && Err::<
                (Seq<char>, Seq<char>),
                DecodeError,
            >(error) == decode_outcome(payload)) && (forall|i: int|
                0 <= i < r.1.len() ==> !(#[trigger] r.1[i] is Dispatch))
        }),
{
}

/// How a dispatch for one call ended, well or badly, has no bearing on how
/// the next delivery is handled: the loop returns to the same state either
/// way, and the next delivery's actions depend on its payload alone.
pub proof fn lemma_dispatch_independence(
    call_sid: Seq<char>,
    fail_detail: Seq<char>,
    ok_detail: Seq<char>,
    next_payload: Seq<u8>,
)
    ensures
        ({
            let after_fail = relay_step_spec(
                (LoopStateV::AwaitingOutcome { call_sid }),
                (LoopEventV::OutcomeReady { success: false, detail: fail_detail }),
            ).0;
            let after_ok = relay_step_spec(
                (LoopStateV::AwaitingOutcome { call_sid }),
                (LoopEventV::OutcomeReady { success: true, detail: ok_detail }),
            ).0;
            after_fail == after_ok && relay_step_spec(
                after_fail,
                (LoopEventV::Delivered { payload: next_payload }),
            ) == relay_step_spec(after_ok, (LoopEventV::Delivered { payload: next_payload }))
        }),
{
}

} // verus!
