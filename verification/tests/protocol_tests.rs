use call_relay::codec::default_response;
use call_relay::messages::DecodeError;
use call_relay::relay::LoopEvent;
use call_relay::relay::LoopState;
use call_relay::relay::RelayAction;
use call_relay::relay::relay_step;
use call_relay::responder::BrokerConfirmation;
use call_relay::responder::OutboundAction;
use call_relay::responder::confirmation_text;
use call_relay::responder::responder_plan;

const RESPONSE_TEXT: &str = "{\"content\":\"This was sent asynchronously through Rabbit MQ\"}";

fn deliver(state: LoopState, payload: &[u8]) -> (LoopState, Vec<RelayAction>) {
    relay_step(state, LoopEvent::Delivered { payload: payload.to_vec() })
}

#[test]
fn fixed_response_content() {
    let r = default_response();
    assert_eq!(r.content, "This was sent asynchronously through Rabbit MQ");
}

#[test]
fn good_delivery_acks_then_dispatches() {
    let (state, actions) = deliver(
        LoopState::AwaitingDelivery,
        b"{\"account_sid\":\"AC1\",\"call_sid\":\"CA1\"}",
    );
    assert!(matches!(state, LoopState::AwaitingOutcome { ref call_sid } if call_sid == "CA1"));
    assert_eq!(actions.len(), 2);
    assert!(matches!(actions[0], RelayAction::Ack));
    match &actions[1] {
        RelayAction::Dispatch { queue_name, payload } => {
            assert_eq!(queue_name, "CA1");
            assert_eq!(payload.as_slice(), RESPONSE_TEXT.as_bytes());
        },
        other => panic!("expected a dispatch, got {:?}", action_name(other)),
    }
}

#[test]
fn bad_utf8_delivery_still_acks_first() {
    let (state, actions) = deliver(LoopState::AwaitingDelivery, &[0xff, 0xfe]);
    assert!(matches!(state, LoopState::AwaitingDelivery));
    assert_eq!(actions.len(), 2);
    assert!(matches!(actions[0], RelayAction::Ack));
    assert!(matches!(
        actions[1],
        RelayAction::ReportDecodeFailure { error: DecodeError::Encoding }
    ));
}

#[test]
fn bad_schema_delivery_still_acks_first() {
    let (state, actions) = deliver(LoopState::AwaitingDelivery, b"{\"account_sid\":\"AC1\"}");
    assert!(matches!(state, LoopState::AwaitingDelivery));
    assert_eq!(actions.len(), 2);
    assert!(matches!(actions[0], RelayAction::Ack));
    assert!(matches!(
        actions[1],
        RelayAction::ReportDecodeFailure { error: DecodeError::Schema }
    ));
}

#[test]
fn every_delivery_acks_exactly_once() {
    let payloads: Vec<&[u8]> = vec![
        b"{\"account_sid\":\"AC1\",\"call_sid\":\"CA1\"}",
        b"{}",
        &[0x80],
        b"",
    ];
    for payload in payloads {
        let (_, actions) = deliver(LoopState::AwaitingDelivery, payload);
        let acks = actions.iter().filter(|a| matches!(a, RelayAction::Ack)).count();
        assert_eq!(acks, 1);
        assert!(matches!(actions[0], RelayAction::Ack));
    }
}

#[test]
fn failed_dispatch_does_not_block_the_next_call() {
    // first call: decoded, dispatched, and the dispatch fails
    let (state, _) = deliver(
        LoopState::AwaitingDelivery,
        b"{\"account_sid\":\"AC1\",\"call_sid\":\"CAX\"}",
    );
    let (state, actions) = relay_step(
        state,
        LoopEvent::OutcomeReady { success: false, detail: "connection refused".to_string() },
    );
    assert_eq!(actions.len(), 1);
    assert!(matches!(
        &actions[0],
        RelayAction::ReportOutcome { call_sid, success: false, .. } if call_sid == "CAX"
    ));
    // the next delivery, for a different call, is processed as usual
    let (state, actions) = deliver(state, b"{\"account_sid\":\"AC2\",\"call_sid\":\"CAY\"}");
    assert!(matches!(state, LoopState::AwaitingOutcome { ref call_sid } if call_sid == "CAY"));
    assert!(matches!(actions[0], RelayAction::Ack));
    assert!(matches!(&actions[1], RelayAction::Dispatch { queue_name, .. } if queue_name == "CAY"));
}

#[test]
fn end_to_end_plan_for_one_delivery() {
    // what reaches the queue named CA1 when the wire payload names it
    let (_, actions) = deliver(
        LoopState::AwaitingDelivery,
        b"{\"account_sid\":\"AC1\",\"call_sid\":\"CA1\"}",
    );
    assert!(matches!(actions[0], RelayAction::Ack));
    let queue_name = match &actions[1] {
        RelayAction::Dispatch { queue_name, payload } => {
            assert_eq!(payload.as_slice(), RESPONSE_TEXT.as_bytes());
            queue_name.clone()
        },
        _ => panic!("expected a dispatch"),
    };
    assert_eq!(queue_name, "CA1");
    let plan = responder_plan(&queue_name);
    assert_eq!(plan.len(), 6);
    assert!(matches!(plan[0], OutboundAction::Connect));
    assert!(matches!(plan[1], OutboundAction::OpenChannel));
    assert!(matches!(&plan[2], OutboundAction::DeclareQueue { queue_name } if queue_name == "CA1"));
    match &plan[3] {
        OutboundAction::Publish { queue_name, payload } => {
            assert_eq!(queue_name, "CA1");
            assert_eq!(payload.as_slice(), RESPONSE_TEXT.as_bytes());
        },
        _ => panic!("expected a publish"),
    }
    assert!(matches!(plan[4], OutboundAction::AwaitConfirmation));
    assert!(matches!(plan[5], OutboundAction::CloseConnection));
}

#[test]
fn queue_is_declared_before_publish() {
    let plan = responder_plan("CA7");
    let declare_at = plan
        .iter()
        .position(|a| matches!(a, OutboundAction::DeclareQueue { .. }))
        .unwrap();
    let publish_at = plan
        .iter()
        .position(|a| matches!(a, OutboundAction::Publish { .. }))
        .unwrap();
    assert!(declare_at < publish_at);
}

#[test]
fn not_requested_confirmation_maps_to_fixed_text() {
    let text = confirmation_text(&BrokerConfirmation::NotRequested);
    assert_eq!(text, "Message in queue");
}

#[test]
fn other_confirmations_embed_their_details() {
    let text = confirmation_text(&BrokerConfirmation::Acknowledged {
        detail: "Ack(None)".to_string(),
    });
    assert_eq!(text, "Received confirmation - Ack(None)");
    let text = confirmation_text(&BrokerConfirmation::Rejected {
        detail: "Nack(None)".to_string(),
    });
    assert_eq!(text, "Received confirmation - Nack(None)");
}

#[test]
fn mismatched_events_change_nothing() {
    let (state, actions) = relay_step(
        LoopState::AwaitingDelivery,
        LoopEvent::OutcomeReady { success: true, detail: "stray".to_string() },
    );
    assert!(matches!(state, LoopState::AwaitingDelivery));
    assert!(actions.is_empty());
}

fn action_name(a: &RelayAction) -> &'static str {
    match a {
        RelayAction::Ack => "Ack",
        RelayAction::Dispatch { .. } => "Dispatch",
        RelayAction::ReportDecodeFailure { .. } => "ReportDecodeFailure",
        RelayAction::ReportOutcome { .. } => "ReportOutcome",
    }
}
