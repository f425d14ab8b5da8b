//! Scenario tests for the stream controller: whole event sequences fed to a
//! fresh controller, and the controller's own lifecycle.

use openai_client::chat_stream::classify_event;
use openai_client::chat_stream::decode_events;
use openai_client::chat_stream::ClassifiedEvent;
use openai_client::chat_stream::RawEvent;
use openai_client::chat_stream::StepOutcome;
use openai_client::chat_stream::StreamController;
use openai_client::chat_stream::StreamError;

const CHUNK_HI: &str = "{\"id\":\"1\",\"object\":\"x\",\"created\":0,\"model\":\"m\",\"choices\":[{\"index\":0,\"delta\":{\"content\":\"Hi\"},\"finish_reason\":null}]}";

#[test]
fn scenario_opened_then_chunk_then_done() {
    let events = vec![
        RawEvent::Opened,
        RawEvent::Message(CHUNK_HI.to_string()),
        RawEvent::Message("[DONE]".to_string()),
    ];
    let (items, closes) = decode_events(events);
    assert_eq!(items.len(), 1);
    match &items[0] {
        Ok(chunk) => {
            assert_eq!(chunk.id, "1");
            assert_eq!(chunk.choices.len(), 1);
            assert_eq!(chunk.choices[0].delta.content.as_deref(), Some("Hi"));
            assert_eq!(chunk.choices[0].finish_reason, None);
        }
        Err(_) => panic!("expected a decoded chunk"),
    }
    assert_eq!(closes, 1);
}

#[test]
fn scenario_malformed_payload_stops_before_done() {
    let events = vec![
        RawEvent::Message("not json".to_string()),
        RawEvent::Message("[DONE]".to_string()),
    ];
    let (items, closes) = decode_events(events);
    assert_eq!(items.len(), 1);
    match &items[0] {
        Err(StreamError::Decode(payload)) => assert_eq!(payload, "not json"),
        _ => panic!("expected a decode error"),
    }
    assert_eq!(closes, 1);
}

#[test]
fn scenario_only_opened_events_ends_cleanly() {
    let events = vec![RawEvent::Opened, RawEvent::Opened, RawEvent::Opened];
    let (items, closes) = decode_events(events);
    assert_eq!(items.len(), 0);
    assert_eq!(closes, 0);
}

#[test]
fn transport_failure_yields_one_error_and_one_close() {
    let events = vec![
        RawEvent::Opened,
        RawEvent::Failed("connection reset".to_string()),
        RawEvent::Message(CHUNK_HI.to_string()),
    ];
    let (items, closes) = decode_events(events);
    assert_eq!(items.len(), 1);
    match &items[0] {
        Err(StreamError::Transport(msg)) => assert_eq!(msg, "connection reset"),
        _ => panic!("expected a transport error"),
    }
    assert_eq!(closes, 1);
}

#[test]
fn two_chunks_then_done_yields_both_in_order() {
    let second = "{\"id\":\"2\",\"object\":\"x\",\"created\":1,\"model\":\"m\",\"choices\":[{\"index\":0,\"delta\":{\"content\":\" there\"},\"finish_reason\":\"stop\"}]}";
    let events = vec![
        RawEvent::Message(CHUNK_HI.to_string()),
        RawEvent::Message(second.to_string()),
        RawEvent::Message("[DONE]".to_string()),
    ];
    let (items, closes) = decode_events(events);
    assert_eq!(items.len(), 2);
    let first = items[0].as_ref().expect("first chunk decodes");
    let snd = items[1].as_ref().expect("second chunk decodes");
    assert_eq!(first.choices[0].delta.content.as_deref(), Some("Hi"));
    assert_eq!(snd.choices[0].delta.content.as_deref(), Some(" there"));
    assert_eq!(snd.choices[0].finish_reason.as_deref(), Some("stop"));
    assert_eq!(closes, 1);
}

#[test]
fn exhausted_input_without_sentinel_ends_without_close() {
    let events = vec![RawEvent::Opened, RawEvent::Message(CHUNK_HI.to_string())];
    let (items, closes) = decode_events(events);
    assert_eq!(items.len(), 1);
    assert!(items[0].is_ok());
    assert_eq!(closes, 0);
}

#[test]
fn step_skips_opened_and_stays_active() {
    let mut ctrl = StreamController::new();
    let (outcome, close) = ctrl.step(Some(RawEvent::Opened));
    assert!(matches!(outcome, StepOutcome::Continue));
    assert!(!close);
    assert!(ctrl.is_active());
}

#[test]
fn step_on_sentinel_finishes_and_closes_once() {
    let mut ctrl = StreamController::new();
    let (outcome, close) = ctrl.step(Some(RawEvent::Message("[DONE]".to_string())));
    assert!(matches!(outcome, StepOutcome::Finished));
    assert!(close);
    assert!(!ctrl.is_active());
    let (after, close_again) = ctrl.step(Some(RawEvent::Message(CHUNK_HI.to_string())));
    assert!(matches!(after, StepOutcome::Finished));
    assert!(!close_again);
}

#[test]
fn step_after_exhaustion_is_finished() {
    let mut ctrl = StreamController::new();
    let (outcome, close) = ctrl.step(None);
    assert!(matches!(outcome, StepOutcome::Finished));
    assert!(!close);
    let (again, close_again) = ctrl.step(None);
    assert!(matches!(again, StepOutcome::Finished));
    assert!(!close_again);
}

#[test]
fn close_is_idempotent() {
    let mut ctrl = StreamController::new();
    assert!(ctrl.close());
    assert!(!ctrl.close());
    assert!(!ctrl.close());
    assert!(!ctrl.is_active());
    let (outcome, close) = ctrl.step(Some(RawEvent::Message(CHUNK_HI.to_string())));
    assert!(matches!(outcome, StepOutcome::Finished));
    assert!(!close);
}

#[test]
fn classifier_is_pure_classification() {
    assert!(matches!(classify_event(RawEvent::Opened), ClassifiedEvent::Ignored));
    assert!(matches!(
        classify_event(RawEvent::Message("[DONE]".to_string())),
        ClassifiedEvent::CleanEnd
    ));
    match classify_event(RawEvent::Message("payload".to_string())) {
        ClassifiedEvent::Data(d) => assert_eq!(d, "payload"),
        _ => panic!("expected data"),
    }
    match classify_event(RawEvent::Failed("boom".to_string())) {
        ClassifiedEvent::Failure(m) => assert_eq!(m, "boom"),
        _ => panic!("expected failure"),
    }
}

#[test]
fn decode_error_after_good_chunks_is_terminal() {
    let events = vec![
        RawEvent::Message(CHUNK_HI.to_string()),
        RawEvent::Message("{\"id\":\"1\"}".to_string()),
        RawEvent::Message(CHUNK_HI.to_string()),
        RawEvent::Message("[DONE]".to_string()),
    ];
    let (items, closes) = decode_events(events);
    assert_eq!(items.len(), 2);
    assert!(items[0].is_ok());
    match &items[1] {
        Err(StreamError::Decode(payload)) => assert_eq!(payload, "{\"id\":\"1\"}"),
        _ => panic!("expected a decode error"),
    }
    assert_eq!(closes, 1);
}
