use slack_adapter::event::Delivery;
use slack_adapter::session::{start, step, Phase, SessionAction, SessionEvent};

fn is_retry(next: (Phase, Vec<SessionAction>)) -> bool {
    next.0 == Phase::Waiting && next.1.len() == 1 && matches!(next.1[0], SessionAction::Sleep(5))
}

#[test]
fn a_session_begins_by_looking_for_a_shutdown() {
    let (phase, actions) = start();
    assert!(phase == Phase::Starting);
    assert_eq!(actions.len(), 1);
    assert!(matches!(actions[0], SessionAction::CheckShutdown));
}

#[test]
fn a_session_connects() {
    let (phase, actions) = step(Phase::Starting, SessionEvent::ShutdownFlag(false));
    assert!(phase == Phase::Opening && actions.len() == 1);
    assert!(matches!(actions[0], SessionAction::AskForUrl));
    let (phase, actions) = step(phase, SessionEvent::Opened(Some("wss://a".to_string())));
    assert!(phase == Phase::Connecting && actions.len() == 1);
    assert!(matches!(&actions[0], SessionAction::Connect(url) if url == "wss://a"));
    let (phase, actions) = step(phase, SessionEvent::Connected(true));
    assert!(phase == Phase::Listening && actions.len() == 1);
    assert!(matches!(actions[0], SessionAction::Listen));
}

#[test]
fn a_session_tries_again_after_a_disconnect() {
    assert!(is_retry(step(Phase::Opening, SessionEvent::Opened(None))));
    assert!(is_retry(step(Phase::Connecting, SessionEvent::Connected(false))));
    assert!(is_retry(step(Phase::Listening, SessionEvent::Closed)));
    assert!(is_retry(step(Phase::Listening, SessionEvent::ReadFailed)));
    assert!(is_retry(step(Phase::Listening, SessionEvent::Ended)));
    let (phase, actions) = step(Phase::Waiting, SessionEvent::Woke);
    assert!(phase == Phase::Starting && actions.len() == 1);
    assert!(matches!(actions[0], SessionAction::CheckShutdown));
}

#[test]
fn a_session_shuts_down() {
    let (phase, actions) = step(Phase::Starting, SessionEvent::ShutdownFlag(true));
    assert!(phase == Phase::Stopped && actions.len() == 1);
    assert!(matches!(actions[0], SessionAction::Finish));
    let (phase, actions) = step(Phase::Listening, SessionEvent::ShutdownSignal);
    assert!(phase == Phase::Stopped && actions.len() == 2);
    assert!(matches!(actions[0], SessionAction::SendClose));
    assert!(matches!(actions[1], SessionAction::Finish));
}

#[test]
fn a_stopped_session_does_nothing() {
    for event in [
        SessionEvent::ShutdownFlag(false),
        SessionEvent::Woke,
        SessionEvent::Text("{}".to_string()),
        SessionEvent::ShutdownSignal,
    ] {
        let (phase, actions) = step(Phase::Stopped, event);
        assert!(phase == Phase::Stopped && actions.is_empty());
    }
}

#[test]
fn what_is_not_waited_for_changes_nothing() {
    let (phase, actions) = step(Phase::Waiting, SessionEvent::Ping(vec![1]));
    assert!(phase == Phase::Waiting && actions.is_empty());
    let (phase, actions) = step(Phase::Starting, SessionEvent::ShutdownSignal);
    assert!(phase == Phase::Starting && actions.is_empty());
}

#[test]
fn a_ping_is_answered() {
    let (phase, actions) = step(Phase::Listening, SessionEvent::Ping(vec![7, 8]));
    assert!(phase == Phase::Listening && actions.len() == 2);
    assert!(matches!(&actions[0], SessionAction::SendPong(data) if *data == vec![7u8, 8]));
    assert!(matches!(actions[1], SessionAction::Listen));
    let (phase, actions) = step(Phase::Listening, SessionEvent::OtherFrame);
    assert!(phase == Phase::Listening && actions.len() == 1);
    assert!(matches!(actions[0], SessionAction::Listen));
}

#[test]
fn an_envelope_is_acknowledged_and_delivered() {
    let text = "{\"envelope_id\": \"e1\", \"type\": \"events_api\", \"payload\": {\"event\": {\"type\": \"app_mention\", \"user\": \"U\"}}}";
    let (phase, actions) = step(Phase::Listening, SessionEvent::Text(text.to_string()));
    assert!(phase == Phase::Listening && actions.len() == 3);
    assert!(matches!(&actions[0], SessionAction::SendText(t) if t == "{\"envelope_id\":\"e1\"}"));
    assert!(matches!(
        &actions[1],
        SessionAction::Deliver(Delivery::Mention(e)) if e.user == Some("U".to_string())
    ));
    assert!(matches!(actions[2], SessionAction::Listen));
}

#[test]
fn a_text_without_an_envelope_is_not_answered() {
    for text in ["oops", "{}", "[1]"] {
        let (phase, actions) = step(Phase::Listening, SessionEvent::Text(text.to_string()));
        assert!(phase == Phase::Listening && actions.len() == 2);
        assert!(matches!(actions[0], SessionAction::Deliver(Delivery::Nothing)));
        assert!(matches!(actions[1], SessionAction::Listen));
    }
}

#[test]
fn a_session_always_asks_for_what_it_waits_for() {
    let (phase, actions) = step(Phase::Waiting, SessionEvent::Woke);
    assert!(phase == Phase::Starting && matches!(actions[..], [SessionAction::CheckShutdown]));
    let (phase, actions) = step(Phase::Starting, SessionEvent::ShutdownFlag(false));
    assert!(phase == Phase::Opening && matches!(actions[..], [SessionAction::AskForUrl]));
    let (phase, actions) = step(Phase::Opening, SessionEvent::Opened(Some("u".to_string())));
    assert!(phase == Phase::Connecting && matches!(actions[..], [SessionAction::Connect(_)]));
    let (phase, actions) = step(Phase::Connecting, SessionEvent::Connected(true));
    assert!(phase == Phase::Listening && matches!(actions[..], [SessionAction::Listen]));
    let (phase, actions) = step(Phase::Listening, SessionEvent::OtherFrame);
    assert!(phase == Phase::Listening && matches!(actions[..], [SessionAction::Listen]));
    let (phase, actions) = step(Phase::Listening, SessionEvent::Ended);
    assert!(phase == Phase::Waiting && matches!(actions[..], [SessionAction::Sleep(5)]));
}
