use slack_adapter::event::{
    is_follow_up, mentions_bot, needs_bot_user_id, read_envelope, read_event, read_file,
    receive_text, route, written_by_bot, Delivery, SlackEvent,
};

fn json(text: &str) -> serde_json::Value {
    serde_json::from_str(text).unwrap()
}

fn thread_message(extra: &str) -> SlackEvent {
    let text = format!(
        "{{\"type\": \"message\", \"text\": \"hello <@U2>\", \"thread_ts\": \"1.1\"{extra}}}"
    );
    read_event(&json(&text))
}

#[test]
fn a_file_is_read() {
    let file = read_file(&json(
        "{\"mimetype\": \"image/png\", \"name\": \"a.png\", \"size\": 12, \"url_private_download\": \"d\", \"url_private\": \"p\"}",
    ));
    assert_eq!(file.mimetype, "image/png");
    assert_eq!(file.name, "a.png");
    assert_eq!(file.size, 12);
    assert_eq!(file.url, "d");
}

#[test]
fn what_a_file_lacks_is_made_up() {
    let file = read_file(&json("{\"url_private\": \"p\", \"size\": -1}"));
    assert_eq!(file.mimetype, "");
    assert_eq!(file.name, "file");
    assert_eq!(file.size, 0);
    assert_eq!(file.url, "p");
    let none = read_file(&json("{\"size\": 1.5, \"url_private_download\": 1}"));
    assert_eq!(none.size, 0);
    assert_eq!(none.url, "");
    let empty = read_file(&json("{\"url_private_download\": \"\", \"url_private\": \"p\"}"));
    assert_eq!(empty.url, "");
    let big = read_file(&json("{\"size\": 18446744073709551615}"));
    assert_eq!(big.size, u64::MAX);
}

#[test]
fn an_event_is_read() {
    let event = read_event(&json(
        "{\"type\": \"app_mention\", \"channel\": \"C\", \"user\": \"U\", \"text\": \"t\", \"ts\": \"1\", \"thread_ts\": \"2\", \"bot_id\": \"B\", \"subtype\": \"s\", \"files\": [{\"name\": \"x\"}, 3]}",
    ));
    assert_eq!(event.kind, "app_mention");
    assert_eq!(event.channel, Some("C".to_string()));
    assert_eq!(event.user, Some("U".to_string()));
    assert_eq!(event.text, Some("t".to_string()));
    assert_eq!(event.ts, Some("1".to_string()));
    assert_eq!(event.thread_ts, Some("2".to_string()));
    assert_eq!(event.bot_id, Some("B".to_string()));
    assert_eq!(event.subtype, Some("s".to_string()));
    let files = event.files.unwrap();
    assert_eq!(files.len(), 2);
    assert_eq!(files[0].name, "x");
    assert_eq!(files[1].name, "file");
}

#[test]
fn members_of_another_type_do_not_count() {
    let event = read_event(&json(
        "{\"type\": 1, \"channel\": null, \"user\": {}, \"text\": [], \"ts\": 5, \"files\": {}}",
    ));
    assert_eq!(event.kind, "");
    assert!(event.channel.is_none() && event.user.is_none());
    assert!(event.text.is_none() && event.ts.is_none() && event.files.is_none());
}

#[test]
fn only_events_of_the_events_api_are_taken() {
    let envelope = read_envelope(&json(
        "{\"envelope_id\": \"e\", \"type\": \"slash_commands\", \"payload\": {\"event\": {\"type\": \"message\"}}}",
    ));
    assert_eq!(envelope.envelope_id, Some("e".to_string()));
    assert!(envelope.event.is_none());
    let empty = read_envelope(&json("{\"type\": \"events_api\"}"));
    assert!(empty.envelope_id.is_none());
    assert_eq!(empty.event.unwrap().kind, "");
    let hollow = read_envelope(&json("{\"type\": \"events_api\", \"payload\": []}"));
    assert_eq!(hollow.event.unwrap().kind, "");
}

#[test]
fn an_envelope_is_acknowledged_by_its_id() {
    let received = receive_text("{\"envelope_id\": \"e\\\"1\", \"type\": \"hello\"}");
    assert_eq!(received.acknowledgement, Some("{\"envelope_id\":\"e\\\"1\"}".to_string()));
    assert!(matches!(received.delivery, Delivery::Nothing));
}

#[test]
fn mentions_and_messages_are_delivered() {
    let mention = receive_text(
        "{\"type\": \"events_api\", \"payload\": {\"event\": {\"type\": \"app_mention\", \"text\": \"a\"}}}",
    );
    assert!(mention.acknowledgement.is_none());
    assert!(matches!(mention.delivery, Delivery::Mention(e) if e.text == Some("a".to_string())));
    let message = receive_text(
        "{\"envelope_id\": \"x\", \"type\": \"events_api\", \"payload\": {\"event\": {\"type\": \"message\", \"text\": \"b\"}}}",
    );
    assert!(message.acknowledgement.is_some());
    assert!(matches!(message.delivery, Delivery::Message(e) if e.text == Some("b".to_string())));
    let other = receive_text(
        "{\"type\": \"events_api\", \"payload\": {\"event\": {\"type\": \"reaction_added\"}}}",
    );
    assert!(matches!(other.delivery, Delivery::Nothing));
}

#[test]
fn what_is_not_json_is_passed_over() {
    let received = receive_text("not json");
    assert!(received.acknowledgement.is_none());
    assert!(matches!(received.delivery, Delivery::Nothing));
}

#[test]
fn a_message_in_a_thread_follows_up() {
    assert!(is_follow_up(&thread_message(""), None));
    assert!(is_follow_up(&thread_message(""), Some("U1")));
    assert!(is_follow_up(&thread_message(", \"subtype\": \"file_share\""), Some("U1")));
}

#[test]
fn a_message_outside_threads_does_not_follow_up() {
    let event = read_event(&json("{\"type\": \"message\", \"text\": \"hi\"}"));
    assert!(!is_follow_up(&event, None));
}

#[test]
fn bots_are_not_followed_up() {
    assert!(!is_follow_up(&thread_message(", \"bot_id\": \"B\""), None));
    assert!(!is_follow_up(&thread_message(", \"subtype\": \"bot_message\""), None));
}

#[test]
fn notices_are_not_followed_up() {
    for subtype in [
        "message_changed",
        "message_deleted",
        "channel_join",
        "channel_leave",
        "channel_topic",
        "channel_purpose",
    ] {
        let extra = format!(", \"subtype\": \"{subtype}\"");
        assert!(!is_follow_up(&thread_message(&extra), None));
    }
}

#[test]
fn a_message_that_mentions_the_bot_is_left_to_the_mention() {
    assert!(!is_follow_up(&thread_message(""), Some("U2")));
    assert!(is_follow_up(&thread_message(""), Some("U")));
    let silent = read_event(&json("{\"type\": \"message\", \"thread_ts\": \"1\"}"));
    assert!(is_follow_up(&silent, Some("U2")));
}

#[test]
fn deliveries_are_routed() {
    assert!(route(Delivery::Nothing, Some("U2")).is_none());
    let mention = route(Delivery::Mention(thread_message("")), Some("U2"));
    assert!(matches!(mention, Some((event, true)) if event.thread_ts.is_some()));
    let follow_up = route(Delivery::Message(thread_message("")), Some("U9"));
    assert!(matches!(follow_up, Some((event, false)) if event.thread_ts.is_some()));
    assert!(route(Delivery::Message(thread_message("")), Some("U2")).is_none());
    let unknown = route(Delivery::Message(thread_message("")), None);
    assert!(matches!(unknown, Some((_, false))));
}

#[test]
fn only_messages_need_the_bot_user_id() {
    assert!(!needs_bot_user_id(&Delivery::Nothing));
    assert!(!needs_bot_user_id(&Delivery::Mention(thread_message(""))));
    assert!(needs_bot_user_id(&Delivery::Message(thread_message(""))));
}

#[test]
fn writers_and_mentions_are_told() {
    assert!(!written_by_bot(&thread_message("")));
    let by_bot = read_event(&json("{\"bot_id\": \"B1\"}"));
    assert!(written_by_bot(&by_bot));
    let posted = read_event(&json("{\"subtype\": \"bot_message\"}"));
    assert!(written_by_bot(&posted));
    assert!(mentions_bot(&thread_message(""), Some("U2")));
    assert!(!mentions_bot(&thread_message(""), Some("U9")));
    assert!(!mentions_bot(&thread_message(""), None));
}
