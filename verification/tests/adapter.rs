use slack_adapter::adapter::{user_name, Lookup, SlackAdapter, USER_CACHE_TTL};
use slack_adapter::api::{api_post_reply, ApiReply};
use slack_adapter::error::SlackError;
use slack_adapter::refs::{ChannelRef, MessageRef};

fn fresh() -> SlackAdapter {
    SlackAdapter::new("xoxb-1".to_string())
}

fn channel(thread: Option<&str>) -> ChannelRef {
    ChannelRef {
        platform: "slack".to_string(),
        channel_id: "C1".to_string(),
        thread_id: thread.map(|t| t.to_string()),
        parent_id: Some("ignored".to_string()),
    }
}

fn message() -> MessageRef {
    MessageRef { channel: channel(None), message_id: "17.5".to_string() }
}

fn good(body: &str) -> ApiReply {
    match api_post_reply("m", body.as_bytes()) {
        Ok(reply) => reply,
        Err(error) => panic!("{}", error.message()),
    }
}

#[test]
fn it_is_for_slack() {
    assert_eq!(fresh().platform(), "slack");
    assert_eq!(fresh().message_limit(), 4000);
}

#[test]
fn the_bot_user_id_is_asked_for_once() {
    let mut adapter = fresh();
    match adapter.get_bot_user_id() {
        Lookup::Ask(request) => {
            assert_eq!(request.url, "https://slack.com/api/auth.test");
            assert_eq!(request.body.unwrap(), "{}");
        }
        Lookup::Known(_) => panic!("known from the start"),
    }
    assert_eq!(adapter.get_bot_user_id_reply(b"{\"ok\": true, \"user_id\": \"U1\"}"), Some("U1".to_string()));
    assert!(matches!(adapter.get_bot_user_id(), Lookup::Known(id) if id == "U1"));
    assert_eq!(adapter.get_bot_user_id_reply(b"{\"ok\": true, \"user_id\": \"U2\"}"), Some("U1".to_string()));
    assert_eq!(adapter.get_bot_user_id_reply(b"oops"), Some("U1".to_string()));
    assert!(matches!(adapter.get_bot_user_id(), Lookup::Known(id) if id == "U1"));
}

#[test]
fn a_failed_lookup_of_the_bot_user_id_is_not_kept() {
    let mut adapter = fresh();
    assert_eq!(adapter.get_bot_user_id_reply(b"{\"ok\": false}"), None);
    assert_eq!(adapter.get_bot_user_id_reply(b"{\"ok\": true}"), None);
    assert_eq!(adapter.get_bot_user_id_reply(b"{\"ok\": true, \"user_id\": 3}"), None);
    assert!(matches!(adapter.get_bot_user_id(), Lookup::Ask(_)));
}

#[test]
fn a_display_name_comes_first() {
    let reply = good(
        "{\"ok\": true, \"user\": {\"name\": \"n\", \"profile\": {\"display_name\": \"d\", \"real_name\": \"r\"}}}",
    );
    assert_eq!(user_name(&reply), Some("d".to_string()));
}

#[test]
fn an_empty_name_does_not_count() {
    let real = good(
        "{\"ok\": true, \"user\": {\"name\": \"n\", \"profile\": {\"display_name\": \"\", \"real_name\": \"r\"}}}",
    );
    assert_eq!(user_name(&real), Some("r".to_string()));
    let name = good(
        "{\"ok\": true, \"user\": {\"name\": \"n\", \"profile\": {\"display_name\": null, \"real_name\": \"\"}}}",
    );
    assert_eq!(user_name(&name), Some("n".to_string()));
    let empty = good("{\"ok\": true, \"user\": {\"name\": \"\", \"profile\": null}}");
    assert_eq!(user_name(&empty), Some("".to_string()));
}

#[test]
fn without_a_profile_there_is_no_name() {
    for body in [
        "{\"ok\": true}",
        "{\"ok\": true, \"user\": {\"name\": \"n\"}}",
        "{\"ok\": true, \"user\": null}",
        "{\"ok\": true, \"user\": {\"profile\": {}}}",
    ] {
        assert_eq!(user_name(&good(body)), None);
    }
}

#[test]
fn a_name_is_remembered_for_five_minutes() {
    assert_eq!(USER_CACHE_TTL, 5 * 60 * 1_000_000_000);
    let body = b"{\"ok\": true, \"user\": {\"name\": \"ann\", \"profile\": {}}}";
    let mut adapter = fresh();
    match adapter.resolve_user_name("U7", 1_000) {
        Lookup::Ask(request) => {
            assert_eq!(request.method, "users.info");
            assert_eq!(request.body.unwrap(), "{\"user\":\"U7\"}");
        }
        Lookup::Known(_) => panic!("known from the start"),
    }
    assert_eq!(adapter.resolve_user_name_reply("U7", body, 1_000), Some("ann".to_string()));
    for now in [0, 1_000, 1_000 + USER_CACHE_TTL - 1] {
        assert!(matches!(adapter.resolve_user_name("U7", now), Lookup::Known(n) if n == "ann"));
    }
    assert!(matches!(adapter.resolve_user_name("U7", 1_000 + USER_CACHE_TTL), Lookup::Ask(_)));
    assert!(matches!(adapter.resolve_user_name("U8", 1_000), Lookup::Ask(_)));
}

#[test]
fn a_newer_name_takes_the_place_of_the_older() {
    let mut adapter = fresh();
    adapter.resolve_user_name_reply(
        "U7",
        b"{\"ok\": true, \"user\": {\"name\": \"old\", \"profile\": {}}}",
        5,
    );
    adapter.resolve_user_name_reply(
        "U8",
        b"{\"ok\": true, \"user\": {\"name\": \"bob\", \"profile\": {}}}",
        6,
    );
    adapter.resolve_user_name_reply(
        "U7",
        b"{\"ok\": true, \"user\": {\"name\": \"new\", \"profile\": {}}}",
        7,
    );
    assert!(matches!(adapter.resolve_user_name("U7", 8), Lookup::Known(n) if n == "new"));
    assert!(matches!(adapter.resolve_user_name("U8", 8), Lookup::Known(n) if n == "bob"));
}

#[test]
fn a_failed_lookup_of_a_name_is_not_remembered() {
    let mut adapter = fresh();
    assert_eq!(adapter.resolve_user_name_reply("U7", b"{\"ok\": false}", 1), None);
    assert_eq!(adapter.resolve_user_name_reply("U7", b"{\"ok\": true}", 1), None);
    assert_eq!(adapter.resolve_user_name_reply("U7", b"", 1), None);
    assert!(matches!(adapter.resolve_user_name("U7", 1), Lookup::Ask(_)));
}

#[test]
fn a_message_is_posted_as_mrkdwn() {
    let request = fresh().send_message(&channel(None), "**hi**");
    assert_eq!(request.method, "chat.postMessage");
    assert_eq!(request.body.unwrap(), "{\"channel\":\"C1\",\"text\":\"*hi*\"}");
    let raw = fresh().post_mrkdwn(&channel(None), "**hi**");
    assert_eq!(raw.body.unwrap(), "{\"channel\":\"C1\",\"text\":\"**hi**\"}");
}

#[test]
fn a_message_in_a_thread_names_the_thread() {
    let request = fresh().send_message(&channel(Some("9.1")), "x");
    assert_eq!(request.body.unwrap(), "{\"channel\":\"C1\",\"text\":\"x\",\"thread_ts\":\"9.1\"}");
}

#[test]
fn a_sent_message_is_known_by_its_timestamp() {
    let sent = fresh().send_message_reply(&channel(Some("9.1")), b"{\"ok\": true, \"ts\": \"9.2\"}");
    match sent {
        Ok(message) => {
            assert_eq!(message.message_id, "9.2");
            assert_eq!(message.channel.platform, "slack");
            assert_eq!(message.channel.channel_id, "C1");
            assert_eq!(message.channel.thread_id, Some("9.1".to_string()));
            assert_eq!(message.channel.parent_id, None);
        }
        Err(error) => panic!("{}", error.message()),
    }
}

#[test]
fn a_message_that_was_not_sent_is_an_error() {
    let unsent = fresh().send_message_reply(&channel(None), b"{\"ok\": true}");
    match unsent {
        Err(error) => {
            assert!(matches!(error, SlackError::NoTimestamp));
            assert_eq!(error.message(), "no ts in chat.postMessage response");
        }
        Ok(_) => panic!("a message without a timestamp"),
    }
    let refused = fresh().send_message_reply(&channel(None), b"{\"ok\": false, \"error\": \"e\"}");
    assert!(matches!(refused, Err(e) if e.message() == "Slack API chat.postMessage: e"));
}

#[test]
fn a_message_is_edited_in_place() {
    let request = fresh().edit_message(&message(), "*hi*");
    assert_eq!(request.method, "chat.update");
    assert_eq!(request.body.unwrap(), "{\"channel\":\"C1\",\"text\":\"_hi_\",\"ts\":\"17.5\"}");
    let raw = fresh().update_mrkdwn(&message(), "*hi*");
    assert_eq!(raw.body.unwrap(), "{\"channel\":\"C1\",\"text\":\"*hi*\",\"ts\":\"17.5\"}");
}

#[test]
fn a_thread_hangs_on_its_first_message() {
    let thread = fresh().create_thread(&channel(Some("1.1")), &message(), "title");
    assert_eq!(thread.platform, "slack");
    assert_eq!(thread.channel_id, "C1");
    assert_eq!(thread.thread_id, Some("17.5".to_string()));
    assert_eq!(thread.parent_id, None);
}

#[test]
fn a_reaction_is_removed_as_it_was_added() {
    let added = fresh().add_reaction(&message(), "🔥");
    let removed = fresh().remove_reaction(&message(), "🔥");
    assert_eq!(added.url, "https://slack.com/api/reactions.add");
    assert_eq!(removed.url, "https://slack.com/api/reactions.remove");
    assert_eq!(
        added.body,
        Some("{\"channel\":\"C1\",\"name\":\"fire\",\"timestamp\":\"17.5\"}".to_string())
    );
    assert_eq!(added.body, removed.body);
    assert_eq!(added.authorization, removed.authorization);
}
