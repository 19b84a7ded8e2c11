use slack_adapter::adapter::SlackAdapter;
use slack_adapter::api::{
    api_post_reply, check_api_reply, get_socket_mode_url, get_socket_mode_url_reply,
    socket_mode_url,
};
use slack_adapter::error::SlackError;

fn adapter() -> SlackAdapter {
    SlackAdapter::new("xoxb-1".to_string())
}

#[test]
fn a_call_names_the_method_and_the_bot() {
    let request = adapter().api_post(
        "some.method",
        vec![("b".to_string(), "say \"hi\"\n".to_string()), ("a".to_string(), "ü".to_string())],
    );
    assert_eq!(request.method, "some.method");
    assert_eq!(request.url, "https://slack.com/api/some.method");
    assert_eq!(request.authorization, "Bearer xoxb-1");
    assert_eq!(request.content_type, "application/json; charset=utf-8");
    assert_eq!(request.body.unwrap(), "{\"a\":\"ü\",\"b\":\"say \\\"hi\\\"\\n\"}");
}

#[test]
fn of_two_arguments_with_one_name_the_later_counts() {
    let request = adapter().api_post(
        "m",
        vec![("a".to_string(), "1".to_string()), ("a".to_string(), "2".to_string())],
    );
    assert_eq!(request.body.unwrap(), "{\"a\":\"2\"}");
}

#[test]
fn a_good_reply_is_handed_on() {
    let reply = api_post_reply("m", b"{\"ok\": true, \"x\": \"y\"}");
    match reply {
        Ok(reply) => assert_eq!(reply.value["x"].as_str(), Some("y")),
        Err(_) => panic!("a good reply was refused"),
    }
}

#[test]
fn a_refused_call_tells_the_error() {
    for (body, told) in [
        ("{\"ok\": false, \"error\": \"not_in_channel\"}", "Slack API chat.update: not_in_channel"),
        ("{\"ok\": false}", "Slack API chat.update: unknown error"),
        ("{\"ok\": \"true\", \"error\": 7}", "Slack API chat.update: unknown error"),
        ("[]", "Slack API chat.update: unknown error"),
    ] {
        match api_post_reply("chat.update", body.as_bytes()) {
            Err(error) => {
                assert!(matches!(error, SlackError::Api { .. }));
                assert_eq!(error.message(), told);
            }
            Ok(_) => panic!("a refused call passed"),
        }
    }
}

#[test]
fn a_reply_that_is_not_json_is_malformed() {
    assert!(matches!(api_post_reply("m", b"<html>"), Err(SlackError::Malformed)));
    assert!(matches!(api_post_reply("m", b"{\"ok\": true, \"a\": \"\xff\"}"), Err(SlackError::Malformed)));
    assert!(matches!(get_socket_mode_url_reply(b""), Err(SlackError::Malformed)));
    assert_eq!(SlackError::Malformed.message(), "error decoding response body");
}

#[test]
fn a_parsed_reply_is_checked_alike() {
    let good: serde_json::Value = serde_json::from_str("{\"ok\": true}").unwrap();
    assert!(check_api_reply("m", good).is_ok());
    let bad: serde_json::Value = serde_json::from_str("{\"ok\": null}").unwrap();
    assert!(check_api_reply("m", bad).is_err());
}

#[test]
fn an_address_is_asked_for_with_the_app_token() {
    let request = get_socket_mode_url("xapp-1");
    assert_eq!(request.method, "apps.connections.open");
    assert_eq!(request.url, "https://slack.com/api/apps.connections.open");
    assert_eq!(request.authorization, "Bearer xapp-1");
    assert_eq!(request.content_type, "application/x-www-form-urlencoded");
    assert!(request.body.is_none());
}

#[test]
fn a_granted_address_is_read() {
    let url = get_socket_mode_url_reply(b"{\"ok\": true, \"url\": \"wss://a/b\"}");
    assert!(matches!(url, Ok(u) if u == "wss://a/b"));
}

#[test]
fn a_refused_address_tells_the_error() {
    for (body, told) in [
        ("{\"ok\": false, \"error\": \"invalid_auth\"}", "apps.connections.open: invalid_auth"),
        ("{}", "apps.connections.open: unknown"),
        ("{\"ok\": true}", "no url in apps.connections.open response"),
        ("{\"ok\": true, \"url\": 1}", "no url in apps.connections.open response"),
    ] {
        let value: serde_json::Value = serde_json::from_str(body).unwrap();
        match socket_mode_url(&value) {
            Err(error) => assert_eq!(error.message(), told),
            Ok(_) => panic!("an address out of nowhere"),
        }
        match get_socket_mode_url_reply(body.as_bytes()) {
            Err(error) => assert_eq!(error.message(), told),
            Ok(_) => panic!("an address out of nowhere"),
        }
    }
}

#[test]
fn a_good_reply_keeps_its_numbers() {
    let value: serde_json::Value =
        serde_json::from_str("{\"ok\": true, \"n\": -1.5, \"m\": -7}").unwrap();
    match check_api_reply("x", value.clone()) {
        Ok(reply) => assert!(reply.value == value),
        Err(_) => panic!("the reply is good"),
    }
}
