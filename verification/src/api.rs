//! Requests to Slack's Web API and its replies.

use crate::error::{ErrorView, SlackError};
use crate::json::{
    is_object_text, json_contents, json_parsed, json_parsed_bytes, member_text, members_view,
    object_of, object_text, parse_bytes, value_as_bool, value_get, JsonView,
};
use vstd::prelude::*;
use vstd::string::*;

verus! {

/// Where the methods of the API are.
pub const SLACK_API: &'static str = "https://slack.com/api";

/// A `POST` request to the API.
pub struct ApiRequest {
    pub method: String,
    pub url: String,
    pub authorization: String,
    pub content_type: String,
    pub body: Option<String>,
}

/// Whether a request calls a method for the holder of a token, with these
/// texts as its arguments.
pub open spec fn is_api_post(
    request: ApiRequest,
    token: Seq<char>,
    method: Seq<char>,
    arguments: Seq<(Seq<char>, Seq<char>)>,
) -> bool {
    &&& request.method@ == method
    &&& request.url@ == SLACK_API@ + "/"@ + method
    &&& request.authorization@ == "Bearer "@ + token
    &&& request.content_type@ == "application/json; charset=utf-8"@
    &&& request.body matches Some(body) && is_object_text(body@, arguments)
}

/// The request that calls a method for the holder of a token, with these texts
/// as its arguments.
pub fn api_request(token: &str, method: &str, arguments: Vec<(String, String)>) -> (request:
    ApiRequest)
    ensures
        is_api_post(request, token@, method@, members_view(arguments@)),
{
    ApiRequest {
        method: method.to_string(),
        url: SLACK_API.to_string().concat("/").concat(method),
        authorization: "Bearer ".to_string().concat(token),
        content_type: "application/json; charset=utf-8".to_string(),
        body: Some(object_text(arguments)),
    }
}

/// A reply that reports success.
pub struct ApiReply {
    pub value: serde_json::Value,
}

impl View for ApiReply {
    type V = JsonView;

    open spec fn view(&self) -> JsonView {
        json_contents(self.value)
    }
}

/// Whether a reply reports success.
pub open spec fn reports_success(reply: JsonView) -> bool {
    reply.member("ok"@).flag() == Some(true)
}

/// The error that a reply reports, or what to say where it reports none.
pub open spec fn reported_error(reply: JsonView, otherwise: Seq<char>) -> Seq<char> {
    match reply.member("error"@).text() {
        Some(error) => error,
        None => otherwise,
    }
}

/// What a reply to the call of a method amounts to.
pub open spec fn reply_outcome(method: Seq<char>, reply: JsonView) -> Result<JsonView, ErrorView> {
    if reports_success(reply) {
        Ok(reply)
    } else {
        Err(ErrorView::Api { method, error: reported_error(reply, "unknown error"@) })
    }
}

/// What the bytes of a reply to the call of a method amount to.
pub open spec fn raw_outcome(method: Seq<char>, body: Seq<u8>) -> Result<JsonView, ErrorView> {
    match json_parsed_bytes(body) {
        Some(reply) => reply_outcome(method, reply),
        None => Err(ErrorView::Malformed),
    }
}

/// What a result of reading a reply holds.
pub open spec fn reply_view(result: Result<ApiReply, SlackError>) -> Result<JsonView, ErrorView> {
    match result {
        Ok(reply) => Ok(reply@),
        Err(error) => Err(error@),
    }
}

/// Whether a reply reports success.
fn is_success(reply: &serde_json::Value) -> (success: bool)
    ensures
        success == reports_success(json_contents(*reply)),
{
    match value_get(reply, "ok") {
        Some(member) => match value_as_bool(member) {
            Some(ok) => ok,
            None => false,
        },
        None => false,
    }
}

/// The error that a reply reports, or what to say where it reports none.
fn error_of(reply: &serde_json::Value, otherwise: &str) -> (error: String)
    ensures
        error@ == reported_error(json_contents(*reply), otherwise@),
{
    match member_text(reply, "error") {
        Some(error) => error,
        None => otherwise.to_string(),
    }
}

/// Take the reply to the call of a method: it is good where its `ok` is true,
/// and is then handed on as it is.
pub fn check_api_reply(method: &str, reply: serde_json::Value) -> (result: Result<
    ApiReply,
    SlackError,
>)
    ensures
        reply_view(result) == reply_outcome(method@, json_contents(reply)),
        result matches Ok(good) ==> good.value == reply,
{
    if is_success(&reply) {
        Ok(ApiReply { value: reply })
    } else {
        Err(
            SlackError::Api {
                method: method.to_string(),
                error: error_of(&reply, "unknown error"),
            },
        )
    }
}

/// Take the bytes of the reply to the call of a method.
pub fn api_post_reply(method: &str, body: &[u8]) -> (result: Result<ApiReply, SlackError>)
    ensures
        reply_view(result) == raw_outcome(method@, body@),
{
    match parse_bytes(body) {
        Ok(reply) => check_api_reply(method, reply),
        Err(_) => Err(SlackError::Malformed),
    }
}

/// The request for a WebSocket address for Socket Mode.
pub fn get_socket_mode_url(app_token: &str) -> (request: ApiRequest)
    ensures
        request.method@ == "apps.connections.open"@,
        request.url@ == SLACK_API@ + "/apps.connections.open"@,
        request.authorization@ == "Bearer "@ + app_token@,
        request.content_type@ == "application/x-www-form-urlencoded"@,
        request.body is None,
{
    ApiRequest {
        method: "apps.connections.open".to_string(),
        url: SLACK_API.to_string().concat("/apps.connections.open"),
        authorization: "Bearer ".to_string().concat(app_token),
        content_type: "application/x-www-form-urlencoded".to_string(),
        body: None,
    }
}

/// The address that a reply grants, or why it grants none.
pub open spec fn granted_url(reply: JsonView) -> Result<Seq<char>, ErrorView> {
    if !reports_success(reply) {
        Err(ErrorView::Connection { error: reported_error(reply, "unknown"@) })
    } else {
        match reply.member("url"@).text() {
            Some(url) => Ok(url),
            None => Err(ErrorView::NoUrl),
        }
    }
}

/// What the result of a request for an address holds.
pub open spec fn url_view(result: Result<String, SlackError>) -> Result<Seq<char>, ErrorView> {
    match result {
        Ok(url) => Ok(url@),
        Err(error) => Err(error@),
    }
}

/// Take the reply to the request for a Socket Mode address.
pub fn socket_mode_url(reply: &serde_json::Value) -> (result: Result<String, SlackError>)
    ensures
        url_view(result) == granted_url(json_contents(*reply)),
{
    if !is_success(reply) {
        return Err(SlackError::Connection { error: error_of(reply, "unknown") });
    }
    match member_text(reply, "url") {
        Some(url) => Ok(url),
        None => Err(SlackError::NoUrl),
    }
}

/// Take the bytes of the reply to the request for a Socket Mode address.
pub fn get_socket_mode_url_reply(body: &[u8]) -> (result: Result<String, SlackError>)
    ensures
        url_view(result) == match json_parsed_bytes(body@) {
            Some(reply) => granted_url(reply),
            None => Err(ErrorView::Malformed),
        },
{
    match parse_bytes(body) {
        Ok(reply) => socket_mode_url(&reply),
        Err(_) => Err(SlackError::Malformed),
    }
}

/// A request goes to the method's own address under the API, in the name of the
/// token's holder, and what Slack reads in it are the arguments.
pub proof fn law_requests_reach_their_method(
    request: ApiRequest,
    token: Seq<char>,
    method: Seq<char>,
    arguments: Seq<(Seq<char>, Seq<char>)>,
)
    requires
        is_api_post(request, token, method, arguments),
    ensures
        request.method@ == method,
        request.url@ == "https://slack.com/api/"@ + method,
        request.authorization@ == "Bearer "@ + token,
        request.content_type@ == "application/json; charset=utf-8"@,
        request.body matches Some(body) && json_parsed(body@) == Some(object_of(arguments)),
{
    reveal_strlit("https://slack.com/api");
    reveal_strlit("/");
    reveal_strlit("https://slack.com/api/");
    assert("https://slack.com/api"@ + "/"@ =~= "https://slack.com/api/"@);
}

/// A reply is good exactly where its `ok` is true, and is then handed on as it
/// is. Else the error names the method and says what the reply gives as its
/// error, where that is a text.
pub proof fn law_replies_are_good_by_their_ok(method: Seq<char>, reply: JsonView)
    ensures
        reply_outcome(method, reply) is Ok <==> reply.find("ok"@) == Some(JsonView::Bool(true)),
        reply_outcome(method, reply) is Ok ==> reply_outcome(method, reply)->Ok_0 == reply,
        reply_outcome(method, reply) is Err ==> {
            &&& reply_outcome(method, reply)->Err_0 matches ErrorView::Api { method: named, error }
            &&& named == method
            &&& reply.find("error"@) matches Some(JsonView::Text(text)) ==> error == text
            &&& !(reply.find("error"@) matches Some(JsonView::Text(_))) ==> error
                == "unknown error"@
        },
{
}

/// The bytes of a reply are malformed exactly where they are not JSON; else they
/// are as good as the reply that they hold.
pub proof fn law_bytes_are_as_good_as_their_reply(method: Seq<char>, body: Seq<u8>)
    ensures
        raw_outcome(method, body) == Err::<JsonView, ErrorView>(ErrorView::Malformed)
            <==> json_parsed_bytes(body) is None,
        json_parsed_bytes(body) matches Some(reply) ==> {
            &&& raw_outcome(method, body) is Ok <==> reply.find("ok"@) == Some(
                JsonView::Bool(true),
            )
            &&& raw_outcome(method, body) == reply_outcome(method, reply)
        },
{
}

/// An address is granted exactly where the reply is good and holds it as a text.
/// A good reply without one, and a bad one, are told apart.
pub proof fn law_addresses_are_granted(reply: JsonView, url: Seq<char>)
    ensures
        granted_url(reply) == Ok::<Seq<char>, ErrorView>(url) <==> {
            &&& reply.find("ok"@) == Some(JsonView::Bool(true))
            &&& reply.find("url"@) == Some(JsonView::Text(url))
        },
        granted_url(reply) == Err::<Seq<char>, ErrorView>(ErrorView::NoUrl) <==> {
            &&& reply.find("ok"@) == Some(JsonView::Bool(true))
            &&& !(reply.find("url"@) matches Some(JsonView::Text(_)))
        },
        reply.find("ok"@) != Some(JsonView::Bool(true)) ==> {
            &&& granted_url(reply) is Err
            &&& granted_url(reply)->Err_0 matches ErrorView::Connection { error }
            &&& reply.find("error"@) matches Some(JsonView::Text(text)) ==> error == text
            &&& !(reply.find("error"@) matches Some(JsonView::Text(_))) ==> error == "unknown"@
        },
{
}

/// What is seen of a result is whether it is good, and what it holds.
pub proof fn law_results_are_seen(reply: ApiReply, url: String, error: SlackError)
    ensures
        reply@ == json_contents(reply.value),
        reply_view(Ok(reply)) == Ok::<JsonView, ErrorView>(reply@),
        reply_view(Err(error)) == Err::<JsonView, ErrorView>(error@),
        url_view(Ok(url)) == Ok::<Seq<char>, ErrorView>(url@),
        url_view(Err(error)) == Err::<Seq<char>, ErrorView>(error@),
{
}

} // verus!
