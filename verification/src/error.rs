//! What can go wrong with a call of Slack's API.

use vstd::prelude::*;
use vstd::string::*;

verus! {

/// Why a reply of Slack's API is no success.
pub enum SlackError {
    /// The reply is not JSON.
    Malformed,
    /// The call of a method was refused.
    Api { method: String, error: String },
    /// The call for a Socket Mode address was refused.
    Connection { error: String },
    /// A message was posted, and the reply does not say under which timestamp.
    NoTimestamp,
    /// A Socket Mode address was granted, and the reply does not hold it.
    NoUrl,
}

/// What a `SlackError` holds.
pub enum ErrorView {
    Malformed,
    Api { method: Seq<char>, error: Seq<char> },
    Connection { error: Seq<char> },
    NoTimestamp,
    NoUrl,
}

impl View for SlackError {
    type V = ErrorView;

    open spec fn view(&self) -> ErrorView {
        match self {
            SlackError::Malformed => ErrorView::Malformed,
            SlackError::Api { method, error } => ErrorView::Api { method: method@, error: error@ },
            SlackError::Connection { error } => ErrorView::Connection { error: error@ },
            SlackError::NoTimestamp => ErrorView::NoTimestamp,
            SlackError::NoUrl => ErrorView::NoUrl,
        }
    }
}

impl ErrorView {
    /// The message that tells an error.
    pub open spec fn message(self) -> Seq<char> {
        match self {
            ErrorView::Malformed => "error decoding response body"@,
            ErrorView::Api { method, error } => "Slack API "@ + method + ": "@ + error,
            ErrorView::Connection { error } => "apps.connections.open: "@ + error,
            ErrorView::NoTimestamp => "no ts in chat.postMessage response"@,
            ErrorView::NoUrl => "no url in apps.connections.open response"@,
        }
    }
}

impl SlackError {
    /// The message that tells this error.
    pub fn message(&self) -> (text: String)
        ensures
            text@ == self@.message(),
    {
        match self {
            SlackError::Malformed => "error decoding response body".to_string(),
            SlackError::Api { method, error } => "Slack API ".to_string().concat(
                method.as_str(),
            ).concat(": ").concat(error.as_str()),
            SlackError::Connection { error } => "apps.connections.open: ".to_string().concat(
                error.as_str(),
            ),
            SlackError::NoTimestamp => "no ts in chat.postMessage response".to_string(),
            SlackError::NoUrl => "no url in apps.connections.open response".to_string(),
        }
    }
}

/// The message of a refused call begins with what was called and ends with the
/// error, whatever they are, and holds nothing else.
pub proof fn law_refusals_are_told(method: Seq<char>, error: Seq<char>)
    ensures
        ({
            let told = (ErrorView::Api { method, error }).message();
            let start = "Slack API "@ + method + ": "@;
            &&& told.len() == start.len() + error.len()
            &&& told.take(start.len() as int) == start
            &&& told.skip(start.len() as int) == error
        }),
        ({
            let told = (ErrorView::Connection { error }).message();
            let start = "apps.connections.open: "@;
            &&& told.len() == start.len() + error.len()
            &&& told.take(start.len() as int) == start
            &&& told.skip(start.len() as int) == error
        }),
{
    let start = "Slack API "@ + method + ": "@;
    let told = (ErrorView::Api { method, error }).message();
    assert(told.take(start.len() as int) =~= start);
    assert(told.skip(start.len() as int) =~= error);
    let short = "apps.connections.open: "@;
    let other = (ErrorView::Connection { error }).message();
    assert(other.take(short.len() as int) =~= short);
    assert(other.skip(short.len() as int) =~= error);
}

/// What is seen of an error is which one it is and all that it holds.
pub proof fn law_errors_are_seen(method: String, error: String)
    ensures
        SlackError::Malformed@ == ErrorView::Malformed,
        (SlackError::Api { method, error })@ == (ErrorView::Api { method: method@, error: error@ }),
        (SlackError::Connection { error })@ == (ErrorView::Connection { error: error@ }),
        SlackError::NoTimestamp@ == ErrorView::NoTimestamp,
        SlackError::NoUrl@ == ErrorView::NoUrl,
{
}

} // verus!
