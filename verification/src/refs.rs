//! Where messages stand and who sends them.

use crate::json::text_view;
use vstd::prelude::*;
use vstd::string::*;

verus! {

/// A place that messages are sent to.
pub struct ChannelRef {
    pub platform: String,
    pub channel_id: String,
    pub thread_id: Option<String>,
    pub parent_id: Option<String>,
}

/// What a `ChannelRef` holds.
pub struct ChannelView {
    pub platform: Seq<char>,
    pub channel_id: Seq<char>,
    pub thread_id: Option<Seq<char>>,
    pub parent_id: Option<Seq<char>>,
}

impl View for ChannelRef {
    type V = ChannelView;

    open spec fn view(&self) -> ChannelView {
        ChannelView {
            platform: self.platform@,
            channel_id: self.channel_id@,
            thread_id: text_view(self.thread_id),
            parent_id: text_view(self.parent_id),
        }
    }
}

/// A message, and where it stands.
pub struct MessageRef {
    pub channel: ChannelRef,
    pub message_id: String,
}

/// What a `MessageRef` holds.
pub struct MessageView {
    pub channel: ChannelView,
    pub message_id: Seq<char>,
}

impl View for MessageRef {
    type V = MessageView;

    open spec fn view(&self) -> MessageView {
        MessageView { channel: self.channel@, message_id: self.message_id@ }
    }
}

/// Who sent a message, as the agent is told.
pub struct SenderContext {
    pub schema: String,
    pub sender_id: String,
    pub sender_name: String,
    pub display_name: String,
    pub channel: String,
    pub channel_id: String,
    pub is_bot: bool,
}

/// What a `SenderContext` holds.
pub struct SenderView {
    pub schema: Seq<char>,
    pub sender_id: Seq<char>,
    pub sender_name: Seq<char>,
    pub display_name: Seq<char>,
    pub channel: Seq<char>,
    pub channel_id: Seq<char>,
    pub is_bot: bool,
}

impl View for SenderContext {
    type V = SenderView;

    open spec fn view(&self) -> SenderView {
        SenderView {
            schema: self.schema@,
            sender_id: self.sender_id@,
            sender_name: self.sender_name@,
            display_name: self.display_name@,
            channel: self.channel@,
            channel_id: self.channel_id@,
            is_bot: self.is_bot,
        }
    }
}

/// A place on Slack: a channel, or a thread of it.
pub open spec fn slack_place(
    channel_id: Seq<char>,
    thread_id: Option<Seq<char>>,
) -> ChannelView {
    ChannelView { platform: "slack"@, channel_id, thread_id, parent_id: None }
}

/// A copy of an optional string.
pub(crate) fn copy_text(text: &Option<String>) -> (copy: Option<String>)
    ensures
        text_view(copy) == text_view(*text),
{
    match text {
        Some(s) => Some(s.clone()),
        None => None,
    }
}

/// The place on Slack with that channel and thread.
pub fn slack_channel(channel_id: &str, thread_id: Option<String>) -> (channel: ChannelRef)
    ensures
        channel@ == slack_place(channel_id@, text_view(thread_id)),
{
    ChannelRef {
        platform: "slack".to_string(),
        channel_id: channel_id.to_string(),
        thread_id,
        parent_id: None,
    }
}

/// A place on Slack is that channel and that thread, and has no parent.
pub proof fn law_places_are_on_slack(channel_id: Seq<char>, thread_id: Option<Seq<char>>)
    ensures
        slack_place(channel_id, thread_id).platform == "slack"@,
        slack_place(channel_id, thread_id).channel_id == channel_id,
        slack_place(channel_id, thread_id).thread_id == thread_id,
        slack_place(channel_id, thread_id).parent_id is None,
{
}

/// Two places are the same only where channel and thread are.
pub proof fn law_places_differ(
    channel_id: Seq<char>,
    thread_id: Option<Seq<char>>,
    other_channel: Seq<char>,
    other_thread: Option<Seq<char>>,
)
    requires
        slack_place(channel_id, thread_id) == slack_place(other_channel, other_thread),
    ensures
        channel_id == other_channel,
        thread_id == other_thread,
{
    law_places_are_on_slack(channel_id, thread_id);
    law_places_are_on_slack(other_channel, other_thread);
}

/// What is seen of a place and a message is all that they hold.
pub proof fn law_refs_are_seen(message: MessageRef)
    ensures
        message@.message_id == message.message_id@,
        message@.channel == message.channel@,
        message.channel@.platform == message.channel.platform@,
        message.channel@.channel_id == message.channel.channel_id@,
        message.channel@.thread_id == text_view(message.channel.thread_id),
        message.channel@.parent_id == text_view(message.channel.parent_id),
{
}

/// What is seen of a sender is all that it holds.
pub proof fn law_senders_are_seen(sender: SenderContext)
    ensures
        sender@.schema == sender.schema@,
        sender@.sender_id == sender.sender_id@,
        sender@.sender_name == sender.sender_name@,
        sender@.display_name == sender.display_name@,
        sender@.channel == sender.channel@,
        sender@.channel_id == sender.channel_id@,
        sender@.is_bot == sender.is_bot,
{
}

} // verus!
