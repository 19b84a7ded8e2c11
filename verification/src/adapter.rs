//! The adapter: what it remembers, the requests that it makes, and what it
//! makes of the replies.

use crate::api::{
    api_post_reply, api_request, is_api_post, raw_outcome, ApiReply, ApiRequest,
};
use crate::emoji::{reaction_name, unicode_to_slack_emoji};
use crate::error::{ErrorView, SlackError};
use crate::json::{
    json_contents, member_text, members_of, members_view, object_of, text_view, value_get, JsonView,
};
use crate::mrkdwn::{markdown_to_mrkdwn, mrkdwn_of};
use crate::refs::{
    copy_text, slack_channel, slack_place, ChannelRef, ChannelView, MessageRef, MessageView,
};
use vstd::hash_map::StringHashMap;
use vstd::prelude::*;
use vstd::string::*;

verus! {

/// How long a user's display name is remembered, in nanoseconds: five minutes.
pub const USER_CACHE_TTL: u128 = 300_000_000_000;

/// A user's display name, and when it was learned.
pub struct CachedName {
    pub name: String,
    pub learned_at: u128,
}

/// An adapter for one bot. Moments are nanoseconds on one monotonic clock.
pub struct SlackAdapter {
    bot_token: String,
    bot_user_id: Option<String>,
    user_cache: StringHashMap<CachedName>,
}

/// What a `SlackAdapter` holds. A remembered user has a display name and the
/// moment when it was learned.
pub struct AdapterView {
    pub bot_token: Seq<char>,
    pub bot_user_id: Option<Seq<char>>,
    pub user_cache: Map<Seq<char>, (Seq<char>, u128)>,
}

impl AdapterView {
    /// The display name that is remembered of a user at a moment.
    pub open spec fn remembered(self, user_id: Seq<char>, now: u128) -> Option<Seq<char>> {
        if self.user_cache.contains_key(user_id) && elapsed(self.user_cache[user_id].1, now)
            < USER_CACHE_TTL {
            Some(self.user_cache[user_id].0)
        } else {
            None
        }
    }

    /// The adapter once it has been told the bot's own user ID, if any. One that
    /// it knows already stays.
    pub open spec fn knowing(self, bot_user_id: Option<Seq<char>>) -> AdapterView {
        AdapterView {
            bot_user_id: match self.bot_user_id {
                Some(id) => Some(id),
                None => bot_user_id,
            },
            ..self
        }
    }

    /// The adapter once it has learned a user's display name.
    pub open spec fn learning(self, user_id: Seq<char>, name: Seq<char>, now: u128) -> AdapterView {
        AdapterView { user_cache: self.user_cache.insert(user_id, (name, now)), ..self }
    }
}

/// The time from one moment to another, or nothing where it lies before.
pub open spec fn elapsed(since: u128, now: u128) -> int {
    if now >= since {
        now - since
    } else {
        0
    }
}

impl View for SlackAdapter {
    type V = AdapterView;

    closed spec fn view(&self) -> AdapterView {
        AdapterView {
            bot_token: self.bot_token@,
            bot_user_id: text_view(self.bot_user_id),
            user_cache: self.user_cache@.map_values(
                |cached: CachedName| (cached.name@, cached.learned_at),
            ),
        }
    }
}

/// What comes of looking for something that Slack knows.
pub enum Lookup {
    /// It is known.
    Known(String),
    /// Slack has to be asked.
    Ask(ApiRequest),
}

/// The text, unless it is empty.
pub open spec fn unless_empty(text: Option<Seq<char>>) -> Option<Seq<char>> {
    match text {
        Some(s) => if s.len() > 0 {
            Some(s)
        } else {
            None
        },
        None => None,
    }
}

/// The name by which a reply to `users.info` calls a user: the display name of
/// the profile, else the real name, of which neither counts where it is empty,
/// else the user's name. Without a profile there is none.
pub open spec fn name_in_reply(reply: JsonView) -> Option<Seq<char>> {
    match reply.find("user"@) {
        Some(user) => match user.find("profile"@) {
            Some(profile) => match unless_empty(profile.member("display_name"@).text()) {
                Some(name) => Some(name),
                None => match unless_empty(profile.member("real_name"@).text()) {
                    Some(name) => Some(name),
                    None => user.member("name"@).text(),
                },
            },
            None => None,
        },
        None => None,
    }
}

/// The text that a value has as a member of that name, unless it is empty.
fn filled_member(value: &serde_json::Value, key: &str) -> (text: Option<String>)
    ensures
        text_view(text) == unless_empty(json_contents(*value).member(key@).text()),
{
    match member_text(value, key) {
        Some(s) => if s.as_str().is_empty() {
            None
        } else {
            Some(s)
        },
        None => None,
    }
}

/// The name by which a reply to `users.info` calls a user.
pub fn user_name(reply: &ApiReply) -> (name: Option<String>)
    ensures
        text_view(name) == name_in_reply(reply@),
{
    match value_get(&reply.value, "user") {
        Some(user) => match value_get(user, "profile") {
            Some(profile) => match filled_member(profile, "display_name") {
                Some(name) => Some(name),
                None => match filled_member(profile, "real_name") {
                    Some(name) => Some(name),
                    None => member_text(user, "name"),
                },
            },
            None => None,
        },
        None => None,
    }
}

/// The arguments of `chat.postMessage`: the channel, the text, and the thread
/// where there is one.
pub open spec fn post_arguments(channel: ChannelView, mrkdwn: Seq<char>) -> Seq<
    (Seq<char>, Seq<char>),
> {
    let arguments = seq![("channel"@, channel.channel_id), ("text"@, mrkdwn)];
    match channel.thread_id {
        Some(thread_ts) => arguments.push(("thread_ts"@, thread_ts)),
        None => arguments,
    }
}

/// The arguments of `chat.update`: the channel, the message and its new text.
pub open spec fn update_arguments(message: MessageView, mrkdwn: Seq<char>) -> Seq<
    (Seq<char>, Seq<char>),
> {
    seq![
        ("channel"@, message.channel.channel_id),
        ("ts"@, message.message_id),
        ("text"@, mrkdwn),
    ]
}

/// The arguments of `reactions.add` and `reactions.remove`: the channel, the
/// message and the short name of the reaction.
pub open spec fn reaction_arguments(message: MessageView, emoji: Seq<char>) -> Seq<
    (Seq<char>, Seq<char>),
> {
    seq![
        ("channel"@, message.channel.channel_id),
        ("timestamp"@, message.message_id),
        ("name"@, reaction_name(emoji)),
    ]
}

/// The message that a reply to `chat.postMessage` reports, sent to a channel.
pub open spec fn reported_message(channel: ChannelView, reply: JsonView) -> Result<
    MessageView,
    ErrorView,
> {
    match reply.member("ts"@).text() {
        Some(ts) => Ok(
            MessageView {
                channel: slack_place(channel.channel_id, channel.thread_id),
                message_id: ts,
            },
        ),
        None => Err(ErrorView::NoTimestamp),
    }
}

/// What the result of sending a message holds.
pub open spec fn message_view(result: Result<MessageRef, SlackError>) -> Result<
    MessageView,
    ErrorView,
> {
    match result {
        Ok(message) => Ok(message@),
        Err(error) => Err(error@),
    }
}

/// The message that a reply to `chat.postMessage` reports.
pub fn sent_message(channel: &ChannelRef, reply: &ApiReply) -> (result: Result<
    MessageRef,
    SlackError,
>)
    ensures
        message_view(result) == reported_message(channel@, reply@),
{
    match member_text(&reply.value, "ts") {
        Some(ts) => Ok(
            MessageRef {
                channel: slack_channel(channel.channel_id.as_str(), copy_text(&channel.thread_id)),
                message_id: ts,
            },
        ),
        None => Err(SlackError::NoTimestamp),
    }
}

/// A list of arguments with one more.
fn with_argument(arguments: Vec<(String, String)>, name: &str, text: &str) -> (longer: Vec<
    (String, String),
>)
    ensures
        members_view(longer@) == members_view(arguments@).push((name@, text@)),
{
    let mut longer = arguments;
    longer.push((name.to_string(), text.to_string()));
    assert(members_view(longer@) =~= members_view(arguments@).push((name@, text@)));
    longer
}

/// An empty list of arguments.
fn no_arguments() -> (arguments: Vec<(String, String)>)
    ensures
        members_view(arguments@) == Seq::<(Seq<char>, Seq<char>)>::empty(),
{
    let arguments: Vec<(String, String)> = Vec::new();
    assert(members_view(arguments@) =~= Seq::<(Seq<char>, Seq<char>)>::empty());
    arguments
}

impl SlackAdapter {
    /// An adapter that knows its token and nothing else.
    pub fn new(bot_token: String) -> (adapter: SlackAdapter)
        ensures
            adapter@ == (AdapterView {
                bot_token: bot_token@,
                bot_user_id: None,
                user_cache: Map::empty(),
            }),
    {
        let adapter = SlackAdapter {
            bot_token,
            bot_user_id: None,
            user_cache: StringHashMap::new(),
        };
        assert(adapter@.user_cache =~= Map::empty());
        adapter
    }

    /// The request that calls a method, with these texts as its arguments.
    pub fn api_post(&self, method: &str, arguments: Vec<(String, String)>) -> (request: ApiRequest)
        ensures
            is_api_post(request, self@.bot_token, method@, members_view(arguments@)),
    {
        api_request(self.bot_token.as_str(), method, arguments)
    }

    /// Look for the bot's own user ID.
    pub fn get_bot_user_id(&self) -> (lookup: Lookup)
        ensures
            match self@.bot_user_id {
                Some(id) => lookup matches Lookup::Known(known) && known@ == id,
                None => lookup matches Lookup::Ask(request) && is_api_post(
                    request,
                    self@.bot_token,
                    "auth.test"@,
                    Seq::empty(),
                ),
            },
    {
        match &self.bot_user_id {
            Some(id) => Lookup::Known(id.clone()),
            None => Lookup::Ask(self.api_post("auth.test", no_arguments())),
        }
    }

    /// Take a good reply to `auth.test`. An ID that is known already stays; a
    /// reply without one changes nothing.
    pub fn learn_bot_user_id(&mut self, reply: &ApiReply) -> (bot_user_id: Option<String>)
        ensures
            final(self)@ == old(self)@.knowing(reply@.member("user_id"@).text()),
            text_view(bot_user_id) == final(self)@.bot_user_id,
    {
        if self.bot_user_id.is_none() {
            self.bot_user_id = member_text(&reply.value, "user_id");
        }
        copy_text(&self.bot_user_id)
    }

    /// Take the bytes of a reply to `auth.test`. A bad one changes nothing.
    pub fn get_bot_user_id_reply(&mut self, body: &[u8]) -> (bot_user_id: Option<String>)
        ensures
            final(self)@ == old(self)@.knowing(
                match raw_outcome("auth.test"@, body@) {
                    Ok(reply) => reply.member("user_id"@).text(),
                    Err(_) => None,
                },
            ),
            text_view(bot_user_id) == final(self)@.bot_user_id,
    {
        match api_post_reply("auth.test", body) {
            Ok(reply) => self.learn_bot_user_id(&reply),
            Err(_) => copy_text(&self.bot_user_id),
        }
    }

    /// Look for a user's display name at a moment. A name is remembered for
    /// five minutes.
    pub fn resolve_user_name(&self, user_id: &str, now: u128) -> (lookup: Lookup)
        ensures
            match self@.remembered(user_id@, now) {
                Some(name) => lookup matches Lookup::Known(known) && known@ == name,
                None => lookup matches Lookup::Ask(request) && is_api_post(
                    request,
                    self@.bot_token,
                    "users.info"@,
                    seq![("user"@, user_id@)],
                ),
            },
    {
        if let Some(cached) = self.user_cache.get(user_id) {
            let age: u128 = if now >= cached.learned_at {
                now - cached.learned_at
            } else {
                0
            };
            if age < USER_CACHE_TTL {
                return Lookup::Known(cached.name.clone());
            }
        }
        let arguments = with_argument(no_arguments(), "user", user_id);
        assert(members_view(arguments@) =~= seq![("user"@, user_id@)]);
        Lookup::Ask(self.api_post("users.info", arguments))
    }

    /// Take a good reply to `users.info` at a moment: the name that it gives is
    /// remembered; where it gives none, nothing changes.
    pub fn learn_user_name(&mut self, user_id: &str, reply: &ApiReply, now: u128) -> (name: Option<
        String,
    >)
        ensures
            text_view(name) == name_in_reply(reply@),
            final(self)@ == match name_in_reply(reply@) {
                Some(found) => old(self)@.learning(user_id@, found, now),
                None => old(self)@,
            },
    {
        match user_name(reply) {
            Some(name) => {
                let cached = CachedName { name: name.clone(), learned_at: now };
                self.user_cache.insert(user_id.to_string(), cached);
                assert(self@.user_cache =~= old(self)@.user_cache.insert(
                    user_id@,
                    (name@, now),
                ));
                Some(name)
            },
            None => None,
        }
    }

    /// Take the bytes of a reply to `users.info` at a moment. A bad one changes
    /// nothing.
    pub fn resolve_user_name_reply(&mut self, user_id: &str, body: &[u8], now: u128) -> (name:
        Option<String>)
        ensures
            match raw_outcome("users.info"@, body@) {
                Ok(reply) => {
                    &&& text_view(name) == name_in_reply(reply)
                    &&& final(self)@ == match name_in_reply(reply) {
                        Some(found) => old(self)@.learning(user_id@, found, now),
                        None => old(self)@,
                    }
                },
                Err(_) => name is None && final(self)@ == old(self)@,
            },
    {
        match api_post_reply("users.info", body) {
            Ok(reply) => self.learn_user_name(user_id, &reply, now),
            Err(_) => None,
        }
    }

    /// The platform that this adapter is for.
    pub fn platform(&self) -> (platform: &'static str)
        ensures
            platform@ == "slack"@,
    {
        "slack"
    }

    /// The length of the longest message that the platform takes.
    pub fn message_limit(&self) -> (limit: usize)
        ensures
            limit == 4000,
    {
        4000
    }

    /// The request that sends a text that is mrkdwn already.
    pub fn post_mrkdwn(&self, channel: &ChannelRef, mrkdwn: &str) -> (request: ApiRequest)
        ensures
            is_api_post(
                request,
                self@.bot_token,
                "chat.postMessage"@,
                post_arguments(channel@, mrkdwn@),
            ),
    {
        let arguments = with_argument(no_arguments(), "channel", channel.channel_id.as_str());
        let arguments = with_argument(arguments, "text", mrkdwn);
        assert(members_view(arguments@) =~= seq![
            ("channel"@, channel@.channel_id),
            ("text"@, mrkdwn@),
        ]);
        let arguments = match &channel.thread_id {
            Some(thread_ts) => with_argument(arguments, "thread_ts", thread_ts.as_str()),
            None => arguments,
        };
        self.api_post("chat.postMessage", arguments)
    }

    /// The request that sends a message, given as Markdown.
    pub fn send_message(&self, channel: &ChannelRef, content: &str) -> (request: ApiRequest)
        ensures
            is_api_post(
                request,
                self@.bot_token,
                "chat.postMessage"@,
                post_arguments(channel@, mrkdwn_of(content@)),
            ),
    {
        self.post_mrkdwn(channel, markdown_to_mrkdwn(content).as_str())
    }

    /// Take the bytes of a reply to `send_message`: the message that was sent.
    pub fn send_message_reply(&self, channel: &ChannelRef, body: &[u8]) -> (result: Result<
        MessageRef,
        SlackError,
    >)
        ensures
            message_view(result) == match raw_outcome("chat.postMessage"@, body@) {
                Ok(reply) => reported_message(channel@, reply),
                Err(error) => Err(error),
            },
    {
        match api_post_reply("chat.postMessage", body) {
            Ok(reply) => sent_message(channel, &reply),
            Err(error) => Err(error),
        }
    }

    /// The request that gives a message a new text that is mrkdwn already.
    pub fn update_mrkdwn(&self, msg: &MessageRef, mrkdwn: &str) -> (request: ApiRequest)
        ensures
            is_api_post(
                request,
                self@.bot_token,
                "chat.update"@,
                update_arguments(msg@, mrkdwn@),
            ),
    {
        let arguments = with_argument(no_arguments(), "channel", msg.channel.channel_id.as_str());
        let arguments = with_argument(arguments, "ts", msg.message_id.as_str());
        let arguments = with_argument(arguments, "text", mrkdwn);
        assert(members_view(arguments@) =~= update_arguments(msg@, mrkdwn@));
        self.api_post("chat.update", arguments)
    }

    /// The request that gives a message a new text, given as Markdown.
    pub fn edit_message(&self, msg: &MessageRef, content: &str) -> (request: ApiRequest)
        ensures
            is_api_post(
                request,
                self@.bot_token,
                "chat.update"@,
                update_arguments(msg@, mrkdwn_of(content@)),
            ),
    {
        self.update_mrkdwn(msg, markdown_to_mrkdwn(content).as_str())
    }

    /// The thread that a message starts. Slack's threads are implicit: posting
    /// with the message's timestamp creates or continues the thread.
    pub fn create_thread(&self, channel: &ChannelRef, trigger_msg: &MessageRef, _title: &str) -> (
    thread: ChannelRef)
        ensures
            thread@ == slack_place(channel@.channel_id, Some(trigger_msg@.message_id)),
    {
        slack_channel(channel.channel_id.as_str(), Some(trigger_msg.message_id.clone()))
    }

    /// The request that calls a method of the reactions API on a message.
    fn react(&self, method: &str, msg: &MessageRef, emoji: &str) -> (request: ApiRequest)
        ensures
            is_api_post(request, self@.bot_token, method@, reaction_arguments(msg@, emoji@)),
    {
        let name = unicode_to_slack_emoji(emoji);
        let arguments = with_argument(no_arguments(), "channel", msg.channel.channel_id.as_str());
        let arguments = with_argument(arguments, "timestamp", msg.message_id.as_str());
        let arguments = with_argument(arguments, "name", name);
        assert(members_view(arguments@) =~= reaction_arguments(msg@, emoji@));
        self.api_post(method, arguments)
    }

    /// The request that adds a reaction to a message.
    pub fn add_reaction(&self, msg: &MessageRef, emoji: &str) -> (request: ApiRequest)
        ensures
            is_api_post(
                request,
                self@.bot_token,
                "reactions.add"@,
                reaction_arguments(msg@, emoji@),
            ),
    {
        self.react("reactions.add", msg, emoji)
    }

    /// The request that removes a reaction from a message.
    pub fn remove_reaction(&self, msg: &MessageRef, emoji: &str) -> (request: ApiRequest)
        ensures
            is_api_post(
                request,
                self@.bot_token,
                "reactions.remove"@,
                reaction_arguments(msg@, emoji@),
            ),
    {
        self.react("reactions.remove", msg, emoji)
    }
}

/// The bot's own user ID is kept once it is known, whatever later replies say;
/// and a reply without one leaves the adapter as it is, to ask again.
pub proof fn law_bot_user_id_is_kept(
    adapter: AdapterView,
    bot_user_id: Seq<char>,
    later: Option<Seq<char>>,
)
    ensures
        adapter.knowing(Some(bot_user_id)).bot_user_id is Some,
        adapter.knowing(Some(bot_user_id)).knowing(later) == adapter.knowing(Some(bot_user_id)),
        adapter.knowing(None) == adapter,
{
}

/// A name that was learned is remembered for five minutes, and no longer.
pub proof fn law_names_are_remembered(
    adapter: AdapterView,
    user_id: Seq<char>,
    name: Seq<char>,
    learned_at: u128,
    now: u128,
)
    requires
        learned_at <= now,
    ensures
        adapter.learning(user_id, name, learned_at).remembered(user_id, now) == (if now - learned_at
            < USER_CACHE_TTL {
            Some(name)
        } else {
            None
        }),
{
}

/// To learn a name changes nothing else that is remembered.
pub proof fn law_learning_keeps_the_rest(
    adapter: AdapterView,
    user_id: Seq<char>,
    name: Seq<char>,
    learned_at: u128,
    other: Seq<char>,
    now: u128,
)
    requires
        other != user_id,
    ensures
        adapter.learning(user_id, name, learned_at).remembered(other, now) == adapter.remembered(
            other,
            now,
        ),
        adapter.learning(user_id, name, learned_at).bot_token == adapter.bot_token,
        adapter.learning(user_id, name, learned_at).bot_user_id == adapter.bot_user_id,
{
}

/// The request that removes a reaction names the same message and reaction as
/// the one that adds it, in the name of the same bot.
pub proof fn law_removal_mirrors_addition(
    token: Seq<char>,
    message: MessageView,
    emoji: Seq<char>,
    addition: ApiRequest,
    removal: ApiRequest,
)
    requires
        is_api_post(addition, token, "reactions.add"@, reaction_arguments(message, emoji)),
        is_api_post(removal, token, "reactions.remove"@, reaction_arguments(message, emoji)),
    ensures
        addition.authorization@ == removal.authorization@,
        text_view(addition.body) == text_view(removal.body),
{
}

/// What Slack reads in a request to post a message: the channel, the text, and
/// the thread exactly where the place is one.
pub proof fn law_posts_say_where(channel: ChannelView, mrkdwn: Seq<char>)
    ensures
        object_of(post_arguments(channel, mrkdwn)).member("channel"@).text() == Some(
            channel.channel_id,
        ),
        object_of(post_arguments(channel, mrkdwn)).member("text"@).text() == Some(mrkdwn),
        object_of(post_arguments(channel, mrkdwn)).member("thread_ts"@).text()
            == channel.thread_id,
{
    reveal_strlit("channel");
    reveal_strlit("text");
    reveal_strlit("thread_ts");
    reveal_with_fuel(members_of, 4);
    let two = seq![("channel"@, channel.channel_id), ("text"@, mrkdwn)];
    assert(two.drop_last() =~= seq![("channel"@, channel.channel_id)]);
    assert(two.drop_last().drop_last() =~= Seq::empty());
    if channel.thread_id is Some {
        assert(post_arguments(channel, mrkdwn).drop_last() =~= two);
    }
    assert("channel"@.len() == 7 && "text"@.len() == 4 && "thread_ts"@.len() == 9);
}

/// What Slack reads in a request to change a message: the channel, the message
/// and the text.
pub proof fn law_updates_say_which(message: MessageView, mrkdwn: Seq<char>)
    ensures
        object_of(update_arguments(message, mrkdwn)).member("channel"@).text() == Some(
            message.channel.channel_id,
        ),
        object_of(update_arguments(message, mrkdwn)).member("ts"@).text() == Some(
            message.message_id,
        ),
        object_of(update_arguments(message, mrkdwn)).member("text"@).text() == Some(mrkdwn),
{
    reveal_strlit("channel");
    reveal_strlit("ts");
    reveal_strlit("text");
    reveal_with_fuel(members_of, 4);
    let all = update_arguments(message, mrkdwn);
    assert(all.drop_last() =~= seq![
        ("channel"@, message.channel.channel_id),
        ("ts"@, message.message_id),
    ]);
    assert(all.drop_last().drop_last() =~= seq![("channel"@, message.channel.channel_id)]);
    assert(all.drop_last().drop_last().drop_last() =~= Seq::empty());
    assert("channel"@.len() == 7 && "ts"@.len() == 2 && "text"@.len() == 4);
}

/// What Slack reads in a request for a reaction: the channel, the message and
/// the short name of the reaction.
pub proof fn law_reactions_say_which(message: MessageView, emoji: Seq<char>)
    ensures
        object_of(reaction_arguments(message, emoji)).member("channel"@).text() == Some(
            message.channel.channel_id,
        ),
        object_of(reaction_arguments(message, emoji)).member("timestamp"@).text() == Some(
            message.message_id,
        ),
        object_of(reaction_arguments(message, emoji)).member("name"@).text() == Some(
            reaction_name(emoji),
        ),
{
    reveal_strlit("channel");
    reveal_strlit("timestamp");
    reveal_strlit("name");
    reveal_with_fuel(members_of, 4);
    let all = reaction_arguments(message, emoji);
    assert(all.drop_last() =~= seq![
        ("channel"@, message.channel.channel_id),
        ("timestamp"@, message.message_id),
    ]);
    assert(all.drop_last().drop_last() =~= seq![("channel"@, message.channel.channel_id)]);
    assert(all.drop_last().drop_last().drop_last() =~= Seq::empty());
    assert("channel"@.len() == 7 && "timestamp"@.len() == 9 && "name"@.len() == 4);
}

/// A message that was sent can be changed: the message that is reported is the
/// one in that channel with the timestamp that Slack gave it, and it stands in
/// the thread that it was sent to.
pub proof fn law_sent_messages_stay_in_place(
    channel: ChannelView,
    reply: JsonView,
    message: MessageView,
)
    requires
        reported_message(channel, reply) == Ok::<MessageView, ErrorView>(message),
    ensures
        message.channel.channel_id == channel.channel_id,
        message.channel.thread_id == channel.thread_id,
        reply.member("ts"@).text() == Some(message.message_id),
{
}

/// To be told the bot's own user ID changes nothing but that, and the ID that an
/// adapter did not know is kept as it was told.
pub proof fn law_bot_user_id_is_learned(
    adapter: AdapterView,
    bot_user_id: Seq<char>,
    told: Option<Seq<char>>,
)
    ensures
        adapter.bot_user_id is None ==> adapter.knowing(Some(bot_user_id)).bot_user_id == Some(
            bot_user_id,
        ),
        adapter.bot_user_id is Some ==> adapter.knowing(told) == adapter,
        adapter.knowing(told).bot_token == adapter.bot_token,
        adapter.knowing(told).user_cache == adapter.user_cache,
{
}

/// A name is remembered exactly where it was learned of that user, and less than
/// five minutes ago.
pub proof fn law_only_fresh_names_are_remembered(
    adapter: AdapterView,
    user_id: Seq<char>,
    name: Seq<char>,
    now: u128,
)
    ensures
        adapter.remembered(user_id, now) == Some(name) <==> {
            &&& adapter.user_cache.contains_key(user_id)
            &&& adapter.user_cache[user_id].0 == name
            &&& now < adapter.user_cache[user_id].1 + 300_000_000_000
        },
{
}

/// A name that was learned takes the place of an older one, and the others stay.
pub proof fn law_the_latest_name_counts(
    adapter: AdapterView,
    user_id: Seq<char>,
    older: Seq<char>,
    name: Seq<char>,
    before: u128,
    now: u128,
)
    ensures
        adapter.learning(user_id, name, now).remembered(user_id, now) == Some(name),
        adapter.learning(user_id, older, before).learning(user_id, name, now)
            == adapter.learning(user_id, name, now),
        adapter.learning(user_id, name, now).user_cache.dom() == adapter.user_cache.dom().insert(
            user_id,
        ),
        forall|other: Seq<char>|
            #![trigger adapter.user_cache[other]]
            other != user_id ==> adapter.learning(user_id, name, now).user_cache[other]
                == adapter.user_cache[other],
{
    assert(adapter.learning(user_id, older, before).learning(user_id, name, now).user_cache
        =~= adapter.learning(user_id, name, now).user_cache);
    assert(adapter.learning(user_id, name, now).user_cache.dom()
        =~= adapter.user_cache.dom().insert(user_id));
}

/// Whether a value has that text as a member of that name, and it is not empty.
pub open spec fn is_filled(value: JsonView, key: Seq<char>, text: Seq<char>) -> bool {
    value.find(key) == Some(JsonView::Text(text)) && text.len() > 0
}

/// A display name that is not empty is a user's name, whatever else the profile
/// holds. Without one, a real name that is not empty is, whatever the user's own
/// name is. Without both, it is the user's own name, where that is a text.
pub proof fn law_names_come_in_order(
    reply: JsonView,
    user: JsonView,
    profile: JsonView,
    text: Seq<char>,
)
    requires
        reply.find("user"@) == Some(user),
        user.find("profile"@) == Some(profile),
    ensures
        is_filled(profile, "display_name"@, text) ==> name_in_reply(reply) == Some(text),
        (forall|shown: Seq<char>| !#[trigger] is_filled(profile, "display_name"@, shown))
            && is_filled(profile, "real_name"@, text) ==> name_in_reply(reply) == Some(text),
        (forall|shown: Seq<char>| !#[trigger] is_filled(profile, "display_name"@, shown)) && (
        forall|full: Seq<char>| !#[trigger] is_filled(profile, "real_name"@, full)) ==> (
        name_in_reply(reply) == Some(text) <==> user.find("name"@) == Some(JsonView::Text(text))),
{
    if let Some(JsonView::Text(shown)) = profile.find("display_name"@) {
        assert(shown.len() > 0 ==> is_filled(profile, "display_name"@, shown));
    }
    if let Some(JsonView::Text(full)) = profile.find("real_name"@) {
        assert(full.len() > 0 ==> is_filled(profile, "real_name"@, full));
    }
}

/// A name is one of the three that a reply may hold, and none is made up: without
/// a user or a profile there is no name.
pub proof fn law_names_are_not_made_up(reply: JsonView, name: Seq<char>)
    requires
        name_in_reply(reply) == Some(name),
    ensures
        reply.find("user"@) matches Some(user) && user.find("profile"@) matches Some(profile) && {
            ||| is_filled(profile, "display_name"@, name)
            ||| is_filled(profile, "real_name"@, name)
            ||| user.find("name"@) == Some(JsonView::Text(name))
        },
{
}

/// Requests hold nothing that was not asked for: a post names the channel, the
/// text and the thread, a change the channel, the message and the text, and a
/// reaction the channel, the message and the name.
pub proof fn law_requests_hold_nothing_else(
    channel: ChannelView,
    message: MessageView,
    text: Seq<char>,
    key: Seq<char>,
)
    requires
        key != "channel"@,
    ensures
        key != "text"@ && key != "thread_ts"@ ==> object_of(post_arguments(channel, text)).find(
            key,
        ) is None,
        key != "text"@ && key != "ts"@ ==> object_of(update_arguments(message, text)).find(
            key,
        ) is None,
        key != "timestamp"@ && key != "name"@ ==> object_of(reaction_arguments(message, text)).find(
            key,
        ) is None,
{
    reveal_with_fuel(members_of, 4);
    let post = post_arguments(channel, text);
    let two = seq![("channel"@, channel.channel_id), ("text"@, text)];
    assert(two.drop_last() =~= seq![("channel"@, channel.channel_id)]);
    assert(two.drop_last().drop_last() =~= Seq::empty());
    if channel.thread_id is Some {
        assert(post.drop_last() =~= two);
    }
    let update = update_arguments(message, text);
    assert(update.drop_last() =~= seq![
        ("channel"@, message.channel.channel_id),
        ("ts"@, message.message_id),
    ]);
    assert(update.drop_last().drop_last() =~= seq![("channel"@, message.channel.channel_id)]);
    assert(update.drop_last().drop_last().drop_last() =~= Seq::empty());
    let reaction = reaction_arguments(message, text);
    assert(reaction.drop_last() =~= seq![
        ("channel"@, message.channel.channel_id),
        ("timestamp"@, message.message_id),
    ]);
    assert(reaction.drop_last().drop_last() =~= seq![("channel"@, message.channel.channel_id)]);
    assert(reaction.drop_last().drop_last().drop_last() =~= Seq::empty());
}

/// A message is reported exactly where the reply holds a timestamp, under that
/// timestamp and in the place that it was sent to; else the timestamp is missed.
pub proof fn law_messages_are_reported(channel: ChannelView, reply: JsonView, ts: Seq<char>)
    ensures
        reply.find("ts"@) == Some(JsonView::Text(ts)) <==> (reported_message(channel, reply) is Ok
            && reported_message(channel, reply)->Ok_0.message_id == ts),
        reported_message(channel, reply) matches Ok(message) ==> {
            &&& message.channel.platform == "slack"@
            &&& message.channel.channel_id == channel.channel_id
            &&& message.channel.thread_id == channel.thread_id
            &&& message.channel.parent_id is None
        },
        reported_message(channel, reply) matches Err(error) ==> error == ErrorView::NoTimestamp,
{
}

/// What is seen of the result of sending is whether it is good, and what it holds.
pub proof fn law_sent_results_are_seen(message: MessageRef, error: SlackError)
    ensures
        message_view(Ok(message)) == Ok::<MessageView, ErrorView>(message@),
        message_view(Err(error)) == Err::<MessageView, ErrorView>(error@),
{
}

} // verus!
