//! What arrives over Socket Mode: envelopes, events and files.

use crate::json::{
    is_object_text, json_contents, json_parsed, member_text, members_of, members_view, object_text,
    parse_text, text_view, value_as_array, value_as_u64, value_get, JsonView,
};
use crate::text::{contains_text, occurs};
use vstd::prelude::*;
use vstd::string::*;

verus! {

/// A file that a message carries.
pub struct SlackFile {
    pub mimetype: String,
    pub name: String,
    pub size: u64,
    pub url: String,
}

/// What a `SlackFile` holds.
pub struct FileView {
    pub mimetype: Seq<char>,
    pub name: Seq<char>,
    pub size: u64,
    pub url: Seq<char>,
}

impl View for SlackFile {
    type V = FileView;

    open spec fn view(&self) -> FileView {
        FileView {
            mimetype: self.mimetype@,
            name: self.name@,
            size: self.size,
            url: self.url@,
        }
    }
}

/// An event of Slack's Events API, as far as the adapter looks at it.
pub struct SlackEvent {
    pub kind: String,
    pub channel: Option<String>,
    pub user: Option<String>,
    pub text: Option<String>,
    pub ts: Option<String>,
    pub thread_ts: Option<String>,
    pub bot_id: Option<String>,
    pub subtype: Option<String>,
    pub files: Option<Vec<SlackFile>>,
}

/// What a `SlackEvent` holds.
pub struct EventView {
    pub kind: Seq<char>,
    pub channel: Option<Seq<char>>,
    pub user: Option<Seq<char>>,
    pub text: Option<Seq<char>>,
    pub ts: Option<Seq<char>>,
    pub thread_ts: Option<Seq<char>>,
    pub bot_id: Option<Seq<char>>,
    pub subtype: Option<Seq<char>>,
    pub files: Option<Seq<FileView>>,
}

/// What a list of files holds.
pub open spec fn files_view(files: Seq<SlackFile>) -> Seq<FileView> {
    files.map_values(|file: SlackFile| file@)
}

impl View for SlackEvent {
    type V = EventView;

    open spec fn view(&self) -> EventView {
        EventView {
            kind: self.kind@,
            channel: text_view(self.channel),
            user: text_view(self.user),
            text: text_view(self.text),
            ts: text_view(self.ts),
            thread_ts: text_view(self.thread_ts),
            bot_id: text_view(self.bot_id),
            subtype: text_view(self.subtype),
            files: match self.files {
                Some(files) => Some(files_view(files@)),
                None => None,
            },
        }
    }
}

/// A text, or what to take where there is none.
pub open spec fn text_or(text: Option<Seq<char>>, otherwise: Seq<char>) -> Seq<char> {
    match text {
        Some(s) => s,
        None => otherwise,
    }
}

/// The file that a JSON value describes. Its address is the private one for
/// downloads, else the private one.
pub open spec fn file_of(value: JsonView) -> FileView {
    FileView {
        mimetype: text_or(value.member("mimetype"@).text(), ""@),
        name: text_or(value.member("name"@).text(), "file"@),
        size: match value.member("size"@).number() {
            Some(size) => size,
            None => 0,
        },
        url: match value.member("url_private_download"@).text() {
            Some(url) => url,
            None => text_or(value.member("url_private"@).text(), ""@),
        },
    }
}

/// The event that a JSON value describes.
pub open spec fn event_of(value: JsonView) -> EventView {
    EventView {
        kind: text_or(value.member("type"@).text(), ""@),
        channel: value.member("channel"@).text(),
        user: value.member("user"@).text(),
        text: value.member("text"@).text(),
        ts: value.member("ts"@).text(),
        thread_ts: value.member("thread_ts"@).text(),
        bot_id: value.member("bot_id"@).text(),
        subtype: value.member("subtype"@).text(),
        files: match value.member("files"@).items() {
            Some(items) => Some(items.map_values(|item: JsonView| file_of(item))),
            None => None,
        },
    }
}

/// An envelope of Socket Mode: its ID, and the event where it brings one.
pub struct Envelope {
    pub envelope_id: Option<String>,
    pub event: Option<SlackEvent>,
}

/// What an `Envelope` holds.
pub struct EnvelopeView {
    pub envelope_id: Option<Seq<char>>,
    pub event: Option<EventView>,
}

impl View for Envelope {
    type V = EnvelopeView;

    open spec fn view(&self) -> EnvelopeView {
        EnvelopeView {
            envelope_id: text_view(self.envelope_id),
            event: match self.event {
                Some(event) => Some(event@),
                None => None,
            },
        }
    }
}

/// The envelope that a JSON value describes. Only one of type `events_api`
/// brings an event.
pub open spec fn envelope_of(value: JsonView) -> EnvelopeView {
    EnvelopeView {
        envelope_id: value.member("envelope_id"@).text(),
        event: if value.member("type"@).text() == Some("events_api"@) {
            Some(event_of(value.member("payload"@).member("event"@)))
        } else {
            None
        },
    }
}

/// The text that a value has as a member of that name, or what to take where it
/// has none.
fn member_text_or(value: &serde_json::Value, key: &str, otherwise: &str) -> (text: String)
    ensures
        text@ == text_or(json_contents(*value).member(key@).text(), otherwise@),
{
    match member_text(value, key) {
        Some(s) => s,
        None => otherwise.to_string(),
    }
}

/// The file that a JSON value describes.
pub fn read_file(value: &serde_json::Value) -> (file: SlackFile)
    ensures
        file@ == file_of(json_contents(*value)),
{
    let size: u64 = match value_get(value, "size") {
        Some(member) => match value_as_u64(member) {
            Some(size) => size,
            None => 0,
        },
        None => 0,
    };
    let url = match member_text(value, "url_private_download") {
        Some(url) => url,
        None => member_text_or(value, "url_private", ""),
    };
    SlackFile {
        mimetype: member_text_or(value, "mimetype", ""),
        name: member_text_or(value, "name", "file"),
        size,
        url,
    }
}

/// The files that the elements of a JSON array describe.
fn read_files(items: &Vec<serde_json::Value>) -> (files: Vec<SlackFile>)
    ensures
        files_view(files@) == items@.map_values(
            |item: serde_json::Value| json_contents(item),
        ).map_values(|item: JsonView| file_of(item)),
{
    let mut files: Vec<SlackFile> = Vec::new();
    let mut i: usize = 0;
    while i < items.len()
        invariant
            i <= items.len(),
            files.len() == i,
            forall|k: int| 0 <= k < i ==> (#[trigger] files@[k])@ == file_of(json_contents(items@[k])),
        decreases items.len() - i,
    {
        files.push(read_file(&items[i]));
        i += 1;
    }
    assert(files_view(files@) =~= items@.map_values(
        |item: serde_json::Value| json_contents(item),
    ).map_values(|item: JsonView| file_of(item)));
    files
}

/// The event that a JSON value describes.
pub fn read_event(value: &serde_json::Value) -> (event: SlackEvent)
    ensures
        event@ == event_of(json_contents(*value)),
{
    let files = match value_get(value, "files") {
        Some(member) => match value_as_array(member) {
            Some(items) => Some(read_files(items)),
            None => None,
        },
        None => None,
    };
    SlackEvent {
        kind: member_text_or(value, "type", ""),
        channel: member_text(value, "channel"),
        user: member_text(value, "user"),
        text: member_text(value, "text"),
        ts: member_text(value, "ts"),
        thread_ts: member_text(value, "thread_ts"),
        bot_id: member_text(value, "bot_id"),
        subtype: member_text(value, "subtype"),
        files,
    }
}

/// The event of an envelope that holds none.
fn empty_event() -> (event: SlackEvent)
    ensures
        event@ == event_of(JsonView::Null),
{
    SlackEvent {
        kind: "".to_string(),
        channel: None,
        user: None,
        text: None,
        ts: None,
        thread_ts: None,
        bot_id: None,
        subtype: None,
        files: None,
    }
}

/// The event in an envelope's payload.
fn read_payload(value: &serde_json::Value) -> (event: SlackEvent)
    ensures
        event@ == event_of(json_contents(*value).member("payload"@).member("event"@)),
{
    match value_get(value, "payload") {
        Some(payload) => match value_get(payload, "event") {
            Some(event) => read_event(event),
            None => empty_event(),
        },
        None => empty_event(),
    }
}

/// The envelope that a JSON value describes.
pub fn read_envelope(value: &serde_json::Value) -> (envelope: Envelope)
    ensures
        envelope@ == envelope_of(json_contents(*value)),
{
    let brings_event = match member_text(value, "type") {
        Some(kind) => *kind.as_str() == *"events_api",
        None => false,
    };
    Envelope {
        envelope_id: member_text(value, "envelope_id"),
        event: if brings_event {
            Some(read_payload(value))
        } else {
            None
        },
    }
}

/// What is to be done with an event.
pub enum Delivery {
    /// Nothing.
    Nothing,
    /// It mentions the bot: handle the message.
    Mention(SlackEvent),
    /// It is a message: handle it if it follows up on a thread.
    Message(SlackEvent),
}

/// What a `Delivery` holds.
pub enum DeliveryView {
    Nothing,
    Mention(EventView),
    Message(EventView),
}

impl View for Delivery {
    type V = DeliveryView;

    open spec fn view(&self) -> DeliveryView {
        match self {
            Delivery::Nothing => DeliveryView::Nothing,
            Delivery::Mention(event) => DeliveryView::Mention(event@),
            Delivery::Message(event) => DeliveryView::Message(event@),
        }
    }
}

/// What is to be done with the event of an envelope, by its type.
pub open spec fn delivery_of(event: Option<EventView>) -> DeliveryView {
    match event {
        Some(event) => if event.kind == "app_mention"@ {
            DeliveryView::Mention(event)
        } else if event.kind == "message"@ {
            DeliveryView::Message(event)
        } else {
            DeliveryView::Nothing
        },
        None => DeliveryView::Nothing,
    }
}

/// What is to be done with a text that arrived: what to answer, and what to do
/// with the event that it brought.
pub struct Received {
    pub acknowledgement: Option<String>,
    pub delivery: Delivery,
}

/// Whether an envelope is received as it should be: it is acknowledged by its
/// ID where it has one, whatever it brings, and its event is delivered.
pub open spec fn is_received(envelope: EnvelopeView, received: Received) -> bool {
    &&& match envelope.envelope_id {
        Some(id) => received.acknowledgement matches Some(text) && is_object_text(
            text@,
            seq![("envelope_id"@, id)],
        ),
        None => received.acknowledgement is None,
    }
    &&& received.delivery@ == delivery_of(envelope.event)
}

/// Receive an envelope.
pub fn receive_envelope(envelope: Envelope) -> (received: Received)
    ensures
        is_received(envelope@, received),
{
    let acknowledgement = match envelope.envelope_id {
        Some(id) => {
            let mut members: Vec<(String, String)> = Vec::new();
            let ghost id_view = id@;
            members.push(("envelope_id".to_string(), id));
            assert(members_view(members@) =~= seq![("envelope_id"@, id_view)]);
            Some(object_text(members))
        },
        None => None,
    };
    let delivery = match envelope.event {
        Some(event) => if *event.kind.as_str() == *"app_mention" {
            Delivery::Mention(event)
        } else if *event.kind.as_str() == *"message" {
            Delivery::Message(event)
        } else {
            Delivery::Nothing
        },
        None => Delivery::Nothing,
    };
    Received { acknowledgement, delivery }
}

/// Receive a text. One that is not JSON is passed over.
pub fn receive_text(text: &str) -> (received: Received)
    ensures
        match json_parsed(text@) {
            Some(value) => is_received(envelope_of(value), received),
            None => received.acknowledgement is None && received.delivery@ == DeliveryView::Nothing,
        },
{
    match parse_text(text) {
        Ok(value) => receive_envelope(read_envelope(&value)),
        Err(_) => Received { acknowledgement: None, delivery: Delivery::Nothing },
    }
}

/// Whether a bot wrote the message.
pub open spec fn is_by_bot(event: EventView) -> bool {
    event.bot_id is Some || event.subtype == Some("bot_message"@)
}

/// Whether an event of that subtype tells of something else than a message
/// that a user wrote.
pub open spec fn is_notice(subtype: Option<Seq<char>>) -> bool {
    ||| subtype == Some("message_changed"@)
    ||| subtype == Some("message_deleted"@)
    ||| subtype == Some("channel_join"@)
    ||| subtype == Some("channel_leave"@)
    ||| subtype == Some("channel_topic"@)
    ||| subtype == Some("channel_purpose"@)
}

/// Whether a message mentions the bot, where its user ID is known.
pub open spec fn mentions(event: EventView, bot_user_id: Option<Seq<char>>) -> bool {
    match bot_user_id {
        Some(id) => occurs(text_or(event.text, ""@), "<@"@ + id + ">"@),
        None => false,
    }
}

/// Whether a message is one to handle though it is no mention: a user wrote it
/// in a thread, and it does not mention the bot.
pub open spec fn follows_up(event: EventView, bot_user_id: Option<Seq<char>>) -> bool {
    &&& event.thread_ts is Some
    &&& !is_by_bot(event)
    &&& !is_notice(event.subtype)
    &&& !mentions(event, bot_user_id)
}

/// Whether a string is there and is the one to look for.
fn is_text(text: &Option<String>, wanted: &str) -> (is_it: bool)
    ensures
        is_it == (text_view(*text) == Some(wanted@)),
{
    match text {
        Some(s) => *s.as_str() == *wanted,
        None => false,
    }
}

/// Whether a bot wrote the message.
pub fn written_by_bot(event: &SlackEvent) -> (by_bot: bool)
    ensures
        by_bot == is_by_bot(event@),
{
    event.bot_id.is_some() || is_text(&event.subtype, "bot_message")
}

/// Whether a message mentions the bot, where its user ID is known.
pub fn mentions_bot(event: &SlackEvent, bot_user_id: Option<&str>) -> (mentioned: bool)
    ensures
        mentioned == mentions(
            event@,
            match bot_user_id {
                Some(id) => Some(id@),
                None => None,
            },
        ),
{
    match bot_user_id {
        Some(id) => {
            let mention = "<@".to_string().concat(id).concat(">");
            match &event.text {
                Some(text) => contains_text(text.as_str(), mention.as_str()),
                None => contains_text("", mention.as_str()),
            }
        },
        None => false,
    }
}

/// Whether a message is one to handle though it is no mention.
pub fn is_follow_up(event: &SlackEvent, bot_user_id: Option<&str>) -> (follow_up: bool)
    ensures
        follow_up == follows_up(
            event@,
            match bot_user_id {
                Some(id) => Some(id@),
                None => None,
            },
        ),
{
    let notice = is_text(&event.subtype, "message_changed") || is_text(
        &event.subtype,
        "message_deleted",
    ) || is_text(&event.subtype, "channel_join") || is_text(&event.subtype, "channel_leave")
        || is_text(&event.subtype, "channel_topic") || is_text(&event.subtype, "channel_purpose");
    event.thread_ts.is_some() && !written_by_bot(event) && !notice && !mentions_bot(
        event,
        bot_user_id,
    )
}

/// Which event of a delivery is handled, and whether as a mention: a mention is,
/// and a message where it follows up.
pub open spec fn routed(delivery: DeliveryView, bot_user_id: Option<Seq<char>>) -> Option<
    (EventView, bool),
> {
    match delivery {
        DeliveryView::Nothing => None,
        DeliveryView::Mention(event) => Some((event, true)),
        DeliveryView::Message(event) => if follows_up(event, bot_user_id) {
            Some((event, false))
        } else {
            None
        },
    }
}

/// Decide which event of a delivery is handled, and whether as a mention.
pub fn route(delivery: Delivery, bot_user_id: Option<&str>) -> (handled: Option<
    (SlackEvent, bool),
>)
    ensures
        (match handled {
            Some((event, is_mention)) => Some((event@, is_mention)),
            None => None,
        }) == routed(
            delivery@,
            match bot_user_id {
                Some(id) => Some(id@),
                None => None,
            },
        ),
{
    match delivery {
        Delivery::Nothing => None,
        Delivery::Mention(event) => Some((event, true)),
        Delivery::Message(event) => if is_follow_up(&event, bot_user_id) {
            Some((event, false))
        } else {
            None
        },
    }
}

/// Whether the bot's user ID has to be known to decide on a delivery: only a
/// message may mention the bot without being a mention.
pub fn needs_bot_user_id(delivery: &Delivery) -> (needed: bool)
    ensures
        needed == (delivery@ is Message),
{
    match delivery {
        Delivery::Message(_) => true,
        _ => false,
    }
}

/// What is no message is handled alike whatever the bot's user ID is.
pub proof fn law_only_messages_need_the_bot_user_id(
    delivery: DeliveryView,
    bot_user_id: Option<Seq<char>>,
    other: Option<Seq<char>>,
)
    requires
        !(delivery is Message),
    ensures
        routed(delivery, bot_user_id) == routed(delivery, other),
{
}

/// A message that mentions the bot is handled once: as a mention, and not as a
/// message that follows up.
pub proof fn law_mentions_are_handled_once(event: EventView, bot_user_id: Seq<char>)
    requires
        occurs(text_or(event.text, ""@), "<@"@ + bot_user_id + ">"@),
    ensures
        !follows_up(event, Some(bot_user_id)),
        routed(DeliveryView::Mention(event), Some(bot_user_id)) == Some((event, true)),
        routed(DeliveryView::Message(event), Some(bot_user_id)) is None,
{
}

/// A bot's message is never followed up, so that bots do not answer each other.
pub proof fn law_bots_are_not_answered(event: EventView, bot_user_id: Option<Seq<char>>)
    requires
        event.bot_id is Some || event.subtype == Some("bot_message"@),
    ensures
        !follows_up(event, bot_user_id),
{
}

/// Without a mention the bot answers in threads only.
pub proof fn law_follow_ups_stand_in_threads(event: EventView, bot_user_id: Option<Seq<char>>)
    requires
        follows_up(event, bot_user_id),
    ensures
        event.thread_ts is Some,
{
}

/// A message is followed up exactly where it stands in a thread, no bot wrote it,
/// it is none of the notices, and its text does not mention the bot. Nothing else
/// counts, such as its files, its channel or its user.
pub proof fn law_follow_ups(event: EventView, bot_user_id: Option<Seq<char>>)
    ensures
        follows_up(event, bot_user_id) <==> {
            &&& event.thread_ts is Some
            &&& event.bot_id is None
            &&& event.subtype matches Some(subtype) ==> {
                &&& subtype != "bot_message"@
                &&& subtype != "message_changed"@
                &&& subtype != "message_deleted"@
                &&& subtype != "channel_join"@
                &&& subtype != "channel_leave"@
                &&& subtype != "channel_topic"@
                &&& subtype != "channel_purpose"@
            }
            &&& bot_user_id matches Some(id) ==> event.text matches Some(text) ==> !occurs(
                text,
                "<@"@ + id + ">"@,
            )
        },
{
    reveal_strlit("");
    reveal_strlit("<@");
    reveal_strlit(">");
}

/// Two messages that agree in thread, bot, subtype and text are followed up
/// alike, whatever else they hold.
pub proof fn law_follow_ups_are_alike(
    event: EventView,
    other: EventView,
    bot_user_id: Option<Seq<char>>,
)
    requires
        event.thread_ts is Some == other.thread_ts is Some,
        event.bot_id is Some == other.bot_id is Some,
        event.subtype == other.subtype,
        event.text == other.text,
    ensures
        follows_up(event, bot_user_id) == follows_up(other, bot_user_id),
{
}

/// A message mentions the bot where its text holds the bot's user ID between `<@`
/// and `>`, whatever stands around it, and nowhere else.
pub proof fn law_mentions_are_seen(
    event: EventView,
    bot_user_id: Seq<char>,
    before: Seq<char>,
    behind: Seq<char>,
)
    ensures
        event.text == Some(before + ("<@"@ + bot_user_id + ">"@) + behind) ==> mentions(
            event,
            Some(bot_user_id),
        ),
        mentions(event, Some(bot_user_id)) ==> event.text is Some && exists|i: int|
            0 <= i <= event.text->0.len() - ("<@"@ + bot_user_id + ">"@).len()
                && #[trigger] event.text->0.subrange(
                i,
                i + ("<@"@ + bot_user_id + ">"@).len(),
            ) == "<@"@ + bot_user_id + ">"@,
        !mentions(event, None),
{
    reveal_strlit("");
    reveal_strlit("<@");
    reveal_strlit(">");
    let mention = "<@"@ + bot_user_id + ">"@;
    let all = before + mention + behind;
    let i = before.len() as int;
    assert(all.subrange(i, i + mention.len()) =~= mention);
}

/// A mention is always handled, as one; a message is handled exactly where it is
/// followed up, and not as a mention; and nothing else is. What is handled is
/// what was delivered.
pub proof fn law_deliveries_are_routed(event: EventView, bot_user_id: Option<Seq<char>>)
    ensures
        routed(DeliveryView::Mention(event), bot_user_id) == Some((event, true)),
        follows_up(event, bot_user_id) ==> routed(DeliveryView::Message(event), bot_user_id)
            == Some((event, false)),
        !follows_up(event, bot_user_id) ==> routed(DeliveryView::Message(event), bot_user_id)
            is None,
        routed(DeliveryView::Nothing, bot_user_id) is None,
{
}

/// An event is delivered by its type: as a mention, as a message, or not at all.
pub proof fn law_events_are_delivered_by_type(event: EventView)
    ensures
        delivery_of(Some(event)) == DeliveryView::Mention(event) <==> event.kind == "app_mention"@,
        delivery_of(Some(event)) == DeliveryView::Message(event) <==> event.kind == "message"@,
        delivery_of(Some(event)) == DeliveryView::Nothing <==> event.kind != "app_mention"@
            && event.kind != "message"@,
        delivery_of(None) == DeliveryView::Nothing,
{
    reveal_strlit("app_mention");
    reveal_strlit("message");
    assert("app_mention"@.len() != "message"@.len());
}

/// An envelope brings an event exactly where its type is `events_api`, and it is
/// the one in its payload. Its ID is the text of that name, whatever it brings.
pub proof fn law_envelopes_bring_events(value: JsonView, id: Seq<char>)
    ensures
        envelope_of(value).event is Some <==> value.find("type"@) == Some(
            JsonView::Text("events_api"@),
        ),
        envelope_of(value).event matches Some(event) ==> {
            &&& value.find("payload"@) matches Some(payload) ==> payload.find("event"@)
                matches Some(inner) ==> event == event_of(inner)
            &&& !(value.find("payload"@) matches Some(payload) && payload.find("event"@) is Some)
                ==> event == event_of(JsonView::Null)
        },
        envelope_of(value).envelope_id == Some(id) <==> value.find("envelope_id"@) == Some(
            JsonView::Text(id),
        ),
{
}

/// Each text of an event is the member of its own name, where that is a text.
pub proof fn law_events_hold_their_texts(value: JsonView, text: Seq<char>)
    ensures
        event_of(value).channel == Some(text) <==> value.find("channel"@) == Some(
            JsonView::Text(text),
        ),
        event_of(value).user == Some(text) <==> value.find("user"@) == Some(JsonView::Text(text)),
        event_of(value).text == Some(text) <==> value.find("text"@) == Some(JsonView::Text(text)),
        event_of(value).ts == Some(text) <==> value.find("ts"@) == Some(JsonView::Text(text)),
        event_of(value).thread_ts == Some(text) <==> value.find("thread_ts"@) == Some(
            JsonView::Text(text),
        ),
        event_of(value).bot_id == Some(text) <==> value.find("bot_id"@) == Some(
            JsonView::Text(text),
        ),
        event_of(value).subtype == Some(text) <==> value.find("subtype"@) == Some(
            JsonView::Text(text),
        ),
        value.find("type"@) == Some(JsonView::Text(text)) ==> event_of(value).kind == text,
        !(value.find("type"@) matches Some(JsonView::Text(_))) ==> event_of(value).kind.len() == 0,
{
    reveal_strlit("");
}

/// An event has files exactly where the member of that name is an array, as many
/// as it has elements, each what its element describes, in order.
pub proof fn law_events_hold_their_files(value: JsonView)
    ensures
        event_of(value).files is Some <==> value.find("files"@) matches Some(JsonView::Array(_)),
        value.find("files"@) matches Some(JsonView::Array(items)) ==> {
            &&& event_of(value).files->0.len() == items.len()
            &&& forall|i: int|
                0 <= i < items.len() ==> #[trigger] event_of(value).files->0[i] == file_of(items[i])
        },
{
}

/// What a file is described by: its type and size, where they are given, its
/// name, which is `file` where none is given, and its address, which is the one
/// for downloads where that is given, and else the private one.
pub proof fn law_files_are_described(value: JsonView, text: Seq<char>, size: u64)
    ensures
        value.find("mimetype"@) == Some(JsonView::Text(text)) ==> file_of(value).mimetype == text,
        !(value.find("mimetype"@) matches Some(JsonView::Text(_))) ==> file_of(value).mimetype.len()
            == 0,
        value.find("name"@) == Some(JsonView::Text(text)) ==> file_of(value).name == text,
        !(value.find("name"@) matches Some(JsonView::Text(_))) ==> file_of(value).name == "file"@,
        value.find("size"@) == Some(JsonView::Number(Some(size))) ==> file_of(value).size == size,
        !(value.find("size"@) matches Some(JsonView::Number(Some(_)))) ==> file_of(value).size == 0,
        value.find("url_private_download"@) == Some(JsonView::Text(text)) ==> file_of(value).url
            == text,
        !(value.find("url_private_download"@) matches Some(JsonView::Text(_))) ==> {
            &&& value.find("url_private"@) == Some(JsonView::Text(text)) ==> file_of(value).url
                == text
            &&& !(value.find("url_private"@) matches Some(JsonView::Text(_))) ==> file_of(
                value,
            ).url.len() == 0
        },
{
    reveal_strlit("");
}

/// An envelope that is received is answered exactly where it has an ID, with a
/// text in which Slack reads that ID and nothing else; and its event is delivered.
pub proof fn law_received_envelopes(envelope: EnvelopeView, received: Received, key: Seq<char>)
    requires
        is_received(envelope, received),
    ensures
        received.acknowledgement is Some <==> envelope.envelope_id is Some,
        received.acknowledgement matches Some(text) ==> {
            &&& json_parsed(text@) matches Some(answer)
            &&& answer.find("envelope_id"@) == Some(JsonView::Text(envelope.envelope_id->0))
            &&& key != "envelope_id"@ ==> answer.find(key) is None
        },
        received.delivery@ == delivery_of(envelope.event),
{
    reveal_with_fuel(members_of, 2);
    if let Some(id) = envelope.envelope_id {
        assert(seq![("envelope_id"@, id)].drop_last() =~= Seq::empty());
    }
}

/// What is seen of a file is all that it holds, and each file of a list is seen,
/// in order.
pub proof fn law_files_are_seen(files: Seq<SlackFile>)
    ensures
        files_view(files).len() == files.len(),
        forall|i: int|
            0 <= i < files.len() ==> {
                let file = #[trigger] files_view(files)[i];
                &&& file.mimetype == files[i].mimetype@
                &&& file.name == files[i].name@
                &&& file.size == files[i].size
                &&& file.url == files[i].url@
            },
{
}

/// What is seen of an event is all that it holds.
pub proof fn law_events_are_seen(event: SlackEvent)
    ensures
        event@.kind == event.kind@,
        event@.channel == text_view(event.channel),
        event@.user == text_view(event.user),
        event@.text == text_view(event.text),
        event@.ts == text_view(event.ts),
        event@.thread_ts == text_view(event.thread_ts),
        event@.bot_id == text_view(event.bot_id),
        event@.subtype == text_view(event.subtype),
        event.files matches Some(files) ==> event@.files == Some(files_view(files@)),
        event.files is None ==> event@.files is None,
{
}

/// What is seen of an envelope and of a delivery is all that they hold.
pub proof fn law_deliveries_are_seen(envelope: Envelope, event: SlackEvent)
    ensures
        envelope@.envelope_id == text_view(envelope.envelope_id),
        envelope.event matches Some(inner) ==> envelope@.event == Some(inner@),
        envelope.event is None ==> envelope@.event is None,
        Delivery::Nothing@ == DeliveryView::Nothing,
        Delivery::Mention(event)@ == DeliveryView::Mention(event@),
        Delivery::Message(event)@ == DeliveryView::Message(event@),
{
}

} // verus!
