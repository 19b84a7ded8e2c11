//! What becomes of a message: whether it is handled, and what the agent gets.

use crate::event::{
    files_view, text_or, EventView, FileView, SlackEvent, SlackFile,
};
use crate::json::text_view;
use crate::mrkdwn::{
    law_without_mentions_only_white_space_goes, mention_stripped, strip_slack_mention,
};
use crate::pattern::{applied, Rule};
use crate::refs::{
    copy_text, slack_channel, slack_place, ChannelRef, ChannelView, MessageRef, MessageView,
    SenderContext, SenderView,
};
use crate::text::{
    is_blank, is_white_space, law_trimmed, law_trimming_takes_the_white_space_around, occurs,
    trimmed,
};
use vstd::hash_set::StringHashSet;
use vstd::prelude::*;
use vstd::string::*;

verus! {

/// Who may do something. An empty list lets everyone.
pub struct AllowList {
    ids: StringHashSet,
}

impl View for AllowList {
    type V = Set<Seq<char>>;

    closed spec fn view(&self) -> Set<Seq<char>> {
        self.ids@
    }
}

/// Whether a list lets an ID.
pub open spec fn permits(list: Set<Seq<char>>, id: Seq<char>) -> bool {
    list.is_empty() || list.contains(id)
}

impl AllowList {
    /// The list that lets everyone.
    pub fn new() -> (list: AllowList)
        ensures
            list@ == Set::<Seq<char>>::empty(),
    {
        AllowList { ids: StringHashSet::new() }
    }

    /// Put an ID on the list.
    pub fn allow(&mut self, id: String)
        ensures
            final(self)@ == old(self)@.insert(id@),
    {
        self.ids.insert(id);
    }

    /// Whether the list lets an ID.
    pub fn permits(&self, id: &str) -> (permitted: bool)
        ensures
            permitted == permits(self@, id@),
    {
        self.ids.is_empty() || self.ids.contains(id)
    }
}

/// A message to handle.
pub struct Accepted {
    pub user_id: String,
    pub prompt: String,
    pub files: Vec<SlackFile>,
    pub trigger_msg: MessageRef,
    pub thread_channel: ChannelRef,
}

/// What an `Accepted` holds.
pub struct AcceptedView {
    pub user_id: Seq<char>,
    pub prompt: Seq<char>,
    pub files: Seq<FileView>,
    pub trigger_msg: MessageView,
    pub thread_channel: ChannelView,
}

impl View for Accepted {
    type V = AcceptedView;

    open spec fn view(&self) -> AcceptedView {
        AcceptedView {
            user_id: self.user_id@,
            prompt: self.prompt@,
            files: files_view(self.files@),
            trigger_msg: self.trigger_msg@,
            thread_channel: self.thread_channel@,
        }
    }
}

/// What becomes of a message.
pub enum Incoming {
    /// Nothing.
    Ignored,
    /// Its sender may not talk to the bot: the message gets a reaction.
    Denied { message: MessageRef, emoji: String },
    /// It is handled.
    Handled(Accepted),
}

/// What an `Incoming` holds.
pub enum IncomingView {
    Ignored,
    Denied { message: MessageView, emoji: Seq<char> },
    Handled(AcceptedView),
}

impl View for Incoming {
    type V = IncomingView;

    open spec fn view(&self) -> IncomingView {
        match self {
            Incoming::Ignored => IncomingView::Ignored,
            Incoming::Denied { message, emoji } => IncomingView::Denied {
                message: message@,
                emoji: emoji@,
            },
            Incoming::Handled(accepted) => IncomingView::Handled(accepted@),
        }
    }
}

/// Whether an event has what a message needs: a channel, a user, a text and a
/// timestamp.
pub open spec fn is_message(event: EventView) -> bool {
    event.channel is Some && event.user is Some && event.text is Some && event.ts is Some
}

/// The files of an event.
pub open spec fn files_of(event: EventView) -> Seq<FileView> {
    match event.files {
        Some(files) => files,
        None => Seq::empty(),
    }
}

/// The message that an event tells of, where it stands.
pub open spec fn message_of(event: EventView) -> MessageView {
    MessageView {
        channel: slack_place(event.channel->0, event.thread_ts),
        message_id: event.ts->0,
    }
}

/// The thread in which a message is answered: the one that it stands in, else
/// the one that it starts.
pub open spec fn answer_place(event: EventView) -> ChannelView {
    slack_place(event.channel->0, Some(text_or(event.thread_ts, event.ts->0)))
}

/// What becomes of a message whose prompt is this text. It must come from a
/// channel that the bot listens to; a user who may not talk to the bot gets a
/// reaction; and a message with neither text nor files is nothing.
pub open spec fn admitted(
    event: EventView,
    prompt: Seq<char>,
    channels: Set<Seq<char>>,
    users: Set<Seq<char>>,
) -> IncomingView {
    if !is_message(event) || !permits(channels, event.channel->0) {
        IncomingView::Ignored
    } else if !permits(users, event.user->0) {
        IncomingView::Denied { message: message_of(event), emoji: "🚫"@ }
    } else if prompt.len() == 0 && files_of(event).len() == 0 {
        IncomingView::Ignored
    } else {
        IncomingView::Handled(
            AcceptedView {
                user_id: event.user->0,
                prompt,
                files: files_of(event),
                trigger_msg: message_of(event),
                thread_channel: answer_place(event),
            },
        )
    }
}

/// The prompt of a message: its text without mentions where it mentions the
/// bot, else its text, without the white space around it.
pub open spec fn prompt_of(event: EventView, is_mention: bool) -> Seq<char> {
    if is_mention {
        mention_stripped(text_or(event.text, ""@))
    } else {
        trimmed(text_or(event.text, ""@))
    }
}

/// Decide on a message whose prompt is known.
pub fn admit_message(
    event: SlackEvent,
    prompt: String,
    allowed_channels: &AllowList,
    allowed_users: &AllowList,
) -> (incoming: Incoming)
    ensures
        incoming@ == admitted(event@, prompt@, allowed_channels@, allowed_users@),
{
    if event.text.is_none() {
        return Incoming::Ignored;
    }
    let channel_id = match event.channel {
        Some(channel) => channel,
        None => return Incoming::Ignored,
    };
    let user_id = match event.user {
        Some(user) => user,
        None => return Incoming::Ignored,
    };
    let ts = match event.ts {
        Some(ts) => ts,
        None => return Incoming::Ignored,
    };
    if !allowed_channels.permits(channel_id.as_str()) {
        return Incoming::Ignored;
    }
    let message = MessageRef {
        channel: slack_channel(channel_id.as_str(), copy_text(&event.thread_ts)),
        message_id: ts.clone(),
    };
    if !allowed_users.permits(user_id.as_str()) {
        return Incoming::Denied { message, emoji: "🚫".to_string() };
    }
    let files = match event.files {
        Some(files) => files,
        None => Vec::new(),
    };
    assert(files_view(files@) =~= files_of(event@));
    if prompt.as_str().is_empty() && files.len() == 0 {
        return Incoming::Ignored;
    }
    let thread_ts = match event.thread_ts {
        Some(thread_ts) => thread_ts,
        None => ts,
    };
    Incoming::Handled(
        Accepted {
            user_id,
            prompt,
            files,
            trigger_msg: message,
            thread_channel: slack_channel(channel_id.as_str(), Some(thread_ts)),
        },
    )
}

/// Decide on a message.
pub fn handle_message(
    event: SlackEvent,
    is_mention: bool,
    allowed_channels: &AllowList,
    allowed_users: &AllowList,
) -> (incoming: Incoming)
    ensures
        incoming@ == admitted(
            event@,
            prompt_of(event@, is_mention),
            allowed_channels@,
            allowed_users@,
        ),
{
    let prompt = match &event.text {
        Some(text) => if is_mention {
            strip_slack_mention(text.as_str())
        } else {
            text.as_str().trim().to_string()
        },
        None => return Incoming::Ignored,
    };
    admit_message(event, prompt, allowed_channels, allowed_users)
}

/// What is to be done with a file.
pub enum FileTask {
    /// Nothing: it has no address.
    Skip,
    /// Nothing: it is audio, and speech is not turned into text.
    SkipAudio,
    /// Download and transcribe it.
    Transcribe,
    /// Download it and encode it as an image.
    EncodeImage,
}

/// What is to be done with a file, by whether it is audio and whether speech is
/// turned into text. A file without an address is passed over.
pub open spec fn task_of(file: FileView, is_audio: bool, stt_enabled: bool) -> FileTask {
    if file.url.len() == 0 {
        FileTask::Skip
    } else if !is_audio {
        FileTask::EncodeImage
    } else if stt_enabled {
        FileTask::Transcribe
    } else {
        FileTask::SkipAudio
    }
}

/// Decide on a file.
pub fn file_task(file: &SlackFile, is_audio: bool, stt_enabled: bool) -> (task: FileTask)
    ensures
        task == task_of(file@, is_audio, stt_enabled),
{
    if file.url.as_str().is_empty() {
        FileTask::Skip
    } else if is_audio {
        if stt_enabled {
            FileTask::Transcribe
        } else {
            FileTask::SkipAudio
        }
    } else {
        FileTask::EncodeImage
    }
}

/// What came of a file, with images of any kind.
pub enum Attachment<I> {
    /// What was said in it.
    Transcript(String),
    /// The image that it is.
    Image(I),
}

/// What an `Attachment` holds.
pub enum AttachmentView<I> {
    Transcript(Seq<char>),
    Image(I),
}

impl<I> View for Attachment<I> {
    type V = AttachmentView<I>;

    open spec fn view(&self) -> AttachmentView<I> {
        match self {
            Attachment::Transcript(transcript) => AttachmentView::Transcript(transcript@),
            Attachment::Image(image) => AttachmentView::Image(*image),
        }
    }
}

/// What the agent gets beside the prompt.
pub enum ContentBlock<I> {
    Text { text: String },
    Image(I),
}

/// What a `ContentBlock` holds.
pub enum BlockView<I> {
    Text(Seq<char>),
    Image(I),
}

impl<I> View for ContentBlock<I> {
    type V = BlockView<I>;

    open spec fn view(&self) -> BlockView<I> {
        match self {
            ContentBlock::Text { text } => BlockView::Text(text@),
            ContentBlock::Image(image) => BlockView::Image(*image),
        }
    }
}

/// What a list of blocks holds.
pub open spec fn blocks_view<I>(blocks: Seq<ContentBlock<I>>) -> Seq<BlockView<I>> {
    blocks.map_values(|block: ContentBlock<I>| block@)
}

/// The block that tells what was said.
pub open spec fn transcript_block<I>(transcript: Seq<char>) -> BlockView<I> {
    BlockView::Text("[Voice message transcript]: "@ + transcript)
}

/// The blocks once an attachment has joined them: a transcript comes first, and
/// an image last.
pub open spec fn joined<I>(blocks: Seq<BlockView<I>>, attachment: AttachmentView<I>) -> Seq<
    BlockView<I>,
> {
    match attachment {
        AttachmentView::Transcript(transcript) => seq![transcript_block::<I>(transcript)] + blocks,
        AttachmentView::Image(image) => blocks.push(BlockView::Image(image)),
    }
}

/// Let an attachment join the blocks.
pub fn add_attachment<I>(blocks: &mut Vec<ContentBlock<I>>, attachment: Attachment<I>)
    ensures
        blocks_view(final(blocks)@) == joined(blocks_view(old(blocks)@), attachment@),
{
    match attachment {
        Attachment::Transcript(transcript) => {
            let text = "[Voice message transcript]: ".to_string().concat(transcript.as_str());
            blocks.insert(0, ContentBlock::Text { text });
        },
        Attachment::Image(image) => {
            blocks.push(ContentBlock::Image(image));
        },
    }
    assert(blocks_view(blocks@) =~= joined(blocks_view(old(blocks)@), attachment@));
}

/// The blocks that attachments make, one joining after the other.
pub open spec fn blocks_of<I>(attachments: Seq<AttachmentView<I>>) -> Seq<BlockView<I>>
    decreases attachments.len(),
{
    if attachments.len() == 0 {
        Seq::empty()
    } else {
        joined(blocks_of(attachments.drop_last()), attachments.last())
    }
}

/// What a list of attachments holds.
pub open spec fn attachments_view<I>(attachments: Seq<Attachment<I>>) -> Seq<AttachmentView<I>> {
    attachments.map_values(|attachment: Attachment<I>| attachment@)
}

/// The blocks that attachments make, in the order of the files.
pub fn blocks_from<I>(attachments: Vec<Attachment<I>>) -> (blocks: Vec<ContentBlock<I>>)
    ensures
        blocks_view(blocks@) == blocks_of(attachments_view(attachments@)),
{
    let ghost all = attachments_view(attachments@);
    let mut blocks: Vec<ContentBlock<I>> = Vec::new();
    assert(blocks_view(blocks@) =~= blocks_of(all.take(0)));
    for attachment in it: attachments
        invariant
            it.seq() == attachments@,
            all == attachments_view(attachments@),
            blocks_view(blocks@) == blocks_of(all.take(it.index() as int)),
    {
        proof {
            let done = it.index() as int;
            assert(all.take(done + 1).drop_last() =~= all.take(done));
            assert(all.take(done + 1).last() == attachment@);
        }
        add_attachment(&mut blocks, attachment);
    }
    assert(all.take(all.len() as int) =~= all);
    blocks
}

/// Who sent a message, by the user's ID, the display name where it is known,
/// and the channel.
pub open spec fn sender_of(accepted: AcceptedView, display_name: Option<Seq<char>>) -> SenderView {
    SenderView {
        schema: "openab.sender.v1"@,
        sender_id: accepted.user_id,
        sender_name: text_or(display_name, accepted.user_id),
        display_name: text_or(display_name, accepted.user_id),
        channel: "slack"@,
        channel_id: accepted.trigger_msg.channel.channel_id,
        is_bot: false,
    }
}

/// Who sent a message that is handled.
pub fn sender_context(accepted: &Accepted, display_name: Option<String>) -> (sender: SenderContext)
    ensures
        sender@ == sender_of(accepted@, text_view(display_name)),
{
    let name = match display_name {
        Some(name) => name,
        None => accepted.user_id.clone(),
    };
    SenderContext {
        schema: "openab.sender.v1".to_string(),
        sender_id: accepted.user_id.clone(),
        sender_name: name.clone(),
        display_name: name,
        channel: "slack".to_string(),
        channel_id: accepted.trigger_msg.channel.channel_id.clone(),
        is_bot: false,
    }
}

/// An empty list lets everyone.
pub proof fn law_empty_list_permits_all(id: Seq<char>)
    ensures
        permits(Set::empty(), id),
{
}

/// A list that is not empty lets those who are on it and no others.
pub proof fn law_list_permits_its_members(list: Set<Seq<char>>, member: Seq<char>, id: Seq<char>)
    requires
        list.contains(member),
    ensures
        permits(list, id) <==> list.contains(id),
{
}

/// A user who may not talk to the bot gets a reaction on the message, whatever
/// it says, and nothing else.
pub proof fn law_denied_users_get_a_reaction(
    event: EventView,
    prompt: Seq<char>,
    channels: Set<Seq<char>>,
    users: Set<Seq<char>>,
)
    requires
        is_message(event),
        permits(channels, event.channel->0),
        !permits(users, event.user->0),
    ensures
        admitted(event, prompt, channels, users) == (IncomingView::Denied {
            message: message_of(event),
            emoji: "🚫"@,
        }),
{
}

/// What comes from another channel than the bot listens to is passed over,
/// whoever sent it.
pub proof fn law_other_channels_are_ignored(
    event: EventView,
    prompt: Seq<char>,
    channels: Set<Seq<char>>,
    users: Set<Seq<char>>,
)
    requires
        event.channel is Some,
        !permits(channels, event.channel->0),
    ensures
        admitted(event, prompt, channels, users) == IncomingView::Ignored,
{
}

/// A message that is handled comes from a user and a channel that are let, and
/// is answered in its own channel: in the thread that it stands in, and else in
/// the thread that it starts.
pub proof fn law_handled_messages(
    event: EventView,
    prompt: Seq<char>,
    channels: Set<Seq<char>>,
    users: Set<Seq<char>>,
    accepted: AcceptedView,
)
    requires
        admitted(event, prompt, channels, users) == IncomingView::Handled(accepted),
    ensures
        permits(channels, accepted.thread_channel.channel_id),
        permits(users, accepted.user_id),
        accepted.prompt.len() > 0 || accepted.files.len() > 0,
        accepted.thread_channel.channel_id == accepted.trigger_msg.channel.channel_id,
        accepted.trigger_msg.channel.thread_id is Some ==> accepted.thread_channel.thread_id
            == accepted.trigger_msg.channel.thread_id,
        accepted.trigger_msg.channel.thread_id is None ==> accepted.thread_channel.thread_id
            == Some(accepted.trigger_msg.message_id),
{
}

/// A prompt has no white space at either end.
pub proof fn law_prompts_are_trimmed(event: EventView, is_mention: bool)
    ensures
        prompt_of(event, is_mention).len() > 0 ==> !is_white_space(
            prompt_of(event, is_mention).first(),
        ) && !is_white_space(prompt_of(event, is_mention).last()),
{
    let text = text_or(event.text, ""@);
    law_trimmed(applied(Rule::Mention, text));
    law_trimmed(text);
}

/// The blocks of the transcripts, in the order of the attachments.
pub open spec fn transcript_blocks<I>(attachments: Seq<AttachmentView<I>>) -> Seq<BlockView<I>>
    decreases attachments.len(),
{
    if attachments.len() == 0 {
        Seq::empty()
    } else {
        match attachments.last() {
            AttachmentView::Transcript(transcript) => transcript_blocks(
                attachments.drop_last(),
            ).push(transcript_block(transcript)),
            AttachmentView::Image(_) => transcript_blocks(attachments.drop_last()),
        }
    }
}

/// The blocks of the images, in the order of the attachments.
pub open spec fn image_blocks<I>(attachments: Seq<AttachmentView<I>>) -> Seq<BlockView<I>>
    decreases attachments.len(),
{
    if attachments.len() == 0 {
        Seq::empty()
    } else {
        match attachments.last() {
            AttachmentView::Transcript(_) => image_blocks(attachments.drop_last()),
            AttachmentView::Image(image) => image_blocks(attachments.drop_last()).push(
                BlockView::Image(image),
            ),
        }
    }
}

/// The transcripts come before the images, the latest one first; the images
/// keep the order of the files.
pub proof fn law_transcripts_come_first<I>(attachments: Seq<AttachmentView<I>>)
    ensures
        blocks_of(attachments) == transcript_blocks(attachments).reverse() + image_blocks(
            attachments,
        ),
    decreases attachments.len(),
{
    if attachments.len() > 0 {
        law_transcripts_come_first(attachments.drop_last());
        assert(blocks_of(attachments) =~= transcript_blocks(attachments).reverse() + image_blocks(
            attachments,
        ));
    } else {
        assert(blocks_of(attachments) =~= transcript_blocks(attachments).reverse() + image_blocks(
            attachments,
        ));
    }
}

/// A message that is handled brings all that its event held: the user, all the
/// files in order, whatever the prompt is, the prompt, whatever the files are,
/// and where it stands.
pub proof fn law_handled_messages_are_whole(
    event: EventView,
    prompt: Seq<char>,
    channels: Set<Seq<char>>,
    users: Set<Seq<char>>,
    accepted: AcceptedView,
)
    requires
        admitted(event, prompt, channels, users) == IncomingView::Handled(accepted),
    ensures
        Some(accepted.user_id) == event.user,
        accepted.prompt == prompt,
        event.files matches Some(files) ==> accepted.files == files,
        event.files is None ==> accepted.files.len() == 0,
        Some(accepted.trigger_msg.message_id) == event.ts,
        Some(accepted.trigger_msg.channel.channel_id) == event.channel,
        accepted.trigger_msg.channel.thread_id == event.thread_ts,
        accepted.trigger_msg.channel.platform == "slack"@,
        accepted.trigger_msg.channel.parent_id is None,
        Some(accepted.thread_channel.channel_id) == event.channel,
        accepted.thread_channel.thread_id == if event.thread_ts is Some {
            event.thread_ts
        } else {
            event.ts
        },
        accepted.thread_channel.platform == "slack"@,
        accepted.thread_channel.parent_id is None,
{
}

/// Whether an event tells of a message that someone wrote somewhere: it has a
/// channel, a user, a text and a timestamp.
pub open spec fn tells_of(
    event: EventView,
    channel: Seq<char>,
    user: Seq<char>,
    text: Seq<char>,
    ts: Seq<char>,
) -> bool {
    &&& event.channel == Some(channel)
    &&& event.user == Some(user)
    &&& event.text == Some(text)
    &&& event.ts == Some(ts)
}

/// A message from a user and a channel that are let is handled exactly where it
/// has a prompt or a file. From a channel that is let and a user who is not, it is
/// denied, whatever it holds; from another channel it is ignored.
pub proof fn law_messages_are_admitted(
    event: EventView,
    channel: Seq<char>,
    user: Seq<char>,
    text: Seq<char>,
    ts: Seq<char>,
    prompt: Seq<char>,
    channels: Set<Seq<char>>,
    users: Set<Seq<char>>,
)
    requires
        tells_of(event, channel, user, text, ts),
    ensures
        ({
            let incoming = admitted(event, prompt, channels, users);
            let channel_let = channels == Set::<Seq<char>>::empty() || channels.contains(channel);
            let user_let = users == Set::<Seq<char>>::empty() || users.contains(user);
            let has_file = event.files matches Some(files) && files.len() > 0;
            &&& incoming is Handled <==> channel_let && user_let && (prompt.len() > 0 || has_file)
            &&& incoming is Denied <==> channel_let && !user_let
            &&& incoming is Ignored <==> !channel_let || (user_let && prompt.len() == 0
                && !has_file)
        }),
{
    assert(channels.is_empty() <==> channels =~= Set::<Seq<char>>::empty());
    assert(users.is_empty() <==> users =~= Set::<Seq<char>>::empty());
}

/// An event that lacks the channel, the user, the text or the timestamp is
/// ignored.
pub proof fn law_other_events_are_ignored(
    event: EventView,
    prompt: Seq<char>,
    channels: Set<Seq<char>>,
    users: Set<Seq<char>>,
)
    requires
        event.channel is None || event.user is None || event.text is None || event.ts is None,
    ensures
        admitted(event, prompt, channels, users) == IncomingView::Ignored,
{
}

/// The reaction that a denied user gets is on the message itself, where it
/// stands.
pub proof fn law_denials_are_on_the_message(
    event: EventView,
    prompt: Seq<char>,
    channels: Set<Seq<char>>,
    users: Set<Seq<char>>,
)
    requires
        admitted(event, prompt, channels, users) is Denied,
    ensures
        admitted(event, prompt, channels, users) matches IncomingView::Denied { message, emoji } && {
            &&& emoji == "🚫"@
            &&& Some(message.message_id) == event.ts
            &&& Some(message.channel.channel_id) == event.channel
            &&& message.channel.thread_id == event.thread_ts
            &&& message.channel.platform == "slack"@
            &&& message.channel.parent_id is None
        },
{
}

/// The prompt of a message is the whole of its text between the white space
/// around it; of one that mentions the bot, it is so once the mentions are gone.
pub proof fn law_prompts_are_what_is_said(
    event: EventView,
    before: Seq<char>,
    prompt: Seq<char>,
    behind: Seq<char>,
)
    requires
        event.text is Some,
        is_blank(before),
        is_blank(behind),
        prompt.len() > 0 ==> !is_white_space(prompt.first()) && !is_white_space(prompt.last()),
    ensures
        event.text == Some(before + prompt + behind) ==> prompt_of(event, false) == prompt,
        applied(Rule::Mention, event.text->0) == before + prompt + behind ==> prompt_of(event, true)
            == prompt,
{
    law_trimming_takes_the_white_space_around(before, prompt, behind);
}

/// A message without a mention in its text has the same prompt either way.
pub proof fn law_prompts_agree_without_mentions(event: EventView)
    requires
        event.text matches Some(text) && !occurs(text, seq!['<', '@']),
    ensures
        prompt_of(event, true) == prompt_of(event, false),
{
    law_without_mentions_only_white_space_goes(event.text->0);
}

/// A file with an address is transcribed exactly where it is audio and speech is
/// turned into text, and taken as an image exactly where it is no audio. Nothing
/// else of the file counts.
pub proof fn law_files_are_dealt_with(file: FileView, is_audio: bool, stt_enabled: bool)
    ensures
        task_of(file, is_audio, stt_enabled) is Skip <==> file.url.len() == 0,
        task_of(file, is_audio, stt_enabled) is EncodeImage <==> file.url.len() > 0 && !is_audio,
        task_of(file, is_audio, stt_enabled) is Transcribe <==> file.url.len() > 0 && is_audio
            && stt_enabled,
        task_of(file, is_audio, stt_enabled) is SkipAudio <==> file.url.len() > 0 && is_audio
            && !stt_enabled,
{
}

/// An attachment adds one block and leaves the others as they are: a transcript
/// before them, with what was said behind a note of what it is, and an image
/// behind them.
pub proof fn law_attachments_join<I>(blocks: Seq<BlockView<I>>, transcript: Seq<char>, image: I)
    ensures
        ({
            let told = joined(blocks, AttachmentView::Transcript(transcript));
            &&& told.len() == blocks.len() + 1
            &&& told.first() == BlockView::<I>::Text("[Voice message transcript]: "@ + transcript)
            &&& told.drop_first() == blocks
        }),
        ({
            let shown = joined(blocks, AttachmentView::Image(image));
            &&& shown.len() == blocks.len() + 1
            &&& shown.last() == BlockView::Image(image)
            &&& shown.drop_last() == blocks
        }),
{
    assert(joined(blocks, AttachmentView::Transcript(transcript)).drop_first() =~= blocks);
    assert(joined(blocks, AttachmentView::Image(image)).drop_last() =~= blocks);
}

/// Each attachment makes one block, and each block comes from an attachment.
pub proof fn law_each_attachment_makes_a_block<I>(
    attachments: Seq<AttachmentView<I>>,
    attachment: AttachmentView<I>,
)
    ensures
        blocks_of(attachments).len() == attachments.len(),
        blocks_of(attachments.push(attachment)) == joined(blocks_of(attachments), attachment),
    decreases attachments.len(),
{
    assert(attachments.push(attachment).drop_last() =~= attachments);
    if attachments.len() > 0 {
        law_each_attachment_makes_a_block(attachments.drop_last(), attachments.last());
    }
}

/// A sender goes by the display name where it is known, and else by the user's
/// ID, in both names; the ID and the channel are those of the message.
pub proof fn law_senders_are_named(accepted: AcceptedView, name: Seq<char>)
    ensures
        sender_of(accepted, Some(name)).sender_name == name,
        sender_of(accepted, Some(name)).display_name == name,
        sender_of(accepted, None).sender_name == accepted.user_id,
        sender_of(accepted, None).display_name == accepted.user_id,
        forall|known: Option<Seq<char>>|
            {
                let sender = #[trigger] sender_of(accepted, known);
                &&& sender.schema == "openab.sender.v1"@
                &&& sender.sender_id == accepted.user_id
                &&& sender.channel == "slack"@
                &&& sender.channel_id == accepted.trigger_msg.channel.channel_id
                &&& !sender.is_bot
            },
{
}

/// What is seen of what becomes of a message is all that it holds.
pub proof fn law_decisions_are_seen(accepted: Accepted, message: MessageRef, emoji: String)
    ensures
        accepted@.user_id == accepted.user_id@,
        accepted@.prompt == accepted.prompt@,
        accepted@.files == files_view(accepted.files@),
        accepted@.trigger_msg == accepted.trigger_msg@,
        accepted@.thread_channel == accepted.thread_channel@,
        Incoming::Ignored@ == IncomingView::Ignored,
        (Incoming::Denied { message, emoji })@ == (IncomingView::Denied {
            message: message@,
            emoji: emoji@,
        }),
        Incoming::Handled(accepted)@ == IncomingView::Handled(accepted@),
{
}

/// What is seen of attachments and blocks is all that they hold, in order.
pub proof fn law_blocks_are_seen<I>(
    text: String,
    image: I,
    attachments: Seq<Attachment<I>>,
    blocks: Seq<ContentBlock<I>>,
)
    ensures
        Attachment::<I>::Transcript(text)@ == AttachmentView::<I>::Transcript(text@),
        Attachment::Image(image)@ == AttachmentView::Image(image),
        (ContentBlock::<I>::Text { text })@ == BlockView::<I>::Text(text@),
        ContentBlock::Image(image)@ == BlockView::Image(image),
        attachments_view(attachments).len() == attachments.len(),
        forall|i: int|
            0 <= i < attachments.len() ==> #[trigger] attachments_view(attachments)[i]
                == attachments[i]@,
        blocks_view(blocks).len() == blocks.len(),
        forall|i: int| 0 <= i < blocks.len() ==> #[trigger] blocks_view(blocks)[i] == blocks[i]@,
{
}

} // verus!
