use slack_adapter::event::{SlackEvent, SlackFile};
use slack_adapter::message::{
    add_attachment, admit_message, blocks_from, file_task, handle_message, sender_context,
    Accepted, AllowList, Attachment, ContentBlock, FileTask, Incoming,
};

fn some(text: &str) -> Option<String> {
    Some(text.to_string())
}

fn event(text: &str) -> SlackEvent {
    SlackEvent {
        kind: "message".to_string(),
        channel: some("C1"),
        user: some("U1"),
        text: some(text),
        ts: some("5.5"),
        thread_ts: None,
        bot_id: None,
        subtype: None,
        files: None,
    }
}

fn file(url: &str) -> SlackFile {
    SlackFile {
        mimetype: "image/png".to_string(),
        name: "f".to_string(),
        size: 3,
        url: url.to_string(),
    }
}

fn list(ids: &[&str]) -> AllowList {
    let mut list = AllowList::new();
    for id in ids {
        list.allow(id.to_string());
    }
    list
}

fn handled(incoming: Incoming) -> Accepted {
    match incoming {
        Incoming::Handled(accepted) => accepted,
        Incoming::Ignored => panic!("ignored"),
        Incoming::Denied { .. } => panic!("denied"),
    }
}

#[test]
fn an_empty_list_lets_everyone() {
    assert!(list(&[]).permits("anyone"));
    assert!(list(&[]).permits(""));
}

#[test]
fn a_list_lets_its_members_only() {
    assert!(list(&["a", "b"]).permits("b"));
    assert!(!list(&["a", "b"]).permits("c"));
}

#[test]
fn a_message_starts_a_thread() {
    let accepted = handled(handle_message(event("  hi "), false, &list(&[]), &list(&[])));
    assert_eq!(accepted.user_id, "U1");
    assert_eq!(accepted.prompt, "hi");
    assert!(accepted.files.is_empty());
    assert_eq!(accepted.trigger_msg.message_id, "5.5");
    assert_eq!(accepted.trigger_msg.channel.platform, "slack");
    assert_eq!(accepted.trigger_msg.channel.channel_id, "C1");
    assert_eq!(accepted.trigger_msg.channel.thread_id, None);
    assert_eq!(accepted.thread_channel.platform, "slack");
    assert_eq!(accepted.thread_channel.channel_id, "C1");
    assert_eq!(accepted.thread_channel.thread_id, some("5.5"));
    assert_eq!(accepted.thread_channel.parent_id, None);
}

#[test]
fn a_message_in_a_thread_continues_it() {
    let mut in_thread = event("hi");
    in_thread.thread_ts = some("4.4");
    let accepted = handled(handle_message(in_thread, false, &list(&["C1"]), &list(&["U1"])));
    assert_eq!(accepted.trigger_msg.channel.thread_id, some("4.4"));
    assert_eq!(accepted.thread_channel.thread_id, some("4.4"));
}

#[test]
fn mentions_are_taken_out_of_mentions_only() {
    let mention = handled(handle_message(event("<@U9> go"), true, &list(&[]), &list(&[])));
    assert_eq!(mention.prompt, "go");
    let message = handled(handle_message(event("<@U9> go"), false, &list(&[]), &list(&[])));
    assert_eq!(message.prompt, "<@U9> go");
}

#[test]
fn other_channels_are_passed_over() {
    let incoming = handle_message(event("hi"), false, &list(&["C2"]), &list(&["U2"]));
    assert!(matches!(incoming, Incoming::Ignored));
}

#[test]
fn a_user_who_is_not_let_gets_a_reaction() {
    let mut empty = event(" ");
    empty.thread_ts = some("4.4");
    for denied in [event("hi"), empty] {
        let thread_ts = denied.thread_ts.clone();
        match handle_message(denied, true, &list(&["C1"]), &list(&["U2"])) {
            Incoming::Denied { message, emoji } => {
                assert_eq!(emoji, "🚫");
                assert_eq!(message.message_id, "5.5");
                assert_eq!(message.channel.channel_id, "C1");
                assert_eq!(message.channel.thread_id, thread_ts);
            }
            _ => panic!("not denied"),
        }
    }
}

#[test]
fn an_event_that_is_no_message_is_passed_over() {
    for missing in 0..4 {
        let mut partial = event("hi");
        match missing {
            0 => partial.channel = None,
            1 => partial.user = None,
            2 => partial.text = None,
            _ => partial.ts = None,
        }
        let incoming = handle_message(partial, false, &list(&[]), &list(&["U2"]));
        assert!(matches!(incoming, Incoming::Ignored));
    }
}

#[test]
fn an_empty_message_is_passed_over() {
    let bare = handle_message(event("<@U9> "), true, &list(&[]), &list(&[]));
    assert!(matches!(bare, Incoming::Ignored));
    let mut no_files = event("");
    no_files.files = Some(vec![]);
    assert!(matches!(handle_message(no_files, false, &list(&[]), &list(&[])), Incoming::Ignored));
}

#[test]
fn files_alone_make_a_message() {
    let mut with_file = event("");
    with_file.files = Some(vec![file("u"), file("")]);
    let accepted = handled(handle_message(with_file, false, &list(&[]), &list(&[])));
    assert_eq!(accepted.prompt, "");
    assert_eq!(accepted.files.len(), 2);
    assert_eq!(accepted.files[0].url, "u");
}

#[test]
fn a_known_prompt_is_taken_as_it_is() {
    let accepted =
        handled(admit_message(event("x"), " p ".to_string(), &list(&[]), &list(&[])));
    assert_eq!(accepted.prompt, " p ");
}

#[test]
fn a_file_is_dealt_with_by_its_kind() {
    assert!(matches!(file_task(&file("u"), false, false), FileTask::EncodeImage));
    assert!(matches!(file_task(&file("u"), false, true), FileTask::EncodeImage));
    assert!(matches!(file_task(&file("u"), true, true), FileTask::Transcribe));
    assert!(matches!(file_task(&file("u"), true, false), FileTask::SkipAudio));
    assert!(matches!(file_task(&file(""), false, true), FileTask::Skip));
    assert!(matches!(file_task(&file(""), true, true), FileTask::Skip));
}

#[test]
fn transcripts_come_before_images() {
    let mut blocks: Vec<ContentBlock<u8>> = Vec::new();
    add_attachment(&mut blocks, Attachment::Image(1));
    add_attachment(&mut blocks, Attachment::Transcript("one".to_string()));
    add_attachment(&mut blocks, Attachment::Image(2));
    add_attachment(&mut blocks, Attachment::Transcript("two".to_string()));
    assert_eq!(blocks.len(), 4);
    assert!(matches!(&blocks[0], ContentBlock::Text { text } if text == "[Voice message transcript]: two"));
    assert!(matches!(&blocks[1], ContentBlock::Text { text } if text == "[Voice message transcript]: one"));
    assert!(matches!(blocks[2], ContentBlock::Image(1)));
    assert!(matches!(blocks[3], ContentBlock::Image(2)));
}

#[test]
fn blocks_are_made_from_all_attachments() {
    let blocks = blocks_from(vec![
        Attachment::Transcript("one".to_string()),
        Attachment::Image(1),
        Attachment::Transcript("two".to_string()),
        Attachment::Image(2),
    ]);
    assert_eq!(blocks.len(), 4);
    assert!(matches!(&blocks[0], ContentBlock::Text { text } if text == "[Voice message transcript]: two"));
    assert!(matches!(&blocks[1], ContentBlock::Text { text } if text == "[Voice message transcript]: one"));
    assert!(matches!(blocks[2], ContentBlock::Image(1)));
    assert!(matches!(blocks[3], ContentBlock::Image(2)));
    assert!(blocks_from::<u8>(Vec::new()).is_empty());
}

#[test]
fn the_sender_goes_by_the_display_name() {
    let accepted = handled(handle_message(event("hi"), false, &list(&[]), &list(&[])));
    let sender = sender_context(&accepted, some("Ann"));
    assert_eq!(sender.schema, "openab.sender.v1");
    assert_eq!(sender.sender_id, "U1");
    assert_eq!(sender.sender_name, "Ann");
    assert_eq!(sender.display_name, "Ann");
    assert_eq!(sender.channel, "slack");
    assert_eq!(sender.channel_id, "C1");
    assert!(!sender.is_bot);
    let unnamed = sender_context(&accepted, None);
    assert_eq!(unnamed.sender_name, "U1");
    assert_eq!(unnamed.display_name, "U1");
}
