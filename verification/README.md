# slack_adapter

An adapter between Slack and chat agents, over Socket Mode. What it decides is
verified with Verus; the program around it does the I/O.

- `src/session.rs`: when to connect, what to answer, and when to stop.
- `src/event.rs`: envelopes, events and files, and which of them to handle.
- `src/message.rs`: whether a message is handled, and what the agent gets.
- `src/adapter.rs`: what the adapter remembers, its requests, and the replies.
- `src/api.rs`, `src/error.rs`: calls of the Web API and what can go wrong.
- `src/pattern.rs`: the patterns of Markdown and mentions, and what they match.
- `src/mrkdwn.rs`, `src/document.rs`, `src/rewrite.rs`: Markdown to mrkdwn, what
  becomes of a document segment by segment, and what holds of every text.
- `src/emoji.rs`: the short names of reactions.
- `src/json.rs`, `src/text.rs`: `serde_json` values and strings. With
  `src/pattern.rs` these hold all that is trusted of other crates.
- `app/`: HTTP, the WebSocket and the clock.
