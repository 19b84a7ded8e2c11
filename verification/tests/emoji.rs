use slack_adapter::emoji::unicode_to_slack_emoji;

#[test]
fn every_named_reaction_has_its_short_name() {
    let table = [
        ("👀", "eyes"),
        ("🤔", "thinking_face"),
        ("🔥", "fire"),
        ("👨\u{200d}💻", "technologist"),
        ("⚡", "zap"),
        ("🆗", "ok"),
        ("😱", "scream"),
        ("🚫", "no_entry_sign"),
        ("😊", "blush"),
        ("😎", "sunglasses"),
        ("🫡", "saluting_face"),
        ("🤓", "nerd_face"),
        ("😏", "smirk"),
        ("✌\u{fe0f}", "v"),
        ("💪", "muscle"),
        ("🦾", "mechanical_arm"),
        ("🥱", "yawning_face"),
        ("😨", "fearful"),
        ("✅", "white_check_mark"),
        ("❌", "x"),
        ("🔧", "wrench"),
    ];
    for (unicode, name) in table {
        assert_eq!(unicode_to_slack_emoji(unicode), name);
    }
}

#[test]
fn other_reactions_are_grey_question() {
    assert_eq!(unicode_to_slack_emoji("🐙"), "grey_question");
    assert_eq!(unicode_to_slack_emoji(""), "grey_question");
    assert_eq!(unicode_to_slack_emoji("✌"), "grey_question");
    assert_eq!(unicode_to_slack_emoji("👨"), "grey_question");
    assert_eq!(unicode_to_slack_emoji("👀👀"), "grey_question");
}
