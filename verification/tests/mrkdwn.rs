use slack_adapter::mrkdwn::{markdown_to_mrkdwn, restore_bold, strip_slack_mention};

#[test]
fn plain_text_is_its_own_mrkdwn() {
    assert_eq!(markdown_to_mrkdwn(""), "");
    assert_eq!(markdown_to_mrkdwn("just text, (really) [sic\n\n"), "just text, (really) [sic\n\n");
}

#[test]
fn bold_text_gets_single_stars() {
    assert_eq!(markdown_to_mrkdwn("**bold**"), "*bold*");
    assert_eq!(markdown_to_mrkdwn("a **b c** d"), "a *b c* d");
    assert_eq!(markdown_to_mrkdwn("**a** and **b**"), "*a* and *b*");
    assert_eq!(markdown_to_mrkdwn("1*2 **c**"), "1*2 *c*");
}

#[test]
fn bold_text_does_not_span_lines() {
    // The inner stars are those of italic text, which may span lines.
    assert_eq!(markdown_to_mrkdwn("**a\nb**"), "*_a\nb_*");
}

#[test]
fn bold_text_may_begin_with_a_star() {
    // The bold text of `***x**` is `*x`.
    assert_eq!(markdown_to_mrkdwn("***x**"), "**x*");
    // What stands behind the first closing stars is left alone.
    assert_eq!(markdown_to_mrkdwn("**a***b"), "*a**b");
}

#[test]
fn empty_bold_text_is_none() {
    assert_eq!(markdown_to_mrkdwn("****"), "****");
}

#[test]
fn italic_text_gets_underscores() {
    assert_eq!(markdown_to_mrkdwn("*italic*"), "_italic_");
    assert_eq!(markdown_to_mrkdwn("a *b\nc* d"), "a _b\nc_ d");
    assert_eq!(markdown_to_mrkdwn("*a* *b* *c"), "_a_ _b_ *c");
}

#[test]
fn bold_and_italic_text_live_side_by_side() {
    assert_eq!(markdown_to_mrkdwn("**b** *i* **b**"), "*b* _i_ *b*");
}

#[test]
fn links_are_turned_around() {
    assert_eq!(markdown_to_mrkdwn("[text](url)"), "<url|text>");
    assert_eq!(
        markdown_to_mrkdwn("see [a [b](https://x.y/z) and [c](d)"),
        "see <https://x.y/z|a [b> and <d|c>"
    );
    assert_eq!(markdown_to_mrkdwn("[](url) [text]()"), "[](url) [text]()");
}

#[test]
fn headings_become_bold_lines() {
    assert_eq!(markdown_to_mrkdwn("# heading"), "*heading*");
    assert_eq!(markdown_to_mrkdwn("a\n###### deep\nb"), "a\n*deep*\nb");
    assert_eq!(markdown_to_mrkdwn("# one\n## two"), "*one*\n*two*");
    assert_eq!(markdown_to_mrkdwn("#\u{3000}\n\nlate\n"), "*late*\n");
}

#[test]
fn what_is_no_heading_stays() {
    assert_eq!(markdown_to_mrkdwn("####### seven"), "####### seven");
    assert_eq!(markdown_to_mrkdwn("#nogap"), "#nogap");
    assert_eq!(markdown_to_mrkdwn("a # b"), "a # b");
}

#[test]
fn code_blocks_lose_their_language() {
    assert_eq!(markdown_to_mrkdwn("```rust\nlet x;\n```"), "```\nlet x;\n```");
    assert_eq!(markdown_to_mrkdwn("```\nx\n```\n"), "```\nx\n```\n");
    assert_eq!(
        markdown_to_mrkdwn("a\n```py_3\nx\n```\n```c\ny\n```"),
        "a\n```\nx\n```\n```\ny\n```"
    );
}

#[test]
fn characters_that_stand_for_stars_become_stars() {
    assert_eq!(restore_bold("\x01bold\x02 \x02"), "*bold* *");
    assert_eq!(restore_bold("é*😊"), "é*😊");
    assert_eq!(markdown_to_mrkdwn("a\x01b"), "a*b");
}

#[test]
fn mentions_are_stripped() {
    assert_eq!(strip_slack_mention("<@U123> hello"), "hello");
    assert_eq!(strip_slack_mention("hi <@U123>, and <@W9> too "), "hi , and  too");
    assert_eq!(strip_slack_mention("<@U1>"), "");
}

#[test]
fn what_is_no_mention_stays() {
    assert_eq!(strip_slack_mention(" <@u123> <@> <#C1> "), "<@u123> <@> <#C1>");
    assert_eq!(strip_slack_mention("plain"), "plain");
}

#[test]
fn a_mention_within_a_mention_goes_alone() {
    assert_eq!(strip_slack_mention("<@<@U1>U2>"), "<@U2>");
    assert_eq!(strip_slack_mention("<<@U1>"), "<");
}

#[test]
fn all_white_space_is_trimmed() {
    let spaces = "\t\n\u{b}\u{c}\r \u{85}\u{a0}\u{1680}\u{2000}\u{2005}\u{200a}\u{2028}\u{2029}\u{202f}\u{205f}\u{3000}";
    assert_eq!(strip_slack_mention(&format!("{spaces}a b{spaces}")), "a b");
    assert_eq!(strip_slack_mention(spaces), "");
    assert_eq!(strip_slack_mention("\u{200b}a\u{feff}"), "\u{200b}a\u{feff}");
}

#[test]
fn a_document_is_converted_segment_by_segment() {
    assert_eq!(
        markdown_to_mrkdwn(
            "# Title\nSome **bold** and *italic* text, **again**, see [here](https://a.b/c?d=e_f).\n\n## More\n```rust\nlet x = 1;\n```\nand ```c\n```\n"
        ),
        "*Title*\nSome *bold* and _italic_ text, *again*, see <https://a.b/c?d=e_f|here>.\n\n*More*\n```\nlet x = 1;\n```\nand ```\n```\n"
    );
}

#[test]
fn segments_may_hold_others() {
    assert_eq!(markdown_to_mrkdwn("**a *b* c**"), "*a _b_ c*");
    assert_eq!(markdown_to_mrkdwn("*a **b** c*"), "_a *b* c_");
    assert_eq!(markdown_to_mrkdwn("*a **b***"), "_a *b*_");
    assert_eq!(markdown_to_mrkdwn("**[a](b)** [**c** *d*](e#f)"), "*<b|a>* <e#f|*c* _d_>");
    assert_eq!(markdown_to_mrkdwn("# A **b** [c](d)"), "*A *b* <d|c>*");
    assert_eq!(markdown_to_mrkdwn("**`x`** [`y`](z)"), "*`x`* <z|`y`>");
}

#[test]
fn what_begins_no_markup_stays() {
    let text = "a[0], [1] and ] in C#\n#12 `x` ```y``` ``";
    assert_eq!(markdown_to_mrkdwn(text), text);
    assert_eq!(markdown_to_mrkdwn("```rs\nx[0];\n```"), "```\nx[0];\n```");
}

#[test]
fn code_is_converted_like_other_text() {
    assert_eq!(markdown_to_mrkdwn("```c\na * b * c\n# d\n```"), "```\na _ b _ c\n*d*\n```");
}

#[test]
fn a_heading_may_be_made_of_white_space() {
    assert_eq!(markdown_to_mrkdwn("# \t"), "*\t*");
    assert_eq!(markdown_to_mrkdwn("#\n\na"), "*a*");
    assert_eq!(markdown_to_mrkdwn("# \nb"), "*b*");
    assert_eq!(markdown_to_mrkdwn("# "), "# ");
}

#[test]
fn no_text_gets_longer_and_nothing_is_left_over() {
    let parts = ["**", "*", "é", "\n", "[a](", ")", "# ", "```", "rs\n", "\x01", "<@U1>", "語\n"];
    let mut tried = 0;
    for a in parts {
        for b in parts {
            for c in ["x", "*", "**", "rs\n"] {
                let text = format!("{a}{b}{c}{a}");
                let mrkdwn = markdown_to_mrkdwn(&text);
                assert!(mrkdwn.len() <= text.len(), "of {text:?}");
                assert!(mrkdwn.chars().count() <= text.chars().count(), "of {text:?}");
                assert!(!mrkdwn.contains(['\x01', '\x02']), "of {text:?}");
                assert!(!mrkdwn.contains("```rs\n") && !mrkdwn.contains("```語\n"), "of {text:?}");
                tried += 1;
            }
        }
    }
    assert_eq!(tried, 576);
}

#[test]
fn mentions_that_are_none_stand_beside_those_that_are() {
    assert_eq!(strip_slack_mention("a <@U1> <@u2> b"), "a  <@u2> b");
    assert_eq!(strip_slack_mention("<@U1|bob> <@U2>"), "<@U1|bob>");
    assert_eq!(strip_slack_mention("<@<@U1>"), "<@");
}

#[test]
fn padding_goes() {
    for text in ["", "a b", "<@", "<@U", "x <@u1> y", "<", "@U1>"] {
        let alone = strip_slack_mention(text);
        for padding in ["", " ", "<@U1>", "\n<@U1> <@W2>\t", " <@A><@B>"] {
            assert_eq!(strip_slack_mention(&format!("{padding}{text}{padding}")), alone);
            assert_eq!(strip_slack_mention(&format!("{padding} {text} {padding}")), alone);
            assert_eq!(strip_slack_mention(padding), "");
        }
    }
}
