//! Markdown to Slack's mrkdwn, and the removal of mentions.

use crate::pattern::{
    applied, bold_at, code_block_at, heading_at, italic_at, lemma_gap,
    lemma_line_start_is_for_headings, lemma_match_bounds, lemma_replaced_match, lemma_run_end,
    lemma_run_is, line_after, link_at, match_at, mention_at, pattern_of, replace_all, run_end,
    stands_at, Class, Rule, BOLD, CODE_BLOCK_LANG, HEADING, ITALIC, LINK, MENTION,
};
use crate::rewrite::{
    law_no_language_is_left, law_rules_do_not_lengthen, law_rules_write_their_own,
    lemma_size_mapped, names_language, size,
};
use crate::text::{
    is_blank, is_white_space, lacks, law_trimming_takes_the_white_space_around, lemma_trim_before,
    lemma_trim_behind, occurs, trimmed,
};
use vstd::prelude::*;
use vstd::string::*;

verus! {

/// What brings back the stars of bold text: the characters that stand for them
/// while the italic text is looked for are stars again.
pub open spec fn restored(text: Seq<char>) -> Seq<char> {
    text.map_values(|c: char| if c == '\x01' || c == '\x02' { '*' } else { c })
}

/// `text` with a star for each character that stands for one.
pub fn restore_bold(text: &str) -> (restored_text: String)
    ensures
        restored_text@ == restored(text@),
{
    let mut out = String::new();
    for c in it: text.chars()
        invariant
            it.seq() == text@,
            out@ == restored(text@.take(it.index() as int)),
    {
        proof {
            let done = text@.take(it.index() as int);
            assert(text@.take(it.index() + 1) =~= done.push(c));
            assert(restored(done.push(c)) =~= restored(done).push(
                if c == '\x01' || c == '\x02' {
                    '*'
                } else {
                    c
                },
            ));
        }
        if c == '\x01' || c == '\x02' {
            out.push('*');
        } else {
            out.push(c);
        }
    }
    assert(text@.take(text@.len() as int) =~= text@);
    out
}

/// A text from which every mention is taken, and the white space around it.
pub open spec fn mention_stripped(text: Seq<char>) -> Seq<char> {
    trimmed(applied(Rule::Mention, text))
}

/// Take the mentions out of a message, and the white space around what is left.
pub fn strip_slack_mention(text: &str) -> (stripped: String)
    ensures
        stripped@ == mention_stripped(text@),
{
    proof {
        assert(pattern_of(Rule::Mention) == MENTION@);
    }
    replace_all(MENTION, text, "").trim().to_string()
}

/// The text with bold text, italic text, links, headings and the languages of
/// code blocks put into mrkdwn, one after the other.
pub open spec fn mrkdwn_of(text: Seq<char>) -> Seq<char> {
    applied(
        Rule::CodeBlock,
        applied(
            Rule::Heading,
            applied(Rule::Link, restored(applied(Rule::Italic, applied(Rule::Bold, text)))),
        ),
    )
}

/// Convert Markdown to Slack's mrkdwn.
pub fn markdown_to_mrkdwn(text: &str) -> (mrkdwn: String)
    ensures
        mrkdwn@ == mrkdwn_of(text@),
{
    proof {
        assert(pattern_of(Rule::Bold) == BOLD@);
        assert(pattern_of(Rule::Italic) == ITALIC@);
        assert(pattern_of(Rule::Link) == LINK@);
        assert(pattern_of(Rule::Heading) == HEADING@);
        assert(pattern_of(Rule::CodeBlock) == CODE_BLOCK_LANG@);
    }
    let bold_marked = replace_all(BOLD, text, "\x01$1\x02");
    let italic_done = replace_all(ITALIC, bold_marked.as_str(), "_${1}_");
    let bold_done = restore_bold(italic_done.as_str());
    let links_done = replace_all(LINK, bold_done.as_str(), "<$2|$1>");
    let headings_done = replace_all(HEADING, links_done.as_str(), "*$1*");
    replace_all(CODE_BLOCK_LANG, headings_done.as_str(), "```\n")
}

/// The conversion makes no text longer, in characters or in bytes, so that what
/// the platform takes as Markdown it takes as mrkdwn.
pub proof fn law_conversion_does_not_lengthen(text: Seq<char>, in_bytes: bool)
    ensures
        size(mrkdwn_of(text), in_bytes) <= size(text, in_bytes),
{
    let marked = applied(Rule::Bold, text);
    let slanted = applied(Rule::Italic, marked);
    let linked = applied(Rule::Link, restored(slanted));
    let headed = applied(Rule::Heading, linked);
    law_rules_do_not_lengthen(Rule::Bold, true, text, in_bytes);
    law_rules_do_not_lengthen(Rule::Italic, true, marked, in_bytes);
    lemma_size_mapped(slanted, restored(slanted), in_bytes);
    law_rules_do_not_lengthen(Rule::Link, true, restored(slanted), in_bytes);
    law_rules_do_not_lengthen(Rule::Heading, true, linked, in_bytes);
    law_rules_do_not_lengthen(Rule::CodeBlock, true, headed, in_bytes);
}

/// No character that stands for a star of bold text is left, even where the text
/// held one.
pub proof fn law_no_placeholder_is_left(text: Seq<char>)
    ensures
        lacks(mrkdwn_of(text), '\x01'),
        lacks(mrkdwn_of(text), '\x02'),
{
    let bold_done = restored(applied(Rule::Italic, applied(Rule::Bold, text)));
    let linked = applied(Rule::Link, bold_done);
    let headed = applied(Rule::Heading, linked);
    law_rules_write_their_own(Rule::Link, true, bold_done, '\x01');
    law_rules_write_their_own(Rule::Heading, true, linked, '\x01');
    law_rules_write_their_own(Rule::CodeBlock, true, headed, '\x01');
    law_rules_write_their_own(Rule::Link, true, bold_done, '\x02');
    law_rules_write_their_own(Rule::Heading, true, linked, '\x02');
    law_rules_write_their_own(Rule::CodeBlock, true, headed, '\x02');
}

/// No code block names its language once a text is converted.
pub proof fn law_no_code_block_names_its_language(text: Seq<char>)
    ensures
        !names_language(mrkdwn_of(text)),
{
    let linked = applied(Rule::Link, restored(applied(Rule::Italic, applied(Rule::Bold, text))));
    law_no_language_is_left(true, applied(Rule::Heading, linked));
}

/// A text without `<@` only loses the white space around it.
pub proof fn law_without_mentions_only_white_space_goes(text: Seq<char>)
    requires
        !occurs(text, seq!['<', '@']),
    ensures
        mention_stripped(text) == trimmed(text),
{
    lemma_without_mentions(text);
}

/// Whether a text is made of white space and mentions.
pub open spec fn is_padding(s: Seq<char>) -> bool
    decreases s.len(),
{
    if s.len() == 0 {
        true
    } else if is_white_space(s[0]) {
        is_padding(s.skip(1))
    } else {
        match mention_at(s) {
            Some(found) => 0 < found.end <= s.len() && is_padding(s.skip(found.end)),
            None => false,
        }
    }
}

/// A mention is known by its characters, whatever follows.
proof fn lemma_mention_prefix(s: Seq<char>, behind: Seq<char>)
    requires
        mention_at(s) is Some,
    ensures
        mention_at(s + behind) == mention_at(s),
{
    let end = run_end(s, 2, Class::Id);
    lemma_run_end(s, 2, Class::Id);
    lemma_run_is(s + behind, 2, Class::Id, end);
}

/// No mention goes over the start of white space or of another one.
proof fn lemma_mention_ends_before(s: Seq<char>, behind: Seq<char>)
    requires
        s.len() > 0,
        behind.len() > 0 ==> is_white_space(behind[0]) || behind[0] == '<',
    ensures
        mention_at(s + behind) == mention_at(s),
{
    let all = s + behind;
    let end = run_end(s, 2, Class::Id);
    lemma_run_end(s, 2, Class::Id);
    if stands_at(s, 0, '<') && stands_at(s, 1, '@') {
        lemma_run_is(all, 2, Class::Id, end);
    }
}

/// Mentions are taken from a text and from the padding behind it, each on its
/// own.
proof fn lemma_mentions_split(s: Seq<char>, behind: Seq<char>)
    requires
        behind.len() > 0 ==> is_white_space(behind[0]) || behind[0] == '<',
    ensures
        applied(Rule::Mention, s + behind) == applied(Rule::Mention, s) + applied(
            Rule::Mention,
            behind,
        ),
    decreases s.len(),
{
    let done = applied(Rule::Mention, behind);
    if s.len() == 0 {
        assert(s + behind =~= behind);
        assert(applied(Rule::Mention, s) + done =~= done);
    } else {
        lemma_mention_ends_before(s, behind);
        lemma_match_bounds(Rule::Mention, true, s);
        match mention_at(s) {
            Some(found) => {
                lemma_mentions_split(s.skip(found.end), behind);
                assert((s + behind).skip(found.end) =~= s.skip(found.end) + behind);
                lemma_line_start_is_for_headings(Rule::Mention, s.skip(found.end));
                lemma_line_start_is_for_headings(Rule::Mention, s.skip(found.end) + behind);
            },
            None => {
                lemma_mentions_split(s.skip(1), behind);
                assert((s + behind).skip(1) =~= s.skip(1) + behind);
                lemma_line_start_is_for_headings(Rule::Mention, s.skip(1));
                lemma_line_start_is_for_headings(Rule::Mention, s.skip(1) + behind);
            },
        }
        assert(applied(Rule::Mention, s + behind) =~= applied(Rule::Mention, s) + done);
    }
}

/// Of white space and mentions before a text, white space is left.
proof fn lemma_padding(padding: Seq<char>, behind: Seq<char>) -> (blank: Seq<char>)
    requires
        is_padding(padding),
    ensures
        is_blank(blank),
        applied(Rule::Mention, padding + behind) == blank + applied(Rule::Mention, behind),
    decreases padding.len(),
{
    let all = padding + behind;
    if padding.len() == 0 {
        assert(all =~= behind);
        assert(Seq::<char>::empty() + applied(Rule::Mention, behind) =~= applied(
            Rule::Mention,
            behind,
        ));
        Seq::empty()
    } else if is_white_space(padding[0]) {
        let blank = lemma_padding(padding.skip(1), behind);
        assert(all.skip(1) =~= padding.skip(1) + behind);
        assert(all[0] == padding[0]);
        lemma_line_start_is_for_headings(Rule::Mention, all.skip(1));
        assert(applied(Rule::Mention, all) =~= seq![padding[0]] + blank + applied(
            Rule::Mention,
            behind,
        ));
        seq![padding[0]] + blank
    } else {
        let found = mention_at(padding)->0;
        lemma_mention_prefix(padding, behind);
        let blank = lemma_padding(padding.skip(found.end), behind);
        assert(all.skip(found.end) =~= padding.skip(found.end) + behind);
        lemma_line_start_is_for_headings(Rule::Mention, all.skip(found.end));
        assert(applied(Rule::Mention, all) =~= blank + applied(Rule::Mention, behind));
        blank
    }
}

/// Mentions and white space around a text do not change what is left of it.
pub proof fn law_padding_goes(before: Seq<char>, text: Seq<char>, behind: Seq<char>)
    requires
        is_padding(before),
        is_padding(behind),
    ensures
        mention_stripped(before + text + behind) == mention_stripped(text),
        mention_stripped(before).len() == 0,
{
    let none = Seq::<char>::empty();
    let first = lemma_padding(before, text + behind);
    let last = lemma_padding(behind, none);
    let alone = lemma_padding(before, none);
    let left = applied(Rule::Mention, text);
    assert(before + text + behind =~= before + (text + behind));
    assert(behind + none =~= behind && before + none =~= before);
    lemma_mentions_split(text, behind);
    assert(last + applied(Rule::Mention, none) =~= last);
    assert(alone + applied(Rule::Mention, none) =~= alone);
    lemma_trim_before(first, left + last);
    lemma_trim_behind(left, last);
    lemma_trim_before(alone, none);
    assert(alone + none =~= alone);
}

/// To restore bold text changes the characters that stand for its stars, each
/// into a star, and no other character, nor where one stands.
pub proof fn law_restoring_changes_placeholders_only(text: Seq<char>, i: int)
    requires
        0 <= i < text.len(),
    ensures
        restored(text).len() == text.len(),
        text[i] != '\x01' && text[i] != '\x02' ==> restored(text)[i] == text[i],
        text[i] == '\x01' || text[i] == '\x02' ==> restored(text)[i] == '*',
{
}

/// To restore a text is to restore its parts, and to do it once is enough.
pub proof fn law_restoring_goes_part_by_part(a: Seq<char>, b: Seq<char>)
    ensures
        restored(a + b) == restored(a) + restored(b),
        restored(restored(a)) == restored(a),
        restored(a).len() == a.len(),
{
    assert(restored(a + b) =~= restored(a) + restored(b));
    assert(restored(restored(a)) =~= restored(a));
}

/// Whether no markup of a rule begins anywhere in a text.
pub open spec fn is_free_of(rule: Rule, text: Seq<char>) -> bool {
    forall|i: int|
        0 <= i < text.len() ==> match_at(
            rule,
            i == 0 || text[i - 1] == '\n',
            #[trigger] text.skip(i),
        ) is None
}

/// A rule leaves a text as it is that is free of its markup.
proof fn lemma_free_text_stays(rule: Rule, text: Seq<char>)
    requires
        is_free_of(rule, text),
    ensures
        applied(rule, text) == text,
{
    let none = Seq::<char>::empty();
    assert forall|i: int| 0 <= i < text.len() implies match_at(
        rule,
        line_after(true, text.take(i)),
        #[trigger] text.skip(i) + none,
    ) is None by {
        assert(text.skip(i) + none =~= text.skip(i));
        if i > 0 {
            assert(text.take(i).last() == text[i - 1]);
        }
    }
    lemma_gap(rule, true, text, none);
    assert(text + none =~= text);
}

/// A text in which no markup begins and that holds no character that stands for a
/// star is its own mrkdwn, with stars or without.
pub proof fn law_text_without_markup_stays(text: Seq<char>)
    requires
        is_free_of(Rule::Bold, text),
        is_free_of(Rule::Italic, text),
        is_free_of(Rule::Link, text),
        is_free_of(Rule::Heading, text),
        is_free_of(Rule::CodeBlock, text),
        lacks(text, '\x01'),
        lacks(text, '\x02'),
    ensures
        mrkdwn_of(text) == text,
{
    lemma_free_text_stays(Rule::Bold, text);
    lemma_free_text_stays(Rule::Italic, text);
    lemma_free_text_stays(Rule::Link, text);
    lemma_free_text_stays(Rule::Heading, text);
    lemma_free_text_stays(Rule::CodeBlock, text);
    assert(restored(text) =~= text);
}

/// A text with at most one star keeps it, where nothing else in it is markup.
pub proof fn law_a_lone_star_stays(before: Seq<char>, behind: Seq<char>)
    requires
        lacks(before, '*') && lacks(before, '[') && lacks(before, '#') && lacks(before, '`'),
        lacks(behind, '*') && lacks(behind, '[') && lacks(behind, '#') && lacks(behind, '`'),
        lacks(before, '\x01') && lacks(before, '\x02'),
        lacks(behind, '\x01') && lacks(behind, '\x02'),
    ensures
        mrkdwn_of(before + seq!['*'] + behind) == before + seq!['*'] + behind,
        mrkdwn_of(before) == before,
{
    lemma_few_stars(before + seq!['*'] + behind, before.len() as int);
    lemma_few_stars(before, -1);
    law_text_without_markup_stays(before + seq!['*'] + behind);
    law_text_without_markup_stays(before);
}

/// A text with no star but at one place, and without other characters of markup,
/// is free of markup.
proof fn lemma_few_stars(text: Seq<char>, star: int)
    requires
        lacks(text, '['),
        lacks(text, '#'),
        lacks(text, '`'),
        forall|i: int| 0 <= i < text.len() && i != star ==> #[trigger] text[i] != '*',
    ensures
        is_free_of(Rule::Bold, text),
        is_free_of(Rule::Italic, text),
        is_free_of(Rule::Link, text),
        is_free_of(Rule::Heading, text),
        is_free_of(Rule::CodeBlock, text),
{
    assert forall|i: int| 0 <= i < text.len() implies {
        let here = #[trigger] text.skip(i);
        &&& bold_at(here) is None
        &&& italic_at(here) is None
        &&& link_at(here) is None
        &&& heading_at(here) is None
        &&& code_block_at(here) is None
    } by {
        let here = text.skip(i);
        assert(here[0] == text[i]);
        let end = run_end(here, 1, Class::Except('*'));
        lemma_run_end(here, 1, Class::Except('*'));
        if i == star && stands_at(here, end, '*') {
            assert(here[end] == text[i + end]);
        }
        if i == star && here.len() > 1 {
            assert(here[1] == text[i + 1]);
        }
    }
}

/// How a text is converted, step by step: bold text is marked, then italic text
/// is found, then each mark becomes a star and nothing else changes, then links
/// and headings are found, and last the languages of code blocks. Each step takes
/// what the one before has left.
pub proof fn law_conversion_goes_in_steps(text: Seq<char>, starred: Seq<char>)
    requires
        ({
            let slanted = applied(Rule::Italic, applied(Rule::Bold, text));
            &&& starred.len() == slanted.len()
            &&& forall|i: int|
                0 <= i < starred.len() ==> #[trigger] starred[i] == if slanted[i] == '\x01'
                    || slanted[i] == '\x02' {
                    '*'
                } else {
                    slanted[i]
                }
        }),
    ensures
        is_free_of(Rule::Link, starred) && is_free_of(Rule::Heading, starred) && is_free_of(
            Rule::CodeBlock,
            starred,
        ) ==> mrkdwn_of(text) == starred,
        mrkdwn_of(text) == applied(
            Rule::CodeBlock,
            applied(Rule::Heading, applied(Rule::Link, starred)),
        ),
{
    let slanted = applied(Rule::Italic, applied(Rule::Bold, text));
    assert(restored(slanted) =~= starred);
    if is_free_of(Rule::Link, starred) && is_free_of(Rule::Heading, starred) && is_free_of(
        Rule::CodeBlock,
        starred,
    ) {
        lemma_free_text_stays(Rule::Link, starred);
        lemma_free_text_stays(Rule::Heading, starred);
        lemma_free_text_stays(Rule::CodeBlock, starred);
    }
}

/// A text is left of a message that is the whole of what stands between the white
/// space around it once the mentions are gone.
pub proof fn law_stripping_leaves_the_rest(
    text: Seq<char>,
    before: Seq<char>,
    left: Seq<char>,
    behind: Seq<char>,
)
    requires
        applied(Rule::Mention, text) == before + left + behind,
        is_blank(before),
        is_blank(behind),
        left.len() > 0 ==> !is_white_space(left.first()) && !is_white_space(left.last()),
    ensures
        mention_stripped(text) == left,
{
    law_trimming_takes_the_white_space_around(before, left, behind);
}

/// A mention between two texts goes, and nothing of the texts with it: not the
/// white space beside it, unless it is at an end.
pub proof fn law_a_mention_goes_alone(first: Seq<char>, mention: Seq<char>, second: Seq<char>)
    requires
        !occurs(first, seq!['<', '@']),
        !occurs(second, seq!['<', '@']),
        mention_at(mention) matches Some(found) && found.end == mention.len(),
    ensures
        mention_stripped(first + mention + second) == trimmed(first + second),
{
    let none = Seq::<char>::empty();
    lemma_without_mentions(first);
    lemma_without_mentions(second);
    lemma_mention_prefix(mention, second);
    lemma_replaced_match(Rule::Mention, true, mention, none, second);
    lemma_line_start_is_for_headings(Rule::Mention, second);
    assert(none + second =~= second);
    assert((mention + second)[0] == '<');
    lemma_mentions_split(first, mention + second);
    assert(first + mention + second =~= first + (mention + second));
}

/// A text without `<@` holds no mention.
proof fn lemma_without_mentions(text: Seq<char>)
    requires
        !occurs(text, seq!['<', '@']),
    ensures
        applied(Rule::Mention, text) == text,
{
    assert forall|i: int| 0 <= i < text.len() implies mention_at(#[trigger] text.skip(i)) is None by {
        let here = text.skip(i);
        if stands_at(here, 0, '<') && stands_at(here, 1, '@') {
            assert(text.subrange(i, i + 2) =~= seq!['<', '@']);
        }
    }
    lemma_free_text_stays(Rule::Mention, text);
}

} // verus!
