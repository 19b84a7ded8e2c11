//! Markdown documents, segment by segment, and what becomes of them in mrkdwn.

use crate::mrkdwn::{mrkdwn_of, restored};
use crate::pattern::{
    applied, heading_at, is_in, is_word, lemma_closing_stars_are, lemma_gap, lemma_replaced_match,
    lemma_run_is, line_after, match_at, replaced_from, stands_at, Class, Match, Rule,
};
use crate::text::{is_white_space, lacks};
use vstd::prelude::*;

verus! {

/// A part of a document.
pub enum Segment {
    /// Text in which no markup begins.
    Plain(Seq<char>),
    /// Bold text.
    Bold(Seq<Segment>),
    /// Italic text.
    Italic(Seq<Segment>),
    /// A link.
    Link { label: Seq<Segment>, url: Seq<char> },
    /// A heading, with what it begins with and its title.
    Heading { lead: Seq<char>, title: Seq<Segment> },
    /// The line that opens a code block in a language. The code and the line
    /// that closes the block are segments like others.
    CodeBlock { language: Seq<char> },
}

/// A segment in Markdown.
pub open spec fn as_markdown(segment: Segment) -> Seq<char>
    decreases segment,
{
    match segment {
        Segment::Plain(text) => text,
        Segment::Bold(content) => seq!['*', '*'] + markdown_text(content) + seq!['*', '*'],
        Segment::Italic(content) => seq!['*'] + markdown_text(content) + seq!['*'],
        Segment::Link { label, url } => seq!['['] + markdown_text(label) + seq![']', '('] + url
            + seq![')'],
        Segment::Heading { lead, title } => lead + markdown_text(title),
        Segment::CodeBlock { language } => seq!['`', '`', '`'] + language + seq!['\n'],
    }
}

/// A document in Markdown.
pub open spec fn markdown_text(document: Seq<Segment>) -> Seq<char>
    decreases document,
{
    if document.len() == 0 {
        Seq::empty()
    } else {
        as_markdown(document[0]) + markdown_text(document.subrange(1, document.len() as int))
    }
}

/// A segment in mrkdwn: bold text has one star at either end, italic text has
/// underscores, a link begins with the address, a heading is a bold line, and a
/// code block does not name its language.
pub open spec fn as_mrkdwn(segment: Segment) -> Seq<char>
    decreases segment,
{
    match segment {
        Segment::Plain(text) => text,
        Segment::Bold(content) => seq!['*'] + mrkdwn_text(content) + seq!['*'],
        Segment::Italic(content) => seq!['_'] + mrkdwn_text(content) + seq!['_'],
        Segment::Link { label, url } => seq!['<'] + url + seq!['|'] + mrkdwn_text(label)
            + seq!['>'],
        Segment::Heading { lead, title } => seq!['*'] + mrkdwn_text(title) + seq!['*'],
        Segment::CodeBlock { language } => seq!['`', '`', '`', '\n'],
    }
}

/// A document in mrkdwn.
pub open spec fn mrkdwn_text(document: Seq<Segment>) -> Seq<char>
    decreases document,
{
    if document.len() == 0 {
        Seq::empty()
    } else {
        as_mrkdwn(document[0]) + mrkdwn_text(document.subrange(1, document.len() as int))
    }
}

/// Whether a text and the one behind it could make up markup together that
/// begins in the first one: `]` and `(`, or the ticks of a fence.
pub open spec fn joins(rule: Rule, s: Seq<char>, behind: Seq<char>) -> bool {
    match rule {
        Rule::Link => stands_at(s, s.len() - 1, ']') && stands_at(behind, 0, '('),
        Rule::CodeBlock => stands_at(s, s.len() - 1, '`') && stands_at(behind, 0, '`'),
        _ => false,
    }
}

/// Whether no markup of a rule begins with a text, whatever follows that does not
/// join it. Behind the last text of a document nothing follows.
pub open spec fn begins_nothing(rule: Rule, s: Seq<char>, is_last: bool) -> bool {
    if is_last {
        match_at(rule, true, s) is None
    } else {
        forall|behind: Seq<char>|
            !joins(rule, s, behind) ==> match_at(rule, true, #[trigger] (s + behind)) is None
    }
}

/// Whether a character stands at a place with which markup of a rule may begin.
/// A `#` counts at the start of a line.
pub open spec fn may_begin(rule: Rule, s: Seq<char>, at: int) -> bool {
    match rule {
        Rule::Mention => false,
        Rule::Bold | Rule::Italic => s[at] == '*',
        Rule::Link => s[at] == '[',
        Rule::Heading => s[at] == '#' && (at == 0 || s[at - 1] == '\n'),
        Rule::CodeBlock => s[at] == '`',
    }
}

/// Whether no markup begins in a text. Stars always count as markup, and so do
/// the characters that stand for those of bold text.
pub open spec fn is_plain(s: Seq<char>, is_last: bool) -> bool {
    &&& s.len() > 0
    &&& lacks(s, '*')
    &&& lacks(s, '\x01')
    &&& lacks(s, '\x02')
    &&& forall|rule: Rule, i: int|
        0 <= i < s.len() && #[trigger] may_begin(rule, s, i) ==> begins_nothing(
            rule,
            s.skip(i),
            is_last,
        )
}

/// Whether no two stars stand side by side in `s`.
pub open spec fn lacks_double_star(s: Seq<char>) -> bool {
    forall|i: int| 0 <= i < s.len() - 1 ==> !(#[trigger] s[i] == '*' && s[i + 1] == '*')
}

/// Whether a text is what a heading of that level begins with: as many `#`, and
/// then white space.
pub open spec fn is_lead_of_level(s: Seq<char>, level: int) -> bool {
    &&& 1 <= level <= 6
    &&& level < s.len()
    &&& forall|i: int| 0 <= i < level ==> s[i] == '#'
    &&& forall|i: int| level <= i < s.len() ==> is_white_space(#[trigger] s[i])
}

/// Whether a text is what a heading begins with.
pub open spec fn is_heading_lead(s: Seq<char>) -> bool {
    exists|level: int| is_lead_of_level(s, level)
}

/// Whether a rule is for a segment.
pub open spec fn is_for(rule: Rule, segment: Segment) -> bool {
    match rule {
        Rule::Mention => false,
        Rule::Bold => segment is Bold,
        Rule::Italic => segment is Italic,
        Rule::Link => segment is Link,
        Rule::Heading => segment is Heading,
        Rule::CodeBlock => segment is CodeBlock,
    }
}

/// Whether a segment that a rule is for stands in a list of them, at any depth.
pub open spec fn holds(list: Seq<Segment>, rule: Rule) -> bool
    decreases list,
{
    if list.len() == 0 {
        false
    } else {
        is_or_holds(list[0], rule) || holds(list.subrange(1, list.len() as int), rule)
    }
}

/// Whether a rule is for a segment or for one in it.
pub open spec fn is_or_holds(segment: Segment, rule: Rule) -> bool
    decreases segment,
{
    is_for(rule, segment) || match segment {
        Segment::Bold(content) => holds(content, rule),
        Segment::Italic(content) => holds(content, rule),
        Segment::Link { label, .. } => holds(label, rule),
        Segment::Heading { title, .. } => holds(title, rule),
        _ => false,
    }
}

/// Whether a segment is one. Bold text stays on its line and may hold italic text
/// that does not touch the closing stars; italic text may hold bold text that
/// does not touch the opening star; labels and titles may hold both, and titles
/// and bold and italic text may hold links.
pub open spec fn is_segment(segment: Segment, is_last: bool) -> bool
    decreases segment,
{
    match segment {
        Segment::Plain(text) => is_plain(text, is_last),
        Segment::Bold(content) => {
            let text = markdown_text(content);
            &&& content.len() > 0 && are_segments(content, false)
            &&& !holds(content, Rule::Bold) && !holds(content, Rule::Heading)
            &&& lacks(text, '\n') && lacks_double_star(text) && !stands_at(text, text.len() - 1, '*')
        },
        Segment::Italic(content) => {
            &&& content.len() > 0 && are_segments(content, false)
            &&& !holds(content, Rule::Italic) && !holds(content, Rule::Heading)
            &&& !stands_at(markdown_text(content), 0, '*')
        },
        Segment::Link { label, url } => {
            &&& label.len() > 0 && are_segments(label, false)
            &&& !holds(label, Rule::Link) && !holds(label, Rule::Heading) && !holds(
                label,
                Rule::CodeBlock,
            )
            &&& lacks(mrkdwn_text(label), ']')
            &&& is_plain(url, false) && lacks(url, ')')
        },
        Segment::Heading { lead, title } => {
            &&& is_heading_lead(lead)
            &&& title.len() > 0 && are_segments(title, false)
            &&& !holds(title, Rule::Heading) && !holds(title, Rule::CodeBlock)
            &&& lacks(mrkdwn_text(title), '\n') && !is_white_space(mrkdwn_text(title)[0])
        },
        Segment::CodeBlock { language } => {
            &&& language.len() > 0
            &&& forall|i: int| 0 <= i < language.len() ==> is_word(#[trigger] language[i])
        },
    }
}

/// Whether one segment may follow another: a star does not follow italic text,
/// plain texts are one, ticks do not meet, and a heading has its line to itself.
pub open spec fn may_follow(first: Segment, second: Segment) -> bool {
    &&& first is Italic ==> !stands_at(as_markdown(second), 0, '*')
    &&& first matches Segment::Plain(text) ==> !(second is Plain) && !(second is CodeBlock && stands_at(
        text,
        text.len() - 1,
        '`',
    ))
    &&& second is Heading ==> (first is Plain || first is CodeBlock) && stands_at(
        as_markdown(first),
        as_markdown(first).len() - 1,
        '\n',
    )
    &&& first is Heading ==> second is Plain && stands_at(as_markdown(second), 0, '\n')
}

/// Whether a list of segments is one, each following the one before. `at_end`
/// tells whether a document ends with it.
pub open spec fn are_segments(list: Seq<Segment>, at_end: bool) -> bool
    decreases list,
{
    if list.len() == 0 {
        true
    } else {
        let rest = list.subrange(1, list.len() as int);
        &&& is_segment(list[0], at_end && rest.len() == 0)
        &&& rest.len() > 0 ==> may_follow(list[0], rest[0])
        &&& are_segments(rest, at_end)
    }
}

/// Whether a sequence of segments is a document.
pub open spec fn is_document(document: Seq<Segment>) -> bool {
    are_segments(document, true)
}

/// The stage at which a rule is applied. Between those of the rules for italic
/// text and links, the stars of bold text are restored.
spec fn stage_of(rule: Rule) -> int {
    match rule {
        Rule::Mention => -1,
        Rule::Bold => 0,
        Rule::Italic => 1,
        Rule::Link => 3,
        Rule::Heading => 4,
        Rule::CodeBlock => 5,
    }
}

/// What a segment begins with at a stage of the conversion.
spec fn opening(stage: int, segment: Segment) -> Seq<char> {
    match segment {
        Segment::Plain(text) => text,
        Segment::Bold(_) => if stage <= 0 {
            seq!['*', '*']
        } else if stage <= 2 {
            seq!['\x01']
        } else {
            seq!['*']
        },
        Segment::Italic(_) => if stage <= 1 {
            seq!['*']
        } else {
            seq!['_']
        },
        Segment::Link { url, .. } => if stage <= 3 {
            seq!['[']
        } else {
            seq!['<'] + url + seq!['|']
        },
        Segment::Heading { lead, .. } => if stage <= 4 {
            lead
        } else {
            seq!['*']
        },
        Segment::CodeBlock { language } => if stage <= 5 {
            seq!['`', '`', '`'] + language + seq!['\n']
        } else {
            seq!['`', '`', '`', '\n']
        },
    }
}

/// What a segment ends with at a stage of the conversion.
spec fn closing(stage: int, segment: Segment) -> Seq<char> {
    match segment {
        Segment::Bold(_) => if stage <= 0 {
            seq!['*', '*']
        } else if stage <= 2 {
            seq!['\x02']
        } else {
            seq!['*']
        },
        Segment::Italic(_) => if stage <= 1 {
            seq!['*']
        } else {
            seq!['_']
        },
        Segment::Link { url, .. } => if stage <= 3 {
            seq![']', '('] + url + seq![')']
        } else {
            seq!['>']
        },
        Segment::Heading { .. } => if stage <= 4 {
            Seq::empty()
        } else {
            seq!['*']
        },
        _ => Seq::empty(),
    }
}

/// A segment at a stage of the conversion.
spec fn at_stage(stage: int, segment: Segment) -> Seq<char>
    decreases segment,
{
    opening(stage, segment) + match segment {
        Segment::Bold(content) => text_at(stage, content),
        Segment::Italic(content) => text_at(stage, content),
        Segment::Link { label, .. } => text_at(stage, label),
        Segment::Heading { title, .. } => text_at(stage, title),
        _ => Seq::empty(),
    } + closing(stage, segment)
}

/// A list of segments at a stage of the conversion.
spec fn text_at(stage: int, list: Seq<Segment>) -> Seq<char>
    decreases list,
{
    if list.len() == 0 {
        Seq::empty()
    } else {
        at_stage(stage, list[0]) + text_at(stage, list.subrange(1, list.len() as int))
    }
}

/// A conversion begins with the Markdown of a list and ends with its mrkdwn.
proof fn lemma_first_and_last_stage(list: Seq<Segment>)
    ensures
        text_at(0, list) == markdown_text(list),
        text_at(6, list) == mrkdwn_text(list),
    decreases list,
{
    if list.len() > 0 {
        lemma_segment_stages(list[0]);
        lemma_first_and_last_stage(list.subrange(1, list.len() as int));
    }
}

/// A conversion begins with the Markdown of a segment and ends with its mrkdwn.
proof fn lemma_segment_stages(segment: Segment)
    ensures
        at_stage(0, segment) == as_markdown(segment),
        at_stage(6, segment) == as_mrkdwn(segment),
    decreases segment,
{
    match segment {
        Segment::Bold(content) => lemma_first_and_last_stage(content),
        Segment::Italic(content) => lemma_first_and_last_stage(content),
        Segment::Link { label, .. } => lemma_first_and_last_stage(label),
        Segment::Heading { title, .. } => lemma_first_and_last_stage(title),
        _ => {},
    }
    assert(at_stage(0, segment) =~= as_markdown(segment));
    assert(at_stage(6, segment) =~= as_mrkdwn(segment));
}

/// A rule leaves a list as it is that holds nothing for it.
proof fn lemma_unchanged(rule: Rule, list: Seq<Segment>)
    requires
        !(rule is Mention),
        !holds(list, rule),
    ensures
        text_at(stage_of(rule), list) == text_at(stage_of(rule) + 1, list),
    decreases list,
{
    if list.len() > 0 {
        lemma_segment_unchanged(rule, list[0]);
        lemma_unchanged(rule, list.subrange(1, list.len() as int));
    }
}

/// A rule leaves a segment as it is that holds nothing for it.
proof fn lemma_segment_unchanged(rule: Rule, segment: Segment)
    requires
        !(rule is Mention),
        !is_or_holds(segment, rule),
    ensures
        at_stage(stage_of(rule), segment) == at_stage(stage_of(rule) + 1, segment),
    decreases segment,
{
    match segment {
        Segment::Bold(content) => lemma_unchanged(rule, content),
        Segment::Italic(content) => lemma_unchanged(rule, content),
        Segment::Link { label, .. } => lemma_unchanged(rule, label),
        Segment::Heading { title, .. } => lemma_unchanged(rule, title),
        _ => {},
    }
}

/// The characters of what a heading begins with.
proof fn lemma_lead(lead: Seq<char>)
    requires
        is_heading_lead(lead),
    ensures
        lead.len() > 0,
        forall|i: int| 0 <= i < lead.len() ==> #[trigger] lead[i] == '#' || is_white_space(lead[i]),
{
    let level = choose|level: int| is_lead_of_level(lead, level);
    assert(is_lead_of_level(lead, level));
}

/// A segment is not empty at the stage of a rule, and what it begins with there.
proof fn lemma_first_char(rule: Rule, segment: Segment, is_last: bool)
    requires
        !(rule is Mention),
        is_segment(segment, is_last),
    ensures
        at_stage(stage_of(rule), segment).len() > 0,
        !(segment is Plain) && rule is Link ==> at_stage(stage_of(rule), segment)[0] != '(',
        !(segment is Plain) && !(segment is CodeBlock) && rule is CodeBlock ==> at_stage(
            stage_of(rule),
            segment,
        )[0] != '`',
        segment is Plain ==> at_stage(stage_of(rule), segment) == as_markdown(segment),
        segment is CodeBlock ==> at_stage(stage_of(rule), segment) == as_markdown(segment),
{
    let stage = stage_of(rule);
    if let Segment::Heading { lead, .. } = segment {
        lemma_lead(lead);
    }
    assert(opening(stage, segment).len() > 0);
    assert(at_stage(stage, segment)[0] == opening(stage, segment)[0]);
    if segment is Plain || segment is CodeBlock {
        assert(at_stage(stage, segment) =~= as_markdown(segment));
    }
}

/// A list that is not empty is not empty at the stage of a rule.
proof fn lemma_list_not_empty(rule: Rule, list: Seq<Segment>, at_end: bool)
    requires
        !(rule is Mention),
        list.len() > 0,
        are_segments(list, at_end),
    ensures
        text_at(stage_of(rule), list).len() > 0,
{
    lemma_first_char(rule, list[0], at_end && list.len() == 1);
}

/// Once the bold text is marked, stars stand for italic text only.
proof fn lemma_no_stars(list: Seq<Segment>, at_end: bool)
    requires
        are_segments(list, at_end),
        !holds(list, Rule::Italic),
    ensures
        lacks(text_at(1, list), '*'),
    decreases list,
{
    if list.len() > 0 {
        let rest = list.subrange(1, list.len() as int);
        lemma_segment_no_stars(list[0], at_end && rest.len() == 0);
        lemma_no_stars(rest, at_end);
    }
}

/// Once the bold text is marked, stars stand for italic text only.
proof fn lemma_segment_no_stars(segment: Segment, is_last: bool)
    requires
        is_segment(segment, is_last),
        !is_or_holds(segment, Rule::Italic),
    ensures
        lacks(at_stage(1, segment), '*'),
    decreases segment,
{
    match segment {
        Segment::Bold(content) => lemma_no_stars(content, false),
        Segment::Italic(content) => {},
        Segment::Link { label, .. } => lemma_no_stars(label, false),
        Segment::Heading { lead, title } => {
            lemma_lead(lead);
            lemma_no_stars(title, false);
        },
        _ => {},
    }
    assert(lacks(opening(1, segment), '*'));
    assert(lacks(closing(1, segment), '*'));
}

/// Once the italic text is done, the stars of bold text are restored.
proof fn lemma_restored(list: Seq<Segment>, at_end: bool)
    requires
        are_segments(list, at_end),
    ensures
        restored(text_at(2, list)) == text_at(3, list),
    decreases list,
{
    if list.len() > 0 {
        let rest = list.subrange(1, list.len() as int);
        lemma_segment_restored(list[0], at_end && rest.len() == 0);
        lemma_restored(rest, at_end);
    }
    assert(restored(text_at(2, list)) =~= text_at(3, list));
}

/// The stars of bold text are restored in a segment.
proof fn lemma_segment_restored(segment: Segment, is_last: bool)
    requires
        is_segment(segment, is_last),
    ensures
        restored(at_stage(2, segment)) == at_stage(3, segment),
    decreases segment,
{
    match segment {
        Segment::Bold(content) => lemma_restored(content, false),
        Segment::Italic(content) => lemma_restored(content, false),
        Segment::Link { label, .. } => lemma_restored(label, false),
        Segment::Heading { lead, title } => {
            lemma_lead(lead);
            lemma_restored(title, false);
        },
        _ => {},
    }
    assert(restored(opening(2, segment)) =~= opening(3, segment));
    assert(restored(closing(2, segment)) =~= closing(3, segment));
    assert(restored(at_stage(2, segment)) =~= at_stage(3, segment));
}

/// What each match of a rule begins with.
spec fn start_of(rule: Rule) -> char {
    match rule {
        Rule::Mention => '<',
        Rule::Bold | Rule::Italic => '*',
        Rule::Link => '[',
        Rule::Heading => '#',
        Rule::CodeBlock => '`',
    }
}

/// No match begins with another character.
proof fn lemma_start(rule: Rule, line_start: bool, s: Seq<char>)
    requires
        s.len() > 0,
        s[0] != start_of(rule),
    ensures
        match_at(rule, line_start, s) is None,
{
}

/// A text without the character that matches begin with stays as it is.
proof fn lemma_lacking_gap(rule: Rule, line_start: bool, gap: Seq<char>, behind: Seq<char>)
    requires
        lacks(gap, start_of(rule)),
    ensures
        replaced_from(rule, line_start, gap + behind) == gap + replaced_from(
            rule,
            line_after(line_start, gap),
            behind,
        ),
{
    assert forall|i: int| 0 <= i < gap.len() implies match_at(
        rule,
        line_after(line_start, gap.take(i)),
        #[trigger] gap.skip(i) + behind,
    ) is None by {
        assert((gap.skip(i) + behind)[0] == gap[i]);
        lemma_start(rule, line_after(line_start, gap.take(i)), gap.skip(i) + behind);
    }
    lemma_gap(rule, line_start, gap, behind);
}

/// A plain text stays as it is.
proof fn lemma_plain_gap(
    rule: Rule,
    line_start: bool,
    text: Seq<char>,
    is_last: bool,
    behind: Seq<char>,
)
    requires
        !(rule is Mention),
        is_plain(text, is_last),
        is_last ==> behind.len() == 0,
        !joins(rule, text, behind),
    ensures
        replaced_from(rule, line_start, text + behind) == text + replaced_from(
            rule,
            line_after(line_start, text),
            behind,
        ),
{
    assert forall|i: int| 0 <= i < text.len() implies match_at(
        rule,
        line_after(line_start, text.take(i)),
        #[trigger] text.skip(i) + behind,
    ) is None by {
        let here = text.skip(i) + behind;
        let line = line_after(line_start, text.take(i));
        assert(here[0] == text[i]);
        if i > 0 {
            assert(text.take(i).last() == text[i - 1]);
        }
        if may_begin(rule, text, i) {
            assert(begins_nothing(rule, text.skip(i), is_last));
            assert(text.skip(i).last() == text.last());
            if is_last {
                assert(here =~= text.skip(i));
            } else {
                assert(!joins(rule, text.skip(i), behind));
            }
        } else if text[i] != start_of(rule) {
            lemma_start(rule, line, here);
        }
    }
    lemma_gap(rule, line_start, text, behind);
}

/// Whether a segment may stand before a text as far as a rule is concerned.
spec fn fits(rule: Rule, segment: Segment, behind: Seq<char>) -> bool {
    &&& rule is Bold && segment is Italic ==> !stands_at(behind, 0, '*')
    &&& segment matches Segment::Plain(text) ==> !joins(rule, text, behind)
    &&& segment is Heading ==> behind.len() == 0 || behind[0] == '\n'
}

/// Whether a heading stands at the start of a line.
spec fn fits_line(rule: Rule, segment: Segment, line_start: bool) -> bool {
    rule is Heading && segment is Heading ==> line_start
}

/// What a rule makes of a segment that it is for.
proof fn lemma_own_match(
    rule: Rule,
    line_start: bool,
    segment: Segment,
    is_last: bool,
    behind: Seq<char>,
)
    requires
        is_segment(segment, is_last),
        is_for(rule, segment),
        fits(rule, segment, behind),
        fits_line(rule, segment, line_start),
    ensures
        at_stage(stage_of(rule), segment).len() > 0,
        match_at(rule, line_start, at_stage(stage_of(rule), segment) + behind) == Some(
            Match {
                end: at_stage(stage_of(rule), segment).len() as int,
                put: at_stage(stage_of(rule) + 1, segment),
            },
        ),
{
    let stage = stage_of(rule);
    let here = at_stage(stage, segment);
    let s = here + behind;
    match segment {
        Segment::Bold(content) => {
            let text = text_at(0, content);
            let end: int = text.len() + 2int;
            lemma_first_and_last_stage(content);
            lemma_list_not_empty(rule, content, false);
            lemma_unchanged(rule, content);
            assert forall|i: int| 2 <= i < end implies #[trigger] s[i] == text[i - 2] by {}
            assert(s[end] == '*' && s[end + 1] == '*');
            assert forall|i: int| 3 <= i < end implies !(#[trigger] s[i] == '*' && s[i + 1]
                == '*') by {
                if i + 1 < end {
                    assert(s[i + 1] == text[i - 1]);
                    assert(!(text[i - 2] == '*' && text[i - 1] == '*'));
                }
            }
            lemma_closing_stars_are(s, 3, end);
            assert(s.subrange(2, end) =~= text);
            assert(at_stage(1, segment) =~= seq!['\x01'] + text + seq!['\x02']);
        },
        Segment::Italic(content) => {
            let text = text_at(1, content);
            let end: int = text.len() + 1int;
            lemma_list_not_empty(rule, content, false);
            lemma_no_stars(content, false);
            lemma_unchanged(rule, content);
            assert forall|i: int| 1 <= i < end implies is_in(
                #[trigger] s[i],
                Class::Except('*'),
            ) by {
                assert(s[i] == text[i - 1]);
            }
            lemma_run_is(s, 1, Class::Except('*'), end);
            assert(s.subrange(1, end) =~= text);
            assert(at_stage(2, segment) =~= seq!['_'] + text + seq!['_']);
        },
        Segment::Link { label, url } => {
            let text = text_at(3, label);
            lemma_list_not_empty(rule, label, false);
            lemma_unchanged(Rule::Link, label);
            lemma_unchanged(Rule::Heading, label);
            lemma_unchanged(Rule::CodeBlock, label);
            lemma_first_and_last_stage(label);
            let end: int = text.len() + 1int;
            assert forall|i: int| 1 <= i < end implies is_in(
                #[trigger] s[i],
                Class::Except(']'),
            ) by {
                assert(s[i] == text[i - 1]);
            }
            assert(s[end] == ']' && s[end + 1] == '(');
            lemma_run_is(s, 1, Class::Except(']'), end);
            let url_end: int = end + 2 + url.len();
            assert forall|i: int| end + 2 <= i < url_end implies is_in(
                #[trigger] s[i],
                Class::Except(')'),
            ) by {
                assert(s[i] == url[i - end - 2]);
            }
            assert(s[url_end] == ')');
            lemma_run_is(s, end + 2, Class::Except(')'), url_end);
            assert(s.subrange(1, end) =~= text);
            assert(s.subrange(end + 2, url_end) =~= url);
            assert(at_stage(4, segment) =~= seq!['<'] + url + seq!['|'] + text + seq!['>']);
        },
        Segment::Heading { lead, title } => {
            let text = text_at(4, title);
            lemma_list_not_empty(rule, title, false);
            lemma_unchanged(Rule::Heading, title);
            lemma_unchanged(Rule::CodeBlock, title);
            lemma_first_and_last_stage(title);
            lemma_heading_match(lead, text, behind);
            assert(s =~= lead + text + behind);
            assert(at_stage(5, segment) =~= seq!['*'] + text + seq!['*']);
        },
        Segment::CodeBlock { language } => {
            let end: int = language.len() + 3int;
            assert forall|i: int| 3 <= i < end implies is_in(#[trigger] s[i], Class::Word) by {
                assert(s[i] == language[i - 3]);
            }
            assert(s[end] == '\n');
            lemma_run_is(s, 3, Class::Word, end);
            assert(at_stage(6, segment) =~= seq!['`', '`', '`', '\n']);
        },
        Segment::Plain(_) => {},
    }
}

/// A heading that has its line to itself is one.
proof fn lemma_heading_match(lead: Seq<char>, title: Seq<char>, behind: Seq<char>)
    requires
        is_heading_lead(lead),
        title.len() > 0,
        lacks(title, '\n'),
        !is_white_space(title[0]),
        behind.len() == 0 || behind[0] == '\n',
    ensures
        heading_at(lead + title + behind) == Some(
            Match {
                end: (lead.len() + title.len()) as int,
                put: seq!['*'] + title + seq!['*'],
            },
        ),
{
    let s = lead + title + behind;
    let level = choose|level: int| is_lead_of_level(lead, level);
    assert(is_lead_of_level(lead, level));
    let start = lead.len() as int;
    let end = start + title.len();
    assert forall|i: int| 0 <= i < level implies is_in(#[trigger] s[i], Class::Only('#')) by {
        assert(s[i] == lead[i]);
    }
    assert(s[level] == lead[level] && is_white_space(lead[level]));
    lemma_run_is(s, 0, Class::Only('#'), level);
    assert forall|i: int| level <= i < start implies is_in(#[trigger] s[i], Class::Space) by {
        assert(s[i] == lead[i]);
    }
    assert(s[start] == title[0]);
    lemma_run_is(s, level, Class::Space, start);
    assert forall|i: int| start <= i < end implies is_in(
        #[trigger] s[i],
        Class::Except('\n'),
    ) by {
        assert(s[i] == title[i - start]);
    }
    if behind.len() > 0 {
        assert(s[end] == behind[0]);
    }
    lemma_run_is(s, start, Class::Except('\n'), end);
    assert(s.subrange(start, end) =~= title);
}

/// What a segment that a rule is not for begins with stays as it is.
proof fn lemma_opening_gap(
    rule: Rule,
    line_start: bool,
    segment: Segment,
    is_last: bool,
    behind: Seq<char>,
)
    requires
        !(rule is Mention),
        is_segment(segment, is_last),
        !is_for(rule, segment),
        !(segment is Plain),
        rule is Bold && segment is Italic ==> !stands_at(behind, 0, '*'),
    ensures
        opening(stage_of(rule) + 1, segment) == opening(stage_of(rule), segment),
        replaced_from(rule, line_start, opening(stage_of(rule), segment) + behind) == opening(
            stage_of(rule),
            segment,
        ) + replaced_from(
            rule,
            line_after(line_start, opening(stage_of(rule), segment)),
            behind,
        ),
{
    let open = opening(stage_of(rule), segment);
    match segment {
        Segment::Italic(_) if rule is Bold => lemma_star_gap(line_start, behind),
        Segment::Link { url, .. } if rule is Heading || rule is CodeBlock => {
            let angle = seq!['<'];
            let bar = seq!['|'];
            lemma_lacking_gap(rule, line_start, angle, url + (bar + behind));
            lemma_plain_gap(rule, false, url, false, bar + behind);
            lemma_lacking_gap(rule, line_after(false, url), bar, behind);
            assert(open + behind =~= angle + (url + (bar + behind)));
            let rest = replaced_from(rule, false, behind);
            assert(angle + (url + (bar + rest)) =~= open + rest);
        },
        Segment::Heading { lead, .. } => {
            lemma_lead(lead);
            lemma_lacking_gap(rule, line_start, open, behind);
        },
        _ => lemma_lacking_gap(rule, line_start, open, behind),
    }
}

/// A star that no other follows is not the start of bold text.
proof fn lemma_star_gap(line_start: bool, behind: Seq<char>)
    requires
        !stands_at(behind, 0, '*'),
    ensures
        replaced_from(Rule::Bold, line_start, seq!['*'] + behind) == seq!['*'] + replaced_from(
            Rule::Bold,
            false,
            behind,
        ),
{
    let s = seq!['*'] + behind;
    assert(s.skip(1) =~= behind);
    if behind.len() > 0 {
        assert(s[1] == behind[0]);
    }
}

/// What a segment that a rule is not for ends with stays as it is.
proof fn lemma_closing_gap(
    rule: Rule,
    line_start: bool,
    segment: Segment,
    is_last: bool,
    behind: Seq<char>,
)
    requires
        !(rule is Mention),
        is_segment(segment, is_last),
        !is_for(rule, segment),
        fits(rule, segment, behind),
    ensures
        closing(stage_of(rule) + 1, segment) == closing(stage_of(rule), segment),
        replaced_from(rule, line_start, closing(stage_of(rule), segment) + behind) == closing(
            stage_of(rule),
            segment,
        ) + replaced_from(
            rule,
            line_after(line_start, closing(stage_of(rule), segment)),
            behind,
        ),
{
    if rule is Bold && segment is Italic {
        lemma_star_gap(line_start, behind);
    } else {
        lemma_lacking_gap(rule, line_start, closing(stage_of(rule), segment), behind);
    }
}

/// What a segment holds.
spec fn content_of(segment: Segment) -> Seq<Segment> {
    match segment {
        Segment::Bold(content) => content,
        Segment::Italic(content) => content,
        Segment::Link { label, .. } => label,
        Segment::Heading { title, .. } => title,
        _ => Seq::empty(),
    }
}

/// Where a line starts is told by the last character.
proof fn lemma_line_after(line_start: bool, a: Seq<char>, b: Seq<char>)
    ensures
        line_after(line_after(line_start, a), b) == line_after(line_start, a + b),
{
    if b.len() > 0 {
        assert((a + b).last() == b.last());
    } else {
        assert(a + b =~= a);
    }
}

/// What a segment holds fits before what the segment ends with.
proof fn lemma_content_fits(rule: Rule, segment: Segment, is_last: bool, behind: Seq<char>)
    requires
        !(rule is Mention),
        is_segment(segment, is_last),
        !is_for(rule, segment),
        !(segment is Plain),
        fits(rule, segment, behind),
    ensures
        ({
            let content = content_of(segment);
            let end = closing(stage_of(rule), segment) + behind;
            &&& are_segments(content, false)
            &&& content.len() > 0 ==> fits(rule, content.last(), end)
            &&& content.len() > 0 ==> !(content[0] is Heading)
            &&& rule is Bold && segment is Italic ==> !stands_at(
                text_at(0, content) + end,
                0,
                '*',
            )
        }),
{
    let content = content_of(segment);
    let close = closing(stage_of(rule), segment);
    let end = close + behind;
    if content.len() > 0 {
        if close.len() > 0 {
            assert(end[0] == close[0]);
        } else {
            assert(end =~= behind);
        }
        lemma_held(content, Rule::Heading, content.len() - 1);
        lemma_held(content, Rule::Heading, 0);
        if segment is Italic {
            lemma_held(content, Rule::Italic, content.len() - 1);
            lemma_list_not_empty(Rule::Bold, content, false);
            lemma_first_and_last_stage(content);
            assert((text_at(0, content) + end)[0] == text_at(0, content)[0]);
        }
    }
}

/// A list holds each of its segments.
proof fn lemma_held(list: Seq<Segment>, rule: Rule, i: int)
    requires
        0 <= i < list.len(),
        !holds(list, rule),
    ensures
        !is_for(rule, list[i]),
    decreases i,
{
    assert(!is_or_holds(list[0], rule));
    if i > 0 {
        let rest = list.subrange(1, list.len() as int);
        lemma_held(rest, rule, i - 1);
        assert(rest[i - 1] == list[i]);
    }
}

/// The first of a list of segments, and the rest.
proof fn lemma_parts(list: Seq<Segment>, at_end: bool)
    requires
        list.len() > 0,
        are_segments(list, at_end),
    ensures
        is_segment(list[0], at_end && list.len() == 1),
        are_segments(list.subrange(1, list.len() as int), at_end),
        list.len() > 1 ==> may_follow(list[0], list[1]),
{
}

/// What a rule makes of a segment that it is not for, by what it makes of what
/// the segment holds.
proof fn lemma_around_content(
    rule: Rule,
    line_start: bool,
    segment: Segment,
    is_last: bool,
    behind: Seq<char>,
)
    requires
        !(rule is Mention),
        is_segment(segment, is_last),
        !is_for(rule, segment),
        !(segment is Plain),
        fits(rule, segment, behind),
        ({
            let text = text_at(stage_of(rule), content_of(segment));
            let end = closing(stage_of(rule), segment) + behind;
            let line_text = line_after(line_start, opening(stage_of(rule), segment));
            replaced_from(rule, line_text, text + end) == text_at(
                stage_of(rule) + 1,
                content_of(segment),
            ) + replaced_from(rule, line_after(line_text, text), end)
        }),
    ensures
        replaced_from(rule, line_start, at_stage(stage_of(rule), segment) + behind) == at_stage(
            stage_of(rule) + 1,
            segment,
        ) + replaced_from(
            rule,
            line_after(line_start, at_stage(stage_of(rule), segment)),
            behind,
        ),
{
    let stage = stage_of(rule);
    let here = at_stage(stage, segment);
    let there = at_stage(stage + 1, segment);
    let open = opening(stage, segment);
    let close = closing(stage, segment);
    let text = text_at(stage, content_of(segment));
    let text_there = text_at(stage + 1, content_of(segment));
    let end = close + behind;
    lemma_content_fits(rule, segment, is_last, behind);
    lemma_opening_gap(rule, line_start, segment, is_last, text + end);
    lemma_closing_gap(
        rule,
        line_after(line_after(line_start, open), text),
        segment,
        is_last,
        behind,
    );
    lemma_line_after(line_start, open, text);
    lemma_line_after(line_start, open + text, close);
    assert(here == open + text + close);
    assert(there == open + text_there + close);
    assert(here + behind =~= open + (text + end));
    let done = replaced_from(rule, line_after(line_start, here), behind);
    assert(open + (text_there + (close + done)) =~= there + done);
}

/// What a rule makes of a segment before a text.
proof fn lemma_segment_step(
    rule: Rule,
    line_start: bool,
    segment: Segment,
    is_last: bool,
    behind: Seq<char>,
)
    requires
        !(rule is Mention),
        is_segment(segment, is_last),
        is_last ==> behind.len() == 0,
        fits(rule, segment, behind),
        fits_line(rule, segment, line_start),
    ensures
        replaced_from(rule, line_start, at_stage(stage_of(rule), segment) + behind) == at_stage(
            stage_of(rule) + 1,
            segment,
        ) + replaced_from(
            rule,
            line_after(line_start, at_stage(stage_of(rule), segment)),
            behind,
        ),
    decreases segment,
{
    let stage = stage_of(rule);
    let here = at_stage(stage, segment);
    if is_for(rule, segment) {
        lemma_own_match(rule, line_start, segment, is_last, behind);
        lemma_replaced_match(rule, line_start, here, at_stage(stage + 1, segment), behind);
    } else if let Segment::Plain(text) = segment {
        lemma_plain_gap(rule, line_start, text, is_last, behind);
        assert(here =~= text);
        assert(at_stage(stage + 1, segment) =~= text);
    } else {
        let end = closing(stage, segment) + behind;
        let line_text = line_after(line_start, opening(stage, segment));
        lemma_content_fits(rule, segment, is_last, behind);
        match segment {
            Segment::Bold(inner) => lemma_list_step(rule, line_text, inner, false, end),
            Segment::Italic(inner) => lemma_list_step(rule, line_text, inner, false, end),
            Segment::Link { label, .. } => lemma_list_step(rule, line_text, label, false, end),
            Segment::Heading { title, .. } => lemma_list_step(rule, line_text, title, false, end),
            _ => {
                let done = replaced_from(rule, line_text, end);
                assert(Seq::<char>::empty() + end =~= end);
                assert(Seq::<char>::empty() + done =~= done);
            },
        }
        lemma_around_content(rule, line_start, segment, is_last, behind);
    }
}

/// What a rule makes of a list of segments before a text.
proof fn lemma_list_step(
    rule: Rule,
    line_start: bool,
    list: Seq<Segment>,
    at_end: bool,
    behind: Seq<char>,
)
    requires
        !(rule is Mention),
        are_segments(list, at_end),
        at_end ==> behind.len() == 0,
        list.len() > 0 ==> fits(rule, list.last(), behind) && fits_line(rule, list[0], line_start),
    ensures
        replaced_from(rule, line_start, text_at(stage_of(rule), list) + behind) == text_at(
            stage_of(rule) + 1,
            list,
        ) + replaced_from(rule, line_after(line_start, text_at(stage_of(rule), list)), behind),
    decreases list,
{
    let stage = stage_of(rule);
    let text = text_at(stage, list);
    if list.len() == 0 {
        assert(text + behind =~= behind);
        let done = replaced_from(rule, line_start, behind);
        assert(text_at(stage + 1, list) + done =~= done);
    } else {
        let first = list[0];
        let rest = list.subrange(1, list.len() as int);
        let here = at_stage(stage, first);
        let rest_text = text_at(stage, rest);
        let next = line_after(line_start, here);
        let is_last = at_end && rest.len() == 0;
        lemma_parts(list, at_end);
        lemma_first_char(rule, first, is_last);
        if rest.len() == 0 {
            assert(rest_text + behind =~= behind);
        } else {
            assert(list.last() == rest.last());
            lemma_parts(rest, at_end);
            lemma_first_char(rule, rest[0], at_end && rest.len() == 1);
            lemma_segment_stages(rest[0]);
            assert((rest_text + behind)[0] == at_stage(stage, rest[0])[0]);
        }
        lemma_segment_step(rule, line_start, first, is_last, rest_text + behind);
        lemma_list_step(rule, next, rest, at_end, behind);
        lemma_line_after(line_start, here, rest_text);
        assert(text + behind =~= here + (rest_text + behind));
        let done = replaced_from(rule, line_after(line_start, text), behind);
        assert(at_stage(stage + 1, first) + (text_at(stage + 1, rest) + done) =~= text_at(
            stage + 1,
            list,
        ) + done);
    }
}

/// What a rule makes of a document.
proof fn lemma_step(rule: Rule, document: Seq<Segment>)
    requires
        !(rule is Mention),
        is_document(document),
    ensures
        applied(rule, text_at(stage_of(rule), document)) == text_at(stage_of(rule) + 1, document),
{
    let none = Seq::<char>::empty();
    lemma_list_step(rule, true, document, true, none);
    assert(text_at(stage_of(rule), document) + none =~= text_at(stage_of(rule), document));
    assert(text_at(stage_of(rule) + 1, document) + none =~= text_at(stage_of(rule) + 1, document));
}

/// Each document becomes the mrkdwn of its segments.
pub proof fn law_documents_are_converted(document: Seq<Segment>)
    requires
        is_document(document),
    ensures
        mrkdwn_of(markdown_text(document)) == mrkdwn_text(document),
{
    lemma_first_and_last_stage(document);
    lemma_step(Rule::Bold, document);
    lemma_step(Rule::Italic, document);
    lemma_restored(document, true);
    lemma_step(Rule::Link, document);
    lemma_step(Rule::Heading, document);
    lemma_step(Rule::CodeBlock, document);
}

} // verus!
