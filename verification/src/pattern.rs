//! The patterns of Markdown and of mentions: what they match, and what takes the
//! place of a match.

use crate::text::is_white_space;
use vstd::prelude::*;
use vstd::string::*;

verus! {

/// A user mention, as Slack writes one: `<@U123>`.
pub const MENTION: &'static str = r"<@[A-Z0-9]+>";

/// `**bold**`, with the bold text as group 1.
pub const BOLD: &'static str = r"\*\*(.+?)\*\*";

/// `*italic*`, with the italic text as group 1.
pub const ITALIC: &'static str = r"\*([^*]+?)\*";

/// `[label](url)`, with the label as group 1 and the address as group 2.
pub const LINK: &'static str = r"\[([^\]]+)\]\(([^)]+)\)";

/// A line `# heading`, with the heading's text as group 1.
pub const HEADING: &'static str = r"(?m)^#{1,6}\s+(.+)$";

/// The line that opens a code block and names its language.
pub const CODE_BLOCK_LANG: &'static str = r"```\w+\n";

/// What each pattern is for.
pub enum Rule {
    Mention,
    Bold,
    Italic,
    Link,
    Heading,
    CodeBlock,
}

/// The pattern of a rule.
pub open spec fn pattern_of(rule: Rule) -> Seq<char> {
    match rule {
        Rule::Mention => MENTION@,
        Rule::Bold => BOLD@,
        Rule::Italic => ITALIC@,
        Rule::Link => LINK@,
        Rule::Heading => HEADING@,
        Rule::CodeBlock => CODE_BLOCK_LANG@,
    }
}

/// What a rule puts in the place of a match, with `$1` and `$2` for what the
/// groups matched.
pub open spec fn replacement_of(rule: Rule) -> Seq<char> {
    match rule {
        Rule::Mention => ""@,
        Rule::Bold => "\x01$1\x02"@,
        Rule::Italic => "_${1}_"@,
        Rule::Link => "<$2|$1>"@,
        Rule::Heading => "*$1*"@,
        Rule::CodeBlock => "```\n"@,
    }
}

/// The text in which `regex::Regex::replace_all` has replaced every match of a
/// pattern.
pub uninterp spec fn regex_replaced(
    pattern: Seq<char>,
    text: Seq<char>,
    replacement: Seq<char>,
) -> Seq<char>;

/// A class of characters.
pub enum Class {
    /// This character.
    Only(char),
    /// Every character but this one: `[^c]`.
    Except(char),
    /// What user IDs are made of: `[A-Z0-9]`.
    Id,
    /// White space: `\s`.
    Space,
    /// What words are made of: `\w`.
    Word,
}

/// Whether a character is one of those that words are made of: ASCII letters,
/// digits and underscores. Which characters outside ASCII are, is told by what
/// becomes of a code block with such a character for a language.
pub open spec fn is_word(c: char) -> bool {
    if c <= '\x7f' {
        'A' <= c <= 'Z' || 'a' <= c <= 'z' || '0' <= c <= '9' || c == '_'
    } else {
        regex_replaced(
            CODE_BLOCK_LANG@,
            seq!['`', '`', '`', c, '\n'],
            replacement_of(Rule::CodeBlock),
        ) == seq!['`', '`', '`', '\n']
    }
}

/// Whether a character is in a class.
pub open spec fn is_in(c: char, class: Class) -> bool {
    match class {
        Class::Only(one) => c == one,
        Class::Except(one) => c != one,
        Class::Id => 'A' <= c <= 'Z' || '0' <= c <= '9',
        Class::Space => is_white_space(c),
        Class::Word => is_word(c),
    }
}

/// Whether that character stands at a place in a text.
pub open spec fn stands_at(s: Seq<char>, at: int, c: char) -> bool {
    0 <= at < s.len() && s[at] == c
}

/// Where the characters of a class end that stand in a text from a place on.
pub open spec fn run_end(s: Seq<char>, from: int, class: Class) -> int
    decreases s.len() - from,
{
    if 0 <= from < s.len() && is_in(s[from], class) {
        run_end(s, from + 1, class)
    } else {
        from
    }
}

/// A match at the start of a text: where it ends, and what takes its place.
pub struct Match {
    pub end: int,
    pub put: Seq<char>,
}

/// The mention that a text begins with.
pub open spec fn mention_at(s: Seq<char>) -> Option<Match> {
    let end = run_end(s, 2, Class::Id);
    if stands_at(s, 0, '<') && stands_at(s, 1, '@') && end > 2 && stands_at(s, end, '>') {
        Some(Match { end: end + 1, put: Seq::empty() })
    } else {
        None
    }
}

/// The first place from this one on where two stars stand, before the line ends.
pub open spec fn closing_stars(s: Seq<char>, from: int) -> Option<int>
    decreases s.len() - from,
{
    if stands_at(s, from, '*') && stands_at(s, from + 1, '*') {
        Some(from)
    } else if 0 <= from < s.len() && s[from] != '\n' {
        closing_stars(s, from + 1)
    } else {
        None
    }
}

/// The bold text that a text begins with: it stays on its line, and ends at the
/// first two stars behind at least one character.
pub open spec fn bold_at(s: Seq<char>) -> Option<Match> {
    if stands_at(s, 0, '*') && stands_at(s, 1, '*') && 2 < s.len() && s[2] != '\n' {
        match closing_stars(s, 3) {
            Some(end) => Some(
                Match { end: end + 2, put: seq!['\x01'] + s.subrange(2, end) + seq!['\x02'] },
            ),
            None => None,
        }
    } else {
        None
    }
}

/// The italic text that a text begins with.
pub open spec fn italic_at(s: Seq<char>) -> Option<Match> {
    let end = run_end(s, 1, Class::Except('*'));
    if stands_at(s, 0, '*') && end > 1 && stands_at(s, end, '*') {
        Some(Match { end: end + 1, put: seq!['_'] + s.subrange(1, end) + seq!['_'] })
    } else {
        None
    }
}

/// The link that a text begins with.
pub open spec fn link_at(s: Seq<char>) -> Option<Match> {
    let label_end = run_end(s, 1, Class::Except(']'));
    let url = label_end + 2;
    let url_end = run_end(s, url, Class::Except(')'));
    if stands_at(s, 0, '[') && label_end > 1 && stands_at(s, label_end, ']') && stands_at(s, label_end + 1, '(')
        && url_end > url && stands_at(s, url_end, ')') {
        Some(
            Match {
                end: url_end + 1,
                put: seq!['<'] + s.subrange(url, url_end) + seq!['|'] + s.subrange(1, label_end)
                    + seq!['>'],
            },
        )
    } else {
        None
    }
}

/// The last place behind `low` and not behind `high` at which a line goes on.
pub open spec fn title_start(s: Seq<char>, low: int, high: int) -> Option<int>
    decreases high - low,
{
    if high <= low {
        None
    } else if 0 <= high < s.len() && s[high] != '\n' {
        Some(high)
    } else {
        title_start(s, low, high - 1)
    }
}

/// The heading that a text begins with, at the start of a line: one to six `#`,
/// white space, and the title, which is the rest of the line. The white space
/// goes as far as it can with something left for the title.
pub open spec fn heading_at(s: Seq<char>) -> Option<Match> {
    let level = run_end(s, 0, Class::Only('#'));
    let lead = run_end(s, level, Class::Space);
    if 1 <= level <= 6 {
        match title_start(s, level, lead) {
            Some(title) => {
                let end = run_end(s, title, Class::Except('\n'));
                Some(Match { end, put: seq!['*'] + s.subrange(title, end) + seq!['*'] })
            },
            None => None,
        }
    } else {
        None
    }
}

/// The line that a text begins with and that opens a code block in a language.
pub open spec fn code_block_at(s: Seq<char>) -> Option<Match> {
    let end = run_end(s, 3, Class::Word);
    if stands_at(s, 0, '`') && stands_at(s, 1, '`') && stands_at(s, 2, '`') && end > 3 && stands_at(s, end, '\n') {
        Some(Match { end: end + 1, put: seq!['`', '`', '`', '\n'] })
    } else {
        None
    }
}

/// The match of a rule that a text begins with. Only a heading cares whether the
/// text stands at the start of a line.
pub open spec fn match_at(rule: Rule, line_start: bool, s: Seq<char>) -> Option<Match> {
    match rule {
        Rule::Mention => mention_at(s),
        Rule::Bold => bold_at(s),
        Rule::Italic => italic_at(s),
        Rule::Link => link_at(s),
        Rule::Heading => if line_start {
            heading_at(s)
        } else {
            None
        },
        Rule::CodeBlock => code_block_at(s),
    }
}

/// A text in which every match of a rule is replaced, from left to right.
pub open spec fn replaced_from(rule: Rule, line_start: bool, s: Seq<char>) -> Seq<char>
    decreases s.len(),
{
    if s.len() == 0 {
        s
    } else {
        proof {
            lemma_match_bounds(rule, line_start, s);
        }
        match match_at(rule, line_start, s) {
            Some(found) => found.put + replaced_from(
                rule,
                s[found.end - 1] == '\n',
                s.skip(found.end),
            ),
            None => seq![s[0]] + replaced_from(rule, s[0] == '\n', s.skip(1)),
        }
    }
}

/// The text in which a rule has replaced its matches.
pub open spec fn applied(rule: Rule, text: Seq<char>) -> Seq<char> {
    replaced_from(rule, true, text)
}

/// `regex::Regex::new` on the pattern of a rule, which it accepts, and
/// `regex::Regex::replace_all` of the result: the text that `regex_replaced`
/// names. With the replacement of the rule this is the text in which the leftmost
/// match of the pattern is replaced, then the leftmost one behind it, and so on;
/// what matches is told by the syntax of patterns. Which characters outside ASCII
/// make a word is left to the name, by way of `is_word`.
#[verifier::external_body]
pub(crate) fn replace_all(pattern: &str, text: &str, replacement: &str) -> (replaced: String)
    requires
        exists|rule: Rule| #[trigger] pattern_of(rule) == pattern@,
    ensures
        replaced@ == regex_replaced(pattern@, text@, replacement@),
        forall|rule: Rule|
            #[trigger] pattern_of(rule) == pattern@ && replacement_of(rule) == replacement@
                ==> replaced@ == applied(rule, text@),
{
    regex::Regex::new(pattern).unwrap().replace_all(text, replacement).into_owned()
}

/// The characters of a class end where the first one of another stands, or the
/// text does.
pub proof fn lemma_run_end(s: Seq<char>, from: int, class: Class)
    requires
        0 <= from,
    ensures
        from <= run_end(s, from, class),
        run_end(s, from, class) <= s.len() || run_end(s, from, class) == from,
        forall|i: int| from <= i < run_end(s, from, class) ==> is_in(#[trigger] s[i], class),
        run_end(s, from, class) < s.len() ==> !is_in(s[run_end(s, from, class)], class),
    decreases s.len() - from,
{
    if from < s.len() && is_in(s[from], class) {
        lemma_run_end(s, from + 1, class);
    }
}

/// Where the characters of a class end, known by what stands there.
pub proof fn lemma_run_is(s: Seq<char>, from: int, class: Class, end: int)
    requires
        0 <= from <= end <= s.len(),
        forall|i: int| from <= i < end ==> is_in(#[trigger] s[i], class),
        end < s.len() ==> !is_in(s[end], class),
    ensures
        run_end(s, from, class) == end,
    decreases end - from,
{
    if from < end {
        assert(is_in(s[from], class));
        lemma_run_is(s, from + 1, class, end);
    }
}

/// Closing stars stand at the place that is found, and nowhere before it on the
/// line.
pub proof fn lemma_closing_stars(s: Seq<char>, from: int)
    requires
        0 <= from,
    ensures
        closing_stars(s, from) matches Some(end) ==> {
            &&& from <= end
            &&& stands_at(s, end, '*') && stands_at(s, end + 1, '*')
        },
    decreases s.len() - from,
{
    if !(stands_at(s, from, '*') && stands_at(s, from + 1, '*')) && from < s.len() && s[from] != '\n' {
        lemma_closing_stars(s, from + 1);
    }
}

/// Where the closing stars are, known by what stands there.
pub proof fn lemma_closing_stars_are(s: Seq<char>, from: int, end: int)
    requires
        0 <= from <= end,
        stands_at(s, end, '*') && stands_at(s, end + 1, '*'),
        forall|i: int| from <= i < end ==> #[trigger] s[i] != '\n',
        forall|i: int| from <= i < end ==> !(#[trigger] s[i] == '*' && s[i + 1] == '*'),
    ensures
        closing_stars(s, from) == Some(end),
    decreases end - from,
{
    if from < end {
        assert(s[from] != '\n');
        lemma_closing_stars_are(s, from + 1, end);
    }
}

/// A title starts within its bounds.
pub proof fn lemma_title_start(s: Seq<char>, low: int, high: int)
    ensures
        title_start(s, low, high) matches Some(title) ==> {
            &&& low < title <= high
            &&& 0 <= title < s.len()
            &&& s[title] != '\n'
        },
    decreases high - low,
{
    if high > low && !(0 <= high < s.len() && s[high] != '\n') {
        lemma_title_start(s, low, high - 1);
    }
}

/// A match is not empty, and lies in the text.
pub proof fn lemma_match_bounds(rule: Rule, line_start: bool, s: Seq<char>)
    ensures
        match_at(rule, line_start, s) matches Some(found) ==> 0 < found.end <= s.len(),
{
    match rule {
        Rule::Mention => lemma_run_end(s, 2, Class::Id),
        Rule::Bold => lemma_closing_stars(s, 3),
        Rule::Italic => lemma_run_end(s, 1, Class::Except('*')),
        Rule::Link => {
            lemma_run_end(s, 1, Class::Except(']'));
            lemma_run_end(s, run_end(s, 1, Class::Except(']')) + 2, Class::Except(')'));
        },
        Rule::Heading => {
            let level = run_end(s, 0, Class::Only('#'));
            let lead = run_end(s, level, Class::Space);
            lemma_run_end(s, 0, Class::Only('#'));
            lemma_run_end(s, level, Class::Space);
            lemma_title_start(s, level, lead);
            if let Some(title) = title_start(s, level, lead) {
                lemma_run_end(s, title, Class::Except('\n'));
            }
        },
        Rule::CodeBlock => lemma_run_end(s, 3, Class::Word),
    }
}

/// Whether the next character stands at the start of a line, behind a text that
/// itself stands there or not.
pub open spec fn line_after(line_start: bool, s: Seq<char>) -> bool {
    if s.len() == 0 {
        line_start
    } else {
        s.last() == '\n'
    }
}

/// A text in which no match begins stays as it is before another.
pub proof fn lemma_gap(rule: Rule, line_start: bool, gap: Seq<char>, behind: Seq<char>)
    requires
        forall|i: int|
            0 <= i < gap.len() ==> match_at(
                rule,
                line_after(line_start, gap.take(i)),
                #[trigger] gap.skip(i) + behind,
            ) is None,
    ensures
        replaced_from(rule, line_start, gap + behind) == gap + replaced_from(
            rule,
            line_after(line_start, gap),
            behind,
        ),
    decreases gap.len(),
{
    if gap.len() == 0 {
        assert(gap + behind =~= behind);
        assert(gap + replaced_from(rule, line_start, behind) =~= replaced_from(
            rule,
            line_start,
            behind,
        ));
    } else {
        let rest = gap.skip(1);
        let next = gap[0] == '\n';
        assert(gap.skip(0) =~= gap);
        assert(match_at(rule, line_after(line_start, gap.take(0)), gap.skip(0) + behind) is None);
        assert forall|i: int| 0 <= i < rest.len() implies match_at(
            rule,
            line_after(next, rest.take(i)),
            #[trigger] rest.skip(i) + behind,
        ) is None by {
            assert(gap.skip(i + 1) =~= rest.skip(i));
            assert(match_at(
                rule,
                line_after(line_start, gap.take(i + 1)),
                gap.skip(i + 1) + behind,
            ) is None);
            assert(gap.take(i + 1).last() == gap[i]);
            if i > 0 {
                assert(rest.take(i).last() == gap[i]);
            }
        }
        lemma_gap(rule, next, rest, behind);
        assert((gap + behind).skip(1) =~= rest + behind);
        assert((gap + behind)[0] == gap[0]);
        assert(line_after(next, rest) == line_after(line_start, gap));
        assert(gap =~= seq![gap[0]] + rest);
        assert(replaced_from(rule, line_start, gap + behind) =~= gap + replaced_from(
            rule,
            line_after(line_start, gap),
            behind,
        ));
    }
}

/// Only headings care where lines start.
pub proof fn lemma_line_start_is_for_headings(rule: Rule, s: Seq<char>)
    requires
        !(rule is Heading),
    ensures
        replaced_from(rule, true, s) == replaced_from(rule, false, s),
{
}

/// A match at the start of a text is replaced.
pub proof fn lemma_replaced_match(
    rule: Rule,
    line_start: bool,
    matched: Seq<char>,
    put: Seq<char>,
    behind: Seq<char>,
)
    requires
        matched.len() > 0,
        match_at(rule, line_start, matched + behind) == Some(
            Match { end: matched.len() as int, put },
        ),
    ensures
        replaced_from(rule, line_start, matched + behind) == put + replaced_from(
            rule,
            line_after(line_start, matched),
            behind,
        ),
{
    assert((matched + behind).skip(matched.len() as int) =~= behind);
}

} // verus!
