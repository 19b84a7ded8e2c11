//! What the replacement of matches does to any text: how long it gets, which
//! characters it holds, and what is left to match.

use crate::pattern::{
    code_block_at, lemma_closing_stars, lemma_match_bounds, lemma_run_end, lemma_run_is,
    lemma_title_start, match_at, replaced_from, run_end, stands_at, title_start, Class, Rule,
};
use crate::text::lacks;
use vstd::prelude::*;
use vstd::utf8::*;

verus! {

/// The size of a text: its characters, or its bytes in UTF-8.
pub open spec fn size(s: Seq<char>, in_bytes: bool) -> nat {
    if in_bytes {
        encode_utf8(s).len()
    } else {
        s.len()
    }
}

/// The size of a text is that of its parts.
proof fn lemma_size_concat(a: Seq<char>, b: Seq<char>, in_bytes: bool)
    ensures
        size(a + b, in_bytes) == size(a, in_bytes) + size(b, in_bytes),
    decreases a.len(),
{
    if in_bytes {
        if a.len() == 0 {
            assert(a + b =~= b);
        } else {
            assert((a + b).drop_first() =~= a.drop_first() + b);
            lemma_size_concat(a.drop_first(), b, in_bytes);
        }
    }
}

/// A character takes at least one byte, and one of ASCII takes no more.
proof fn lemma_char_size(c: char)
    ensures
        encode_scalar(c as u32).len() >= 1,
        c <= '\x7f' ==> encode_scalar(c as u32).len() == 1,
{
    char_is_scalar(c);
}

/// Each character counts, and one of ASCII counts once.
proof fn lemma_size_bounds(s: Seq<char>, in_bytes: bool)
    ensures
        size(s, in_bytes) >= s.len(),
        (forall|i: int| 0 <= i < s.len() ==> #[trigger] s[i] <= '\x7f') ==> size(s, in_bytes)
            == s.len(),
    decreases s.len(),
{
    if in_bytes && s.len() > 0 {
        let rest = s.drop_first();
        lemma_size_bounds(rest, in_bytes);
        lemma_char_size(s[0]);
        if forall|i: int| 0 <= i < s.len() ==> #[trigger] s[i] <= '\x7f' {
            assert(s[0] <= '\x7f');
            assert forall|i: int| 0 <= i < rest.len() implies #[trigger] rest[i] <= '\x7f' by {
                assert(rest[i] == s[i + 1]);
            }
        }
    }
}

/// What takes the place of a match is not larger.
proof fn lemma_put_size(rule: Rule, line_start: bool, s: Seq<char>, in_bytes: bool)
    ensures
        match_at(rule, line_start, s) matches Some(found) ==> size(found.put, in_bytes) <= size(
            s.take(found.end),
            in_bytes,
        ),
{
    lemma_match_bounds(rule, line_start, s);
    if let Some(found) = match_at(rule, line_start, s) {
        let matched = s.take(found.end);
        lemma_size_bounds(matched, in_bytes);
        match rule {
            Rule::Mention => {
                lemma_size_bounds(found.put, in_bytes);
            },
            Rule::Bold => {
                lemma_closing_stars(s, 3);
                let text = s.subrange(2, found.end - 2);
                let stars = seq!['*', '*'];
                assert(matched =~= stars + text + stars);
                lemma_size_concat(stars, text, in_bytes);
                lemma_size_concat(stars + text, stars, in_bytes);
                lemma_size_bounds(stars, in_bytes);
                let open = seq!['\x01'];
                let close = seq!['\x02'];
                lemma_size_concat(open, text, in_bytes);
                lemma_size_concat(open + text, close, in_bytes);
                lemma_size_bounds(open, in_bytes);
                lemma_size_bounds(close, in_bytes);
            },
            Rule::Italic => {
                lemma_run_end(s, 1, Class::Except('*'));
                let text = s.subrange(1, found.end - 1);
                let star = seq!['*'];
                assert(matched =~= star + text + star);
                lemma_size_concat(star, text, in_bytes);
                lemma_size_concat(star + text, star, in_bytes);
                lemma_size_bounds(star, in_bytes);
                let line = seq!['_'];
                lemma_size_concat(line, text, in_bytes);
                lemma_size_concat(line + text, line, in_bytes);
                lemma_size_bounds(line, in_bytes);
            },
            Rule::Link => {
                let label_end = run_end(s, 1, Class::Except(']'));
                lemma_run_end(s, 1, Class::Except(']'));
                lemma_run_end(s, label_end + 2, Class::Except(')'));
                let label = s.subrange(1, label_end);
                let url = s.subrange(label_end + 2, found.end - 1);
                let a = seq!['['];
                let b = seq![']', '('];
                let c = seq![')'];
                assert(matched =~= a + label + b + url + c);
                lemma_size_concat(a, label, in_bytes);
                lemma_size_concat(a + label, b, in_bytes);
                lemma_size_concat(a + label + b, url, in_bytes);
                lemma_size_concat(a + label + b + url, c, in_bytes);
                lemma_size_bounds(a, in_bytes);
                lemma_size_bounds(b, in_bytes);
                lemma_size_bounds(c, in_bytes);
                let d = seq!['<'];
                let e = seq!['|'];
                let f = seq!['>'];
                lemma_size_concat(d, url, in_bytes);
                lemma_size_concat(d + url, e, in_bytes);
                lemma_size_concat(d + url + e, label, in_bytes);
                lemma_size_concat(d + url + e + label, f, in_bytes);
                lemma_size_bounds(d, in_bytes);
                lemma_size_bounds(e, in_bytes);
                lemma_size_bounds(f, in_bytes);
            },
            Rule::Heading => {
                let level = run_end(s, 0, Class::Only('#'));
                let lead = run_end(s, level, Class::Space);
                lemma_run_end(s, 0, Class::Only('#'));
                lemma_run_end(s, level, Class::Space);
                lemma_title_start(s, level, lead);
                let start = title_start(s, level, lead)->0;
                lemma_run_end(s, start, Class::Except('\n'));
                let title = s.subrange(start, found.end);
                assert(matched =~= s.take(start) + title);
                lemma_size_concat(s.take(start), title, in_bytes);
                lemma_size_bounds(s.take(start), in_bytes);
                let star = seq!['*'];
                lemma_size_concat(star, title, in_bytes);
                lemma_size_concat(star + title, star, in_bytes);
                lemma_size_bounds(star, in_bytes);
            },
            Rule::CodeBlock => {
                lemma_run_end(s, 3, Class::Word);
                lemma_size_bounds(found.put, in_bytes);
            },
        }
    }
}

/// No rule makes a text larger, in characters or in bytes.
pub proof fn law_rules_do_not_lengthen(
    rule: Rule,
    line_start: bool,
    s: Seq<char>,
    in_bytes: bool,
)
    ensures
        size(replaced_from(rule, line_start, s), in_bytes) <= size(s, in_bytes),
    decreases s.len(),
{
    if s.len() > 0 {
        lemma_match_bounds(rule, line_start, s);
        lemma_put_size(rule, line_start, s, in_bytes);
        match match_at(rule, line_start, s) {
            Some(found) => {
                let next = s[found.end - 1] == '\n';
                let rest = s.skip(found.end);
                law_rules_do_not_lengthen(rule, next, rest, in_bytes);
                assert(s =~= s.take(found.end) + rest);
                lemma_size_concat(s.take(found.end), rest, in_bytes);
                lemma_size_concat(found.put, replaced_from(rule, next, rest), in_bytes);
            },
            None => {
                let next = s[0] == '\n';
                let first = seq![s[0]];
                let rest = s.skip(1);
                law_rules_do_not_lengthen(rule, next, rest, in_bytes);
                assert(s =~= first + rest);
                lemma_size_concat(first, rest, in_bytes);
                lemma_size_concat(first, replaced_from(rule, next, rest), in_bytes);
            },
        }
    }
}

/// A character that changes one for one in ASCII changes no size.
pub proof fn lemma_size_mapped(a: Seq<char>, b: Seq<char>, in_bytes: bool)
    requires
        a.len() == b.len(),
        forall|i: int|
            0 <= i < a.len() ==> #[trigger] a[i] == b[i] || (a[i] <= '\x7f' && b[i] <= '\x7f'),
    ensures
        size(a, in_bytes) == size(b, in_bytes),
    decreases a.len(),
{
    if in_bytes && a.len() > 0 {
        let first_a = seq![a[0]];
        let first_b = seq![b[0]];
        let rest_a = a.skip(1);
        let rest_b = b.skip(1);
        assert forall|i: int| 0 <= i < rest_a.len() implies #[trigger] rest_a[i] == rest_b[i] || (
        rest_a[i] <= '\x7f' && rest_b[i] <= '\x7f') by {
            assert(rest_a[i] == a[i + 1]);
        }
        lemma_size_mapped(rest_a, rest_b, in_bytes);
        assert(a =~= first_a + rest_a);
        assert(b =~= first_b + rest_b);
        lemma_size_concat(first_a, rest_a, in_bytes);
        lemma_size_concat(first_b, rest_b, in_bytes);
        lemma_size_bounds(first_a, in_bytes);
        lemma_size_bounds(first_b, in_bytes);
        if a[0] != b[0] {
            assert(a[0] <= '\x7f');
        } else {
            assert(first_a =~= first_b);
        }
    }
}

/// Whether a rule writes a character that need not stand in the text.
pub open spec fn writes(rule: Rule, c: char) -> bool {
    match rule {
        Rule::Mention => false,
        Rule::Bold => c == '\x01' || c == '\x02',
        Rule::Italic => c == '_',
        Rule::Link => c == '<' || c == '|' || c == '>',
        Rule::Heading => c == '*',
        Rule::CodeBlock => c == '`' || c == '\n',
    }
}

/// A rule brings no characters into a text but those that it writes.
pub proof fn law_rules_write_their_own(rule: Rule, line_start: bool, s: Seq<char>, c: char)
    requires
        lacks(s, c),
        !writes(rule, c),
    ensures
        lacks(replaced_from(rule, line_start, s), c),
    decreases s.len(),
{
    if s.len() > 0 {
        lemma_match_bounds(rule, line_start, s);
        match match_at(rule, line_start, s) {
            Some(found) => {
                let rest = s.skip(found.end);
                law_rules_write_their_own(rule, s[found.end - 1] == '\n', rest, c);
                match rule {
                    Rule::Bold => lemma_closing_stars(s, 3),
                    Rule::Italic => lemma_run_end(s, 1, Class::Except('*')),
                    Rule::Link => {
                        lemma_run_end(s, 1, Class::Except(']'));
                        lemma_run_end(
                            s,
                            run_end(s, 1, Class::Except(']')) + 2,
                            Class::Except(')'),
                        );
                    },
                    Rule::Heading => {
                        let level = run_end(s, 0, Class::Only('#'));
                        let lead = run_end(s, level, Class::Space);
                        lemma_run_end(s, 0, Class::Only('#'));
                        lemma_run_end(s, level, Class::Space);
                        lemma_title_start(s, level, lead);
                        lemma_run_end(s, title_start(s, level, lead)->0, Class::Except('\n'));
                    },
                    _ => {},
                }
                assert(lacks(found.put, c));
            },
            None => {
                law_rules_write_their_own(rule, s[0] == '\n', s.skip(1), c);
            },
        }
    }
}

/// Whether a line that opens a code block in a language stands in a text.
pub open spec fn names_language(s: Seq<char>) -> bool {
    exists|i: int| 0 <= i <= s.len() && code_block_at(#[trigger] s.skip(i)) is Some
}

/// Whether a bare fence stands at a place in a text.
spec fn bare_fence_at(s: Seq<char>, at: int) -> bool {
    stands_at(s, at, '`') && stands_at(s, at + 1, '`') && stands_at(s, at + 2, '`') && stands_at(s, at + 3, '\n')
}

/// As far as no bare fence stands in a text whose languages are gone, it is as it
/// was.
proof fn lemma_same_start(line_start: bool, s: Seq<char>, n: int)
    requires
        0 <= n <= replaced_from(Rule::CodeBlock, line_start, s).len(),
        forall|i: int|
            0 <= i < n ==> !#[trigger] bare_fence_at(
                replaced_from(Rule::CodeBlock, line_start, s),
                i,
            ),
    ensures
        n <= s.len(),
        s.take(n) == replaced_from(Rule::CodeBlock, line_start, s).take(n),
    decreases n,
{
    let out = replaced_from(Rule::CodeBlock, line_start, s);
    if n > 0 {
        lemma_match_bounds(Rule::CodeBlock, line_start, s);
        if match_at(Rule::CodeBlock, line_start, s) is Some {
            assert(bare_fence_at(out, 0));
        } else {
            let next = s[0] == '\n';
            let rest = s.skip(1);
            let rest_out = replaced_from(Rule::CodeBlock, next, rest);
            assert forall|i: int| 0 <= i < n - 1 implies !#[trigger] bare_fence_at(rest_out, i) by {
                assert(!bare_fence_at(out, i + 1));
            }
            lemma_same_start(next, rest, n - 1);
            assert(s.take(n) =~= seq![s[0]] + rest.take(n - 1));
            assert(out.take(n) =~= seq![s[0]] + rest_out.take(n - 1));
        }
    } else {
        assert(s.take(0) =~= out.take(0));
    }
}

/// A line that opens a code block in a language is known by its characters.
proof fn lemma_code_block_prefix(a: Seq<char>, b: Seq<char>)
    requires
        code_block_at(a) matches Some(found) && found.end <= b.len() && a.take(found.end)
            == b.take(found.end),
    ensures
        code_block_at(b) == code_block_at(a),
{
    let end = run_end(a, 3, Class::Word);
    lemma_run_end(a, 3, Class::Word);
    assert forall|i: int| 0 <= i <= end implies #[trigger] b[i] == a[i] by {
        assert(a.take(end + 1)[i] == b.take(end + 1)[i]);
    }
    lemma_run_is(b, 3, Class::Word, end);
}

/// Where no language is named at the start of a text, none is once the others
/// are gone.
proof fn lemma_start_stays(line_start: bool, s: Seq<char>)
    requires
        s.len() > 0,
        code_block_at(s) is None,
    ensures
        code_block_at(replaced_from(Rule::CodeBlock, line_start, s)) is None,
{
    let out = replaced_from(Rule::CodeBlock, line_start, s);
    if code_block_at(out) is Some {
        let next = s[0] == '\n';
        let rest = s.skip(1);
        let rest_out = replaced_from(Rule::CodeBlock, next, rest);
        assert(out == seq![s[0]] + rest_out);
        let n = run_end(out, 3, Class::Word);
        lemma_run_end(out, 3, Class::Word);
        assert forall|k: int| 0 <= k < n implies !#[trigger] bare_fence_at(rest_out, k) by {
            if k == 0 {
                assert(rest_out[2] == out[3]);
            } else if k < n - 1 {
                assert(rest_out[k + 1] == out[k + 2]);
            } else {
                assert(rest_out[k] == out[k + 1]);
            }
        }
        lemma_same_start(next, rest, n);
        assert(s.take(n + 1) =~= seq![s[0]] + rest.take(n));
        assert(out.take(n + 1) =~= seq![s[0]] + rest_out.take(n));
        lemma_code_block_prefix(out, s);
    }
}

/// No language is named in a bare fence and a text in which none is.
proof fn lemma_after_fence(behind: Seq<char>, i: int)
    requires
        !names_language(behind),
        0 <= i <= 4 + behind.len(),
    ensures
        code_block_at((seq!['`', '`', '`', '\n'] + behind).skip(i)) is None,
{
    let out = seq!['`', '`', '`', '\n'] + behind;
    if i >= 4 {
        assert(out.skip(i) =~= behind.skip(i - 4));
    } else {
        assert(out.skip(i)[3 - i] == '\n');
    }
}

/// Once the languages of code blocks are gone, none is left.
pub proof fn law_no_language_is_left(line_start: bool, s: Seq<char>)
    ensures
        !names_language(replaced_from(Rule::CodeBlock, line_start, s)),
    decreases s.len(),
{
    let out = replaced_from(Rule::CodeBlock, line_start, s);
    lemma_match_bounds(Rule::CodeBlock, line_start, s);
    if s.len() > 0 {
        match match_at(Rule::CodeBlock, line_start, s) {
            Some(found) => {
                let next = s[found.end - 1] == '\n';
                let rest = s.skip(found.end);
                let rest_out = replaced_from(Rule::CodeBlock, next, rest);
                law_no_language_is_left(next, rest);
                assert(out == seq!['`', '`', '`', '\n'] + rest_out);
                assert forall|i: int| 0 <= i <= out.len() implies code_block_at(
                    #[trigger] out.skip(i),
                ) is None by {
                    lemma_after_fence(rest_out, i);
                }
            },
            None => {
                let next = s[0] == '\n';
                let rest_out = replaced_from(Rule::CodeBlock, next, s.skip(1));
                law_no_language_is_left(next, s.skip(1));
                lemma_start_stays(line_start, s);
                assert(out == seq![s[0]] + rest_out);
                assert forall|i: int| 0 <= i <= out.len() implies code_block_at(
                    #[trigger] out.skip(i),
                ) is None by {
                    if i == 0 {
                        assert(out.skip(0) =~= out);
                    } else {
                        assert(out.skip(i) =~= rest_out.skip(i - 1));
                    }
                }
            },
        }
    }
}

} // verus!
