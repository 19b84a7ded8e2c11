//! Text helpers on top of the standard library's strings.

use vstd::prelude::*;
use vstd::string::*;

verus! {

/// The characters with Unicode's `White_Space` property.
pub open spec fn is_white_space(c: char) -> bool {
    ||| '\u{9}' <= c <= '\u{d}'
    ||| c == '\u{20}'
    ||| c == '\u{85}'
    ||| c == '\u{a0}'
    ||| c == '\u{1680}'
    ||| '\u{2000}' <= c <= '\u{200a}'
    ||| c == '\u{2028}'
    ||| c == '\u{2029}'
    ||| c == '\u{202f}'
    ||| c == '\u{205f}'
    ||| c == '\u{3000}'
}

/// `s` without the white space that it starts and ends with.
pub open spec fn trimmed(s: Seq<char>) -> Seq<char>
    decreases s.len(),
{
    if s.len() == 0 {
        s
    } else if is_white_space(s.first()) {
        trimmed(s.drop_first())
    } else if is_white_space(s.last()) {
        trimmed(s.drop_last())
    } else {
        s
    }
}

/// Whether `needle` stands somewhere in `s`.
pub open spec fn occurs(s: Seq<char>, needle: Seq<char>) -> bool {
    exists|i: int|
        0 <= i <= s.len() - needle.len() && #[trigger] s.subrange(i, i + needle.len()) == needle
}

/// Whether a character does not stand in `s`.
pub open spec fn lacks(s: Seq<char>, c: char) -> bool {
    forall|i: int| 0 <= i < s.len() ==> #[trigger] s[i] != c
}

/// Whether a text is made of white space.
pub open spec fn is_blank(s: Seq<char>) -> bool {
    forall|i: int| 0 <= i < s.len() ==> is_white_space(#[trigger] s[i])
}

/// `str::trim`: what is left of a string without the characters of the
/// `White_Space` property at either end.
pub assume_specification[ str::trim ](s: &str) -> (trimmed_text: &str)
    ensures
        trimmed_text@ == trimmed(s@),
;

/// `String::push`: the character becomes the last one.
pub assume_specification[ String::push ](s: &mut String, c: char)
    ensures
        final(s)@ == old(s)@.push(c),
;

/// `==` on `str`: equal exactly where the characters are.
pub assume_specification[ <str as PartialEq<str>>::eq ](a: &str, b: &str) -> (same: bool)
    ensures
        same == (a@ == b@),
;

/// `str::contains` with a string to look for.
#[verifier::external_body]
pub(crate) fn contains_text(s: &str, needle: &str) -> (found: bool)
    ensures
        found == occurs(s@, needle@),
{
    s.contains(needle)
}

/// What is left of a trimmed text has no white space at either end, and to trim
/// it again changes nothing.
pub proof fn law_trimmed(s: Seq<char>)
    ensures
        trimmed(s).len() > 0 ==> !is_white_space(trimmed(s).first()) && !is_white_space(
            trimmed(s).last(),
        ),
        trimmed(trimmed(s)) == trimmed(s),
    decreases s.len(),
{
    if s.len() > 0 {
        if is_white_space(s.first()) {
            law_trimmed(s.drop_first());
        } else if is_white_space(s.last()) {
            law_trimmed(s.drop_last());
        }
    }
}

/// White space before a text goes with it.
pub proof fn lemma_trim_before(blank: Seq<char>, s: Seq<char>)
    requires
        is_blank(blank),
    ensures
        trimmed(blank + s) == trimmed(s),
    decreases blank.len(),
{
    if blank.len() == 0 {
        assert(blank + s =~= s);
    } else {
        assert(is_white_space(blank[0]));
        assert((blank + s).drop_first() =~= blank.drop_first() + s);
        lemma_trim_before(blank.drop_first(), s);
    }
}

/// White space behind a text goes with it.
pub proof fn lemma_trim_behind(s: Seq<char>, blank: Seq<char>)
    requires
        is_blank(blank),
    ensures
        trimmed(s + blank) == trimmed(s),
    decreases s.len() + blank.len(),
{
    if blank.len() == 0 {
        assert(s + blank =~= s);
    } else if s.len() == 0 {
        lemma_trim_before(blank, s);
        assert(s + blank =~= blank + s);
    } else if is_white_space(s.first()) {
        assert((s + blank).drop_first() =~= s.drop_first() + blank);
        lemma_trim_behind(s.drop_first(), blank);
    } else {
        assert(is_white_space(blank.last()));
        assert((s + blank).drop_last() =~= s + blank.drop_last());
        lemma_trim_behind(s, blank.drop_last());
    }
}

/// Of a text with white space around it, what is left begins and ends with other
/// characters and is the whole of what stands between.
pub proof fn law_trimming_takes_the_white_space_around(
    before: Seq<char>,
    s: Seq<char>,
    behind: Seq<char>,
)
    requires
        is_blank(before),
        is_blank(behind),
        s.len() > 0 ==> !is_white_space(s.first()) && !is_white_space(s.last()),
    ensures
        trimmed(before + s + behind) == s,
{
    assert(before + s + behind =~= before + (s + behind));
    lemma_trim_before(before, s + behind);
    lemma_trim_behind(s, behind);
}

} // verus!
