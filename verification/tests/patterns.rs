//! What the patterns match, and what takes the place of a match: tried on all
//! short texts over a few telling characters.

use regex::Regex;
use slack_adapter::pattern::{BOLD, CODE_BLOCK_LANG, HEADING, ITALIC, LINK, MENTION};

/// All texts over an alphabet with at most so many characters.
fn texts(alphabet: &[char], longest: usize) -> Vec<String> {
    let mut all = vec![String::new()];
    let mut last = all.clone();
    for _ in 0..longest {
        let mut next = Vec::new();
        for text in &last {
            for c in alphabet {
                next.push(format!("{text}{c}"));
            }
        }
        all.extend(next.iter().cloned());
        last = next;
    }
    all
}

/// The end of a match at the start of a text, and what takes its place.
type Found = Option<(usize, String)>;

fn stands_at(s: &[char], at: usize, c: char) -> bool {
    s.get(at) == Some(&c)
}

fn run_end(s: &[char], from: usize, class: &dyn Fn(char) -> bool) -> usize {
    let mut end = from;
    while end < s.len() && class(s[end]) {
        end += 1;
    }
    end
}

fn part(s: &[char], from: usize, to: usize) -> String {
    s[from..to].iter().collect()
}

fn mention_at(s: &[char], _line_start: bool) -> Found {
    let end = run_end(s, 2, &|c| c.is_ascii_uppercase() || c.is_ascii_digit());
    let found = stands_at(s, 0, '<') && stands_at(s, 1, '@') && end > 2 && stands_at(s, end, '>');
    found.then_some((end + 1, String::new()))
}

fn bold_at(s: &[char], _line_start: bool) -> Found {
    if !stands_at(s, 0, '*') || !stands_at(s, 1, '*') || s.len() < 3 || s[2] == '\n' {
        return None;
    }
    let mut end = 3;
    while end < s.len() {
        if s[end] == '*' && stands_at(s, end + 1, '*') {
            return Some((end + 2, format!("\x01{}\x02", part(s, 2, end))));
        }
        if s[end] == '\n' {
            return None;
        }
        end += 1;
    }
    None
}

fn italic_at(s: &[char], _line_start: bool) -> Found {
    let end = run_end(s, 1, &|c| c != '*');
    if stands_at(s, 0, '*') && end > 1 && stands_at(s, end, '*') {
        Some((end + 1, format!("_{}_", part(s, 1, end))))
    } else {
        None
    }
}

fn link_at(s: &[char], _line_start: bool) -> Found {
    let label_end = run_end(s, 1, &|c| c != ']');
    let url = label_end + 2;
    let url_end = run_end(s, url, &|c| c != ')');
    if stands_at(s, 0, '[')
        && label_end > 1
        && stands_at(s, label_end, ']')
        && stands_at(s, label_end + 1, '(')
        && url_end > url
        && stands_at(s, url_end, ')')
    {
        Some((url_end + 1, format!("<{}|{}>", part(s, url, url_end), part(s, 1, label_end))))
    } else {
        None
    }
}

fn heading_at(s: &[char], line_start: bool) -> Found {
    let level = run_end(s, 0, &|c| c == '#');
    let lead = run_end(s, level, &char::is_whitespace);
    if !line_start || level == 0 || level > 6 {
        return None;
    }
    let mut title = lead;
    while title > level {
        if title < s.len() && s[title] != '\n' {
            let end = run_end(s, title, &|c| c != '\n');
            return Some((end, format!("*{}*", part(s, title, end))));
        }
        title -= 1;
    }
    None
}

fn code_block_at(s: &[char], _line_start: bool) -> Found {
    let end = run_end(s, 3, &|c| c.is_alphanumeric() || c == '_');
    let found = s.len() > 3 && s[..3] == ['`'; 3] && end > 3 && stands_at(s, end, '\n');
    found.then_some((end + 1, "```\n".to_string()))
}

fn replaced(text: &str, match_at: fn(&[char], bool) -> Found) -> String {
    let chars: Vec<char> = text.chars().collect();
    let mut out = String::new();
    let mut at = 0;
    while at < chars.len() {
        match match_at(&chars[at..], at == 0 || chars[at - 1] == '\n') {
            Some((end, put)) => {
                out.push_str(&put);
                at += end;
            }
            None => {
                out.push(chars[at]);
                at += 1;
            }
        }
    }
    out
}

fn try_all(
    pattern: &str,
    replacement: &str,
    match_at: fn(&[char], bool) -> Found,
    tried: &[String],
) {
    let regex = Regex::new(pattern).unwrap();
    let mut changed = 0;
    for text in tried {
        let result = regex.replace_all(text, replacement);
        assert_eq!(result, replaced(text, match_at), "of {text:?}");
        if result != *text {
            changed += 1;
        }
    }
    assert!(changed > 0);
}

#[test]
fn mentions_match() {
    try_all(MENTION, "", mention_at, &texts(&['<', '@', '>', 'A', '7'], 6));
    try_all(MENTION, "", mention_at, &texts(&['<', '@', '>', 'Z', 'z'], 6));
}

#[test]
fn bold_texts_match() {
    try_all(BOLD, "\x01$1\x02", bold_at, &texts(&['*', 'a', '\n'], 10));
    try_all(BOLD, "\x01$1\x02", bold_at, &texts(&['*', '\r', 'é', '\x01'], 6));
}

#[test]
fn italic_texts_match() {
    try_all(ITALIC, "_${1}_", italic_at, &texts(&['*', 'a', '\n', '_'], 7));
}

#[test]
fn links_match() {
    let longer: Vec<String> =
        texts(&['[', ']', '(', ')', 'a'], 5).iter().map(|s| format!("[a](b){s}")).collect();
    try_all(LINK, "<$2|$1>", link_at, &longer);
    let inner: Vec<String> =
        texts(&['[', ']', '(', ')', '\n'], 5).iter().map(|s| format!("[x{s}y)")).collect();
    try_all(LINK, "<$2|$1>", link_at, &inner);
    try_all(LINK, "<$2|$1>", link_at, &texts(&['[', ']', '(', ')', 'a'], 7));
}

#[test]
fn headings_match() {
    try_all(HEADING, "*$1*", heading_at, &texts(&['#', ' ', '\n', 'a'], 8));
    try_all(HEADING, "*$1*", heading_at, &texts(&['#', '\u{3000}', '\r', '\n', 'é'], 5));
    let deep: Vec<String> =
        texts(&['#', ' ', '\n', 'a'], 5).iter().map(|s| format!("#####{s}")).collect();
    try_all(HEADING, "*$1*", heading_at, &deep);
}

#[test]
fn code_blocks_match() {
    try_all(CODE_BLOCK_LANG, "```\n", code_block_at, &texts(&['`', 'a', '\n'], 9));
    let tagged: Vec<String> = texts(&['Z', '9', '_', '-', '\n', '`'], 4)
        .iter()
        .map(|s| format!("```{s}\n"))
        .collect();
    try_all(CODE_BLOCK_LANG, "```\n", code_block_at, &tagged);
    // Letters outside ASCII make a language, signs do not.
    let other: Vec<String> =
        texts(&['é', '語', '→', '\u{a0}'], 3).iter().map(|s| format!("```{s}\n")).collect();
    try_all(CODE_BLOCK_LANG, "```\n", code_block_at, &other);
}
