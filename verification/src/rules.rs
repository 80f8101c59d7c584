//! The text form of a blocklist: one rule per line, either a bare domain
//! or an address followed by a domain, with blank lines and `#` comments
//! in between.

use vstd::prelude::*;

use crate::names::chars_of;

verus! {

/// The characters that separate the words of a line: those with the
/// Unicode property `White_Space`.
pub open spec fn is_space(c: char) -> bool {
    let u = c as u32;
    ||| 0x09 <= u <= 0x0D
    ||| u == 0x20
    ||| u == 0x85
    ||| u == 0xA0
    ||| u == 0x1680
    ||| 0x2000 <= u <= 0x200A
    ||| u == 0x2028
    ||| u == 0x2029
    ||| u == 0x202F
    ||| u == 0x205F
    ||| u == 0x3000
}

/// The first position from `i` on that holds no space, or the end of `s`.
pub open spec fn skip_spaces(s: Seq<char>, i: int) -> int
    decreases s.len() - i,
{
    if 0 <= i < s.len() && is_space(s[i]) {
        skip_spaces(s, i + 1)
    } else {
        i
    }
}

/// The first position from `i` on that holds a space, or the end of `s`.
pub open spec fn skip_word(s: Seq<char>, i: int) -> int
    decreases s.len() - i,
{
    if 0 <= i < s.len() && !is_space(s[i]) {
        skip_word(s, i + 1)
    } else {
        i
    }
}

/// Where the domain stands in a line, if the line names one: the position
/// of its first character and the position behind its last.
///
/// A line of spaces only and a line whose first word starts with `#` name
/// none. Otherwise the domain is the second word of the line, or the only
/// word where there is no second.
pub open spec fn rule_span(line: Seq<char>) -> Option<(int, int)> {
    let first = skip_spaces(line, 0);
    let first_end = skip_word(line, first);
    let second = skip_spaces(line, first_end);
    if first >= line.len() || line[first] == '#' {
        None
    } else if second >= line.len() {
        Some((first, first_end))
    } else {
        Some((second, skip_word(line, second)))
    }
}

/// The domain that a line names, if it names one, in the spelling of the
/// line.
pub open spec fn rule_domain(line: Seq<char>) -> Option<Seq<char>> {
    match rule_span(line) {
        Some((from, to)) => Some(line.subrange(from, to)),
        None => None,
    }
}

/// Whether `c` separates words.
pub fn is_whitespace(c: char) -> (space: bool)
    ensures
        space == is_space(c),
{
    let u: u32 = c as u32;
    (0x09 <= u && u <= 0x0D) || u == 0x20 || u == 0x85 || u == 0xA0 || u == 0x1680 || (0x2000 <= u
        && u <= 0x200A) || u == 0x2028 || u == 0x2029 || u == 0x202F || u == 0x205F || u == 0x3000
}

/// Walks over the spaces of `chars` from `from` on.
fn find_word(chars: &Vec<char>, from: usize) -> (at: usize)
    requires
        from <= chars@.len(),
    ensures
        at == skip_spaces(chars@, from as int),
        from <= at <= chars@.len(),
{
    let mut at = from;
    while at < chars.len() && is_whitespace(chars[at])
        invariant
            from <= at <= chars@.len(),
            skip_spaces(chars@, from as int) == skip_spaces(chars@, at as int),
        decreases chars@.len() - at,
    {
        at += 1;
    }
    at
}

/// Walks over the word of `chars` that starts at `from`.
fn find_space(chars: &Vec<char>, from: usize) -> (at: usize)
    requires
        from <= chars@.len(),
    ensures
        at == skip_word(chars@, from as int),
        from <= at <= chars@.len(),
{
    let mut at = from;
    while at < chars.len() && !is_whitespace(chars[at])
        invariant
            from <= at <= chars@.len(),
            skip_word(chars@, from as int) == skip_word(chars@, at as int),
        decreases chars@.len() - at,
    {
        at += 1;
    }
    at
}

/// Reads one line of a blocklist and hands out the domain it names, in the
/// spelling of the line.
pub fn parse_rule(line: &str) -> (domain: Option<&str>)
    ensures
        match domain {
            Some(d) => rule_domain(line@) == Some(d@),
            None => rule_domain(line@) is None,
        },
{
    let chars = chars_of(line);
    let first = find_word(&chars, 0);
    if first >= chars.len() || chars[first] == '#' {
        return None;
    }
    let first_end = find_space(&chars, first);
    let second = find_word(&chars, first_end);
    if second >= chars.len() {
        Some(line.substring_char(first, first_end))
    } else {
        let second_end = find_space(&chars, second);
        Some(line.substring_char(second, second_end))
    }
}

/// `skip_spaces` stops behind a run of spaces, at the end or at a
/// character that is none.
proof fn lemma_skip_spaces(s: Seq<char>, i: int)
    requires
        0 <= i <= s.len(),
    ensures
        i <= skip_spaces(s, i) <= s.len(),
        forall|j: int| i <= j < skip_spaces(s, i) ==> is_space(#[trigger] s[j]),
        skip_spaces(s, i) < s.len() ==> !is_space(s[skip_spaces(s, i)]),
    decreases s.len() - i,
{
    if i < s.len() && is_space(s[i]) {
        lemma_skip_spaces(s, i + 1);
    }
}

/// `skip_word` stops behind a run of characters that are no spaces, at the
/// end or at a space.
proof fn lemma_skip_word(s: Seq<char>, i: int)
    requires
        0 <= i <= s.len(),
    ensures
        i <= skip_word(s, i) <= s.len(),
        forall|j: int| i <= j < skip_word(s, i) ==> !is_space(#[trigger] s[j]),
        skip_word(s, i) < s.len() ==> is_space(s[skip_word(s, i)]),
    decreases s.len() - i,
{
    if i < s.len() && !is_space(s[i]) {
        lemma_skip_word(s, i + 1);
    }
}

/// The domain of a line is one whole word of the line: it is not empty, it
/// holds no space, and it ends where the line ends or a space stands, as it
/// starts where the line starts or behind a space. A line has no domain
/// exactly when it holds spaces only or its first word starts with `#`.
pub proof fn law_rule_domain_is_a_word(line: Seq<char>)
    ensures
        match rule_span(line) {
            Some((from, to)) => {
                &&& 0 <= from < to <= line.len()
                &&& forall|j: int| from <= j < to ==> !is_space(#[trigger] line[j])
                &&& from == 0 || is_space(line[from - 1])
                &&& to == line.len() || is_space(line[to])
                &&& rule_domain(line) == Some(line.subrange(from, to))
                &&& line.subrange(from, to).len() > 0
                &&& forall|j: int|
                    0 <= j < to - from ==> !is_space(#[trigger] line.subrange(from, to)[j])
            },
            None => {
                &&& rule_domain(line) is None
                &&& skip_spaces(line, 0) >= line.len() || line[skip_spaces(line, 0)] == '#'
                &&& forall|j: int| 0 <= j < skip_spaces(line, 0) ==> is_space(#[trigger] line[j])
            },
        },
{
    let first = skip_spaces(line, 0);
    lemma_skip_spaces(line, 0);
    if first < line.len() && line[first] != '#' {
        let first_end = skip_word(line, first);
        lemma_skip_word(line, first);
        assert(first < first_end) by {
            assert(!is_space(line[first]));
        }
        let second = skip_spaces(line, first_end);
        lemma_skip_spaces(line, first_end);
        if second >= line.len() {
            assert(rule_span(line) == Some((first, first_end)));
            assert(first == 0 || is_space(line[first - 1]));
            assert forall|j: int| 0 <= j < first_end - first implies !is_space(
                #[trigger] line.subrange(first, first_end)[j],
            ) by {
                assert(line.subrange(first, first_end)[j] == line[first + j]);
            }
        } else {
            let second_end = skip_word(line, second);
            lemma_skip_word(line, second);
            assert(rule_span(line) == Some((second, second_end)));
            assert(first_end < line.len());
            assert(is_space(line[first_end]));
            assert(first_end < second);
            assert(is_space(line[second - 1]));
            assert(second < second_end) by {
                assert(!is_space(line[second]));
            }
            assert forall|j: int| 0 <= j < second_end - second implies !is_space(
                #[trigger] line.subrange(second, second_end)[j],
            ) by {
                assert(line.subrange(second, second_end)[j] == line[second + j]);
            }
        }
    } else {
        assert(rule_span(line) is None);
    }
}

} // verus!
