//! Recognition of level-one and level-two heading lines, and the outline of a
//! sequence of lines.
use vstd::prelude::*;
use crate::outline::{Heading, HeadingView, Outline, dedup_adjacent, no_adjacent_equal};
use crate::title::{normalize, chars_from, normalize_chars, string_of};

verus! {

/// Characters with the Unicode `White_Space` property.
pub open spec fn is_ws(c: char) -> bool {
    ('\u{9}' <= c && c <= '\u{d}') || c == ' ' || c == '\u{85}' || c == '\u{a0}' || c
        == '\u{1680}' || ('\u{2000}' <= c && c <= '\u{200a}') || c == '\u{2028}' || c
        == '\u{2029}' || c == '\u{202f}' || c == '\u{205f}' || c == '\u{3000}'
}

/// Whether `c` is a Unicode white-space character.
pub fn is_whitespace_char(c: char) -> (b: bool)
    ensures
        b == is_ws(c),
{
    ('\u{9}' <= c && c <= '\u{d}') || c == ' ' || c == '\u{85}' || c == '\u{a0}' || c
        == '\u{1680}' || ('\u{2000}' <= c && c <= '\u{200a}') || c == '\u{2028}' || c
        == '\u{2029}' || c == '\u{202f}' || c == '\u{205f}' || c == '\u{3000}'
}

/// The heading that a line stands for, if any: `#` or `##`, one white-space
/// character, then the title, which is normalized.
pub open spec fn classify(line: Seq<char>) -> Option<HeadingView> {
    if line.len() >= 2 && line[0] == '#' && is_ws(line[1]) {
        Some(HeadingView::H1(normalize(line.skip(2))))
    } else if line.len() >= 3 && line[0] == '#' && line[1] == '#' && is_ws(line[2]) {
        Some(HeadingView::H2(normalize(line.skip(3))))
    } else {
        None
    }
}

/// The view of an optional heading.
pub open spec fn opt_view(h: Option<Heading>) -> Option<HeadingView> {
    match h {
        Some(x) => Some(x@),
        None => None,
    }
}

/// The headings of `lines`, in order, before adjacent duplicates are collapsed.
pub open spec fn headings_of(lines: Seq<String>) -> Seq<HeadingView>
    decreases lines.len(),
{
    if lines.len() == 0 {
        Seq::empty()
    } else {
        let rest = headings_of(lines.drop_last());
        match classify(lines.last()@) {
            Some(h) => rest.push(h),
            None => rest,
        }
    }
}

/// The outline of `lines`.
pub open spec fn outline_of(lines: Seq<String>) -> Seq<HeadingView> {
    dedup_adjacent(headings_of(lines))
}

/// Classifies one line of text, without its line terminator.
pub fn parse_line(line: &str) -> (r: Option<Heading>)
    ensures
        opt_view(r) == classify(line@),
{
    let n = line.unicode_len();
    if n >= 2 && line.get_char(0) == '#' && is_whitespace_char(line.get_char(1)) {
        let t = string_of(&normalize_chars(&chars_from(line, 2)));
        Some(Heading::H1(t))
    } else if n >= 3 && line.get_char(0) == '#' && line.get_char(1) == '#'
        && is_whitespace_char(line.get_char(2)) {
        let t = string_of(&normalize_chars(&chars_from(line, 3)));
        Some(Heading::H2(t))
    } else {
        None
    }
}

/// Builds the outline of a document given as its lines, in order: each
/// heading line contributes its heading, then runs of equal adjacent headings
/// are collapsed.
pub fn parse_lines(lines: &Vec<String>) -> (r: Outline)
    ensures
        r@ == outline_of(lines@),
        no_adjacent_equal(r@),
{
    let mut result = Outline::new();
    let mut i: usize = 0;
    while i < lines.len()
        invariant
            i <= lines.len(),
            result@ == headings_of(lines@.take(i as int)),
        decreases lines.len() - i,
    {
        assert(lines@.take(i + 1).drop_last() =~= lines@.take(i as int));
        match parse_line(lines[i].as_str()) {
            Some(h) => result.push(h),
            None => {},
        }
        i = i + 1;
    }
    assert(lines@.take(i as int) =~= lines@);
    result.dedup();
    result
}

/// A line made of `#`, one white-space character and any text is a
/// level-one heading whose title is that text, normalized.
pub proof fn lemma_level_one_line(line: Seq<char>)
    requires
        line.len() >= 2,
        line[0] == '#',
        is_ws(line[1]),
    ensures
        classify(line) == Some(HeadingView::H1(normalize(line.skip(2)))),
{
}

/// A line made of `##`, one white-space character and any text is a
/// level-two heading whose title is that text, normalized.
pub proof fn lemma_level_two_line(line: Seq<char>)
    requires
        line.len() >= 3,
        line[0] == '#',
        line[1] == '#',
        is_ws(line[2]),
    ensures
        classify(line) == Some(HeadingView::H2(normalize(line.skip(3)))),
{
}

/// A line that starts with three or more `#` is never a heading.
pub proof fn lemma_deeper_line_ignored(line: Seq<char>)
    requires
        line.len() >= 3,
        line[0] == '#',
        line[1] == '#',
        line[2] == '#',
    ensures
        classify(line) is None,
{
}

} // verus!
