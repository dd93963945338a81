//! Text layout of an outline: an arrow line for each level-one heading, with
//! a blank line before every one but the first, and an indented corner line
//! for each level-two heading.
use vstd::prelude::*;
use colored::Colorize;
use crate::outline::{Heading, HeadingView, Outline};
use crate::title::push_char;

verus! {

/// The terminal sequence that ends all styling.
pub open spec fn reset_code() -> Seq<char> {
    seq!['\u{1b}', '[', '0', 'm']
}

/// The terminal sequence that starts bold text.
pub open spec fn bold_code() -> Seq<char> {
    seq!['\u{1b}', '[', '1', 'm']
}

/// `s` with the bold code put back after every reset code, scanning left to
/// right.
pub open spec fn rebold_after_resets(s: Seq<char>) -> Seq<char>
    decreases s.len(),
{
    if s.len() == 0 {
        s
    } else if s.len() >= 4 && s.take(4) == reset_code() {
        reset_code() + bold_code() + rebold_after_resets(s.skip(4))
    } else {
        seq![s[0]] + rebold_after_resets(s.skip(1))
    }
}

/// The bold form of a text on a terminal.
pub open spec fn bold_form(s: Seq<char>) -> Seq<char> {
    bold_code() + rebold_after_resets(s) + reset_code()
}

/// Relies on colored's `Colorize::bold` and the `Display` of its
/// `ColoredString`: where colouring is off the text comes back unchanged;
/// where it is on, it comes back as the bold code, the text with the bold
/// code put back after each reset code, and the reset code.
#[verifier::external_body]
fn emphasize(s: &String) -> (r: String)
    ensures
        r@ == s@ || r@ == bold_form(s@),
{
    s.as_str().bold().to_string()
}

/// Whether some heading of `hs` is of level one.
pub open spec fn contains_h1(hs: Seq<HeadingView>) -> bool
    decreases hs.len(),
{
    hs.len() > 0 && (hs.last() is H1 || contains_h1(hs.drop_last()))
}

/// The text line of one heading; `after_h1` tells whether a level-one heading
/// came before it.
pub open spec fn heading_line(h: HeadingView, after_h1: bool) -> Seq<char> {
    match h {
        HeadingView::H1(t) => (if after_h1 {
            seq!['\n']
        } else {
            Seq::empty()
        }) + seq!['\u{21d2}', ' '] + t + seq!['\n'],
        HeadingView::H2(t) => seq![' ', ' ', '\u{21b3}', ' '] + t + seq!['\n'],
    }
}

/// The text layout of the headings `hs`.
pub open spec fn text_layout(hs: Seq<HeadingView>) -> Seq<char>
    decreases hs.len(),
{
    if hs.len() == 0 {
        Seq::empty()
    } else {
        text_layout(hs.drop_last()) + heading_line(hs.last(), contains_h1(hs.drop_last()))
    }
}

/// `e` is `h` as shown on a terminal: a level-one title possibly in bold.
pub open spec fn shown_as(h: HeadingView, e: HeadingView) -> bool {
    match (h, e) {
        (HeadingView::H1(t), HeadingView::H1(u)) => u == t || u == bold_form(t),
        (HeadingView::H2(t), HeadingView::H2(u)) => u == t,
        _ => false,
    }
}

/// `es` is `hs` as shown on a terminal, heading by heading.
pub open spec fn all_shown_as(hs: Seq<HeadingView>, es: Seq<HeadingView>) -> bool {
    es.len() == hs.len() && forall|i: int| 0 <= i < hs.len() ==> #[trigger] shown_as(hs[i], es[i])
}

fn append_chars(out: &mut String, cs: &[char])
    ensures
        final(out)@ == old(out)@ + cs@,
{
    let mut i: usize = 0;
    while i < cs.len()
        invariant
            i <= cs.len(),
            out@ == old(out)@ + cs@.take(i as int),
        decreases cs.len() - i,
    {
        push_char(out, cs[i]);
        assert(out@ =~= old(out)@ + cs@.take(i + 1));
        i = i + 1;
    }
    assert(cs@.take(i as int) =~= cs@);
}

impl Outline {
    /// The text layout of the outline, titles as they are.
    pub fn render_plain(&self) -> (r: String)
        ensures
            r@ == text_layout(self@),
    {
        let mut out = String::new();
        let mut seen_h1 = false;
        let mut i: usize = 0;
        while i < self.headings.len()
            invariant
                i <= self.headings.len(),
                out@ == text_layout(self@.take(i as int)),
                seen_h1 == contains_h1(self@.take(i as int)),
            decreases self.headings.len() - i,
        {
            let ghost before = out@;
            assert(self@.take(i + 1).drop_last() =~= self@.take(i as int));
            assert(self@.take(i + 1).last() == self.headings[i as int]@);
            match &self.headings[i] {
                Heading::H1(t) => {
                    if seen_h1 {
                        push_char(&mut out, '\n');
                    }
                    append_chars(&mut out, &['\u{21d2}', ' ']);
                    out.append(t.as_str());
                    push_char(&mut out, '\n');
                    seen_h1 = true;
                },
                Heading::H2(t) => {
                    append_chars(&mut out, &[' ', ' ', '\u{21b3}', ' ']);
                    out.append(t.as_str());
                    push_char(&mut out, '\n');
                },
            }
            assert(out@ =~= before + heading_line(self@[i as int], contains_h1(self@.take(i as int))));
            i = i + 1;
        }
        assert(self@.take(i as int) =~= self@);
        out
    }

    /// The outline with each level-one title as a terminal shows it.
    fn emphasized(&self) -> (r: Outline)
        ensures
            all_shown_as(self@, r@),
    {
        let mut hs: Vec<Heading> = Vec::new();
        let mut i: usize = 0;
        while i < self.headings.len()
            invariant
                i <= self.headings.len(),
                hs.len() == i,
                forall|j: int| 0 <= j < i ==> #[trigger] shown_as(self@[j], hs@[j]@),
            decreases self.headings.len() - i,
        {
            let h = match &self.headings[i] {
                Heading::H1(t) => Heading::H1(emphasize(t)),
                Heading::H2(t) => Heading::H2(t.clone()),
            };
            hs.push(h);
            i = i + 1;
        }
        let r = Outline { headings: hs };
        assert forall|j: int| 0 <= j < self@.len() implies #[trigger] shown_as(self@[j], r@[j]) by {
            assert(shown_as(self@[j], hs@[j]@));
        }
        r
    }

    /// The text layout of the outline for a terminal, level-one titles
    /// emphasized where the terminal takes colouring.
    pub fn render(&self) -> (r: String)
        ensures
            exists|es: Seq<HeadingView>| #[trigger] all_shown_as(self@, es) && r@ == text_layout(es),
    {
        let e = self.emphasized();
        let r = e.render_plain();
        assert(all_shown_as(self@, e@));
        r
    }
}

} // verus!
