use synopsoid::title::{apply_cleanup, Cleanup};
use synopsoid::{clean_title, parse_line, parse_lines, Heading, Outline};

fn lines(v: &[&str]) -> Vec<String> {
    v.iter().map(|s| s.to_string()).collect()
}

fn h1(t: &str) -> Heading {
    Heading::H1(t.to_string())
}

fn h2(t: &str) -> Heading {
    Heading::H2(t.to_string())
}

#[test]
fn level_one_line_gives_h1() {
    assert_eq!(parse_line("# Title"), Some(h1("Title")));
    assert_eq!(parse_line("#\tTabbed"), Some(h1("Tabbed")));
    assert_eq!(parse_line("# Hello *world*"), Some(h1("Hello world")));
    assert_eq!(parse_line("#  two spaces"), Some(h1(" two spaces")));
    assert_eq!(parse_line("#\u{3000}wide"), Some(h1("wide")));
}

#[test]
fn empty_title_is_still_a_heading() {
    assert_eq!(parse_line("# "), Some(h1("")));
    assert_eq!(parse_line("## "), Some(h2("")));
}

#[test]
fn level_two_line_gives_h2() {
    assert_eq!(parse_line("## Sub"), Some(h2("Sub")));
    assert_eq!(parse_line("##\t`code`"), Some(h2("code")));
}

#[test]
fn other_lines_are_not_headings() {
    assert_eq!(parse_line(""), None);
    assert_eq!(parse_line("#"), None);
    assert_eq!(parse_line("##"), None);
    assert_eq!(parse_line("#Title"), None);
    assert_eq!(parse_line("##Sub"), None);
    assert_eq!(parse_line("### Deep"), None);
    assert_eq!(parse_line("#### Deeper"), None);
    assert_eq!(parse_line("plain text"), None);
    assert_eq!(parse_line(" # indented"), None);
}

#[test]
fn normalizing_twice_changes_nothing() {
    for t in ["Hello <b>world</b>{.sm}", "a<br/>b", "`x` and *y*", "plain", ""] {
        let once = clean_title(t);
        assert_eq!(clean_title(&once), once);
    }
}

#[test]
fn normalizing_removes_tags_built_by_an_earlier_round() {
    let once = clean_title("<<b>b>");
    assert_eq!(once, "");
    assert_eq!(clean_title(&once), once);
    assert_eq!(clean_title("<*b>x</b>"), "x");
    assert_eq!(clean_title("{*.ab}"), "");
    assert_eq!(clean_title("{.{.ab}cd}"), "");
    assert_eq!(parse_line("# <<b>b>"), Some(h1("")));
}

#[test]
fn normalizing_twice_changes_nothing_on_nested_markup() {
    for t in ["<<b>b>", "<br<br/>/>", "{*.ab}", "a <> b", "<B>up</B>", "x{.abcd}"] {
        let once = clean_title(t);
        assert_eq!(clean_title(&once), once);
    }
}

#[test]
fn adjacent_duplicates_collapse() {
    let o = parse_lines(&lines(&["# Title", "# Title", "## Sub"]));
    assert_eq!(o.headings, vec![h1("Title"), h2("Sub")]);
}

#[test]
fn non_adjacent_duplicates_stay() {
    let o = parse_lines(&lines(&["# A", "## B", "# A"]));
    assert_eq!(o.headings, vec![h1("A"), h2("B"), h1("A")]);
}

#[test]
fn same_title_different_rank_stays() {
    let o = parse_lines(&lines(&["# A", "## A", "## A", "text", "## A"]));
    assert_eq!(o.headings, vec![h1("A"), h2("A")]);
}

#[test]
fn lines_without_headings_give_an_empty_outline() {
    assert_eq!(parse_lines(&lines(&[])).headings, vec![]);
    assert_eq!(parse_lines(&lines(&["text", "### deep"])).headings, vec![]);
}

#[test]
fn tags_and_annotations_are_removed() {
    assert_eq!(clean_title("Hello <b>world</b>{.sm}"), "Hello world");
    assert_eq!(clean_title("x{.abc}y"), "xy");
    assert_eq!(clean_title("x{.a}y{.abcd}"), "x{.a}y{.abcd}");
    assert_eq!(clean_title("<my-tag2>z</my-tag2>"), "z");
    assert_eq!(clean_title("<B>up</B>"), "<B>up</B>");
    assert_eq!(clean_title("a <> b"), "a <> b");
}

#[test]
fn markers_are_removed() {
    assert_eq!(clean_title("`code`"), "code");
    assert_eq!(clean_title("*em*"), "em");
    assert_eq!(clean_title("**strong** `x`"), "strong x");
}

#[test]
fn line_break_becomes_space() {
    assert_eq!(clean_title("one<br/>two"), "one two");
    assert_eq!(apply_cleanup(Cleanup::LineBreak, &"a<br/>b".chars().collect()), vec!['a', ' ', 'b']);
}

#[test]
fn text_layout_has_one_blank_line_before_second_h1() {
    let mut o = Outline::new();
    o.push(h1("One"));
    o.push(h2("Two"));
    o.push(h1("Three"));
    assert_eq!(o.render_plain(), "\u{21d2} One\n  \u{21b3} Two\n\n\u{21d2} Three\n");
}

#[test]
fn text_layout_of_leading_h2() {
    let o = parse_lines(&lines(&["## a", "# b", "# c"]));
    assert_eq!(o.render_plain(), "  \u{21b3} a\n\u{21d2} b\n\n\u{21d2} c\n");
    assert_eq!(Outline::new().render_plain(), "");
}

#[test]
fn render_emphasizes_level_one_titles_only_when_colouring() {
    let o = parse_lines(&lines(&["# One", "## Two"]));
    colored::control::set_override(true);
    assert_eq!(o.render(), "\u{21d2} \u{1b}[1mOne\u{1b}[0m\n  \u{21b3} Two\n");
    let inner = parse_lines(&lines(&["# a\u{1b}[0mb"]));
    assert_eq!(
        inner.render(),
        "\u{21d2} \u{1b}[1ma\u{1b}[0m\u{1b}[1mb\u{1b}[0m\n"
    );
    colored::control::set_override(false);
    assert_eq!(o.render(), o.render_plain());
}

#[test]
fn default_outline_is_empty() {
    assert_eq!(Outline::default().headings, vec![]);
}
