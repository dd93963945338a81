//! Cleanup of raw heading titles: inline tags, line breaks, emphasis and code
//! markers, and attribute annotations are taken out, round after round, until
//! nothing is left to take out.
use vstd::prelude::*;

verus! {

/// One cleanup pass over a title. Each pass scans the text left to right and
/// replaces every non-overlapping match of its pattern.
#[derive(Clone, Copy, Debug, PartialEq, Eq, Structural)]
pub enum Cleanup {
    /// The line-break tag `<br/>`, replaced by one space.
    LineBreak,
    /// An inline tag: `<`, an optional `/`, one or more of `a-z0-9-`, `>`; deleted.
    Tag,
    /// A backtick or an asterisk; deleted.
    Marker,
    /// An attribute annotation `{.xx}` or `{.xxx}` of lowercase letters; deleted.
    Annotation,
}

pub open spec fn is_lower(c: char) -> bool {
    'a' <= c && c <= 'z'
}

pub open spec fn is_tag_name_char(c: char) -> bool {
    is_lower(c) || ('0' <= c && c <= '9') || c == '-'
}

/// Number of consecutive tag-name characters of `s` from index `i` on.
pub open spec fn name_run(s: Seq<char>, i: int) -> nat
    decreases s.len() - i,
{
    if 0 <= i < s.len() && is_tag_name_char(s[i]) {
        1 + name_run(s, i + 1)
    } else {
        0
    }
}

/// Length of the inline tag that starts at index `i` of `s`, or 0 if none does.
pub open spec fn tag_len(s: Seq<char>, i: int) -> nat {
    let j = if i + 1 < s.len() && s[i + 1] == '/' { i + 2 } else { i + 1 };
    let n = name_run(s, j);
    if 0 <= i < s.len() && s[i] == '<' && n > 0 && j + n < s.len() && s[j + n] == '>' {
        (j + n + 1 - i) as nat
    } else {
        0
    }
}

/// Length of the attribute annotation that starts at index `i` of `s`, or 0.
pub open spec fn annotation_len(s: Seq<char>, i: int) -> nat {
    if 0 <= i && i + 5 <= s.len() && s[i] == '{' && s[i + 1] == '.' && is_lower(s[i + 2])
        && is_lower(s[i + 3]) {
        if s[i + 4] == '}' {
            5
        } else if i + 6 <= s.len() && is_lower(s[i + 4]) && s[i + 5] == '}' {
            6
        } else {
            0
        }
    } else {
        0
    }
}

/// Length of the match of pass `p` that starts at index `i` of `s`, or 0.
pub open spec fn match_len(p: Cleanup, s: Seq<char>, i: int) -> nat {
    match p {
        Cleanup::LineBreak => if 0 <= i && i + 5 <= s.len() && s[i] == '<' && s[i + 1] == 'b'
            && s[i + 2] == 'r' && s[i + 3] == '/' && s[i + 4] == '>' {
            5
        } else {
            0
        },
        Cleanup::Tag => tag_len(s, i),
        Cleanup::Marker => if 0 <= i < s.len() && (s[i] == '`' || s[i] == '*') {
            1
        } else {
            0
        },
        Cleanup::Annotation => annotation_len(s, i),
    }
}

/// What a match of pass `p` is replaced by.
pub open spec fn replacement(p: Cleanup) -> Seq<char> {
    match p {
        Cleanup::LineBreak => seq![' '],
        _ => Seq::empty(),
    }
}

/// The text that pass `p` makes of `s` from index `i` on.
pub open spec fn rewrite_from(p: Cleanup, s: Seq<char>, i: int) -> Seq<char>
    decreases s.len() - i,
{
    if i < 0 || i >= s.len() {
        Seq::empty()
    } else if match_len(p, s, i) > 0 {
        replacement(p) + rewrite_from(p, s, i + match_len(p, s, i))
    } else {
        seq![s[i]] + rewrite_from(p, s, i + 1)
    }
}

/// The text that pass `p` makes of `s`.
pub open spec fn rewrite(p: Cleanup, s: Seq<char>) -> Seq<char> {
    rewrite_from(p, s, 0)
}

/// One round of cleanup: line breaks become spaces, then tags, markers and
/// annotations are deleted, in that order.
pub open spec fn cleanup_round(s: Seq<char>) -> Seq<char> {
    rewrite(
        Cleanup::Annotation,
        rewrite(Cleanup::Marker, rewrite(Cleanup::Tag, rewrite(Cleanup::LineBreak, s))),
    )
}

/// Rounds of cleanup applied to `s` until one changes nothing, at most
/// `n + 1` of them.
pub open spec fn cleanup_rounds(s: Seq<char>, n: nat) -> Seq<char>
    decreases n,
{
    let r = cleanup_round(s);
    if r == s || n == 0 {
        r
    } else {
        cleanup_rounds(r, (n - 1) as nat)
    }
}

/// A normalized title: cleanup rounds repeated until nothing is left for
/// them to change. Each round that changes something shortens the text, so
/// one round per character, and a last one, always suffice.
pub open spec fn normalize(s: Seq<char>) -> Seq<char> {
    cleanup_rounds(s, s.len())
}

/// No pass finds anything to change in `s`.
pub open spec fn is_clean(s: Seq<char>) -> bool {
    forall|p: Cleanup, i: int| 0 <= i < s.len() ==> #[trigger] match_len(p, s, i) == 0
}

fn is_lower_exec(c: char) -> (b: bool)
    ensures
        b == is_lower(c),
{
    'a' <= c && c <= 'z'
}

fn is_tag_name_char_exec(c: char) -> (b: bool)
    ensures
        b == is_tag_name_char(c),
{
    is_lower_exec(c) || ('0' <= c && c <= '9') || c == '-'
}

fn tag_len_exec(s: &Vec<char>, i: usize) -> (m: usize)
    requires
        i < s.len(),
    ensures
        m == tag_len(s@, i as int),
        i + m <= s.len(),
{
    if s[i] != '<' {
        return 0;
    }
    let j: usize = if i + 1 < s.len() && s[i + 1] == '/' { i + 2 } else { i + 1 };
    let mut k: usize = j;
    while k < s.len() && is_tag_name_char_exec(s[k])
        invariant
            j <= k <= s.len(),
            name_run(s@, j as int) == (k - j) + name_run(s@, k as int),
        decreases s.len() - k,
    {
        k = k + 1;
    }
    if k > j && k < s.len() && s[k] == '>' {
        k + 1 - i
    } else {
        0
    }
}

fn annotation_len_exec(s: &Vec<char>, i: usize) -> (m: usize)
    requires
        i < s.len(),
    ensures
        m == annotation_len(s@, i as int),
        i + m <= s.len(),
{
    if s.len() - i >= 5 && s[i] == '{' && s[i + 1] == '.' && is_lower_exec(s[i + 2])
        && is_lower_exec(s[i + 3]) {
        if s[i + 4] == '}' {
            5
        } else if s.len() - i >= 6 && is_lower_exec(s[i + 4]) && s[i + 5] == '}' {
            6
        } else {
            0
        }
    } else {
        0
    }
}

fn match_len_exec(p: Cleanup, s: &Vec<char>, i: usize) -> (m: usize)
    requires
        i < s.len(),
    ensures
        m == match_len(p, s@, i as int),
        i + m <= s.len(),
{
    match p {
        Cleanup::LineBreak => if s.len() - i >= 5 && s[i] == '<' && s[i + 1] == 'b' && s[i + 2]
            == 'r' && s[i + 3] == '/' && s[i + 4] == '>' {
            5
        } else {
            0
        },
        Cleanup::Tag => tag_len_exec(s, i),
        Cleanup::Marker => if s[i] == '`' || s[i] == '*' {
            1
        } else {
            0
        },
        Cleanup::Annotation => annotation_len_exec(s, i),
    }
}

/// Runs one cleanup pass over `s`.
pub fn apply_cleanup(p: Cleanup, s: &Vec<char>) -> (r: Vec<char>)
    ensures
        r@ == rewrite(p, s@),
{
    let mut out: Vec<char> = Vec::new();
    let mut i: usize = 0;
    while i < s.len()
        invariant
            i <= s.len(),
            rewrite(p, s@) == out@ + rewrite_from(p, s@, i as int),
        decreases s.len() - i,
    {
        let m = match_len_exec(p, s, i);
        let ghost before = out@;
        if m > 0 {
            if p == Cleanup::LineBreak {
                out.push(' ');
            }
            assert(out@ =~= before + replacement(p));
            assert(out@ + rewrite_from(p, s@, (i + m) as int) =~= before + rewrite_from(
                p,
                s@,
                i as int,
            ));
            i = i + m;
        } else {
            out.push(s[i]);
            assert(out@ + rewrite_from(p, s@, (i + 1) as int) =~= before + rewrite_from(
                p,
                s@,
                i as int,
            ));
            i = i + 1;
        }
    }
    assert(out@ + rewrite_from(p, s@, i as int) =~= out@);
    out
}

/// One round of cleanup over `s`.
pub fn cleanup_round_chars(s: &Vec<char>) -> (r: Vec<char>)
    ensures
        r@ == cleanup_round(s@),
{
    let a = apply_cleanup(Cleanup::LineBreak, s);
    let b = apply_cleanup(Cleanup::Tag, &a);
    let c = apply_cleanup(Cleanup::Marker, &b);
    apply_cleanup(Cleanup::Annotation, &c)
}

/// Normalizes a title given as characters.
pub fn normalize_chars(s: &Vec<char>) -> (r: Vec<char>)
    ensures
        r@ == normalize(s@),
        is_clean(r@),
{
    let mut cur = cleanup_round_chars(s);
    let mut prev_len: usize = s.len();
    let ghost mut k: nat = s@.len();
    let ghost mut prev: Seq<char> = s@;
    proof {
        lemma_cleanup_round(s@);
    }
    while cur.len() < prev_len
        invariant
            cur@ == cleanup_round(prev),
            prev_len == prev.len(),
            k >= prev.len(),
            normalize(s@) == cleanup_rounds(prev, k),
            cur.len() < prev_len ==> cur@ != prev && k > 0,
            cur.len() >= prev_len ==> cur@ == prev,
        decreases prev_len,
    {
        let next = cleanup_round_chars(&cur);
        proof {
            lemma_cleanup_round(cur@);
            prev = cur@;
            k = (k - 1) as nat;
        }
        prev_len = cur.len();
        cur = next;
    }
    proof {
        lemma_cleanup_round(prev);
    }
    cur
}

/// Where pass `p` finds no match from index `i` on, it leaves that part alone.
proof fn lemma_rewrite_from_unmatched(p: Cleanup, s: Seq<char>, i: int)
    requires
        0 <= i <= s.len(),
        forall|j: int| i <= j < s.len() ==> #[trigger] match_len(p, s, j) == 0,
    ensures
        rewrite_from(p, s, i) == s.skip(i),
    decreases s.len() - i,
{
    if i < s.len() {
        lemma_rewrite_from_unmatched(p, s, i + 1);
        assert(s.skip(i) =~= seq![s[i]] + s.skip(i + 1));
    } else {
        assert(s.skip(i) =~= Seq::<char>::empty());
    }
}

/// A pass never lengthens the text, and shortens it where it finds a match.
proof fn lemma_rewrite_from_len(p: Cleanup, s: Seq<char>, i: int)
    requires
        0 <= i <= s.len(),
    ensures
        rewrite_from(p, s, i).len() <= s.len() - i,
        (exists|j: int| i <= j < s.len() && #[trigger] match_len(p, s, j) > 0) ==> rewrite_from(
            p,
            s,
            i,
        ).len() < s.len() - i,
    decreases s.len() - i,
{
    if i < s.len() {
        let m = match_len(p, s, i);
        if m > 0 {
            lemma_rewrite_from_len(p, s, i + m);
        } else {
            lemma_rewrite_from_len(p, s, i + 1);
            if exists|j: int| i <= j < s.len() && #[trigger] match_len(p, s, j) > 0 {
                let j = choose|j: int| i <= j < s.len() && #[trigger] match_len(p, s, j) > 0;
                assert(i + 1 <= j);
            }
        }
    }
}

proof fn lemma_rewrite(p: Cleanup, s: Seq<char>)
    ensures
        rewrite(p, s).len() <= s.len(),
        (exists|j: int| 0 <= j < s.len() && #[trigger] match_len(p, s, j) > 0) ==> rewrite(
            p,
            s,
        ).len() < s.len(),
        (forall|j: int| 0 <= j < s.len() ==> #[trigger] match_len(p, s, j) == 0) ==> rewrite(
            p,
            s,
        ) == s,
{
    lemma_rewrite_from_len(p, s, 0);
    if forall|j: int| 0 <= j < s.len() ==> #[trigger] match_len(p, s, j) == 0 {
        lemma_rewrite_from_unmatched(p, s, 0);
        assert(s.skip(0) =~= s);
    }
}

/// A round never lengthens the text; it changes nothing exactly when no
/// pass has anything to match, and otherwise shortens the text.
proof fn lemma_cleanup_round(y: Seq<char>)
    ensures
        cleanup_round(y).len() <= y.len(),
        is_clean(y) ==> cleanup_round(y) == y,
        !is_clean(y) ==> cleanup_round(y).len() < y.len(),
{
    let a = rewrite(Cleanup::LineBreak, y);
    let b = rewrite(Cleanup::Tag, a);
    let c = rewrite(Cleanup::Marker, b);
    lemma_rewrite(Cleanup::LineBreak, y);
    lemma_rewrite(Cleanup::Tag, a);
    lemma_rewrite(Cleanup::Marker, b);
    lemma_rewrite(Cleanup::Annotation, c);
    if !is_clean(y) {
        let (p, i) = choose|p: Cleanup, i: int|
            0 <= i < y.len() && #[trigger] match_len(p, y, i) != 0;
        assert(match_len(p, y, i) > 0);
        if !exists|j: int| 0 <= j < y.len() && #[trigger] match_len(Cleanup::LineBreak, y, j) > 0 {
            assert(a == y);
            if !exists|j: int| 0 <= j < y.len() && #[trigger] match_len(Cleanup::Tag, y, j) > 0 {
                assert(b == y);
                if !exists|j: int| 0 <= j < y.len() && #[trigger] match_len(Cleanup::Marker, y, j) > 0 {
                    assert(c == y);
                    assert(p == Cleanup::Annotation);
                }
            }
        }
    }
}

proof fn lemma_cleanup_rounds_clean(s: Seq<char>, n: nat)
    requires
        n >= s.len(),
    ensures
        is_clean(cleanup_rounds(s, n)),
    decreases n,
{
    let r = cleanup_round(s);
    lemma_cleanup_round(s);
    if r == s || n == 0 {
        if r != s {
            assert(s.len() == 0);
            assert(is_clean(s));
        }
    } else {
        lemma_cleanup_rounds_clean(r, (n - 1) as nat);
    }
}

/// A normalized title has nothing left for any cleanup pass to match.
pub proof fn lemma_normalize_clean(t: Seq<char>)
    ensures
        is_clean(normalize(t)),
{
    lemma_cleanup_rounds_clean(t, t.len());
}

/// Normalizing an already normalized title returns it unchanged.
pub proof fn lemma_normalize_idempotent(t: Seq<char>)
    ensures
        normalize(normalize(t)) == normalize(t),
{
    let y = normalize(t);
    lemma_normalize_clean(t);
    lemma_cleanup_round(y);
}

/// Relies on String::push: appends one character at the end.
#[verifier::external_body]
pub(crate) fn push_char(s: &mut String, c: char)
    ensures
        final(s)@ == old(s)@.push(c),
{
    s.push(c)
}

/// The characters of `s` from index `k` on.
pub(crate) fn chars_from(s: &str, k: usize) -> (r: Vec<char>)
    requires
        k <= s@.len(),
    ensures
        r@ == s@.skip(k as int),
{
    let n = s.unicode_len();
    let mut out: Vec<char> = Vec::new();
    let mut i: usize = k;
    while i < n
        invariant
            n == s@.len(),
            k <= i <= n,
            out@ == s@.subrange(k as int, i as int),
        decreases n - i,
    {
        let c = s.get_char(i);
        out.push(c);
        assert(out@ =~= s@.subrange(k as int, i + 1));
        i = i + 1;
    }
    assert(out@ =~= s@.skip(k as int));
    out
}

/// The string made of the characters of `v`.
pub(crate) fn string_of(v: &Vec<char>) -> (r: String)
    ensures
        r@ == v@,
{
    let mut out = String::new();
    let mut i: usize = 0;
    while i < v.len()
        invariant
            i <= v.len(),
            out@ == v@.take(i as int),
        decreases v.len() - i,
    {
        push_char(&mut out, v[i]);
        assert(out@ =~= v@.take(i + 1));
        i = i + 1;
    }
    assert(out@ =~= v@);
    out
}

/// Normalizes a raw heading title.
pub fn clean_title(title: &str) -> (r: String)
    ensures
        r@ == normalize(title@),
        is_clean(r@),
{
    let cs = chars_from(title, 0);
    assert(cs@ =~= title@);
    string_of(&normalize_chars(&cs))
}

} // verus!
