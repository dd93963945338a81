//! The outline data model: headings of two ranks, in document order, with
//! runs of equal adjacent headings collapsed.
use vstd::prelude::*;

verus! {

/// A heading of rank one or two, with its title.
#[derive(Debug)]
pub enum Heading {
    H1(String),
    H2(String),
}

/// The mathematical value of a heading: its rank and its title's characters.
pub enum HeadingView {
    H1(Seq<char>),
    H2(Seq<char>),
}

impl View for Heading {
    type V = HeadingView;

    open spec fn view(&self) -> HeadingView {
        match self {
            Heading::H1(t) => HeadingView::H1(t@),
            Heading::H2(t) => HeadingView::H2(t@),
        }
    }
}

impl Heading {
    /// A heading of the same rank with an equal title.
    pub fn duplicate(&self) -> (r: Heading)
        ensures
            r@ == self@,
    {
        match self {
            Heading::H1(t) => Heading::H1(t.clone()),
            Heading::H2(t) => Heading::H2(t.clone()),
        }
    }

    /// Whether two headings have the same rank and equal titles.
    pub fn same_as(&self, o: &Heading) -> (r: bool)
        ensures
            r == (self@ == o@),
    {
        match (self, o) {
            (Heading::H1(a), Heading::H1(b)) => *a == *b,
            (Heading::H2(a), Heading::H2(b)) => *a == *b,
            _ => false,
        }
    }
}

impl PartialEq for Heading {
    fn eq(&self, o: &Heading) -> (r: bool) {
        self.same_as(o)
    }
}

impl vstd::std_specs::cmp::PartialEqSpecImpl for Heading {
    open spec fn obeys_eq_spec() -> bool {
        true
    }

    open spec fn eq_spec(&self, o: &Heading) -> bool {
        self@ == o@
    }
}

/// `s` with every run of equal adjacent elements collapsed to one element.
pub open spec fn dedup_adjacent<A>(s: Seq<A>) -> Seq<A>
    decreases s.len(),
{
    if s.len() == 0 {
        s
    } else {
        let rest = dedup_adjacent(s.drop_last());
        if s.len() >= 2 && s[s.len() - 1] == s[s.len() - 2] {
            rest
        } else {
            rest.push(s.last())
        }
    }
}

/// No two adjacent elements of `s` are equal.
pub open spec fn no_adjacent_equal<A>(s: Seq<A>) -> bool {
    forall|i: int| 0 < i < s.len() ==> #[trigger] s[i] != s[i - 1]
}

/// Collapsing runs leaves no two adjacent elements equal, and keeps the last
/// element of a non-empty sequence.
pub proof fn lemma_dedup_adjacent<A>(s: Seq<A>)
    ensures
        no_adjacent_equal(dedup_adjacent(s)),
        s.len() > 0 ==> dedup_adjacent(s).len() > 0 && dedup_adjacent(s).last() == s.last(),
        dedup_adjacent(s).len() <= s.len(),
    decreases s.len(),
{
    if s.len() > 0 {
        lemma_dedup_adjacent(s.drop_last());
        let rest = dedup_adjacent(s.drop_last());
        if s.len() >= 2 && s[s.len() - 1] == s[s.len() - 2] {
        } else {
            let r = rest.push(s.last());
            assert forall|i: int| 0 < i < r.len() implies #[trigger] r[i] != r[i - 1] by {
                if i == r.len() - 1 && rest.len() > 0 {
                    assert(r[i - 1] == rest.last());
                }
                if i < r.len() - 1 {
                    assert(r[i] == rest[i] && r[i - 1] == rest[i - 1]);
                }
            }
        }
    }
}

/// A document outline: its headings in document order.
#[derive(Debug)]
pub struct Outline {
    pub headings: Vec<Heading>,
}

impl View for Outline {
    type V = Seq<HeadingView>;

    open spec fn view(&self) -> Seq<HeadingView> {
        self.headings@.map_values(|h: Heading| h@)
    }
}

impl Outline {
    /// An outline with no headings.
    pub fn new() -> (r: Outline)
        ensures
            r@ == Seq::<HeadingView>::empty(),
    {
        let r = Outline { headings: Vec::new() };
        assert(r@ =~= Seq::<HeadingView>::empty());
        r
    }

    /// Appends a heading at the end.
    pub fn push(&mut self, h: Heading)
        ensures
            final(self)@ == old(self)@.push(h@),
    {
        let ghost hv = h@;
        self.headings.push(h);
        assert(self@ =~= old(self)@.push(hv));
    }

    /// Collapses each run of equal adjacent headings into one heading.
    pub fn dedup(&mut self)
        ensures
            final(self)@ == dedup_adjacent(old(self)@),
            no_adjacent_equal(final(self)@),
    {
        let ghost src = self@;
        let mut out: Vec<Heading> = Vec::new();
        let mut i: usize = 0;
        while i < self.headings.len()
            invariant
                i <= self.headings.len(),
                self@ == src,
                out@.map_values(|h: Heading| h@) == dedup_adjacent(src.take(i as int)),
            decreases self.headings.len() - i,
        {
            let ghost before = out@.map_values(|h: Heading| h@);
            assert(src.take(i + 1).drop_last() =~= src.take(i as int));
            if i > 0 && self.headings[i].same_as(&self.headings[i - 1]) {
            } else {
                let h = self.headings[i].duplicate();
                out.push(h);
                assert(out@.map_values(|h: Heading| h@) =~= before.push(src[i as int]));
            }
            i = i + 1;
        }
        assert(src.take(i as int) =~= src);
        self.headings = out;
        proof {
            lemma_dedup_adjacent(src);
        }
    }
}

impl Default for Outline {
    fn default() -> (r: Outline)
        ensures
            r@ == Seq::<HeadingView>::empty(),
    {
        Outline::new()
    }
}

} // verus!
