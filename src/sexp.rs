use vstd::prelude::*;

use crate::text::{decimal, i64_of_text, is_decimal_of, parse_i64};


verus! {

broadcast use vstd::std_specs::vec::group_vec_axioms, vstd::seq::group_seq_axioms;

/// An s-expression: a text atom, or an ordered list of s-expressions.
#[derive(Debug, PartialEq)]
pub enum Sexp {
    Atom(String),
    List(Vec<Sexp>),
}

/// The mathematical value of an s-expression.
pub enum SexpView {
    Atom(Seq<char>),
    List(Seq<SexpView>),
}

/// The values of a sequence of s-expressions.
pub open spec fn views(l: Seq<Sexp>) -> Seq<SexpView>
    decreases l,
{
    if l.len() == 0 {
        Seq::empty()
    } else {
        views(l.drop_last()).push(l.last().view())
    }
}

impl View for Sexp {
    type V = SexpView;

    open spec fn view(&self) -> SexpView
        decreases self,
    {
        match self {
            Sexp::Atom(s) => SexpView::Atom(s@),
            Sexp::List(l) => SexpView::List(views(l@)),
        }
    }
}

/// `views` keeps the length and maps each element to its value.
pub proof fn lemma_views(l: Seq<Sexp>)
    ensures
        views(l).len() == l.len(),
        forall|i: int| 0 <= i < l.len() ==> #[trigger] views(l)[i] == l[i]@,
    decreases l.len(),
{
    if l.len() > 0 {
        lemma_views(l.drop_last());
        assert(views(l) == views(l.drop_last()).push(l.last()@));
    }
}

/// The values of a prefix grow by one element at a time.
pub proof fn lemma_views_prefix(l: Seq<Sexp>, i: int)
    requires
        0 <= i < l.len(),
    ensures
        views(l.subrange(0, i + 1)) == views(l.subrange(0, i)).push(l[i]@),
{
    assert(l.subrange(0, i + 1).drop_last() == l.subrange(0, i));
}

/// The values of a sequence with one element pushed.
pub proof fn lemma_views_push(l: Seq<Sexp>, x: Sexp)
    ensures
        views(l.push(x)) == views(l).push(x@),
{
    assert(l.push(x).drop_last() == l);
}

/// The sequence of values that an s-expression flattens to: an atom stands
/// for itself, a list for its elements.
pub open spec fn flatten(v: SexpView) -> Seq<SexpView> {
    match v {
        SexpView::Atom(_) => seq![v],
        SexpView::List(l) => l,
    }
}

/// The text an s-expression collapses to: an atom's text, or the collapse of
/// the only element of a one-element list.
pub open spec fn collapse(v: SexpView) -> Option<Seq<char>>
    decreases v,
{
    match v {
        SexpView::Atom(s) => Some(s),
        SexpView::List(l) => if l.len() == 1 {
            collapse(l[0])
        } else {
            None
        },
    }
}

/// The `i64` an s-expression collapses to, if its text spells one.
pub open spec fn collapse_i64(v: SexpView) -> Option<i64> {
    match collapse(v) {
        Some(s) => i64_of_text(s),
        None => None,
    }
}

/// Whether a value is the empty list.
pub open spec fn is_unit_view(v: SexpView) -> bool {
    v is List && v->List_0.len() == 0
}

impl Sexp {
    /// An atom holding the text `s`.
    pub fn atom(s: &str) -> (r: Sexp)
        ensures
            r@ == SexpView::Atom(s@),
    {
        Sexp::Atom(s.to_owned())
    }

    /// An atom holding the decimal text of `n`.
    pub fn from_i64(n: i64) -> (r: Sexp)
        ensures
            r@ is Atom,
            is_decimal_of(r@->Atom_0, n as int),
    {
        Sexp::Atom(decimal(n))
    }

    /// A list holding copies of the elements of `x`, in order.
    pub fn list(x: &[Sexp]) -> (r: Sexp)
        ensures
            r@ == SexpView::List(views(x@)),
    {
        let mut out: Vec<Sexp> = Vec::new();
        let mut i: usize = 0;
        while i < x.len()
            invariant
                i <= x@.len(),
                views(out@) == views(x@.subrange(0, i as int)),
            decreases x@.len() - i,
        {
                    proof {
                lemma_views_prefix(x@, i as int);
            }
            let c = x[i].copy();
            proof {
                lemma_views_push(out@, c);
            }
            out.push(c);
            i = i + 1;
        }
        assert(x@.subrange(0, x@.len() as int) == x@);
        Sexp::List(out)
    }

    /// The empty list.
    pub fn unit() -> (r: Sexp)
        ensures
            r@ == SexpView::List(Seq::empty()),
    {
        Sexp::List(Vec::new())
    }

    /// A deep copy.
    pub fn copy(&self) -> (r: Sexp)
        ensures
            r@ == self@,
        decreases self,
    {
        match self {
            Sexp::Atom(s) => Sexp::Atom(s.clone()),
            Sexp::List(l) => {
                let mut out: Vec<Sexp> = Vec::new();
                let mut i: usize = 0;
                while i < l.len()
                    invariant
                        i <= l@.len(),
                        *self == Sexp::List(*l),
                        views(out@) == views(l@.subrange(0, i as int)),
                    decreases l@.len() - i,
                {
                    proof {
                        lemma_views_prefix(l@, i as int);
                        assert(decreases_to!(l@ => l@[i as int]));
                        assert(decreases_to!(l => l@));
                        assert(decreases_to!(*self => self->List_0));
                        assert(decreases_to!(*self => l[i as int]));
                    }
                    let c = l[i].copy();
                    proof {
                        lemma_views_push(out@, c);
                    }
                    out.push(c);
                    i = i + 1;
                }
                assert(l@.subrange(0, l@.len() as int) == l@);
                Sexp::List(out)
            },
        }
    }

    /// Whether this is the empty list.
    pub fn is_unit(&self) -> (r: bool)
        ensures
            r == is_unit_view(self@),
    {
        proof {
            if let Sexp::List(l) = self {
                lemma_views(l@);
            }
        }
        match self {
            Sexp::List(l) => l.len() == 0,
            _ => false,
        }
    }

    /// The elements of a list, or an atom as a one-element sequence.
    pub fn to_vec(&self) -> (r: Vec<Sexp>)
        ensures
            views(r@) == flatten(self@),
    {
        match self {
            Sexp::Atom(_) => {
                let mut out: Vec<Sexp> = Vec::new();
                let c = self.copy();
                proof {
                    lemma_views_push(out@, c);
                    assert(views(out@) == Seq::<SexpView>::empty());
                }
                out.push(c);
                assert(views(out@) == seq![self@]);
                out
            },
            Sexp::List(l) => {
                let c = self.copy();
                match c {
                    Sexp::List(out) => out,
                    Sexp::Atom(_) => Vec::new(),
                }
            },
        }
    }

    /// The text this collapses to: an atom's text, or that of the only element
    /// of a one-element list; nothing otherwise.
    pub fn to_string(&self) -> (r: Option<String>)
        ensures
            match r {
                Some(s) => collapse(self@) == Some(s@),
                None => collapse(self@) is None,
            },
        decreases self,
    {
        match self {
            Sexp::Atom(s) => Some(s.clone()),
            Sexp::List(l) => {
                proof {
                    lemma_views(l@);
                }
                if l.len() == 1 {
                    l[0].to_string()
                } else {
                    None
                }
            },
        }
    }

    /// The integer this collapses to, if its text spells an `i64`.
    pub fn to_i64(&self) -> (r: Option<i64>)
        ensures
            r == collapse_i64(self@),
    {
        match self.to_string() {
            Some(s) => parse_i64(s.as_str()),
            None => None,
        }
    }
}

} // verus!
