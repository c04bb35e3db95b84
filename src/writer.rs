//! The printer: the canonical text of an s-expression.
use vstd::prelude::*;

use crate::error::Error;
use crate::sexp::{lemma_views_prefix, views, Sexp, SexpView};
use crate::text::{chars_of, has_char, push_char, push_text};

verus! {

broadcast use vstd::seq::group_seq_axioms;

/// Whether an atom's text must be quoted: it holds a space or a parenthesis.
pub open spec fn needs_quotes(s: Seq<char>) -> bool {
    s.contains(' ') || s.contains('(') || s.contains(')')
}

/// The quote that delimits a quoted atom: `'`, or `"` when the text holds `'`.
pub open spec fn delimiter(s: Seq<char>) -> char {
    if s.contains('\'') {
        '"'
    } else {
        '\''
    }
}

/// The printed form of an atom: its text, between quotes when it needs them.
/// Text quoted with `'` holds no `'`, so it is written as it is; text quoted
/// with `"` is written as it is too, even when it holds `"`.
pub open spec fn print_atom(s: Seq<char>) -> Seq<char> {
    if needs_quotes(s) {
        seq![delimiter(s)] + s + seq![delimiter(s)]
    } else {
        s
    }
}

/// The printed form of a value: an atom as above, a list as its elements'
/// printed forms separated by single spaces, between parentheses.
pub open spec fn print_view(v: SexpView) -> Seq<char>
    decreases v,
{
    match v {
        SexpView::Atom(s) => print_atom(s),
        SexpView::List(l) => seq!['('] + print_items(l) + seq![')'],
    }
}

/// The printed forms of `l`, separated by single spaces.
pub open spec fn print_items(l: Seq<SexpView>) -> Seq<char>
    decreases l,
{
    if l.len() == 0 {
        Seq::empty()
    } else if l.len() == 1 {
        print_view(l[0])
    } else {
        print_items(l.drop_last()) + seq![' '] + print_view(l.last())
    }
}

/// Printing one more element after the others.
pub proof fn lemma_print_items_push(l: Seq<SexpView>, x: SexpView)
    ensures
        print_items(l.push(x)) == if l.len() == 0 {
            print_view(x)
        } else {
            print_items(l) + seq![' '] + print_view(x)
        },
{
    assert(l.push(x).drop_last() == l);
    if l.len() == 0 {
        assert(l.push(x)[0] == x);
    }
}

/// A printer that appends the text of s-expressions to an in-memory buffer.
pub struct Writer {
    out: String,
}

impl View for Writer {
    type V = Seq<char>;

    closed spec fn view(&self) -> Seq<char> {
        self.out@
    }
}

impl Writer {
    /// A printer with an empty buffer.
    pub fn new() -> (r: Writer)
        ensures
            r@ == Seq::<char>::empty(),
    {
        Writer { out: String::new() }
    }

    /// Appends the printed form of `expr`.
    pub fn write(&mut self, expr: &Sexp) -> (r: Result<(), Error>)
        ensures
            r is Ok,
            final(self)@ == old(self)@ + print_view(expr@),
        decreases expr,
    {
        match expr {
            Sexp::Atom(s) => {
                let cs = chars_of(s.as_str());
                if has_char(&cs, ' ') || has_char(&cs, '(') || has_char(&cs, ')') {
                    let d = if has_char(&cs, '\'') {
                        '"'
                    } else {
                        '\''
                    };
                    push_char(&mut self.out, d);
                    push_text(&mut self.out, s.as_str());
                    push_char(&mut self.out, d);
                } else {
                    push_text(&mut self.out, s.as_str());
                }
                Ok(())
            },
            Sexp::List(l) => {
                push_char(&mut self.out, '(');
                let mut i: usize = 0;
                while i < l.len()
                    invariant
                        i <= l@.len(),
                        *expr == Sexp::List(*l),
                        self@ == old(self)@ + seq!['('] + print_items(
                            views(l@.subrange(0, i as int)),
                        ),
                    decreases l@.len() - i,
                {
                    proof {
                        lemma_views_prefix(l@, i as int);
                        lemma_print_items_push(views(l@.subrange(0, i as int)), l@[i as int]@);
                        crate::sexp::lemma_views(l@.subrange(0, i as int));
                        assert(decreases_to!(*expr => expr->List_0));
                        assert(decreases_to!(*expr => l[i as int]));
                    }
                    if i > 0 {
                        push_char(&mut self.out, ' ');
                    }
                    let _ = self.write(&l[i]);
                    i = i + 1;
                }
                push_char(&mut self.out, ')');
                assert(l@.subrange(0, l@.len() as int) == l@);
                Ok(())
            },
        }
    }

    /// The text written so far.
    pub fn into_inner(self) -> (r: Option<String>)
        ensures
            r is Some,
            r->0@ == self@,
    {
        Some(self.out)
    }
}

/// The printed form of `expr`, as a new string.
pub fn to_string(expr: &Sexp) -> (r: Result<String, Error>)
    ensures
        r is Ok,
        r->Ok_0@ == print_view(expr@),
{
    let mut wr = Writer::new();
    let _ = wr.write(expr);
    Ok(wr.out)
}

} // verus!
