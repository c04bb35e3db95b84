//! Laws relating the printer and the parser.
use vstd::prelude::*;

use crate::reader::{flush, initial, parse_text, run, step, ParseState, Quote, Step};
use crate::sexp::{collapse_i64, SexpView};
use crate::text::{i64_of_text, is_decimal_of, is_digits, white_space};
use crate::writer::{delimiter, needs_quotes, print_atom, print_items, print_view};

verus! {

broadcast use vstd::seq::group_seq_axioms;

/// Where the parser stands after reading `input` from state `st`.
pub open spec fn walk(st: ParseState, input: Seq<char>) -> Step
    decreases input.len(),
{
    if input.len() == 0 {
        Step::Next(st)
    } else {
        match step(st, input[0]) {
            Step::Done(v) => Step::Done(v),
            Step::Next(next) => walk(next, input.drop_first()),
        }
    }
}

/// Reading `a + b` is reading `a`, then `b` if `a` did not end the parse.
pub proof fn lemma_run_concat(st: ParseState, a: Seq<char>, b: Seq<char>)
    ensures
        run(st, a + b) == match walk(st, a) {
            Step::Done(v) => Some(v),
            Step::Next(next) => run(next, b),
        },
    decreases a.len(),
{
    if a.len() == 0 {
        assert(a + b == b);
    } else {
        assert((a + b)[0] == a[0]);
        assert((a + b).drop_first() == a.drop_first() + b);
        if let Step::Next(next) = step(st, a[0]) {
            lemma_run_concat(next, a.drop_first(), b);
        }
    }
}

/// Walking over `a + b` is walking over `a`, then over `b`.
pub proof fn lemma_walk_concat(st: ParseState, a: Seq<char>, b: Seq<char>)
    ensures
        walk(st, a + b) == match walk(st, a) {
            Step::Done(v) => Step::Done(v),
            Step::Next(next) => walk(next, b),
        },
    decreases a.len(),
{
    if a.len() == 0 {
        assert(a + b == b);
    } else {
        assert((a + b)[0] == a[0]);
        assert((a + b).drop_first() == a.drop_first() + b);
        if let Step::Next(next) = step(st, a[0]) {
            lemma_walk_concat(next, a.drop_first(), b);
        }
    }
}

/// Walking over one character is one step.
pub proof fn lemma_walk_one(st: ParseState, c: char)
    ensures
        walk(st, seq![c]) == step(st, c),
{
    assert(seq![c].drop_first() == Seq::<char>::empty());
    if let Step::Next(next) = step(st, c) {
        assert(walk(next, Seq::<char>::empty()) == Step::Next(next));
    }
}

/// A character that an atom may hold and still print and parse unquoted.
pub open spec fn ordinary(c: char) -> bool {
    c != ' ' && c != '(' && c != ')' && c != '\'' && c != '"' && !white_space(c)
}

/// A non-empty atom text made of ordinary characters.
pub open spec fn plain_atom(s: Seq<char>) -> bool {
    s.len() > 0 && forall|i: int| 0 <= i < s.len() ==> ordinary(#[trigger] s[i])
}

/// A value built from plain atoms and lists of such values.
pub open spec fn plain(v: SexpView) -> bool
    decreases v,
{
    match v {
        SexpView::Atom(s) => plain_atom(s),
        SexpView::List(l) => plain_items(l),
    }
}

/// Every element of `l` is plain.
pub open spec fn plain_items(l: Seq<SexpView>) -> bool
    decreases l,
{
    if l.len() == 0 {
        true
    } else {
        plain_items(l.drop_last()) && plain(l.last())
    }
}

/// A state between elements of a list, with no atom pending.
pub open spec fn between(st: ParseState) -> bool {
    st.quote == Quote::Plain && !st.escape && !st.root && st.token.len() == 0
}

/// The state after printing `e` from a state between elements: a list is
/// complete; an atom's text is still pending.
pub open spec fn after(st: ParseState, e: SexpView) -> ParseState {
    match e {
        SexpView::Atom(s) => ParseState { token: s, ..st },
        SexpView::List(_) => ParseState { items: st.items.push(e), ..st },
    }
}

proof fn lemma_walk_ordinary(st: ParseState, s: Seq<char>)
    requires
        st.quote == Quote::Plain,
        !st.escape,
        forall|i: int| 0 <= i < s.len() ==> ordinary(#[trigger] s[i]),
    ensures
        walk(st, s) == Step::Next(ParseState { token: st.token + s, ..st }),
    decreases s.len(),
{
    if s.len() > 0 {
        let next = ParseState { token: st.token.push(s[0]), ..st };
        assert(ordinary(s[0]));
        assert(step(st, s[0]) == Step::Next(next));
        lemma_walk_ordinary(next, s.drop_first());
        assert(st.token.push(s[0]) + s.drop_first() == st.token + s);
    } else {
        assert(st.token + s == st.token);
    }
}

proof fn lemma_flush_after(st: ParseState, e: SexpView)
    requires
        between(st),
        plain(e),
    ensures
        flush(after(st, e)) == (ParseState { items: st.items.push(e), ..st }),
{
    assert(st.token == Seq::<char>::empty());
}

proof fn lemma_walk_view(st: ParseState, e: SexpView)
    requires
        between(st),
        plain(e),
    ensures
        walk(st, print_view(e)) == Step::Next(after(st, e)),
    decreases e,
{
    match e {
        SexpView::Atom(s) => {
            assert(!needs_quotes(s)) by {
                if s.contains(' ') || s.contains('(') || s.contains(')') {
                    let i = choose|i: int| 0 <= i < s.len() && (s[i] == ' ' || s[i] == '(' || s[i] == ')');
                    assert(ordinary(s[i]));
                }
            }
            lemma_walk_ordinary(st, s);
            assert(st.token + s == s);
        },
        SexpView::List(l) => {
            let st1 = ParseState {
                outer: st.outer.push(crate::reader::FrameView { items: st.items, token: st.token }),
                items: Seq::empty(),
                token: Seq::empty(),
                ..st
            };
            let body = print_items(l);
            assert(print_view(e) == seq!['('] + body + seq![')']);
            lemma_walk_concat(st, seq!['('] + body, seq![')']);
            lemma_walk_concat(st, seq!['('], body);
            lemma_walk_one(st, '(');
            lemma_walk_items(st1, l);
            let w = if l.len() == 0 {
                st1
            } else {
                after(ParseState { items: st1.items + l.drop_last(), ..st1 }, l.last())
            };
            assert(walk(st1, body) == Step::Next(w));
            lemma_walk_one(w, ')');
            if l.len() > 0 {
                lemma_flush_after(ParseState { items: st1.items + l.drop_last(), ..st1 }, l.last());
                assert((Seq::<SexpView>::empty() + l.drop_last()).push(l.last()) == l);
            }
            assert(flush(w).items == l);
            assert(st1.outer.drop_last() == st.outer);
        },
    }
}

proof fn lemma_walk_items(st: ParseState, l: Seq<SexpView>)
    requires
        between(st),
        plain_items(l),
    ensures
        walk(st, print_items(l)) == Step::Next(
            if l.len() == 0 {
                st
            } else {
                after(ParseState { items: st.items + l.drop_last(), ..st }, l.last())
            },
        ),
    decreases l,
{
    if l.len() == 0 {
    } else if l.len() == 1 {
        assert(l[0] == l.last());
        assert(st.items + l.drop_last() == st.items);
        assert(plain_items(l.drop_last()) && plain(l.last()));
        lemma_walk_view(st, l[0]);
    } else {
        let init = l.drop_last();
        let x = l.last();
        assert(plain_items(init) && plain(x));
        lemma_walk_items(st, init);
        let w = after(ParseState { items: st.items + init.drop_last(), ..st }, init.last());
        assert(plain_items(init.drop_last()) && plain(init.last()));
        lemma_flush_after(ParseState { items: st.items + init.drop_last(), ..st }, init.last());
        assert((st.items + init.drop_last()).push(init.last()) == st.items + init);
        let st2 = ParseState { items: st.items + init, ..st };
        lemma_walk_one(w, ' ');
        lemma_walk_view(st2, x);
        lemma_walk_concat(st, print_items(init) + seq![' '], print_view(x));
        lemma_walk_concat(st, print_items(init), seq![' ']);
    }
}

/// Printing a list built from non-empty atoms of ordinary characters (no space,
/// parenthesis, quote or other white space) and from lists of such values,
/// and parsing the text, gives back the same value.
pub proof fn round_trip(v: SexpView)
    requires
        v is List,
        plain(v),
    ensures
        parse_text(print_view(v)) == Some(v),
{
    let l = v->List_0;
    let st0 = ParseState { root: false, ..initial() };
    let body = print_items(l);
    assert(print_view(v) == seq!['('] + body + seq![')']);
    lemma_run_concat(initial(), seq!['('] + body, seq![')']);
    lemma_walk_concat(initial(), seq!['('], body);
    lemma_walk_one(initial(), '(');
    lemma_walk_items(st0, l);
    let w = if l.len() == 0 {
        st0
    } else {
        after(ParseState { items: st0.items + l.drop_last(), ..st0 }, l.last())
    };
    assert(seq![')'].drop_first() == Seq::<char>::empty());
    if l.len() > 0 {
        lemma_flush_after(ParseState { items: st0.items + l.drop_last(), ..st0 }, l.last());
        assert((Seq::<SexpView>::empty() + l.drop_last()).push(l.last()) == l);
    }
    assert(flush(w).items == l);
}

/// The character that closes the quoting mode `q`.
pub open spec fn closing(q: Quote) -> char {
    if q == Quote::Single {
        '\''
    } else {
        '"'
    }
}

proof fn lemma_walk_quoted(st: ParseState, s: Seq<char>)
    requires
        st.quote != Quote::Plain,
        !st.escape,
        forall|i: int| 0 <= i < s.len() ==> #[trigger] s[i] != '\\' && s[i] != closing(st.quote),
    ensures
        walk(st, s) == Step::Next(ParseState { token: st.token + s, ..st }),
    decreases s.len(),
{
    if s.len() > 0 {
        let next = ParseState { token: st.token.push(s[0]), ..st };
        assert(s[0] != '\\' && s[0] != closing(st.quote));
        assert(step(st, s[0]) == Step::Next(next));
        lemma_walk_quoted(next, s.drop_first());
        assert(st.token.push(s[0]) + s.drop_first() == st.token + s);
    } else {
        assert(st.token + s == st.token);
    }
}

/// An atom text holding a space or a parenthesis prints between quotes: `'`,
/// or `"` when the text holds `'`. Read back as the element of a list, the
/// quoted text gives the same atom whenever the text holds neither a
/// backslash nor the quote that delimits it.
pub proof fn quoting(s: Seq<char>)
    requires
        needs_quotes(s),
    ensures
        delimiter(s) == if s.contains('\'') {
            '"'
        } else {
            '\''
        },
        print_atom(s) == seq![delimiter(s)] + s + seq![delimiter(s)],
        !s.contains('\\') && !s.contains(delimiter(s)) ==> parse_text(
            seq!['('] + print_atom(s) + seq![')'],
        ) == Some(SexpView::List(seq![SexpView::Atom(s)])),
{
    let d = delimiter(s);
    if !s.contains('\\') && !s.contains(d) {
        let q = if d == '\'' {
            Quote::Single
        } else {
            Quote::Double
        };
        let st0 = ParseState { root: false, ..initial() };
        let st1 = ParseState { quote: q, ..st0 };
        let st2 = ParseState { token: s, ..st1 };
        let st3 = ParseState {
            items: seq![SexpView::Atom(s)],
            token: Seq::empty(),
            quote: Quote::Plain,
            ..st2
        };
        let open = seq!['(', d];
        let a = open + s + seq![d];
        assert(seq!['('] + print_atom(s) + seq![')'] == a + seq![')']);
        assert(open == seq!['('] + seq![d]);
        lemma_walk_one(initial(), '(');
        lemma_walk_one(st0, d);
        lemma_walk_concat(initial(), seq!['('], seq![d]);
        assert forall|i: int| 0 <= i < s.len() implies #[trigger] s[i] != '\\' && s[i]
            != closing(st1.quote) by {
            assert(s.contains(s[i]));
        }
        lemma_walk_quoted(st1, s);
        assert(st1.token + s == s);
        lemma_walk_concat(initial(), open, s);
        lemma_walk_one(st2, d);
        lemma_walk_concat(initial(), open + s, seq![d]);
        lemma_run_concat(initial(), a, seq![')']);
        assert(seq![')'].drop_first() == Seq::<char>::empty());
        assert(Seq::<SexpView>::empty().push(SexpView::Atom(s)) == seq![SexpView::Atom(s)]);
        assert(step(st3, ')') == Step::Done(SexpView::List(seq![SexpView::Atom(s)])));
    }
}

/// The decimal text of an `i64` reads back as the same number, so an atom
/// built from an integer collapses to that integer.
pub proof fn integer_text_round_trip(t: Seq<char>, n: i64)
    requires
        is_decimal_of(t, n as int),
    ensures
        i64_of_text(t) == Some(n),
        collapse_i64(SexpView::Atom(t)) == Some(n),
{
    if n < 0 {
        assert(!is_digits(t)) by {
            assert(t[0] == '-');
        }
    }
}

} // verus!
