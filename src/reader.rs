//! The parser: text to s-expression, one character at a time.
//!
//! The parser keeps a stack of open lists. Each open list holds the elements
//! read so far and the text of the atom being read. The first `(` of the input
//! opens the outermost list; every later `(` outside quotes opens a nested one.
//! A `)` outside quotes ends the atom being read and closes the innermost list;
//! closing the outermost list ends the parse. Text between `'` or `"` quotes is
//! one atom; inside quotes a backslash escapes the next character.
use vstd::prelude::*;

use crate::error::Error;
use crate::sexp::{lemma_views_push, views, Sexp, SexpView};
use crate::text::{chars_of, invalid_input, push_char, white_space, is_white_space};

verus! {

broadcast use vstd::seq::group_seq_axioms, vstd::std_specs::vec::group_vec_axioms;

/// The quoting mode of the parser.
#[derive(PartialEq, Eq, Structural, Clone, Copy)]
pub enum Quote {
    Plain,
    Single,
    Double,
}

/// A list that is still open: its elements so far, and the pending atom text.
pub struct FrameView {
    pub items: Seq<SexpView>,
    pub token: Seq<char>,
}

/// The state of the parser between two characters.
pub struct ParseState {
    /// The enclosing open lists, outermost first.
    pub outer: Seq<FrameView>,
    /// The elements read so far in the innermost open list.
    pub items: Seq<SexpView>,
    /// The text of the atom being read.
    pub token: Seq<char>,
    pub quote: Quote,
    /// A backslash inside quotes was just read.
    pub escape: bool,
    /// The first `(` has not been read yet.
    pub root: bool,
}

/// What reading one character leads to.
pub enum Step {
    Next(ParseState),
    Done(SexpView),
}

/// The state before any input.
pub open spec fn initial() -> ParseState {
    ParseState {
        outer: Seq::empty(),
        items: Seq::empty(),
        token: Seq::empty(),
        quote: Quote::Plain,
        escape: false,
        root: true,
    }
}

/// `st` with `c` appended to the pending atom text.
pub open spec fn add_char(st: ParseState, c: char) -> ParseState {
    ParseState { token: st.token.push(c), ..st }
}

/// `st` with the pending atom text, if any, ended as an atom.
pub open spec fn flush(st: ParseState) -> ParseState {
    if st.token.len() > 0 {
        ParseState { items: st.items.push(SexpView::Atom(st.token)), token: Seq::empty(), ..st }
    } else {
        st
    }
}

/// `st` with a quoted atom ended: its text, empty or not, becomes an atom.
pub open spec fn close_quote(st: ParseState) -> ParseState {
    ParseState {
        items: st.items.push(SexpView::Atom(st.token)),
        token: Seq::empty(),
        quote: Quote::Plain,
        ..st
    }
}

/// The character that a backslash followed by `c` stands for, if any.
pub open spec fn escaped(c: char) -> Option<char> {
    if c == '\'' || c == '"' {
        Some(c)
    } else if c == 'n' {
        Some('\n')
    } else if c == 't' {
        Some('\t')
    } else if c == 'r' {
        Some('\r')
    } else {
        None
    }
}

/// One step of the parser on the character `c`.
pub open spec fn step(st: ParseState, c: char) -> Step {
    if st.escape {
        let st = ParseState { escape: false, ..st };
        match escaped(c) {
            Some(e) => Step::Next(add_char(st, e)),
            None => Step::Next(st),
        }
    } else if c == '\\' && st.quote != Quote::Plain {
        Step::Next(ParseState { escape: true, ..st })
    } else if c == '\'' {
        if st.quote == Quote::Double {
            Step::Next(add_char(st, c))
        } else if st.quote == Quote::Single {
            Step::Next(close_quote(st))
        } else {
            Step::Next(ParseState { quote: Quote::Single, ..st })
        }
    } else if c == '"' {
        if st.quote == Quote::Single {
            Step::Next(add_char(st, c))
        } else if st.quote == Quote::Double {
            Step::Next(close_quote(st))
        } else {
            Step::Next(ParseState { quote: Quote::Double, ..st })
        }
    } else if st.quote != Quote::Plain {
        Step::Next(add_char(st, c))
    } else if c == '(' {
        if st.root {
            Step::Next(ParseState { root: false, ..st })
        } else {
            Step::Next(
                ParseState {
                    outer: st.outer.push(FrameView { items: st.items, token: st.token }),
                    items: Seq::empty(),
                    token: Seq::empty(),
                    ..st
                },
            )
        }
    } else if c == ')' {
        let f = flush(st);
        if f.outer.len() == 0 {
            Step::Done(SexpView::List(f.items))
        } else {
            let up = f.outer.last();
            Step::Next(
                ParseState {
                    outer: f.outer.drop_last(),
                    items: up.items.push(SexpView::List(f.items)),
                    token: up.token,
                    ..f
                },
            )
        }
    } else if c == ' ' || white_space(c) {
        Step::Next(flush(st))
    } else {
        Step::Next(add_char(st, c))
    }
}

/// The value that the parser reads from `input` in state `st`: the list closed
/// by the first `)` that closes the outermost list, or nothing when the input
/// ends before that.
pub open spec fn run(st: ParseState, input: Seq<char>) -> Option<SexpView>
    decreases input.len(),
{
    if input.len() == 0 {
        None
    } else {
        match step(st, input[0]) {
            Step::Done(v) => Some(v),
            Step::Next(next) => run(next, input.drop_first()),
        }
    }
}

/// The value that the text `input` spells, if it spells one.
pub open spec fn parse_text(input: Seq<char>) -> Option<SexpView> {
    run(initial(), input)
}

/// An open list of the executable parser.
struct Frame {
    items: Vec<Sexp>,
    token: String,
}

impl View for Frame {
    type V = FrameView;

    closed spec fn view(&self) -> FrameView {
        FrameView { items: views(self.items@), token: self.token@ }
    }
}

spec fn frame_views(fs: Seq<Frame>) -> Seq<FrameView> {
    fs.map_values(|f: Frame| f@)
}

/// The executable parser state.
struct Parser {
    outer: Vec<Frame>,
    items: Vec<Sexp>,
    token: String,
    quote: Quote,
    escape: bool,
    root: bool,
}

impl View for Parser {
    type V = ParseState;

    closed spec fn view(&self) -> ParseState {
        ParseState {
            outer: frame_views(self.outer@),
            items: views(self.items@),
            token: self.token@,
            quote: self.quote,
            escape: self.escape,
            root: self.root,
        }
    }
}

impl Parser {
    fn new() -> (r: Parser)
        ensures
            r@ == initial(),
    {
        let r = Parser {
            outer: Vec::new(),
            items: Vec::new(),
            token: String::new(),
            quote: Quote::Plain,
            escape: false,
            root: true,
        };
        assert(frame_views(r.outer@) == Seq::<FrameView>::empty());
        r
    }

    fn add_char(&mut self, c: char)
        ensures
            final(self)@ == add_char(old(self)@, c),
    {
        push_char(&mut self.token, c);
    }

    fn take_token(&mut self) -> (r: String)
        ensures
            r@ == old(self)@.token,
            final(self)@ == (ParseState { token: Seq::empty(), ..old(self)@ }),
    {
        let mut t = String::new();
        std::mem::swap(&mut t, &mut self.token);
        t
    }

    fn flush(&mut self)
        ensures
            final(self)@ == flush(old(self)@),
    {
        if !self.token.as_str().is_empty() {
            let t = self.take_token();
            let a = Sexp::Atom(t);
            proof {
                lemma_views_push(self.items@, a);
            }
            self.items.push(a);
        }
    }

    fn close_quote(&mut self)
        ensures
            final(self)@ == close_quote(old(self)@),
    {
        let t = self.take_token();
        let a = Sexp::Atom(t);
        proof {
            lemma_views_push(self.items@, a);
        }
        self.items.push(a);
        self.quote = Quote::Plain;
    }

    fn open_list(&mut self)
        ensures
            final(self)@ == (ParseState {
                outer: old(self)@.outer.push(
                    FrameView { items: old(self)@.items, token: old(self)@.token },
                ),
                items: Seq::empty(),
                token: Seq::empty(),
                ..old(self)@
            }),
    {
        let token = self.take_token();
        let mut items: Vec<Sexp> = Vec::new();
        std::mem::swap(&mut items, &mut self.items);
        let f = Frame { items, token };
        proof {
            assert(frame_views(self.outer@.push(f)) == frame_views(self.outer@).push(f@));
            assert(views(Seq::<Sexp>::empty()) == Seq::<SexpView>::empty());
        }
        self.outer.push(f);
    }

    /// Ends the innermost list; returns it when it is the outermost one.
    fn close_list(&mut self) -> (r: Option<Sexp>)
        requires
            !old(self).escape,
            old(self).quote == Quote::Plain,
        ensures
            match step(old(self)@, ')') {
                Step::Done(v) => r is Some && r->0@ == v,
                Step::Next(next) => r is None && final(self)@ == next,
            },
    {
        self.flush();
        let mut items: Vec<Sexp> = Vec::new();
        std::mem::swap(&mut items, &mut self.items);
        match self.outer.pop() {
            None => Some(Sexp::List(items)),
            Some(f) => {
                let l = Sexp::List(items);
                let mut up = f.items;
                proof {
                    lemma_views_push(up@, l);
                    assert(frame_views(self.outer@) == frame_views(old(self).outer@).drop_last());
                }
                up.push(l);
                self.items = up;
                self.token = f.token;
                None
            },
        }
    }

    /// Reads one character; returns the value when it completes one.
    fn step(&mut self, c: char) -> (r: Option<Sexp>)
        ensures
            match step(old(self)@, c) {
                Step::Done(v) => r is Some && r->0@ == v,
                Step::Next(next) => r is None && final(self)@ == next,
            },
    {
        if self.escape {
            self.escape = false;
            if c == '\'' || c == '"' {
                self.add_char(c);
            } else if c == 'n' {
                self.add_char('\n');
            } else if c == 't' {
                self.add_char('\t');
            } else if c == 'r' {
                self.add_char('\r');
            }
            None
        } else if c == '\\' && self.quote != Quote::Plain {
            self.escape = true;
            None
        } else if c == '\'' {
            if self.quote == Quote::Double {
                self.add_char(c);
            } else if self.quote == Quote::Single {
                self.close_quote();
            } else {
                self.quote = Quote::Single;
            }
            None
        } else if c == '"' {
            if self.quote == Quote::Single {
                self.add_char(c);
            } else if self.quote == Quote::Double {
                self.close_quote();
            } else {
                self.quote = Quote::Double;
            }
            None
        } else if self.quote != Quote::Plain {
            self.add_char(c);
            None
        } else if c == '(' {
            if self.root {
                self.root = false;
            } else {
                self.open_list();
            }
            None
        } else if c == ')' {
            self.close_list()
        } else if c == ' ' || is_white_space(c) {
            self.flush();
            None
        } else {
            self.add_char(c);
            None
        }
    }
}

/// A parser over a sequence of characters.
pub struct Reader {
    chars: Vec<char>,
}

impl View for Reader {
    type V = Seq<char>;

    closed spec fn view(&self) -> Seq<char> {
        self.chars@
    }
}

impl Reader {
    /// A reader over the characters of `s`.
    pub fn new(s: &str) -> (r: Reader)
        ensures
            r@ == s@,
    {
        Reader { chars: chars_of(s) }
    }

    /// Reads the first complete expression of the input.
    pub fn read(self) -> (r: Result<Sexp, Error>)
        ensures
            match parse_text(self@) {
                Some(v) => r is Ok && r->Ok_0@ == v,
                None => r is Err && r->Err_0 is IO,
            },
    {
        Self::parse(self.chars.as_slice())
    }

    /// Parses the first complete expression of `chars`; fails with an
    /// input/output error when the input ends before the expression does.
    pub fn parse(chars: &[char]) -> (r: Result<Sexp, Error>)
        ensures
            match parse_text(chars@) {
                Some(v) => r is Ok && r->Ok_0@ == v,
                None => r is Err && r->Err_0 is IO,
            },
    {
        let mut p = Parser::new();
        let mut i: usize = 0;
        assert(chars@.subrange(0, chars@.len() as int) == chars@);
        while i < chars.len()
            invariant
                i <= chars@.len(),
                run(p@, chars@.subrange(i as int, chars@.len() as int)) == parse_text(chars@),
            decreases chars@.len() - i,
        {
            let ghost rest = chars@.subrange(i as int, chars@.len() as int);
            proof {
                assert(rest[0] == chars@[i as int]);
                assert(rest.drop_first() == chars@.subrange(i as int + 1, chars@.len() as int));
            }
            match p.step(chars[i]) {
                Some(e) => {
                    return Ok(e);
                },
                None => {},
            }
            i = i + 1;
        }
        Err(Error::IO(invalid_input()))
    }
}

/// Parses the first complete expression of the text `s`.
pub fn from_string(s: &str) -> (r: Result<Sexp, Error>)
    ensures
        match parse_text(s@) {
            Some(v) => r is Ok && r->Ok_0@ == v,
            None => r is Err && r->Err_0 is IO,
        },
{
    Reader::new(s).read()
}

} // verus!
