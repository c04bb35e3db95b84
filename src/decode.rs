//! Decoding rules: how a parsed value is read as a boolean, a number, a
//! character, a string, an optional value or the unit value.
use vstd::prelude::*;

use crate::error::Error;
use crate::sexp::{lemma_views, Sexp, SexpView};
use crate::text::{chars_of, i64_of_text, parse_i64, parse_u64, same_text, u64_of_text};

verus! {

/// The boolean an atom spells: `true`, `TRUE` or `1`; `false`, `FALSE` or `0`.
pub open spec fn bool_of(v: SexpView) -> Option<bool> {
    match v {
        SexpView::Atom(s) => if s == "true"@ || s == "TRUE"@ || s == "1"@ {
            Some(true)
        } else if s == "false"@ || s == "FALSE"@ || s == "0"@ {
            Some(false)
        } else {
            None
        },
        SexpView::List(_) => None,
    }
}

/// Reads a boolean; any other atom, and any list, is an invalid type.
pub fn decode_bool(v: &Sexp) -> (r: Result<bool, Error>)
    ensures
        match bool_of(v@) {
            Some(b) => r == Ok::<bool, Error>(b),
            None => r is Err && r->Err_0 is InvalidType,
        },
{
    match v {
        Sexp::Atom(s) => {
            if same_text(s, "true") || same_text(s, "TRUE") || same_text(s, "1") {
                Ok(true)
            } else if same_text(s, "false") || same_text(s, "FALSE") || same_text(s, "0") {
                Ok(false)
            } else {
                Err(Error::InvalidType)
            }
        },
        Sexp::List(_) => Err(Error::InvalidType),
    }
}

/// Reads an optional value: a one-element list holds the value that is
/// present; every other shape, the empty list included, means absent.
pub fn decode_option(v: Sexp) -> (r: Option<Sexp>)
    ensures
        match v@ {
            SexpView::List(l) => if l.len() == 1 {
                r is Some && r->0@ == l[0]
            } else {
                r is None
            },
            SexpView::Atom(_) => r is None,
        },
{
    match v {
        Sexp::List(mut l) => {
            proof {
                lemma_views(l@);
            }
            if l.len() == 1 {
                l.pop()
            } else {
                None
            }
        },
        Sexp::Atom(_) => None,
    }
}

/// Reads the unit value: the empty list only.
pub fn decode_unit(v: &Sexp) -> (r: Result<(), Error>)
    ensures
        r is Ok <==> (v@ is List && v@->List_0.len() == 0),
        r is Err ==> r->Err_0 is InvalidType,
{
    if v.is_unit() {
        Ok(())
    } else {
        Err(Error::InvalidType)
    }
}

/// Reads a string: an atom's text; a list is an invalid type.
pub fn decode_text(v: Sexp) -> (r: Result<String, Error>)
    ensures
        match v@ {
            SexpView::Atom(s) => r is Ok && r->Ok_0@ == s,
            SexpView::List(_) => r is Err && r->Err_0 is InvalidType,
        },
{
    match v {
        Sexp::Atom(s) => Ok(s),
        Sexp::List(_) => Err(Error::InvalidType),
    }
}

/// The signed integer an atom spells, if it lies in `min ..= max`.
pub open spec fn signed_of(v: SexpView, min: i64, max: i64) -> Option<i64> {
    match v {
        SexpView::Atom(s) => match i64_of_text(s) {
            Some(n) => if min <= n <= max {
                Some(n)
            } else {
                None
            },
            None => None,
        },
        SexpView::List(_) => None,
    }
}

/// Reads a signed integer of a width whose range is `min ..= max`.
pub fn decode_signed(v: &Sexp, min: i64, max: i64) -> (r: Result<i64, Error>)
    ensures
        match signed_of(v@, min, max) {
            Some(n) => r == Ok::<i64, Error>(n),
            None => r is Err && r->Err_0 is InvalidType,
        },
{
    match v {
        Sexp::Atom(s) => match parse_i64(s.as_str()) {
            Some(n) => if min <= n && n <= max {
                Ok(n)
            } else {
                Err(Error::InvalidType)
            },
            None => Err(Error::InvalidType),
        },
        Sexp::List(_) => Err(Error::InvalidType),
    }
}

/// The unsigned integer an atom spells, if it is at most `max`.
pub open spec fn unsigned_of(v: SexpView, max: u64) -> Option<u64> {
    match v {
        SexpView::Atom(s) => match u64_of_text(s) {
            Some(n) => if n <= max {
                Some(n)
            } else {
                None
            },
            None => None,
        },
        SexpView::List(_) => None,
    }
}

/// Reads an unsigned integer of a width whose largest value is `max`.
pub fn decode_unsigned(v: &Sexp, max: u64) -> (r: Result<u64, Error>)
    ensures
        match unsigned_of(v@, max) {
            Some(n) => r == Ok::<u64, Error>(n),
            None => r is Err && r->Err_0 is InvalidType,
        },
{
    match v {
        Sexp::Atom(s) => match parse_u64(s.as_str()) {
            Some(n) => if n <= max {
                Ok(n)
            } else {
                Err(Error::InvalidType)
            },
            None => Err(Error::InvalidType),
        },
        Sexp::List(_) => Err(Error::InvalidType),
    }
}

/// Reads a character: an atom of exactly one character.
pub fn decode_char(v: &Sexp) -> (r: Result<char, Error>)
    ensures
        match v@ {
            SexpView::Atom(s) => if s.len() == 1 {
                r == Ok::<char, Error>(s[0])
            } else {
                r is Err && r->Err_0 is InvalidType
            },
            SexpView::List(_) => r is Err && r->Err_0 is InvalidType,
        },
{
    match v {
        Sexp::Atom(s) => {
            let cs = chars_of(s.as_str());
            if cs.len() == 1 {
                Ok(cs[0])
            } else {
                Err(Error::InvalidType)
            }
        },
        Sexp::List(_) => Err(Error::InvalidType),
    }
}

} // verus!
