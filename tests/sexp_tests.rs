use sexp::decode::{
    decode_bool, decode_char, decode_option, decode_signed, decode_text, decode_unit,
    decode_unsigned,
};
use sexp::{from_string, to_string, Error, Reader, Sexp, Writer};

fn a(s: &str) -> Sexp {
    Sexp::atom(s)
}

fn l(items: Vec<Sexp>) -> Sexp {
    Sexp::List(items)
}

#[test]
fn test_roundtrip() {
    let s = "(a b c (1 2 3) (x) 't e s t')";
    let res = from_string(s).unwrap();
    assert_eq!(to_string(&res).unwrap(), s);
}

#[test]
fn test_write_simple() {
    let s = Sexp::list(&[
        a("a"),
        a("b"),
        a("c"),
        Sexp::list(&[a("1"), a("2"), a("3")]),
        a("x y z'\""),
    ]);
    let dst = to_string(&s).unwrap();
    assert_eq!(dst, "(a b c (1 2 3) \"x y z'\"\")");
}

#[test]
fn parse_scenario_tree_shape() {
    let res = from_string("(a b c (1 2 3) (x) 't e s t')").unwrap();
    let expected = l(vec![
        a("a"),
        a("b"),
        a("c"),
        l(vec![a("1"), a("2"), a("3")]),
        l(vec![a("x")]),
        a("t e s t"),
    ]);
    assert_eq!(res, expected);
}

#[test]
fn unterminated_input_fails_with_io_error() {
    match from_string("(a b") {
        Err(Error::IO(_)) => {}
        other => panic!("unexpected result: {:?}", other),
    }
    assert!(matches!(from_string(""), Err(Error::IO(_))));
    assert!(matches!(from_string("(a 'b)"), Err(Error::IO(_))));
}

#[test]
fn nested_lists_round_trip() {
    let v = l(vec![
        a("a"),
        l(vec![a("b"), l(vec![a("c"), l(vec![])])]),
        l(vec![]),
        a("d"),
    ]);
    let text = to_string(&v).unwrap();
    assert_eq!(text, "(a (b (c ())) () d)");
    assert_eq!(from_string(&text).unwrap(), v);
}

#[test]
fn empty_list_parses_and_prints() {
    assert_eq!(from_string("()").unwrap(), Sexp::unit());
    assert_eq!(to_string(&Sexp::unit()).unwrap(), "()");
}

#[test]
fn whitespace_separates_atoms() {
    let v = from_string("(  a\tb\nc  )").unwrap();
    assert_eq!(v, l(vec![a("a"), a("b"), a("c")]));
}

#[test]
fn text_after_the_expression_is_ignored() {
    assert_eq!(from_string("(a) (b)").unwrap(), l(vec![a("a")]));
}

#[test]
fn quoting_law_single_quote_delimiter() {
    let t = to_string(&a("x (y) z")).unwrap();
    assert_eq!(t, "'x (y) z'");
    let back = from_string(&format!("({})", t)).unwrap();
    assert_eq!(back, l(vec![a("x (y) z")]));
}

#[test]
fn quoting_law_double_quote_delimiter() {
    let t = to_string(&a("it's here")).unwrap();
    assert_eq!(t, "\"it's here\"");
    let back = from_string(&format!("({})", t)).unwrap();
    assert_eq!(back, l(vec![a("it's here")]));
}

#[test]
fn atom_without_structure_is_written_verbatim() {
    assert_eq!(to_string(&a("plain'quote")).unwrap(), "plain'quote");
    assert_eq!(to_string(&a("")).unwrap(), "");
}

#[test]
fn double_quote_inside_double_quotes_does_not_round_trip() {
    let t = to_string(&a("a 'b\"")).unwrap();
    assert_eq!(t, "\"a 'b\"\"");
    let back = from_string(&format!("({})", t));
    assert!(matches!(back, Err(Error::IO(_))));
}

#[test]
fn escapes_inside_quotes() {
    let v = from_string("('a\\nb' \"c\\td\" 'e\\rf' 'g\\'h' \"i\\\"j\")").unwrap();
    assert_eq!(
        v,
        l(vec![a("a\nb"), a("c\td"), a("e\rf"), a("g'h"), a("i\"j")])
    );
}

#[test]
fn unknown_escape_is_dropped() {
    assert_eq!(from_string("('a\\qb')").unwrap(), l(vec![a("ab")]));
}

#[test]
fn other_quote_is_literal_inside_quotes() {
    let v = from_string("('say \"hi\"' \"it's\")").unwrap();
    assert_eq!(v, l(vec![a("say \"hi\""), a("it's")]));
}

#[test]
fn empty_quoted_atom_is_kept() {
    assert_eq!(from_string("('' b)").unwrap(), l(vec![a(""), a("b")]));
}

#[test]
fn is_unit_only_for_empty_list() {
    assert!(Sexp::unit().is_unit());
    assert!(l(vec![]).is_unit());
    assert!(!a("").is_unit());
    assert!(!a("x").is_unit());
    assert!(!l(vec![a("x")]).is_unit());
    assert!(!l(vec![l(vec![])]).is_unit());
}

#[test]
fn to_vec_flattens() {
    assert_eq!(a("x").to_vec(), vec![a("x")]);
    assert_eq!(l(vec![a("x"), a("y")]).to_vec(), vec![a("x"), a("y")]);
    assert_eq!(Sexp::unit().to_vec(), Vec::<Sexp>::new());
}

#[test]
fn to_string_collapses() {
    assert_eq!(a("x").to_string(), Some("x".to_string()));
    assert_eq!(l(vec![l(vec![a("y")])]).to_string(), Some("y".to_string()));
    assert_eq!(l(vec![a("x"), a("y")]).to_string(), None);
    assert_eq!(Sexp::unit().to_string(), None);
}

#[test]
fn numeric_collapse() {
    assert_eq!(a("42").to_i64(), Some(42));
    assert_eq!(a("-7").to_i64(), Some(-7));
    assert_eq!(a("+5").to_i64(), Some(5));
    assert_eq!(l(vec![a("13")]).to_i64(), Some(13));
    assert_eq!(a("9223372036854775807").to_i64(), Some(i64::MAX));
    assert_eq!(a("-9223372036854775808").to_i64(), Some(i64::MIN));
    assert_eq!(a("9223372036854775808").to_i64(), None);
    assert_eq!(a("abc").to_i64(), None);
    assert_eq!(a("1 2").to_i64(), None);
    assert_eq!(a("").to_i64(), None);
    assert_eq!(a("-").to_i64(), None);
    assert_eq!(l(vec![a("1"), a("2")]).to_i64(), None);
}

#[test]
fn list_copies_elements() {
    let parts = [a("x"), l(vec![a("y")])];
    let v = Sexp::list(&parts);
    assert_eq!(v, l(vec![a("x"), l(vec![a("y")])]));
    assert_eq!(v.copy(), v);
}

#[test]
fn writer_appends_and_hands_back_text() {
    let mut w = Writer::new();
    assert!(w.write(&a("x")).is_ok());
    assert!(w.write(&l(vec![a("y"), a("z w")])).is_ok());
    assert_eq!(w.into_inner(), Some("x(y 'z w')".to_string()));
}

#[test]
fn reader_reads_one_expression() {
    let r = Reader::new("(k (v))");
    assert_eq!(r.read().unwrap(), l(vec![a("k"), l(vec![a("v")])]));
    let chars: Vec<char> = "(p q)".chars().collect();
    assert_eq!(Reader::parse(&chars).unwrap(), l(vec![a("p"), a("q")]));
}

#[test]
fn boolean_decode() {
    for t in ["true", "TRUE", "1"] {
        assert_eq!(decode_bool(&a(t)).unwrap(), true);
    }
    for f in ["false", "FALSE", "0"] {
        assert_eq!(decode_bool(&a(f)).unwrap(), false);
    }
    assert!(matches!(decode_bool(&a("True")), Err(Error::InvalidType)));
    assert!(matches!(decode_bool(&a("yes")), Err(Error::InvalidType)));
    assert!(matches!(decode_bool(&l(vec![a("true")])), Err(Error::InvalidType)));
}

#[test]
fn option_decode() {
    assert_eq!(decode_option(Sexp::unit()), None);
    assert_eq!(decode_option(l(vec![a("x")])), Some(a("x")));
    assert_eq!(
        decode_option(l(vec![l(vec![a("x"), a("y")])])),
        Some(l(vec![a("x"), a("y")]))
    );
    assert_eq!(decode_option(l(vec![a("x"), a("y")])), None);
    assert_eq!(decode_option(a("x")), None);
}

#[test]
fn unit_decode() {
    assert!(decode_unit(&Sexp::unit()).is_ok());
    assert!(matches!(decode_unit(&a("")), Err(Error::InvalidType)));
    assert!(matches!(decode_unit(&l(vec![a("x")])), Err(Error::InvalidType)));
}

#[test]
fn text_decode() {
    assert_eq!(decode_text(a("hello")).unwrap(), "hello");
    assert!(matches!(decode_text(Sexp::unit()), Err(Error::InvalidType)));
}

#[test]
fn signed_decode_respects_width() {
    assert_eq!(decode_signed(&a("127"), -128, 127).unwrap(), 127);
    assert_eq!(decode_signed(&a("-128"), -128, 127).unwrap(), -128);
    assert!(matches!(decode_signed(&a("128"), -128, 127), Err(Error::InvalidType)));
    assert!(matches!(decode_signed(&a("x"), -128, 127), Err(Error::InvalidType)));
    assert!(matches!(decode_signed(&l(vec![a("1")]), -128, 127), Err(Error::InvalidType)));
}

#[test]
fn unsigned_decode_respects_width() {
    assert_eq!(decode_unsigned(&a("255"), 255).unwrap(), 255);
    assert_eq!(decode_unsigned(&a("+7"), 255).unwrap(), 7);
    assert_eq!(decode_unsigned(&a("18446744073709551615"), u64::MAX).unwrap(), u64::MAX);
    assert!(matches!(decode_unsigned(&a("256"), 255), Err(Error::InvalidType)));
    assert!(matches!(decode_unsigned(&a("-0"), 255), Err(Error::InvalidType)));
    assert!(matches!(decode_unsigned(&a("-1"), 255), Err(Error::InvalidType)));
}

#[test]
fn char_decode() {
    assert_eq!(decode_char(&a("z")).unwrap(), 'z');
    assert_eq!(decode_char(&a("é")).unwrap(), 'é');
    assert!(matches!(decode_char(&a("zz")), Err(Error::InvalidType)));
    assert!(matches!(decode_char(&a("")), Err(Error::InvalidType)));
    assert!(matches!(decode_char(&Sexp::unit()), Err(Error::InvalidType)));
}

#[test]
fn error_descriptions() {
    assert_eq!(Error::NotImplemented.description(), "not implemented");
    assert_eq!(Error::InvalidType.description(), "invalid type");
    assert_eq!(Error::Message("boom".to_string()).description(), "boom");
}

#[test]
fn integers_become_decimal_atoms() {
    assert_eq!(Sexp::from_i64(0), a("0"));
    assert_eq!(Sexp::from_i64(1234), a("1234"));
    assert_eq!(Sexp::from_i64(-56), a("-56"));
    assert_eq!(Sexp::from_i64(i64::MIN), a("-9223372036854775808"));
    assert_eq!(Sexp::from_i64(i64::MAX).to_i64(), Some(i64::MAX));
    assert_eq!(Sexp::from_i64(-3).to_i64(), Some(-3));
}
