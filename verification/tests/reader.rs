use dslc::{lex, Datum, Reader};

#[test]
fn integer_tokens_read_as_integers_in_order() {
    let toks = lex("1 2 3").expect("lex ok");
    let mut reader = Reader::new(toks);
    let forms = reader.parse_all().expect("read ok");
    assert_eq!(forms.len(), 3);
    assert!(matches!(forms[0], Datum::Int(1, _)));
    assert!(matches!(forms[1], Datum::Int(2, _)));
    assert!(matches!(forms[2], Datum::Int(3, _)));
}

#[test]
fn leading_closing_delimiter_is_refused() {
    let toks = lex(") 1").expect("lex ok");
    let mut reader = Reader::new(toks);
    let err = reader.parse_all().expect_err("expected error");
    assert_eq!(err.message, "unexpected closing delimiter");
    let sp = err.span.expect("span");
    assert_eq!(sp.start.byte, 0);
    assert_eq!(sp.end.byte, 1);
}

#[test]
fn empty_input_reads_no_forms() {
    let toks = lex("").expect("lex ok");
    let mut reader = Reader::new(toks);
    let forms = reader.parse_all().expect("read ok");
    assert!(forms.is_empty());
}
