use sv_parser::context::Parser;
use sv_parser::dialect::system_verilog;
use sv_parser::failure::Failure;
use sv_parser::failure::FailureKind;
use sv_parser::parser::expressions::operators::binary_operator;
use sv_parser::parser::expressions::operators::unary_operator;
use sv_parser::span::Span;
use sv_parser::token::identifier;
use sv_parser::token::integral_number;
use sv_parser::token::keyword;
use sv_parser::token::string_literal;
use sv_parser::token::symbol;
use sv_parser::token::system_tf_identifier;

#[test]
fn keyword_takes_word_and_white_space() {
    let src = b"endcase \t\r\n x";
    let dialect = system_verilog();
    let ctx = Parser::new(src, &dialect);
    let (end, k) = keyword(&ctx, 0, "endcase").unwrap();
    assert_eq!(end, 12);
    assert_eq!(k.nodes.0, Span { offset: 0, len: 7 });
    assert_eq!(k.nodes.1, Span { offset: 7, len: 5 });
}

#[test]
fn keyword_at_end_of_input() {
    let src = b"end";
    let dialect = system_verilog();
    let ctx = Parser::new(src, &dialect);
    let (end, k) = keyword(&ctx, 0, "end").unwrap();
    assert_eq!(end, 3);
    assert_eq!(k.nodes.0, Span { offset: 0, len: 3 });
    assert_eq!(k.nodes.1, Span { offset: 3, len: 0 });
}

#[test]
fn keyword_does_not_match_prefix_of_word() {
    let dialect = system_verilog();
    let src = b"casex";
    let ctx = Parser::new(src, &dialect);
    assert_eq!(
        keyword(&ctx, 0, "case"),
        Err(Failure { kind: FailureKind::Keyword("case"), offset: 0, committed: false })
    );
    assert!(keyword(&ctx, 0, "casex").is_ok());
    let src = b"case_1 case$ case9";
    let ctx = Parser::new(src, &dialect);
    assert!(keyword(&ctx, 0, "case").is_err());
    assert!(keyword(&ctx, 7, "case").is_err());
    assert!(keyword(&ctx, 13, "case").is_err());
    let src = b"case(";
    let ctx = Parser::new(src, &dialect);
    assert_eq!(keyword(&ctx, 0, "case").unwrap().0, 4);
}

#[test]
fn keyword_fails_on_other_text_and_short_input() {
    let dialect = system_verilog();
    let src = b"cas";
    let ctx = Parser::new(src, &dialect);
    assert!(keyword(&ctx, 0, "case").is_err());
    let src = b"cast";
    let ctx = Parser::new(src, &dialect);
    let f = keyword(&ctx, 0, "case").unwrap_err();
    assert_eq!(f.offset, 0);
    assert!(!f.committed);
    let src = b"";
    let ctx = Parser::new(src, &dialect);
    assert!(keyword(&ctx, 0, "case").is_err());
}

#[test]
fn symbol_matches_whatever_follows() {
    let dialect = system_verilog();
    let src = b"##1";
    let ctx = Parser::new(src, &dialect);
    let (end, s) = symbol(&ctx, 0, "#").unwrap();
    assert_eq!(end, 1);
    assert_eq!(s.nodes.0, Span { offset: 0, len: 1 });
    let (end, s) = symbol(&ctx, 0, "##").unwrap();
    assert_eq!(end, 2);
    assert_eq!(s.nodes.0, Span { offset: 0, len: 2 });
    assert_eq!(
        symbol(&ctx, 2, "#"),
        Err(Failure { kind: FailureKind::Symbol("#"), offset: 2, committed: false })
    );
}

#[test]
fn symbol_in_the_middle_of_the_source() {
    let dialect = system_verilog();
    let src = b"a ;  b";
    let ctx = Parser::new(src, &dialect);
    let (end, s) = symbol(&ctx, 2, ";").unwrap();
    assert_eq!(end, 5);
    assert_eq!(s.nodes.0, Span { offset: 2, len: 1 });
    assert_eq!(s.nodes.1, Span { offset: 3, len: 2 });
    assert!(symbol(&ctx, 6, ";").is_err());
}

#[test]
fn identifier_is_longest_run_of_word_bytes() {
    let dialect = system_verilog();
    let src = b"_a$1z+b";
    let ctx = Parser::new(src, &dialect);
    let (end, id) = identifier(&ctx, 0).unwrap();
    assert_eq!(end, 5);
    assert_eq!(id.nodes.0, Span { offset: 0, len: 5 });
    assert_eq!(id.nodes.1, Span { offset: 5, len: 0 });
    let (end, id) = identifier(&ctx, 6).unwrap();
    assert_eq!(end, 7);
    assert_eq!(id.nodes.0, Span { offset: 6, len: 1 });
}

#[test]
fn identifier_rejects_reserved_words_digits_and_dollar() {
    let dialect = system_verilog();
    for text in [&b"case"[..], b"endcase ", b"1abc", b"$abc", b"", b"+", b"unique0"] {
        let ctx = Parser::new(text, &dialect);
        assert_eq!(
            identifier(&ctx, 0),
            Err(Failure { kind: FailureKind::Identifier, offset: 0, committed: false })
        );
    }
    for text in [&b"cases"[..], b"casexy", b"Case", b"endcase_"] {
        let ctx = Parser::new(text, &dialect);
        assert_eq!(identifier(&ctx, 0).unwrap().0, text.len());
    }
}

#[test]
fn identifier_with_another_dialect() {
    let mut dialect = system_verilog();
    dialect.reserved = vec!["foo"];
    let src = b"case";
    let ctx = Parser::new(src, &dialect);
    assert!(identifier(&ctx, 0).is_ok());
    let src = b"foo";
    let ctx = Parser::new(src, &dialect);
    assert!(identifier(&ctx, 0).is_err());
}

#[test]
fn number_is_digits_and_underscores() {
    let dialect = system_verilog();
    let src = b"1_000 ;";
    let ctx = Parser::new(src, &dialect);
    let (end, n) = integral_number(&ctx, 0).unwrap();
    assert_eq!(end, 6);
    assert_eq!(n.nodes.0, Span { offset: 0, len: 5 });
    assert_eq!(n.nodes.1, Span { offset: 5, len: 1 });
    for text in [&b"_1"[..], b"12ab", b"a1", b"", b"1$"] {
        let ctx = Parser::new(text, &dialect);
        assert_eq!(
            integral_number(&ctx, 0),
            Err(Failure { kind: FailureKind::Number, offset: 0, committed: false })
        );
    }
}

#[test]
fn system_identifier_needs_dollar_and_a_name() {
    let dialect = system_verilog();
    let src = b"$display (";
    let ctx = Parser::new(src, &dialect);
    let (end, n) = system_tf_identifier(&ctx, 0).unwrap();
    assert_eq!(end, 9);
    assert_eq!(n.nodes.0, Span { offset: 0, len: 8 });
    for text in [&b"$"[..], b"$ x", b"display", b""] {
        let ctx = Parser::new(text, &dialect);
        assert_eq!(
            system_tf_identifier(&ctx, 0),
            Err(Failure { kind: FailureKind::SystemIdentifier, offset: 0, committed: false })
        );
    }
}

#[test]
fn operators_longest_first() {
    let dialect = system_verilog();
    let src = b"<<< << < <= ~& ~";
    let ctx = Parser::new(src, &dialect);
    assert_eq!(binary_operator(&ctx, 0).unwrap().1.nodes.0.nodes.0, Span { offset: 0, len: 3 });
    assert_eq!(binary_operator(&ctx, 4).unwrap().1.nodes.0.nodes.0, Span { offset: 4, len: 2 });
    assert_eq!(binary_operator(&ctx, 7).unwrap().1.nodes.0.nodes.0, Span { offset: 7, len: 1 });
    assert_eq!(binary_operator(&ctx, 9).unwrap().1.nodes.0.nodes.0, Span { offset: 9, len: 2 });
    assert_eq!(unary_operator(&ctx, 12).unwrap().1.nodes.0.nodes.0, Span { offset: 12, len: 2 });
    assert_eq!(unary_operator(&ctx, 15).unwrap().1.nodes.0.nodes.0, Span { offset: 15, len: 1 });
    assert_eq!(
        unary_operator(&ctx, 0),
        Err(Failure { kind: FailureKind::Operator, offset: 0, committed: false })
    );
}

#[test]
fn triple_ampersand_is_no_binary_operator() {
    let dialect = system_verilog();
    let src = b"&&& && &";
    let ctx = Parser::new(src, &dialect);
    assert_eq!(
        binary_operator(&ctx, 0),
        Err(Failure { kind: FailureKind::Operator, offset: 0, committed: false })
    );
    assert_eq!(binary_operator(&ctx, 4).unwrap().0, 7);
    assert_eq!(binary_operator(&ctx, 7).unwrap().0, 8);
    assert!(symbol(&ctx, 0, "&&&").is_ok());
}

#[test]
fn string_literal_with_escapes() {
    let dialect = system_verilog();
    let src = b"\"a\\\"b\\\\\" x";
    let ctx = Parser::new(src, &dialect);
    let (end, s) = string_literal(&ctx, 0).unwrap();
    assert_eq!(s.nodes.0, Span { offset: 0, len: 8 });
    assert_eq!(end, 9);
    let src = b"\"\"";
    let ctx = Parser::new(src, &dialect);
    assert_eq!(string_literal(&ctx, 0).unwrap().1.span(), Span { offset: 0, len: 2 });
}

#[test]
fn string_literal_must_be_closed_on_its_line() {
    let dialect = system_verilog();
    for text in [&b"\"abc"[..], b"\"ab\ncd\"", b"\"ab\\", b"\"ab\\\"", b"abc\"", b"", b"\""] {
        let ctx = Parser::new(text, &dialect);
        assert_eq!(
            string_literal(&ctx, 0),
            Err(Failure { kind: FailureKind::StringLiteral, offset: 0, committed: false })
        );
    }
    let src = b"\"a\\\nb\"";
    let ctx = Parser::new(src, &dialect);
    assert_eq!(string_literal(&ctx, 0).unwrap().0, 6);
}
