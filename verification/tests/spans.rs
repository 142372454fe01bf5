use sv_parser::context::Parser;
use sv_parser::dialect::system_verilog;
use sv_parser::failure::Failure;
use sv_parser::failure::FailureKind;
use sv_parser::parser::behavioral_statements::case_statements::case_item_default;
use sv_parser::parser::behavioral_statements::statements::StatementOrNull;
use sv_parser::span::position_of;
use sv_parser::span::span_of_children;
use sv_parser::span::text_of_span;
use sv_parser::span::Position;
use sv_parser::span::Span;
use sv_parser::unit::diagnose;
use sv_parser::unit::parse_clocking_declaration;
use sv_parser::unit::parse_expression;
use sv_parser::unit::parse_module_instantiation;
use sv_parser::unit::parse_statement;

#[test]
fn position_counts_lines_and_columns_from_zero() {
    let src = b"ab\ncd\n\nef";
    assert_eq!(position_of(src, 0), Position { line: 0, column: 0 });
    assert_eq!(position_of(src, 2), Position { line: 0, column: 2 });
    assert_eq!(position_of(src, 3), Position { line: 1, column: 0 });
    assert_eq!(position_of(src, 5), Position { line: 1, column: 2 });
    assert_eq!(position_of(src, 6), Position { line: 2, column: 0 });
    assert_eq!(position_of(src, 7), Position { line: 3, column: 0 });
    assert_eq!(position_of(src, 9), Position { line: 3, column: 2 });
    assert_eq!(position_of(b"", 0), Position { line: 0, column: 0 });
}

#[test]
fn span_union_and_span_of_children() {
    let first = Span::new(4, 3);
    let last = Span { offset: 10, len: 5 };
    assert_eq!(first.union(last), Span { offset: 4, len: 11 });
    assert_eq!(first.union(first), first);
    assert_eq!(span_of_children(&vec![]), None);
    assert_eq!(span_of_children(&vec![first]), Some(first));
    assert_eq!(
        span_of_children(&vec![first, Span { offset: 7, len: 0 }, last]),
        Some(Span { offset: 4, len: 11 })
    );
}

#[test]
fn text_of_a_span() {
    let src = b"case (sel)";
    assert_eq!(text_of_span(src, Span { offset: 0, len: 4 }), b"case");
    assert_eq!(text_of_span(src, Span { offset: 6, len: 3 }), b"sel");
    assert_eq!(text_of_span(src, Span { offset: 10, len: 0 }), b"");
}

#[test]
fn diagnostic_has_line_and_column() {
    let src = b"if (a)\n  b = ;\n";
    let dialect = system_verilog();
    let d = parse_statement(src, 42, &dialect, 32).unwrap_err();
    assert_eq!(d.file, 42);
    assert_eq!(d.rule, "statement_or_null");
    assert_eq!(d.offset, 13);
    assert_eq!(d.position, Position { line: 1, column: 6 });
    assert!(d.committed);
    let f = Failure { kind: FailureKind::Identifier, offset: 7, committed: false };
    let d = diagnose(src, 1, "x", f);
    assert_eq!(d.position, Position { line: 1, column: 0 });
    assert_eq!(d.kind, FailureKind::Identifier);
    assert_eq!(d.offset, 7);
    assert!(!d.committed);
}

#[test]
fn units_must_be_parsed_to_the_end() {
    let dialect = system_verilog();
    assert!(parse_expression(b" a + 1 ", 0, &dialect, 8).is_ok());
    let d = parse_expression(b"a + 1 ;", 0, &dialect, 8).unwrap_err();
    assert_eq!(d.kind, FailureKind::EndOfInput);
    assert_eq!(d.offset, 6);
    assert_eq!(d.rule, "expression");
    assert!(parse_statement(b"\n\tbegin end\n", 0, &dialect, 8).is_ok());
    assert!(parse_module_instantiation(b"m u();", 0, &dialect, 8).is_ok());
    assert!(parse_clocking_declaration(b"clocking @c; endclocking", 0, &dialect, 8).is_ok());
    let d = parse_statement(b"", 0, &dialect, 8).unwrap_err();
    assert_eq!(d.offset, 0);
    let d = parse_statement(b"a = 1;", 0, &dialect, 0).unwrap_err();
    assert_eq!(d.kind, FailureKind::TooDeep);
}

#[test]
fn tokens_cover_the_source_without_gaps() {
    let src = b"default :  ;  ";
    let dialect = system_verilog();
    let mut ctx = Parser::new(src, &dialect);
    let (end, item) = case_item_default(&mut ctx, 0, 8).unwrap();
    assert_eq!(end, src.len());
    let colon = item.nodes.1.unwrap();
    let mut spans = vec![item.nodes.0.nodes.0, item.nodes.0.nodes.1, colon.nodes.0, colon.nodes.1];
    match item.nodes.2 {
        StatementOrNull::Attribute(a) => {
            assert_eq!(a.nodes.0.len(), 0);
            spans.push(a.nodes.1.nodes.0);
            spans.push(a.nodes.1.nodes.1);
        }
        _ => panic!("not the null statement"),
    }
    let mut at = 0;
    let mut text = Vec::new();
    for s in &spans {
        assert_eq!(s.offset, at);
        at += s.len;
        text.extend_from_slice(text_of_span(src, *s));
    }
    assert_eq!(at, end);
    assert_eq!(text, src);
    assert_eq!(span_of_children(&spans), Some(Span { offset: 0, len: end }));
}
