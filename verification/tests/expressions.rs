use sv_parser::context::MemoRule;
use sv_parser::context::Parser;
use sv_parser::dialect::system_verilog;
use sv_parser::failure::Failure;
use sv_parser::failure::FailureKind;
use sv_parser::parser::behavioral_statements::patterns::pattern;
use sv_parser::parser::behavioral_statements::patterns::Pattern;
use sv_parser::parser::expressions::expressions::expression;
use sv_parser::parser::expressions::expressions::param_expression;
use sv_parser::parser::expressions::expressions::value_range;
use sv_parser::parser::expressions::expressions::Expression;
use sv_parser::parser::expressions::expressions::ParamExpression;
use sv_parser::parser::expressions::expressions::ValueRange;
use sv_parser::parser::expressions::primaries::primary;
use sv_parser::parser::expressions::primaries::select;
use sv_parser::parser::expressions::primaries::Primary;
use sv_parser::parser::general::identifiers::hierarchical_identifier;
use sv_parser::span::Span;

fn parse_expression(src: &[u8], depth: usize) -> Result<(usize, Expression), Failure> {
    let dialect = system_verilog();
    let mut ctx = Parser::new(src, &dialect);
    expression(&mut ctx, 0, depth)
}

#[test]
fn expression_number() {
    let (end, e) = parse_expression(b"42 ", 8).unwrap();
    assert_eq!(end, 3);
    match e {
        Expression::Primary(p) => match *p {
            Primary::Number(n) => assert_eq!(n.nodes.0, Span { offset: 0, len: 2 }),
            _ => panic!("not a number"),
        },
        _ => panic!("not a primary"),
    }
}

#[test]
fn expression_binary_is_right_nested() {
    let (end, e) = parse_expression(b"a + b * c", 8).unwrap();
    assert_eq!(end, 9);
    match e {
        Expression::Binary(b) => {
            assert!(b.nodes.0.is_none());
            assert!(matches!(b.nodes.1, Primary::Hierarchical(_)));
            assert_eq!(b.nodes.2.nodes.0.nodes.0, Span { offset: 2, len: 1 });
            match &b.nodes.3 {
                Expression::Binary(inner) => {
                    assert_eq!(inner.nodes.2.nodes.0.nodes.0, Span { offset: 6, len: 1 });
                    assert!(matches!(inner.nodes.3, Expression::Primary(_)));
                }
                _ => panic!("right operand is not binary"),
            }
        }
        _ => panic!("not binary"),
    }
}

#[test]
fn expression_unary_and_unary_left_operand() {
    let (end, e) = parse_expression(b"!a", 8).unwrap();
    assert_eq!(end, 2);
    assert!(matches!(e, Expression::Unary(_)));
    let (end, e) = parse_expression(b"!a && b", 8).unwrap();
    assert_eq!(end, 7);
    match e {
        Expression::Binary(b) => {
            assert!(b.nodes.0.is_some());
            assert_eq!(b.nodes.2.nodes.0.nodes.0, Span { offset: 3, len: 2 });
        }
        _ => panic!("not binary"),
    }
}

#[test]
fn expression_conditional() {
    let (end, e) = parse_expression(b"(a) ? b : c", 8).unwrap();
    assert_eq!(end, 11);
    match e {
        Expression::Conditional(c) => {
            assert_eq!(c.nodes.0.nodes.1.nodes.0.nodes.1.len(), 0);
            assert_eq!(c.nodes.1.nodes.0, Span { offset: 4, len: 1 });
            assert_eq!(c.nodes.3.nodes.0, Span { offset: 8, len: 1 });
        }
        _ => panic!("not conditional"),
    }
}

#[test]
fn conditional_commits_after_question_mark() {
    let f = parse_expression(b"(a) ? b c", 8).unwrap_err();
    assert_eq!(f, Failure { kind: FailureKind::Symbol(":"), offset: 8, committed: true });
}

#[test]
fn parenthesized_without_question_mark_is_primary() {
    let (end, e) = parse_expression(b"(a)", 8).unwrap();
    assert_eq!(end, 3);
    match e {
        Expression::Primary(p) => assert!(matches!(*p, Primary::Parenthesized(_))),
        _ => panic!("not a primary"),
    }
}

#[test]
fn expression_stops_before_what_it_cannot_take() {
    let (end, _) = parse_expression(b"a ; b", 8).unwrap();
    assert_eq!(end, 2);
    let (end, _) = parse_expression(b"a &&& b", 8).unwrap();
    assert_eq!(end, 2);
    let (end, _) = parse_expression(b"a + ;", 8).unwrap();
    assert_eq!(end, 2);
}

#[test]
fn expression_fails_on_reserved_word_and_empty() {
    assert_eq!(
        parse_expression(b"endcase", 8).unwrap_err(),
        Failure { kind: FailureKind::Symbol("("), offset: 0, committed: false }
    );
    assert!(parse_expression(b"", 8).is_err());
    let f = parse_expression(b"(a", 8).unwrap_err();
    assert_eq!(f.offset, 2);
    assert_eq!(f.kind, FailureKind::Symbol(")"));
    assert!(!f.committed);
}

#[test]
fn expression_without_depth_fails_with_too_deep() {
    assert_eq!(
        parse_expression(b"a", 0).unwrap_err(),
        Failure { kind: FailureKind::TooDeep, offset: 0, committed: true }
    );
    assert!(parse_expression(b"a", 1).is_ok());
    assert!(parse_expression(b"(a)", 2).is_ok());
    assert_eq!(
        parse_expression(b"(a)", 1).unwrap_err(),
        Failure { kind: FailureKind::TooDeep, offset: 1, committed: true }
    );
    assert_eq!(
        parse_expression(b"((a))", 2).unwrap_err(),
        Failure { kind: FailureKind::TooDeep, offset: 2, committed: true }
    );
    assert!(parse_expression(b"((a))", 3).is_ok());
}

#[test]
fn memo_table_holds_one_outcome_per_offset() {
    let src = b"((a))";
    let dialect = system_verilog();
    let mut ctx = Parser::new(src, &dialect);
    assert_eq!(ctx.remembered_count(MemoRule::Expression), 0);
    let first = expression(&mut ctx, 0, 8).unwrap();
    assert_eq!(first.0, 5);
    assert_eq!(ctx.remembered_count(MemoRule::Expression), 3);
    let again = expression(&mut ctx, 0, 8).unwrap();
    assert_eq!(again.0, 5);
    assert_eq!(ctx.remembered_count(MemoRule::Expression), 3);
    ctx.forget();
    assert_eq!(ctx.remembered_count(MemoRule::Expression), 0);
    assert_eq!(expression(&mut ctx, 0, 8).unwrap().0, 5);
}

#[test]
fn memo_table_does_not_change_outcomes() {
    let src = b"(a + (b)) * c ? d";
    let dialect = system_verilog();
    let mut warm = Parser::new(src, &dialect);
    for pos in 0..src.len() {
        let _ = expression(&mut warm, pos, 8);
    }
    for pos in 0..src.len() {
        let mut cold = Parser::new(src, &dialect);
        let a = expression(&mut cold, pos, 8).map(|(end, _)| end);
        let b = expression(&mut warm, pos, 8).map(|(end, _)| end);
        assert_eq!(a, b);
    }
}

#[test]
fn memo_outcome_is_not_used_for_another_depth() {
    let src = b"(a)";
    let dialect = system_verilog();
    let mut ctx = Parser::new(src, &dialect);
    assert!(expression(&mut ctx, 0, 1).is_err());
    assert_eq!(expression(&mut ctx, 0, 2).unwrap().0, 3);
    assert!(expression(&mut ctx, 0, 1).is_err());
}

#[test]
fn hierarchical_identifier_and_select() {
    let src = b"top.u1.sig[3][i] ";
    let dialect = system_verilog();
    let mut ctx = Parser::new(src, &dialect);
    let (end, h) = hierarchical_identifier(&mut ctx, 0).unwrap();
    assert_eq!(end, 10);
    assert_eq!(h.nodes.0.nodes.0, Span { offset: 0, len: 3 });
    assert_eq!(h.nodes.1.len(), 2);
    assert_eq!(h.nodes.1[1].1.nodes.0, Span { offset: 7, len: 3 });
    let (end, s) = select(&mut ctx, 10, 8).unwrap();
    assert_eq!(end, 17);
    assert_eq!(s.nodes.0.len(), 2);
    let (end, s) = select(&mut ctx, 17, 8).unwrap();
    assert_eq!(end, 17);
    assert_eq!(s.nodes.0.len(), 0);
}

#[test]
fn primary_alternatives() {
    let dialect = system_verilog();
    let src = b"7";
    let mut ctx = Parser::new(src, &dialect);
    assert!(matches!(primary(&mut ctx, 0, 8).unwrap().1, Primary::Number(_)));
    let src = b"x[1]";
    let mut ctx = Parser::new(src, &dialect);
    let (end, p) = primary(&mut ctx, 0, 8).unwrap();
    assert_eq!(end, 4);
    assert!(matches!(p, Primary::Hierarchical(_)));
    let src = b"( x )";
    let mut ctx = Parser::new(src, &dialect);
    assert!(matches!(primary(&mut ctx, 0, 8).unwrap().1, Primary::Parenthesized(_)));
    let src = b";";
    let mut ctx = Parser::new(src, &dialect);
    assert_eq!(
        primary(&mut ctx, 0, 8).unwrap_err(),
        Failure { kind: FailureKind::Number, offset: 0, committed: false }
    );
}

#[test]
fn param_expression_and_value_range() {
    let dialect = system_verilog();
    let src = b"$";
    let mut ctx = Parser::new(src, &dialect);
    assert!(matches!(param_expression(&mut ctx, 0, 8).unwrap().1, ParamExpression::Dollar(_)));
    let src = b"8";
    let mut ctx = Parser::new(src, &dialect);
    assert!(matches!(param_expression(&mut ctx, 0, 8).unwrap().1, ParamExpression::Expression(_)));
    let src = b"[1:3]";
    let mut ctx = Parser::new(src, &dialect);
    let (end, v) = value_range(&mut ctx, 0, 8).unwrap();
    assert_eq!(end, 5);
    assert!(matches!(v, ValueRange::Binary(_)));
    let src = b"x";
    let mut ctx = Parser::new(src, &dialect);
    assert!(matches!(value_range(&mut ctx, 0, 8).unwrap().1, ValueRange::Expression(_)));
}

#[test]
fn pattern_alternatives() {
    let dialect = system_verilog();
    let src = b".*";
    let mut ctx = Parser::new(src, &dialect);
    assert!(matches!(pattern(&mut ctx, 0, 8).unwrap().1, Pattern::Asterisk(_)));
    let src = b".x";
    let mut ctx = Parser::new(src, &dialect);
    assert!(matches!(pattern(&mut ctx, 0, 8).unwrap().1, Pattern::Variable(_)));
    let src = b"'{.a, 3, '{.*}}";
    let mut ctx = Parser::new(src, &dialect);
    let (end, p) = pattern(&mut ctx, 0, 8).unwrap();
    assert_eq!(end, src.len());
    match p {
        Pattern::List(l) => assert_eq!(l.nodes.1.nodes.1.len(), 2),
        _ => panic!("not a list"),
    }
    let src = b"a + 1";
    let mut ctx = Parser::new(src, &dialect);
    assert!(matches!(pattern(&mut ctx, 0, 8).unwrap().1, Pattern::ConstantExpression(_)));
    let src = b"'{.a";
    let mut ctx = Parser::new(src, &dialect);
    let f = pattern(&mut ctx, 0, 8).unwrap_err();
    assert_eq!(f, Failure { kind: FailureKind::Symbol("}"), offset: 4, committed: true });
    assert_eq!(ctx.remembered_count(MemoRule::Pattern), 2);
}

#[test]
fn deep_nesting_takes_time_in_proportion() {
    fn nested(n: usize) -> Vec<u8> {
        let mut src = Vec::new();
        for _ in 0..n {
            src.push(b'(');
        }
        src.push(b'a');
        for _ in 0..n {
            src.push(b')');
        }
        src
    }
    fn time(n: usize) -> std::time::Duration {
        let src = nested(n);
        let dialect = system_verilog();
        let started = std::time::Instant::now();
        for _ in 0..20 {
            let mut ctx = Parser::new(&src, &dialect);
            let (end, _) = expression(&mut ctx, 0, n + 1).unwrap();
            assert_eq!(end, src.len());
        }
        started.elapsed()
    }
    let _ = time(40);
    let small = time(40);
    let large = time(80);
    assert!(large < small * 8 + std::time::Duration::from_millis(50));
}

#[test]
fn calls_and_strings_as_operands() {
    let dialect = system_verilog();
    let cases: [(&[u8], usize); 6] = [
        (b"f(1, a + 2)", 3),
        (b"top.f()", 3),
        (b"$clog2(n)", 2),
        (b"$time", 2),
        (b"\"text\"", 1),
        (b"f [1]", 4),
    ];
    for (src, which) in cases {
        let mut ctx = Parser::new(src, &dialect);
        let (end, p) = primary(&mut ctx, 0, 8).unwrap();
        assert_eq!(end, src.len());
        let got = match p {
            Primary::Number(_) => 0,
            Primary::String(_) => 1,
            Primary::SystemTfCall(_) => 2,
            Primary::FunctionCall(_) => 3,
            Primary::Hierarchical(_) => 4,
            Primary::Parenthesized(_) => 5,
        };
        assert_eq!(got, which);
    }
    let (end, e) = parse_expression(b"f(g(x)) + $bits(y) * \"s\"", 8).unwrap();
    assert_eq!(end, 24);
    assert!(matches!(e, Expression::Binary(_)));
}
