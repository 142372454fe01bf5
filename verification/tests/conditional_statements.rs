use sv_parser::context::Parser;
use sv_parser::dialect::system_verilog;
use sv_parser::failure::Failure;
use sv_parser::failure::FailureKind;
use sv_parser::parser::behavioral_statements::conditional_statements::cond_pattern;
use sv_parser::parser::behavioral_statements::conditional_statements::cond_predicate;
use sv_parser::parser::behavioral_statements::conditional_statements::conditional_statement;
use sv_parser::parser::behavioral_statements::conditional_statements::expression_or_cond_pattern;
use sv_parser::parser::behavioral_statements::conditional_statements::unique_priority;
use sv_parser::parser::behavioral_statements::conditional_statements::ExpressionOrCondPattern;
use sv_parser::parser::behavioral_statements::conditional_statements::UniquePriority;
use sv_parser::parser::behavioral_statements::statements::statement_or_null;
use sv_parser::parser::behavioral_statements::statements::StatementItem;
use sv_parser::parser::behavioral_statements::statements::StatementOrNull;

#[test]
fn if_else_if_else_in_order() {
    let src = b"unique if (a) b=1; else if (c) d=2; else e=3;";
    let dialect = system_verilog();
    let mut ctx = Parser::new(src, &dialect);
    let (end, n) = conditional_statement(&mut ctx, 0, 32).unwrap();
    assert_eq!(end, src.len());
    assert!(matches!(n.nodes.0, Some(UniquePriority::Unique(_))));
    assert_eq!(n.nodes.1.nodes.0.offset, 7);
    assert_eq!(n.nodes.2.nodes.0.nodes.0.offset, 10);
    assert_eq!(n.nodes.4.len(), 1);
    assert_eq!(n.nodes.4[0].0.nodes.0.offset, 19);
    assert_eq!(n.nodes.4[0].1.nodes.0.offset, 24);
    let last = n.nodes.5.as_ref().unwrap();
    assert_eq!(last.0.nodes.0.offset, 36);
    assert!(n.nodes.4[0].0.nodes.0.offset < last.0.nodes.0.offset);
}

#[test]
fn if_without_else() {
    let src = b"if (a) ;";
    let dialect = system_verilog();
    let mut ctx = Parser::new(src, &dialect);
    let (end, n) = conditional_statement(&mut ctx, 0, 32).unwrap();
    assert_eq!(end, src.len());
    assert!(n.nodes.0.is_none());
    assert_eq!(n.nodes.4.len(), 0);
    assert!(n.nodes.5.is_none());
    assert!(matches!(n.nodes.3, StatementOrNull::Attribute(_)));
}

#[test]
fn several_else_if_branches() {
    let src = b"priority if (a) ; else if (b) ; else if (c) ; else if (d) ;";
    let dialect = system_verilog();
    let mut ctx = Parser::new(src, &dialect);
    let (end, n) = conditional_statement(&mut ctx, 0, 32).unwrap();
    assert_eq!(end, src.len());
    assert!(matches!(n.nodes.0, Some(UniquePriority::Priority(_))));
    assert_eq!(n.nodes.4.len(), 3);
    assert!(n.nodes.5.is_none());
}

#[test]
fn else_belongs_to_the_nearest_if() {
    let src = b"if (a) if (b) x = 1; else y = 2;";
    let dialect = system_verilog();
    let mut ctx = Parser::new(src, &dialect);
    let (end, n) = conditional_statement(&mut ctx, 0, 32).unwrap();
    assert_eq!(end, src.len());
    assert!(n.nodes.5.is_none());
    match &n.nodes.3 {
        StatementOrNull::Statement(s) => match &s.nodes.2 {
            StatementItem::ConditionalStatement(inner) => assert!(inner.nodes.5.is_some()),
            _ => panic!("not a conditional statement"),
        },
        _ => panic!("not a statement"),
    }
}

#[test]
fn failure_after_if_is_committed() {
    let dialect = system_verilog();
    let src = b"if a) b = 1;";
    let mut ctx = Parser::new(src, &dialect);
    assert_eq!(
        conditional_statement(&mut ctx, 0, 32).unwrap_err(),
        Failure { kind: FailureKind::Symbol("("), offset: 3, committed: true }
    );
    let src = b"if (a) b = 1; else if (c d = 2;";
    let mut ctx = Parser::new(src, &dialect);
    assert_eq!(
        conditional_statement(&mut ctx, 0, 32).unwrap_err(),
        Failure { kind: FailureKind::Symbol(")"), offset: 25, committed: true }
    );
    let src = b"x = 1;";
    let mut ctx = Parser::new(src, &dialect);
    assert_eq!(
        conditional_statement(&mut ctx, 0, 32).unwrap_err(),
        Failure { kind: FailureKind::Keyword("if"), offset: 0, committed: false }
    );
}

#[test]
fn unique_priority_longest_first() {
    let dialect = system_verilog();
    let src = b"unique0 if";
    let mut ctx = Parser::new(src, &dialect);
    let (end, u) = unique_priority(&mut ctx, 0).unwrap();
    assert_eq!(end, 8);
    assert!(matches!(u, UniquePriority::Unique0(_)));
    let src = b"unique if";
    let mut ctx = Parser::new(src, &dialect);
    assert!(matches!(unique_priority(&mut ctx, 0).unwrap().1, UniquePriority::Unique(_)));
    let src = b"uniq";
    let mut ctx = Parser::new(src, &dialect);
    assert!(unique_priority(&mut ctx, 0).is_err());
}

#[test]
fn predicate_is_a_list_of_clauses() {
    let dialect = system_verilog();
    let src = b"a, b matches .x, c + 1)";
    let mut ctx = Parser::new(src, &dialect);
    let (end, p) = cond_predicate(&mut ctx, 0, 32).unwrap();
    assert_eq!(end, 22);
    assert!(matches!(p.nodes.0.nodes.0, ExpressionOrCondPattern::Expression(_)));
    assert_eq!(p.nodes.0.nodes.1.len(), 2);
    assert!(matches!(p.nodes.0.nodes.1[0].1, ExpressionOrCondPattern::CondPattern(_)));
    assert!(matches!(p.nodes.0.nodes.1[1].1, ExpressionOrCondPattern::Expression(_)));
}

#[test]
fn clause_with_pattern_is_tried_first() {
    let dialect = system_verilog();
    let src = b"a matches '{.x, 1}";
    let mut ctx = Parser::new(src, &dialect);
    let (end, c) = expression_or_cond_pattern(&mut ctx, 0, 32).unwrap();
    assert_eq!(end, src.len());
    assert!(matches!(c, ExpressionOrCondPattern::CondPattern(_)));
    let mut ctx = Parser::new(src, &dialect);
    let (end, c) = cond_pattern(&mut ctx, 0, 32).unwrap();
    assert_eq!(end, src.len());
    assert_eq!(c.nodes.1.nodes.0.offset, 2);
    let src = b"a matches ;";
    let mut ctx = Parser::new(src, &dialect);
    let f = expression_or_cond_pattern(&mut ctx, 0, 32).unwrap_err();
    assert!(f.committed);
    assert_eq!(f.offset, 10);
}

#[test]
fn statements_of_every_kind() {
    let dialect = system_verilog();
    let cases: [(&[u8], usize); 9] = [
        (b"a = b + 1;", 0),
        (b"case (a) 1: ; endcase", 1),
        (b"if (a) ;", 2),
        (b"randcase 1: ; endcase", 3),
        (b"begin a = 1; b = 2; end", 4),
        (b"cb.sig <= ##2 data;", 5),
        (b"do_it(1, x);", 6),
        (b"$display;", 6),
        (b"void'(f(x));", 6),
    ];
    for (src, which) in cases {
        let mut ctx = Parser::new(src, &dialect);
        let (end, s) = statement_or_null(&mut ctx, 0, 32).unwrap();
        assert_eq!(end, src.len());
        match s {
            StatementOrNull::Statement(s) => {
                let got = match s.nodes.2 {
                    StatementItem::BlockingAssignment(_) => 0,
                    StatementItem::CaseStatement(_) => 1,
                    StatementItem::ConditionalStatement(_) => 2,
                    StatementItem::RandcaseStatement(_) => 3,
                    StatementItem::SeqBlock(_) => 4,
                    StatementItem::ClockingDrive(_) => 5,
                    StatementItem::SubroutineCallStatement(_) => 6,
                };
                assert_eq!(got, which);
            }
            _ => panic!("not a statement"),
        }
    }
}

#[test]
fn statement_with_label_and_attributes() {
    let dialect = system_verilog();
    let src = b"start: (* full, parallel = 1 *) a = 1;";
    let mut ctx = Parser::new(src, &dialect);
    let (end, s) = statement_or_null(&mut ctx, 0, 32).unwrap();
    assert_eq!(end, src.len());
    match s {
        StatementOrNull::Statement(s) => {
            assert!(s.nodes.0.is_some());
            assert_eq!(s.nodes.1.len(), 1);
            assert_eq!(s.nodes.1[0].nodes.1.nodes.1.len(), 1);
        }
        _ => panic!("not a statement"),
    }
    let src = b"(* keep *) ;";
    let mut ctx = Parser::new(src, &dialect);
    let (end, s) = statement_or_null(&mut ctx, 0, 32).unwrap();
    assert_eq!(end, src.len());
    assert!(matches!(s, StatementOrNull::Attribute(_)));
}

#[test]
fn block_without_end_is_a_committed_failure() {
    let dialect = system_verilog();
    let src = b"begin a = 1; ";
    let mut ctx = Parser::new(src, &dialect);
    assert_eq!(
        statement_or_null(&mut ctx, 0, 32).unwrap_err(),
        Failure { kind: FailureKind::Keyword("end"), offset: 13, committed: true }
    );
}

#[test]
fn failed_statement_reports_deepest_alternative() {
    let dialect = system_verilog();
    let src = b"a.b[1] + 2;";
    let mut ctx = Parser::new(src, &dialect);
    let f = statement_or_null(&mut ctx, 0, 32).unwrap_err();
    assert_eq!(f.offset, 7);
    assert!(!f.committed);
}
