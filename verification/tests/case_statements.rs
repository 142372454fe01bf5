use sv_parser::context::Parser;
use sv_parser::dialect::system_verilog;
use sv_parser::failure::FailureKind;
use sv_parser::failure::Failure;
use sv_parser::parser::behavioral_statements::case_statements::case_keyword;
use sv_parser::parser::behavioral_statements::case_statements::case_statement;
use sv_parser::parser::behavioral_statements::case_statements::randcase_statement;
use sv_parser::parser::behavioral_statements::case_statements::CaseInsideItem;
use sv_parser::parser::behavioral_statements::case_statements::CasePatternItem;
use sv_parser::parser::behavioral_statements::case_statements::CaseItem;
use sv_parser::parser::behavioral_statements::case_statements::CaseKeyword;
use sv_parser::parser::behavioral_statements::case_statements::CaseStatement;

#[test]
fn casex_is_not_case_followed_by_x() {
    let src = b"casex (sel) 1: a=1; endcase";
    let dialect = system_verilog();
    let mut ctx = Parser::new(src, &dialect);
    let (end, node) = case_statement(&mut ctx, 0, 32).unwrap();
    assert_eq!(end, src.len());
    match node {
        CaseStatement::Normal(n) => {
            assert!(matches!(n.nodes.1, CaseKeyword::Casex(_)));
            assert!(matches!(n.nodes.3, CaseItem::NonDefault(_)));
            assert_eq!(n.nodes.4.len(), 0);
        }
        _ => panic!("not the plain form"),
    }
}

#[test]
fn case_without_items_fails() {
    let src = b"case (sel) endcase";
    let dialect = system_verilog();
    let mut ctx = Parser::new(src, &dialect);
    let failure = case_statement(&mut ctx, 0, 32).unwrap_err();
    assert_eq!(failure.kind, FailureKind::MissingItem);
    assert_eq!(failure.offset, 11);
    assert!(failure.committed);
}

#[test]
fn case_with_default_only_succeeds() {
    let src = b"case (sel) default: a=0; endcase";
    let dialect = system_verilog();
    let mut ctx = Parser::new(src, &dialect);
    let (end, node) = case_statement(&mut ctx, 0, 32).unwrap();
    assert_eq!(end, src.len());
    match node {
        CaseStatement::Normal(n) => {
            assert!(matches!(n.nodes.1, CaseKeyword::Case(_)));
            assert!(matches!(n.nodes.3, CaseItem::Default(_)));
            assert_eq!(n.nodes.4.len(), 0);
        }
        _ => panic!("not the plain form"),
    }
}

#[test]
fn case_items_in_source_order() {
    let src = b"unique casez (a) 1, 2: x = 1; 3: ; default y = 2; endcase ";
    let dialect = system_verilog();
    let mut ctx = Parser::new(src, &dialect);
    let (end, node) = case_statement(&mut ctx, 0, 32).unwrap();
    assert_eq!(end, src.len());
    match node {
        CaseStatement::Normal(n) => {
            assert!(n.nodes.0.is_some());
            assert!(matches!(n.nodes.1, CaseKeyword::Casez(_)));
            match &n.nodes.3 {
                CaseItem::NonDefault(item) => {
                    assert_eq!(item.nodes.0.nodes.1.len(), 1);
                    assert_eq!(item.nodes.1.nodes.0.offset, 21);
                }
                _ => panic!("first item is not a plain item"),
            }
            assert_eq!(n.nodes.4.len(), 2);
            assert!(matches!(n.nodes.4[0], CaseItem::NonDefault(_)));
            match &n.nodes.4[1] {
                CaseItem::Default(item) => assert!(item.nodes.1.is_none()),
                _ => panic!("last item is not the default"),
            }
            assert_eq!(n.nodes.5.nodes.0.offset, 50);
        }
        _ => panic!("not the plain form"),
    }
}

#[test]
fn case_matches_form() {
    let src = b"case (v) matches .x &&& x: a = x; '{.*, 1}: ; default: ; endcase";
    let dialect = system_verilog();
    let mut ctx = Parser::new(src, &dialect);
    let (end, node) = case_statement(&mut ctx, 0, 32).unwrap();
    assert_eq!(end, src.len());
    match node {
        CaseStatement::Matches(n) => {
            match &n.nodes.4 {
                CasePatternItem::NonDefault(item) => {
                    assert!(item.nodes.1.is_some());
                }
                _ => panic!("first item is not a pattern item"),
            }
            assert_eq!(n.nodes.5.len(), 2);
        }
        _ => panic!("not the matches form"),
    }
}

#[test]
fn case_inside_form() {
    let src = b"case (v) inside [1:3], 5: a = 1; default: a = 0; endcase";
    let dialect = system_verilog();
    let mut ctx = Parser::new(src, &dialect);
    let (end, node) = case_statement(&mut ctx, 0, 32).unwrap();
    assert_eq!(end, src.len());
    match node {
        CaseStatement::Inside(n) => {
            match &n.nodes.4 {
                CaseInsideItem::NonDefault(item) => {
                    assert_eq!(item.nodes.0.nodes.0.nodes.1.len(), 1);
                }
                _ => panic!("first item is not a range item"),
            }
            assert_eq!(n.nodes.5.len(), 1);
        }
        _ => panic!("not the inside form"),
    }
}

#[test]
fn casex_has_no_inside_form() {
    let src = b"casex (v) inside 1: ; endcase";
    let dialect = system_verilog();
    let mut ctx = Parser::new(src, &dialect);
    let f = case_statement(&mut ctx, 0, 32).unwrap_err();
    assert_eq!(f.offset, 10);
    assert!(!f.committed);
}

#[test]
fn matches_and_inside_forms_without_items_fail() {
    let dialect = system_verilog();
    let src = b"case (v) matches endcase";
    let mut ctx = Parser::new(src, &dialect);
    let f = case_statement(&mut ctx, 0, 32).unwrap_err();
    assert_eq!(f, Failure { kind: FailureKind::MissingItem, offset: 17, committed: true });
    let src = b"case (v) inside endcase";
    let mut ctx = Parser::new(src, &dialect);
    let f = case_statement(&mut ctx, 0, 32).unwrap_err();
    assert_eq!(f, Failure { kind: FailureKind::MissingItem, offset: 16, committed: true });
}

#[test]
fn missing_endcase_is_a_committed_failure() {
    let src = b"case (sel) 1: a = 1; 2: b = 2; ";
    let dialect = system_verilog();
    let mut ctx = Parser::new(src, &dialect);
    let f = case_statement(&mut ctx, 0, 32).unwrap_err();
    assert_eq!(f, Failure { kind: FailureKind::Keyword("endcase"), offset: 31, committed: true });
}

#[test]
fn failure_inside_an_item_is_committed() {
    let src = b"case (sel) 1: a = ; endcase";
    let dialect = system_verilog();
    let mut ctx = Parser::new(src, &dialect);
    let f = case_statement(&mut ctx, 0, 32).unwrap_err();
    assert!(f.committed);
    assert!(f.offset >= 14);
}

#[test]
fn nested_case_statements_use_depth() {
    let src = b"case (a) 1: case (b) 2: x = 1; endcase endcase";
    let dialect = system_verilog();
    let mut ctx = Parser::new(src, &dialect);
    assert_eq!(case_statement(&mut ctx, 0, 32).unwrap().0, src.len());
    let mut ctx = Parser::new(src, &dialect);
    let f = case_statement(&mut ctx, 0, 1).unwrap_err();
    assert_eq!(f.kind, FailureKind::TooDeep);
    assert!(f.committed);
}

#[test]
fn randcase_statement_items() {
    let dialect = system_verilog();
    let src = b"randcase 1: a = 1; 3: a = 2; endcase";
    let mut ctx = Parser::new(src, &dialect);
    let (end, n) = randcase_statement(&mut ctx, 0, 32).unwrap();
    assert_eq!(end, src.len());
    assert_eq!(n.nodes.2.len(), 1);
    let src = b"randcase endcase";
    let mut ctx = Parser::new(src, &dialect);
    let f = randcase_statement(&mut ctx, 0, 32).unwrap_err();
    assert_eq!(f, Failure { kind: FailureKind::MissingItem, offset: 9, committed: true });
    let src = b"randcase 1 a = 1; endcase";
    let mut ctx = Parser::new(src, &dialect);
    let f = randcase_statement(&mut ctx, 0, 32).unwrap_err();
    assert_eq!(f, Failure { kind: FailureKind::Symbol(":"), offset: 11, committed: true });
}

#[test]
fn case_keyword_variants() {
    let dialect = system_verilog();
    for (text, which) in [(&b"case "[..], 0), (b"casez", 1), (b"casex(", 2)] {
        let mut ctx = Parser::new(text, &dialect);
        let (_, k) = case_keyword(&mut ctx, 0).unwrap();
        let got = match k {
            CaseKeyword::Case(_) => 0,
            CaseKeyword::Casez(_) => 1,
            CaseKeyword::Casex(_) => 2,
        };
        assert_eq!(got, which);
    }
    let src = b"cases";
    let mut ctx = Parser::new(src, &dialect);
    let f = case_keyword(&mut ctx, 0).unwrap_err();
    assert_eq!(f, Failure { kind: FailureKind::Keyword("casez"), offset: 0, committed: false });
}
