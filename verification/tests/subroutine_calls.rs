use sv_parser::context::Parser;
use sv_parser::dialect::system_verilog;
use sv_parser::failure::Failure;
use sv_parser::failure::FailureKind;
use sv_parser::parser::behavioral_statements::subroutine_call_statements::subroutine_call_statement;
use sv_parser::parser::behavioral_statements::subroutine_call_statements::subroutine_call_statement_function;
use sv_parser::parser::behavioral_statements::subroutine_call_statements::SubroutineCallStatement;
use sv_parser::parser::expressions::subroutine_calls::subroutine_call;
use sv_parser::parser::expressions::subroutine_calls::SubroutineCall;

#[test]
fn call_statement_forms() {
    let dialect = system_verilog();
    let src = b"top.run(1, a + b);";
    let mut ctx = Parser::new(src, &dialect);
    let (end, s) = subroutine_call_statement(&mut ctx, 0, 32).unwrap();
    assert_eq!(end, src.len());
    match s {
        SubroutineCallStatement::SubroutineCall(c) => match &c.0 {
            SubroutineCall::TfCall(t) => {
                assert_eq!(t.nodes.0.nodes.1.len(), 1);
                let args = t.nodes.1.as_ref().unwrap().nodes.1.as_ref().unwrap();
                assert_eq!(args.nodes.0.nodes.1.len(), 1);
            }
            _ => panic!("not a call of a task or function"),
        },
        _ => panic!("not a plain call"),
    }
    let src = b"void ' ( $random ( ) ) ;";
    let mut ctx = Parser::new(src, &dialect);
    let (end, s) = subroutine_call_statement(&mut ctx, 0, 32).unwrap();
    assert_eq!(end, src.len());
    match s {
        SubroutineCallStatement::Function(f) => {
            assert!(matches!(f.nodes.2.nodes.1.nodes.0, SubroutineCall::SystemTfCall(_)));
        }
        _ => panic!("not a cast to void"),
    }
}

#[test]
fn void_commits() {
    let dialect = system_verilog();
    let src = b"void(f());";
    let mut ctx = Parser::new(src, &dialect);
    assert_eq!(
        subroutine_call_statement_function(&mut ctx, 0, 32).unwrap_err(),
        Failure { kind: FailureKind::Symbol("'"), offset: 4, committed: true }
    );
    let mut ctx = Parser::new(src, &dialect);
    assert_eq!(
        subroutine_call_statement(&mut ctx, 0, 32).unwrap_err(),
        Failure { kind: FailureKind::Symbol("'"), offset: 4, committed: true }
    );
}

#[test]
fn calls_with_and_without_arguments() {
    let dialect = system_verilog();
    let cases: [(&[u8], usize, bool); 4] =
        [(b"f", 1, false), (b"f()", 3, true), (b"$finish", 7, false), (b"$display(a)", 11, true)];
    for (src, end, with) in cases {
        let mut ctx = Parser::new(src, &dialect);
        let (got, c) = subroutine_call(&mut ctx, 0, 32).unwrap();
        assert_eq!(got, end);
        let has = match c {
            SubroutineCall::TfCall(t) => t.nodes.1.is_some(),
            SubroutineCall::SystemTfCall(t) => t.nodes.1.is_some(),
        };
        assert_eq!(has, with);
    }
    let src = b"1";
    let mut ctx = Parser::new(src, &dialect);
    assert_eq!(
        subroutine_call(&mut ctx, 0, 32).unwrap_err(),
        Failure { kind: FailureKind::Identifier, offset: 0, committed: false }
    );
}
