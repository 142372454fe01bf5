use sv_parser::context::Parser;
use sv_parser::dialect::system_verilog;
use sv_parser::failure::Failure;
use sv_parser::failure::FailureKind;
use sv_parser::parser::expressions::expressions::ParamExpression;
use sv_parser::parser::instantiations::module_instantiation::hierarchical_instance;
use sv_parser::parser::instantiations::module_instantiation::list_of_parameter_assignments;
use sv_parser::parser::instantiations::module_instantiation::list_of_port_connections;
use sv_parser::parser::instantiations::module_instantiation::module_instantiation;
use sv_parser::parser::instantiations::module_instantiation::name_of_instance;
use sv_parser::parser::instantiations::module_instantiation::named_port_connection;
use sv_parser::parser::instantiations::module_instantiation::ordered_port_connection;
use sv_parser::parser::instantiations::module_instantiation::parameter_value_assignment;
use sv_parser::parser::instantiations::module_instantiation::ListOfParameterAssignments;
use sv_parser::parser::instantiations::module_instantiation::ListOfPortConnections;
use sv_parser::parser::instantiations::module_instantiation::NamedPortConnection;

#[test]
fn named_parameters_and_named_ports() {
    let src = b"mod #(.WIDTH(8)) u1 (.a(x), .b(y));";
    let dialect = system_verilog();
    let mut ctx = Parser::new(src, &dialect);
    let (end, m) = module_instantiation(&mut ctx, 0, 32).unwrap();
    assert_eq!(end, src.len());
    assert_eq!(m.nodes.0.nodes.0.len, 3);
    let params = m.nodes.1.as_ref().unwrap();
    match params.nodes.1.nodes.1.as_ref().unwrap() {
        ListOfParameterAssignments::Named(l) => {
            assert_eq!(l.nodes.0.nodes.1.len(), 0);
            assert_eq!(l.nodes.0.nodes.0.nodes.1.nodes.0.offset, 7);
        }
        _ => panic!("parameters are not named"),
    }
    assert_eq!(m.nodes.2.nodes.1.len(), 0);
    match m.nodes.2.nodes.0.nodes.1.nodes.1.as_ref().unwrap() {
        ListOfPortConnections::Named(l) => {
            assert_eq!(l.nodes.0.nodes.1.len(), 1);
            assert!(matches!(l.nodes.0.nodes.0, NamedPortConnection::Identifier(_)));
        }
        _ => panic!("ports are not named"),
    }
}

#[test]
fn mixing_named_and_ordered_ports_fails() {
    let dialect = system_verilog();
    for src in [&b"mod u1 (.a(x), y);"[..], b"mod u1 (x, .b(y));"] {
        let mut ctx = Parser::new(src, &dialect);
        assert!(module_instantiation(&mut ctx, 0, 32).is_err());
    }
    let src = b"mod u1 (.a(x), y);";
    let mut ctx = Parser::new(src, &dialect);
    let f = module_instantiation(&mut ctx, 0, 32).unwrap_err();
    assert_eq!(f, Failure { kind: FailureKind::Symbol(")"), offset: 13, committed: false });
}

#[test]
fn mixing_named_and_ordered_parameters_fails() {
    let dialect = system_verilog();
    for src in [&b"mod #(.W(8), 4) u1 ();"[..], b"mod #(8, .D(4)) u1 ();"] {
        let mut ctx = Parser::new(src, &dialect);
        assert!(module_instantiation(&mut ctx, 0, 32).is_err());
    }
}

#[test]
fn ordered_parameters_and_ordered_ports() {
    let src = b"fifo #(8, $) f0 (clk, , data[7]), f1 ();";
    let dialect = system_verilog();
    let mut ctx = Parser::new(src, &dialect);
    let (end, m) = module_instantiation(&mut ctx, 0, 32).unwrap();
    assert_eq!(end, src.len());
    match m.nodes.1.as_ref().unwrap().nodes.1.nodes.1.as_ref().unwrap() {
        ListOfParameterAssignments::Ordered(l) => {
            assert_eq!(l.nodes.0.nodes.1.len(), 1);
            assert!(matches!(l.nodes.0.nodes.1[0].1.nodes.0, ParamExpression::Dollar(_)));
        }
        _ => panic!("parameters are not ordered"),
    }
    assert_eq!(m.nodes.2.nodes.1.len(), 1);
    match m.nodes.2.nodes.0.nodes.1.nodes.1.as_ref().unwrap() {
        ListOfPortConnections::Ordered(l) => {
            assert_eq!(l.nodes.0.nodes.1.len(), 2);
            assert!(l.nodes.0.nodes.0.nodes.1.is_some());
            assert!(l.nodes.0.nodes.1[0].1.nodes.1.is_none());
            assert!(l.nodes.0.nodes.1[1].1.nodes.1.is_some());
        }
        _ => panic!("ports are not ordered"),
    }
    match m.nodes.2.nodes.1[0].1.nodes.1.nodes.1.as_ref().unwrap() {
        ListOfPortConnections::Ordered(l) => {
            assert_eq!(l.nodes.0.nodes.1.len(), 0);
            assert!(l.nodes.0.nodes.0.nodes.1.is_none());
        }
        _ => panic!("ports are not ordered"),
    }
}

#[test]
fn instantiation_without_parameters() {
    let src = b"inv u (.*);";
    let dialect = system_verilog();
    let mut ctx = Parser::new(src, &dialect);
    let (end, m) = module_instantiation(&mut ctx, 0, 32).unwrap();
    assert_eq!(end, src.len());
    assert!(m.nodes.1.is_none());
    match m.nodes.2.nodes.0.nodes.1.nodes.1.as_ref().unwrap() {
        ListOfPortConnections::Named(l) => {
            assert!(matches!(l.nodes.0.nodes.0, NamedPortConnection::Asterisk(_)));
        }
        _ => panic!("ports are not named"),
    }
}

#[test]
fn instantiation_needs_semicolon_and_instance() {
    let dialect = system_verilog();
    let src = b"mod u1 ()";
    let mut ctx = Parser::new(src, &dialect);
    assert_eq!(
        module_instantiation(&mut ctx, 0, 32).unwrap_err(),
        Failure { kind: FailureKind::Symbol(";"), offset: 9, committed: false }
    );
    let src = b"mod ;";
    let mut ctx = Parser::new(src, &dialect);
    assert_eq!(
        module_instantiation(&mut ctx, 0, 32).unwrap_err(),
        Failure { kind: FailureKind::Identifier, offset: 4, committed: false }
    );
    let src = b"module u1 ();";
    let mut ctx = Parser::new(src, &dialect);
    assert_eq!(
        module_instantiation(&mut ctx, 0, 32).unwrap_err(),
        Failure { kind: FailureKind::Identifier, offset: 0, committed: false }
    );
}

#[test]
fn parts_of_an_instantiation() {
    let dialect = system_verilog();
    let src = b"#()";
    let mut ctx = Parser::new(src, &dialect);
    let (end, p) = parameter_value_assignment(&mut ctx, 0, 32).unwrap();
    assert_eq!(end, 3);
    assert!(p.nodes.1.nodes.1.is_none());
    let src = b".A(), .B(1)";
    let mut ctx = Parser::new(src, &dialect);
    let (end, l) = list_of_parameter_assignments(&mut ctx, 0, 32).unwrap();
    assert_eq!(end, src.len());
    match l {
        ListOfParameterAssignments::Named(l) => {
            assert!(l.nodes.0.nodes.0.nodes.2.nodes.1.is_none());
            assert!(l.nodes.0.nodes.1[0].1.nodes.2.nodes.1.is_some());
        }
        _ => panic!("parameters are not named"),
    }
    let src = b"u [3:0][2] (";
    let mut ctx = Parser::new(src, &dialect);
    let (end, n) = name_of_instance(&mut ctx, 0, 32).unwrap();
    assert_eq!(end, 11);
    assert_eq!(n.nodes.1.len(), 2);
    let src = b"u (a, b)";
    let mut ctx = Parser::new(src, &dialect);
    let (end, _) = hierarchical_instance(&mut ctx, 0, 32).unwrap();
    assert_eq!(end, src.len());
}

#[test]
fn port_connections() {
    let dialect = system_verilog();
    let src = b"(* keep *) .clk(c), .rst, .en()";
    let mut ctx = Parser::new(src, &dialect);
    let (end, l) = list_of_port_connections(&mut ctx, 0, 32).unwrap();
    assert_eq!(end, src.len());
    match l {
        ListOfPortConnections::Named(l) => {
            match &l.nodes.0.nodes.0 {
                NamedPortConnection::Identifier(c) => {
                    assert_eq!(c.nodes.0.len(), 1);
                    assert!(c.nodes.3.as_ref().unwrap().nodes.1.is_some());
                }
                _ => panic!("not a named connection"),
            }
            match &l.nodes.0.nodes.1[0].1 {
                NamedPortConnection::Identifier(c) => assert!(c.nodes.3.is_none()),
                _ => panic!("not a named connection"),
            }
            match &l.nodes.0.nodes.1[1].1 {
                NamedPortConnection::Identifier(c) => {
                    assert!(c.nodes.3.as_ref().unwrap().nodes.1.is_none())
                }
                _ => panic!("not a named connection"),
            }
        }
        _ => panic!("ports are not named"),
    }
    let src = b")";
    let mut ctx = Parser::new(src, &dialect);
    let (end, c) = ordered_port_connection(&mut ctx, 0, 32).unwrap();
    assert_eq!(end, 0);
    assert_eq!(c.nodes.0.len(), 0);
    assert!(c.nodes.1.is_none());
    let mut ctx = Parser::new(src, &dialect);
    assert_eq!(
        named_port_connection(&mut ctx, 0, 32).unwrap_err(),
        Failure { kind: FailureKind::Symbol("."), offset: 0, committed: false }
    );
}
