use sv_parser::context::Parser;
use sv_parser::dialect::system_verilog;
use sv_parser::failure::Failure;
use sv_parser::failure::FailureKind;
use sv_parser::parser::behavioral_statements::clocking_block::clocking_declaration;
use sv_parser::parser::behavioral_statements::clocking_block::clocking_direction;
use sv_parser::parser::behavioral_statements::clocking_block::clocking_drive;
use sv_parser::parser::behavioral_statements::clocking_block::clocking_event;
use sv_parser::parser::behavioral_statements::clocking_block::clocking_item;
use sv_parser::parser::behavioral_statements::clocking_block::clocking_skew;
use sv_parser::parser::behavioral_statements::clocking_block::cycle_delay;
use sv_parser::parser::behavioral_statements::clocking_block::default_skew;
use sv_parser::parser::behavioral_statements::clocking_block::list_of_clocking_decl_assign;
use sv_parser::parser::behavioral_statements::clocking_block::ClockingDeclaration;
use sv_parser::parser::behavioral_statements::clocking_block::ClockingDirection;
use sv_parser::parser::behavioral_statements::clocking_block::ClockingEvent;
use sv_parser::parser::behavioral_statements::clocking_block::ClockingItem;
use sv_parser::parser::behavioral_statements::clocking_block::ClockingSkew;
use sv_parser::parser::behavioral_statements::clocking_block::CycleDelay;
use sv_parser::parser::behavioral_statements::clocking_block::DefaultSkew;
use sv_parser::parser::behavioral_statements::timing_control_statements::delay_control;
use sv_parser::parser::behavioral_statements::timing_control_statements::event_expression;
use sv_parser::parser::behavioral_statements::timing_control_statements::DelayControl;

#[test]
fn local_clocking_block() {
    let src = b"default clocking cb @(posedge clk);\n  default input #1 output negedge;\n  input a, b = top.b;\n  output posedge #2 c;\n  let w = a + b;\nendclocking : cb";
    let dialect = system_verilog();
    let mut ctx = Parser::new(src, &dialect);
    let (end, d) = clocking_declaration(&mut ctx, 0, 32).unwrap();
    assert_eq!(end, src.len());
    match d {
        ClockingDeclaration::Local(l) => {
            assert!(l.nodes.0.is_some());
            assert!(l.nodes.2.is_some());
            assert!(matches!(l.nodes.3, ClockingEvent::Expression(_)));
            assert_eq!(l.nodes.5.len(), 4);
            assert!(matches!(l.nodes.5[0], ClockingItem::Default(_)));
            assert!(matches!(l.nodes.5[1], ClockingItem::Direction(_)));
            assert!(matches!(l.nodes.5[2], ClockingItem::Direction(_)));
            assert!(matches!(l.nodes.5[3], ClockingItem::Assertion(_)));
            assert!(l.nodes.7.is_some());
        }
        _ => panic!("not a local clocking block"),
    }
}

#[test]
fn global_clocking() {
    let src = b"global clocking @clk; endclocking";
    let dialect = system_verilog();
    let mut ctx = Parser::new(src, &dialect);
    let (end, d) = clocking_declaration(&mut ctx, 0, 32).unwrap();
    assert_eq!(end, src.len());
    match d {
        ClockingDeclaration::Global(g) => {
            assert!(g.nodes.2.is_none());
            assert!(matches!(g.nodes.3, ClockingEvent::Identifier(_)));
            assert!(g.nodes.6.is_none());
        }
        _ => panic!("not the global clocking"),
    }
}

#[test]
fn clocking_failures_are_committed_after_the_word() {
    let dialect = system_verilog();
    let src = b"clocking cb clk;";
    let mut ctx = Parser::new(src, &dialect);
    assert_eq!(
        clocking_declaration(&mut ctx, 0, 32).unwrap_err(),
        Failure { kind: FailureKind::Symbol("@"), offset: 12, committed: true }
    );
    let src = b"clocking cb @clk; input a";
    let mut ctx = Parser::new(src, &dialect);
    let f = clocking_declaration(&mut ctx, 0, 32).unwrap_err();
    assert_eq!(f, Failure { kind: FailureKind::Symbol(";"), offset: 25, committed: true });
    let src = b"module m;";
    let mut ctx = Parser::new(src, &dialect);
    let f = clocking_declaration(&mut ctx, 0, 32).unwrap_err();
    assert!(!f.committed);
    assert_eq!(f.offset, 0);
}

#[test]
fn default_word() {
    let dialect = system_verilog();
    let src = b"default x";
    let mut ctx = Parser::new(src, &dialect);
    let (end, d) =
        sv_parser::parser::behavioral_statements::clocking_block::default(&mut ctx, 0).unwrap();
    assert_eq!(end, 8);
    assert_eq!(d.nodes.0.nodes.0.len, 7);
}

#[test]
fn default_skew_forms() {
    let dialect = system_verilog();
    let cases: [(&[u8], usize); 3] =
        [(b"input #1", 0), (b"output posedge #2", 1), (b"input #1 output #(a)", 2)];
    for (src, which) in cases {
        let mut ctx = Parser::new(src, &dialect);
        let (end, s) = default_skew(&mut ctx, 0, 32).unwrap();
        assert_eq!(end, src.len());
        let got = match s {
            DefaultSkew::Input(_) => 0,
            DefaultSkew::Output(_) => 1,
            DefaultSkew::InputOutput(_) => 2,
        };
        assert_eq!(got, which);
    }
}

#[test]
fn clocking_direction_forms() {
    let dialect = system_verilog();
    let cases: [(&[u8], usize); 5] = [
        (b"input", 0),
        (b"output #3", 1),
        (b"input negedge output", 2),
        (b"inout", 3),
        (b"input #1 output #2", 2),
    ];
    for (src, which) in cases {
        let mut ctx = Parser::new(src, &dialect);
        let (end, s) = clocking_direction(&mut ctx, 0, 32).unwrap();
        assert_eq!(end, src.len());
        let got = match s {
            ClockingDirection::Input(_) => 0,
            ClockingDirection::Output(_) => 1,
            ClockingDirection::InputOutput(_) => 2,
            ClockingDirection::Inout(_) => 3,
        };
        assert_eq!(got, which);
    }
}

#[test]
fn clocking_skew_and_delay_control() {
    let dialect = system_verilog();
    let src = b"edge #5";
    let mut ctx = Parser::new(src, &dialect);
    assert!(matches!(clocking_skew(&mut ctx, 0, 32).unwrap().1, ClockingSkew::Edge(_)));
    let src = b"#d";
    let mut ctx = Parser::new(src, &dialect);
    assert!(matches!(clocking_skew(&mut ctx, 0, 32).unwrap().1, ClockingSkew::DelayControl(_)));
    let mut ctx = Parser::new(src, &dialect);
    assert!(matches!(delay_control(&mut ctx, 0, 32).unwrap().1, DelayControl::Delay(_)));
    let src = b"#(a + 1)";
    let mut ctx = Parser::new(src, &dialect);
    assert!(matches!(delay_control(&mut ctx, 0, 32).unwrap().1, DelayControl::Mintypmax(_)));
}

#[test]
fn cycle_delay_forms() {
    let dialect = system_verilog();
    let cases: [(&[u8], usize); 3] = [(b"##3", 0), (b"##n", 1), (b"##(n + 1)", 2)];
    for (src, which) in cases {
        let mut ctx = Parser::new(src, &dialect);
        let (end, s) = cycle_delay(&mut ctx, 0, 32).unwrap();
        assert_eq!(end, src.len());
        let got = match s {
            CycleDelay::Integral(_) => 0,
            CycleDelay::Identifier(_) => 1,
            CycleDelay::Expression(_) => 2,
        };
        assert_eq!(got, which);
    }
    let src = b"#3";
    let mut ctx = Parser::new(src, &dialect);
    assert_eq!(
        cycle_delay(&mut ctx, 0, 32).unwrap_err(),
        Failure { kind: FailureKind::Symbol("##"), offset: 0, committed: false }
    );
}

#[test]
fn clocking_drive_and_events() {
    let dialect = system_verilog();
    let src = b"cb.data[0] <= ##1 x & y";
    let mut ctx = Parser::new(src, &dialect);
    let (end, d) = clocking_drive(&mut ctx, 0, 32).unwrap();
    assert_eq!(end, src.len());
    assert!(d.nodes.2.is_some());
    assert_eq!(d.nodes.0.nodes.1.nodes.0.len(), 1);
    let src = b"@(posedge clk iff en or negedge rst)";
    let mut ctx = Parser::new(src, &dialect);
    let (end, e) = clocking_event(&mut ctx, 0, 32).unwrap();
    assert_eq!(end, src.len());
    assert!(matches!(e, ClockingEvent::Expression(_)));
    let src = b"a or b or edge c";
    let mut ctx = Parser::new(src, &dialect);
    let (end, e) = event_expression(&mut ctx, 0, 32).unwrap();
    assert_eq!(end, src.len());
    assert_eq!(e.nodes.0.nodes.1.len(), 2);
    assert!(e.nodes.0.nodes.1[1].1.nodes.0.is_some());
}

#[test]
fn clocking_items_and_signals() {
    let dialect = system_verilog();
    let src = b"default input #1;";
    let mut ctx = Parser::new(src, &dialect);
    assert!(matches!(clocking_item(&mut ctx, 0, 32).unwrap().1, ClockingItem::Default(_)));
    let src = b"default #1;";
    let mut ctx = Parser::new(src, &dialect);
    assert_eq!(
        clocking_item(&mut ctx, 0, 32).unwrap_err(),
        Failure { kind: FailureKind::Keyword("input"), offset: 8, committed: true }
    );
    let src = b"a = 1, b, c = x.y";
    let mut ctx = Parser::new(src, &dialect);
    let (end, l) = list_of_clocking_decl_assign(&mut ctx, 0, 32).unwrap();
    assert_eq!(end, src.len());
    assert_eq!(l.nodes.0.nodes.1.len(), 2);
    assert!(l.nodes.0.nodes.0.nodes.1.is_some());
    assert!(l.nodes.0.nodes.1[0].1.nodes.1.is_none());
}
