use sv_parser::context::Parser;
use sv_parser::dialect::system_verilog;
use sv_parser::failure::Failure;
use sv_parser::failure::FailureKind;
use sv_parser::parser::specify_section::system_timing_check_commands::hold_timing_check;
use sv_parser::parser::specify_section::system_timing_check_commands::setup_timing_check;
use sv_parser::parser::specify_section::system_timing_check_commands::setuphold_timing_check;
use sv_parser::parser::specify_section::system_timing_check_commands::system_timing_check;
use sv_parser::parser::specify_section::system_timing_check_commands::timeskew_timing_check;
use sv_parser::parser::specify_section::system_timing_check_commands::width_timing_check;
use sv_parser::parser::specify_section::system_timing_check_commands::SystemTimingCheck;
use sv_parser::unit::parse_system_timing_check;

fn which(c: &SystemTimingCheck) -> usize {
    match c {
        SystemTimingCheck::SetupTimingCheck(_) => 0,
        SystemTimingCheck::HoldTimingCheck(_) => 1,
        SystemTimingCheck::SetupholdTimingCheck(_) => 2,
        SystemTimingCheck::RecoveryTimingCheck(_) => 3,
        SystemTimingCheck::RemovalTimingCheck(_) => 4,
        SystemTimingCheck::RecremTimingCheck(_) => 5,
        SystemTimingCheck::SkewTimingCheck(_) => 6,
        SystemTimingCheck::TimeskewTimingCheck(_) => 7,
        SystemTimingCheck::FullskewTimingCheck(_) => 8,
        SystemTimingCheck::PeriodTimingCheck(_) => 9,
        SystemTimingCheck::WidthTimingCheck(_) => 10,
        SystemTimingCheck::NochargeTimingCheck(_) => 11,
    }
}

#[test]
fn every_timing_check_by_its_word() {
    let dialect = system_verilog();
    let cases: [&[u8]; 12] = [
        b"$setup(posedge d, posedge clk, 3);",
        b"$hold(posedge clk, d, 2, ntfr);",
        b"$setuphold(posedge clk, d, 3, 2);",
        b"$recovery(posedge rst, posedge clk, 4);",
        b"$removal(posedge rst, posedge clk, 4, );",
        b"$recrem(posedge rst, posedge clk, 4, 5, n);",
        b"$skew(posedge a, posedge b, 1);",
        b"$timeskew(posedge a, posedge b, 1, n, 1, 0);",
        b"$fullskew(posedge a, posedge b, 1, 2);",
        b"$period(posedge clk, 10);",
        b"$width(negedge clk, 5, 1, n);",
        b"$nocharge(posedge a, b, 1, 2);",
    ];
    for (i, src) in cases.iter().enumerate() {
        let mut ctx = Parser::new(src, &dialect);
        let (end, c) = system_timing_check(&mut ctx, 0, 32).unwrap();
        assert_eq!(end, src.len());
        assert_eq!(which(&c), i);
    }
}

#[test]
fn hold_begins_with_its_own_word() {
    let dialect = system_verilog();
    let src = b"$hold(posedge clk, d, 2);";
    let mut ctx = Parser::new(src, &dialect);
    assert!(hold_timing_check(&mut ctx, 0, 32).is_ok());
    let mut ctx = Parser::new(src, &dialect);
    assert_eq!(
        setup_timing_check(&mut ctx, 0, 32).unwrap_err(),
        Failure { kind: FailureKind::Keyword("$setup"), offset: 0, committed: false }
    );
    let src = b"$setup(d, clk, 2);";
    let mut ctx = Parser::new(src, &dialect);
    assert_eq!(
        hold_timing_check(&mut ctx, 0, 32).unwrap_err(),
        Failure { kind: FailureKind::Keyword("$hold"), offset: 0, committed: false }
    );
}

#[test]
fn setup_is_not_the_beginning_of_setuphold() {
    let dialect = system_verilog();
    let src = b"$setuphold(posedge clk, d, 3, 2);";
    let mut ctx = Parser::new(src, &dialect);
    assert!(setup_timing_check(&mut ctx, 0, 32).is_err());
    let mut ctx = Parser::new(src, &dialect);
    assert!(setuphold_timing_check(&mut ctx, 0, 32).is_ok());
}

#[test]
fn truncated_setup_fails_where_the_input_ends() {
    let src = b"$setup(posedge clk, posedge d";
    let dialect = system_verilog();
    let mut ctx = Parser::new(src, &dialect);
    let f = system_timing_check(&mut ctx, 0, 32).unwrap_err();
    assert_eq!(f, Failure { kind: FailureKind::Symbol(","), offset: 29, committed: true });
    assert!(f.offset >= 28);
    let d = parse_system_timing_check(src, 7, &dialect, 32).unwrap_err();
    assert_eq!(d.file, 7);
    assert_eq!(d.rule, "system_timing_check");
    assert_eq!(d.offset, 29);
    assert_eq!(d.position.line, 0);
    assert_eq!(d.position.column, 29);
    assert_eq!(d.kind, FailureKind::Symbol(","));
    assert!(d.committed);
}

#[test]
fn later_arguments_need_the_commas_of_earlier_ones() {
    let dialect = system_verilog();
    let src = b"$setuphold(posedge clk, d, 3, 2, , , c2, dclk, dd[1]);";
    let mut ctx = Parser::new(src, &dialect);
    let (end, c) = setuphold_timing_check(&mut ctx, 0, 32).unwrap();
    assert_eq!(end, src.len());
    let args = &c.nodes.1.nodes.1;
    let notifier = args.7.as_ref().unwrap();
    assert!(notifier.1.is_none());
    let stamp = notifier.2.as_ref().unwrap();
    assert!(stamp.1.is_none());
    let check = stamp.2.as_ref().unwrap();
    assert!(check.1.is_some());
    let reference = check.2.as_ref().unwrap();
    assert!(reference.1.is_some());
    let data = reference.2.as_ref().unwrap();
    assert!(data.1.as_ref().unwrap().nodes.1.is_some());
    let src = b"$setuphold(posedge clk, d, 3, 2, n, c1);";
    let mut ctx = Parser::new(src, &dialect);
    let (_, c) = setuphold_timing_check(&mut ctx, 0, 32).unwrap();
    let notifier = c.nodes.1.nodes.1.7.as_ref().unwrap();
    assert!(notifier.1.is_some());
    let stamp = notifier.2.as_ref().unwrap();
    assert!(stamp.1.is_some());
    assert!(stamp.2.is_none());
}

#[test]
fn timing_check_events_with_conditions() {
    let dialect = system_verilog();
    let src = b"$timeskew(posedge a &&& en, negedge b[2] &&& (x == 1), 1, , 1);";
    let mut ctx = Parser::new(src, &dialect);
    let (end, c) = timeskew_timing_check(&mut ctx, 0, 32).unwrap();
    assert_eq!(end, src.len());
    let args = &c.nodes.1.nodes.1;
    assert!(args.0.nodes.0.is_some());
    assert!(args.0.nodes.2.is_some());
    assert!(args.2.nodes.1.nodes.1.is_some());
    let notifier = args.5.as_ref().unwrap();
    assert!(notifier.1.is_none());
    let flag = notifier.2.as_ref().unwrap();
    assert!(flag.1.is_some());
    assert!(flag.2.is_none());
}

#[test]
fn width_check_needs_an_edge() {
    let dialect = system_verilog();
    let src = b"$width(clk, 5, 1);";
    let mut ctx = Parser::new(src, &dialect);
    assert_eq!(
        width_timing_check(&mut ctx, 0, 32).unwrap_err(),
        Failure { kind: FailureKind::Keyword("posedge"), offset: 7, committed: true }
    );
}

#[test]
fn unknown_word_is_no_timing_check() {
    let dialect = system_verilog();
    let src = b"$display(1);";
    let mut ctx = Parser::new(src, &dialect);
    let f = system_timing_check(&mut ctx, 0, 32).unwrap_err();
    assert_eq!(f, Failure { kind: FailureKind::Keyword("$setup"), offset: 0, committed: false });
}

#[test]
fn timing_check_as_a_unit() {
    let dialect = system_verilog();
    let src = b"  \n $period(posedge clk, 10, n);\n";
    let c = parse_system_timing_check(src, 0, &dialect, 32).unwrap();
    assert_eq!(which(&c), 9);
    let src = b"$period(posedge clk, 10); x";
    let d = parse_system_timing_check(src, 3, &dialect, 32).unwrap_err();
    assert_eq!(d.kind, FailureKind::EndOfInput);
    assert_eq!(d.offset, 26);
    assert!(!d.committed);
}
