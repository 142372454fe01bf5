use sv_parser::context::Parser;
use sv_parser::dialect::system_verilog;
use sv_parser::parser::behavioral_statements::case_statements::case_expression;
use sv_parser::parser::behavioral_statements::case_statements::case_inside_item;
use sv_parser::parser::behavioral_statements::case_statements::case_inside_item_nondefault;
use sv_parser::parser::behavioral_statements::case_statements::case_item;
use sv_parser::parser::behavioral_statements::case_statements::case_item_expression;
use sv_parser::parser::behavioral_statements::case_statements::case_item_nondefault;
use sv_parser::parser::behavioral_statements::case_statements::case_pattern_item;
use sv_parser::parser::behavioral_statements::case_statements::case_pattern_item_nondefault;
use sv_parser::parser::behavioral_statements::case_statements::case_statement_inside;
use sv_parser::parser::behavioral_statements::case_statements::case_statement_matches;
use sv_parser::parser::behavioral_statements::case_statements::case_statement_normal;
use sv_parser::parser::behavioral_statements::case_statements::open_range_list;
use sv_parser::parser::behavioral_statements::case_statements::open_value_range;
use sv_parser::parser::behavioral_statements::case_statements::randcase_item;
use sv_parser::parser::behavioral_statements::clocking_block::clocking_decl_assign;
use sv_parser::parser::behavioral_statements::clocking_block::clocking_declaration_global;
use sv_parser::parser::behavioral_statements::clocking_block::clocking_declaration_local;
use sv_parser::parser::behavioral_statements::clocking_block::clocking_direction_inout;
use sv_parser::parser::behavioral_statements::clocking_block::clocking_direction_input;
use sv_parser::parser::behavioral_statements::clocking_block::clocking_direction_input_output;
use sv_parser::parser::behavioral_statements::clocking_block::clocking_direction_output;
use sv_parser::parser::behavioral_statements::clocking_block::clocking_event_expression;
use sv_parser::parser::behavioral_statements::clocking_block::clocking_event_identifier;
use sv_parser::parser::behavioral_statements::clocking_block::clocking_item_assertion;
use sv_parser::parser::behavioral_statements::clocking_block::clocking_item_default;
use sv_parser::parser::behavioral_statements::clocking_block::clocking_item_direction;
use sv_parser::parser::behavioral_statements::clocking_block::clocking_skew_edge;
use sv_parser::parser::behavioral_statements::clocking_block::clockvar;
use sv_parser::parser::behavioral_statements::clocking_block::clockvar_expression;
use sv_parser::parser::behavioral_statements::clocking_block::cycle_delay_expression;
use sv_parser::parser::behavioral_statements::clocking_block::cycle_delay_identifier;
use sv_parser::parser::behavioral_statements::clocking_block::cycle_delay_integral;
use sv_parser::parser::behavioral_statements::clocking_block::default_skew_input;
use sv_parser::parser::behavioral_statements::clocking_block::default_skew_input_output;
use sv_parser::parser::behavioral_statements::clocking_block::default_skew_output;
use sv_parser::parser::instantiations::module_instantiation::list_of_parameter_assignments_named;
use sv_parser::parser::instantiations::module_instantiation::list_of_parameter_assignments_ordered;
use sv_parser::parser::instantiations::module_instantiation::list_of_port_connections_named;
use sv_parser::parser::instantiations::module_instantiation::list_of_port_connections_ordered;
use sv_parser::parser::instantiations::module_instantiation::named_parameter_assignment;
use sv_parser::parser::instantiations::module_instantiation::named_port_connection_asterisk;
use sv_parser::parser::instantiations::module_instantiation::named_port_connection_identifier;
use sv_parser::parser::instantiations::module_instantiation::ordered_parameter_assignment;
use sv_parser::parser::specify_section::system_timing_check_commands::fullskew_timing_check;
use sv_parser::parser::specify_section::system_timing_check_commands::nocharge_timing_check;
use sv_parser::parser::specify_section::system_timing_check_commands::period_timing_check;
use sv_parser::parser::specify_section::system_timing_check_commands::recovery_timing_check;
use sv_parser::parser::specify_section::system_timing_check_commands::recrem_timing_check;
use sv_parser::parser::specify_section::system_timing_check_commands::removal_timing_check;
use sv_parser::parser::specify_section::system_timing_check_commands::skew_timing_check;

#[test]
fn rule_case_statement_normal() {
    let dialect = system_verilog();
    let src = b"  case (a) 1: ; endcase ";
    let mut ctx = Parser::new(src, &dialect);
    let (end, node) = case_statement_normal(&mut ctx, 2, 32).unwrap();
    assert_eq!(end, src.len());
    let mut spans = Vec::new();
    node.leaf_spans(&mut spans);
    assert_eq!(spans.first().unwrap().offset, 2);
    let last = spans.last().unwrap();
    assert_eq!(last.offset + last.len, src.len());
    let src = b"?";
    let mut ctx = Parser::new(src, &dialect);
    let failure = case_statement_normal(&mut ctx, 0, 32).unwrap_err();
    assert_eq!(failure.offset, 0);
    assert!(!failure.committed);
}

#[test]
fn rule_case_statement_matches() {
    let dialect = system_verilog();
    let src = b"  case (a) matches .x: ; endcase ";
    let mut ctx = Parser::new(src, &dialect);
    let (end, node) = case_statement_matches(&mut ctx, 2, 32).unwrap();
    assert_eq!(end, src.len());
    let mut spans = Vec::new();
    node.leaf_spans(&mut spans);
    assert_eq!(spans.first().unwrap().offset, 2);
    let last = spans.last().unwrap();
    assert_eq!(last.offset + last.len, src.len());
    let src = b"?";
    let mut ctx = Parser::new(src, &dialect);
    let failure = case_statement_matches(&mut ctx, 0, 32).unwrap_err();
    assert_eq!(failure.offset, 0);
    assert!(!failure.committed);
}

#[test]
fn rule_case_statement_inside() {
    let dialect = system_verilog();
    let src = b"  case (a) inside 1: ; endcase ";
    let mut ctx = Parser::new(src, &dialect);
    let (end, node) = case_statement_inside(&mut ctx, 2, 32).unwrap();
    assert_eq!(end, src.len());
    let mut spans = Vec::new();
    node.leaf_spans(&mut spans);
    assert_eq!(spans.first().unwrap().offset, 2);
    let last = spans.last().unwrap();
    assert_eq!(last.offset + last.len, src.len());
    let src = b"?";
    let mut ctx = Parser::new(src, &dialect);
    let failure = case_statement_inside(&mut ctx, 0, 32).unwrap_err();
    assert_eq!(failure.offset, 0);
    assert!(!failure.committed);
}

#[test]
fn rule_case_expression() {
    let dialect = system_verilog();
    let src = b"  a + 1 ";
    let mut ctx = Parser::new(src, &dialect);
    let (end, node) = case_expression(&mut ctx, 2, 32).unwrap();
    assert_eq!(end, src.len());
    let mut spans = Vec::new();
    node.leaf_spans(&mut spans);
    assert_eq!(spans.first().unwrap().offset, 2);
    let last = spans.last().unwrap();
    assert_eq!(last.offset + last.len, src.len());
    let src = b"?";
    let mut ctx = Parser::new(src, &dialect);
    let failure = case_expression(&mut ctx, 0, 32).unwrap_err();
    assert_eq!(failure.offset, 0);
    assert!(!failure.committed);
}

#[test]
fn rule_case_item() {
    let dialect = system_verilog();
    let src = b"  1, 2: x = 1; ";
    let mut ctx = Parser::new(src, &dialect);
    let (end, node) = case_item(&mut ctx, 2, 32).unwrap();
    assert_eq!(end, src.len());
    let mut spans = Vec::new();
    node.leaf_spans(&mut spans);
    assert_eq!(spans.first().unwrap().offset, 2);
    let last = spans.last().unwrap();
    assert_eq!(last.offset + last.len, src.len());
    let src = b"?";
    let mut ctx = Parser::new(src, &dialect);
    let failure = case_item(&mut ctx, 0, 32).unwrap_err();
    assert_eq!(failure.offset, 0);
    assert!(!failure.committed);
}

#[test]
fn rule_case_item_nondefault() {
    let dialect = system_verilog();
    let src = b"  a: ; ";
    let mut ctx = Parser::new(src, &dialect);
    let (end, node) = case_item_nondefault(&mut ctx, 2, 32).unwrap();
    assert_eq!(end, src.len());
    let mut spans = Vec::new();
    node.leaf_spans(&mut spans);
    assert_eq!(spans.first().unwrap().offset, 2);
    let last = spans.last().unwrap();
    assert_eq!(last.offset + last.len, src.len());
    let src = b"?";
    let mut ctx = Parser::new(src, &dialect);
    let failure = case_item_nondefault(&mut ctx, 0, 32).unwrap_err();
    assert_eq!(failure.offset, 0);
    assert!(!failure.committed);
}

#[test]
fn rule_case_pattern_item() {
    let dialect = system_verilog();
    let src = b"  .x &&& y: ; ";
    let mut ctx = Parser::new(src, &dialect);
    let (end, node) = case_pattern_item(&mut ctx, 2, 32).unwrap();
    assert_eq!(end, src.len());
    let mut spans = Vec::new();
    node.leaf_spans(&mut spans);
    assert_eq!(spans.first().unwrap().offset, 2);
    let last = spans.last().unwrap();
    assert_eq!(last.offset + last.len, src.len());
    let src = b"?";
    let mut ctx = Parser::new(src, &dialect);
    let failure = case_pattern_item(&mut ctx, 0, 32).unwrap_err();
    assert_eq!(failure.offset, 0);
    assert!(!failure.committed);
}

#[test]
fn rule_case_pattern_item_nondefault() {
    let dialect = system_verilog();
    let src = b"  '{.a}: ; ";
    let mut ctx = Parser::new(src, &dialect);
    let (end, node) = case_pattern_item_nondefault(&mut ctx, 2, 32).unwrap();
    assert_eq!(end, src.len());
    let mut spans = Vec::new();
    node.leaf_spans(&mut spans);
    assert_eq!(spans.first().unwrap().offset, 2);
    let last = spans.last().unwrap();
    assert_eq!(last.offset + last.len, src.len());
    let src = b"?";
    let mut ctx = Parser::new(src, &dialect);
    let failure = case_pattern_item_nondefault(&mut ctx, 0, 32).unwrap_err();
    assert_eq!(failure.offset, 0);
    assert!(!failure.committed);
}

#[test]
fn rule_case_inside_item() {
    let dialect = system_verilog();
    let src = b"  [1:2], 3: ; ";
    let mut ctx = Parser::new(src, &dialect);
    let (end, node) = case_inside_item(&mut ctx, 2, 32).unwrap();
    assert_eq!(end, src.len());
    let mut spans = Vec::new();
    node.leaf_spans(&mut spans);
    assert_eq!(spans.first().unwrap().offset, 2);
    let last = spans.last().unwrap();
    assert_eq!(last.offset + last.len, src.len());
    let src = b"?";
    let mut ctx = Parser::new(src, &dialect);
    let failure = case_inside_item(&mut ctx, 0, 32).unwrap_err();
    assert_eq!(failure.offset, 0);
    assert!(!failure.committed);
}

#[test]
fn rule_case_inside_item_nondefault() {
    let dialect = system_verilog();
    let src = b"  4: ; ";
    let mut ctx = Parser::new(src, &dialect);
    let (end, node) = case_inside_item_nondefault(&mut ctx, 2, 32).unwrap();
    assert_eq!(end, src.len());
    let mut spans = Vec::new();
    node.leaf_spans(&mut spans);
    assert_eq!(spans.first().unwrap().offset, 2);
    let last = spans.last().unwrap();
    assert_eq!(last.offset + last.len, src.len());
    let src = b"?";
    let mut ctx = Parser::new(src, &dialect);
    let failure = case_inside_item_nondefault(&mut ctx, 0, 32).unwrap_err();
    assert_eq!(failure.offset, 0);
    assert!(!failure.committed);
}

#[test]
fn rule_case_item_expression() {
    let dialect = system_verilog();
    let src = b"  (a) ";
    let mut ctx = Parser::new(src, &dialect);
    let (end, node) = case_item_expression(&mut ctx, 2, 32).unwrap();
    assert_eq!(end, src.len());
    let mut spans = Vec::new();
    node.leaf_spans(&mut spans);
    assert_eq!(spans.first().unwrap().offset, 2);
    let last = spans.last().unwrap();
    assert_eq!(last.offset + last.len, src.len());
    let src = b"?";
    let mut ctx = Parser::new(src, &dialect);
    let failure = case_item_expression(&mut ctx, 0, 32).unwrap_err();
    assert_eq!(failure.offset, 0);
    assert!(!failure.committed);
}

#[test]
fn rule_randcase_item() {
    let dialect = system_verilog();
    let src = b"  3: x = 1; ";
    let mut ctx = Parser::new(src, &dialect);
    let (end, node) = randcase_item(&mut ctx, 2, 32).unwrap();
    assert_eq!(end, src.len());
    let mut spans = Vec::new();
    node.leaf_spans(&mut spans);
    assert_eq!(spans.first().unwrap().offset, 2);
    let last = spans.last().unwrap();
    assert_eq!(last.offset + last.len, src.len());
    let src = b"?";
    let mut ctx = Parser::new(src, &dialect);
    let failure = randcase_item(&mut ctx, 0, 32).unwrap_err();
    assert_eq!(failure.offset, 0);
    assert!(!failure.committed);
}

#[test]
fn rule_open_range_list() {
    let dialect = system_verilog();
    let src = b"  1, [2:3] ";
    let mut ctx = Parser::new(src, &dialect);
    let (end, node) = open_range_list(&mut ctx, 2, 32).unwrap();
    assert_eq!(end, src.len());
    let mut spans = Vec::new();
    node.leaf_spans(&mut spans);
    assert_eq!(spans.first().unwrap().offset, 2);
    let last = spans.last().unwrap();
    assert_eq!(last.offset + last.len, src.len());
    let src = b"?";
    let mut ctx = Parser::new(src, &dialect);
    let failure = open_range_list(&mut ctx, 0, 32).unwrap_err();
    assert_eq!(failure.offset, 0);
    assert!(!failure.committed);
}

#[test]
fn rule_open_value_range() {
    let dialect = system_verilog();
    let src = b"  [a:b] ";
    let mut ctx = Parser::new(src, &dialect);
    let (end, node) = open_value_range(&mut ctx, 2, 32).unwrap();
    assert_eq!(end, src.len());
    let mut spans = Vec::new();
    node.leaf_spans(&mut spans);
    assert_eq!(spans.first().unwrap().offset, 2);
    let last = spans.last().unwrap();
    assert_eq!(last.offset + last.len, src.len());
    let src = b"?";
    let mut ctx = Parser::new(src, &dialect);
    let failure = open_value_range(&mut ctx, 0, 32).unwrap_err();
    assert_eq!(failure.offset, 0);
    assert!(!failure.committed);
}

#[test]
fn rule_clocking_declaration_local() {
    let dialect = system_verilog();
    let src = b"  clocking @c; endclocking ";
    let mut ctx = Parser::new(src, &dialect);
    let (end, node) = clocking_declaration_local(&mut ctx, 2, 32).unwrap();
    assert_eq!(end, src.len());
    let mut spans = Vec::new();
    node.leaf_spans(&mut spans);
    assert_eq!(spans.first().unwrap().offset, 2);
    let last = spans.last().unwrap();
    assert_eq!(last.offset + last.len, src.len());
    let src = b"?";
    let mut ctx = Parser::new(src, &dialect);
    let failure = clocking_declaration_local(&mut ctx, 0, 32).unwrap_err();
    assert_eq!(failure.offset, 0);
    assert!(!failure.committed);
}

#[test]
fn rule_clocking_declaration_global() {
    let dialect = system_verilog();
    let src = b"  global clocking g @(c); endclocking : g ";
    let mut ctx = Parser::new(src, &dialect);
    let (end, node) = clocking_declaration_global(&mut ctx, 2, 32).unwrap();
    assert_eq!(end, src.len());
    let mut spans = Vec::new();
    node.leaf_spans(&mut spans);
    assert_eq!(spans.first().unwrap().offset, 2);
    let last = spans.last().unwrap();
    assert_eq!(last.offset + last.len, src.len());
    let src = b"?";
    let mut ctx = Parser::new(src, &dialect);
    let failure = clocking_declaration_global(&mut ctx, 0, 32).unwrap_err();
    assert_eq!(failure.offset, 0);
    assert!(!failure.committed);
}

#[test]
fn rule_clocking_event_identifier() {
    let dialect = system_verilog();
    let src = b"  @clk ";
    let ctx = Parser::new(src, &dialect);
    let (end, node) = clocking_event_identifier(&ctx, 2).unwrap();
    assert_eq!(end, src.len());
    let mut spans = Vec::new();
    node.leaf_spans(&mut spans);
    assert_eq!(spans.first().unwrap().offset, 2);
    let last = spans.last().unwrap();
    assert_eq!(last.offset + last.len, src.len());
    let src = b"?";
    let ctx = Parser::new(src, &dialect);
    let failure = clocking_event_identifier(&ctx, 0).unwrap_err();
    assert_eq!(failure.offset, 0);
    assert!(!failure.committed);
}

#[test]
fn rule_clocking_event_expression() {
    let dialect = system_verilog();
    let src = b"  @(a or b) ";
    let mut ctx = Parser::new(src, &dialect);
    let (end, node) = clocking_event_expression(&mut ctx, 2, 32).unwrap();
    assert_eq!(end, src.len());
    let mut spans = Vec::new();
    node.leaf_spans(&mut spans);
    assert_eq!(spans.first().unwrap().offset, 2);
    let last = spans.last().unwrap();
    assert_eq!(last.offset + last.len, src.len());
    let src = b"?";
    let mut ctx = Parser::new(src, &dialect);
    let failure = clocking_event_expression(&mut ctx, 0, 32).unwrap_err();
    assert_eq!(failure.offset, 0);
    assert!(!failure.committed);
}

#[test]
fn rule_clocking_item_default() {
    let dialect = system_verilog();
    let src = b"  default output #1; ";
    let mut ctx = Parser::new(src, &dialect);
    let (end, node) = clocking_item_default(&mut ctx, 2, 32).unwrap();
    assert_eq!(end, src.len());
    let mut spans = Vec::new();
    node.leaf_spans(&mut spans);
    assert_eq!(spans.first().unwrap().offset, 2);
    let last = spans.last().unwrap();
    assert_eq!(last.offset + last.len, src.len());
    let src = b"?";
    let mut ctx = Parser::new(src, &dialect);
    let failure = clocking_item_default(&mut ctx, 0, 32).unwrap_err();
    assert_eq!(failure.offset, 0);
    assert!(!failure.committed);
}

#[test]
fn rule_clocking_item_direction() {
    let dialect = system_verilog();
    let src = b"  inout a, b; ";
    let mut ctx = Parser::new(src, &dialect);
    let (end, node) = clocking_item_direction(&mut ctx, 2, 32).unwrap();
    assert_eq!(end, src.len());
    let mut spans = Vec::new();
    node.leaf_spans(&mut spans);
    assert_eq!(spans.first().unwrap().offset, 2);
    let last = spans.last().unwrap();
    assert_eq!(last.offset + last.len, src.len());
    let src = b"?";
    let mut ctx = Parser::new(src, &dialect);
    let failure = clocking_item_direction(&mut ctx, 0, 32).unwrap_err();
    assert_eq!(failure.offset, 0);
    assert!(!failure.committed);
}

#[test]
fn rule_clocking_item_assertion() {
    let dialect = system_verilog();
    let src = b"  let x = 1; ";
    let mut ctx = Parser::new(src, &dialect);
    let (end, node) = clocking_item_assertion(&mut ctx, 2, 32).unwrap();
    assert_eq!(end, src.len());
    let mut spans = Vec::new();
    node.leaf_spans(&mut spans);
    assert_eq!(spans.first().unwrap().offset, 2);
    let last = spans.last().unwrap();
    assert_eq!(last.offset + last.len, src.len());
    let src = b"?";
    let mut ctx = Parser::new(src, &dialect);
    let failure = clocking_item_assertion(&mut ctx, 0, 32).unwrap_err();
    assert_eq!(failure.offset, 0);
    assert!(!failure.committed);
}

#[test]
fn rule_default_skew_input() {
    let dialect = system_verilog();
    let src = b"  input #1 ";
    let mut ctx = Parser::new(src, &dialect);
    let (end, node) = default_skew_input(&mut ctx, 2, 32).unwrap();
    assert_eq!(end, src.len());
    let mut spans = Vec::new();
    node.leaf_spans(&mut spans);
    assert_eq!(spans.first().unwrap().offset, 2);
    let last = spans.last().unwrap();
    assert_eq!(last.offset + last.len, src.len());
    let src = b"?";
    let mut ctx = Parser::new(src, &dialect);
    let failure = default_skew_input(&mut ctx, 0, 32).unwrap_err();
    assert_eq!(failure.offset, 0);
    assert!(!failure.committed);
}

#[test]
fn rule_default_skew_output() {
    let dialect = system_verilog();
    let src = b"  output #1 ";
    let mut ctx = Parser::new(src, &dialect);
    let (end, node) = default_skew_output(&mut ctx, 2, 32).unwrap();
    assert_eq!(end, src.len());
    let mut spans = Vec::new();
    node.leaf_spans(&mut spans);
    assert_eq!(spans.first().unwrap().offset, 2);
    let last = spans.last().unwrap();
    assert_eq!(last.offset + last.len, src.len());
    let src = b"?";
    let mut ctx = Parser::new(src, &dialect);
    let failure = default_skew_output(&mut ctx, 0, 32).unwrap_err();
    assert_eq!(failure.offset, 0);
    assert!(!failure.committed);
}

#[test]
fn rule_default_skew_input_output() {
    let dialect = system_verilog();
    let src = b"  input #1 output #2 ";
    let mut ctx = Parser::new(src, &dialect);
    let (end, node) = default_skew_input_output(&mut ctx, 2, 32).unwrap();
    assert_eq!(end, src.len());
    let mut spans = Vec::new();
    node.leaf_spans(&mut spans);
    assert_eq!(spans.first().unwrap().offset, 2);
    let last = spans.last().unwrap();
    assert_eq!(last.offset + last.len, src.len());
    let src = b"?";
    let mut ctx = Parser::new(src, &dialect);
    let failure = default_skew_input_output(&mut ctx, 0, 32).unwrap_err();
    assert_eq!(failure.offset, 0);
    assert!(!failure.committed);
}

#[test]
fn rule_clocking_direction_input() {
    let dialect = system_verilog();
    let src = b"  input posedge ";
    let mut ctx = Parser::new(src, &dialect);
    let (end, node) = clocking_direction_input(&mut ctx, 2, 32).unwrap();
    assert_eq!(end, src.len());
    let mut spans = Vec::new();
    node.leaf_spans(&mut spans);
    assert_eq!(spans.first().unwrap().offset, 2);
    let last = spans.last().unwrap();
    assert_eq!(last.offset + last.len, src.len());
    let src = b"?";
    let mut ctx = Parser::new(src, &dialect);
    let failure = clocking_direction_input(&mut ctx, 0, 32).unwrap_err();
    assert_eq!(failure.offset, 0);
    assert!(!failure.committed);
}

#[test]
fn rule_clocking_direction_output() {
    let dialect = system_verilog();
    let src = b"  output ";
    let mut ctx = Parser::new(src, &dialect);
    let (end, node) = clocking_direction_output(&mut ctx, 2, 32).unwrap();
    assert_eq!(end, src.len());
    let mut spans = Vec::new();
    node.leaf_spans(&mut spans);
    assert_eq!(spans.first().unwrap().offset, 2);
    let last = spans.last().unwrap();
    assert_eq!(last.offset + last.len, src.len());
    let src = b"?";
    let mut ctx = Parser::new(src, &dialect);
    let failure = clocking_direction_output(&mut ctx, 0, 32).unwrap_err();
    assert_eq!(failure.offset, 0);
    assert!(!failure.committed);
}

#[test]
fn rule_clocking_direction_input_output() {
    let dialect = system_verilog();
    let src = b"  input output ";
    let mut ctx = Parser::new(src, &dialect);
    let (end, node) = clocking_direction_input_output(&mut ctx, 2, 32).unwrap();
    assert_eq!(end, src.len());
    let mut spans = Vec::new();
    node.leaf_spans(&mut spans);
    assert_eq!(spans.first().unwrap().offset, 2);
    let last = spans.last().unwrap();
    assert_eq!(last.offset + last.len, src.len());
    let src = b"?";
    let mut ctx = Parser::new(src, &dialect);
    let failure = clocking_direction_input_output(&mut ctx, 0, 32).unwrap_err();
    assert_eq!(failure.offset, 0);
    assert!(!failure.committed);
}

#[test]
fn rule_clocking_direction_inout() {
    let dialect = system_verilog();
    let src = b"  inout ";
    let ctx = Parser::new(src, &dialect);
    let (end, node) = clocking_direction_inout(&ctx, 2).unwrap();
    assert_eq!(end, src.len());
    let mut spans = Vec::new();
    node.leaf_spans(&mut spans);
    assert_eq!(spans.first().unwrap().offset, 2);
    let last = spans.last().unwrap();
    assert_eq!(last.offset + last.len, src.len());
    let src = b"?";
    let ctx = Parser::new(src, &dialect);
    let failure = clocking_direction_inout(&ctx, 0).unwrap_err();
    assert_eq!(failure.offset, 0);
    assert!(!failure.committed);
}

#[test]
fn rule_clocking_decl_assign() {
    let dialect = system_verilog();
    let src = b"  a = b ";
    let mut ctx = Parser::new(src, &dialect);
    let (end, node) = clocking_decl_assign(&mut ctx, 2, 32).unwrap();
    assert_eq!(end, src.len());
    let mut spans = Vec::new();
    node.leaf_spans(&mut spans);
    assert_eq!(spans.first().unwrap().offset, 2);
    let last = spans.last().unwrap();
    assert_eq!(last.offset + last.len, src.len());
    let src = b"?";
    let mut ctx = Parser::new(src, &dialect);
    let failure = clocking_decl_assign(&mut ctx, 0, 32).unwrap_err();
    assert_eq!(failure.offset, 0);
    assert!(!failure.committed);
}

#[test]
fn rule_clocking_skew_edge() {
    let dialect = system_verilog();
    let src = b"  negedge #1 ";
    let mut ctx = Parser::new(src, &dialect);
    let (end, node) = clocking_skew_edge(&mut ctx, 2, 32).unwrap();
    assert_eq!(end, src.len());
    let mut spans = Vec::new();
    node.leaf_spans(&mut spans);
    assert_eq!(spans.first().unwrap().offset, 2);
    let last = spans.last().unwrap();
    assert_eq!(last.offset + last.len, src.len());
    let src = b"?";
    let mut ctx = Parser::new(src, &dialect);
    let failure = clocking_skew_edge(&mut ctx, 0, 32).unwrap_err();
    assert_eq!(failure.offset, 0);
    assert!(!failure.committed);
}

#[test]
fn rule_cycle_delay_integral() {
    let dialect = system_verilog();
    let src = b"  ##1 ";
    let ctx = Parser::new(src, &dialect);
    let (end, node) = cycle_delay_integral(&ctx, 2).unwrap();
    assert_eq!(end, src.len());
    let mut spans = Vec::new();
    node.leaf_spans(&mut spans);
    assert_eq!(spans.first().unwrap().offset, 2);
    let last = spans.last().unwrap();
    assert_eq!(last.offset + last.len, src.len());
    let src = b"?";
    let ctx = Parser::new(src, &dialect);
    let failure = cycle_delay_integral(&ctx, 0).unwrap_err();
    assert_eq!(failure.offset, 0);
    assert!(!failure.committed);
}

#[test]
fn rule_cycle_delay_identifier() {
    let dialect = system_verilog();
    let src = b"  ##n ";
    let ctx = Parser::new(src, &dialect);
    let (end, node) = cycle_delay_identifier(&ctx, 2).unwrap();
    assert_eq!(end, src.len());
    let mut spans = Vec::new();
    node.leaf_spans(&mut spans);
    assert_eq!(spans.first().unwrap().offset, 2);
    let last = spans.last().unwrap();
    assert_eq!(last.offset + last.len, src.len());
    let src = b"?";
    let ctx = Parser::new(src, &dialect);
    let failure = cycle_delay_identifier(&ctx, 0).unwrap_err();
    assert_eq!(failure.offset, 0);
    assert!(!failure.committed);
}

#[test]
fn rule_cycle_delay_expression() {
    let dialect = system_verilog();
    let src = b"  ##(n) ";
    let mut ctx = Parser::new(src, &dialect);
    let (end, node) = cycle_delay_expression(&mut ctx, 2, 32).unwrap();
    assert_eq!(end, src.len());
    let mut spans = Vec::new();
    node.leaf_spans(&mut spans);
    assert_eq!(spans.first().unwrap().offset, 2);
    let last = spans.last().unwrap();
    assert_eq!(last.offset + last.len, src.len());
    let src = b"?";
    let mut ctx = Parser::new(src, &dialect);
    let failure = cycle_delay_expression(&mut ctx, 0, 32).unwrap_err();
    assert_eq!(failure.offset, 0);
    assert!(!failure.committed);
}

#[test]
fn rule_clockvar() {
    let dialect = system_verilog();
    let src = b"  a.b ";
    let ctx = Parser::new(src, &dialect);
    let (end, node) = clockvar(&ctx, 2).unwrap();
    assert_eq!(end, src.len());
    let mut spans = Vec::new();
    node.leaf_spans(&mut spans);
    assert_eq!(spans.first().unwrap().offset, 2);
    let last = spans.last().unwrap();
    assert_eq!(last.offset + last.len, src.len());
    let src = b"?";
    let ctx = Parser::new(src, &dialect);
    let failure = clockvar(&ctx, 0).unwrap_err();
    assert_eq!(failure.offset, 0);
    assert!(!failure.committed);
}

#[test]
fn rule_clockvar_expression() {
    let dialect = system_verilog();
    let src = b"  a.b[1] ";
    let mut ctx = Parser::new(src, &dialect);
    let (end, node) = clockvar_expression(&mut ctx, 2, 32).unwrap();
    assert_eq!(end, src.len());
    let mut spans = Vec::new();
    node.leaf_spans(&mut spans);
    assert_eq!(spans.first().unwrap().offset, 2);
    let last = spans.last().unwrap();
    assert_eq!(last.offset + last.len, src.len());
    let src = b"?";
    let mut ctx = Parser::new(src, &dialect);
    let failure = clockvar_expression(&mut ctx, 0, 32).unwrap_err();
    assert_eq!(failure.offset, 0);
    assert!(!failure.committed);
}

#[test]
fn rule_list_of_parameter_assignments_ordered() {
    let dialect = system_verilog();
    let src = b"  1, 2 ";
    let mut ctx = Parser::new(src, &dialect);
    let (end, node) = list_of_parameter_assignments_ordered(&mut ctx, 2, 32).unwrap();
    assert_eq!(end, src.len());
    let mut spans = Vec::new();
    node.leaf_spans(&mut spans);
    assert_eq!(spans.first().unwrap().offset, 2);
    let last = spans.last().unwrap();
    assert_eq!(last.offset + last.len, src.len());
    let src = b"?";
    let mut ctx = Parser::new(src, &dialect);
    let failure = list_of_parameter_assignments_ordered(&mut ctx, 0, 32).unwrap_err();
    assert_eq!(failure.offset, 0);
    assert!(!failure.committed);
}

#[test]
fn rule_list_of_parameter_assignments_named() {
    let dialect = system_verilog();
    let src = b"  .A(1) ";
    let mut ctx = Parser::new(src, &dialect);
    let (end, node) = list_of_parameter_assignments_named(&mut ctx, 2, 32).unwrap();
    assert_eq!(end, src.len());
    let mut spans = Vec::new();
    node.leaf_spans(&mut spans);
    assert_eq!(spans.first().unwrap().offset, 2);
    let last = spans.last().unwrap();
    assert_eq!(last.offset + last.len, src.len());
    let src = b"?";
    let mut ctx = Parser::new(src, &dialect);
    let failure = list_of_parameter_assignments_named(&mut ctx, 0, 32).unwrap_err();
    assert_eq!(failure.offset, 0);
    assert!(!failure.committed);
}

#[test]
fn rule_ordered_parameter_assignment() {
    let dialect = system_verilog();
    let src = b"  $ ";
    let mut ctx = Parser::new(src, &dialect);
    let (end, node) = ordered_parameter_assignment(&mut ctx, 2, 32).unwrap();
    assert_eq!(end, src.len());
    let mut spans = Vec::new();
    node.leaf_spans(&mut spans);
    assert_eq!(spans.first().unwrap().offset, 2);
    let last = spans.last().unwrap();
    assert_eq!(last.offset + last.len, src.len());
    let src = b"?";
    let mut ctx = Parser::new(src, &dialect);
    let failure = ordered_parameter_assignment(&mut ctx, 0, 32).unwrap_err();
    assert_eq!(failure.offset, 0);
    assert!(!failure.committed);
}

#[test]
fn rule_named_parameter_assignment() {
    let dialect = system_verilog();
    let src = b"  .A() ";
    let mut ctx = Parser::new(src, &dialect);
    let (end, node) = named_parameter_assignment(&mut ctx, 2, 32).unwrap();
    assert_eq!(end, src.len());
    let mut spans = Vec::new();
    node.leaf_spans(&mut spans);
    assert_eq!(spans.first().unwrap().offset, 2);
    let last = spans.last().unwrap();
    assert_eq!(last.offset + last.len, src.len());
    let src = b"?";
    let mut ctx = Parser::new(src, &dialect);
    let failure = named_parameter_assignment(&mut ctx, 0, 32).unwrap_err();
    assert_eq!(failure.offset, 0);
    assert!(!failure.committed);
}

#[test]
fn rule_list_of_port_connections_ordered() {
    let dialect = system_verilog();
    let src = b"  a, b ";
    let mut ctx = Parser::new(src, &dialect);
    let (end, node) = list_of_port_connections_ordered(&mut ctx, 2, 32).unwrap();
    assert_eq!(end, src.len());
    let mut spans = Vec::new();
    node.leaf_spans(&mut spans);
    assert_eq!(spans.first().unwrap().offset, 2);
    let last = spans.last().unwrap();
    assert_eq!(last.offset + last.len, src.len());
    let src = b"?";
    let mut ctx = Parser::new(src, &dialect);
    assert_eq!(list_of_port_connections_ordered(&mut ctx, 0, 32).unwrap().0, 0);
}

#[test]
fn rule_list_of_port_connections_named() {
    let dialect = system_verilog();
    let src = b"  .a, .b(c) ";
    let mut ctx = Parser::new(src, &dialect);
    let (end, node) = list_of_port_connections_named(&mut ctx, 2, 32).unwrap();
    assert_eq!(end, src.len());
    let mut spans = Vec::new();
    node.leaf_spans(&mut spans);
    assert_eq!(spans.first().unwrap().offset, 2);
    let last = spans.last().unwrap();
    assert_eq!(last.offset + last.len, src.len());
    let src = b"?";
    let mut ctx = Parser::new(src, &dialect);
    let failure = list_of_port_connections_named(&mut ctx, 0, 32).unwrap_err();
    assert_eq!(failure.offset, 0);
    assert!(!failure.committed);
}

#[test]
fn rule_named_port_connection_identifier() {
    let dialect = system_verilog();
    let src = b"  .a(b) ";
    let mut ctx = Parser::new(src, &dialect);
    let (end, node) = named_port_connection_identifier(&mut ctx, 2, 32).unwrap();
    assert_eq!(end, src.len());
    let mut spans = Vec::new();
    node.leaf_spans(&mut spans);
    assert_eq!(spans.first().unwrap().offset, 2);
    let last = spans.last().unwrap();
    assert_eq!(last.offset + last.len, src.len());
    let src = b"?";
    let mut ctx = Parser::new(src, &dialect);
    let failure = named_port_connection_identifier(&mut ctx, 0, 32).unwrap_err();
    assert_eq!(failure.offset, 0);
    assert!(!failure.committed);
}

#[test]
fn rule_named_port_connection_asterisk() {
    let dialect = system_verilog();
    let src = b"  .* ";
    let mut ctx = Parser::new(src, &dialect);
    let (end, node) = named_port_connection_asterisk(&mut ctx, 2, 32).unwrap();
    assert_eq!(end, src.len());
    let mut spans = Vec::new();
    node.leaf_spans(&mut spans);
    assert_eq!(spans.first().unwrap().offset, 2);
    let last = spans.last().unwrap();
    assert_eq!(last.offset + last.len, src.len());
    let src = b"?";
    let mut ctx = Parser::new(src, &dialect);
    let failure = named_port_connection_asterisk(&mut ctx, 0, 32).unwrap_err();
    assert_eq!(failure.offset, 0);
    assert!(!failure.committed);
}

#[test]
fn rule_recovery_timing_check() {
    let dialect = system_verilog();
    let src = b"  $recovery(a, b, 1); ";
    let mut ctx = Parser::new(src, &dialect);
    let (end, node) = recovery_timing_check(&mut ctx, 2, 32).unwrap();
    assert_eq!(end, src.len());
    let mut spans = Vec::new();
    node.leaf_spans(&mut spans);
    assert_eq!(spans.first().unwrap().offset, 2);
    let last = spans.last().unwrap();
    assert_eq!(last.offset + last.len, src.len());
    let src = b"?";
    let mut ctx = Parser::new(src, &dialect);
    let failure = recovery_timing_check(&mut ctx, 0, 32).unwrap_err();
    assert_eq!(failure.offset, 0);
    assert!(!failure.committed);
}

#[test]
fn rule_removal_timing_check() {
    let dialect = system_verilog();
    let src = b"  $removal(a, b, 1); ";
    let mut ctx = Parser::new(src, &dialect);
    let (end, node) = removal_timing_check(&mut ctx, 2, 32).unwrap();
    assert_eq!(end, src.len());
    let mut spans = Vec::new();
    node.leaf_spans(&mut spans);
    assert_eq!(spans.first().unwrap().offset, 2);
    let last = spans.last().unwrap();
    assert_eq!(last.offset + last.len, src.len());
    let src = b"?";
    let mut ctx = Parser::new(src, &dialect);
    let failure = removal_timing_check(&mut ctx, 0, 32).unwrap_err();
    assert_eq!(failure.offset, 0);
    assert!(!failure.committed);
}

#[test]
fn rule_recrem_timing_check() {
    let dialect = system_verilog();
    let src = b"  $recrem(a, b, 1, 2); ";
    let mut ctx = Parser::new(src, &dialect);
    let (end, node) = recrem_timing_check(&mut ctx, 2, 32).unwrap();
    assert_eq!(end, src.len());
    let mut spans = Vec::new();
    node.leaf_spans(&mut spans);
    assert_eq!(spans.first().unwrap().offset, 2);
    let last = spans.last().unwrap();
    assert_eq!(last.offset + last.len, src.len());
    let src = b"?";
    let mut ctx = Parser::new(src, &dialect);
    let failure = recrem_timing_check(&mut ctx, 0, 32).unwrap_err();
    assert_eq!(failure.offset, 0);
    assert!(!failure.committed);
}

#[test]
fn rule_skew_timing_check() {
    let dialect = system_verilog();
    let src = b"  $skew(a, b, 1); ";
    let mut ctx = Parser::new(src, &dialect);
    let (end, node) = skew_timing_check(&mut ctx, 2, 32).unwrap();
    assert_eq!(end, src.len());
    let mut spans = Vec::new();
    node.leaf_spans(&mut spans);
    assert_eq!(spans.first().unwrap().offset, 2);
    let last = spans.last().unwrap();
    assert_eq!(last.offset + last.len, src.len());
    let src = b"?";
    let mut ctx = Parser::new(src, &dialect);
    let failure = skew_timing_check(&mut ctx, 0, 32).unwrap_err();
    assert_eq!(failure.offset, 0);
    assert!(!failure.committed);
}

#[test]
fn rule_fullskew_timing_check() {
    let dialect = system_verilog();
    let src = b"  $fullskew(a, b, 1, 2); ";
    let mut ctx = Parser::new(src, &dialect);
    let (end, node) = fullskew_timing_check(&mut ctx, 2, 32).unwrap();
    assert_eq!(end, src.len());
    let mut spans = Vec::new();
    node.leaf_spans(&mut spans);
    assert_eq!(spans.first().unwrap().offset, 2);
    let last = spans.last().unwrap();
    assert_eq!(last.offset + last.len, src.len());
    let src = b"?";
    let mut ctx = Parser::new(src, &dialect);
    let failure = fullskew_timing_check(&mut ctx, 0, 32).unwrap_err();
    assert_eq!(failure.offset, 0);
    assert!(!failure.committed);
}

#[test]
fn rule_period_timing_check() {
    let dialect = system_verilog();
    let src = b"  $period(posedge a, 1); ";
    let mut ctx = Parser::new(src, &dialect);
    let (end, node) = period_timing_check(&mut ctx, 2, 32).unwrap();
    assert_eq!(end, src.len());
    let mut spans = Vec::new();
    node.leaf_spans(&mut spans);
    assert_eq!(spans.first().unwrap().offset, 2);
    let last = spans.last().unwrap();
    assert_eq!(last.offset + last.len, src.len());
    let src = b"?";
    let mut ctx = Parser::new(src, &dialect);
    let failure = period_timing_check(&mut ctx, 0, 32).unwrap_err();
    assert_eq!(failure.offset, 0);
    assert!(!failure.committed);
}

#[test]
fn rule_nocharge_timing_check() {
    let dialect = system_verilog();
    let src = b"  $nocharge(a, b, 1, 2); ";
    let mut ctx = Parser::new(src, &dialect);
    let (end, node) = nocharge_timing_check(&mut ctx, 2, 32).unwrap();
    assert_eq!(end, src.len());
    let mut spans = Vec::new();
    node.leaf_spans(&mut spans);
    assert_eq!(spans.first().unwrap().offset, 2);
    let last = spans.last().unwrap();
    assert_eq!(last.offset + last.len, src.len());
    let src = b"?";
    let mut ctx = Parser::new(src, &dialect);
    let failure = nocharge_timing_check(&mut ctx, 0, 32).unwrap_err();
    assert_eq!(failure.offset, 0);
    assert!(!failure.committed);
}
