use sv_parser::context::Parser;
use sv_parser::dialect::system_verilog;
use sv_parser::parser::behavioral_statements::clocking_block::clocking_declaration;
use sv_parser::parser::behavioral_statements::patterns::pattern;
use sv_parser::parser::behavioral_statements::statements::statement_or_null;
use sv_parser::parser::expressions::expressions::expression;
use sv_parser::parser::expressions::subroutine_calls::list_of_arguments;
use sv_parser::parser::instantiations::module_instantiation::module_instantiation;
use sv_parser::parser::specify_section::system_timing_check_commands::system_timing_check;
use sv_parser::span::span_of_children;
use sv_parser::span::text_of_span;
use sv_parser::span::Span;
use sv_parser::token::keyword;

fn reproduces(src: &[u8], start: usize, end: usize, spans: &Vec<Span>) {
    let mut at = start;
    let mut text = Vec::new();
    for s in spans {
        assert_eq!(s.offset, at);
        at += s.len;
        text.extend_from_slice(text_of_span(src, *s));
    }
    assert_eq!(at, end);
    assert_eq!(text, &src[start..end]);
    if spans.is_empty() {
        assert_eq!(start, end);
    } else {
        assert_eq!(span_of_children(spans), Some(Span { offset: start, len: end - start }));
    }
}

#[test]
fn leaves_of_a_keyword() {
    let src = b"endcase  ";
    let dialect = system_verilog();
    let ctx = Parser::new(src, &dialect);
    let (end, k) = keyword(&ctx, 0, "endcase").unwrap();
    let mut spans = vec![Span { offset: 99, len: 1 }];
    k.leaf_spans(&mut spans);
    assert_eq!(
        spans,
        vec![Span { offset: 99, len: 1 }, Span { offset: 0, len: 7 }, Span { offset: 7, len: 2 }]
    );
    assert_eq!(k.span(), Span { offset: 0, len: 7 });
    assert_eq!(end, 9);
}

#[test]
fn leaves_of_a_statement_reproduce_the_source() {
    let src = b"x = 0;  unique case (a.b[2] + 1)\n  1, 2: begin y = (a) ? b : c; f(1); end\n  3: if (p, q matches '{.v, .*}) ; else z = ~w;\n  default: ;\nendcase\n";
    let dialect = system_verilog();
    let mut ctx = Parser::new(src, &dialect);
    let (end, s) = statement_or_null(&mut ctx, 8, 32).unwrap();
    assert_eq!(end, src.len());
    let mut spans = Vec::new();
    s.leaf_spans(&mut spans);
    reproduces(src, 8, end, &spans);
    assert_eq!(spans.len() % 2, 0);
    assert_eq!(spans[0], Span { offset: 8, len: 6 });
}

#[test]
fn leaves_of_an_instantiation_reproduce_the_source() {
    let src = b"fifo #(.W(8), .D()) f0 [3:0] ((* keep *) .clk(c), .d(x[1]), .*), f1 (a, , b);";
    let dialect = system_verilog();
    let mut ctx = Parser::new(src, &dialect);
    let (end, m) = module_instantiation(&mut ctx, 0, 32).unwrap();
    assert_eq!(end, src.len());
    let mut spans = Vec::new();
    m.leaf_spans(&mut spans);
    reproduces(src, 0, end, &spans);
    let mut part = Vec::new();
    m.nodes.2.nodes.1[0].1.leaf_spans(&mut part);
    reproduces(src, 65, 76, &part);
}

#[test]
fn leaves_of_a_clocking_block_reproduce_the_source() {
    let src = b"clocking cb @(posedge clk or negedge rst iff en);\n default input #1 output #(d);\n input negedge output posedge #2 a = x, b;\n inout c;\n (* k = 1 *) let w = a;\nendclocking : cb\n";
    let dialect = system_verilog();
    let mut ctx = Parser::new(src, &dialect);
    let (end, c) = clocking_declaration(&mut ctx, 0, 32).unwrap();
    assert_eq!(end, src.len());
    let mut spans = Vec::new();
    c.leaf_spans(&mut spans);
    reproduces(src, 0, end, &spans);
}

#[test]
fn leaves_of_timing_checks_reproduce_the_source() {
    let dialect = system_verilog();
    let cases: [&[u8]; 4] = [
        b"$setuphold ( posedge clk &&& en , d [ 1 ] , 3 , 2 , n , , c , dr , dd [ 0 ] ) ; ",
        b"$fullskew(a, b, 1, 2, , 1, 0);",
        b"$width(edge clk, 1, 0);",
        b"$nocharge(a, b, 1, 2, n);",
    ];
    for src in cases {
        let mut ctx = Parser::new(src, &dialect);
        let (end, c) = system_timing_check(&mut ctx, 0, 32).unwrap();
        assert_eq!(end, src.len());
        let mut spans = Vec::new();
        c.leaf_spans(&mut spans);
        reproduces(src, 0, end, &spans);
    }
}

#[test]
fn a_copy_has_the_same_leaves() {
    let dialect = system_verilog();
    let src = b"(a.b[1], c matches '{.x, .*}) ? f(1, \"s\") : -top.y[i + 1] * $bits(z)";
    let mut ctx = Parser::new(src, &dialect);
    let (end, e) = expression(&mut ctx, 0, 32).unwrap();
    assert_eq!(end, src.len());
    let copy = e.clone();
    let mut a = Vec::new();
    let mut b = Vec::new();
    e.leaf_spans(&mut a);
    copy.leaf_spans(&mut b);
    assert_eq!(a, b);
    reproduces(src, 0, end, &b);
    let src = b"'{.a, '{1, .*}, x + 1}";
    let mut ctx = Parser::new(src, &dialect);
    let (end, p) = pattern(&mut ctx, 0, 32).unwrap();
    let copy = p.clone();
    let mut a = Vec::new();
    let mut b = Vec::new();
    p.leaf_spans(&mut a);
    copy.leaf_spans(&mut b);
    assert_eq!(a, b);
    reproduces(src, 0, end, &a);
}

#[test]
fn list_counts_its_items() {
    let dialect = system_verilog();
    let src = b"a, b + 1, (c)";
    let mut ctx = Parser::new(src, &dialect);
    let (end, args) = list_of_arguments(&mut ctx, 0, 32).unwrap();
    assert_eq!(end, src.len());
    assert_eq!(args.nodes.0.len(), 3);
    assert_eq!(args.nodes.0.nodes.1[0].0.nodes.0, Span { offset: 1, len: 1 });
}
