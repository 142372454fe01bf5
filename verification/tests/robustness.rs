use sv_parser::context::Parser;
use sv_parser::dialect::system_verilog;
use sv_parser::parser::behavioral_statements::clocking_block::clocking_declaration;
use sv_parser::parser::behavioral_statements::statements::statement_or_null;
use sv_parser::parser::expressions::expressions::expression;
use sv_parser::parser::instantiations::module_instantiation::module_instantiation;
use sv_parser::parser::specify_section::system_timing_check_commands::system_timing_check;
use sv_parser::span::Span;

const WORDS: [&str; 48] = [
    "a", "b", "x1", "top", "1", "42", "(", ")", "[", "]", ";", ":", ",", ".", ".*", "=", "==", "+",
    "-", "!", "&&", "&&&", "?", "#", "##", "@", "'{", "}", "(*", "*)", "case", "casex", "endcase",
    "default", "if", "else", "begin", "end", "unique", "matches", "inside", "posedge", "$setup",
    "$hold", "clocking", "endclocking", "input", "\"s\"",
];

fn next(state: &mut u64) -> usize {
    *state = state.wrapping_mul(6364136223846793005).wrapping_add(1442695040888963407);
    (*state >> 33) as usize
}

fn sentence(state: &mut u64) -> Vec<u8> {
    let mut out = Vec::new();
    let words = 1 + next(state) % 12;
    for _ in 0..words {
        out.extend_from_slice(WORDS[next(state) % WORDS.len()].as_bytes());
        match next(state) % 4 {
            0 => {}
            1 => out.push(b'\n'),
            _ => out.push(b' '),
        }
    }
    out
}

fn tiles(spans: &Vec<Span>, start: usize, end: usize) {
    let mut at = start;
    for s in spans {
        assert_eq!(s.offset, at);
        at += s.len;
    }
    assert_eq!(at, end);
}

#[test]
fn arbitrary_input_gives_a_tree_or_a_failure_inside_the_source() {
    let dialect = system_verilog();
    let mut state = 7;
    let mut matched = 0;
    for _ in 0..3000 {
        let src = sentence(&mut state);
        let mut ctx = Parser::new(&src, &dialect);
        let mut spans = Vec::new();
        let outcome = match next(&mut state) % 5 {
            0 => statement_or_null(&mut ctx, 0, 6).map(|(end, n)| {
                n.leaf_spans(&mut spans);
                end
            }),
            1 => expression(&mut ctx, 0, 6).map(|(end, n)| {
                n.leaf_spans(&mut spans);
                end
            }),
            2 => module_instantiation(&mut ctx, 0, 6).map(|(end, n)| {
                n.leaf_spans(&mut spans);
                end
            }),
            3 => clocking_declaration(&mut ctx, 0, 6).map(|(end, n)| {
                n.leaf_spans(&mut spans);
                end
            }),
            _ => system_timing_check(&mut ctx, 0, 6).map(|(end, n)| {
                n.leaf_spans(&mut spans);
                end
            }),
        };
        match outcome {
            Ok(end) => {
                assert!(end <= src.len());
                tiles(&spans, 0, end);
                matched += 1;
            }
            Err(f) => assert!(f.offset <= src.len()),
        }
    }
    assert!(matched > 0);
}

#[test]
fn parsing_twice_gives_the_same_outcome() {
    let dialect = system_verilog();
    let mut state = 99;
    for _ in 0..500 {
        let src = sentence(&mut state);
        let mut first = Parser::new(&src, &dialect);
        let mut second = Parser::new(&src, &dialect);
        let mut a = Vec::new();
        let mut b = Vec::new();
        let x = statement_or_null(&mut first, 0, 5).map(|(end, n)| {
            n.leaf_spans(&mut a);
            end
        });
        let _ = expression(&mut second, 0, 5);
        let y = statement_or_null(&mut second, 0, 5).map(|(end, n)| {
            n.leaf_spans(&mut b);
            end
        });
        assert_eq!(x, y);
        assert_eq!(a, b);
    }
}
