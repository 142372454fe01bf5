//! The tables of SystemVerilog, as far as this grammar goes.
use vstd::prelude::*;
use crate::context::Dialect;

verus! {

/// The reserved words.
pub open spec fn reserved_words() -> Seq<&'static str> {
    seq![
        "always", "and", "assert", "assign", "begin", "bit", "case", "casex", "casez",
        "clocking", "default", "edge", "else", "end", "endcase", "endclocking", "endfunction",
        "endmodule", "endtask", "for", "forever", "function", "global", "if", "iff", "initial",
        "inout", "input", "inside", "int", "integer", "let", "logic", "matches", "module",
        "negedge", "not", "or", "output", "parameter", "posedge", "priority", "randcase", "reg",
        "return", "task", "unique", "unique0", "void", "while", "wire", "xor",
    ]
}

/// The unary operators, each before the shorter ones it begins with.
pub open spec fn unary_operators() -> Seq<&'static str> {
    seq!["~&", "~|", "~^", "^~", "+", "-", "!", "~", "&", "|", "^"]
}

/// The binary operators, each before the shorter ones it begins with.
pub open spec fn binary_operators() -> Seq<&'static str> {
    seq![
        "<<<", ">>>", "===", "!==", "==?", "!=?", "**", "==", "!=", "<=", ">=", "&&", "||", "<<",
        ">>", "->", "^~", "~^", "+", "-", "*", "/", "%", "<", ">", "&", "|", "^",
    ]
}

/// The punctuation that begins like a binary operator: `&&&` separates a
/// pattern, or an event, from its condition.
pub open spec fn operator_like_punctuation() -> Seq<&'static str> {
    seq!["&&&"]
}

/// The dialect that this grammar was written for.
pub fn system_verilog() -> (d: Dialect)
    ensures
        d.reserved@ == reserved_words(),
        d.unary_operators@ == unary_operators(),
        d.binary_operators@ == binary_operators(),
        d.punctuation@ == operator_like_punctuation(),
{
    Dialect {
        reserved: vec![
            "always", "and", "assert", "assign", "begin", "bit", "case", "casex", "casez",
            "clocking", "default", "edge", "else", "end", "endcase", "endclocking", "endfunction",
            "endmodule", "endtask", "for", "forever", "function", "global", "if", "iff", "initial",
            "inout", "input", "inside", "int", "integer", "let", "logic", "matches", "module",
            "negedge", "not", "or", "output", "parameter", "posedge", "priority", "randcase", "reg",
            "return", "task", "unique", "unique0", "void", "while", "wire", "xor",
        ],
        unary_operators: vec!["~&", "~|", "~^", "^~", "+", "-", "!", "~", "&", "|", "^"],
        binary_operators: vec![
            "<<<", ">>>", "===", "!==", "==?", "!=?", "**", "==", "!=", "<=", ">=", "&&", "||",
            "<<", ">>", "->", "^~", "~^", "+", "-", "*", "/", "%", "<", ">", "&", "|", "^",
        ],
        punctuation: vec!["&&&"],
    }
}

} // verus!
