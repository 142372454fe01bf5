//! Parsing a whole unit of source text.
//!
//! The caller hands over the full text of one unit. It gets back the node of
//! the unit, or one diagnostic: the failure of the rule, with the line and
//! column of the place where it arose. No partial tree is returned.
use vstd::prelude::*;
use crate::combinator::lift;
use crate::combinator::well_spanned;
use crate::combinator::Parsed;
use crate::context::Dialect;
use crate::context::Input;
use crate::context::Parser;
use crate::failure::Failure;
use crate::failure::FailureKind;
use crate::parser::behavioral_statements::clocking_block::clocking_declaration;
use crate::parser::behavioral_statements::clocking_block::spec_clocking_declaration;
use crate::parser::behavioral_statements::clocking_block::ClockingDeclaration;
use crate::parser::behavioral_statements::statements::spec_statement_or_null;
use crate::parser::behavioral_statements::statements::statement_or_null;
use crate::parser::behavioral_statements::statements::StatementOrNull;
use crate::parser::expressions::expressions::expression;
use crate::parser::expressions::expressions::spec_expression;
use crate::parser::expressions::expressions::Expression;
use crate::parser::instantiations::module_instantiation::module_instantiation;
use crate::parser::instantiations::module_instantiation::spec_module_instantiation;
use crate::parser::instantiations::module_instantiation::ModuleInstantiation;
use crate::parser::nesting::nesting;
use crate::parser::specify_section::system_timing_check_commands::spec_system_timing_check;
use crate::parser::specify_section::system_timing_check_commands::system_timing_check;
use crate::parser::specify_section::system_timing_check_commands::SystemTimingCheck;
use crate::span::position_of;
use crate::span::spec_position_of;
use crate::span::Position;
use crate::text::lemma_run_bound;
use crate::text::run;
use crate::text::space_len;
use crate::text::ByteClass;
use crate::tree::Tree;

verus! {

/// What the caller is told about a unit that does not parse.
#[derive(Clone, Copy, Debug, PartialEq, Eq)]
pub struct Diagnostic {
    /// The identity of the source, as the caller gave it.
    pub file: u32,
    /// The rule that was applied to the unit.
    pub rule: &'static str,
    /// What was expected where the parse failed.
    pub kind: FailureKind,
    /// The byte offset of the failure.
    pub offset: usize,
    /// Its line and column, both counted from zero.
    pub position: Position,
    /// Whether the failure arose after the input had shown which construct
    /// is meant.
    pub committed: bool,
}

/// The diagnostic of a failure of `rule` in the source `src` of `file`.
pub open spec fn spec_diagnose(
    src: Seq<u8>,
    file: u32,
    rule: &'static str,
    f: Failure,
) -> Diagnostic {
    Diagnostic {
        file,
        rule,
        kind: f.kind,
        offset: f.offset,
        position: spec_position_of(src, f.offset as int),
        committed: f.committed,
    }
}

/// The offset at which a unit begins: after the white space at the start of
/// the source.
pub open spec fn unit_start(src: Seq<u8>) -> int {
    run(src, 0, ByteClass::Space) as int
}

/// The outcome of a rule for a whole unit: the tree, if the rule matched up
/// to the end of the source; the failure `EndOfInput` where source is left
/// after what it matched; else the failure of the rule.
pub open spec fn whole(r: Parsed, src: Seq<u8>, file: u32, rule: &'static str) -> Result<
    Tree,
    Diagnostic,
> {
    match r {
        Ok((end, t)) => if end == src.len() {
            Ok(t)
        } else {
            Err(spec_diagnose(src, file, rule, Failure::mismatch(FailureKind::EndOfInput, end)))
        },
        Err(e) => Err(spec_diagnose(src, file, rule, e)),
    }
}

/// The result of parsing a unit as the specification sees it: the node is
/// replaced by its tree.
pub open spec fn lift_unit<T>(r: Result<T, Diagnostic>, tree: spec_fn(T) -> Tree) -> Result<
    Tree,
    Diagnostic,
> {
    match r {
        Ok(node) => Ok(tree(node)),
        Err(d) => Err(d),
    }
}

/// The diagnostic of a failure, with its line and column.
pub fn diagnose(src: &[u8], file: u32, rule: &'static str, f: Failure) -> (d: Diagnostic)
    requires
        f.offset <= src@.len(),
    ensures
        d == spec_diagnose(src@, file, rule, f),
{
    Diagnostic {
        file,
        rule,
        kind: f.kind,
        offset: f.offset,
        position: position_of(src, f.offset),
        committed: f.committed,
    }
}

/// The outcome of a rule, taken as the outcome for the whole unit.
pub fn finish_unit<T>(
    src: &[u8],
    file: u32,
    rule: &'static str,
    r: Result<(usize, T), Failure>,
) -> (out: Result<T, Diagnostic>)
    requires
        r matches Ok((end, _)) ==> end <= src@.len(),
        r matches Err(e) ==> e.offset <= src@.len(),
    ensures
        forall|tree: spec_fn(T) -> Tree| #[trigger]
            lift_unit(out, tree) == whole(lift(r, tree), src@, file, rule),
{
    let total = src.len();
    match r {
        Ok((end, node)) => {
            if end == total {
                Ok(node)
            } else {
                Err(diagnose(src, file, rule, Failure::new(FailureKind::EndOfInput, end)))
            }
        },
        Err(e) => Err(diagnose(src, file, rule, e)),
    }
}

/// Parses `src` as one statement, nested at most `depth` levels deep.
pub fn parse_statement(src: &[u8], file: u32, dialect: &Dialect, depth: usize) -> (r: Result<
    StatementOrNull,
    Diagnostic,
>)
    ensures
        lift_unit(r, |n: StatementOrNull| n.tree()) == whole(
            spec_statement_or_null(
                Input { src: src@, dialect: *dialect },
                unit_start(src@),
                depth as nat,
            ),
            src@,
            file,
            "statement_or_null",
        ),
{
    let mut ctx = Parser::new(src, dialect);
    let start = space_len(src, 0);
    proof {
        lemma_run_bound(src@, 0, ByteClass::Space);
    }
    let r = statement_or_null(&mut ctx, start, depth);
    finish_unit(src, file, "statement_or_null", r)
}

/// Parses `src` as one expression, nested at most `depth` levels deep.
pub fn parse_expression(src: &[u8], file: u32, dialect: &Dialect, depth: usize) -> (r: Result<
    Expression,
    Diagnostic,
>)
    ensures
        lift_unit(r, |n: Expression| n.tree()) == whole(
            spec_expression(Input { src: src@, dialect: *dialect }, unit_start(src@), depth as nat),
            src@,
            file,
            "expression",
        ),
{
    let mut ctx = Parser::new(src, dialect);
    let start = space_len(src, 0);
    proof {
        lemma_run_bound(src@, 0, ByteClass::Space);
    }
    let r = expression(&mut ctx, start, depth);
    finish_unit(src, file, "expression", r)
}

/// Parses `src` as one module instantiation, with expressions nested at most
/// `depth` levels deep.
pub fn parse_module_instantiation(src: &[u8], file: u32, dialect: &Dialect, depth: usize) -> (r:
    Result<ModuleInstantiation, Diagnostic>)
    ensures
        lift_unit(r, |n: ModuleInstantiation| n.tree()) == whole(
            spec_module_instantiation(
                Input { src: src@, dialect: *dialect },
                unit_start(src@),
                nesting(Input { src: src@, dialect: *dialect }, depth as nat),
            ),
            src@,
            file,
            "module_instantiation",
        ),
{
    let mut ctx = Parser::new(src, dialect);
    let start = space_len(src, 0);
    proof {
        lemma_run_bound(src@, 0, ByteClass::Space);
    }
    let r = module_instantiation(&mut ctx, start, depth);
    finish_unit(src, file, "module_instantiation", r)
}

/// Parses `src` as one clocking declaration, with expressions nested at most
/// `depth` levels deep.
pub fn parse_clocking_declaration(src: &[u8], file: u32, dialect: &Dialect, depth: usize) -> (r:
    Result<ClockingDeclaration, Diagnostic>)
    ensures
        lift_unit(r, |n: ClockingDeclaration| n.tree()) == whole(
            spec_clocking_declaration(
                Input { src: src@, dialect: *dialect },
                unit_start(src@),
                nesting(Input { src: src@, dialect: *dialect }, depth as nat),
            ),
            src@,
            file,
            "clocking_declaration",
        ),
{
    let mut ctx = Parser::new(src, dialect);
    let start = space_len(src, 0);
    proof {
        lemma_run_bound(src@, 0, ByteClass::Space);
    }
    let r = clocking_declaration(&mut ctx, start, depth);
    finish_unit(src, file, "clocking_declaration", r)
}

/// Parses `src` as one system timing check, with expressions nested at most
/// `depth` levels deep.
pub fn parse_system_timing_check(src: &[u8], file: u32, dialect: &Dialect, depth: usize) -> (r:
    Result<SystemTimingCheck, Diagnostic>)
    ensures
        lift_unit(r, |n: SystemTimingCheck| n.tree()) == whole(
            spec_system_timing_check(
                Input { src: src@, dialect: *dialect },
                unit_start(src@),
                nesting(Input { src: src@, dialect: *dialect }, depth as nat),
            ),
            src@,
            file,
            "system_timing_check",
        ),
{
    let mut ctx = Parser::new(src, dialect);
    let start = space_len(src, 0);
    proof {
        lemma_run_bound(src@, 0, ByteClass::Space);
    }
    let r = system_timing_check(&mut ctx, start, depth);
    finish_unit(src, file, "system_timing_check", r)
}

} // verus!
